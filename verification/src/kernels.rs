//! Integer parts of the quantised kernels, and the ranking of scores.
//!
//! A quantised dot product is a sum of small integers that is scaled once for each
//! block. The sums are exact and stand here.
#![allow(non_camel_case_types)]
use vstd::prelude::*;

use crate::bytes::{le, u16_le};
use crate::sampling::before;
use crate::single::{greater, is_greater, nan};
use crate::types::QK_K;

verus! {

/// Blocks of `QK_K` elements that cover `in_dim` elements.
pub fn q8k_blocks(in_dim: u64) -> (r: u64)
    requires
        in_dim + QK_K <= u64::MAX,
    ensures
        r == (in_dim + QK_K - 1) / QK_K as int,
        r * QK_K >= in_dim,
        in_dim > 0 ==> (r - 1) * QK_K < in_dim,
{
    (in_dim + QK_K as u64 - 1) / QK_K as u64
}

// ── Blocks ───────────────────────────────────────────────────────────────

/// A block of 256 elements of two bits each.
#[derive(Debug, Clone, Copy)]
pub struct block_q2_K {
    /// For each 16 elements a scale in the low half and a minimum in the high half.
    pub scales: [u8; 16],
    /// Four elements in each byte.
    pub qs: [u8; 64],
    /// Scale of the scales, a half.
    pub d: u16,
    /// Scale of the minima, a half.
    pub dmin: u16,
}

/// A block of 256 elements of four bits each.
#[derive(Debug, Clone, Copy)]
pub struct block_q4_K {
    pub d: u16,
    pub dmin: u16,
    pub scales: [u8; 12],
    pub qs: [u8; 128],
}

/// A block of 256 activations of eight bits each.
#[derive(Debug, Clone, Copy)]
pub struct block_q8_K {
    /// Scale, the bit pattern of a single.
    pub d: u32,
    pub qs: [i8; 256],
    /// Sums of 16 elements each.
    pub bsums: [i16; 16],
}

/// A block of 256 elements as indices into a grid, with signs.
#[derive(Debug, Clone, Copy)]
pub struct block_iq2_xxs {
    /// Scale, a half.
    pub d: u16,
    /// Four words for each 32 elements: four grid indices, four times seven sign bits
    /// and four bits of scale.
    pub qs: [u16; 32],
}

/// Entries of the grid: eight bytes each.
pub const IQ2XXS_GRID: [u64; 256] = [
    0x0808080808080808, 0x080808080808082b, 0x0808080808081919, 0x0808080808082b08,
    0x0808080808082b2b, 0x0808080808190819, 0x0808080808191908, 0x08080808082b0808,
    0x08080808082b082b, 0x08080808082b2b08, 0x08080808082b2b2b, 0x0808080819080819,
    0x0808080819081908, 0x0808080819190808, 0x0808080819192b08, 0x08080808192b0819,
    0x08080808192b1908, 0x080808082b080808, 0x080808082b08082b, 0x080808082b082b2b,
    0x080808082b2b082b, 0x0808081908080819, 0x0808081908081908, 0x0808081908190808,
    0x0808081908191919, 0x0808081919080808, 0x080808192b081908, 0x080808192b192b08,
    0x0808082b08080808, 0x0808082b0808082b, 0x0808082b082b082b, 0x0808082b2b08082b,
    0x0808190808080819, 0x0808190808081908, 0x0808190808190808, 0x08081908082b0819,
    0x08081908082b1908, 0x0808190819080808, 0x080819081908082b, 0x0808190819082b08,
    0x08081908192b0808, 0x080819082b080819, 0x080819082b081908, 0x080819082b190808,
    0x080819082b2b1908, 0x0808191908080808, 0x080819190808082b, 0x0808191908082b08,
    0x08081919082b0808, 0x080819191908192b, 0x08081919192b2b19, 0x080819192b080808,
    0x080819192b190819, 0x0808192b08082b19, 0x0808192b08190808, 0x0808192b19080808,
    0x0808192b2b081908, 0x0808192b2b2b1908, 0x08082b0808080808, 0x08082b0808081919,
    0x08082b0808082b08, 0x08082b0808191908, 0x08082b08082b2b08, 0x08082b0819080819,
    0x08082b0819081908, 0x08082b0819190808, 0x08082b081919082b, 0x08082b082b082b08,
    0x08082b1908081908, 0x08082b1919080808, 0x08082b2b0808082b, 0x08082b2b08191908,
    0x0819080808080819, 0x0819080808081908, 0x0819080808190808, 0x08190808082b0819,
    0x0819080819080808, 0x08190808192b0808, 0x081908082b081908, 0x081908082b190808,
    0x081908082b191919, 0x0819081908080808, 0x0819081908082b08, 0x08190819082b0808,
    0x0819081919190808, 0x0819081919192b2b, 0x081908192b080808, 0x0819082b082b1908,
    0x0819082b19081919, 0x0819190808080808, 0x0819190808082b08, 0x08191908082b0808,
    0x08191908082b1919, 0x0819190819082b19, 0x081919082b080808, 0x0819191908192b08,
    0x08191919192b082b, 0x0819192b08080808, 0x0819192b0819192b, 0x08192b0808080819,
    0x08192b0808081908, 0x08192b0808190808, 0x08192b0819080808, 0x08192b082b080819,
    0x08192b1908080808, 0x08192b1908081919, 0x08192b192b2b0808, 0x08192b2b19190819,
    0x082b080808080808, 0x082b08080808082b, 0x082b080808082b2b, 0x082b080819081908,
    0x082b0808192b0819, 0x082b08082b080808, 0x082b08082b08082b, 0x082b0819082b2b19,
    0x082b081919082b08, 0x082b082b08080808, 0x082b082b0808082b, 0x082b190808080819,
    0x082b190808081908, 0x082b190808190808, 0x082b190819080808, 0x082b19081919192b,
    0x082b191908080808, 0x082b191919080819, 0x082b1919192b1908, 0x082b192b2b190808,
    0x082b2b0808082b08, 0x082b2b08082b0808, 0x082b2b082b191908, 0x082b2b2b19081908,
    0x1908080808080819, 0x1908080808081908, 0x1908080808190808, 0x1908080808192b08,
    0x19080808082b0819, 0x19080808082b1908, 0x1908080819080808, 0x1908080819082b08,
    0x190808081919192b, 0x19080808192b0808, 0x190808082b080819, 0x190808082b081908,
    0x190808082b190808, 0x1908081908080808, 0x19080819082b0808, 0x19080819192b0819,
    0x190808192b080808, 0x190808192b081919, 0x1908082b08080819, 0x1908082b08190808,
    0x1908082b19082b08, 0x1908082b1919192b, 0x1908082b192b2b08, 0x1908190808080808,
    0x1908190808082b08, 0x19081908082b0808, 0x190819082b080808, 0x190819082b192b19,
    0x190819190819082b, 0x19081919082b1908, 0x1908192b08080808, 0x19082b0808080819,
    0x19082b0808081908, 0x19082b0808190808, 0x19082b0819080808, 0x19082b0819081919,
    0x19082b1908080808, 0x19082b1919192b08, 0x19082b19192b0819, 0x19082b192b08082b,
    0x19082b2b19081919, 0x19082b2b2b190808, 0x1919080808080808, 0x1919080808082b08,
    0x1919080808190819, 0x1919080808192b19, 0x19190808082b0808, 0x191908082b080808,
    0x191908082b082b08, 0x1919081908081908, 0x191908191908082b, 0x191908192b2b1908,
    0x1919082b2b190819, 0x191919082b190808, 0x191919082b19082b, 0x1919191908082b2b,
    0x1919192b08080819, 0x1919192b19191908, 0x19192b0808080808, 0x19192b0808190819,
    0x19192b0808192b19, 0x19192b08192b1908, 0x19192b1919080808, 0x19192b2b08082b08,
    0x192b080808081908, 0x192b080808190808, 0x192b080819080808, 0x192b0808192b2b08,
    0x192b081908080808, 0x192b081919191919, 0x192b082b08192b08, 0x192b082b192b0808,
    0x192b190808080808, 0x192b190808081919, 0x192b191908190808, 0x192b19190819082b,
    0x192b19192b081908, 0x192b2b081908082b, 0x2b08080808080808, 0x2b0808080808082b,
    0x2b08080808082b2b, 0x2b08080819080819, 0x2b0808082b08082b, 0x2b08081908081908,
    0x2b08081908192b08, 0x2b08081919080808, 0x2b08082b08190819, 0x2b08190808080819,
    0x2b08190808081908, 0x2b08190808190808, 0x2b08190808191919, 0x2b08190819080808,
    0x2b081908192b0808, 0x2b08191908080808, 0x2b0819191908192b, 0x2b0819192b191908,
    0x2b08192b08082b19, 0x2b08192b19080808, 0x2b08192b192b0808, 0x2b082b080808082b,
    0x2b082b1908081908, 0x2b082b2b08190819, 0x2b19080808081908, 0x2b19080808190808,
    0x2b190808082b1908, 0x2b19080819080808, 0x2b1908082b2b0819, 0x2b1908190819192b,
    0x2b1908192b080808, 0x2b19082b19081919, 0x2b19190808080808, 0x2b191908082b082b,
    0x2b19190819081908, 0x2b19191919190819, 0x2b192b082b080819, 0x2b192b19082b0808,
    0x2b2b08080808082b, 0x2b2b080819190808, 0x2b2b08082b081919, 0x2b2b081908082b19,
    0x2b2b082b08080808, 0x2b2b190808192b08, 0x2b2b2b0819190808, 0x2b2b2b1908081908,
];

// ── Two-bit blocks ───────────────────────────────────────────────────────

/// The `i`th pair of bits of a byte.
pub open spec fn bit_pair(b: u8, i: int) -> int {
    if i <= 0 {
        b as int % 4
    } else if i == 1 {
        b as int / 4 % 4
    } else if i == 2 {
        b as int / 16 % 4
    } else {
        b as int / 64
    }
}

/// Element `e` of a block. A byte holds one element of each of four runs of 32.
pub open spec fn q2_element(b: block_q2_K, e: int) -> int {
    bit_pair(b.qs@[e / 128 * 32 + e % 32], e % 128 / 32)
}

/// Element `e` times the scale of its run of 16.
pub open spec fn q2_weight(b: block_q2_K, e: int) -> int {
    q2_element(b, e) * (b.scales@[e / 16] as int % 16)
}

/// The sum of the products of the first `n` elements with their activations.
pub open spec fn q2_dot(b: block_q2_K, q8: Seq<i8>, n: nat) -> int
    decreases n,
{
    if n == 0 {
        0
    } else {
        q2_dot(b, q8, (n - 1) as nat) + q2_weight(b, n - 1) * q8[n - 1]
    }
}

/// The sum of the products of the first `n` minima with the sums of their activations.
pub open spec fn q2_mins(b: block_q2_K, sums: Seq<i16>, n: nat) -> int
    decreases n,
{
    if n == 0 {
        0
    } else {
        q2_mins(b, sums, (n - 1) as nat) + (b.scales@[n - 1] as int / 16) * sums[n - 1]
    }
}

proof fn lemma_product(a: int, x: int, most: int, bound: int)
    requires
        0 <= a <= most,
        -bound <= x <= bound,
    ensures
        -(most * bound) <= a * x <= most * bound,
{
    assert(-(most * bound) <= a * x <= most * bound) by (nonlinear_arith)
        requires
            0 <= a <= most,
            -bound <= x <= bound,
    ;
}

fn q2_weight_at(b: &block_q2_K, e: usize) -> (r: i32)
    requires
        e < 256,
    ensures
        r == q2_weight(*b, e as int),
        0 <= r <= 45,
{
    let byte: u8 = b.qs[e / 128 * 32 + e % 32];
    let pair: usize = e % 128 / 32;
    let q: u8 = if pair == 0 {
        byte % 4
    } else if pair == 1 {
        byte / 4 % 4
    } else if pair == 2 {
        byte / 16 % 4
    } else {
        byte / 64
    };
    let scale: u8 = b.scales[e / 16] % 16;
    proof {
        lemma_product(q as int, scale as int, 3, 15);
        assert(0 <= q * scale) by (nonlinear_arith)
            requires
                q >= 0,
                scale >= 0,
        ;
    }
    q as i32 * scale as i32
}

/// The integer sums of a two-bit block with a block of activations: of the elements, and
/// of the minima.
pub fn q2_block_sums(x: &block_q2_K, y: &block_q8_K) -> (r: (i32, i32))
    ensures
        r.0 == q2_dot(*x, y.qs@, 256),
        r.1 == q2_mins(*x, y.bsums@, 16),
{
    let mut sum: i32 = 0;
    let mut e: usize = 0;
    while e < 256
        invariant
            e <= 256,
            sum == q2_dot(*x, y.qs@, e as nat),
            -5760 * e <= sum <= 5760 * e,
        decreases 256 - e,
    {
        let w: i32 = q2_weight_at(x, e);
        let a: i32 = y.qs[e] as i32;
        proof {
            lemma_product(w as int, a as int, 45, 128);
        }
        sum = sum + w * a;
        e = e + 1;
    }
    let mut mins: i32 = 0;
    let mut j: usize = 0;
    while j < 16
        invariant
            j <= 16,
            mins == q2_mins(*x, y.bsums@, j as nat),
            -491520 * j <= mins <= 491520 * j,
        decreases 16 - j,
    {
        let m: i32 = (x.scales[j] / 16) as i32;
        let s: i32 = y.bsums[j] as i32;
        proof {
            lemma_product(m as int, s as int, 15, 32768);
        }
        mins = mins + m * s;
        j = j + 1;
    }
    (sum, mins)
}

// ── Grid blocks ──────────────────────────────────────────────────────────

/// Byte `i` of a number, from the lowest on.
pub open spec fn byte_of(g: int, i: int) -> int
    decreases i,
{
    if i <= 0 {
        g % 256
    } else {
        byte_of(g / 256, i - 1)
    }
}

/// The seven bits of a number that start at bit `7 * i`.
pub open spec fn seven_bits(g: int, i: int) -> int
    decreases i,
{
    if i <= 0 {
        g % 128
    } else {
        seven_bits(g / 128, i - 1)
    }
}

/// How many of the bits of a number below bit `n` are one.
pub open spec fn ones(g: int, n: int) -> int
    decreases n,
{
    if n <= 0 {
        0
    } else {
        g % 2 + ones(g / 2, n - 1)
    }
}

/// Bit `i` of a number.
pub open spec fn bit_of(g: int, i: int) -> int
    decreases i,
{
    if i <= 0 {
        g % 2
    } else {
        bit_of(g / 2, i - 1)
    }
}

/// Whether element `i` of eight is negated by the sign pattern `s` of seven bits. The
/// eighth sign makes the number of negated elements even.
pub open spec fn negated(s: int, i: int) -> bool {
    if i < 7 {
        bit_of(s, i) == 1
    } else {
        ones(s, 7) % 2 == 1
    }
}

/// The second pair of words of group `g`: signs and scale.
pub open spec fn iq2_signs(b: block_iq2_xxs, g: int) -> int {
    b.qs@[4 * g + 2] + b.qs@[4 * g + 3] * 65536
}

/// Element `e` of a block times the scale of its group of 32. An eighth of the scale is
/// left to the caller.
pub open spec fn iq2_weight(b: block_iq2_xxs, e: int) -> int {
    let g = e / 32;
    let l = e % 32 / 8;
    let i = e % 8;
    let entry = IQ2XXS_GRID@[byte_of(b.qs@[4 * g + l / 2] as int, l % 2)];
    let v = byte_of(entry as int, i);
    let scale = 2 * (iq2_signs(b, g) / 0x1000_0000) + 1;
    (if negated(seven_bits(iq2_signs(b, g), l), i) {
        -v
    } else {
        v
    }) * scale
}

/// The sum of the products of the first `n` elements with their activations.
pub open spec fn iq2_dot(b: block_iq2_xxs, q8: Seq<i8>, n: nat) -> int
    decreases n,
{
    if n == 0 {
        0
    } else {
        iq2_dot(b, q8, (n - 1) as nat) + iq2_weight(b, n - 1) * q8[n - 1]
    }
}

fn get_byte(g: u64, i: usize) -> (r: u8)
    ensures
        r == byte_of(g as int, i as int),
    decreases i,
{
    if i == 0 {
        (g % 256) as u8
    } else {
        get_byte(g / 256, i - 1)
    }
}

fn get_seven_bits(g: u32, i: usize) -> (r: u8)
    ensures
        r == seven_bits(g as int, i as int),
        r < 128,
    decreases i,
{
    if i == 0 {
        (g % 128) as u8
    } else {
        get_seven_bits(g / 128, i - 1)
    }
}

fn get_bit(g: u8, i: usize) -> (r: bool)
    ensures
        r == (bit_of(g as int, i as int) == 1),
    decreases i,
{
    if i == 0 {
        g % 2 == 1
    } else {
        get_bit(g / 2, i - 1)
    }
}

fn odd_ones(g: u8, n: usize) -> (r: bool)
    ensures
        r == (ones(g as int, n as int) % 2 == 1),
    decreases n,
{
    if n == 0 {
        false
    } else {
        let rest = odd_ones(g / 2, n - 1);
        if g % 2 == 1 {
            !rest
        } else {
            rest
        }
    }
}

fn iq2_weight_at(b: &block_iq2_xxs, e: usize) -> (r: i32)
    requires
        e < 256,
    ensures
        r == iq2_weight(*b, e as int),
        -7905 <= r <= 7905,
{
    let g: usize = e / 32;
    let l: usize = e % 32 / 8;
    let i: usize = e % 8;
    let at: u8 = get_byte(b.qs[4 * g + l / 2] as u64, l % 2);
    let v: i32 = get_byte(IQ2XXS_GRID[at as usize], i) as i32;
    let signs: u32 = b.qs[4 * g + 2] as u32 + b.qs[4 * g + 3] as u32 * 65536;
    let scale: i32 = (2 * (signs / 0x1000_0000) + 1) as i32;
    let s: u8 = get_seven_bits(signs, l);
    let flip = if i < 7 {
        get_bit(s, i)
    } else {
        odd_ones(s, 7)
    };
    let w: i32 = if flip {
        -v
    } else {
        v
    };
    proof {
        assert(1 <= scale <= 31);
        lemma_product(scale as int, w as int, 31, 255);
        assert(w * scale == scale * w) by (nonlinear_arith);
    }
    w * scale
}

/// The integer sum of a grid block with a block of activations.
pub fn iq2_block_sum(x: &block_iq2_xxs, y: &block_q8_K) -> (r: i32)
    ensures
        r == iq2_dot(*x, y.qs@, 256),
{
    let mut sum: i32 = 0;
    let mut e: usize = 0;
    while e < 256
        invariant
            e <= 256,
            sum == iq2_dot(*x, y.qs@, e as nat),
            -1011840 * e <= sum <= 1011840 * e,
        decreases 256 - e,
    {
        let w: i32 = iq2_weight_at(x, e);
        let a: i32 = y.qs[e] as i32;
        proof {
            if w >= 0 {
                lemma_product(w as int, a as int, 7905, 128);
            } else {
                lemma_product(-w as int, a as int, 7905, 128);
                assert((-w) * a == -(w * a)) by (nonlinear_arith);
            }
        }
        sum = sum + w * a;
        e = e + 1;
    }
    sum
}

// ── Ranking ──────────────────────────────────────────────────────────────

/// The place of a new score among ranked ones: before the first that is smaller.
pub open spec fn rank_place(score: Seq<u32>, ranked: Seq<int>, i: int, j: int) -> int
    decreases ranked.len() - j,
{
    if j < 0 || j >= ranked.len() || greater(score[i], score[ranked[j]]) {
        j
    } else {
        rank_place(score, ranked, i, j + 1)
    }
}

/// The ranked indices with index `i` put in its place, `k` of them at most.
pub open spec fn rank_in(score: Seq<u32>, ranked: Seq<int>, i: int, k: nat) -> Seq<int> {
    let j = rank_place(score, ranked, i, 0);
    let all = ranked.insert(j, i);
    if all.len() > k {
        all.take(k as int)
    } else {
        all
    }
}

/// The indices of the `k` largest of the first `n` scores, in descending order.
pub open spec fn ranking(score: Seq<u32>, n: nat, k: nat) -> Seq<int>
    decreases n,
{
    if n == 0 {
        Seq::empty()
    } else {
        rank_in(score, ranking(score, (n - 1) as nat, k), n - 1, k)
    }
}

/// Indices as `k` slots; slots without an index hold the largest `usize`.
pub open spec fn slots(ranked: Seq<int>, k: nat) -> Seq<usize> {
    Seq::new(
        k,
        |i: int|
            if i < ranked.len() {
                ranked[i] as usize
            } else {
                usize::MAX
            },
    )
}

proof fn lemma_place(score: Seq<u32>, ranked: Seq<int>, i: int, j: int)
    requires
        0 <= j <= ranked.len(),
    ensures
        ({
            let p = rank_place(score, ranked, i, j);
            &&& j <= p <= ranked.len()
            &&& forall|m: int| j <= m < p ==> !greater(score[i], score[#[trigger] ranked[m]])
            &&& p < ranked.len() ==> greater(score[i], score[ranked[p]])
        }),
    decreases ranked.len() - j,
{
    if j < ranked.len() && !greater(score[i], score[ranked[j]]) {
        lemma_place(score, ranked, i, j + 1);
    }
}

proof fn lemma_ranking(score: Seq<u32>, n: nat, k: nat)
    requires
        n <= score.len(),
    ensures
        ranking(score, n, k).len() <= k,
        ranking(score, n, k).len() <= n,
        forall|m: int|
            0 <= m < ranking(score, n, k).len() ==> 0 <= #[trigger] ranking(score, n, k)[m] < n,
    decreases n,
{
    if n > 0 {
        lemma_ranking(score, (n - 1) as nat, k);
        lemma_place(score, ranking(score, (n - 1) as nat, k), n - 1, 0);
    }
}

/// Among scores that are numbers, the ranking is the descending order, equal scores in
/// the order of their indices, and whatever is left out comes behind it.
pub proof fn ranking_is_descending(score: Seq<u32>, n: nat, k: nat)
    requires
        n <= score.len(),
        forall|i: int| 0 <= i < n ==> !nan(#[trigger] score[i]),
    ensures
        ({
            let r = ranking(score, n, k);
            &&& r.len() == if n < k {
                n
            } else {
                k
            }
            &&& forall|a: int, b: int|
                0 <= a < b < r.len() ==> before(score, #[trigger] r[a], #[trigger] r[b])
            &&& forall|x: int|
                0 <= x < n && !#[trigger] r.contains(x) ==> r.len() == k && (k > 0 ==> before(
                    score,
                    r.last(),
                    x,
                ))
        }),
    decreases n,
{
    if n > 0 {
        let m = (n - 1) as nat;
        ranking_is_descending(score, m, k);
        lemma_ranking(score, m, k);
        let old_r = ranking(score, m, k);
        let i = n - 1;
        let p = rank_place(score, old_r, i, 0);
        lemma_place(score, old_r, i, 0);
        let all = old_r.insert(p, i);
        let r = ranking(score, n, k);
        assert(!nan(score[i]));
        assert forall|a: int, b: int| 0 <= a < b < all.len() implies before(
            score,
            #[trigger] all[a],
            #[trigger] all[b],
        ) by {
            if b < p {
                assert(before(score, old_r[a], old_r[b]));
            } else if b == p {
                assert(!greater(score[i], score[old_r[a]]));
            } else if a == p {
                assert(greater(score[i], score[old_r[p]]));
                if b - 1 > p {
                    assert(before(score, old_r[p], old_r[b - 1]));
                }
            } else if a < p {
                assert(before(score, old_r[a], old_r[b - 1]));
            } else {
                assert(before(score, old_r[a - 1], old_r[b - 1]));
            }
        }
        assert forall|a: int| 0 <= a < r.len() implies #[trigger] r[a] == all[a] by {}
        assert forall|a: int, b: int| 0 <= a < b < r.len() implies before(
            score,
            #[trigger] r[a],
            #[trigger] r[b],
        ) by {
            assert(before(score, all[a], all[b]));
        }
        assert forall|x: int| 0 <= x < n && !#[trigger] r.contains(x) implies r.len() == k && (k > 0
            ==> before(score, r.last(), x)) by {
            if all.contains(x) {
                let c = choose|c: int| 0 <= c < all.len() && all[c] == x;
                if c < r.len() {
                    assert(r[c] == x);
                }
                assert(all.len() > k && c >= k);
                if k > 0 {
                    assert(before(score, all[k - 1], all[c]));
                }
            } else {
                assert(!old_r.contains(x)) by {
                    if old_r.contains(x) {
                        let c = choose|c: int| 0 <= c < old_r.len() && old_r[c] == x;
                        assert(all[if c < p {
                            c
                        } else {
                            c + 1
                        }] == x);
                    }
                }
                assert(x != i) by {
                    assert(all[p] == i);
                }
                if k > 0 {
                    assert(before(score, old_r.last(), x));
                    if p == k {
                        assert(r.last() == old_r[k - 1]);
                    } else {
                        assert(all[k as int] == old_r[k - 1]);
                        assert(before(score, all[k - 1], all[k as int]));
                    }
                }
            }
        }
    }
}

/// The indices of the `k` largest scores in descending order, in `k` slots; scores are
/// bit patterns of singles. Where there are fewer scores, the last slots hold the largest
/// `usize`.
pub fn topk_desc(score: &[u32], k: usize) -> (idx: Vec<usize>)
    ensures
        idx@ == slots(ranking(score@, score@.len(), k as nat), k as nat),
{
    let n: usize = score.len();
    let mut idx: Vec<usize> = Vec::new();
    let mut i: usize = 0;
    while i < n
        invariant
            i <= n == score@.len(),
            idx@.len() == ranking(score@, i as nat, k as nat).len(),
            forall|m: int|
                0 <= m < idx@.len() ==> #[trigger] idx@[m] == ranking(score@, i as nat, k as nat)[m],
        decreases n - i,
    {
        let ghost ranked = ranking(score@, i as nat, k as nat);
        proof {
            lemma_ranking(score@, i as nat, k as nat);
            lemma_place(score@, ranked, i as int, 0);
            assert forall|m: int| 0 <= m < idx@.len() implies #[trigger] idx@[m] < i by {
                assert(0 <= ranked[m] < i);
            }
        }
        let mut j: usize = 0;
        while j < idx.len() && !is_greater(score[i], score[idx[j]])
            invariant
                i < score@.len(),
                j <= idx@.len() == ranked.len(),
                forall|m: int| 0 <= m < idx@.len() ==> #[trigger] idx@[m] < i,
                forall|m: int| 0 <= m < idx@.len() ==> #[trigger] idx@[m] == ranked[m],
                rank_place(score@, ranked, i as int, 0) == rank_place(
                    score@,
                    ranked,
                    i as int,
                    j as int,
                ),
            decreases idx@.len() - j,
        {
            j = j + 1;
        }
        let ghost before_idx = idx@;
        let ghost all = ranked.insert(j as int, i as int);
        idx.insert(j, i);
        assert forall|m: int| 0 <= m < idx@.len() implies #[trigger] idx@[m] == all[m] by {
            if m < j {
                assert(before_idx[m] == ranked[m]);
            } else if m > j {
                assert(before_idx[m - 1] == ranked[m - 1]);
            }
        }
        if idx.len() > k {
            idx.truncate(k);
        }
        i = i + 1;
    }
    let ghost ranked = ranking(score@, n as nat, k as nat);
    proof {
        lemma_ranking(score@, n as nat, k as nat);
    }
    while idx.len() < k
        invariant
            ranked.len() <= idx@.len() <= k,
            forall|m: int|
                0 <= m < idx@.len() ==> #[trigger] idx@[m] == if m < ranked.len() {
                    ranked[m] as usize
                } else {
                    usize::MAX
                },
        decreases k - idx@.len(),
    {
        idx.push(usize::MAX);
    }
    assert(idx@ =~= slots(ranked, k as nat));
    idx
}

// ── Eight-bit blocks ─────────────────────────────────────────────────────

/// `v`, or the nearest number of eight bits with a sign.
pub fn saturate_i8(v: i32) -> (r: i8)
    ensures
        r == if v > 127 {
            127
        } else if v < -128 {
            -128
        } else {
            v as int
        },
{
    if v > 127 {
        127
    } else if v < -128 {
        -128
    } else {
        v as i8
    }
}

/// The sum of the first `n` elements from `from` on.
pub open spec fn sum_from(qs: Seq<i8>, from: int, n: nat) -> int
    decreases n,
{
    if n == 0 {
        0
    } else {
        sum_from(qs, from, (n - 1) as nat) + qs[from + n - 1]
    }
}

/// The block of activations with the given scale and elements: the sums are those of its
/// elements.
pub fn q8_block(d: u32, qs: [i8; 256]) -> (r: block_q8_K)
    ensures
        r.d == d,
        r.qs == qs,
        forall|j: int| 0 <= j < 16 ==> #[trigger] r.bsums@[j] == sum_from(qs@, 16 * j, 16),
{
    let mut bsums: [i16; 16] = [0;16];
    let mut j: usize = 0;
    while j < 16
        invariant
            j <= 16,
            forall|m: int| 0 <= m < j ==> #[trigger] bsums@[m] == sum_from(qs@, 16 * m, 16),
        decreases 16 - j,
    {
        let mut sum: i16 = 0;
        let mut i: usize = 0;
        while i < 16
            invariant
                j < 16,
                i <= 16,
                sum == sum_from(qs@, 16 * j, i as nat),
                -128 * i <= sum <= 128 * i,
            decreases 16 - i,
        {
            sum = sum + qs[16 * j + i] as i16;
            i = i + 1;
        }
        bsums[j] = sum;
        j = j + 1;
    }
    block_q8_K { d, qs, bsums }
}

/// A byte as a number of eight bits with a sign.
pub open spec fn signed(b: u8) -> int {
    if b < 128 {
        b as int
    } else {
        b - 256
    }
}

/// Blocks of 32 elements that cover `in_dim` elements.
pub open spec fn q8_0_blocks(in_dim: int) -> int {
    (in_dim + 31) / 32
}

/// The sum of the products of the first `n` elements of block `b` of a row, in which the
/// 32 elements of a block follow its scale, with those of the activations.
pub open spec fn q8_0_dot(row: Seq<u8>, xq: Seq<i8>, b: int, n: nat) -> int
    decreases n,
{
    if n == 0 {
        0
    } else {
        q8_0_dot(row, xq, b, (n - 1) as nat) + signed(row[b * 34 + 1 + n]) * xq[b * 32 + n - 1]
    }
}

/// Elements of block `b` of a row of `in_dim` elements.
pub open spec fn q8_0_count(in_dim: int, b: int) -> int {
    if in_dim - b * 32 < 32 {
        in_dim - b * 32
    } else {
        32
    }
}

/// For each block of a row its scale, a half, and the integer dot product of its elements
/// with the activations.
pub fn q8_0_row_dots(row: &[u8], xq: &[i8], in_dim: u64) -> (r: Vec<(u16, i32)>)
    requires
        q8_0_blocks(in_dim as int) * 34 <= row@.len(),
        in_dim <= xq@.len(),
    ensures
        r@.len() == q8_0_blocks(in_dim as int),
        forall|b: int|
            0 <= b < r@.len() ==> (#[trigger] r@[b]).0 == le(row@.subrange(b * 34, b * 34 + 2))
                && r@[b].1 == q8_0_dot(row@, xq@, b, q8_0_count(in_dim as int, b) as nat),
{
    let rows: usize = row.len();
    let n: usize = in_dim as usize;
    let blocks: usize = if n % 32 == 0 {
        n / 32
    } else {
        n / 32 + 1
    };
    let mut out: Vec<(u16, i32)> = Vec::new();
    let mut b: usize = 0;
    while b < blocks
        invariant
            b <= blocks == q8_0_blocks(n as int),
            n == in_dim,
            blocks * 34 <= rows == row@.len(),
            n <= xq@.len(),
            out@.len() == b,
            forall|m: int|
                0 <= m < b ==> (#[trigger] out@[m]).0 == le(row@.subrange(m * 34, m * 34 + 2))
                    && out@[m].1 == q8_0_dot(row@, xq@, m, q8_0_count(in_dim as int, m) as nat),
        decreases blocks - b,
    {
        let at: usize = b * 34;
        let scale: u16 = u16_le(row, at);
        let i0: usize = b * 32;
        let count: usize = if n - i0 < 32 {
            n - i0
        } else {
            32
        };
        let mut dot: i32 = 0;
        let mut j: usize = 0;
        while j < count
            invariant
                j <= count <= 32,
                b < blocks,
                blocks * 34 <= row@.len(),
                at == b * 34,
                i0 == b * 32,
                i0 + count <= xq@.len(),
                at + 34 <= rows == row@.len(),
                dot == q8_0_dot(row@, xq@, b as int, j as nat),
                -16384 * j <= dot <= 16384 * j,
            decreases count - j,
        {
            let raw: u8 = row[at + 2 + j];
            let w: i32 = if raw < 128 {
                raw as i32
            } else {
                raw as i32 - 256
            };
            let a: i32 = xq[i0 + j] as i32;
            assert(-16384 <= w * a <= 16384) by (nonlinear_arith)
                requires
                    -128 <= w <= 127,
                    -128 <= a <= 127,
            ;
            dot = dot + w * a;
            j = j + 1;
        }
        out.push((scale, dot));
        b = b + 1;
    }
    out
}

} // verus!

//! What the integer products and the rankings of the kernels are held to.
use vstd::prelude::*;

use crate::kernels::{
    bit_of, bit_pair, block_iq2_xxs, block_q2_K, byte_of, iq2_dot, iq2_signs, iq2_weight, negated,
    ones, q2_dot, q2_element, q2_mins, q2_weight, q8_0_blocks, q8_0_count, q8_0_dot, seven_bits,
    signed, slots, sum_from, IQ2XXS_GRID,
};
use crate::sampling::before;
use crate::single::{greater, nan};

verus! {

/// A product of a two-bit block is linear in the activations: changing one of them changes
/// the product by the difference times the weight of the element. With no activation it is
/// zero.
pub proof fn two_bit_product_is_linear(b: block_q2_K, q: Seq<i8>, e: int, v: i8)
    requires
        q.len() == 256,
        0 <= e < 256,
    ensures
        q2_dot(b, q.update(e, v), 256) - q2_dot(b, q, 256) == q2_weight(b, e) * (v - q[e]),
        (forall|i: int| 0 <= i < 256 ==> #[trigger] q[i] == 0) ==> q2_dot(b, q, 256) == 0,
{
    lemma_q2_update(b, q, e, v, 256);
    if forall|i: int| 0 <= i < 256 ==> #[trigger] q[i] == 0 {
        lemma_q2_zero(b, q, 256);
    }
}

proof fn lemma_q2_update(b: block_q2_K, q: Seq<i8>, e: int, v: i8, n: nat)
    requires
        n <= q.len(),
        0 <= e < q.len(),
    ensures
        q2_dot(b, q.update(e, v), n) - q2_dot(b, q, n) == if e < n {
            q2_weight(b, e) * (v - q[e])
        } else {
            0
        },
    decreases n,
{
    if n > 0 {
        lemma_q2_update(b, q, e, v, (n - 1) as nat);
        if e == n - 1 {
            let w = q2_weight(b, e);
            assert(w * v - w * q[e] == w * (v - q[e])) by (nonlinear_arith);
        }
    }
}

proof fn lemma_q2_zero(b: block_q2_K, q: Seq<i8>, n: nat)
    requires
        n <= q.len(),
        forall|i: int| 0 <= i < q.len() ==> #[trigger] q[i] == 0,
    ensures
        q2_dot(b, q, n) == 0,
    decreases n,
{
    if n > 0 {
        lemma_q2_zero(b, q, (n - 1) as nat);
        assert(q[n - 1] == 0);
        assert(q2_weight(b, n - 1) * 0 == 0) by (nonlinear_arith);
    }
}

/// The weight of an element of a two-bit block: its two bits times the low four bits of the
/// scale of its run of sixteen. Each byte holds four elements, 32 apart.
pub proof fn two_bit_weights_are_scaled(b: block_q2_K, half: int, run: int, i: int)
    requires
        0 <= half < 2,
        0 <= run < 4,
        0 <= i < 32,
    ensures
        ({
            let e = 128 * half + 32 * run + i;
            let byte = b.qs@[32 * half + i] as int;
            let bits = if run == 0 {
                byte % 4
            } else if run == 1 {
                byte / 4 % 4
            } else if run == 2 {
                byte / 16 % 4
            } else {
                byte / 64 % 4
            };
            &&& q2_element(b, e) == bits
            &&& q2_weight(b, e) == bits * (b.scales@[e / 16] as int % 16)
        }),
{
    let e = 128 * half + 32 * run + i;
    assert(e / 128 == half && e % 128 == 32 * run + i && e % 32 == i && e % 128 / 32 == run);
    assert(bit_pair(b.qs@[32 * half + i], run) < 4);
}

/// The product of the minima is linear in the sums of the activations, each weighted by the
/// high four bits of the scale of its run.
pub proof fn product_of_minima_is_linear(b: block_q2_K, s: Seq<i16>, j: int, v: i16)
    requires
        s.len() == 16,
        0 <= j < 16,
    ensures
        q2_mins(b, s.update(j, v), 16) - q2_mins(b, s, 16) == (b.scales@[j] as int / 16) * (v
            - s[j]),
        (forall|i: int| 0 <= i < 16 ==> #[trigger] s[i] == 0) ==> q2_mins(b, s, 16) == 0,
{
    lemma_mins_update(b, s, j, v, 16);
    if forall|i: int| 0 <= i < 16 ==> #[trigger] s[i] == 0 {
        lemma_mins_zero(b, s, 16);
    }
}

proof fn lemma_mins_update(b: block_q2_K, s: Seq<i16>, j: int, v: i16, n: nat)
    requires
        n <= s.len(),
        0 <= j < s.len(),
    ensures
        q2_mins(b, s.update(j, v), n) - q2_mins(b, s, n) == if j < n {
            (b.scales@[j] as int / 16) * (v - s[j])
        } else {
            0
        },
    decreases n,
{
    if n > 0 {
        lemma_mins_update(b, s, j, v, (n - 1) as nat);
        if j == n - 1 {
            let w = b.scales@[j] as int / 16;
            assert(w * v - w * s[j] == w * (v - s[j])) by (nonlinear_arith);
        }
    }
}

proof fn lemma_mins_zero(b: block_q2_K, s: Seq<i16>, n: nat)
    requires
        n <= s.len(),
        forall|i: int| 0 <= i < s.len() ==> #[trigger] s[i] == 0,
    ensures
        q2_mins(b, s, n) == 0,
    decreases n,
{
    if n > 0 {
        lemma_mins_zero(b, s, (n - 1) as nat);
        assert(s[n - 1] == 0);
        assert((b.scales@[n - 1] as int / 16) * 0 == 0) by (nonlinear_arith);
    }
}

/// A product of a grid block is linear in the activations as well.
pub proof fn grid_product_is_linear(b: block_iq2_xxs, q: Seq<i8>, e: int, v: i8)
    requires
        q.len() == 256,
        0 <= e < 256,
    ensures
        iq2_dot(b, q.update(e, v), 256) - iq2_dot(b, q, 256) == iq2_weight(b, e) * (v - q[e]),
        (forall|i: int| 0 <= i < 256 ==> #[trigger] q[i] == 0) ==> iq2_dot(b, q, 256) == 0,
{
    lemma_iq2_update(b, q, e, v, 256);
    if forall|i: int| 0 <= i < 256 ==> #[trigger] q[i] == 0 {
        lemma_iq2_zero(b, q, 256);
    }
}

proof fn lemma_iq2_update(b: block_iq2_xxs, q: Seq<i8>, e: int, v: i8, n: nat)
    requires
        n <= q.len(),
        0 <= e < q.len(),
    ensures
        iq2_dot(b, q.update(e, v), n) - iq2_dot(b, q, n) == if e < n {
            iq2_weight(b, e) * (v - q[e])
        } else {
            0
        },
    decreases n,
{
    if n > 0 {
        lemma_iq2_update(b, q, e, v, (n - 1) as nat);
        if e == n - 1 {
            let w = iq2_weight(b, e);
            assert(w * v - w * q[e] == w * (v - q[e])) by (nonlinear_arith);
        }
    }
}

proof fn lemma_iq2_zero(b: block_iq2_xxs, q: Seq<i8>, n: nat)
    requires
        n <= q.len(),
        forall|i: int| 0 <= i < q.len() ==> #[trigger] q[i] == 0,
    ensures
        iq2_dot(b, q, n) == 0,
    decreases n,
{
    if n > 0 {
        lemma_iq2_zero(b, q, (n - 1) as nat);
        assert(q[n - 1] == 0);
        assert(iq2_weight(b, n - 1) * 0 == 0) by (nonlinear_arith);
    }
}

/// The bits, the sevens of bits and the bytes of a number are counted from the lowest on.
pub proof fn parts_are_counted_from_the_lowest(g: int)
    requires
        g >= 0,
    ensures
        bit_of(g, 0) == g % 2,
        bit_of(g, 1) == g / 2 % 2,
        bit_of(g, 6) == g / 64 % 2,
        seven_bits(g, 0) == g % 128,
        seven_bits(g, 1) == g / 128 % 128,
        seven_bits(g, 2) == g / 16384 % 128,
        seven_bits(g, 3) == g / 2097152 % 128,
        byte_of(g, 0) == g % 256,
        byte_of(g, 1) == g / 256 % 256,
        forall|i: int| i >= 0 ==> #[trigger] byte_of(g, i + 1) == byte_of(g / 256, i),
        forall|i: int| i >= 0 ==> #[trigger] bit_of(g, i + 1) == bit_of(g / 2, i),
{
    reveal_with_fuel(bit_of, 8);
    reveal_with_fuel(seven_bits, 5);
    reveal_with_fuel(byte_of, 3);
}

/// Of eight elements an even number is negated, the first seven as their bits say.
pub proof fn negated_elements_are_even(s: int)
    requires
        0 <= s < 128,
    ensures
        ({
            let n = |i: int|
                if negated(s, i) {
                    1int
                } else {
                    0
                };
            (n(0) + n(1) + n(2) + n(3) + n(4) + n(5) + n(6) + n(7)) % 2 == 0
        }),
        forall|i: int| 0 <= i < 7 ==> (#[trigger] negated(s, i) <==> bit_of(s, i) == 1),
{
    reveal_with_fuel(bit_of, 8);
    reveal_with_fuel(ones, 8);
}

/// The weight of an element of a grid block, but for its sign: the byte of the grid entry
/// that its group of eight names, times an odd scale of its group of 32, whose four bits are
/// the highest.
pub proof fn grid_weights_are_scaled(b: block_iq2_xxs, g: int, l: int, i: int)
    requires
        0 <= g < 8,
        0 <= l < 4,
        0 <= i < 8,
    ensures
        ({
            let e = 32 * g + 8 * l + i;
            let word = b.qs@[4 * g + l / 2] as int;
            let name = if l % 2 == 0 {
                word % 256
            } else {
                word / 256
            };
            let signs = b.qs@[4 * g + 2] + b.qs@[4 * g + 3] * 65536;
            let w = byte_of(IQ2XXS_GRID@[name] as int, i) * (2 * (signs / 0x1000_0000) + 1);
            &&& iq2_signs(b, g) == signs
            &&& negated(seven_bits(signs, l), i) ==> iq2_weight(b, e) == -w
            &&& !negated(seven_bits(signs, l), i) ==> iq2_weight(b, e) == w
        }),
{
    let e = 32 * g + 8 * l + i;
    assert(e / 32 == g && e % 32 == 8 * l + i && e % 32 / 8 == l && e % 8 == i);
    let word = b.qs@[4 * g + l / 2] as int;
    reveal_with_fuel(byte_of, 3);
    let signs = b.qs@[4 * g + 2] + b.qs@[4 * g + 3] * 65536;
    let name = if l % 2 == 0 {
        word % 256
    } else {
        word / 256
    };
    assert(byte_of(word, l % 2) == name);
    let v = byte_of(IQ2XXS_GRID@[name] as int, i);
    let s = 2 * (signs / 0x1000_0000) + 1;
    assert((-v) * s == -(v * s)) by (nonlinear_arith);
}

/// A product of an eight-bit row is linear in the activations of its block; the elements of
/// block `b` stand behind the two bytes of its scale.
pub proof fn eight_bit_product_is_linear(
    row: Seq<u8>,
    x: Seq<i8>,
    b: int,
    n: nat,
    e: int,
    v: i8,
)
    requires
        0 <= b,
        0 <= e < n <= 32,
        b * 32 + n <= x.len(),
        b * 34 + 34 <= row.len(),
    ensures
        ({
            let byte = row[b * 34 + 2 + e];
            let w = if byte < 128 {
                byte as int
            } else {
                byte - 256
            };
            &&& q8_0_dot(row, x.update(b * 32 + e, v), b, n) - q8_0_dot(row, x, b, n) == w * (v
                - x[b * 32 + e])
            &&& signed(byte) == w
        }),
        q8_0_dot(row, x, b, 0) == 0,
{
    lemma_q8_update(row, x, b, n, e, v);
}

proof fn lemma_q8_update(row: Seq<u8>, x: Seq<i8>, b: int, n: nat, e: int, v: i8)
    requires
        0 <= b,
        0 <= e < 32,
        n <= 32,
        b * 32 + n <= x.len(),
        b * 32 + e < x.len(),
    ensures
        q8_0_dot(row, x.update(b * 32 + e, v), b, n) - q8_0_dot(row, x, b, n) == if e < n {
            signed(row[b * 34 + 2 + e]) * (v - x[b * 32 + e])
        } else {
            0
        },
    decreases n,
{
    if n > 0 {
        lemma_q8_update(row, x, b, (n - 1) as nat, e, v);
        if e == n - 1 {
            let w = signed(row[b * 34 + 2 + e]);
            let u = x[b * 32 + e];
            assert(row[b * 34 + 1 + n] == row[b * 34 + 2 + e]);
            assert(w * v - w * u == w * (v - u)) by (nonlinear_arith);
        }
    }
}

/// The blocks of a row cover its elements: all but the last one have 32 of them.
pub proof fn blocks_cover_the_row(n: int, b: int)
    requires
        n >= 0,
        0 <= b < q8_0_blocks(n),
    ensures
        1 <= q8_0_count(n, b) <= 32,
        b < q8_0_blocks(n) - 1 ==> q8_0_count(n, b) == 32,
        b == q8_0_blocks(n) - 1 ==> 32 * b + q8_0_count(n, b) == n,
{
}

/// A sum of elements is one element more at each step.
pub proof fn sums_add_one_element(q: Seq<i8>, from: int, n: nat)
    ensures
        sum_from(q, from, 0) == 0,
        sum_from(q, from, n + 1) == sum_from(q, from, n) + q[from + n],
{
}

/// The order of a ranking: the greater score comes before, and of two equal ones that with
/// the smaller index; indices without a rank are the largest number.
pub proof fn rankings_go_by_score(score: Seq<u32>, a: int, b: int, ranked: Seq<int>, k: nat)
    requires
        0 <= a < score.len(),
        0 <= b < score.len(),
        !nan(score[a]),
        !nan(score[b]),
    ensures
        greater(score[a], score[b]) ==> before(score, a, b) && !before(score, b, a),
        !greater(score[a], score[b]) && !greater(score[b], score[a]) && a < b ==> before(
            score,
            a,
            b,
        ) && !before(score, b, a),
        slots(ranked, k).len() == k,
        forall|i: int|
            0 <= i < k && i < ranked.len() && 0 <= ranked[i] <= usize::MAX ==> #[trigger] slots(
                ranked,
                k,
            )[i] == ranked[i],
        forall|i: int| ranked.len() <= i < k ==> #[trigger] slots(ranked, k)[i] == usize::MAX,
{
}

} // verus!

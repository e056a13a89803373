//! Choosing tokens from logits, as far as the choice goes by their order.
//!
//! Logits are bit patterns of singles. Probabilities need floating-point arithmetic
//! and are computed elsewhere; what comes before them is here: the largest logit, the
//! candidates in descending order, and the random numbers.
use vstd::prelude::*;

use crate::cache::DS4_NEG_INF;
use crate::single::{
    finite, greater, is_finite, is_greater, key, lemma_two_positive, log2, nan, single_from_u32,
    single_of_nat, two,
};

verus! {

// ── Largest logit ────────────────────────────────────────────────────────

/// Whether logit `i` is above minus infinity and no logit is greater.
pub open spec fn best_logit(logits: Seq<u32>, i: int) -> bool {
    &&& 0 <= i < logits.len()
    &&& greater(logits[i], DS4_NEG_INF)
    &&& forall|j: int| 0 <= j < logits.len() ==> !greater(#[trigger] logits[j], logits[i])
}

/// Whether `t` is the index of the largest logit: the first one of those that are best,
/// and zero where no logit is above minus infinity.
pub open spec fn argmax_of(logits: Seq<u32>, t: int) -> bool {
    ||| best_logit(logits, t) && forall|j: int| 0 <= j < t ==> !best_logit(logits, j)
    ||| t == 0 && forall|j: int|
        0 <= j < logits.len() ==> !greater(#[trigger] logits[j], DS4_NEG_INF)
}

/// The index of the largest logit.
pub fn sample_argmax(logits: &[u32]) -> (r: i32)
    requires
        logits@.len() <= i32::MAX,
    ensures
        argmax_of(logits@, r as int),
{
    let mut best: i32 = 0;
    let mut best_v: u32 = DS4_NEG_INF;
    let mut i: usize = 0;
    while i < logits.len()
        invariant
            i <= logits@.len() <= i32::MAX,
            !nan(best_v),
            key(best_v) >= key(DS4_NEG_INF),
            forall|j: int| 0 <= j < i ==> !greater(#[trigger] logits@[j], best_v),
            ({
                ||| best == 0 && best_v == DS4_NEG_INF
                ||| {
                    &&& 0 <= best < i
                    &&& best_v == logits@[best as int]
                    &&& greater(best_v, DS4_NEG_INF)
                    &&& forall|j: int| 0 <= j < best ==> greater(best_v, #[trigger] logits@[j]) || nan(logits@[j])
                }
            }),
        decreases logits@.len() - i,
    {
        let v: u32 = logits[i];
        if is_greater(v, best_v) {
            best_v = v;
            best = i as i32;
        }
        i = i + 1;
    }
    proof {
        if best_v != DS4_NEG_INF {
            assert(best_logit(logits@, best as int));
            assert forall|j: int| 0 <= j < best implies !best_logit(logits@, j) by {
                if best_logit(logits@, j) {
                    assert(!greater(logits@[best as int], logits@[j]));
                }
            }
        }
    }
    best
}

// ── Random numbers ───────────────────────────────────────────────────────

/// The state that stands in for zero.
pub const RNG_SEED: u64 = 0x9e37_79b9_7f4a_7c15;

pub open spec fn rng_seeded(x: u64) -> u64 {
    if x == 0 {
        RNG_SEED
    } else {
        x
    }
}

pub open spec fn xorshift(x: u64) -> u64 {
    let a = x ^ (x >> 12);
    let b = a ^ (a << 25);
    b ^ (b >> 27)
}

/// The state that follows the state `x`.
pub open spec fn rng_step(x: u64) -> u64 {
    xorshift(rng_seeded(x))
}

/// The number that comes out on the step from the state `x`.
pub open spec fn rng_output(x: u64) -> u64 {
    rng_step(x).wrapping_mul(0x2545_f491_4f6c_dd1du64)
}

/// The next random number, and the next state in `state`.
pub fn sample_rng_next(state: &mut u64) -> (r: u64)
    ensures
        *final(state) == rng_step(*old(state)),
        r == rng_output(*old(state)),
{
    let mut x: u64 = *state;
    if x == 0 {
        x = RNG_SEED;
    }
    x = x ^ (x >> 12);
    x = x ^ (x << 25);
    x = x ^ (x >> 27);
    *state = x;
    x.wrapping_mul(0x2545_f491_4f6c_dd1d)
}

/// The single in [0, 1) that is made of a random number: its top 24 bits, divided by two
/// to the power of 24, which only lowers the exponent.
pub open spec fn unit_single(x: u64) -> int {
    let m = x as nat / 0x100_0000_0000;
    if m == 0 {
        0
    } else {
        single_of_nat(m) - 24 * 0x80_0000
    }
}

/// The random single in [0, 1) that is made of a random number.
pub fn random_single(x: u64) -> (r: u32)
    ensures
        r as int == unit_single(x),
{
    let m: u32 = (x / 0x100_0000_0000) as u32;
    if m == 0 {
        return 0;
    }
    let s: u32 = single_from_u32(m);
    proof {
        lemma_single_large(m as nat);
    }
    s - 24 * 0x80_0000
}

proof fn lemma_single_large(n: nat)
    requires
        n > 0,
    ensures
        single_of_nat(n) >= 126 * 0x80_0000,
{
    let e = log2(n);
    if e <= 23 {
        lemma_two_positive((23 - e) as nat);
        assert(n as int * two((23 - e) as nat) >= 0) by (nonlinear_arith)
            requires
                two((23 - e) as nat) > 0,
        ;
    } else {
        lemma_two_positive((e - 23) as nat);
        let p = two((e - 23) as nat) as int;
        assert(n as int / p >= 0) by (nonlinear_arith)
            requires
                p > 0,
                n >= 0,
        ;
    }
}

/// The generator never sticks at zero: neither the state nor the number that comes out is
/// zero.
pub proof fn rng_state_never_zero(x: u64)
    ensures
        rng_step(x) != 0,
        rng_output(x) != 0,
{
    let s = rng_seeded(x);
    assert(s != 0 ==> xorshift(s) != 0) by (bit_vector);
    lemma_scrambled(rng_step(x));
}

/// The state zero goes on as the seed does.
pub proof fn rng_zero_is_seed()
    ensures
        rng_step(0) == rng_step(RNG_SEED),
        rng_output(0) == rng_output(RNG_SEED),
{
}

/// Two different states, none of them zero, lead to different states and give different
/// numbers.
pub proof fn rng_states_stay_apart(x: u64, y: u64)
    requires
        x != 0,
        y != 0,
        x != y,
    ensures
        rng_step(x) != rng_step(y),
        rng_output(x) != rng_output(y),
{
    let a = x ^ (x >> 12);
    let b = y ^ (y >> 12);
    assert(a == x ^ (x >> 12) && b == y ^ (y >> 12) && x != y ==> a != b) by (bit_vector);
    let c = a ^ (a << 25);
    let d = b ^ (b << 25);
    assert(c == a ^ (a << 25) && d == b ^ (b << 25) && a != b ==> c != d) by (bit_vector);
    assert(c != d ==> c ^ (c >> 27) != d ^ (d >> 27)) by (bit_vector);
    lemma_scrambled(rng_step(x));
    lemma_scrambled(rng_step(y));
}

/// The factor of the generator has an inverse, by which the state comes back.
proof fn lemma_scrambled(x: u64)
    ensures
        (x.wrapping_mul(0x2545_f491_4f6c_dd1du64) as int * 0x5907_1d96_d81e_cd35)
            % 0x1_0000_0000_0000_0000 == x,
{
    let m: int = 0x2545_f491_4f6c_dd1d;
    let w: int = 0x5907_1d96_d81e_cd35;
    let n: int = 0x1_0000_0000_0000_0000;
    let p = x as int * m;
    let q = p / n;
    let r = p % n;
    assert(x.wrapping_mul(0x2545_f491_4f6c_dd1du64) == r);
    let k: int = 934034299265436267;
    assert(m * w == 1 + k * n);
    assert(r * w == n * (x as int * k - q * w) + x) by (nonlinear_arith)
        requires
            p == x as int * m,
            p == n * q + r,
            m * w == 1 + k * n,
    ;
    vstd::arithmetic::div_mod::lemma_mod_multiples_vanish(x as int * k - q * w, x as int, n);
}

// ── Candidates in order ──────────────────────────────────────────────────

/// Whether candidate `a` comes before candidate `b`: by the larger logit, and by the
/// smaller index where the logits are equal.
pub open spec fn before(logits: Seq<u32>, a: int, b: int) -> bool {
    key(logits[a]) > key(logits[b]) || (key(logits[a]) == key(logits[b]) && a < b)
}

/// Whether `ids` are the first candidates, `k` of them or all where there are fewer, of
/// the logits `0..n` that are finite.
pub open spec fn first_candidates(logits: Seq<u32>, n: int, k: int, ids: Seq<i32>) -> bool {
    &&& ids.len() <= k
    &&& forall|i: int|
        0 <= i < ids.len() ==> 0 <= #[trigger] ids[i] < n && finite(logits[ids[i] as int])
    &&& forall|i: int, j: int|
        0 <= i < j < ids.len() ==> before(logits, #[trigger] ids[i] as int, #[trigger] ids[j] as int)
    &&& forall|x: int|
        0 <= x < n && finite(#[trigger] logits[x]) && !ids.contains(x as i32) ==> ids.len() == k
            && (k > 0 ==> before(logits, ids.last() as int, x))
}

/// The `k` candidates with the largest logits in descending order; equal logits keep the
/// order of their indices. Logits that are not finite are passed over.
pub fn select_top_k(logits: &[u32], k: usize) -> (ids: Vec<i32>)
    requires
        logits@.len() <= i32::MAX,
    ensures
        first_candidates(logits@, logits@.len() as int, k as int, ids@),
{
    let mut ids: Vec<i32> = Vec::new();
    let mut i: usize = 0;
    while i < logits.len()
        invariant
            i <= logits@.len() <= i32::MAX,
            first_candidates(logits@, i as int, k as int, ids@),
        decreases logits@.len() - i,
    {
        let v: u32 = logits[i];
        let ghost old_ids = ids@;
        if is_finite(v) && k > 0 {
            let full = ids.len() == k;
            if !full || is_greater(v, logits[ids[ids.len() - 1] as usize]) {
                // The place behind the last candidate that is not smaller.
                let mut at: usize = ids.len();
                while at > 0 && is_greater(v, logits[ids[at - 1] as usize])
                    invariant
                        at <= ids@.len(),
                        i < logits@.len() <= i32::MAX,
                        v == logits@[i as int],
                        finite(v),
                        ids@ == old_ids,
                        first_candidates(logits@, i as int, k as int, old_ids),
                        forall|j: int| at <= j < ids@.len() ==> before(logits@, i as int, #[trigger] ids@[j] as int),
                    ensures
                        at <= ids@.len(),
                        forall|j: int| at <= j < ids@.len() ==> before(logits@, i as int, #[trigger] ids@[j] as int),
                        at > 0 ==> !greater(v, logits@[ids@[at - 1] as int]),
                    decreases at,
                {
                    at = at - 1;
                }
                if full {
                    ids.pop();
                }
                ids.insert(at, i as i32);
                proof {
                    lemma_inserted(logits@, i as int, k as int, old_ids, at as int, ids@);
                }
            } else {
                proof {
                    lemma_skipped(logits@, i as int, k as int, old_ids);
                }
            }
        } else {
            assert forall|x: int|
                0 <= x < i + 1 && finite(#[trigger] logits@[x]) && !ids@.contains(x as i32) implies ids@.len() == k
                && (k > 0 ==> before(logits@, ids@.last() as int, x)) by {
                if x == i {
                    assert(k == 0);
                }
            }
        }
        i = i + 1;
    }
    ids
}

proof fn lemma_skipped(logits: Seq<u32>, i: int, k: int, ids: Seq<i32>)
    requires
        0 <= i < logits.len() <= i32::MAX,
        k > 0,
        finite(logits[i]),
        first_candidates(logits, i, k, ids),
        ids.len() == k,
        !greater(logits[i], logits[ids.last() as int]),
    ensures
        first_candidates(logits, i + 1, k, ids),
{
    assert(ids[ids.len() - 1] == ids.last());
}

#[verifier::spinoff_prover]
proof fn lemma_inserted(logits: Seq<u32>, i: int, k: int, ids: Seq<i32>, at: int, new: Seq<i32>)
    requires
        0 <= i < logits.len() <= i32::MAX,
        k > 0,
        finite(logits[i]),
        first_candidates(logits, i, k, ids),
        0 <= at <= ids.len(),
        ids.len() == k ==> at < k && new == ids.drop_last().insert(at, i as i32),
        ids.len() < k ==> new == ids.insert(at, i as i32),
        forall|j: int| at <= j < ids.len() ==> before(logits, i, #[trigger] ids[j] as int),
        at > 0 ==> !greater(logits[i], logits[ids[at - 1] as int]),
    ensures
        first_candidates(logits, i + 1, k, new),
{
    let kept = if ids.len() == k {
        ids.drop_last()
    } else {
        ids
    };
    assert(new == kept.insert(at, i as i32));
    assert forall|j: int| 0 <= j < new.len() implies new[j] == (if j < at {
        ids[j]
    } else if j == at {
        i as i32
    } else {
        ids[j - 1]
    }) by {}
    if at > 0 {
        assert(before(logits, ids[at - 1] as int, i));
    }
    assert forall|a: int, b: int| 0 <= a < b < new.len() implies before(
        logits,
        #[trigger] new[a] as int,
        #[trigger] new[b] as int,
    ) by {
        if b < at {
            assert(before(logits, ids[a] as int, ids[b] as int));
        } else if b == at {
            if a < at - 1 {
                assert(before(logits, ids[a] as int, ids[at - 1] as int));
            }
        } else if a == at {
            assert(before(logits, i, ids[b - 1] as int));
        } else if a < at {
            assert(before(logits, ids[a] as int, ids[b - 1] as int));
        } else {
            assert(before(logits, ids[a - 1] as int, ids[b - 1] as int));
        }
    }
    assert forall|x: int|
        0 <= x < i + 1 && finite(#[trigger] logits[x]) && !new.contains(x as i32) implies new.len()
        == k && before(logits, new.last() as int, x) by {
        assert(new[at] == i as i32);
        if x == i {
            assert(new.contains(i as i32));
        }
        if ids.contains(x as i32) {
            let j = choose|j: int| 0 <= j < ids.len() && ids[j] == x as i32;
            if j < at {
                assert(new[j] == x as i32);
            } else if j < kept.len() {
                assert(new[j + 1] == x as i32);
            } else {
                // The candidate that made room.
                assert(ids.len() == k && j == k - 1);
                if at == k - 1 {
                    assert(new.last() == i as i32);
                    assert(before(logits, i, ids[j] as int));
                } else {
                    assert(new.last() == ids[k - 2]);
                    assert(before(logits, ids[k - 2] as int, ids[k - 1] as int));
                }
            }
        } else {
            assert(ids.len() == k);
            assert(before(logits, ids.last() as int, x));
            if at == k - 1 {
                assert(new.last() == i as i32);
                assert(before(logits, i, ids[k - 1] as int));
            } else {
                assert(new.last() == ids[k - 2]);
                assert(before(logits, ids[k - 2] as int, ids[k - 1] as int));
            }
        }
    }
}

// ── Best scores ──────────────────────────────────────────────────────────

/// Whether `ids` are distinct finite logits among the first `n`, at most `k`, and every
/// other finite one of these is left out only because there are `k` that are no smaller.
pub open spec fn best_set(logits: Seq<u32>, n: int, k: int, ids: Seq<i32>) -> bool {
    &&& ids.len() <= k
    &&& forall|i: int|
        0 <= i < ids.len() ==> 0 <= #[trigger] ids[i] < n && finite(logits[ids[i] as int])
    &&& forall|i: int, j: int|
        0 <= i < j < ids.len() ==> #[trigger] ids[i] != #[trigger] ids[j]
    &&& forall|x: int, j: int|
        #![trigger logits[x], ids[j]]
        0 <= x < n && finite(logits[x]) && !ids.contains(x as i32) && 0 <= j < ids.len() ==> key(
            logits[x],
        ) <= key(logits[ids[j] as int])
    &&& forall|x: int|
        0 <= x < n && finite(#[trigger] logits[x]) && !ids.contains(x as i32) ==> ids.len() == k
}

/// Whether place `i` of a heap is no smaller than its parent.
spec fn ordered(logits: Seq<u32>, ids: Seq<i32>, i: int) -> bool {
    key(logits[ids[(i - 1) / 2] as int]) <= key(logits[ids[i] as int])
}

/// Whether place `i` of a heap is no smaller than the parent of place `hole`.
spec fn clears(logits: Seq<u32>, ids: Seq<i32>, hole: int, i: int) -> bool {
    key(logits[ids[(hole - 1) / 2] as int]) <= key(logits[ids[i] as int])
}

/// The order of a heap with the smallest logit at the root, but between `hole` and its
/// parent.
spec fn heap_but(logits: Seq<u32>, ids: Seq<i32>, hole: int) -> bool {
    forall|i: int| 0 < i < ids.len() && i != hole ==> #[trigger] ordered(logits, ids, i)
}

/// The children of `hole` are no smaller than its parent.
spec fn heap_below(logits: Seq<u32>, ids: Seq<i32>, hole: int) -> bool {
    forall|i: int|
        0 < i < ids.len() && (i - 1) / 2 == hole && hole > 0 ==> #[trigger] clears(
            logits,
            ids,
            hole,
            i,
        )
}

spec fn heap(logits: Seq<u32>, ids: Seq<i32>) -> bool {
    heap_but(logits, ids, -1)
}

/// The order of a heap but between `hole` and its children.
spec fn heap_above(logits: Seq<u32>, ids: Seq<i32>, hole: int) -> bool {
    &&& forall|i: int|
        0 < i < ids.len() && (i - 1) / 2 != hole ==> #[trigger] ordered(logits, ids, i)
    &&& heap_below(logits, ids, hole)
}

pub open spec fn swapped(ids: Seq<i32>, a: int, b: int) -> Seq<i32> {
    ids.update(a, ids[b]).update(b, ids[a])
}

/// The heap once the element at `at` has moved up past the larger ones above it.
pub open spec fn risen(logits: Seq<u32>, ids: Seq<i32>, at: int) -> Seq<i32>
    decreases at,
{
    let up = (at - 1) / 2;
    if at <= 0 || key(logits[ids[up] as int]) <= key(logits[ids[at] as int]) {
        ids
    } else {
        risen(logits, swapped(ids, up, at), up)
    }
}

/// The smallest of the element at `at` and its children: `at` before the left child
/// before the right one where they are equal.
pub open spec fn least(logits: Seq<u32>, ids: Seq<i32>, at: int) -> int {
    let left = 2 * at + 1;
    let right = 2 * at + 2;
    let s = if left < ids.len() && key(logits[ids[left] as int]) < key(logits[ids[at] as int]) {
        left
    } else {
        at
    };
    if right < ids.len() && key(logits[ids[right] as int]) < key(logits[ids[s] as int]) {
        right
    } else {
        s
    }
}

/// The heap once the element at `at` has moved down past the smaller ones below it.
pub open spec fn sunk(logits: Seq<u32>, ids: Seq<i32>, at: int) -> Seq<i32>
    decreases ids.len() - at,
{
    let s = least(logits, ids, at);
    if at < 0 || s <= at || s >= ids.len() {
        ids
    } else {
        sunk(logits, swapped(ids, at, s), s)
    }
}

/// The heap of at most `k` candidates after the first `n` logits: a finite logit enters
/// at the end while there is room, and then in place of the root where it is larger.
pub open spec fn kept(logits: Seq<u32>, k: int, n: nat) -> Seq<i32>
    decreases n,
{
    if n == 0 {
        Seq::empty()
    } else {
        let ids = kept(logits, k, (n - 1) as nat);
        let i = n - 1;
        if !finite(logits[i]) {
            ids
        } else if ids.len() < k {
            risen(logits, ids.push(i as i32), ids.len() as int)
        } else if k > 0 && key(logits[i]) > key(logits[ids[0] as int]) {
            sunk(logits, ids.update(0, i as i32), 0)
        } else {
            ids
        }
    }
}

/// Whether the element at `a` comes before the one at `b` in a stable sort by descending
/// logit.
pub open spec fn ahead(logits: Seq<u32>, ids: Seq<i32>, a: int, b: int) -> bool {
    key(logits[ids[a] as int]) > key(logits[ids[b] as int]) || (key(logits[ids[a] as int]) == key(
        logits[ids[b] as int],
    ) && a < b)
}

/// Whether `p` names places of `ids`, all different, in the order of a stable sort, and
/// `sorted` holds what stands there.
pub open spec fn sorts(logits: Seq<u32>, ids: Seq<i32>, sorted: Seq<i32>, p: Seq<int>) -> bool {
    &&& p.len() == ids.len() == sorted.len()
    &&& forall|i: int|
        0 <= i < p.len() ==> 0 <= #[trigger] p[i] < ids.len() && sorted[i] == ids[p[i]]
    &&& forall|i: int, j: int|
        0 <= i < j < p.len() ==> ahead(logits, ids, #[trigger] p[i], #[trigger] p[j])
}

proof fn lemma_swap_keeps_set(logits: Seq<u32>, n: int, k: int, ids: Seq<i32>, a: int, b: int)
    requires
        best_set(logits, n, k, ids),
        0 <= a < ids.len(),
        0 <= b < ids.len(),
    ensures
        best_set(logits, n, k, swapped(ids, a, b)),
{
    let new = swapped(ids, a, b);
    assert forall|x: i32| #[trigger] new.contains(x) == ids.contains(x) by {
        if ids.contains(x) {
            let j = choose|j: int| 0 <= j < ids.len() && ids[j] == x;
            if j == a {
                assert(new[b] == x);
            } else if j == b {
                assert(new[a] == x);
            } else {
                assert(new[j] == x);
            }
        }
        if new.contains(x) {
            let j = choose|j: int| 0 <= j < new.len() && new[j] == x;
            if j == a {
                assert(ids[b] == x);
            } else if j == b {
                assert(ids[a] == x);
            } else {
                assert(ids[j] == x);
            }
        }
    }
    assert forall|x: int, j: int|
        #![trigger logits[x], new[j]]
        0 <= x < n && finite(logits[x]) && !new.contains(x as i32) && 0 <= j < new.len() implies key(
        logits[x],
    ) <= key(logits[new[j] as int]) by {
        let from = if j == a {
            b
        } else if j == b {
            a
        } else {
            j
        };
        assert(new[j] == ids[from]);
        assert(!ids.contains(x as i32));
    }
}

fn swap(ids: &mut Vec<i32>, a: usize, b: usize)
    requires
        a < old(ids)@.len(),
        b < old(ids)@.len(),
    ensures
        final(ids)@ == swapped(old(ids)@, a as int, b as int),
{
    let x: i32 = ids[a];
    let y: i32 = ids[b];
    ids.set(a, y);
    ids.set(b, x);
}

/// Moves the last element up to its place in the heap.
fn sift_up(logits: &[u32], ids: &mut Vec<i32>, Ghost(n): Ghost<int>, Ghost(k): Ghost<int>)
    requires
        n <= logits@.len(),
        best_set(logits@, n, k, old(ids)@),
        old(ids)@.len() > 0,
        heap_but(logits@, old(ids)@, old(ids)@.len() - 1),
    ensures
        best_set(logits@, n, k, final(ids)@),
        final(ids)@ == risen(logits@, old(ids)@, old(ids)@.len() - 1),
        final(ids)@.len() == old(ids)@.len(),
        heap(logits@, final(ids)@),
{
    let mut at: usize = ids.len() - 1;
    let ghost goal = risen(logits@, ids@, ids@.len() - 1);
    while at > 0
        invariant_except_break
            heap_but(logits@, ids@, at as int),
            heap_below(logits@, ids@, at as int),
            goal == risen(logits@, ids@, at as int),
        invariant
            n <= logits@.len(),
            at < ids@.len(),
            ids@.len() == old(ids)@.len(),
            best_set(logits@, n, k, ids@),
        ensures
            heap(logits@, ids@),
            ids@ == goal,
        decreases at,
    {
        let parent: usize = (at - 1) / 2;
        let up: u32 = logits[ids[parent] as usize];
        let here: u32 = logits[ids[at] as usize];
        if !is_greater(up, here) {
            assert(ordered(logits@, ids@, at as int));
            break;
        }
        proof {
            lemma_swap_keeps_set(logits@, n, k, ids@, parent as int, at as int);
            lemma_sift_up(logits@, ids@, parent as int, at as int);
        }
        swap(ids, parent, at);
        at = parent;
    }
}

proof fn lemma_sift_up(logits: Seq<u32>, ids: Seq<i32>, parent: int, at: int)
    requires
        0 < at < ids.len(),
        parent == (at - 1) / 2,
        heap_but(logits, ids, at),
        heap_below(logits, ids, at),
        key(logits[ids[parent] as int]) > key(logits[ids[at] as int]),
    ensures
        heap_but(logits, swapped(ids, parent, at), parent),
        heap_below(logits, swapped(ids, parent, at), parent),
{
    let new = swapped(ids, parent, at);
    assert forall|i: int| 0 < i < new.len() && i != parent implies #[trigger] ordered(
        logits,
        new,
        i,
    ) by {
        let p = (i - 1) / 2;
        if i == at {
        } else if p == at {
            assert(clears(logits, ids, at, i));
        } else {
            assert(ordered(logits, ids, i));
        }
    }
    assert forall|i: int|
        0 < i < new.len() && (i - 1) / 2 == parent && parent > 0 implies #[trigger] clears(
        logits,
        new,
        parent,
        i,
    ) by {
        assert(ordered(logits, ids, parent));
        if i != at {
            assert(ordered(logits, ids, i));
        }
    }
}

/// Moves the root down to its place in the heap.
fn sift_down(logits: &[u32], ids: &mut Vec<i32>, Ghost(n): Ghost<int>, Ghost(k): Ghost<int>)
    requires
        n <= logits@.len() <= i32::MAX,
        best_set(logits@, n, k, old(ids)@),
        old(ids)@.len() > 0,
        old(ids)@.len() <= logits@.len(),
        heap_above(logits@, old(ids)@, 0),
    ensures
        best_set(logits@, n, k, final(ids)@),
        final(ids)@ == sunk(logits@, old(ids)@, 0),
        final(ids)@.len() == old(ids)@.len(),
        heap(logits@, final(ids)@),
{
    let mut at: usize = 0;
    let ghost goal = sunk(logits@, ids@, 0);
    loop
        invariant_except_break
            heap_above(logits@, ids@, at as int),
            goal == sunk(logits@, ids@, at as int),
        invariant
            n <= logits@.len() <= i32::MAX,
            at < ids@.len(),
            ids@.len() == old(ids)@.len(),
            ids@.len() <= logits@.len(),
            best_set(logits@, n, k, ids@),
        ensures
            heap(logits@, ids@),
            ids@ == goal,
        decreases ids@.len() - at,
    {
        let left: usize = 2 * at + 1;
        let right: usize = 2 * at + 2;
        let mut smallest: usize = at;
        if left < ids.len() && is_greater(
            logits[ids[smallest] as usize],
            logits[ids[left] as usize],
        ) {
            smallest = left;
        }
        if right < ids.len() && is_greater(
            logits[ids[smallest] as usize],
            logits[ids[right] as usize],
        ) {
            smallest = right;
        }
        proof {
            assert(finite(logits@[ids@[at as int] as int]));
            assert(left < ids@.len() ==> finite(logits@[ids@[left as int] as int]) && key(
                logits@[ids@[smallest as int] as int],
            ) <= key(logits@[ids@[left as int] as int]));
            assert(right < ids@.len() ==> finite(logits@[ids@[right as int] as int]) && key(
                logits@[ids@[smallest as int] as int],
            ) <= key(logits@[ids@[right as int] as int]));
            assert forall|i: int| 0 < i < ids@.len() && (i - 1) / 2 == at implies key(
                logits@[ids@[smallest as int] as int],
            ) <= key(logits@[#[trigger] ids@[i] as int]) by {
                assert(i == left || i == right);
            }
            assert(smallest == least(logits@, ids@, at as int));
        }
        if smallest == at {
            proof {
                assert forall|i: int| 0 < i < ids@.len() implies #[trigger] ordered(
                    logits@,
                    ids@,
                    i,
                ) by {
                    if (i - 1) / 2 == at {
                        assert(i == left || i == right);
                    }
                }
            }
            break;
        }
        proof {
            lemma_swap_keeps_set(logits@, n, k, ids@, at as int, smallest as int);
            lemma_sift_down(logits@, ids@, at as int, smallest as int);
        }
        swap(ids, at, smallest);
        at = smallest;
    }
}

proof fn lemma_sift_down(logits: Seq<u32>, ids: Seq<i32>, at: int, smallest: int)
    requires
        0 <= at < ids.len(),
        smallest == 2 * at + 1 || smallest == 2 * at + 2,
        smallest < ids.len(),
        heap_above(logits, ids, at),
        key(logits[ids[smallest] as int]) < key(logits[ids[at] as int]),
        forall|i: int|
            0 < i < ids.len() && (i - 1) / 2 == at ==> key(logits[ids[smallest] as int]) <= key(
                logits[#[trigger] ids[i] as int],
            ),
    ensures
        heap_above(logits, swapped(ids, at, smallest), smallest),
{
    let new = swapped(ids, at, smallest);
    assert((smallest - 1) / 2 == at);
    assert forall|i: int| 0 < i < new.len() && (i - 1) / 2 != smallest implies #[trigger] ordered(
        logits,
        new,
        i,
    ) by {
        let p = (i - 1) / 2;
        if p == at {
            if i != smallest {
                assert(new[i] == ids[i]);
            }
        } else if i == at {
            assert(clears(logits, ids, at, smallest));
        } else {
            assert(ordered(logits, ids, i));
        }
    }
    assert forall|i: int|
        0 < i < new.len() && (i - 1) / 2 == smallest && smallest > 0 implies #[trigger] clears(
        logits,
        new,
        smallest,
        i,
    ) by {
        assert(ordered(logits, ids, i));
    }
}

proof fn lemma_root_smallest(logits: Seq<u32>, ids: Seq<i32>, i: int)
    requires
        heap(logits, ids),
        0 <= i < ids.len(),
    ensures
        key(logits[ids[0] as int]) <= key(logits[ids[i] as int]),
    decreases i,
{
    if i > 0 {
        assert(ordered(logits, ids, i));
        lemma_root_smallest(logits, ids, (i - 1) / 2);
    }
}

/// Whether the logits of `ids` descend.
pub open spec fn descending(logits: Seq<u32>, ids: Seq<i32>) -> bool {
    forall|i: int, j: int|
        0 <= i < j < ids.len() ==> key(logits[#[trigger] ids[i] as int]) >= key(
            logits[#[trigger] ids[j] as int],
        )
}

/// Sorts `ids` by descending logit; equal ones keep their order.
fn sort_descending(logits: &[u32], ids: &mut Vec<i32>, Ghost(n): Ghost<int>, Ghost(k): Ghost<int>)
    requires
        n <= logits@.len(),
        best_set(logits@, n, k, old(ids)@),
    ensures
        best_set(logits@, n, k, final(ids)@),
        descending(logits@, final(ids)@),
        exists|p: Seq<int>| sorts(logits@, old(ids)@, final(ids)@, p),
{
    let ghost first = ids@;
    let ghost mut p = Seq::new(first.len(), |i: int| i);
    let mut done: usize = 0;
    while done < ids.len()
        invariant
            done <= ids@.len() == first.len() == p.len(),
            n <= logits@.len(),
            best_set(logits@, n, k, ids@),
            forall|i: int|
                0 <= i < p.len() ==> 0 <= #[trigger] p[i] < first.len() && ids@[i] == first[p[i]],
            forall|i: int| 0 <= i < done ==> #[trigger] p[i] < done,
            forall|i: int| done <= i < p.len() ==> #[trigger] p[i] == i,
            forall|i: int, j: int|
                0 <= i < j < done ==> ahead(logits@, first, #[trigger] p[i], #[trigger] p[j]),
        decreases ids@.len() - done,
    {
        let mut at: usize = done;
        while at > 0 && is_greater(logits[ids[at] as usize], logits[ids[at - 1] as usize])
            invariant
                at <= done < ids@.len() == first.len() == p.len(),
                n <= logits@.len(),
                best_set(logits@, n, k, ids@),
                forall|i: int|
                    0 <= i < p.len() ==> 0 <= #[trigger] p[i] < first.len() && ids@[i]
                        == first[p[i]],
                p[at as int] == done,
                forall|i: int| 0 <= i <= done && i != at ==> #[trigger] p[i] < done,
                forall|i: int| done < i < p.len() ==> #[trigger] p[i] == i,
                forall|i: int, j: int|
                    0 <= i < j <= done && i != at && j != at ==> ahead(
                        logits@,
                        first,
                        #[trigger] p[i],
                        #[trigger] p[j],
                    ),
                forall|j: int| at < j <= done ==> ahead(logits@, first, done as int, #[trigger] p[j]),
            ensures
                at <= done,
                ids@.len() == first.len() == p.len(),
                best_set(logits@, n, k, ids@),
                forall|i: int|
                    0 <= i < p.len() ==> 0 <= #[trigger] p[i] < first.len() && ids@[i]
                        == first[p[i]],
                p[at as int] == done,
                forall|i: int| 0 <= i <= done && i != at ==> #[trigger] p[i] < done,
                forall|i: int| done < i < p.len() ==> #[trigger] p[i] == i,
                forall|i: int, j: int|
                    0 <= i < j <= done && i != at && j != at ==> ahead(
                        logits@,
                        first,
                        #[trigger] p[i],
                        #[trigger] p[j],
                    ),
                forall|j: int| at < j <= done ==> ahead(logits@, first, done as int, #[trigger] p[j]),
                at > 0 ==> ahead(logits@, first, p[at - 1], done as int),
            decreases at,
        {
            proof {
                lemma_swap_keeps_set(logits@, n, k, ids@, at - 1, at as int);
                p = p.update(at - 1, p[at as int]).update(at as int, p[at - 1]);
            }
            swap(ids, at - 1, at);
            at = at - 1;
        }
        proof {
            assert forall|i: int, j: int| 0 <= i < j < done + 1 implies ahead(
                logits@,
                first,
                #[trigger] p[i],
                #[trigger] p[j],
            ) by {
                if j == at && i < at - 1 {
                    assert(ahead(logits@, first, p[i], p[at - 1]));
                }
            }
        }
        done = done + 1;
    }
    proof {
        assert(sorts(logits@, first, ids@, p));
        assert forall|i: int, j: int| 0 <= i < j < ids@.len() implies key(
            logits@[#[trigger] ids@[i] as int],
        ) >= key(logits@[#[trigger] ids@[j] as int]) by {
            assert(ahead(logits@, first, p[i], p[j]));
        }
    }
}

/// How many logits `k` candidates are wanted of: none for a negative `k`, and no more
/// than there are.
pub open spec fn wanted(k: int, n: int) -> int {
    if k < 0 {
        0
    } else if k > n {
        n
    } else {
        k
    }
}

/// Whether `ids` are the `k` candidates that the heap keeps of all logits, sorted.
pub open spec fn ranked(logits: Seq<u32>, k: int, ids: Seq<i32>) -> bool {
    exists|p: Seq<int>|
        sorts(logits, kept(logits, wanted(k, logits.len() as int), logits.len()), ids, p)
}

/// The tokens of the `k` largest finite logits, in descending order; equal logits are
/// dealt with in the order in which the heap holds them.
pub fn top_scores(logits: &[u32], k: i32) -> (ids: Vec<i32>)
    requires
        logits@.len() <= i32::MAX,
    ensures
        best_set(logits@, logits@.len() as int, wanted(k as int, logits@.len() as int), ids@),
        descending(logits@, ids@),
        ranked(logits@, k as int, ids@),
{
    let n: usize = logits.len();
    let limit: usize = if k < 0 {
        0
    } else if k as usize > n {
        n
    } else {
        k as usize
    };
    let ghost lim = limit as int;
    let mut ids: Vec<i32> = Vec::new();
    let mut i: usize = 0;
    while i < n
        invariant
            i <= n == logits@.len() <= i32::MAX,
            limit <= n,
            lim == limit,
            best_set(logits@, i as int, lim, ids@),
            heap(logits@, ids@),
            ids@ == kept(logits@, lim, i as nat),
        decreases n - i,
    {
        let v: u32 = logits[i];
        let ghost before = ids@;
        if is_finite(v) {
            if ids.len() < limit {
                ids.push(i as i32);
                proof {
                    lemma_pushed(logits@, i as int, lim, before);
                }
                sift_up(logits, &mut ids, Ghost(i + 1), Ghost(lim));
            } else if limit > 0 && is_greater(v, logits[ids[0] as usize]) {
                ids.set(0, i as i32);
                proof {
                    lemma_replaced(logits@, i as int, lim, before);
                }
                sift_down(logits, &mut ids, Ghost(i + 1), Ghost(lim));
            } else {
                proof {
                    assert forall|x: int, j: int|
                        #![trigger logits@[x], ids@[j]]
                        0 <= x < i + 1 && finite(logits@[x]) && !ids@.contains(x as i32) && 0 <= j
                            < ids@.len() implies key(logits@[x]) <= key(
                        logits@[ids@[j] as int],
                    ) by {
                        if x == i {
                            lemma_root_smallest(logits@, ids@, j);
                        }
                    }
                }
            }
        }
        i = i + 1;
    }
    assert(ids@ == kept(logits@, wanted(k as int, n as int), logits@.len()));
    let ghost heap = ids@;
    sort_descending(logits, &mut ids, Ghost(n as int), Ghost(lim));
    proof {
        let p = choose|p: Seq<int>| sorts(logits@, heap, ids@, p);
        assert(sorts(logits@, heap, ids@, p));
    }
    ids
}

proof fn lemma_pushed(logits: Seq<u32>, i: int, k: int, ids: Seq<i32>)
    requires
        0 <= i < logits.len() <= i32::MAX,
        finite(logits[i]),
        ids.len() < k,
        best_set(logits, i, k, ids),
        heap(logits, ids),
    ensures
        best_set(logits, i + 1, k, ids.push(i as i32)),
        heap_but(logits, ids.push(i as i32), ids.len() as int),
{
    let new = ids.push(i as i32);
    assert forall|x: int| 0 <= x < i + 1 && finite(#[trigger] logits[x]) implies new.contains(
        x as i32,
    ) by {
        if x == i {
            assert(new[ids.len() as int] == i as i32);
        } else {
            assert(ids.contains(x as i32));
            let j = choose|j: int| 0 <= j < ids.len() && ids[j] == x as i32;
            assert(new[j] == x as i32);
        }
    }
    assert forall|a: int| 0 < a < new.len() && a != ids.len() implies #[trigger] ordered(
        logits,
        new,
        a,
    ) by {
        assert(ordered(logits, ids, a));
    }
}

proof fn lemma_replaced(logits: Seq<u32>, i: int, k: int, ids: Seq<i32>)
    requires
        0 <= i < logits.len() <= i32::MAX,
        finite(logits[i]),
        ids.len() == k,
        k > 0,
        best_set(logits, i, k, ids),
        heap(logits, ids),
        greater(logits[i], logits[ids[0] as int]),
    ensures
        best_set(logits, i + 1, k, ids.update(0, i as i32)),
        heap_above(logits, ids.update(0, i as i32), 0),
{
    let new = ids.update(0, i as i32);
    assert forall|x: int, j: int|
        #![trigger logits[x], new[j]]
        0 <= x < i + 1 && finite(logits[x]) && !new.contains(x as i32) && 0 <= j < new.len() implies key(
        logits[x],
    ) <= key(logits[new[j] as int]) by {
        assert(new[0] == i as i32);
        assert(x != i);
        lemma_root_smallest(logits, ids, j);
        if ids.contains(x as i32) {
            let a = choose|a: int| 0 <= a < ids.len() && ids[a] == x as i32;
            if a != 0 {
                assert(new[a] == x as i32);
            }
        } else {
            assert(key(logits[x]) <= key(logits[ids[0] as int]));
            assert(key(logits[x]) <= key(logits[ids[j] as int]));
        }
    }
    assert forall|a: int| 0 < a < new.len() && (a - 1) / 2 != 0 implies #[trigger] ordered(
        logits,
        new,
        a,
    ) by {
        assert(ordered(logits, ids, a));
    }
}

} // verus!

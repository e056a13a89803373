//! What drawing a token is held to.
use vstd::prelude::*;

use crate::cache::DS4_NEG_INF;
use crate::draw::{
    drawn_from, finite_ids, nucleus_from, planned, surviving, top_finite, usable, Plan,
};
use crate::sampling::{
    argmax_of, best_logit, best_set, descending, first_candidates, rng_output, rng_step, wanted,
};
use crate::single::{finite, greater, key, nan};

verus! {

/// One as a single.
pub open spec fn one() -> u32 {
    0x3f80_0000
}

/// Whether `a` is a number that is no larger than the number `b`.
pub open spec fn no_larger(a: u32, b: u32) -> bool {
    !nan(a) && !nan(b) && !greater(a, b)
}

/// Whether some logit is finite.
pub open spec fn some_finite(logits: Seq<u32>) -> bool {
    exists|j: int| 0 <= j < logits.len() && finite(#[trigger] logits[j])
}

/// Whether all of the probability is kept: the share asked for is not between zero and
/// one, or it is one.
pub open spec fn keeps_all(top_p: u32) -> bool {
    no_larger(top_p, 0) || no_larger(one(), top_p)
}

proof fn lemma_finite_ids(logits: Seq<u32>, n: nat)
    requires
        n <= logits.len() <= i32::MAX,
    ensures
        forall|j: int|
            0 <= j < n ==> (finite(#[trigger] logits[j]) <==> finite_ids(logits, n).contains(
                j as i32,
            )),
        forall|a: int|
            0 <= a < finite_ids(logits, n).len() ==> 0 <= #[trigger] finite_ids(logits, n)[a] < n,
        forall|a: int, b: int|
            0 <= a < b < finite_ids(logits, n).len() ==> #[trigger] finite_ids(logits, n)[a]
                < #[trigger] finite_ids(logits, n)[b],
    decreases n,
{
    if n > 0 {
        let m = (n - 1) as nat;
        lemma_finite_ids(logits, m);
        let before = finite_ids(logits, m);
        let ids = finite_ids(logits, n);
        assert forall|j: int| 0 <= j < n implies (finite(#[trigger] logits[j]) <==> ids.contains(
            j as i32,
        )) by {
            if finite(logits[m as int]) {
                assert(ids[before.len() as int] == m as i32);
            }
            if j < m {
                if before.contains(j as i32) {
                    let a = choose|a: int| 0 <= a < before.len() && before[a] == j as i32;
                    assert(ids[a] == j as i32);
                }
                if ids.contains(j as i32) {
                    let a = choose|a: int| 0 <= a < ids.len() && ids[a] == j as i32;
                    assert(a < before.len());
                    assert(before[a] == j as i32);
                }
            } else if ids.contains(j as i32) && !finite(logits[m as int]) {
                let a = choose|a: int| 0 <= a < ids.len() && ids[a] == j as i32;
                assert(before[a] < m);
            }
        }
    }
}

proof fn lemma_some_finite(logits: Seq<u32>)
    requires
        logits.len() <= i32::MAX,
    ensures
        (finite_ids(logits, logits.len()).len() > 0) == some_finite(logits),
{
    let ids = finite_ids(logits, logits.len());
    lemma_finite_ids(logits, logits.len());
    if ids.len() > 0 {
        let j = ids[0] as int;
        assert(ids.contains(j as i32));
        assert(finite(logits[j]));
    }
    if some_finite(logits) {
        let j = choose|j: int| 0 <= j < logits.len() && finite(#[trigger] logits[j]);
        assert(ids.contains(j as i32));
    }
}

/// Without a positive temperature, or without a finite logit, the token is settled: it is
/// the first one of the largest logit, and token 0 where no logit is above the number
/// that stands for minus infinity.
pub proof fn cold_draw_takes_largest(
    logits: Seq<u32>,
    temperature: u32,
    top_k: i32,
    top_p: u32,
    min_p: u32,
    plan: Plan,
)
    requires
        logits.len() <= i32::MAX,
        planned(logits, temperature, top_k, top_p, min_p, plan),
        no_larger(temperature, 0) || !some_finite(logits),
    ensures
        plan is Token,
        ({
            let t = plan->Token_0 as int;
            if exists|j: int| 0 <= j < logits.len() && greater(#[trigger] logits[j], DS4_NEG_INF) {
                &&& 0 <= t < logits.len()
                &&& forall|j: int| 0 <= j < logits.len() ==> !greater(#[trigger] logits[j], logits[t])
                &&& forall|j: int|
                    0 <= j < t ==> nan(#[trigger] logits[j]) || greater(logits[t], logits[j])
            } else {
                t == 0
            }
        }),
{
    lemma_some_finite(logits);
    let t = plan->Token_0 as int;
    assert(argmax_of(logits, t));
    if exists|j: int| 0 <= j < logits.len() && greater(#[trigger] logits[j], DS4_NEG_INF) {
        assert(best_logit(logits, t));
        assert forall|j: int| 0 <= j < t implies nan(#[trigger] logits[j]) || greater(
            logits[t],
            logits[j],
        ) by {
            if !nan(logits[j]) && !greater(logits[t], logits[j]) {
                assert(key(logits[j]) == key(logits[t])) by {
                    assert(!greater(logits[j], logits[t]));
                }
                assert(best_logit(logits, j)) by {
                    assert forall|x: int| 0 <= x < logits.len() implies !greater(
                        #[trigger] logits[x],
                        logits[j],
                    ) by {
                        assert(!greater(logits[x], logits[t]));
                    }
                }
            }
        }
    }
}

/// With a positive temperature and no limit, every token with a finite logit takes part,
/// in the order of the vocabulary, and the least relative probability is the caller's
/// where it is above zero.
pub proof fn unlimited_draw_takes_all(
    logits: Seq<u32>,
    temperature: u32,
    top_k: i32,
    top_p: u32,
    min_p: u32,
    plan: Plan,
)
    requires
        logits.len() <= i32::MAX,
        planned(logits, temperature, top_k, top_p, min_p, plan),
        !no_larger(temperature, 0),
        some_finite(logits),
        top_k <= 0,
        keeps_all(top_p),
    ensures
        plan is All,
        greater(min_p, 0) ==> plan->All_min_p == min_p,
        !greater(min_p, 0) ==> plan->All_min_p == 0,
        forall|j: int|
            0 <= j < logits.len() ==> (finite(#[trigger] logits[j]) <==> plan->All_ids@.contains(
                j as i32,
            )),
        forall|a: int, b: int|
            0 <= a < b < plan->All_ids@.len() ==> 0 <= #[trigger] plan->All_ids@[a]
                < #[trigger] plan->All_ids@[b] < logits.len(),
        forall|j: int|
            0 <= j < logits.len() && finite(#[trigger] logits[j]) ==> key(logits[j]) <= key(
                plan->All_top,
            ),
        plan->All_top == DS4_NEG_INF || (0 <= plan->best < logits.len() && plan->All_top
            == logits[plan->best as int]),
{
    lemma_some_finite(logits);
    lemma_finite_ids(logits, logits.len());
}

/// The most candidates that are ranked.
pub open spec fn cap(top_k: i32, n: int) -> int {
    if top_k <= 0 {
        n
    } else if top_k <= 1024 && top_k <= n {
        top_k as int
    } else if 1024 <= n {
        1024
    } else {
        n
    }
}

/// Otherwise the tokens of the largest logits take part, the best first: as many as are
/// asked for, at most 1024. What the caller asks for of the probability is handed on: the
/// share to keep where it lies between zero and one, and the least relative probability
/// where it is above zero.
pub proof fn limited_draw_ranks_candidates(
    logits: Seq<u32>,
    temperature: u32,
    top_k: i32,
    top_p: u32,
    min_p: u32,
    plan: Plan,
)
    requires
        logits.len() <= i32::MAX,
        planned(logits, temperature, top_k, top_p, min_p, plan),
        !no_larger(temperature, 0),
        some_finite(logits),
        top_k > 0 || !keeps_all(top_p),
    ensures
        plan is Ranked,
        greater(min_p, 0) ==> plan->Ranked_min_p == min_p,
        greater(0, min_p) ==> plan->Ranked_min_p == 0,
        !greater(0, min_p) ==> plan->Ranked_min_p == min_p,
        greater(top_p, 0) && !greater(top_p, one()) ==> plan->top_p == top_p,
        no_larger(top_p, 0) || greater(top_p, one()) ==> plan->top_p == one(),
        ({
            let ids = plan->Ranked_ids@;
            &&& 0 < ids.len() <= cap(top_k, logits.len() as int)
            &&& forall|a: int|
                0 <= a < ids.len() ==> 0 <= #[trigger] ids[a] < logits.len() && finite(
                    logits[ids[a] as int],
                )
            &&& forall|a: int, b: int|
                0 <= a < b < ids.len() ==> #[trigger] ids[a] != #[trigger] ids[b] && !greater(
                    logits[ids[b] as int],
                    logits[ids[a] as int],
                )
            &&& forall|x: int|
                0 <= x < logits.len() && finite(#[trigger] logits[x]) && !ids.contains(x as i32)
                    ==> ids.len() == cap(top_k, logits.len() as int) && !greater(
                    logits[x],
                    logits[ids.last() as int],
                )
            &&& top_k > 0 ==> plan->Ranked_top == logits[ids[0] as int]
            &&& top_k <= 0 ==> forall|j: int|
                0 <= j < logits.len() && finite(#[trigger] logits[j]) ==> key(logits[j]) <= key(
                    plan->Ranked_top,
                )
        }),
{
    lemma_some_finite(logits);
    let n = logits.len() as int;
    let ids = plan->Ranked_ids@;
    let k = cap(top_k, n);
    assert(first_candidates(logits, n, k, ids));
    let j = choose|j: int| 0 <= j < logits.len() && finite(#[trigger] logits[j]);
    assert(ids.contains(j as i32) || ids.len() == k);
    if top_k <= 0 {
        let best = choose|best: int| top_finite(logits, best, plan->Ranked_top);
        assert(top_finite(logits, best, plan->Ranked_top));
    }
}

/// Of candidates in order the first ones stay: none that stays but the first is below the
/// least share, the share to keep is reached with none of them but the last, and the next
/// one, if any, is below the least share or no longer needed.
pub proof fn nucleus_is_shortest(shares: Seq<u32>, reached: Seq<u32>, least: u32, top_p: u32)
    requires
        shares.len() == reached.len(),
        shares.len() > 0,
    ensures
        ({
            let c = nucleus_from(shares, reached, least, top_p, 0) as int;
            &&& 1 <= c <= shares.len()
            &&& forall|i: int| 0 < i < c ==> !greater(least, #[trigger] shares[i])
            &&& forall|i: int| 0 <= i < c - 1 ==> !no_larger(top_p, #[trigger] reached[i])
            &&& c < shares.len() ==> greater(least, shares[c]) || no_larger(top_p, reached[c - 1])
        }),
{
    lemma_nucleus(shares, reached, least, top_p, 0);
}

proof fn lemma_nucleus(shares: Seq<u32>, reached: Seq<u32>, least: u32, top_p: u32, k: nat)
    requires
        shares.len() == reached.len(),
        k < shares.len(),
        forall|i: int| 0 < i < k ==> !greater(least, #[trigger] shares[i]),
        forall|i: int| 0 <= i < k ==> !no_larger(top_p, #[trigger] reached[i]),
    ensures
        ({
            let c = nucleus_from(shares, reached, least, top_p, k) as int;
            &&& 1 <= c <= shares.len()
            &&& forall|i: int| 0 < i < c ==> !greater(least, #[trigger] shares[i])
            &&& forall|i: int| 0 <= i < c - 1 ==> !no_larger(top_p, #[trigger] reached[i])
            &&& c < shares.len() ==> greater(least, shares[c]) || no_larger(top_p, reached[c - 1])
        }),
    decreases shares.len() - k,
{
    if !(k > 0 && greater(least, shares[k as int])) && !no_larger(top_p, reached[k as int]) {
        if k + 1 < shares.len() {
            lemma_nucleus(shares, reached, least, top_p, k + 1);
        } else {
            assert(nucleus_from(shares, reached, least, top_p, k + 1) == shares.len());
        }
    }
}

/// A candidate stays exactly where its relative probability is not below the least one,
/// and those that stay keep their order.
pub proof fn survivors_are_not_below(probabilities: Seq<u32>, least: u32, n: nat)
    requires
        n <= probabilities.len() <= usize::MAX,
    ensures
        forall|j: int|
            0 <= j < n ==> (surviving(probabilities, least, n).contains(j as usize) <==> !greater(
                least,
                #[trigger] probabilities[j],
            )),
        forall|a: int|
            0 <= a < surviving(probabilities, least, n).len() ==> #[trigger] surviving(
                probabilities,
                least,
                n,
            )[a] < n,
        forall|a: int, b: int|
            0 <= a < b < surviving(probabilities, least, n).len() ==> #[trigger] surviving(
                probabilities,
                least,
                n,
            )[a] < #[trigger] surviving(probabilities, least, n)[b],
    decreases n,
{
    if n > 0 {
        let m = (n - 1) as nat;
        survivors_are_not_below(probabilities, least, m);
        let before = surviving(probabilities, least, m);
        let all = surviving(probabilities, least, n);
        assert forall|j: int| 0 <= j < n implies (all.contains(j as usize) <==> !greater(
            least,
            #[trigger] probabilities[j],
        )) by {
            if !greater(least, probabilities[m as int]) {
                assert(all[before.len() as int] == m as usize);
            }
            if j < m {
                if before.contains(j as usize) {
                    let a = choose|a: int| 0 <= a < before.len() && before[a] == j as usize;
                    assert(all[a] == j as usize);
                }
                if all.contains(j as usize) {
                    let a = choose|a: int| 0 <= a < all.len() && all[a] == j as usize;
                    assert(a < before.len());
                    assert(before[a] == j as usize);
                }
            } else if all.contains(j as usize) && greater(least, probabilities[m as int]) {
                let a = choose|a: int| 0 <= a < all.len() && all[a] == j as usize;
                assert(before[a] < m);
            }
        }
    }
}

/// A random number picks the first place whose running sum it does not exceed.
pub proof fn draw_picks_first_sum(sums: Seq<u32>, r: u32)
    requires
        sums.len() <= usize::MAX,
    ensures
        match drawn_from(sums, r, 0) {
            Some(k) => k < sums.len() && no_larger(r, sums[k as int]) && forall|j: int|
                0 <= j < k ==> !no_larger(r, #[trigger] sums[j]),
            None => forall|j: int| 0 <= j < sums.len() ==> !no_larger(r, #[trigger] sums[j]),
        },
{
    lemma_drawn(sums, r, 0);
}

proof fn lemma_drawn(sums: Seq<u32>, r: u32, i: nat)
    requires
        i <= sums.len() <= usize::MAX,
        forall|j: int| 0 <= j < i ==> !no_larger(r, #[trigger] sums[j]),
    ensures
        match drawn_from(sums, r, i) {
            Some(k) => k < sums.len() && no_larger(r, sums[k as int]) && forall|j: int|
                0 <= j < k ==> !no_larger(r, #[trigger] sums[j]),
            None => forall|j: int| 0 <= j < sums.len() ==> !no_larger(r, #[trigger] sums[j]),
        },
    decreases sums.len() - i,
{
    if i < sums.len() && !no_larger(r, sums[i as int]) {
        lemma_drawn(sums, r, i + 1);
    }
}

/// The candidates of a listing are the largest logits: finite, distinct, in descending
/// order, as many as are wanted where there are so many, and none that is left out is
/// greater than one that is listed.
pub proof fn listed_candidates_are_largest(
    logits: Seq<u32>,
    k: int,
    ids: Seq<i32>,
    a: int,
    b: int,
    x: int,
)
    requires
        logits.len() <= i32::MAX,
        best_set(logits, logits.len() as int, wanted(k, logits.len() as int), ids),
        descending(logits, ids),
        0 <= a < ids.len(),
        0 <= x < logits.len(),
    ensures
        ids.len() <= k && ids.len() <= logits.len(),
        0 <= ids[a] < logits.len() && finite(logits[ids[a] as int]),
        a < b < ids.len() ==> ids[a] != ids[b] && !greater(
            logits[ids[b] as int],
            logits[ids[a] as int],
        ),
        finite(logits[x]) && !ids.contains(x as i32) ==> !greater(logits[x], logits[ids[a] as int])
            && ids.len() == if k < logits.len() {
            k
        } else {
            logits.len() as int
        },
{
    if finite(logits[x]) && !ids.contains(x as i32) {
        assert(key(logits[x]) <= key(logits[ids[a] as int]));
    }
}

/// The state of the random numbers goes on by three shifts, and the number that comes out
/// is the new state times a constant; a state of zero is replaced first.
pub proof fn random_state_goes_on_by_shifts(x: u64, a: u64, b: u64)
    requires
        x != 0,
        a == x ^ (x >> 12),
        b == a ^ (a << 25),
    ensures
        rng_step(x) == b ^ (b >> 27),
        rng_output(x) == rng_step(x).wrapping_mul(0x2545_f491_4f6c_dd1du64),
        rng_step(0) == rng_step(0x9e37_79b9_7f4a_7c15),
        rng_output(0) == rng_output(0x9e37_79b9_7f4a_7c15),
{
}

/// A sum of probabilities can be divided by where it is a finite number above zero.
pub proof fn usable_sums_are_positive(sum: u32)
    ensures
        usable(sum) <==> 0 < sum < 0x7f80_0000,
{
}

/// The candidates of a draw come in descending order, equal ones by their IDs, and what is
/// left out comes behind all that are taken.
pub proof fn candidates_come_in_order(
    logits: Seq<u32>,
    k: int,
    ids: Seq<i32>,
    a: int,
    b: int,
    x: int,
)
    requires
        first_candidates(logits, logits.len() as int, k, ids),
        0 <= a < b < ids.len(),
        0 <= x < logits.len(),
    ensures
        ids.len() <= k,
        finite(logits[ids[a] as int]) && 0 <= ids[a] < logits.len(),
        !greater(logits[ids[b] as int], logits[ids[a] as int]),
        !greater(logits[ids[a] as int], logits[ids[b] as int]) ==> ids[a] < ids[b],
        finite(logits[x]) && !ids.contains(x as i32) ==> {
            &&& ids.len() == k
            &&& !greater(logits[x], logits[ids.last() as int])
            &&& !greater(logits[ids.last() as int], logits[x]) ==> ids.last() < x
        },
{
    let last = ids.last();
    assert(finite(logits[ids[a] as int]) && finite(logits[ids[b] as int]) && finite(
        logits[last as int],
    ));
}

} // verus!

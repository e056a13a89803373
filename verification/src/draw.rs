//! Drawing a token: the decisions of the sampler.
//!
//! Exponentials, sums and quotients of singles are computed elsewhere and come in as bit
//! patterns. Which candidates there are, which of them stay, and which one a random
//! number picks is decided here.
use vstd::prelude::*;

use crate::cache::DS4_NEG_INF;
use crate::sampling::{argmax_of, first_candidates, sample_argmax, select_top_k};
use crate::single::{finite, greater, is_finite, is_greater, is_nan, key, nan, order_key};

verus! {

/// One as a single.
pub const ONE: u32 = 0x3f80_0000;

/// The most candidates that `top_k` can ask for.
pub const MOST_CANDIDATES: i32 = 1024;

/// Whether the number `a` is at most the number `b`; never so with a NaN.
pub open spec fn at_most(a: u32, b: u32) -> bool {
    !nan(a) && !nan(b) && key(a) <= key(b)
}

pub fn is_at_most(a: u32, b: u32) -> (r: bool)
    ensures
        r == at_most(a, b),
{
    !is_nan(a) && !is_nan(b) && order_key(a) <= order_key(b)
}

/// How a token is drawn.
#[derive(Debug)]
pub enum Plan {
    /// The token is settled.
    Token(i32),
    /// Among all tokens with a finite logit, in the order of the vocabulary, without
    /// those whose probability relative to the logit `top` is below `min_p`. Where none
    /// can be drawn it is `best`.
    All { ids: Vec<i32>, best: i32, top: u32, min_p: u32 },
    /// Among candidates in descending order, of which the first ones stay that `nucleus`
    /// counts. Probabilities are relative to the logit `top`.
    Ranked { ids: Vec<i32>, top: u32, top_p: u32, min_p: u32 },
}

/// The share of probability to keep: all of it unless it lies between zero and one.
pub open spec fn top_p_of(top_p: u32) -> u32 {
    if at_most(top_p, 0) || greater(top_p, ONE) {
        ONE
    } else {
        top_p
    }
}

/// The least relative probability to keep: not below zero.
pub open spec fn min_p_of(min_p: u32) -> u32 {
    if greater(0, min_p) {
        0
    } else {
        min_p
    }
}

/// The indices of the first `n` logits that are finite.
pub open spec fn finite_ids(logits: Seq<u32>, n: nat) -> Seq<i32>
    decreases n,
{
    if n == 0 {
        Seq::empty()
    } else {
        let ids = finite_ids(logits, (n - 1) as nat);
        if finite(logits[n - 1]) {
            ids.push((n - 1) as i32)
        } else {
            ids
        }
    }
}

/// Whether `t` is the first index of the largest finite logit and `top` that logit; they
/// are zero and minus infinity where no finite logit is above what stands for minus
/// infinity.
pub open spec fn top_finite(logits: Seq<u32>, t: int, top: u32) -> bool {
    &&& forall|j: int|
        0 <= j < logits.len() && finite(#[trigger] logits[j]) ==> key(logits[j]) <= key(top)
    &&& {
        ||| t == 0 && top == DS4_NEG_INF
        ||| {
            &&& 0 <= t < logits.len()
            &&& finite(logits[t])
            &&& top == logits[t]
            &&& key(top) > key(DS4_NEG_INF)
            &&& forall|j: int| 0 <= j < t && finite(#[trigger] logits[j]) ==> key(logits[j]) < key(top)
        }
    }
}

/// How many candidates are ranked.
pub open spec fn candidates(top_k: i32, n: int) -> int {
    let most = if top_k < MOST_CANDIDATES {
        top_k as int
    } else {
        MOST_CANDIDATES as int
    };
    if most < n {
        most
    } else {
        n
    }
}

/// Whether `ids` are the candidates, all or as many as `top_k` asks for, and `top` the
/// logit that their probabilities are relative to.
pub open spec fn in_order(logits: Seq<u32>, top_k: i32, ids: Seq<i32>, top: u32) -> bool {
    let n = logits.len() as int;
    if top_k <= 0 {
        first_candidates(logits, n, n, ids) && exists|best: int| top_finite(logits, best, top)
    } else {
        first_candidates(logits, n, candidates(top_k, n), ids) && top == logits[ids[0] as int]
    }
}

/// Whether `plan` is how a token is drawn: the largest logit where the temperature is not
/// positive or no logit is finite; among all tokens where no number of candidates is
/// asked for and all of the probability is kept; and else among the candidates, best
/// first.
pub open spec fn planned(
    logits: Seq<u32>,
    temperature: u32,
    top_k: i32,
    top_p: u32,
    min_p: u32,
    plan: Plan,
) -> bool {
    let all = finite_ids(logits, logits.len());
    if at_most(temperature, 0) || all.len() == 0 {
        plan matches Plan::Token(t) && argmax_of(logits, t as int)
    } else if top_k <= 0 && at_most(ONE, top_p_of(top_p)) {
        plan matches Plan::All { ids, best, top, min_p: m } && ids@ == all && top_finite(
            logits,
            best as int,
            top,
        ) && m == if greater(min_p, 0) {
            min_p
        } else {
            0
        }
    } else {
        plan matches Plan::Ranked { ids, top, top_p: p, min_p: m } && in_order(
            logits,
            top_k,
            ids@,
            top,
        ) && p == top_p_of(top_p) && m == min_p_of(min_p)
    }
}

/// The finite logits, and the largest one of them.
fn finite_candidates(logits: &[u32]) -> (r: (Vec<i32>, i32, u32))
    requires
        logits@.len() <= i32::MAX,
    ensures
        r.0@ == finite_ids(logits@, logits@.len()),
        top_finite(logits@, r.1 as int, r.2),
        r.0@.len() > 0 ==> exists|j: int| 0 <= j < logits@.len() && finite(#[trigger] logits@[j]),
{
    let mut ids: Vec<i32> = Vec::new();
    let mut best: i32 = 0;
    let mut top: u32 = DS4_NEG_INF;
    let mut i: usize = 0;
    while i < logits.len()
        invariant
            i <= logits@.len() <= i32::MAX,
            ids@ == finite_ids(logits@, i as nat),
            !nan(top),
            forall|j: int|
                0 <= j < i && finite(#[trigger] logits@[j]) ==> key(logits@[j]) <= key(top),
            ({
                ||| best == 0 && top == DS4_NEG_INF
                ||| {
                    &&& 0 <= best < i
                    &&& finite(logits@[best as int])
                    &&& top == logits@[best as int]
                    &&& key(top) > key(DS4_NEG_INF)
                    &&& forall|j: int|
                        0 <= j < best && finite(#[trigger] logits@[j]) ==> key(logits@[j]) < key(
                            top,
                        )
                }
            }),
            ids@.len() > 0 ==> exists|j: int| 0 <= j < i && finite(#[trigger] logits@[j]),
        decreases logits@.len() - i,
    {
        let v: u32 = logits[i];
        if is_finite(v) {
            if is_greater(v, top) {
                best = i as i32;
                top = v;
            }
            ids.push(i as i32);
            assert(finite(logits@[i as int]));
        }
        i = i + 1;
    }
    (ids, best, top)
}

/// How a token is drawn from the logits.
pub fn plan_sample(logits: &[u32], temperature: u32, top_k: i32, top_p: u32, min_p: u32) -> (plan:
    Plan)
    requires
        logits@.len() <= i32::MAX,
    ensures
        planned(logits@, temperature, top_k, top_p, min_p, plan),
{
    let n: usize = logits.len();
    if is_at_most(temperature, 0) {
        return Plan::Token(sample_argmax(logits));
    }
    let (all, best, top) = finite_candidates(logits);
    if all.len() == 0 {
        return Plan::Token(sample_argmax(logits));
    }
    let share: u32 = if is_at_most(top_p, 0) || is_greater(top_p, ONE) {
        ONE
    } else {
        top_p
    };
    if top_k <= 0 && is_at_most(ONE, share) {
        let least: u32 = if is_greater(min_p, 0) {
            min_p
        } else {
            0
        };
        return Plan::All { ids: all, best, top, min_p: least };
    }
    let least: u32 = if is_greater(0, min_p) {
        0
    } else {
        min_p
    };
    let k: usize = if top_k <= 0 {
        n
    } else {
        let most: usize = if top_k < MOST_CANDIDATES {
            top_k as usize
        } else {
            MOST_CANDIDATES as usize
        };
        if most < n {
            most
        } else {
            n
        }
    };
    let ids = select_top_k(logits, k);
    proof {
        let j = choose|j: int| 0 <= j < logits@.len() && finite(#[trigger] logits@[j]);
        assert(ids@.len() > 0);
    }
    let base: u32 = if top_k <= 0 {
        top
    } else {
        logits[ids[0] as usize]
    };
    assert(in_order(logits@, top_k, ids@, base)) by {
        assert(top_finite(logits@, best as int, top));
    }
    Plan::Ranked { ids, top: base, top_p: share, min_p: least }
}

/// Whether a sum of probabilities can be divided by.
pub open spec fn usable(sum: u32) -> bool {
    !at_most(sum, 0) && finite(sum)
}

pub fn is_usable(sum: u32) -> (r: bool)
    ensures
        r == usable(sum),
{
    !is_at_most(sum, 0) && is_finite(sum)
}

/// The first ones of `n` candidates from `i` on: the count ends before a share below the
/// least one, other than the first, and behind the candidate with which the share to keep
/// is reached.
pub open spec fn nucleus_from(
    shares: Seq<u32>,
    reached: Seq<u32>,
    least: u32,
    top_p: u32,
    i: nat,
) -> nat
    decreases shares.len() - i,
{
    if i >= shares.len() {
        shares.len()
    } else if i > 0 && greater(least, shares[i as int]) {
        i
    } else if at_most(top_p, reached[i as int]) {
        i + 1
    } else {
        nucleus_from(shares, reached, least, top_p, i + 1)
    }
}

/// How many of the candidates stay, where `shares` are their shares of the probability
/// and `reached` the shares of all candidates up to each one.
pub fn nucleus(shares: &[u32], reached: &[u32], least: u32, top_p: u32) -> (count: usize)
    requires
        shares@.len() == reached@.len(),
    ensures
        count == nucleus_from(shares@, reached@, least, top_p, 0),
{
    let mut i: usize = 0;
    while i < shares.len()
        invariant
            i <= shares@.len() == reached@.len(),
            nucleus_from(shares@, reached@, least, top_p, 0) == nucleus_from(
                shares@,
                reached@,
                least,
                top_p,
                i as nat,
            ),
        decreases shares@.len() - i,
    {
        if i > 0 && is_greater(least, shares[i]) {
            return i;
        }
        if is_at_most(top_p, reached[i]) {
            return i + 1;
        }
        i = i + 1;
    }
    i
}

/// The places of the first `n` candidates that are not below the least relative probability.
pub open spec fn surviving(probabilities: Seq<u32>, least: u32, n: nat) -> Seq<usize>
    decreases n,
{
    if n == 0 {
        Seq::empty()
    } else {
        let before = surviving(probabilities, least, (n - 1) as nat);
        if greater(least, probabilities[n - 1]) {
            before
        } else {
            before.push((n - 1) as usize)
        }
    }
}

/// The places of the candidates that are not below the least relative probability.
pub fn survivors(probabilities: &[u32], least: u32) -> (places: Vec<usize>)
    ensures
        places@ == surviving(probabilities@, least, probabilities@.len()),
{
    let mut places: Vec<usize> = Vec::new();
    let mut i: usize = 0;
    while i < probabilities.len()
        invariant
            i <= probabilities@.len(),
            places@ == surviving(probabilities@, least, i as nat),
        decreases probabilities@.len() - i,
    {
        if !is_greater(least, probabilities[i]) {
            places.push(i);
        }
        i = i + 1;
    }
    places
}

/// The first place from `i` on whose running sum reaches `r`.
pub open spec fn drawn_from(sums: Seq<u32>, r: u32, i: nat) -> Option<usize>
    decreases sums.len() - i,
{
    if i >= sums.len() {
        None
    } else if at_most(r, sums[i as int]) {
        Some(i as usize)
    } else {
        drawn_from(sums, r, i + 1)
    }
}

/// The place that the random number `r` picks, where `sums` are the running sums of the
/// probabilities.
pub fn draw(sums: &[u32], r: u32) -> (place: Option<usize>)
    ensures
        place == drawn_from(sums@, r, 0),
{
    let mut i: usize = 0;
    while i < sums.len()
        invariant
            i <= sums@.len(),
            drawn_from(sums@, r, 0) == drawn_from(sums@, r, i as nat),
        decreases sums@.len() - i,
    {
        if is_at_most(r, sums[i]) {
            return Some(i);
        }
        i = i + 1;
    }
    None
}

/// At least the best candidate stays, and no more than there are.
pub proof fn best_candidate_stays(
    shares: Seq<u32>,
    reached: Seq<u32>,
    least: u32,
    top_p: u32,
)
    requires
        shares.len() > 0,
    ensures
        1 <= nucleus_from(shares, reached, least, top_p, 0) <= shares.len(),
{
    lemma_nucleus_bounds(shares, reached, least, top_p, 1);
}

proof fn lemma_nucleus_bounds(
    shares: Seq<u32>,
    reached: Seq<u32>,
    least: u32,
    top_p: u32,
    i: nat,
)
    requires
        i <= shares.len(),
    ensures
        i <= nucleus_from(shares, reached, least, top_p, i) <= shares.len(),
    decreases shares.len() - i,
{
    if i < shares.len() {
        lemma_nucleus_bounds(shares, reached, least, top_p, i + 1);
    }
}

} // verus!

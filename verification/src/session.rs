//! An inference session: one mutable timeline with its token prefix, logits and cache.
//!
//! Callers hand full token prefixes to `sync`, which extends the live checkpoint where
//! it is a prefix of the new one and rebuilds it otherwise.
use vstd::prelude::*;

use crate::cache::{
    cache_views, caches_wf, comp_cap, ds4_prefill_cap_for_prompt, empty_caches, empty_caches_wf,
    filled, prefill_cap, zero_scratch, CacheView, DecodeScratch, KvCache, ScratchView,
};
use crate::draw::{plan_sample, planned, Plan};
use crate::engine::Engine;
use crate::sampling::{
    argmax_of, best_set, descending, ranked, rng_output, rng_step, sample_argmax, sample_rng_next,
    top_scores, wanted,
};
use crate::types::{SessionRewriteResult, TokenVec, DS4_N_HEAD_DIM, DS4_N_VOCAB};

verus! {

/// Why a session cannot do what it was asked to.
#[derive(Debug, Clone, Copy, PartialEq, Eq, Structural)]
pub enum SessionError {
    /// A session needs a context of at least one token.
    ContextNotPositive,
    /// The prompt is empty, or does not leave room in the context.
    PromptExceedsContext,
    /// There is no valid checkpoint.
    NoCheckpoint,
    /// The common prefix is longer than the checkpoint or the prompt, or negative.
    InvalidPrefix,
    /// The checkpoint and the prompt differ within the common prefix.
    PrefixMismatch,
}

/// The kinds of progress that a session reports.
#[derive(Debug, Clone, Copy, PartialEq, Eq, Structural)]
pub enum ProgressEvent {
    Prefill,
    PrefillChunk,
    Decode,
}

impl ProgressEvent {
    pub fn name(&self) -> (r: &'static str)
        ensures
            r@ == match *self {
                ProgressEvent::Prefill => "prefill"@,
                ProgressEvent::PrefillChunk => "prefill_chunk"@,
                ProgressEvent::Decode => "decode"@,
            },
    {
        match self {
            ProgressEvent::Prefill => "prefill",
            ProgressEvent::PrefillChunk => "prefill_chunk",
            ProgressEvent::Decode => "decode",
        }
    }
}

/// One progress report: `current` of `total`.
#[derive(Debug, Clone, Copy, PartialEq, Eq, Structural)]
pub struct Progress {
    pub event: ProgressEvent,
    pub current: i32,
    pub total: i32,
}

/// An inference session.
#[derive(Debug)]
pub struct Session {
    /// The tokens that the state represents.
    pub checkpoint: TokenVec,
    /// Logits of the last evaluated token, as bit patterns of singles.
    pub logits: Vec<u32>,
    /// Last draft token of the multi-token prediction.
    pub mtp_draft_token: i32,
    /// Draft probes made.
    pub mtp_probe_total: u64,
    /// Draft probes that hit.
    pub mtp_probe_hit: u64,
    /// Whether the checkpoint matches the state.
    pub checkpoint_valid: bool,
    /// Whether the draft state is valid.
    pub mtp_draft_valid: bool,
    /// Context size in tokens.
    pub ctx_size: i32,
    /// Prefill chunk capacity.
    pub prefill_cap: u32,
    /// Cache of the CPU path.
    pub kv_cache: KvCache,
    /// Buffers of a decode step.
    pub cpu_scratch: DecodeScratch,
    /// State of the random numbers for sampling.
    pub rng_state: u64,
}

/// The mathematical form of a session.
#[verifier::ext_equal]
pub struct SessionView {
    pub tokens: Seq<i32>,
    pub logits: Seq<u32>,
    pub draft_token: i32,
    pub probe_total: u64,
    pub probe_hit: u64,
    pub valid: bool,
    pub draft_valid: bool,
    pub ctx: i32,
    pub prefill_cap: u32,
    pub caches: Seq<CacheView>,
    pub scratch: ScratchView,
    pub rng: u64,
}

impl View for Session {
    type V = SessionView;

    open spec fn view(&self) -> SessionView {
        SessionView {
            tokens: self.checkpoint@,
            logits: self.logits@,
            draft_token: self.mtp_draft_token,
            probe_total: self.mtp_probe_total,
            probe_hit: self.mtp_probe_hit,
            valid: self.checkpoint_valid,
            draft_valid: self.mtp_draft_valid,
            ctx: self.ctx_size,
            prefill_cap: self.prefill_cap,
            caches: cache_views(self.kv_cache.layers@),
            scratch: self.cpu_scratch@,
            rng: self.rng_state,
        }
    }
}

/// Logits of all zeros.
pub open spec fn zero_logits() -> Seq<u32> {
    filled(0, DS4_N_VOCAB as int)
}

impl SessionView {
    /// The context is positive, there is a logit for each token of the vocabulary, and
    /// the caches have the sizes that the context calls for.
    pub open spec fn wf(self) -> bool {
        &&& self.ctx > 0
        &&& comp_cap(self.ctx as int) * DS4_N_HEAD_DIM <= usize::MAX
        &&& self.prefill_cap == prefill_cap(self.ctx as int)
        &&& self.logits.len() == DS4_N_VOCAB
        &&& self.tokens.len() <= i32::MAX
        &&& caches_wf(self.caches, self.ctx as int)
    }

    /// Whether a prompt can be synchronised to: not empty, and shorter than the context.
    pub open spec fn takes(self, prompt: Seq<i32>) -> bool {
        0 < prompt.len() < self.ctx
    }

    /// Whether the checkpoint only needs to be extended to reach `prompt`.
    pub open spec fn extends_to(self, prompt: Seq<i32>) -> bool {
        self.valid && self.tokens.is_prefix_of(prompt)
    }

    /// The session once it is synchronised to `prompt`.
    pub open spec fn synced(self, prompt: Seq<i32>) -> SessionView {
        if self.extends_to(prompt) {
            SessionView {
                tokens: prompt,
                logits: if prompt.len() > self.tokens.len() {
                    zero_logits()
                } else {
                    self.logits
                },
                draft_valid: false,
                ..self
            }
        } else {
            SessionView {
                tokens: prompt,
                logits: zero_logits(),
                valid: true,
                draft_valid: false,
                caches: empty_caches(self.ctx as int),
                ..self
            }
        }
    }

    /// What is reported on the way to `prompt`.
    pub open spec fn sync_progress(self, prompt: Seq<i32>) -> Seq<Progress> {
        let n = prompt.len();
        if self.extends_to(prompt) {
            let rest = n - self.tokens.len();
            Seq::new(
                rest as nat,
                |i: int|
                    Progress {
                        event: ProgressEvent::Decode,
                        current: (i + 1) as i32,
                        total: rest as i32,
                    },
            )
        } else {
            seq![Progress { event: ProgressEvent::Prefill, current: 0, total: n as i32 }]
                + Seq::new(
                n,
                |i: int|
                    Progress {
                        event: ProgressEvent::PrefillChunk,
                        current: (i + 1) as i32,
                        total: n as i32,
                    },
            )
        }
    }
}

/// The length of the longest common prefix of `a` and `b` from index `i` on.
pub open spec fn common_from(a: Seq<i32>, b: Seq<i32>, i: int) -> int
    decreases a.len() - i,
{
    if 0 <= i < a.len() && i < b.len() && a[i] == b[i] {
        common_from(a, b, i + 1)
    } else {
        i
    }
}

/// Whether state beyond the common prefix has to be thrown away and rebuilt.
pub open spec fn needs_rebuild(live_len: int, canonical_len: int, common: int) -> bool {
    live_len < 0 || canonical_len < 0 || common < 0 || common > live_len || common > canonical_len
        || common < live_len
}

/// A new session: no tokens, no checkpoint, logits and buffers of zero, and empty caches.
pub open spec fn fresh(ctx: int) -> SessionView {
    SessionView {
        tokens: Seq::empty(),
        logits: zero_logits(),
        draft_token: -1i32,
        probe_total: 0,
        probe_hit: 0,
        valid: false,
        draft_valid: false,
        ctx: ctx as i32,
        prefill_cap: prefill_cap(ctx) as u32,
        caches: empty_caches(ctx),
        scratch: zero_scratch(),
        rng: 0x9e37_79b9_7f4a_7c15,
    }
}

impl Session {
    /// A session of an engine.
    pub fn create(engine: &Engine, ctx_size: u32) -> (r: Result<Self, SessionError>)
        requires
            ctx_size <= i32::MAX,
            comp_cap(ctx_size as int) * DS4_N_HEAD_DIM <= usize::MAX,
        ensures
            match r {
                Ok(s) => ctx_size > 0 && s@.wf() && s@ == fresh(ctx_size as int),
                Err(e) => ctx_size == 0 && e == SessionError::ContextNotPositive,
            },
    {
        Session::new(ctx_size)
    }

    /// A session for a context of `ctx_size` tokens, with no checkpoint.
    pub fn new(ctx_size: u32) -> (r: Result<Self, SessionError>)
        requires
            ctx_size <= i32::MAX,
            comp_cap(ctx_size as int) * DS4_N_HEAD_DIM <= usize::MAX,
        ensures
            match r {
                Ok(s) => ctx_size > 0 && s@.wf() && s@ == fresh(ctx_size as int),
                Err(e) => ctx_size == 0 && e == SessionError::ContextNotPositive,
            },
    {
        if ctx_size == 0 {
            return Err(SessionError::ContextNotPositive);
        }
        let prefill_cap: u32 = ds4_prefill_cap_for_prompt(ctx_size);
        let s = Session {
            checkpoint: TokenVec::new(),
            logits: zeros(),
            mtp_draft_token: -1,
            mtp_probe_total: 0,
            mtp_probe_hit: 0,
            checkpoint_valid: false,
            mtp_draft_valid: false,
            ctx_size: ctx_size as i32,
            prefill_cap,
            kv_cache: KvCache::new(ctx_size),
            cpu_scratch: DecodeScratch::new(),
            rng_state: 0x9e37_79b9_7f4a_7c15,
        };
        proof {
            empty_caches_wf(ctx_size as int);
        }
        Ok(s)
    }

    // ── Token prefixes ──

    /// The number of tokens that the checkpoint and `prompt` share from the start; zero
    /// without a valid checkpoint.
    pub fn common_prefix(&self, prompt: &TokenVec) -> (r: usize)
        ensures
            r == if self@.valid {
                common_from(self@.tokens, prompt@, 0)
            } else {
                0
            },
            self@.valid ==> {
                &&& r <= self@.tokens.len()
                &&& r <= prompt@.len()
                &&& self@.tokens.take(r as int) == prompt@.take(r as int)
                &&& r < self@.tokens.len() && r < prompt@.len() ==> self@.tokens[r as int]
                    != prompt@[r as int]
            },
    {
        if !self.checkpoint_valid {
            return 0;
        }
        let a = &self.checkpoint.v;
        let b = &prompt.v;
        let n: usize = if a.len() < b.len() {
            a.len()
        } else {
            b.len()
        };
        let mut i: usize = 0;
        while i < n && a[i] == b[i]
            invariant
                i <= n,
                n <= a@.len(),
                n <= b@.len(),
                n == a@.len() || n == b@.len(),
                common_from(a@, b@, 0) == common_from(a@, b@, i as int),
                forall|k: int| 0 <= k < i ==> a@[k] == b@[k],
            ensures
                i <= n,
                common_from(a@, b@, 0) == common_from(a@, b@, i as int),
                forall|k: int| 0 <= k < i ==> a@[k] == b@[k],
                i < n ==> a@[i as int] != b@[i as int],
            decreases n - i,
        {
            i = i + 1;
        }
        assert(a@.take(i as int) =~= b@.take(i as int));
        i
    }

    /// Whether a rewrite from a common prefix needs a rebuild.
    pub fn rewrite_requires_rebuild(live_len: i32, canonical_len: i32, common: i32) -> (r: bool)
        ensures
            r == needs_rebuild(live_len as int, canonical_len as int, common as int),
    {
        if live_len < 0 || canonical_len < 0 || common < 0 {
            return true;
        }
        if common > live_len || common > canonical_len {
            return true;
        }
        common < live_len
    }

    /// Moves the session to `prompt`, with which it shares the first `common` tokens.
    ///
    /// A checkpoint that ends there is extended; a longer one has to be rebuilt, which
    /// is left to the caller.
    pub fn rewrite_from_common(
        &mut self,
        prompt: &TokenVec,
        common: i32,
        progress: &mut Vec<Progress>,
    ) -> (r: Result<SessionRewriteResult, SessionError>)
        requires
            old(self)@.wf(),
        ensures
            final(self)@.wf(),
            match r {
                Ok(SessionRewriteResult::Rewritten) => {
                    &&& old(self)@.takes(prompt@)
                    &&& old(self)@.valid
                    &&& common == old(self)@.tokens.len()
                    &&& old(self)@.tokens.is_prefix_of(prompt@)
                    &&& final(self)@ == old(self)@.synced(prompt@)
                    &&& final(progress)@ == old(progress)@ + old(self)@.sync_progress(prompt@)
                },
                Ok(SessionRewriteResult::RebuildNeeded) => {
                    &&& old(self)@.takes(prompt@)
                    &&& old(self)@.valid
                    &&& 0 <= common < old(self)@.tokens.len()
                    &&& common <= prompt@.len()
                    &&& old(self)@.tokens.take(common as int) == prompt@.take(common as int)
                },
                Ok(SessionRewriteResult::Error) => false,
                Err(SessionError::PromptExceedsContext) => !old(self)@.takes(prompt@),
                Err(SessionError::NoCheckpoint) => old(self)@.takes(prompt@) && !old(self)@.valid,
                Err(SessionError::InvalidPrefix) => {
                    &&& old(self)@.takes(prompt@)
                    &&& old(self)@.valid
                    &&& (common < 0 || common > old(self)@.tokens.len() || common > prompt@.len())
                },
                Err(SessionError::PrefixMismatch) => {
                    &&& old(self)@.takes(prompt@)
                    &&& old(self)@.valid
                    &&& 0 <= common <= old(self)@.tokens.len()
                    &&& common <= prompt@.len()
                    &&& old(self)@.tokens.take(common as int) != prompt@.take(common as int)
                },
                Err(SessionError::ContextNotPositive) => false,
            },
            !(r matches Ok(SessionRewriteResult::Rewritten)) ==> final(self)@ == old(self)@
                && final(progress)@ == old(progress)@,
    {
        if prompt.is_empty() || prompt.len() >= self.ctx_size as usize {
            return Err(SessionError::PromptExceedsContext);
        }
        if !self.checkpoint_valid {
            return Err(SessionError::NoCheckpoint);
        }
        if common < 0 || common > self.checkpoint.len() as i32 || common > prompt.len() as i32 {
            return Err(SessionError::InvalidPrefix);
        }
        let mut i: usize = 0;
        while i < common as usize
            invariant
                i <= common,
                0 <= common <= self.checkpoint@.len(),
                common <= prompt@.len(),
                self@ == old(self)@,
                self@.wf(),
                self@.takes(prompt@),
                self@.valid,
                progress@ == old(progress)@,
                forall|k: int| 0 <= k < i ==> self.checkpoint@[k] == prompt@[k],
            decreases common - i,
        {
            if self.checkpoint.v[i] != prompt.v[i] {
                assert(self.checkpoint@.take(common as int)[i as int] != prompt@.take(
                    common as int,
                )[i as int]);
                return Err(SessionError::PrefixMismatch);
            }
            i = i + 1;
        }
        assert(self.checkpoint@.take(common as int) =~= prompt@.take(common as int));
        if common == self.checkpoint.len() as i32 {
            assert(self.checkpoint@ =~= prompt@.subrange(0, common as int));
            match self.sync(prompt, progress) {
                Ok(_) => {
                    return Ok(SessionRewriteResult::Rewritten);
                },
                Err(e) => {
                    return Err(e);
                },
            }
        }
        Ok(SessionRewriteResult::RebuildNeeded)
    }

    // ── Synchronisation ──

    /// Brings the session to `prompt`: by evaluating what the checkpoint lacks where it
    /// is a prefix of the prompt, from scratch otherwise. What is to be reported on the
    /// way is appended to `progress`.
    pub fn sync(&mut self, prompt: &TokenVec, progress: &mut Vec<Progress>) -> (r: Result<
        (),
        SessionError,
    >)
        requires
            old(self)@.wf(),
        ensures
            final(self)@.wf(),
            match r {
                Ok(_) => {
                    &&& old(self)@.takes(prompt@)
                    &&& final(self)@ == old(self)@.synced(prompt@)
                    &&& final(progress)@ == old(progress)@ + old(self)@.sync_progress(prompt@)
                },
                Err(e) => {
                    &&& e == SessionError::PromptExceedsContext
                    &&& !old(self)@.takes(prompt@)
                    &&& final(self)@ == old(self)@
                    &&& final(progress)@ == old(progress)@
                },
            },
    {
        if prompt.is_empty() || prompt.len() >= self.ctx_size as usize {
            return Err(SessionError::PromptExceedsContext);
        }
        if self.checkpoint_valid && prompt.starts_with(&self.checkpoint) {
            self.mtp_draft_valid = false;
            self.sync_extend_cpu(prompt, progress);
            return Ok(());
        }
        self.mtp_draft_valid = false;
        progress.push(
            Progress { event: ProgressEvent::Prefill, current: 0, total: prompt.len() as i32 },
        );
        self.sync_full_cpu(prompt, progress);
        self.checkpoint_valid = true;
        proof {
            empty_caches_wf(self.ctx_size as int);
            assert(progress@ =~= old(progress)@ + old(self)@.sync_progress(prompt@));
        }
        Ok(())
    }

    /// Evaluates the tokens of `prompt` behind the checkpoint one by one.
    fn sync_extend_cpu(&mut self, prompt: &TokenVec, progress: &mut Vec<Progress>)
        requires
            old(self)@.wf(),
            old(self)@.takes(prompt@),
            old(self)@.extends_to(prompt@),
            !old(self)@.draft_valid,
        ensures
            final(self)@.wf(),
            final(self)@ == old(self)@.synced(prompt@),
            final(progress)@ == old(progress)@ + old(self)@.sync_progress(prompt@),
    {
        let start: usize = self.checkpoint.len();
        let ghost tokens = self@.tokens;
        let ghost report = self@.sync_progress(prompt@);
        let mut i: usize = start;
        assert(tokens =~= prompt@.take(start as int));
        assert(progress@ =~= old(progress)@ + report.take(0));
        while i < prompt.len()
            invariant
                start <= i <= prompt@.len(),
                start == tokens.len(),
                old(self)@.wf(),
                tokens == old(self)@.tokens,
                report == old(self)@.sync_progress(prompt@),
                old(self)@.takes(prompt@),
                old(self)@.extends_to(prompt@),
                !old(self)@.draft_valid,
                self@.wf(),
                self@ == (SessionView {
                    tokens: prompt@.take(i as int),
                    logits: if i > start {
                        zero_logits()
                    } else {
                        old(self)@.logits
                    },
                    ..old(self)@
                }),
                progress@ == old(progress)@ + report.take(i - start),
            decreases prompt@.len() - i,
        {
            self.eval_internal_cpu(prompt.v[i]);
            assert(prompt@.take(i + 1) =~= prompt@.take(i as int).push(prompt@[i as int]));
            let step = Progress {
                event: ProgressEvent::Decode,
                current: (i - start + 1) as i32,
                total: (prompt.len() - start) as i32,
            };
            progress.push(step);
            assert(report[i - start] == step);
            assert(report.take(i + 1 - start) =~= report.take(i - start).push(step));
            i = i + 1;
        }
        assert(prompt@.take(prompt@.len() as int) =~= prompt@);
        assert(report.take(report.len() as int) =~= report);
    }

    /// Evaluates all of `prompt` on an empty cache.
    fn sync_full_cpu(&mut self, prompt: &TokenVec, progress: &mut Vec<Progress>)
        requires
            old(self)@.wf(),
            old(self)@.takes(prompt@),
        ensures
            final(self)@ == (SessionView {
                tokens: prompt@,
                logits: zero_logits(),
                caches: empty_caches(old(self)@.ctx as int),
                ..old(self)@
            }),
            final(progress)@ == old(progress)@ + Seq::new(
                prompt@.len(),
                |i: int|
                    Progress {
                        event: ProgressEvent::PrefillChunk,
                        current: (i + 1) as i32,
                        total: prompt@.len() as i32,
                    },
            ),
    {
        self.kv_cache = KvCache::new(self.ctx_size as u32);
        self.checkpoint = TokenVec::new();
        let ghost report = Seq::new(
            prompt@.len(),
            |i: int|
                Progress {
                    event: ProgressEvent::PrefillChunk,
                    current: (i + 1) as i32,
                    total: prompt@.len() as i32,
                },
        );
        let mut i: usize = 0;
        proof {
            empty_caches_wf(self.ctx_size as int);
            assert(self.checkpoint@ =~= prompt@.take(0));
            assert(progress@ =~= old(progress)@ + report.take(0));
        }
        while i < prompt.len()
            invariant
                i <= prompt@.len(),
                old(self)@.takes(prompt@),
                report.len() == prompt@.len(),
                forall|k: int|
                    0 <= k < report.len() ==> report[k] == (Progress {
                        event: ProgressEvent::PrefillChunk,
                        current: (k + 1) as i32,
                        total: prompt@.len() as i32,
                    }),
                self@.wf(),
                self@ == (SessionView {
                    tokens: prompt@.take(i as int),
                    logits: if i > 0 {
                        zero_logits()
                    } else {
                        old(self)@.logits
                    },
                    caches: empty_caches(old(self)@.ctx as int),
                    ..old(self)@
                }),
                progress@ == old(progress)@ + report.take(i as int),
            decreases prompt@.len() - i,
        {
            self.eval_internal_cpu(prompt.v[i]);
            assert(prompt@.take(i + 1) =~= prompt@.take(i as int).push(prompt@[i as int]));
            let step = Progress {
                event: ProgressEvent::PrefillChunk,
                current: (i + 1) as i32,
                total: prompt.len() as i32,
            };
            progress.push(step);
            assert(report.take(i + 1) =~= report.take(i as int).push(step));
            i = i + 1;
        }
        assert(prompt@.take(prompt@.len() as int) =~= prompt@);
        assert(report.take(report.len() as int) =~= report);
    }

    // ── Evaluation ──

    /// Evaluates one token: it joins the checkpoint, and the logits are those of the CPU
    /// path, all zero.
    pub fn eval(&mut self, token: i32)
        requires
            old(self)@.wf(),
            old(self)@.tokens.len() < i32::MAX,
        ensures
            final(self)@.wf(),
            final(self)@ == (SessionView {
                tokens: old(self)@.tokens.push(token),
                logits: zero_logits(),
                ..old(self)@
            }),
    {
        self.eval_internal_cpu(token);
    }

    fn eval_internal_cpu(&mut self, token: i32)
        requires
            old(self)@.wf(),
            old(self)@.tokens.len() < i32::MAX,
        ensures
            final(self)@.wf(),
            final(self)@ == (SessionView {
                tokens: old(self)@.tokens.push(token),
                logits: zero_logits(),
                ..old(self)@
            }),
    {
        self.logits = zeros();
        self.checkpoint.push(token);
    }

    // ── Sampling ──

    /// The token with the highest logit.
    pub fn argmax(&self) -> (r: Result<i32, SessionError>)
        requires
            self@.wf(),
        ensures
            match r {
                Ok(t) => self@.valid && argmax_of(self@.logits, t as int),
                Err(e) => !self@.valid && e == SessionError::NoCheckpoint,
            },
    {
        if !self.checkpoint_valid {
            return Err(SessionError::NoCheckpoint);
        }
        Ok(sample_argmax(self.logits.as_slice()))
    }

    /// The tokens of the `k` largest finite logits in descending order; none without a
    /// valid checkpoint.
    pub fn top_tokens(&self, k: i32) -> (ids: Vec<i32>)
        requires
            self@.wf(),
        ensures
            !self@.valid || k <= 0 ==> ids@.len() == 0,
            self@.valid && k > 0 ==> {
                &&& ranked(self@.logits, k as int, ids@)
                &&& descending(self@.logits, ids@)
                &&& best_set(
                    self@.logits,
                    self@.logits.len() as int,
                    wanted(k as int, self@.logits.len() as int),
                    ids@,
                )
            },
    {
        if !self.checkpoint_valid || k <= 0 {
            return Vec::new();
        }
        top_scores(self.logits.as_slice(), k)
    }

    /// How the next token is drawn.
    pub fn plan_sample(&self, temperature: u32, top_k: i32, top_p: u32, min_p: u32) -> (r: Result<
        Plan,
        SessionError,
    >)
        requires
            self@.wf(),
        ensures
            match r {
                Ok(plan) => self@.valid && planned(
                    self@.logits,
                    temperature,
                    top_k,
                    top_p,
                    min_p,
                    plan,
                ),
                Err(e) => !self@.valid && e == SessionError::NoCheckpoint,
            },
    {
        if !self.checkpoint_valid {
            return Err(SessionError::NoCheckpoint);
        }
        Ok(plan_sample(self.logits.as_slice(), temperature, top_k, top_p, min_p))
    }

    /// The next random number of the session.
    pub fn next_random(&mut self) -> (r: u64)
        ensures
            r == rng_output(old(self)@.rng),
            final(self)@ == (SessionView { rng: rng_step(old(self)@.rng), ..old(self)@ }),
    {
        sample_rng_next(&mut self.rng_state)
    }

    // ── State ──

    /// Drops the checkpoint.
    pub fn invalidate(&mut self)
        requires
            old(self)@.wf(),
        ensures
            final(self)@.wf(),
            final(self)@ == (SessionView {
                tokens: Seq::empty(),
                valid: false,
                draft_valid: false,
                ..old(self)@
            }),
    {
        self.checkpoint_valid = false;
        self.checkpoint = TokenVec::new();
        self.mtp_draft_valid = false;
    }

    /// Cuts the checkpoint back to its first `pos` tokens.
    pub fn rewind(&mut self, pos: i32)
        requires
            old(self)@.wf(),
        ensures
            final(self)@.wf(),
            final(self)@ == (SessionView {
                tokens: if pos < 0 {
                    Seq::empty()
                } else if pos < old(self)@.tokens.len() {
                    old(self)@.tokens.take(pos as int)
                } else {
                    old(self)@.tokens
                },
                draft_valid: false,
                ..old(self)@
            }),
    {
        let keep: usize = if pos < 0 {
            0
        } else if pos as usize > self.checkpoint.len() {
            self.checkpoint.len()
        } else {
            pos as usize
        };
        let ghost before = self.checkpoint@;
        self.checkpoint.v.truncate(keep);
        self.mtp_draft_valid = false;
        proof {
            assert(self.checkpoint@ =~= before.take(keep as int));
            if keep == 0 {
                assert(self.checkpoint@ =~= Seq::empty());
            }
            if keep == before.len() {
                assert(self.checkpoint@ =~= before);
            }
        }
    }

    /// The length of the checkpoint.
    pub fn pos(&self) -> (r: i32)
        requires
            self@.tokens.len() <= i32::MAX,
        ensures
            r == self@.tokens.len(),
    {
        self.checkpoint.len() as i32
    }

    /// The context size.
    pub fn ctx(&self) -> (r: i32)
        ensures
            r == self@.ctx,
    {
        self.ctx_size
    }

    /// The tokens of the checkpoint.
    pub fn tokens(&self) -> (r: &TokenVec)
        ensures
            r@ == self@.tokens,
    {
        &self.checkpoint
    }

    /// The logits.
    pub fn logits(&self) -> (r: &[u32])
        ensures
            r@ == self@.logits,
    {
        self.logits.as_slice()
    }

    /// The logits, to be changed in place.
    pub fn logits_mut(&mut self) -> (r: &mut [u32])
        ensures
            r@ == old(self)@.logits,
            final(self)@ == (SessionView { logits: final(r)@, ..old(self)@ }),
    {
        self.logits.as_mut_slice()
    }
}

fn zeros() -> (r: Vec<u32>)
    ensures
        r@ == zero_logits(),
{
    let r: Vec<u32> = vec![0u32; DS4_N_VOCAB as usize];
    assert(r@ =~= zero_logits());
    r
}

// ── Laws ─────────────────────────────────────────────────────────────────

/// Synchronising twice to the same prompt leaves the session as after the first time:
/// the second time there is nothing to evaluate.
pub proof fn sync_is_idempotent(s: SessionView, prompt: Seq<i32>)
    requires
        s.wf(),
        s.takes(prompt),
    ensures
        s.synced(prompt).synced(prompt) == s.synced(prompt),
        s.synced(prompt).sync_progress(prompt).len() == 0,
{
    assert(prompt =~= prompt.subrange(0, prompt.len() as int));
}

/// However the session stood before, after `sync` its checkpoint is the prompt, it is
/// valid, and no draft is left.
pub proof fn sync_reaches_prompt(s: SessionView, prompt: Seq<i32>)
    requires
        s.wf(),
        s.takes(prompt),
    ensures
        s.synced(prompt).tokens == prompt,
        s.synced(prompt).valid,
        !s.synced(prompt).draft_valid,
        s.synced(prompt).wf(),
{
    empty_caches_wf(s.ctx as int);
}

/// A checkpoint that is a prefix of the prompt keeps its cache, and just the tokens
/// that it lacks are evaluated.
pub proof fn sync_extends_prefix(s: SessionView, prompt: Seq<i32>)
    requires
        s.wf(),
        s.takes(prompt),
        s.valid,
        s.tokens.is_prefix_of(prompt),
    ensures
        s.synced(prompt).caches == s.caches,
        s.sync_progress(prompt).len() == prompt.len() - s.tokens.len(),
{
}

} // verus!

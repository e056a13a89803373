//! What sessions, caches and estimates of memory are held to.
use vstd::prelude::*;

use crate::cache::{
    caches_bytes, comp_cap, empty_cache, filled, prefill_cap, raw_cap, zero_scratch,
    CacheView,
};
use crate::memory::{compressed_bytes, context_memory, cpu_memory, metal_memory};
use crate::session::{common_from, fresh, needs_rebuild, zero_logits, ProgressEvent, SessionView};
use crate::types::Backend;
use crate::weights::compress_ratio;

verus! {

/// Whether a layer has no rows.
pub open spec fn holds_nothing(c: CacheView) -> bool {
    c.n_raw == 0 && c.n_comp == 0 && c.n_index_comp == 0
}

/// A session that is synchronised stands at the prompt. It keeps its caches only where its
/// checkpoint is valid and begins the prompt; else it begins anew, with empty caches.
/// Nothing else of the session changes.
pub proof fn sync_keeps_or_begins_anew(s: SessionView, prompt: Seq<i32>, il: int)
    requires
        s.wf(),
        s.takes(prompt),
    ensures
        ({
            let after = s.synced(prompt);
            let kept = s.valid && s.tokens.len() <= prompt.len() && prompt.take(
                s.tokens.len() as int,
            ) == s.tokens;
            &&& after.tokens == prompt
            &&& after.valid
            &&& !after.draft_valid
            &&& after.ctx == s.ctx && after.rng == s.rng && after.prefill_cap == s.prefill_cap
            &&& after.probe_total == s.probe_total && after.probe_hit == s.probe_hit
            &&& after.draft_token == s.draft_token && after.scratch == s.scratch
            &&& kept ==> after.caches == s.caches
            &&& !kept && 0 <= il < 43 ==> after.caches.len() == 43 && holds_nothing(
                after.caches[il],
            )
            &&& kept && prompt.len() == s.tokens.len() ==> after.logits == s.logits
            &&& !(kept && prompt.len() == s.tokens.len()) ==> after.logits == Seq::new(
                129280,
                |i: int| 0u32,
            )
        }),
{
    let n = s.tokens.len() as int;
    if s.tokens.len() <= prompt.len() {
        assert(prompt.take(n) =~= prompt.subrange(0, n));
    }
    assert(zero_logits() =~= Seq::new(129280, |i: int| 0u32));
}

/// A prompt can be synchronised to where it has tokens and leaves room in the context.
pub proof fn prompts_leave_room(s: SessionView, prompt: Seq<i32>)
    ensures
        s.takes(prompt) <==> prompt.len() >= 1 && prompt.len() + 1 <= s.ctx,
{
}

/// The reports of a synchronisation count up to the number of tokens to evaluate: the
/// missing ones one by one, or the whole prompt behind a report of its start.
pub proof fn progress_counts_up(s: SessionView, prompt: Seq<i32>, i: int)
    requires
        s.wf(),
        s.takes(prompt),
    ensures
        ({
            let reports = s.sync_progress(prompt);
            let kept = s.valid && s.tokens.len() <= prompt.len() && prompt.take(
                s.tokens.len() as int,
            ) == s.tokens;
            &&& kept ==> reports.len() == prompt.len() - s.tokens.len()
            &&& kept && 0 <= i < reports.len() ==> reports[i].event == ProgressEvent::Decode
                && reports[i].current == i + 1 && reports[i].total == reports.len()
            &&& !kept ==> reports.len() == prompt.len() + 1 && reports[0].event
                == ProgressEvent::Prefill
            &&& !kept && 0 <= i < reports.len() ==> reports[i].current == i && reports[i].total
                == prompt.len()
            &&& !kept && 0 < i < reports.len() ==> reports[i].event == ProgressEvent::PrefillChunk
        }),
{
    let n = s.tokens.len() as int;
    if s.tokens.len() <= prompt.len() {
        assert(prompt.take(n) =~= prompt.subrange(0, n));
    }
}

/// The common prefix is the longest: the two agree up to its end and not behind it.
pub proof fn common_prefix_is_longest(a: Seq<i32>, b: Seq<i32>, k: int)
    requires
        0 <= k <= a.len(),
        k <= b.len(),
    ensures
        0 <= common_from(a, b, 0) <= a.len(),
        common_from(a, b, 0) <= b.len(),
        a.take(k) == b.take(k) <==> k <= common_from(a, b, 0),
        common_from(a, b, 0) == common_from(b, a, 0),
{
    lemma_common(a, b, 0);
    lemma_common(b, a, 0);
    let c = common_from(a, b, 0);
    let d = common_from(b, a, 0);
    if k <= c {
        assert(a.take(k) =~= b.take(k));
    } else {
        assert(a.take(k)[c] == a[c] && b.take(k)[c] == b[c]);
    }
    if c < d {
        assert(a[c] == b[c]);
    }
    if d < c {
        assert(a[d] == b[d]);
    }
}

proof fn lemma_common(a: Seq<i32>, b: Seq<i32>, i: int)
    requires
        0 <= i <= a.len(),
        i <= b.len(),
    ensures
        i <= common_from(a, b, i) <= a.len(),
        common_from(a, b, i) <= b.len(),
        forall|j: int| i <= j < common_from(a, b, i) ==> #[trigger] a[j] == b[j],
        ({
            let c = common_from(a, b, i);
            c < a.len() && c < b.len() ==> a[c] != b[c]
        }),
    decreases a.len() - i,
{
    if i < a.len() && i < b.len() && a[i] == b[i] {
        lemma_common(a, b, i + 1);
    }
}

/// State is rebuilt just where some of what is live lies beyond the common prefix.
pub proof fn rebuild_drops_live_state(live: Seq<i32>, canonical: Seq<i32>)
    ensures
        needs_rebuild(
            live.len() as int,
            canonical.len() as int,
            common_from(live, canonical, 0),
        ) <==> !(live.len() <= canonical.len() && canonical.take(live.len() as int) == live),
{
    lemma_common(live, canonical, 0);
    let n = live.len() as int;
    assert(live.take(n) =~= live);
    if live.len() <= canonical.len() {
        common_prefix_is_longest(live, canonical, n);
    }
}

/// A new session is empty, in every layer.
pub proof fn new_session_is_empty(ctx: int, il: int)
    requires
        0 < ctx <= i32::MAX,
        0 <= il < 43,
    ensures
        ({
            let s = fresh(ctx);
            &&& s.tokens.len() == 0 && !s.valid && !s.draft_valid
            &&& s.ctx == ctx
            &&& s.logits == Seq::new(129280, |i: int| 0u32)
            &&& s.probe_total == 0 && s.probe_hit == 0
            &&& s.caches.len() == 43
            &&& holds_nothing(s.caches[il])
            &&& s.caches[il].cap_raw == if ctx < 256 {
                ctx
            } else {
                256
            }
            &&& s.caches[il].comp_cap == ctx / 4 + 2
            &&& s.caches[il].compress_ratio == if il < 2 {
                0int
            } else if il % 2 == 0 {
                4
            } else {
                128
            }
        }),
{
    assert(zero_logits() =~= Seq::new(129280, |i: int| 0u32));
}

/// The buffers of an empty layer: raw rows for all layers, compressed rows and a state for
/// those with a ratio, and the rows and the state of an indexer for those with ratio 4.
/// Scores start at minus infinity, all else at zero.
pub proof fn empty_layer_has_its_buffers(ratio: u32, rows: u32, comp: u32)
    ensures
        ({
            let c = empty_cache(ratio, rows, comp);
            let doubled = if ratio == 4 {
                4int
            } else {
                1
            };
            &&& holds_nothing(c)
            &&& c.compress_ratio == ratio && c.cap_raw == rows && c.comp_cap == comp
            &&& c.raw_kv == filled(0, rows * 512)
            &&& ratio == 0 ==> c.attn_comp_kv.len() == 0 && c.attn_state_kv.len() == 0
                && c.attn_state_score.len() == 0
            &&& ratio != 0 ==> c.attn_comp_kv == filled(0, comp * 512) && c.attn_state_kv == filled(
                0,
                doubled * 512 * ratio,
            ) && c.attn_state_score == filled(0xf149_f2ca, doubled * 512 * ratio)
            &&& ratio != 4 ==> c.index_comp_kv.len() == 0 && c.index_state_kv.len() == 0
                && c.index_state_score.len() == 0
            &&& ratio == 4 ==> c.index_comp_kv == filled(0, comp * 128) && c.index_state_kv
                == filled(0, 2048) && c.index_state_score == filled(0xf149_f2ca, 2048)
        }),
        forall|x: u32, n: int, i: int|
            0 <= i < n ==> filled(x, n).len() == n && #[trigger] filled(x, n)[i] == x,
{
}

/// The memory of caches is four bytes for each number that they hold: a further layer adds
/// its own.
pub proof fn cache_memory_adds_up(s: Seq<CacheView>, c: CacheView)
    ensures
        caches_bytes(s.push(c), s.len() + 1) == caches_bytes(s, s.len()) + 4 * c.raw_kv.len() + 4
            * c.attn_comp_kv.len() + 4 * c.attn_state_kv.len() + 4 * c.attn_state_score.len() + 4
            * c.index_comp_kv.len() + 4 * c.index_state_kv.len() + 4 * c.index_state_score.len(),
        caches_bytes(Seq::empty(), 0) == 0,
{
    lemma_bytes_prefix(s, c, s.len());
    assert(s.push(c)[s.len() as int] == c);
}

proof fn lemma_bytes_prefix(s: Seq<CacheView>, c: CacheView, n: nat)
    requires
        n <= s.len(),
    ensures
        caches_bytes(s.push(c), n) == caches_bytes(s, n),
    decreases n,
{
    if n > 0 {
        lemma_bytes_prefix(s, c, (n - 1) as nat);
        assert(s.push(c)[n - 1] == s[n - 1]);
    }
}

/// Capacities grow with the context: raw rows up to two windows, compressed rows without
/// end, one for four tokens; a prefill has room for its prompt.
pub proof fn capacities_fit(ctx: int)
    requires
        ctx > 0,
    ensures
        raw_cap(ctx) <= ctx && raw_cap(ctx) <= 256 && (raw_cap(ctx) == ctx || raw_cap(ctx) == 256),
        raw_cap(0) == 128,
        4 * (comp_cap(ctx) - 2) <= ctx < 4 * (comp_cap(ctx) - 1),
        prefill_cap(ctx) >= ctx && prefill_cap(ctx) >= 32 && (prefill_cap(ctx) == ctx
            || prefill_cap(ctx) == 32),
        prefill_cap(0) == 1,
{
}

/// The bytes of compressed rows: the model has twenty-one layers of ratio 4, with rows for
/// attention and for the indexer, and twenty of ratio 128, with rows for attention.
pub proof fn compressed_layers_add_up(rows: spec_fn(int) -> int)
    ensures
        compressed_bytes(rows, 43) == 21 * rows(4) * 2560 + 20 * rows(128) * 2048,
{
    lemma_compressed(rows, 20);
}

proof fn lemma_compressed(rows: spec_fn(int) -> int, k: nat)
    ensures
        compressed_bytes(rows, (2 * k + 3) as nat) == (k + 1) * rows(4) * 2560 + k * rows(128)
            * 2048,
    decreases k,
{
    let a = rows(4);
    let b = rows(128);
    if k == 0 {
        reveal_with_fuel(compressed_bytes, 4);
        assert(compressed_bytes(rows, 3) == a * 512 * 4 + a * 128 * 4);
        assert((k + 1) * a * 2560 == a * 2560 && k * b * 2048 == 0) by (nonlinear_arith)
            requires
                k == 0,
        ;
    } else {
        lemma_compressed(rows, (k - 1) as nat);
        let n = 2 * k + 3;
        assert((2 * (k - 1) + 3) as nat == (n - 2) as nat);
        assert(compress_ratio(n - 1) == 4);
        assert(compress_ratio(n - 2) == 128);
        assert(compressed_bytes(rows, (n - 1) as nat) == compressed_bytes(rows, (n - 2) as nat) + b
            * 512 * 4);
        assert(compressed_bytes(rows, n as nat) == compressed_bytes(rows, (n - 1) as nat) + (a * 512
            * 4 + a * 128 * 4));
        assert((k + 1) * a * 2560 == k * a * 2560 + a * 2560) by (nonlinear_arith);
        assert(k * b * 2048 == (k - 1) * b * 2048 + b * 2048) by (nonlinear_arith);
        assert((k - 1 + 1) * a * 2560 == k * a * 2560);
    }
}

/// The memory of a context is the sum of its parts: raw rows in all layers, compressed
/// rows, and scratch buffers, all of four-byte numbers. A size that is not positive counts
/// as one token.
pub proof fn context_memory_adds_up(backend: Backend, size: i32)
    ensures
        ({
            let ctx = if size > 0 {
                size as int
            } else {
                1
            };
            let comp = ctx / 4 + 2;
            let m = context_memory(backend, size);
            &&& m.total_bytes == m.raw_bytes + m.compressed_bytes + m.scratch_bytes
            &&& m.raw_bytes == m.raw_cap * 88064
            &&& m.comp_cap == comp
            &&& backend == Backend::Metal ==> {
                &&& m.prefill_cap == if ctx <= 2048 {
                    ctx
                } else {
                    2048 + (ctx - 2048) / 8
                }
                &&& m.raw_cap == if ctx <= 4096 {
                    ctx
                } else {
                    ctx + m.prefill_cap
                }
                &&& m.compressed_bytes == 21 * comp * 2560 + 20 * comp * 2048
                &&& m.scratch_bytes == 8 * comp * m.prefill_cap
            }
            &&& backend != Backend::Metal ==> {
                &&& m.prefill_cap == 0
                &&& m.raw_cap == if ctx <= 256 {
                    ctx
                } else {
                    256 + (ctx - 256) / 4
                }
                &&& m.compressed_bytes == 21 * comp * 2560 + 20 * (ctx / 128 + 2) * 2048
                &&& m.scratch_bytes == 4 * m.raw_cap + 9 * comp
            }
        }),
{
    let ctx = if size > 0 {
        size as int
    } else {
        1
    };
    let comp = ctx / 4 + 2;
    let m = context_memory(backend, size);
    if backend == Backend::Metal {
        let rows = |r: int| comp_cap(ctx);
        compressed_layers_add_up(rows);
        assert(rows(4) == comp && rows(128) == comp);
        let pre = if ctx <= 2048 {
            ctx
        } else {
            2048 + (ctx - 2048) / 8
        };
        assert(0 <= 2 * comp * pre <= 2 * 0x4000_0000 * 0x2000_0000) by (nonlinear_arith)
            requires
                0 <= comp <= 0x4000_0000,
                0 <= pre <= 0x2000_0000,
        ;
        assert(8 * comp * pre == 2 * comp * pre * 4) by (nonlinear_arith);
        assert(m == metal_memory(ctx));
        assert(m.prefill_cap == pre);
        assert(m.scratch_bytes == 8 * comp * pre);
    } else {
        let rows = |r: int| ctx / r + 2;
        compressed_layers_add_up(rows);
        assert(rows(4) == comp && rows(128) == ctx / 128 + 2);
        assert(m == cpu_memory(ctx));
    }
}

/// The buffers of a decode step have the sizes of the model, and start at zero.
pub proof fn decode_buffers_have_their_sizes()
    ensures
        ({
            let z = zero_scratch();
            &&& z.hc == filled(0, 16384)
            &&& z.attn_cur == filled(0, 4096)
            &&& z.attn_norm == filled(0, 4096)
            &&& z.q == filled(0, 32768)
            &&& z.kv == filled(0, 512)
            &&& z.heads == filled(0, 32768)
            &&& z.attn_low == filled(0, 8192)
            &&& z.attn_out == filled(0, 4096)
            &&& z.after_attn_hc == filled(0, 16384)
            &&& z.ffn_cur == filled(0, 4096)
            &&& z.ffn_norm == filled(0, 4096)
            &&& z.shared_gate == filled(0, 2048)
            &&& z.shared_up == filled(0, 2048)
            &&& z.shared_mid == filled(0, 2048)
            &&& z.shared_out == filled(0, 4096)
            &&& z.router_logits == filled(0, 256)
            &&& z.router_probs == filled(0, 256)
            &&& z.router_weights == filled(0, 6)
            &&& z.routed_gate == filled(0, 12288)
            &&& z.routed_up == filled(0, 12288)
            &&& z.routed_mid == filled(0, 12288)
            &&& z.routed_down == filled(0, 24576)
            &&& z.routed_out == filled(0, 4096)
            &&& z.after_ffn_hc == filled(0, 16384)
            &&& z.output_pre == filled(0, 4)
            &&& z.output_weights == filled(0, 4)
            &&& z.output_embd == filled(0, 4096)
            &&& z.logits == filled(0, 129280)
            &&& z.router_selected == Seq::new(6, |i: int| 0i32)
        }),
{
}

} // verus!

//! What a saved session is held to.
use vstd::prelude::*;

use crate::cache::CacheView;
use crate::payload::{
    comp_rows, header_error, index_rows, layer_words, load, load_restores_saved, payload,
    payload_words, raw_first, raw_live, raw_rows, words_of, words_roundtrip, PayloadError,
};
use crate::session::SessionView;

verus! {

/// The rows that are saved are those of the last tokens: as many as the window of 128 has,
/// the context holds and tokens there are.
pub proof fn last_rows_are_saved(s: SessionView)
    requires
        s.wf(),
    ensures
        ({
            let n = s.tokens.len() as int;
            let live = raw_live(s);
            &&& live <= n && live <= 128 && live <= s.ctx
            &&& live == n || live == 128 || live == s.ctx
            &&& raw_first(n, live) + live == n
        }),
{
}

/// A saved session opens with its mark, its sizes and those of the model, and goes on with
/// the tokens and the logits.
pub proof fn payload_opens_with_its_sizes(s: SessionView, i: int)
    requires
        s.wf(),
    ensures
        ({
            let w = payload_words(s);
            let n = s.tokens.len() as int;
            &&& w.len() >= 13 + n + 129280 + 86
            &&& w[0] == 0x3456_5344 && w[1] == 1
            &&& w[2] == s.ctx && w[3] == s.prefill_cap
            &&& w[4] >= 1 && w[4] >= raw_live(s) && (w[4] == 1 || w[4] == raw_live(s))
            &&& w[5] <= 128 && w[5] <= s.ctx && (w[5] == 128 || w[5] == s.ctx)
            &&& w[6] == s.ctx / 4 + 2
            &&& w[7] == n
            &&& w[8] == 43 && w[9] == 512 && w[10] == 128 && w[11] == 129280
            &&& w[12] == raw_live(s)
            &&& 0 <= i < n && s.tokens[i] >= 0 ==> w[13 + i] == s.tokens[i]
            &&& 0 <= i < 129280 ==> w[13 + n + i] == s.logits[i]
            &&& 0 <= i < 43 ==> w[13 + n + 129280 + i] == s.caches[i].n_comp
            &&& 0 <= i < 43 ==> w[13 + n + 129280 + 43 + i] == s.caches[i].n_index_comp
        }),
{
}

/// The bytes of a saved session are its words, the least significant byte of each first.
pub proof fn payload_is_its_words(s: SessionView)
    ensures
        words_of(payload(s)) == payload_words(s),
        payload(s).len() == 4 * payload_words(s).len(),
{
    words_roundtrip(payload_words(s));
}

/// A layer is saved with its live raw rows; one with a ratio also with its compressed rows
/// and the state of its compressor, and one of ratio 4 with those of its indexer too.
pub proof fn layers_are_saved_in_parts(c: CacheView, first: int, live: nat)
    requires
        c.wf(),
    ensures
        ({
            let raw = raw_rows(c, first, live);
            let w = layer_words(c, first, live);
            let a = raw.len() as int;
            let b = a + comp_rows(c).len();
            let d = b + c.attn_state_kv.len();
            let e = d + c.attn_state_score.len();
            let f = e + index_rows(c).len();
            let g = f + c.index_state_kv.len();
            &&& w.subrange(0, a) == raw
            &&& c.compress_ratio == 0 ==> w.len() == a
            &&& c.compress_ratio != 0 ==> {
                &&& w.subrange(a, b) == c.attn_comp_kv.take(c.n_comp * 512)
                &&& w.subrange(b, d) == c.attn_state_kv
                &&& w.subrange(d, e) == c.attn_state_score
            }
            &&& c.compress_ratio != 0 && c.compress_ratio != 4 ==> w.len() == e
            &&& c.compress_ratio == 4 ==> {
                &&& w.subrange(e, f) == c.index_comp_kv.take(c.n_index_comp * 128)
                &&& w.subrange(f, g) == c.index_state_kv
                &&& w.subrange(g, w.len() as int) == c.index_state_score
            }
        }),
{
    let raw = raw_rows(c, first, live);
    let w = layer_words(c, first, live);
    let a = raw.len() as int;
    let b = a + comp_rows(c).len();
    let d = b + c.attn_state_kv.len();
    let e = d + c.attn_state_score.len();
    let f = e + index_rows(c).len();
    let g = f + c.index_state_kv.len();
    assert(w.subrange(0, a) =~= raw);
    if c.compress_ratio != 0 {
        assert(w.subrange(a, b) =~= comp_rows(c));
        assert(w.subrange(b, d) =~= c.attn_state_kv);
        assert(w.subrange(d, e) =~= c.attn_state_score);
        if c.compress_ratio == 4 {
            assert(w.subrange(e, f) =~= index_rows(c));
            assert(w.subrange(f, g) =~= c.index_state_kv);
            assert(w.subrange(g, w.len() as int) =~= c.index_state_score);
        }
    }
}

/// The row of a position stands in the ring where the position falls, so that a position
/// and that a whole ring further share a place; one more row is saved behind the others.
pub proof fn rows_stand_in_a_ring(c: CacheView, first: int, n: nat, pos: int)
    requires
        c.cap_raw > 0,
        pos >= 0,
    ensures
        c.raw_row(pos) == c.raw_row(pos + c.cap_raw),
        pos < c.cap_raw ==> c.raw_row(pos) == c.raw_kv.subrange(pos * 512, pos * 512 + 512),
        raw_rows(c, first, n + 1) == raw_rows(c, first, n) + c.raw_row(first + n),
        raw_rows(c, first, 0).len() == 0,
{
    let cap = c.cap_raw as int;
    assert((pos + cap) % cap == pos % cap) by (nonlinear_arith)
        requires
            cap > 0,
            pos >= 0,
    ;
    if pos < cap {
        assert(pos % cap == pos) by (nonlinear_arith)
            requires
                0 <= pos < cap,
        ;
    }
}

/// A payload is refused where it is cut short, of another version, larger than the session
/// or of another model; a refusal of the header leaves the session as it is.
pub proof fn wrong_payloads_are_refused(w: Seq<u32>, s: SessionView, bytes: int)
    ensures
        w.len() < 13 ==> header_error(w, s) == Some(PayloadError::Truncated),
        w.len() >= 13 && (w[0] != 0x3456_5344 || w[1] != 1) ==> header_error(w, s) == Some(
            PayloadError::UnsupportedVersion,
        ),
        w.len() >= 13 && w[0] == 0x3456_5344 && w[1] == 1 && (w[2] > s.ctx || w[7] >= s.ctx)
            ==> header_error(w, s) == Some(PayloadError::DoesNotFit),
        w.len() >= 13 && w[0] == 0x3456_5344 && w[1] == 1 && w[2] <= s.ctx && w[7] < s.ctx ==> (
        header_error(w, s) is None <==> w[8] == 43 && w[9] == 512 && w[10] == 128 && w[11]
            == 129280),
        header_error(w, s) is Some ==> load(w, s, bytes) == (s, header_error(w, s)),
        load(w, s, bytes).1 is Some ==> load(w, s, bytes).0.tokens == s.tokens && load(
            w,
            s,
            bytes,
        ).0.valid == s.valid,
{
}

/// What was saved is given back: the tokens, the logits, and of each layer the counts, the
/// states and the rows of the last tokens.
pub proof fn saved_session_is_given_back(s: SessionView, t: SessionView, i: int, pos: int)
    requires
        s.wf(),
        s.valid,
        t.wf(),
        s.ctx <= t.ctx,
        s.tokens.len() < t.ctx,
        0 <= i < s.caches.len(),
        0 <= pos,
    ensures
        ({
            let (r, error) = load(words_of(payload(s)), t, payload(s).len() as int);
            let n = s.tokens.len() as int;
            let (c, d) = (s.caches[i], r.caches[i]);
            &&& error is None && r.valid && !r.draft_valid
            &&& r.tokens == s.tokens && r.logits == s.logits
            &&& d.n_comp == c.n_comp && d.n_index_comp == c.n_index_comp
            &&& c.compress_ratio != 0 ==> d.attn_state_kv == c.attn_state_kv && d.attn_state_score
                == c.attn_state_score
            &&& c.compress_ratio == 4 ==> d.index_state_kv == c.index_state_kv
                && d.index_state_score == c.index_state_score
            &&& pos < n && n - pos <= 128 && n - pos <= s.ctx ==> d.raw_row(pos) == c.raw_row(pos)
        }),
{
    load_restores_saved(s, t);
}

/// A payload with more or fewer bytes than it is said to have is refused.
pub proof fn payload_has_to_be_of_its_length(s: SessionView, t: SessionView, n: int)
    requires
        s.wf(),
        s.valid,
        t.wf(),
        s.ctx <= t.ctx,
        s.tokens.len() < t.ctx,
        n != payload(s).len(),
    ensures
        load(words_of(payload(s)), t, n).1 == Some(PayloadError::TrailingBytes),
        load(words_of(payload(s)), t, n).0.tokens == t.tokens,
{
    load_restores_saved(s, t);
}

} // verus!

//! Checkpoints of a session as bytes: saving, loading, and that loading gives back
//! what was saved.
//!
//! A payload is a sequence of little-endian 32-bit words: a header of 13 words, the
//! tokens, the logits, the row counts of the layers, and of each layer the live raw
//! rows and, as far as it has them, the compressed rows and the compressor states.
use vstd::prelude::*;

use crate::bytes::{push_u32, u32_at, u32_bytes, u32_le, u32_roundtrip, words_bytes};
use crate::cache::{
    attn_state_len, caches_wf, comp_cap, ds4_default_comp_cap, index_state_len,
    raw_cap, CacheView, LayerCache,
};
use crate::session::{Session, SessionView};
use crate::types::{
    TokenVec, DS4_N_HEAD_DIM, DS4_N_INDEXER_HEAD_DIM, DS4_N_LAYER, DS4_N_SWA, DS4_N_VOCAB,
};
use crate::weights::compress_ratio;

verus! {

/// "DSV4" as a little-endian number.
pub const SESSION_PAYLOAD_MAGIC: u32 = 0x3456_5344;

pub const SESSION_PAYLOAD_VERSION: u32 = 1;

/// Words of the header.
pub const SESSION_PAYLOAD_U32_FIELDS: u32 = 13;

/// Why a checkpoint cannot be saved or loaded.
#[derive(Debug, Clone, Copy, PartialEq, Eq, Structural)]
pub enum PayloadError {
    /// There is no valid checkpoint to save.
    NoCheckpoint,
    /// The payload ends early.
    Truncated,
    /// The payload has another magic or version.
    UnsupportedVersion,
    /// The payload is of a larger context, or its tokens fill the context.
    DoesNotFit,
    /// The payload is of a model with another layout.
    OtherLayout,
    /// A layer has more compressed rows than the cache has room for.
    TooManyRows,
    /// There are bytes behind the payload.
    TrailingBytes,
}

// ── What a checkpoint holds ──────────────────────────────────────────────

pub open spec fn least(a: int, b: int) -> int {
    if a < b {
        a
    } else {
        b
    }
}

/// Raw rows that are live: those of the last tokens, as many as the window has.
pub open spec fn raw_live(s: SessionView) -> int {
    least(s.tokens.len() as int, least(DS4_N_SWA as int, s.ctx as int))
}

/// The position of the first of `live` raw rows behind `tokens` tokens.
pub open spec fn raw_first(tokens: int, live: int) -> int {
    if live < tokens {
        tokens - live
    } else {
        0
    }
}

/// The header of a payload.
pub open spec fn header(s: SessionView) -> Seq<u32> {
    seq![
        SESSION_PAYLOAD_MAGIC,
        SESSION_PAYLOAD_VERSION,
        s.ctx as u32,
        s.prefill_cap,
        if raw_live(s) > 1 {
            raw_live(s) as u32
        } else {
            1u32
        },
        least(DS4_N_SWA as int, s.ctx as int) as u32,
        comp_cap(s.ctx as int) as u32,
        s.tokens.len() as u32,
        DS4_N_LAYER,
        DS4_N_HEAD_DIM,
        DS4_N_INDEXER_HEAD_DIM,
        DS4_N_VOCAB,
        raw_live(s) as u32,
    ]
}

pub open spec fn token_words(tokens: Seq<i32>) -> Seq<u32> {
    Seq::new(tokens.len(), |i: int| tokens[i] as u32)
}

/// The raw rows of the positions `first..first + n`.
pub open spec fn raw_rows(c: CacheView, first: int, n: nat) -> Seq<u32>
    decreases n,
{
    if n == 0 {
        Seq::empty()
    } else {
        raw_rows(c, first, (n - 1) as nat) + c.raw_row(first + n - 1)
    }
}

/// The attention-compressed rows of a layer.
pub open spec fn comp_rows(c: CacheView) -> Seq<u32> {
    c.attn_comp_kv.take(c.n_comp * DS4_N_HEAD_DIM)
}

/// The indexer-compressed rows of a layer.
pub open spec fn index_rows(c: CacheView) -> Seq<u32> {
    c.index_comp_kv.take(c.n_index_comp * DS4_N_INDEXER_HEAD_DIM)
}

/// What a layer adds to the payload.
pub open spec fn layer_words(c: CacheView, first: int, live: nat) -> Seq<u32> {
    let raw = raw_rows(c, first, live);
    if c.compress_ratio == 0 {
        raw
    } else {
        let attn = raw + comp_rows(c) + c.attn_state_kv + c.attn_state_score;
        if c.compress_ratio == 4 {
            attn + index_rows(c) + c.index_state_kv + c.index_state_score
        } else {
            attn
        }
    }
}

/// What the first `n` layers add to the payload.
pub open spec fn layers_words(caches: Seq<CacheView>, first: int, live: nat, n: nat) -> Seq<u32>
    decreases n,
{
    if n == 0 {
        Seq::empty()
    } else {
        layers_words(caches, first, live, (n - 1) as nat) + layer_words(caches[n - 1], first, live)
    }
}

pub open spec fn comp_counts(caches: Seq<CacheView>) -> Seq<u32> {
    Seq::new(DS4_N_LAYER as nat, |i: int| caches[i].n_comp)
}

pub open spec fn index_counts(caches: Seq<CacheView>) -> Seq<u32> {
    Seq::new(DS4_N_LAYER as nat, |i: int| caches[i].n_index_comp)
}

/// The words before those of the layers.
pub open spec fn front_words(s: SessionView) -> Seq<u32> {
    header(s) + token_words(s.tokens) + s.logits + comp_counts(s.caches) + index_counts(s.caches)
}

/// The words of the payload of a session.
pub open spec fn payload_words(s: SessionView) -> Seq<u32> {
    front_words(s) + layers_words(
        s.caches,
        raw_first(s.tokens.len() as int, raw_live(s)),
        raw_live(s) as nat,
        DS4_N_LAYER as nat,
    )
}

/// The payload of a session.
pub open spec fn payload(s: SessionView) -> Seq<u8> {
    words_bytes(payload_words(s))
}

// ── Words and bytes ──────────────────────────────────────────────────────

/// The words that a sequence of bytes holds; fewer than four bytes at the end are none.
pub open spec fn words_of(data: Seq<u8>) -> Seq<u32> {
    Seq::new(data.len() / 4, |i: int| u32_at(data, 4 * i))
}

proof fn lemma_words_len(w: Seq<u32>)
    ensures
        words_bytes(w).len() == 4 * w.len(),
    decreases w.len(),
{
    if w.len() > 0 {
        lemma_words_len(w.drop_last());
        u32_roundtrip(w.last());
    }
}

proof fn lemma_words_add(a: Seq<u32>, b: Seq<u32>)
    ensures
        words_bytes(a + b) == words_bytes(a) + words_bytes(b),
    decreases b.len(),
{
    if b.len() == 0 {
        assert(a + b =~= a);
        assert(words_bytes(a) + words_bytes(b) =~= words_bytes(a));
    } else {
        lemma_words_add(a, b.drop_last());
        assert((a + b).drop_last() =~= a + b.drop_last());
        assert(words_bytes(a + b) =~= words_bytes(a) + words_bytes(b));
    }
}

/// The words of the bytes of words are those words.
pub proof fn words_roundtrip(w: Seq<u32>)
    ensures
        words_of(words_bytes(w)) == w,
        words_bytes(w).len() == 4 * w.len(),
    decreases w.len(),
{
    lemma_words_len(w);
    if w.len() > 0 {
        let rest = w.drop_last();
        words_roundtrip(rest);
        u32_roundtrip(w.last());
        let bytes = words_bytes(w);
        assert forall|i: int| 0 <= i < w.len() implies words_of(bytes)[i] == w[i] by {
            if i < rest.len() {
                assert(bytes.subrange(4 * i, 4 * i + 4) =~= words_bytes(rest).subrange(
                    4 * i,
                    4 * i + 4,
                ));
                assert(words_of(words_bytes(rest))[i] == rest[i]);
            } else {
                assert(bytes.subrange(4 * i, 4 * i + 4) =~= u32_bytes(w.last()));
            }
        }
        assert(words_of(bytes) =~= w);
    } else {
        assert(words_of(words_bytes(w)) =~= w);
    }
}

/// Appends the words `v[..n]`.
fn push_words(out: &mut Vec<u8>, v: &Vec<u32>, n: usize)
    requires
        n <= v@.len(),
    ensures
        final(out)@ == old(out)@ + words_bytes(v@.take(n as int)),
{
    let mut i: usize = 0;
    assert(out@ =~= old(out)@ + words_bytes(v@.take(0)));
    while i < n
        invariant
            i <= n <= v@.len(),
            out@ == old(out)@ + words_bytes(v@.take(i as int)),
        decreases n - i,
    {
        push_u32(out, v[i]);
        proof {
            let t = v@.take(i + 1);
            assert(t.drop_last() =~= v@.take(i as int));
            assert(out@ =~= old(out)@ + words_bytes(t));
        }
        i = i + 1;
    }
}

/// Appends the row of 512 words at `v[at..]`.
fn push_row(out: &mut Vec<u8>, v: &Vec<u32>, at: usize)
    requires
        at + DS4_N_HEAD_DIM <= v@.len(),
    ensures
        final(out)@ == old(out)@ + words_bytes(v@.subrange(at as int, at + DS4_N_HEAD_DIM)),
{
    let n: usize = DS4_N_HEAD_DIM as usize;
    let total: usize = v.len();
    let mut i: usize = 0;
    assert(out@ =~= old(out)@ + words_bytes(v@.subrange(at as int, at as int)));
    while i < n
        invariant
            i <= n,
            n == DS4_N_HEAD_DIM,
            at + n <= v@.len() == total,
            out@ == old(out)@ + words_bytes(v@.subrange(at as int, at + i)),
        decreases n - i,
    {
        push_u32(out, v[at + i]);
        proof {
            let t = v@.subrange(at as int, at + i + 1);
            assert(t.drop_last() =~= v@.subrange(at as int, at + i));
            assert(out@ =~= old(out)@ + words_bytes(t));
        }
        i = i + 1;
    }
}

// ── Saving ───────────────────────────────────────────────────────────────

proof fn lemma_raw_rows_len(c: CacheView, first: int, n: nat)
    requires
        c.wf(),
        first >= 0,
    ensures
        raw_rows(c, first, n).len() == n * DS4_N_HEAD_DIM,
    decreases n,
{
    if n > 0 {
        lemma_raw_rows_len(c, first, (n - 1) as nat);
        lemma_row_in_range(c, first + n - 1);
    }
}

proof fn lemma_row_in_range(c: CacheView, pos: int)
    requires
        c.wf(),
        pos >= 0,
    ensures
        0 <= pos % (c.cap_raw as int) < c.cap_raw,
        (pos % (c.cap_raw as int)) * DS4_N_HEAD_DIM + DS4_N_HEAD_DIM <= c.raw_kv.len(),
        c.raw_row(pos).len() == DS4_N_HEAD_DIM,
{
    vstd::arithmetic::div_mod::lemma_mod_bound(pos, c.cap_raw as int);
}

/// Words that a layer adds to the payload.
pub open spec fn layer_len(c: CacheView, live: int) -> int {
    live * DS4_N_HEAD_DIM + if c.compress_ratio == 0 {
        0
    } else {
        c.n_comp * DS4_N_HEAD_DIM + 2 * attn_state_len(c.compress_ratio as int) + if c.compress_ratio
            == 4 {
            c.n_index_comp * DS4_N_INDEXER_HEAD_DIM + 2 * index_state_len(4)
        } else {
            0
        }
    }
}

proof fn lemma_layer_len(c: CacheView, first: int, live: nat)
    requires
        c.wf(),
        first >= 0,
    ensures
        layer_words(c, first, live).len() == layer_len(c, live as int),
{
    lemma_raw_rows_len(c, first, live);
}

proof fn lemma_layers_len(caches: Seq<CacheView>, ctx: int, first: int, live: nat, n: nat)
    requires
        caches_wf(caches, ctx),
        0 < ctx <= i32::MAX,
        n <= DS4_N_LAYER,
        first >= 0,
        live <= DS4_N_SWA,
    ensures
        0 <= layers_words(caches, first, live, n).len() <= n * 0x60_0000_0000,
    decreases n,
{
    if n > 0 {
        lemma_layers_len(caches, ctx, first, live, (n - 1) as nat);
        assert(caches[n - 1].wf());
        lemma_layer_len(caches[n - 1], first, live);
    }
}

impl Session {
    /// Raw rows that are live.
    fn raw_live_rows(&self) -> (r: u32)
        requires
            self@.wf(),
        ensures
            r == raw_live(self@),
            r <= DS4_N_SWA,
    {
        let tokens: u32 = self.checkpoint.len() as u32;
        let ctx: u32 = self.ctx_size as u32;
        let window: u32 = if DS4_N_SWA < ctx {
            DS4_N_SWA
        } else {
            ctx
        };
        if tokens < window {
            tokens
        } else {
            window
        }
    }

    /// The size of the payload in bytes, zero without a valid checkpoint.
    pub fn payload_bytes(&self) -> (r: u64)
        requires
            self@.wf(),
        ensures
            r == if self@.valid {
                payload(self@).len() as int
            } else {
                0
            },
    {
        if !self.checkpoint_valid {
            return 0;
        }
        let live: u32 = self.raw_live_rows();
        let mut bytes: u64 = SESSION_PAYLOAD_U32_FIELDS as u64 * 4;
        bytes = bytes + self.checkpoint.len() as u64 * 4;
        bytes = bytes + DS4_N_VOCAB as u64 * 4;
        bytes = bytes + DS4_N_LAYER as u64 * 4;
        bytes = bytes + DS4_N_LAYER as u64 * 4;
        let ghost front = bytes as int;
        let ghost first = raw_first(self@.tokens.len() as int, live as int);
        let ghost caches = self@.caches;
        proof {
            assert(front == 4 * front_words(self@).len());
        }
        let mut il: u32 = 0;
        while il < DS4_N_LAYER
            invariant
                il <= DS4_N_LAYER,
                self@.wf(),
                self@.valid,
                caches == self@.caches,
                live == raw_live(self@),
                live <= DS4_N_SWA,
                first == raw_first(self@.tokens.len() as int, live as int),
                0 <= front <= 0x4_0000_0000,
                front == 4 * front_words(self@).len(),
                bytes == front + 4 * layers_words(caches, first, live as nat, il as nat).len(),
            decreases DS4_N_LAYER - il,
        {
            let layer = &self.kv_cache.layers[il as usize];
            proof {
                assert(caches[il as int] == layer@);
                assert(layer@.wf());
                lemma_layers_len(caches, self@.ctx as int, first, live as nat, il as nat);
                lemma_layer_len(layer@, first, live as nat);
            }
            bytes = bytes + live as u64 * DS4_N_HEAD_DIM as u64 * 4;
            let ratio: u32 = layer.compress_ratio;
            if ratio != 0 {
                bytes = bytes + layer.n_comp as u64 * DS4_N_HEAD_DIM as u64 * 4;
                bytes = bytes + LayerCache::attn_state_bytes(ratio);
                bytes = bytes + LayerCache::attn_state_bytes(ratio);
                if ratio == 4 {
                    bytes = bytes + layer.n_index_comp as u64 * DS4_N_INDEXER_HEAD_DIM as u64 * 4;
                    bytes = bytes + LayerCache::index_state_bytes(ratio);
                    bytes = bytes + LayerCache::index_state_bytes(ratio);
                }
            }
            il = il + 1;
        }
        proof {
            lemma_words_len(payload_words(self@));
        }
        bytes
    }
}

/// Appends the header.
fn push_header(out: &mut Vec<u8>, s: &Session, live: u32)
    requires
        s@.wf(),
        live == raw_live(s@),
    ensures
        final(out)@ == old(out)@ + words_bytes(header(s@)),
{
    let ctx: u32 = s.ctx_size as u32;
    let mut h: Vec<u32> = Vec::new();
    h.push(SESSION_PAYLOAD_MAGIC);
    h.push(SESSION_PAYLOAD_VERSION);
    h.push(ctx);
    h.push(s.prefill_cap);
    h.push(
        if live > 1 {
            live
        } else {
            1
        },
    );
    h.push(
        if DS4_N_SWA < ctx {
            DS4_N_SWA
        } else {
            ctx
        },
    );
    h.push(ds4_default_comp_cap(ctx));
    h.push(s.checkpoint.len() as u32);
    h.push(DS4_N_LAYER);
    h.push(DS4_N_HEAD_DIM);
    h.push(DS4_N_INDEXER_HEAD_DIM);
    h.push(DS4_N_VOCAB);
    h.push(live);
    assert(h@ =~= header(s@));
    assert(h@.take(13) =~= h@);
    push_words(out, &h, 13);
}

/// Appends the live raw rows of a layer.
fn push_raw_rows(out: &mut Vec<u8>, c: &LayerCache, first: u32, live: u32)
    requires
        c@.wf(),
        first + live <= u32::MAX,
    ensures
        final(out)@ == old(out)@ + words_bytes(raw_rows(c@, first as int, live as nat)),
{
    let mut r: u32 = 0;
    assert(out@ =~= old(out)@ + words_bytes(raw_rows(c@, first as int, 0)));
    while r < live
        invariant
            r <= live,
            first + live <= u32::MAX,
            c@.wf(),
            out@ == old(out)@ + words_bytes(raw_rows(c@, first as int, r as nat)),
        decreases live - r,
    {
        let pos: u32 = first + r;
        let phys: u32 = pos % c.cap_raw;
        proof {
            lemma_row_in_range(c@, pos as int);
            lemma_words_add(raw_rows(c@, first as int, r as nat), c@.raw_row(pos as int));
        }
        let len: usize = c.raw_kv.len();
        assert(phys * DS4_N_HEAD_DIM + DS4_N_HEAD_DIM <= len);
        push_row(out, &c.raw_kv, phys as usize * DS4_N_HEAD_DIM as usize);
        r = r + 1;
        assert(out@ =~= old(out)@ + words_bytes(raw_rows(c@, first as int, r as nat)));
    }
}

/// Appends a layer.
fn push_layer(out: &mut Vec<u8>, c: &LayerCache, first: u32, live: u32)
    requires
        c@.wf(),
        first + live <= u32::MAX,
    ensures
        final(out)@ == old(out)@ + words_bytes(layer_words(c@, first as int, live as nat)),
{
    let ghost start = out@;
    push_raw_rows(out, c, first, live);
    let ghost mut w = raw_rows(c@, first as int, live as nat);
    if c.compress_ratio != 0 {
        let room: usize = c.attn_comp_kv.len();
        assert(c.n_comp * DS4_N_HEAD_DIM <= room);
        let rows: usize = c.n_comp as usize * DS4_N_HEAD_DIM as usize;
        push_words(out, &c.attn_comp_kv, rows);
        push_words(out, &c.attn_state_kv, c.attn_state_kv.len());
        push_words(out, &c.attn_state_score, c.attn_state_score.len());
        proof {
            lemma_words_add(w, comp_rows(c@));
            w = w + comp_rows(c@);
            lemma_words_add(w, c@.attn_state_kv);
            w = w + c@.attn_state_kv;
            lemma_words_add(w, c@.attn_state_score);
            w = w + c@.attn_state_score;
            assert(c@.attn_state_kv.take(c@.attn_state_kv.len() as int) =~= c@.attn_state_kv);
            assert(c@.attn_state_score.take(c@.attn_state_score.len() as int)
                =~= c@.attn_state_score);
            assert(out@ =~= start + words_bytes(w));
        }
        if c.compress_ratio == 4 {
            let room: usize = c.index_comp_kv.len();
            assert(c.n_index_comp * DS4_N_INDEXER_HEAD_DIM <= room);
            let rows: usize = c.n_index_comp as usize * DS4_N_INDEXER_HEAD_DIM as usize;
            push_words(out, &c.index_comp_kv, rows);
            push_words(out, &c.index_state_kv, c.index_state_kv.len());
            push_words(out, &c.index_state_score, c.index_state_score.len());
            proof {
                lemma_words_add(w, index_rows(c@));
                w = w + index_rows(c@);
                lemma_words_add(w, c@.index_state_kv);
                w = w + c@.index_state_kv;
                lemma_words_add(w, c@.index_state_score);
                w = w + c@.index_state_score;
                assert(c@.index_state_kv.take(c@.index_state_kv.len() as int)
                    =~= c@.index_state_kv);
                assert(c@.index_state_score.take(c@.index_state_score.len() as int)
                    =~= c@.index_state_score);
                assert(out@ =~= start + words_bytes(w));
            }
        }
    }
}

impl Session {
    /// The payload of the session.
    pub fn save_payload(&self) -> (r: Result<Vec<u8>, PayloadError>)
        requires
            self@.wf(),
        ensures
            match r {
                Ok(bytes) => self@.valid && bytes@ == payload(self@),
                Err(e) => !self@.valid && e == PayloadError::NoCheckpoint,
            },
    {
        if !self.checkpoint_valid {
            return Err(PayloadError::NoCheckpoint);
        }
        let live: u32 = self.raw_live_rows();
        let tokens: u32 = self.checkpoint.len() as u32;
        let mut out: Vec<u8> = Vec::new();
        push_header(&mut out, self, live);
        let ghost mut w = header(self@);
        assert(out@ =~= words_bytes(w));
        let mut i: usize = 0;
        assert(token_words(self@.tokens).take(0) =~= Seq::empty());
        assert(w + token_words(self@.tokens).take(0) =~= w);
        while i < self.checkpoint.len()
            invariant
                i <= self@.tokens.len(),
                w == header(self@),
                out@ == words_bytes(w + token_words(self@.tokens).take(i as int)),
            decreases self@.tokens.len() - i,
        {
            push_u32(&mut out, self.checkpoint.v[i] as u32);
            proof {
                let t = w + token_words(self@.tokens).take(i + 1);
                assert(t.drop_last() =~= w + token_words(self@.tokens).take(i as int));
                assert(t.last() == self@.tokens[i as int] as u32);
            }
            i = i + 1;
        }
        proof {
            w = w + token_words(self@.tokens);
            assert(token_words(self@.tokens).take(self@.tokens.len() as int) =~= token_words(
                self@.tokens,
            ));
            lemma_words_add(w, self@.logits);
            assert(self@.logits.take(self@.logits.len() as int) =~= self@.logits);
        }
        push_words(&mut out, &self.logits, self.logits.len());
        proof {
            w = w + self@.logits;
            assert(comp_counts(self@.caches).take(0) =~= Seq::empty());
            assert(w + comp_counts(self@.caches).take(0) =~= w);
        }
        let mut il: usize = 0;
        while il < DS4_N_LAYER as usize
            invariant
                il <= DS4_N_LAYER,
                self@.wf(),
                out@ == words_bytes(w + comp_counts(self@.caches).take(il as int)),
            decreases DS4_N_LAYER - il,
        {
            push_u32(&mut out, self.kv_cache.layers[il].n_comp);
            proof {
                let t = w + comp_counts(self@.caches).take(il + 1);
                assert(t.drop_last() =~= w + comp_counts(self@.caches).take(il as int));
                assert(t.last() == self@.caches[il as int].n_comp);
            }
            il = il + 1;
        }
        proof {
            w = w + comp_counts(self@.caches);
            assert(comp_counts(self@.caches).take(DS4_N_LAYER as int) =~= comp_counts(
                self@.caches,
            ));
            assert(index_counts(self@.caches).take(0) =~= Seq::empty());
            assert(w + index_counts(self@.caches).take(0) =~= w);
        }
        il = 0;
        while il < DS4_N_LAYER as usize
            invariant
                il <= DS4_N_LAYER,
                self@.wf(),
                out@ == words_bytes(w + index_counts(self@.caches).take(il as int)),
            decreases DS4_N_LAYER - il,
        {
            push_u32(&mut out, self.kv_cache.layers[il].n_index_comp);
            proof {
                let t = w + index_counts(self@.caches).take(il + 1);
                assert(t.drop_last() =~= w + index_counts(self@.caches).take(il as int));
                assert(t.last() == self@.caches[il as int].n_index_comp);
            }
            il = il + 1;
        }
        proof {
            w = w + index_counts(self@.caches);
            assert(index_counts(self@.caches).take(DS4_N_LAYER as int) =~= index_counts(
                self@.caches,
            ));
            assert(w == front_words(self@));
        }
        let first: u32 = if live < tokens {
            tokens - live
        } else {
            0
        };
        assert(w + layers_words(self@.caches, first as int, live as nat, 0) =~= w);
        il = 0;
        while il < DS4_N_LAYER as usize
            invariant
                il <= DS4_N_LAYER,
                self@.wf(),
                first + live <= u32::MAX,
                out@ == words_bytes(
                    w + layers_words(self@.caches, first as int, live as nat, il as nat),
                ),
            decreases DS4_N_LAYER - il,
        {
            let layer = &self.kv_cache.layers[il];
            proof {
                assert(self@.caches[il as int] == layer@);
                assert(layer@.wf());
                let done = layers_words(self@.caches, first as int, live as nat, il as nat);
                let more = layer_words(layer@, first as int, live as nat);
                lemma_words_add(w + done, more);
                assert(w + done + more =~= w + layers_words(
                    self@.caches,
                    first as int,
                    live as nat,
                    (il + 1) as nat,
                ));
            }
            push_layer(&mut out, layer, first, live);
            il = il + 1;
        }
        Ok(out)
    }
}

// ── Loading ──────────────────────────────────────────────────────────────

/// `buf` with `part` written over it at `at`.
pub open spec fn write_at(buf: Seq<u32>, at: int, part: Seq<u32>) -> Seq<u32> {
    buf.take(at) + part + buf.skip(at + part.len())
}

/// A layer cache on the way of being restored: where reading stands in the words, and
/// what stopped it.
pub struct LayerStep {
    pub cache: CacheView,
    pub pos: int,
    pub error: Option<PayloadError>,
}

/// A raw ring into which `n` rows, the words from `p` on, are written at the positions
/// from `first` on.
pub open spec fn restore_rows(
    raw: Seq<u32>,
    cap: int,
    first: int,
    w: Seq<u32>,
    p: int,
    n: nat,
) -> Seq<u32>
    decreases n,
{
    if n == 0 {
        raw
    } else {
        let dim = DS4_N_HEAD_DIM as int;
        write_at(
            restore_rows(raw, cap, first, w, p, (n - 1) as nat),
            ((first + n - 1) % cap) * dim,
            w.subrange(p + dim * (n - 1), p + dim * n),
        )
    }
}

/// Whether `n` words are left at `p`.
pub open spec fn left(w: Seq<u32>, p: int, n: int) -> bool {
    p + n <= w.len()
}

/// The layer cache `c` once the words from `p` on are restored into it. A layer that
/// cannot be restored whole keeps what was read of it.
pub open spec fn load_layer(
    w: Seq<u32>,
    p: int,
    c: CacheView,
    tokens: int,
    live: int,
    n_comp: u32,
    n_index: u32,
) -> LayerStep {
    let dim = DS4_N_HEAD_DIM as int;
    let first = raw_first(tokens, live);
    let cap = c.cap_raw as int;
    let rows = least(live, (w.len() - p) / dim);
    let restored = CacheView {
        raw_kv: restore_rows(c.raw_kv, cap, first, w, p, rows as nat),
        ..c
    };
    if rows < live {
        LayerStep { cache: restored, pos: p + rows * dim, error: Some(PayloadError::Truncated) }
    } else {
        let c = CacheView { n_raw: least(tokens, cap) as u32, ..restored };
        if c.compress_ratio == 0 {
            LayerStep { cache: c, pos: p + live * dim, error: None }
        } else {
            load_attention(w, p + live * dim, c, n_comp, n_index)
        }
    }
}

pub open spec fn load_attention(w: Seq<u32>, p: int, c: CacheView, n_comp: u32, n_index: u32)
    -> LayerStep {
    let rows = n_comp * DS4_N_HEAD_DIM;
    let state = attn_state_len(c.compress_ratio as int);
    if n_comp > c.comp_cap {
        LayerStep { cache: c, pos: p, error: Some(PayloadError::TooManyRows) }
    } else {
        let c = CacheView { n_comp, ..c };
        if !left(w, p, rows) {
            LayerStep { cache: c, pos: p, error: Some(PayloadError::Truncated) }
        } else {
            let c = CacheView {
                attn_comp_kv: write_at(c.attn_comp_kv, 0, w.subrange(p, p + rows)),
                ..c
            };
            let p = p + rows;
            if !left(w, p, state) {
                LayerStep { cache: c, pos: p, error: Some(PayloadError::Truncated) }
            } else {
                let c = CacheView {
                    attn_state_kv: write_at(c.attn_state_kv, 0, w.subrange(p, p + state)),
                    ..c
                };
                let p = p + state;
                if !left(w, p, state) {
                    LayerStep { cache: c, pos: p, error: Some(PayloadError::Truncated) }
                } else {
                    let c = CacheView {
                        attn_state_score: write_at(c.attn_state_score, 0, w.subrange(p, p + state)),
                        ..c
                    };
                    let p = p + state;
                    if c.compress_ratio == 4 {
                        load_indexer(w, p, c, n_index)
                    } else {
                        LayerStep { cache: c, pos: p, error: None }
                    }
                }
            }
        }
    }
}

pub open spec fn load_indexer(w: Seq<u32>, p: int, c: CacheView, n_index: u32) -> LayerStep {
    let rows = n_index * DS4_N_INDEXER_HEAD_DIM;
    let state = index_state_len(4);
    if n_index > c.comp_cap {
        LayerStep { cache: c, pos: p, error: Some(PayloadError::TooManyRows) }
    } else {
        let c = CacheView { n_index_comp: n_index, ..c };
        if !left(w, p, rows) {
            LayerStep { cache: c, pos: p, error: Some(PayloadError::Truncated) }
        } else {
            let c = CacheView {
                index_comp_kv: write_at(c.index_comp_kv, 0, w.subrange(p, p + rows)),
                ..c
            };
            let p = p + rows;
            if !left(w, p, state) {
                LayerStep { cache: c, pos: p, error: Some(PayloadError::Truncated) }
            } else {
                let c = CacheView {
                    index_state_kv: write_at(c.index_state_kv, 0, w.subrange(p, p + state)),
                    ..c
                };
                let p = p + state;
                if !left(w, p, state) {
                    LayerStep { cache: c, pos: p, error: Some(PayloadError::Truncated) }
                } else {
                    let c = CacheView {
                        index_state_score: write_at(
                            c.index_state_score,
                            0,
                            w.subrange(p, p + state),
                        ),
                        ..c
                    };
                    LayerStep { cache: c, pos: p + state, error: None }
                }
            }
        }
    }
}

/// All layer caches on the way of being restored.
pub struct LayersStep {
    pub caches: Seq<CacheView>,
    pub pos: int,
    pub error: Option<PayloadError>,
}

/// The caches once the first `n` layers are restored from the words from `p` on.
pub open spec fn load_layers(
    w: Seq<u32>,
    p: int,
    caches: Seq<CacheView>,
    tokens: int,
    live: int,
    counts: Seq<u32>,
    index_counts: Seq<u32>,
    n: nat,
) -> LayersStep
    decreases n,
{
    if n == 0 {
        LayersStep { caches, pos: p, error: None }
    } else {
        let prev = load_layers(w, p, caches, tokens, live, counts, index_counts, (n - 1) as nat);
        if prev.error is Some {
            prev
        } else {
            let step = load_layer(
                w,
                prev.pos,
                prev.caches[n - 1],
                tokens,
                live,
                counts[n - 1],
                index_counts[n - 1],
            );
            LayersStep {
                caches: prev.caches.update(n - 1, step.cache),
                pos: step.pos,
                error: step.error,
            }
        }
    }
}

/// The tokens in the words `p..p + n`.
pub open spec fn tokens_at(w: Seq<u32>, p: int, n: int) -> Seq<i32> {
    Seq::new(n as nat, |i: int| w[p + i] as i32)
}

/// What is wrong with the header of a payload for the session `s`.
pub open spec fn header_error(w: Seq<u32>, s: SessionView) -> Option<PayloadError> {
    if w.len() < SESSION_PAYLOAD_U32_FIELDS {
        Some(PayloadError::Truncated)
    } else if w[0] != SESSION_PAYLOAD_MAGIC || w[1] != SESSION_PAYLOAD_VERSION {
        Some(PayloadError::UnsupportedVersion)
    } else if w[2] > s.ctx || w[7] >= s.ctx {
        Some(PayloadError::DoesNotFit)
    } else if w[8] != DS4_N_LAYER || w[9] != DS4_N_HEAD_DIM || w[10] != DS4_N_INDEXER_HEAD_DIM
        || w[11] != DS4_N_VOCAB {
        Some(PayloadError::OtherLayout)
    } else {
        None
    }
}

/// The session `s` once the payload with the words `w` is loaded, and what stopped the
/// loading. The payload is said to have `payload_bytes` bytes.
///
/// Loading that fails leaves the checkpoint as it was; the logits and the caches keep
/// what was read into them.
pub open spec fn load(w: Seq<u32>, s: SessionView, payload_bytes: int) -> (
    SessionView,
    Option<PayloadError>,
) {
    let layers = DS4_N_LAYER as int;
    let vocab = DS4_N_VOCAB as int;
    if header_error(w, s) is Some {
        (s, header_error(w, s))
    } else {
        let tokens = w[7] as int;
        let at_logits = SESSION_PAYLOAD_U32_FIELDS + tokens;
        let at_counts = at_logits + vocab;
        let at_layers = at_counts + 2 * layers;
        if !left(w, at_logits, vocab) {
            (s, Some(PayloadError::Truncated))
        } else {
            let s = SessionView { logits: w.subrange(at_logits, at_counts), ..s };
            if !left(w, at_counts, 2 * layers) {
                (s, Some(PayloadError::Truncated))
            } else {
                let step = load_layers(
                    w,
                    at_layers,
                    s.caches,
                    tokens,
                    w[12] as int,
                    w.subrange(at_counts, at_counts + layers),
                    w.subrange(at_counts + layers, at_layers),
                    layers as nat,
                );
                let s = SessionView { caches: step.caches, ..s };
                if step.error is Some {
                    (s, step.error)
                } else if 4 * step.pos != payload_bytes {
                    (s, Some(PayloadError::TrailingBytes))
                } else {
                    (
                        SessionView {
                            tokens: tokens_at(w, SESSION_PAYLOAD_U32_FIELDS as int, tokens),
                            valid: true,
                            draft_valid: false,
                            ..s
                        },
                        None,
                    )
                }
            }
        }
    }
}

/// The word `i` of the bytes `data`.
fn word(data: &[u8], i: usize) -> (r: u32)
    requires
        i < words_of(data@).len(),
    ensures
        r == words_of(data@)[i as int],
{
    let n: usize = data.len();
    assert(4 * i + 4 <= n);
    u32_le(data, 4 * i)
}

/// Writes the words `p..p + n` over `buf` at `at`.
fn read_words(data: &[u8], p: usize, buf: &mut Vec<u32>, at: usize, n: usize)
    requires
        p + n <= words_of(data@).len(),
        at + n <= old(buf)@.len(),
    ensures
        final(buf)@ == write_at(
            old(buf)@,
            at as int,
            words_of(data@).subrange(p as int, p + n),
        ),
        final(buf)@.len() == old(buf)@.len(),
{
    let total: usize = buf.len();
    let bytes: usize = data.len();
    let ghost w = words_of(data@);
    let mut i: usize = 0;
    while i < n
        invariant
            i <= n,
            w == words_of(data@),
            p + n <= w.len() <= bytes,
            at + n <= old(buf)@.len() == total,
            buf@.len() == old(buf)@.len(),
            forall|k: int| 0 <= k < total && !(at <= k < at + i) ==> buf@[k] == old(buf)@[k],
            forall|k: int| 0 <= k < i ==> #[trigger] buf@[at + k] == w[p + k],
        decreases n - i,
    {
        let v: u32 = word(data, p + i);
        buf.set(at + i, v);
        i = i + 1;
    }
    proof {
        let want = write_at(old(buf)@, at as int, w.subrange(p as int, p + n));
        assert forall|k: int| 0 <= k < total implies buf@[k] == want[k] by {
            if at <= k < at + n {
                let d = k - at;
                assert(buf@[at + d] == w[p + d]);
            }
        }
        assert(buf@ =~= want);
    }
}

proof fn lemma_restore_len(raw: Seq<u32>, cap: int, first: int, w: Seq<u32>, p: int, n: nat)
    requires
        cap > 0,
        raw.len() == cap * DS4_N_HEAD_DIM,
        first >= 0,
        p >= 0,
        left(w, p, n * DS4_N_HEAD_DIM),
    ensures
        restore_rows(raw, cap, first, w, p, n).len() == raw.len(),
    decreases n,
{
    if n > 0 {
        lemma_restore_len(raw, cap, first, w, p, (n - 1) as nat);
        vstd::arithmetic::div_mod::lemma_mod_bound(first + n - 1, cap);
    }
}

/// Reads the raw rows of a layer, and reports how many there were.
fn load_raw_rows(data: &[u8], p: usize, c: &mut LayerCache, first: u32, live: u32) -> (rows: u32)
    requires
        old(c)@.wf(),
        p <= words_of(data@).len(),
        first + live <= u32::MAX,
    ensures
        rows == least(live as int, (words_of(data@).len() - p) / (DS4_N_HEAD_DIM as int)),
        final(c)@ == (CacheView {
            raw_kv: restore_rows(
                old(c)@.raw_kv,
                old(c)@.cap_raw as int,
                first as int,
                words_of(data@),
                p as int,
                rows as nat,
            ),
            ..old(c)@
        }),
        final(c)@.wf(),
        p + rows * DS4_N_HEAD_DIM <= words_of(data@).len(),
{
    let dim: usize = DS4_N_HEAD_DIM as usize;
    let ghost w = words_of(data@);
    let avail: usize = (data.len() / 4 - p) / dim;
    assert(avail == (w.len() - p) / (dim as int));
    let rows: u32 = if avail < live as usize {
        avail as u32
    } else {
        live
    };
    let mut r: u32 = 0;
    while r < rows
        invariant
            r <= rows <= live,
            first + live <= u32::MAX,
            dim == DS4_N_HEAD_DIM,
            w == words_of(data@),
            p + rows * dim <= w.len(),
            w.len() <= usize::MAX,
            c@.wf(),
            c@ == (CacheView {
                raw_kv: restore_rows(
                    old(c)@.raw_kv,
                    old(c)@.cap_raw as int,
                    first as int,
                    w,
                    p as int,
                    r as nat,
                ),
                ..old(c)@
            }),
        decreases rows - r,
    {
        let pos: u32 = first + r;
        let phys: u32 = pos % c.cap_raw;
        proof {
            lemma_row_in_range(c@, pos as int);
        }
        let len: usize = c.raw_kv.len();
        let ghost cap = c@.cap_raw as int;
        assert(phys * dim + dim <= len);
        assert(p + r * dim + dim <= w.len());
        read_words(data, p + r as usize * dim, &mut c.raw_kv, phys as usize * dim, dim);
        r = r + 1;
        proof {
            let prev = restore_rows(
                old(c)@.raw_kv,
                cap,
                first as int,
                w,
                p as int,
                (r - 1) as nat,
            );
            assert(p + dim * (r - 1) == p + (r - 1) * dim);
            assert(w.subrange(p + dim * (r - 1), p + dim * r) == w.subrange(
                p + (r - 1) * dim,
                p + (r - 1) * dim + dim,
            ));
        }
    }
    rows
}

/// Whether `r` is the outcome of the step `step`.
spec fn outcome(r: (usize, Option<PayloadError>), step: LayerStep, c: CacheView) -> bool {
    &&& r.0 == step.pos
    &&& r.1 == step.error
    &&& c == step.cache
}

/// Reads the indexer part of a layer.
fn load_indexer_part(data: &[u8], p: usize, c: &mut LayerCache, n_index: u32) -> (r: (
    usize,
    Option<PayloadError>,
))
    requires
        old(c)@.wf(),
        old(c)@.compress_ratio == 4,
        p <= words_of(data@).len(),
    ensures
        outcome(r, load_indexer(words_of(data@), p as int, old(c)@, n_index), final(c)@),
        final(c)@.wf(),
        r.0 <= words_of(data@).len(),
{
    let dim: usize = DS4_N_INDEXER_HEAD_DIM as usize;
    let words: usize = data.len() / 4;
    let ghost w = words_of(data@);
    if n_index > c.comp_cap {
        return (p, Some(PayloadError::TooManyRows));
    }
    let room: usize = c.index_comp_kv.len();
    assert(n_index * dim <= room);
    let rows: usize = n_index as usize * dim;
    let state: usize = LayerCache::index_state_bytes(4) as usize / 4;
    c.n_index_comp = n_index;
    if rows > words - p {
        return (p, Some(PayloadError::Truncated));
    }
    read_words(data, p, &mut c.index_comp_kv, 0, rows);
    let p: usize = p + rows;
    if state > words - p {
        return (p, Some(PayloadError::Truncated));
    }
    read_words(data, p, &mut c.index_state_kv, 0, state);
    let p: usize = p + state;
    if state > words - p {
        return (p, Some(PayloadError::Truncated));
    }
    read_words(data, p, &mut c.index_state_score, 0, state);
    (p + state, None)
}

/// Reads the compressed part of a layer.
fn load_attention_part(data: &[u8], p: usize, c: &mut LayerCache, n_comp: u32, n_index: u32) -> (r: (
    usize,
    Option<PayloadError>,
))
    requires
        old(c)@.wf(),
        old(c)@.compress_ratio == 4 || old(c)@.compress_ratio == 128,
        p <= words_of(data@).len(),
    ensures
        outcome(r, load_attention(words_of(data@), p as int, old(c)@, n_comp, n_index), final(c)@),
        final(c)@.wf(),
        r.0 <= words_of(data@).len(),
{
    let dim: usize = DS4_N_HEAD_DIM as usize;
    let words: usize = data.len() / 4;
    let ghost w = words_of(data@);
    if n_comp > c.comp_cap {
        return (p, Some(PayloadError::TooManyRows));
    }
    let room: usize = c.attn_comp_kv.len();
    assert(n_comp * dim <= room);
    let rows: usize = n_comp as usize * dim;
    let state: usize = LayerCache::attn_state_bytes(c.compress_ratio) as usize / 4;
    c.n_comp = n_comp;
    if rows > words - p {
        return (p, Some(PayloadError::Truncated));
    }
    read_words(data, p, &mut c.attn_comp_kv, 0, rows);
    let p: usize = p + rows;
    if state > words - p {
        return (p, Some(PayloadError::Truncated));
    }
    read_words(data, p, &mut c.attn_state_kv, 0, state);
    let p: usize = p + state;
    if state > words - p {
        return (p, Some(PayloadError::Truncated));
    }
    read_words(data, p, &mut c.attn_state_score, 0, state);
    let p: usize = p + state;
    if c.compress_ratio == 4 {
        load_indexer_part(data, p, c, n_index)
    } else {
        (p, None)
    }
}

/// Reads a layer.
fn load_cache(
    data: &[u8],
    p: usize,
    c: &mut LayerCache,
    tokens: u32,
    live: u32,
    n_comp: u32,
    n_index: u32,
) -> (r: (usize, Option<PayloadError>))
    requires
        old(c)@.wf(),
        old(c)@.compress_ratio == 0 || old(c)@.compress_ratio == 4 || old(c)@.compress_ratio == 128,
        p <= words_of(data@).len(),
    ensures
        outcome(
            r,
            load_layer(
                words_of(data@),
                p as int,
                old(c)@,
                tokens as int,
                live as int,
                n_comp,
                n_index,
            ),
            final(c)@,
        ),
        final(c)@.wf(),
        final(c)@.compress_ratio == old(c)@.compress_ratio,
        final(c)@.cap_raw == old(c)@.cap_raw,
        final(c)@.comp_cap == old(c)@.comp_cap,
        r.0 <= words_of(data@).len(),
{
    let dim: usize = DS4_N_HEAD_DIM as usize;
    let words: usize = data.len() / 4;
    let first: u32 = if live < tokens {
        tokens - live
    } else {
        0
    };
    let rows: u32 = load_raw_rows(data, p, c, first, live);
    assert(p + rows * dim <= words);
    let p: usize = p + rows as usize * dim;
    if rows < live {
        return (p, Some(PayloadError::Truncated));
    }
    c.n_raw = if tokens < c.cap_raw {
        tokens
    } else {
        c.cap_raw
    };
    if c.compress_ratio == 0 {
        return (p, None);
    }
    load_attention_part(data, p, c, n_comp, n_index)
}

proof fn lemma_layers_stop(
    w: Seq<u32>,
    p: int,
    caches: Seq<CacheView>,
    tokens: int,
    live: int,
    counts: Seq<u32>,
    icounts: Seq<u32>,
    k: nat,
    n: nat,
)
    requires
        k <= n,
        load_layers(w, p, caches, tokens, live, counts, icounts, k).error is Some,
    ensures
        load_layers(w, p, caches, tokens, live, counts, icounts, n) == load_layers(
            w,
            p,
            caches,
            tokens,
            live,
            counts,
            icounts,
            k,
        ),
    decreases n,
{
    if k < n {
        lemma_layers_stop(w, p, caches, tokens, live, counts, icounts, k, (n - 1) as nat);
    }
}

/// The words `p..p + n`.
fn words_range(data: &[u8], p: usize, n: usize) -> (r: Vec<u32>)
    requires
        p + n <= words_of(data@).len(),
    ensures
        r@ == words_of(data@).subrange(p as int, p + n),
{
    let bytes: usize = data.len();
    let mut r: Vec<u32> = Vec::new();
    let mut i: usize = 0;
    while i < n
        invariant
            i <= n,
            p + n <= words_of(data@).len() <= bytes,
            r@ == words_of(data@).subrange(p as int, p + i),
        decreases n - i,
    {
        r.push(word(data, p + i));
        i = i + 1;
        assert(words_of(data@).subrange(p as int, p + i) =~= words_of(data@).subrange(
            p as int,
            p + i - 1,
        ).push(words_of(data@)[p + i - 1]));
    }
    r
}

impl Session {
    /// Loads a payload of `payload_bytes` bytes. `data` holds them, or as many of them as
    /// there are.
    pub fn load_payload(&mut self, data: &[u8], payload_bytes: u64) -> (r: Result<(), PayloadError>)
        requires
            old(self)@.wf(),
            data@.len() <= payload_bytes,
        ensures
            final(self)@.wf(),
            ({
                let (s, error) = load(words_of(data@), old(self)@, payload_bytes as int);
                &&& final(self)@ == s
                &&& match r {
                    Ok(_) => error is None,
                    Err(e) => error == Some(e),
                }
            }),
    {
        let ghost w = words_of(data@);
        let words: usize = data.len() / 4;
        let ctx: u32 = self.ctx_size as u32;
        let vocab: usize = DS4_N_VOCAB as usize;
        let layers: usize = DS4_N_LAYER as usize;
        if words < SESSION_PAYLOAD_U32_FIELDS as usize {
            return Err(PayloadError::Truncated);
        }
        if word(data, 0) != SESSION_PAYLOAD_MAGIC || word(data, 1) != SESSION_PAYLOAD_VERSION {
            return Err(PayloadError::UnsupportedVersion);
        }
        let tokens: u32 = word(data, 7);
        let live: u32 = word(data, 12);
        if word(data, 2) > ctx || tokens >= ctx {
            return Err(PayloadError::DoesNotFit);
        }
        if word(data, 8) != DS4_N_LAYER || word(data, 9) != DS4_N_HEAD_DIM || word(data, 10)
            != DS4_N_INDEXER_HEAD_DIM || word(data, 11) != DS4_N_VOCAB {
            return Err(PayloadError::OtherLayout);
        }
        if words < 13 + vocab || words - 13 - vocab < tokens as usize {
            return Err(PayloadError::Truncated);
        }
        let at_logits: usize = 13 + tokens as usize;
        let at_counts: usize = at_logits + vocab;
        read_words(data, at_logits, &mut self.logits, 0, vocab);
        assert(self.logits@ =~= w.subrange(at_logits as int, at_counts as int));
        if words - at_counts < 2 * layers {
            return Err(PayloadError::Truncated);
        }
        let counts: Vec<u32> = words_range(data, at_counts, layers);
        let icounts: Vec<u32> = words_range(data, at_counts + layers, layers);
        let at_layers: usize = at_counts + 2 * layers;
        let ghost start = self@;
        let mut p: usize = at_layers;
        let mut il: usize = 0;
        while il < layers
            invariant
                il <= layers,
                layers == DS4_N_LAYER,
                w == words_of(data@),
                p <= w.len(),
                start.wf(),
                start == (SessionView {
                    logits: w.subrange(at_logits as int, at_counts as int),
                    ..old(self)@
                }),
                counts@.len() == layers,
                icounts@.len() == layers,
                self@ == (SessionView { caches: self@.caches, ..start }),
                self@.wf(),
                header_error(w, old(self)@) is None,
                w.len() >= 13,
                tokens == w[7],
                live == w[12],
                at_logits == 13 + tokens,
                at_counts == at_logits + DS4_N_VOCAB,
                at_layers == at_counts + 2 * layers,
                at_layers <= w.len(),
                counts@ == w.subrange(at_counts as int, at_counts + layers),
                icounts@ == w.subrange(at_counts + layers, at_layers as int),
                ({
                    let step = load_layers(
                        w,
                        at_layers as int,
                        start.caches,
                        tokens as int,
                        live as int,
                        counts@,
                        icounts@,
                        il as nat,
                    );
                    &&& step.error is None
                    &&& step.pos == p
                    &&& step.caches == self@.caches
                }),
            decreases layers - il,
        {
            let ghost before = self@.caches;
            proof {
                assert(before[il as int] == self.kv_cache.layers@[il as int]@);
                assert(before[il as int].wf());
                assert(before[il as int].compress_ratio == compress_ratio(il as int));
            }
            let (q, error) = load_cache(
                data,
                p,
                &mut self.kv_cache.layers[il],
                tokens,
                live,
                counts[il],
                icounts[il],
            );
            proof {
                let step = load_layer(
                    w,
                    p as int,
                    before[il as int],
                    tokens as int,
                    live as int,
                    counts@[il as int],
                    icounts@[il as int],
                );
                assert(self@.caches =~= before.update(il as int, step.cache));
                assert(caches_wf(self@.caches, start.ctx as int)) by {
                    assert forall|k: int| 0 <= k < self@.caches.len() implies {
                        let c = #[trigger] self@.caches[k];
                        c.wf() && c.compress_ratio == compress_ratio(k) && c.cap_raw == raw_cap(
                            start.ctx as int,
                        ) && c.comp_cap == comp_cap(start.ctx as int)
                    } by {
                        assert(before[k].wf());
                    }
                }
            }
            match error {
                Some(e) => {
                    proof {
                        lemma_layers_stop(
                            w,
                            at_layers as int,
                            start.caches,
                            tokens as int,
                            live as int,
                            counts@,
                            icounts@,
                            (il + 1) as nat,
                            layers as nat,
                        );
                    }
                    return Err(e);
                },
                None => {},
            }
            p = q;
            il = il + 1;
        }
        if 4 * p as u64 != payload_bytes {
            return Err(PayloadError::TrailingBytes);
        }
        let mut checkpoint = TokenVec::new();
        let mut i: usize = 0;
        while i < tokens as usize
            invariant
                i <= tokens,
                w == words_of(data@),
                13 + tokens <= w.len() == words,
                checkpoint@ == tokens_at(w, 13, i as int),
            decreases tokens - i,
        {
            checkpoint.push(word(data, 13 + i) as i32);
            i = i + 1;
            assert(tokens_at(w, 13, i as int) =~= tokens_at(w, 13, i - 1).push(w[13 + i - 1] as i32));
        }
        self.checkpoint = checkpoint;
        self.checkpoint_valid = true;
        self.mtp_draft_valid = false;
        Ok(())
    }
}

// ── Laws ─────────────────────────────────────────────────────────────────

/// Whether the cache `d` holds what is live in the cache `c`: the raw rows of the
/// positions `first..first + live`, the compressed rows and the compressor states.
pub open spec fn same_live(c: CacheView, d: CacheView, first: int, live: int) -> bool {
    &&& forall|pos: int|
        first <= pos < first + live ==> #[trigger] d.raw_row(pos) == c.raw_row(pos)
    &&& d.n_comp == c.n_comp
    &&& d.n_index_comp == c.n_index_comp
    &&& c.compress_ratio != 0 ==> {
        &&& comp_rows(d) == comp_rows(c)
        &&& d.attn_state_kv == c.attn_state_kv
        &&& d.attn_state_score == c.attn_state_score
    }
    &&& c.compress_ratio == 4 ==> {
        &&& index_rows(d) == index_rows(c)
        &&& d.index_state_kv == c.index_state_kv
        &&& d.index_state_score == c.index_state_score
    }
}

proof fn lemma_raw_rows_at(c: CacheView, first: int, n: nat, r: int)
    requires
        c.wf(),
        first >= 0,
        0 <= r < n,
    ensures
        raw_rows(c, first, n).len() == n * DS4_N_HEAD_DIM,
        raw_rows(c, first, n).subrange(r * DS4_N_HEAD_DIM, (r + 1) * DS4_N_HEAD_DIM) == c.raw_row(
            first + r,
        ),
    decreases n,
{
    lemma_raw_rows_len(c, first, n);
    lemma_raw_rows_len(c, first, (n - 1) as nat);
    lemma_row_in_range(c, first + n - 1);
    let all = raw_rows(c, first, n);
    if r < n - 1 {
        lemma_raw_rows_at(c, first, (n - 1) as nat, r);
        assert(all.subrange(r * DS4_N_HEAD_DIM, (r + 1) * DS4_N_HEAD_DIM) =~= raw_rows(
            c,
            first,
            (n - 1) as nat,
        ).subrange(r * DS4_N_HEAD_DIM, (r + 1) * DS4_N_HEAD_DIM));
    } else {
        assert(all.subrange(r * DS4_N_HEAD_DIM, (r + 1) * DS4_N_HEAD_DIM) =~= c.raw_row(first + r));
    }
}

proof fn lemma_mod_differs(a: int, b: int, m: int)
    requires
        0 <= a < b,
        b - a < m,
    ensures
        a % m != b % m,
{
    vstd::arithmetic::div_mod::lemma_fundamental_div_mod(a, m);
    vstd::arithmetic::div_mod::lemma_fundamental_div_mod(b, m);
    if a % m == b % m {
        let qa = a / m;
        let qb = b / m;
        assert(b - a == m * (qb - qa)) by (nonlinear_arith)
            requires
                a == m * qa + a % m,
                b == m * qb + b % m,
                a % m == b % m,
        ;
        assert(false) by (nonlinear_arith)
            requires
                0 < m * (qb - qa) < m,
                m > 0,
        ;
    }
}

proof fn lemma_restored_row(
    raw: Seq<u32>,
    cap: int,
    first: int,
    w: Seq<u32>,
    p: int,
    n: nat,
    r: int,
)
    requires
        cap > 0,
        raw.len() == cap * DS4_N_HEAD_DIM,
        first >= 0,
        p >= 0,
        n <= cap,
        0 <= r < n,
        left(w, p, n * DS4_N_HEAD_DIM),
    ensures
        restore_rows(raw, cap, first, w, p, n).len() == raw.len(),
        ({
            let at = ((first + r) % cap) * DS4_N_HEAD_DIM;
            restore_rows(raw, cap, first, w, p, n).subrange(at, at + DS4_N_HEAD_DIM)
                == w.subrange(p + r * DS4_N_HEAD_DIM, p + (r + 1) * DS4_N_HEAD_DIM)
        }),
    decreases n,
{
    let dim = DS4_N_HEAD_DIM as int;
    let prev = restore_rows(raw, cap, first, w, p, (n - 1) as nat);
    let all = restore_rows(raw, cap, first, w, p, n);
    lemma_restore_len(raw, cap, first, w, p, n);
    lemma_restore_len(raw, cap, first, w, p, (n - 1) as nat);
    let last = (first + n - 1) % cap;
    let mine = (first + r) % cap;
    vstd::arithmetic::div_mod::lemma_mod_bound(first + n - 1, cap);
    vstd::arithmetic::div_mod::lemma_mod_bound(first + r, cap);
    let at = mine * dim;
    if r < n - 1 {
        lemma_restored_row(raw, cap, first, w, p, (n - 1) as nat, r);
        lemma_mod_differs(first + r, first + n - 1, cap);
        assert(mine < last || last < mine);
        assert(all.subrange(at, at + dim) =~= prev.subrange(at, at + dim));
    } else {
        assert(all.subrange(at, at + dim) =~= w.subrange(p + dim * (n - 1), p + dim * n));
    }
}

proof fn lemma_write_whole(buf: Seq<u32>, part: Seq<u32>)
    requires
        part.len() == buf.len(),
    ensures
        write_at(buf, 0, part) == part,
{
    assert(write_at(buf, 0, part) =~= part);
}

proof fn lemma_write_front(buf: Seq<u32>, part: Seq<u32>)
    requires
        part.len() <= buf.len(),
    ensures
        write_at(buf, 0, part).take(part.len() as int) == part,
        write_at(buf, 0, part).len() == buf.len(),
{
    assert(write_at(buf, 0, part).take(part.len() as int) =~= part);
}

/// The part `a..b` of what stands in `w` at `p`.
proof fn lemma_part(w: Seq<u32>, p: int, whole: Seq<u32>, a: int, b: int)
    requires
        0 <= p,
        p + whole.len() <= w.len(),
        w.subrange(p, p + whole.len()) == whole,
        0 <= a <= b <= whole.len(),
    ensures
        w.subrange(p + a, p + b) == whole.subrange(a, b),
{
    assert(w.subrange(p + a, p + b) =~= w.subrange(p, p + whole.len()).subrange(a, b));
}

#[verifier::spinoff_prover]
proof fn lemma_indexer_restored(w: Seq<u32>, p: int, c: CacheView, d: CacheView)
    requires
        c.wf(),
        d.wf(),
        c.compress_ratio == 4,
        d.compress_ratio == 4,
        c.n_index_comp <= d.comp_cap,
        0 <= p,
        ({
            let whole = index_rows(c) + c.index_state_kv + c.index_state_score;
            p + whole.len() <= w.len() && w.subrange(p, p + whole.len()) == whole
        }),
    ensures
        ({
            let step = load_indexer(w, p, d, c.n_index_comp);
            &&& step.error is None
            &&& step.pos == p + c.n_index_comp * DS4_N_INDEXER_HEAD_DIM + 2 * index_state_len(4)
            &&& index_rows(step.cache) == index_rows(c)
            &&& step.cache.index_state_kv == c.index_state_kv
            &&& step.cache.index_state_score == c.index_state_score
            &&& step.cache == (CacheView {
                n_index_comp: c.n_index_comp,
                index_comp_kv: step.cache.index_comp_kv,
                index_state_kv: step.cache.index_state_kv,
                index_state_score: step.cache.index_state_score,
                ..d
            })
        }),
{
    let whole = index_rows(c) + c.index_state_kv + c.index_state_score;
    let a = index_rows(c).len() as int;
    let n = index_state_len(4);
    lemma_part(w, p, whole, 0, a);
    lemma_part(w, p, whole, a, a + n);
    lemma_part(w, p, whole, a + n, a + 2 * n);
    assert(whole.subrange(0, a) =~= index_rows(c));
    assert(whole.subrange(a, a + n) =~= c.index_state_kv);
    assert(whole.subrange(a + n, a + 2 * n) =~= c.index_state_score);
    lemma_write_front(d.index_comp_kv, index_rows(c));
    lemma_write_whole(d.index_state_kv, c.index_state_kv);
    lemma_write_whole(d.index_state_score, c.index_state_score);
}

#[verifier::spinoff_prover]
proof fn lemma_attention_restored(w: Seq<u32>, p: int, c: CacheView, d: CacheView)
    requires
        c.wf(),
        d.wf(),
        c.compress_ratio != 0,
        d.compress_ratio == c.compress_ratio,
        c.n_comp <= d.comp_cap,
        c.n_index_comp <= d.comp_cap,
        0 <= p,
        ({
            let attn = comp_rows(c) + c.attn_state_kv + c.attn_state_score;
            let whole = if c.compress_ratio == 4 {
                attn + index_rows(c) + c.index_state_kv + c.index_state_score
            } else {
                attn
            };
            p + whole.len() <= w.len() && w.subrange(p, p + whole.len()) == whole
        }),
    ensures
        ({
            let step = load_attention(w, p, d, c.n_comp, c.n_index_comp);
            &&& step.error is None
            &&& step.pos == p + layer_len(c, 0)
            &&& comp_rows(step.cache) == comp_rows(c)
            &&& step.cache.attn_state_kv == c.attn_state_kv
            &&& step.cache.attn_state_score == c.attn_state_score
            &&& step.cache.n_comp == c.n_comp
            &&& step.cache.raw_kv == d.raw_kv
            &&& step.cache.cap_raw == d.cap_raw
            &&& step.cache.n_index_comp == c.n_index_comp
            &&& c.compress_ratio == 4 ==> {
                &&& index_rows(step.cache) == index_rows(c)
                &&& step.cache.index_state_kv == c.index_state_kv
                &&& step.cache.index_state_score == c.index_state_score
            }
        }),
{
    let attn = comp_rows(c) + c.attn_state_kv + c.attn_state_score;
    let whole = if c.compress_ratio == 4 {
        attn + index_rows(c) + c.index_state_kv + c.index_state_score
    } else {
        attn
    };
    let a = comp_rows(c).len() as int;
    let n = attn_state_len(c.compress_ratio as int);
    assert(a == c.n_comp * DS4_N_HEAD_DIM);
    lemma_part(w, p, whole, 0, a);
    lemma_part(w, p, whole, a, a + n);
    lemma_part(w, p, whole, a + n, a + 2 * n);
    assert(whole.subrange(0, a) =~= comp_rows(c));
    assert(whole.subrange(a, a + n) =~= c.attn_state_kv);
    assert(whole.subrange(a + n, a + 2 * n) =~= c.attn_state_score);
    lemma_write_front(d.attn_comp_kv, comp_rows(c));
    lemma_write_whole(d.attn_state_kv, c.attn_state_kv);
    lemma_write_whole(d.attn_state_score, c.attn_state_score);
    if c.compress_ratio == 4 {
        let rest = index_rows(c) + c.index_state_kv + c.index_state_score;
        let q = p + a + 2 * n;
        lemma_part(w, p, whole, a + 2 * n, whole.len() as int);
        assert(whole.subrange(a + 2 * n, whole.len() as int) =~= rest);
        assert(q + rest.len() == p + whole.len());
        let d2 = CacheView {
            n_comp: c.n_comp,
            attn_comp_kv: write_at(d.attn_comp_kv, 0, comp_rows(c)),
            attn_state_kv: c.attn_state_kv,
            attn_state_score: c.attn_state_score,
            ..d
        };
        assert(d2.wf());
        lemma_indexer_restored(w, q, c, d2);
    }
}

#[verifier::spinoff_prover]
proof fn lemma_layer_restored(
    w: Seq<u32>,
    p: int,
    c: CacheView,
    d: CacheView,
    tokens: int,
    live: nat,
)
    requires
        c.wf(),
        d.wf(),
        d.compress_ratio == c.compress_ratio,
        c.n_comp <= d.comp_cap,
        c.n_index_comp <= d.comp_cap,
        live <= d.cap_raw,
        0 <= live <= tokens <= u32::MAX,
        0 <= p,
        ({
            let whole = layer_words(c, raw_first(tokens, live as int), live);
            p + whole.len() <= w.len() && w.subrange(p, p + whole.len()) == whole
        }),
    ensures
        ({
            let step = load_layer(w, p, d, tokens, live as int, c.n_comp, c.n_index_comp);
            &&& step.error is None
            &&& step.pos == p + layer_len(c, live as int)
            &&& same_live(c, step.cache, raw_first(tokens, live as int), live as int)
        }),
{
    let first = raw_first(tokens, live as int);
    let dim = DS4_N_HEAD_DIM as int;
    let whole = layer_words(c, first, live);
    let cap = d.cap_raw as int;
    lemma_raw_rows_len(c, first, live);
    lemma_layer_len(c, first, live);
    let rows = least(live as int, (w.len() - p) / dim);
    assert(rows == live);
    let raw = restore_rows(d.raw_kv, cap, first, w, p, live);
    lemma_restore_len(d.raw_kv, cap, first, w, p, live);
    let d1 = CacheView { raw_kv: raw, n_raw: least(tokens, cap) as u32, ..d };
    assert(d1.wf());
    assert forall|pos: int| first <= pos < first + live implies #[trigger] d1.raw_row(pos)
        == c.raw_row(pos) by {
        let r = pos - first;
        lemma_restored_row(d.raw_kv, cap, first, w, p, live, r);
        lemma_raw_rows_at(c, first, live, r);
        lemma_part(w, p, whole, r * dim, (r + 1) * dim);
        assert(whole.subrange(r * dim, (r + 1) * dim) =~= raw_rows(c, first, live).subrange(
            r * dim,
            (r + 1) * dim,
        ));
    }
    if c.compress_ratio != 0 {
        let attn = comp_rows(c) + c.attn_state_kv + c.attn_state_score;
        let rest = if c.compress_ratio == 4 {
            attn + index_rows(c) + c.index_state_kv + c.index_state_score
        } else {
            attn
        };
        lemma_part(w, p, whole, live * dim, whole.len() as int);
        assert(whole.subrange(live * dim, whole.len() as int) =~= rest);
        lemma_attention_restored(w, p + live * dim, c, d1);
        let step = load_attention(w, p + live * dim, d1, c.n_comp, c.n_index_comp);
        assert forall|pos: int| first <= pos < first + live implies #[trigger] step.cache.raw_row(
            pos,
        ) == c.raw_row(pos) by {
            assert(d1.raw_row(pos) == c.raw_row(pos));
        }
    }
}

proof fn lemma_layers_prefix(caches: Seq<CacheView>, first: int, live: nat, k: nat, n: nat)
    requires
        k <= n,
    ensures
        layers_words(caches, first, live, k).is_prefix_of(layers_words(caches, first, live, n)),
    decreases n,
{
    if k < n {
        lemma_layers_prefix(caches, first, live, k, (n - 1) as nat);
        let a = layers_words(caches, first, live, k);
        let b = layers_words(caches, first, live, (n - 1) as nat);
        let c = layers_words(caches, first, live, n);
        assert(a =~= c.subrange(0, a.len() as int));
    } else {
        let c = layers_words(caches, first, live, n);
        assert(c =~= c.subrange(0, c.len() as int));
    }
}

#[verifier::spinoff_prover]
proof fn lemma_layers_restored(
    w: Seq<u32>,
    p: int,
    s: SessionView,
    caches: Seq<CacheView>,
    ctx: int,
    n: nat,
)
    requires
        s.wf(),
        caches_wf(caches, ctx),
        s.ctx <= ctx <= i32::MAX,
        n <= DS4_N_LAYER,
        0 <= p,
        ({
            let whole = layers_words(
                s.caches,
                raw_first(s.tokens.len() as int, raw_live(s)),
                raw_live(s) as nat,
                DS4_N_LAYER as nat,
            );
            w.len() == p + whole.len() && w.subrange(p, p + whole.len()) == whole
        }),
    ensures
        ({
            let first = raw_first(s.tokens.len() as int, raw_live(s));
            let live = raw_live(s) as nat;
            let step = load_layers(
                w,
                p,
                caches,
                s.tokens.len() as int,
                raw_live(s),
                comp_counts(s.caches),
                index_counts(s.caches),
                n,
            );
            &&& step.error is None
            &&& step.pos == p + layers_words(s.caches, first, live, n).len()
            &&& step.caches.len() == DS4_N_LAYER
            &&& forall|i: int|
                0 <= i < n ==> same_live(s.caches[i], #[trigger] step.caches[i], first, live as int)
            &&& forall|i: int| n <= i < DS4_N_LAYER ==> #[trigger] step.caches[i] == caches[i]
        }),
    decreases n,
{
    if n > 0 {
        let first = raw_first(s.tokens.len() as int, raw_live(s));
        let live = raw_live(s) as nat;
        let tokens = s.tokens.len() as int;
        lemma_layers_restored(w, p, s, caches, ctx, (n - 1) as nat);
        let prev = load_layers(
            w,
            p,
            caches,
            tokens,
            raw_live(s),
            comp_counts(s.caches),
            index_counts(s.caches),
            (n - 1) as nat,
        );
        let whole = layers_words(s.caches, first, live, DS4_N_LAYER as nat);
        let done = layers_words(s.caches, first, live, (n - 1) as nat);
        let more = layers_words(s.caches, first, live, n);
        let c = s.caches[n - 1];
        let d = prev.caches[n - 1];
        assert(c.wf() && d == caches[n - 1] && d.wf());
        lemma_layers_prefix(s.caches, first, live, n, DS4_N_LAYER as nat);
        let part = layer_words(c, first, live);
        let a = done.len() as int;
        let b = more.len() as int;
        lemma_part(w, p, whole, a, b);
        assert(whole.subrange(a, b) =~= more.subrange(a, b)) by {
            assert(more == whole.subrange(0, b));
        }
        assert(more.subrange(a, b) =~= part);
        lemma_layer_restored(w, p + a, c, d, tokens, live);
        lemma_layer_len(c, first, live);
    }
}

/// Loading a saved checkpoint gives it back.
///
/// The payload of a session, loaded whole into a session of the same or a larger context
/// that its tokens do not fill, is accepted, and the loaded session has the tokens, the
/// logits and all that is live in the caches of the saved one.
pub proof fn load_restores_saved(s: SessionView, t: SessionView)
    requires
        s.wf(),
        s.valid,
        t.wf(),
        s.ctx <= t.ctx,
        s.tokens.len() < t.ctx,
    ensures
        ({
            let (r, error) = load(words_of(payload(s)), t, payload(s).len() as int);
            &&& error is None
            &&& r.valid
            &&& r.tokens == s.tokens
            &&& r.logits == s.logits
            &&& r.caches.len() == s.caches.len()
            &&& forall|i: int|
                0 <= i < s.caches.len() ==> same_live(
                    s.caches[i],
                    #[trigger] r.caches[i],
                    raw_first(s.tokens.len() as int, raw_live(s)),
                    raw_live(s),
                )
        }),
{
    let w = payload_words(s);
    words_roundtrip(w);
    let h = header(s);
    let tw = token_words(s.tokens);
    let front = front_words(s);
    let tokens = s.tokens.len() as int;
    let layers = DS4_N_LAYER as int;
    let at_logits = 13 + tokens;
    let at_counts = at_logits + DS4_N_VOCAB;
    let at_layers = at_counts + 2 * layers;
    assert(h.len() == 13);
    assert(forall|i: int| 0 <= i < 13 ==> w[i] == h[i]);
    assert(header_error(w, t) is None);
    assert(w[7] == tokens && w[12] == raw_live(s));
    assert(w.subrange(at_logits, at_counts) =~= s.logits);
    assert(w.subrange(at_counts, at_counts + layers) =~= comp_counts(s.caches));
    assert(w.subrange(at_counts + layers, at_layers) =~= index_counts(s.caches));
    assert(tokens_at(w, 13, tokens) =~= s.tokens) by {
        assert forall|i: int| 0 <= i < tokens implies w[13 + i] as i32 == s.tokens[i] by {
            assert(w[13 + i] == s.tokens[i] as u32);
            let x = s.tokens[i];
            assert((x as u32) as i32 == x) by (bit_vector);
        }
    }
    let whole = layers_words(
        s.caches,
        raw_first(tokens, raw_live(s)),
        raw_live(s) as nat,
        DS4_N_LAYER as nat,
    );
    assert(w.subrange(at_layers, at_layers + whole.len()) =~= whole);
    lemma_layers_restored(w, at_layers, s, t.caches, t.ctx as int, DS4_N_LAYER as nat);
}

} // verus!

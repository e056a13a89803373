//! The key-value cache of the CPU path and the buffers of a decode step.
//!
//! Floating-point numbers are held as the bit patterns of singles.
use vstd::prelude::*;

use crate::types::{
    DS4_N_EMBD, DS4_N_EXPERT, DS4_N_EXPERT_USED, DS4_N_FF_EXP, DS4_N_HC, DS4_N_HEAD,
    DS4_N_HEAD_DIM, DS4_N_INDEXER_HEAD_DIM, DS4_N_LAYER, DS4_N_LORA_O, DS4_N_OUT_GROUP, DS4_N_SWA,
    DS4_N_VOCAB,
};
use crate::weights::{compress_ratio, layer_compress_ratio};

verus! {

/// The bit pattern of -1e30, which stands for minus infinity.
pub const DS4_NEG_INF: u32 = 0xf149_f2ca;

// ── Capacities ───────────────────────────────────────────────────────────

/// Raw ring capacity for a context of `ctx` tokens: the whole context up to two
/// windows, and two windows beyond.
pub open spec fn raw_cap(ctx: int) -> int {
    if ctx == 0 {
        DS4_N_SWA as int
    } else if ctx < 2 * DS4_N_SWA {
        ctx
    } else {
        2 * DS4_N_SWA
    }
}

/// Capacity for compressed rows: one for each four tokens, and two more.
pub open spec fn comp_cap(ctx: int) -> int {
    ctx / 4 + 2
}

/// Prefill capacity for a prompt of `len` tokens.
pub open spec fn prefill_cap(len: int) -> int {
    if len == 0 {
        1
    } else if len < 32 {
        32
    } else {
        len
    }
}

pub fn ds4_prefill_cap_for_prompt(prompt_len: u32) -> (r: u32)
    ensures
        r == prefill_cap(prompt_len as int),
{
    if prompt_len == 0 {
        1
    } else if prompt_len < 32 {
        32
    } else {
        prompt_len
    }
}

pub fn ds4_default_raw_cap(ctx_size: u32) -> (r: u32)
    ensures
        r == raw_cap(ctx_size as int),
{
    if ctx_size == 0 {
        return DS4_N_SWA;
    }
    let window: u32 = if DS4_N_SWA < ctx_size {
        DS4_N_SWA
    } else {
        ctx_size
    };
    if ctx_size <= window {
        return ctx_size;
    }
    let prefill: u32 = ds4_prefill_cap_for_prompt(ctx_size);
    let chunks: u32 = ctx_size / prefill;
    assert(chunks == 1) by (nonlinear_arith)
        requires
            prefill == ctx_size,
            ctx_size > 0,
            chunks == ctx_size / prefill,
    ;
    let cap: u32 = window + chunks * DS4_N_SWA;
    if cap > ctx_size {
        ctx_size
    } else {
        cap
    }
}

/// The smallest compression ratio that a layer has.
fn smallest_ratio() -> (r: u32)
    ensures
        r == 4,
{
    let mut least: u32 = u32::MAX;
    let mut il: u32 = 0;
    while il < DS4_N_LAYER
        invariant
            il <= DS4_N_LAYER,
            il <= 2 ==> least == u32::MAX,
            il > 2 ==> least == 4,
        decreases DS4_N_LAYER - il,
    {
        let ratio: u32 = layer_compress_ratio(il);
        if ratio != 0 && ratio < least {
            least = ratio;
        }
        il = il + 1;
    }
    least
}

pub fn ds4_default_comp_cap(ctx_size: u32) -> (r: u32)
    ensures
        r == comp_cap(ctx_size as int),
{
    ctx_size / smallest_ratio() + 2
}

// ── Cache of a layer ─────────────────────────────────────────────────────

/// Numbers in the attention compressor state of a layer.
pub open spec fn attn_state_len(ratio: int) -> int {
    if ratio == 4 {
        4 * DS4_N_HEAD_DIM * ratio
    } else {
        DS4_N_HEAD_DIM * ratio
    }
}

/// Numbers in the indexer compressor state of a layer.
pub open spec fn index_state_len(ratio: int) -> int {
    if ratio == 4 {
        4 * DS4_N_INDEXER_HEAD_DIM * ratio
    } else {
        DS4_N_INDEXER_HEAD_DIM * ratio
    }
}

/// The cache of one layer.
#[derive(Debug, Clone)]
pub struct LayerCache {
    /// Ring buffer of the raw rows: `cap_raw` rows of the head dimension.
    pub raw_kv: Vec<u32>,
    /// Raw rows stored.
    pub n_raw: u32,
    /// Rows of the ring.
    pub cap_raw: u32,
    /// Compression ratio: 0 dense, 4 with an indexer, 128 without.
    pub compress_ratio: u32,
    /// Rows allocated for compressed rows.
    pub comp_cap: u32,
    /// Attention-compressed rows stored.
    pub n_comp: u32,
    /// Attention-compressed rows.
    pub attn_comp_kv: Vec<u32>,
    /// Key-value state of the attention compressor.
    pub attn_state_kv: Vec<u32>,
    /// Score state of the attention compressor.
    pub attn_state_score: Vec<u32>,
    /// Indexer-compressed rows stored.
    pub n_index_comp: u32,
    /// Indexer-compressed rows.
    pub index_comp_kv: Vec<u32>,
    /// Key-value state of the indexer compressor.
    pub index_state_kv: Vec<u32>,
    /// Score state of the indexer compressor.
    pub index_state_score: Vec<u32>,
}

/// The mathematical form of `LayerCache`.
#[verifier::ext_equal]
pub struct CacheView {
    pub raw_kv: Seq<u32>,
    pub n_raw: u32,
    pub cap_raw: u32,
    pub compress_ratio: u32,
    pub comp_cap: u32,
    pub n_comp: u32,
    pub attn_comp_kv: Seq<u32>,
    pub attn_state_kv: Seq<u32>,
    pub attn_state_score: Seq<u32>,
    pub n_index_comp: u32,
    pub index_comp_kv: Seq<u32>,
    pub index_state_kv: Seq<u32>,
    pub index_state_score: Seq<u32>,
}

impl View for LayerCache {
    type V = CacheView;

    open spec fn view(&self) -> CacheView {
        CacheView {
            raw_kv: self.raw_kv@,
            n_raw: self.n_raw,
            cap_raw: self.cap_raw,
            compress_ratio: self.compress_ratio,
            comp_cap: self.comp_cap,
            n_comp: self.n_comp,
            attn_comp_kv: self.attn_comp_kv@,
            attn_state_kv: self.attn_state_kv@,
            attn_state_score: self.attn_state_score@,
            n_index_comp: self.n_index_comp,
            index_comp_kv: self.index_comp_kv@,
            index_state_kv: self.index_state_kv@,
            index_state_score: self.index_state_score@,
        }
    }
}

/// `n` times the number `v`.
pub open spec fn filled(v: u32, n: int) -> Seq<u32> {
    Seq::new(n as nat, |i: int| v)
}

/// An empty layer cache.
pub open spec fn empty_cache(ratio: u32, cap_raw: u32, comp_cap: u32) -> CacheView {
    let compressed = ratio != 0;
    let indexed = ratio == 4;
    CacheView {
        raw_kv: filled(0, cap_raw * DS4_N_HEAD_DIM),
        n_raw: 0,
        cap_raw,
        compress_ratio: ratio,
        comp_cap,
        n_comp: 0,
        attn_comp_kv: filled(0, if compressed { comp_cap * DS4_N_HEAD_DIM } else { 0 }),
        attn_state_kv: filled(0, if compressed { attn_state_len(ratio as int) } else { 0 }),
        attn_state_score: filled(
            DS4_NEG_INF,
            if compressed { attn_state_len(ratio as int) } else { 0 },
        ),
        n_index_comp: 0,
        index_comp_kv: filled(0, if indexed { comp_cap * DS4_N_INDEXER_HEAD_DIM } else { 0 }),
        index_state_kv: filled(0, if indexed { index_state_len(ratio as int) } else { 0 }),
        index_state_score: filled(
            DS4_NEG_INF,
            if indexed { index_state_len(ratio as int) } else { 0 },
        ),
    }
}

impl CacheView {
    /// The buffers have the sizes that the ratio and the capacities call for, and the
    /// row counts are within the capacity; a layer without compressed rows counts none.
    pub open spec fn wf(self) -> bool {
        &&& self.cap_raw > 0
        &&& self.raw_kv.len() == self.cap_raw * DS4_N_HEAD_DIM
        &&& self.n_comp <= self.comp_cap
        &&& self.n_index_comp <= self.comp_cap
        &&& self.compress_ratio == 0 ==> self.n_comp == 0
        &&& self.compress_ratio != 4 ==> self.n_index_comp == 0
        &&& self.compress_ratio != 0 ==> {
            &&& self.attn_comp_kv.len() == self.comp_cap * DS4_N_HEAD_DIM
            &&& self.attn_state_kv.len() == attn_state_len(self.compress_ratio as int)
            &&& self.attn_state_score.len() == attn_state_len(self.compress_ratio as int)
        }
        &&& self.compress_ratio == 4 ==> {
            &&& self.index_comp_kv.len() == self.comp_cap * DS4_N_INDEXER_HEAD_DIM
            &&& self.index_state_kv.len() == index_state_len(4)
            &&& self.index_state_score.len() == index_state_len(4)
        }
    }

    /// The raw row of token position `pos`.
    pub open spec fn raw_row(self, pos: int) -> Seq<u32> {
        let at = (pos % self.cap_raw as int) * DS4_N_HEAD_DIM;
        self.raw_kv.subrange(at, at + DS4_N_HEAD_DIM)
    }
}

fn fill(v: u32, n: usize) -> (r: Vec<u32>)
    ensures
        r@ == filled(v, n as int),
{
    let r: Vec<u32> = vec![v; n];
    assert(r@ =~= filled(v, n as int));
    r
}

impl LayerCache {
    /// Bytes of the attention compressor state.
    pub fn attn_state_bytes(ratio: u32) -> (r: u64)
        ensures
            r == attn_state_len(ratio as int) * 4,
    {
        if ratio == 4 {
            4 * (DS4_N_HEAD_DIM as u64) * 4 * 4
        } else {
            let dim: u64 = DS4_N_HEAD_DIM as u64;
            let ratio: u64 = ratio as u64;
            assert(dim * ratio <= 512 * 0xffff_ffff) by (nonlinear_arith)
                requires
                    dim <= 512,
                    ratio <= 0xffff_ffff,
            ;
            dim * ratio * 4
        }
    }

    /// Bytes of the indexer compressor state.
    pub fn index_state_bytes(ratio: u32) -> (r: u64)
        ensures
            r == index_state_len(ratio as int) * 4,
    {
        if ratio == 4 {
            4 * (DS4_N_INDEXER_HEAD_DIM as u64) * 4 * 4
        } else {
            let dim: u64 = DS4_N_INDEXER_HEAD_DIM as u64;
            let ratio: u64 = ratio as u64;
            assert(dim * ratio <= 512 * 0xffff_ffff) by (nonlinear_arith)
                requires
                    dim <= 512,
                    ratio <= 0xffff_ffff,
            ;
            dim * ratio * 4
        }
    }

    /// An empty cache for a compression ratio and capacities.
    pub fn new(compress_ratio: u32, cap_raw: u32, comp_cap: u32) -> (r: Self)
        requires
            cap_raw * DS4_N_HEAD_DIM <= usize::MAX,
            comp_cap * DS4_N_HEAD_DIM <= usize::MAX,
            attn_state_len(compress_ratio as int) * 4 <= usize::MAX,
        ensures
            r@ == empty_cache(compress_ratio, cap_raw, comp_cap),
    {
        let mut cache = LayerCache {
            raw_kv: fill(0, cap_raw as usize * DS4_N_HEAD_DIM as usize),
            n_raw: 0,
            cap_raw,
            compress_ratio,
            comp_cap,
            n_comp: 0,
            attn_comp_kv: Vec::new(),
            attn_state_kv: Vec::new(),
            attn_state_score: Vec::new(),
            n_index_comp: 0,
            index_comp_kv: Vec::new(),
            index_state_kv: Vec::new(),
            index_state_score: Vec::new(),
        };
        if compress_ratio != 0 {
            let len: usize = Self::attn_state_bytes(compress_ratio) as usize / 4;
            cache.attn_comp_kv = fill(0, comp_cap as usize * DS4_N_HEAD_DIM as usize);
            cache.attn_state_kv = fill(0, len);
            cache.attn_state_score = fill(DS4_NEG_INF, len);
            if compress_ratio == 4 {
                let len: usize = Self::index_state_bytes(compress_ratio) as usize / 4;
                cache.index_comp_kv = fill(0, comp_cap as usize * DS4_N_INDEXER_HEAD_DIM as usize);
                cache.index_state_kv = fill(0, len);
                cache.index_state_score = fill(DS4_NEG_INF, len);
            }
        }
        proof {
            assert(cache@ =~= empty_cache(compress_ratio, cap_raw, comp_cap));
        }
        cache
    }
}

// ── Cache of all layers ──────────────────────────────────────────────────

/// The cache of all layers.
#[derive(Debug, Clone)]
pub struct KvCache {
    pub layers: Vec<LayerCache>,
    pub head_dim: u32,
}

/// The views of layer caches.
pub open spec fn cache_views(s: Seq<LayerCache>) -> Seq<CacheView> {
    Seq::new(s.len(), |i: int| s[i]@)
}

/// The empty cache for a context of `ctx` tokens.
pub open spec fn empty_caches(ctx: int) -> Seq<CacheView> {
    Seq::new(
        DS4_N_LAYER as nat,
        |il: int| empty_cache(compress_ratio(il), raw_cap(ctx) as u32, comp_cap(ctx) as u32),
    )
}

/// The caches are those of the layers of the model, with the capacities that a context
/// of `ctx` tokens has.
pub open spec fn caches_wf(s: Seq<CacheView>, ctx: int) -> bool {
    &&& s.len() == DS4_N_LAYER
    &&& forall|il: int|
        0 <= il < s.len() ==> {
            &&& (#[trigger] s[il]).wf()
            &&& s[il].compress_ratio == compress_ratio(il)
            &&& s[il].cap_raw == raw_cap(ctx)
            &&& s[il].comp_cap == comp_cap(ctx)
        }
}

/// Bytes of the buffers of the first `n` layers.
pub open spec fn caches_bytes(s: Seq<CacheView>, n: nat) -> int
    decreases n,
{
    if n == 0 {
        0
    } else {
        let c = s[n - 1];
        caches_bytes(s, (n - 1) as nat) + 4 * (c.raw_kv.len() + c.attn_comp_kv.len()
            + c.attn_state_kv.len() + c.attn_state_score.len() + c.index_comp_kv.len()
            + c.index_state_kv.len() + c.index_state_score.len())
    }
}

proof fn lemma_caches_bytes(s: Seq<CacheView>, k: nat, n: nat)
    requires
        k <= n,
    ensures
        0 <= caches_bytes(s, k) <= caches_bytes(s, n),
    decreases n,
{
    if n > 0 {
        if k < n {
            lemma_caches_bytes(s, k, (n - 1) as nat);
        } else {
            lemma_caches_bytes(s, (n - 1) as nat, (n - 1) as nat);
        }
    }
}

impl KvCache {
    /// An empty cache for a context of `ctx_size` tokens.
    pub fn new(ctx_size: u32) -> (r: Self)
        requires
            comp_cap(ctx_size as int) * DS4_N_HEAD_DIM <= usize::MAX,
        ensures
            cache_views(r.layers@) == empty_caches(ctx_size as int),
            r.head_dim == DS4_N_HEAD_DIM,
    {
        let cap_raw: u32 = ds4_default_raw_cap(ctx_size);
        let cap_comp: u32 = ds4_default_comp_cap(ctx_size);
        let mut layers: Vec<LayerCache> = Vec::new();
        let mut il: u32 = 0;
        while il < DS4_N_LAYER
            invariant
                il <= DS4_N_LAYER,
                layers@.len() == il,
                cap_raw == raw_cap(ctx_size as int),
                cap_comp == comp_cap(ctx_size as int),
                cap_comp * DS4_N_HEAD_DIM <= usize::MAX,
                forall|i: int|
                    0 <= i < il ==> (#[trigger] layers@[i])@ == empty_cache(
                        compress_ratio(i),
                        cap_raw,
                        cap_comp,
                    ),
            decreases DS4_N_LAYER - il,
        {
            let ratio: u32 = layer_compress_ratio(il);
            layers.push(LayerCache::new(ratio, cap_raw, cap_comp));
            il = il + 1;
        }
        assert(cache_views(layers@) =~= empty_caches(ctx_size as int));
        KvCache { layers, head_dim: DS4_N_HEAD_DIM }
    }

    /// The memory that the buffers take.
    pub fn memory_bytes(&self) -> (r: u64)
        requires
            caches_bytes(cache_views(self.layers@), self.layers@.len()) <= u64::MAX,
        ensures
            r == caches_bytes(cache_views(self.layers@), self.layers@.len()),
    {
        let ghost views = cache_views(self.layers@);
        let mut total: u64 = 0;
        let mut i: usize = 0;
        while i < self.layers.len()
            invariant
                i <= self.layers@.len(),
                views == cache_views(self.layers@),
                caches_bytes(views, self.layers@.len()) <= u64::MAX,
                total == caches_bytes(views, i as nat),
            decreases self.layers@.len() - i,
        {
            let layer = &self.layers[i];
            proof {
                lemma_caches_bytes(views, (i + 1) as nat, self.layers@.len());
                lemma_caches_bytes(views, i as nat, i as nat);
                assert(views[i as int] == layer@);
            }
            total = total + layer.raw_kv.len() as u64 * 4;
            total = total + layer.attn_comp_kv.len() as u64 * 4;
            total = total + layer.attn_state_kv.len() as u64 * 4;
            total = total + layer.attn_state_score.len() as u64 * 4;
            total = total + layer.index_comp_kv.len() as u64 * 4;
            total = total + layer.index_state_kv.len() as u64 * 4;
            total = total + layer.index_state_score.len() as u64 * 4;
            i = i + 1;
        }
        total
    }
}

/// An empty cache is one of the context it was made for.
pub proof fn empty_caches_wf(ctx: int)
    requires
        0 < ctx <= i32::MAX,
    ensures
        caches_wf(empty_caches(ctx), ctx),
{
    assert forall|il: int| 0 <= il < DS4_N_LAYER implies {
        let c = #[trigger] empty_caches(ctx)[il];
        c.wf() && c.compress_ratio == compress_ratio(il) && c.cap_raw == raw_cap(ctx)
            && c.comp_cap == comp_cap(ctx)
    } by {
        let c = empty_caches(ctx)[il];
        assert(c == empty_cache(compress_ratio(il), raw_cap(ctx) as u32, comp_cap(ctx) as u32));
    }
}

// ── Decode buffers ───────────────────────────────────────────────────────

/// Buffers of one decode step, in the fixed shapes of the model.
#[derive(Debug)]
pub struct DecodeScratch {
    /// Hidden state.
    pub hc: Vec<u32>,
    /// Attention input.
    pub attn_cur: Vec<u32>,
    /// Attention norm output.
    pub attn_norm: Vec<u32>,
    /// Query projection.
    pub q: Vec<u32>,
    /// Key-value projection.
    pub kv: Vec<u32>,
    /// Attention heads output.
    pub heads: Vec<u32>,
    /// Attention low-rank output.
    pub attn_low: Vec<u32>,
    /// Attention output.
    pub attn_out: Vec<u32>,
    /// Hidden state after attention.
    pub after_attn_hc: Vec<u32>,
    /// Feed-forward input.
    pub ffn_cur: Vec<u32>,
    /// Feed-forward norm.
    pub ffn_norm: Vec<u32>,
    /// Shared gate.
    pub shared_gate: Vec<u32>,
    /// Shared up.
    pub shared_up: Vec<u32>,
    /// Shared mid.
    pub shared_mid: Vec<u32>,
    /// Shared output.
    pub shared_out: Vec<u32>,
    /// Router logits.
    pub router_logits: Vec<u32>,
    /// Router probabilities.
    pub router_probs: Vec<u32>,
    /// Selected experts.
    pub router_selected: Vec<i32>,
    /// Expert weights.
    pub router_weights: Vec<u32>,
    /// Routed gate.
    pub routed_gate: Vec<u32>,
    /// Routed up.
    pub routed_up: Vec<u32>,
    /// Routed mid.
    pub routed_mid: Vec<u32>,
    /// Routed down.
    pub routed_down: Vec<u32>,
    /// Routed output.
    pub routed_out: Vec<u32>,
    /// Hidden state after feed-forward.
    pub after_ffn_hc: Vec<u32>,
    /// Output pre-weights.
    pub output_pre: Vec<u32>,
    /// Output weights.
    pub output_weights: Vec<u32>,
    /// Output embedding.
    pub output_embd: Vec<u32>,
    /// Logits.
    pub logits: Vec<u32>,
}

/// The mathematical form of the buffers.
#[verifier::ext_equal]
pub struct ScratchView {
    pub hc: Seq<u32>,
    pub attn_cur: Seq<u32>,
    pub attn_norm: Seq<u32>,
    pub q: Seq<u32>,
    pub kv: Seq<u32>,
    pub heads: Seq<u32>,
    pub attn_low: Seq<u32>,
    pub attn_out: Seq<u32>,
    pub after_attn_hc: Seq<u32>,
    pub ffn_cur: Seq<u32>,
    pub ffn_norm: Seq<u32>,
    pub shared_gate: Seq<u32>,
    pub shared_up: Seq<u32>,
    pub shared_mid: Seq<u32>,
    pub shared_out: Seq<u32>,
    pub router_logits: Seq<u32>,
    pub router_probs: Seq<u32>,
    pub router_selected: Seq<i32>,
    pub router_weights: Seq<u32>,
    pub routed_gate: Seq<u32>,
    pub routed_up: Seq<u32>,
    pub routed_mid: Seq<u32>,
    pub routed_down: Seq<u32>,
    pub routed_out: Seq<u32>,
    pub after_ffn_hc: Seq<u32>,
    pub output_pre: Seq<u32>,
    pub output_weights: Seq<u32>,
    pub output_embd: Seq<u32>,
    pub logits: Seq<u32>,
}

impl View for DecodeScratch {
    type V = ScratchView;

    open spec fn view(&self) -> ScratchView {
        ScratchView {
            hc: self.hc@,
            attn_cur: self.attn_cur@,
            attn_norm: self.attn_norm@,
            q: self.q@,
            kv: self.kv@,
            heads: self.heads@,
            attn_low: self.attn_low@,
            attn_out: self.attn_out@,
            after_attn_hc: self.after_attn_hc@,
            ffn_cur: self.ffn_cur@,
            ffn_norm: self.ffn_norm@,
            shared_gate: self.shared_gate@,
            shared_up: self.shared_up@,
            shared_mid: self.shared_mid@,
            shared_out: self.shared_out@,
            router_logits: self.router_logits@,
            router_probs: self.router_probs@,
            router_selected: self.router_selected@,
            router_weights: self.router_weights@,
            routed_gate: self.routed_gate@,
            routed_up: self.routed_up@,
            routed_mid: self.routed_mid@,
            routed_down: self.routed_down@,
            routed_out: self.routed_out@,
            after_ffn_hc: self.after_ffn_hc@,
            output_pre: self.output_pre@,
            output_weights: self.output_weights@,
            output_embd: self.output_embd@,
            logits: self.logits@,
        }
    }
}

/// Buffers of the fixed shapes, all zero.
pub open spec fn zero_scratch() -> ScratchView {
    ScratchView {
        hc: filled(0, DS4_N_HC * DS4_N_EMBD),
        attn_cur: filled(0, DS4_N_EMBD as int),
        attn_norm: filled(0, DS4_N_EMBD as int),
        q: filled(0, DS4_N_HEAD * DS4_N_HEAD_DIM),
        kv: filled(0, DS4_N_HEAD_DIM as int),
        heads: filled(0, DS4_N_HEAD * DS4_N_HEAD_DIM),
        attn_low: filled(0, DS4_N_OUT_GROUP * DS4_N_LORA_O),
        attn_out: filled(0, DS4_N_EMBD as int),
        after_attn_hc: filled(0, DS4_N_HC * DS4_N_EMBD),
        ffn_cur: filled(0, DS4_N_EMBD as int),
        ffn_norm: filled(0, DS4_N_EMBD as int),
        shared_gate: filled(0, DS4_N_FF_EXP as int),
        shared_up: filled(0, DS4_N_FF_EXP as int),
        shared_mid: filled(0, DS4_N_FF_EXP as int),
        shared_out: filled(0, DS4_N_EMBD as int),
        router_logits: filled(0, DS4_N_EXPERT as int),
        router_probs: filled(0, DS4_N_EXPERT as int),
        router_selected: Seq::new(DS4_N_EXPERT_USED as nat, |i: int| 0i32),
        router_weights: filled(0, DS4_N_EXPERT_USED as int),
        routed_gate: filled(0, DS4_N_EXPERT_USED * DS4_N_FF_EXP),
        routed_up: filled(0, DS4_N_EXPERT_USED * DS4_N_FF_EXP),
        routed_mid: filled(0, DS4_N_EXPERT_USED * DS4_N_FF_EXP),
        routed_down: filled(0, DS4_N_EXPERT_USED * DS4_N_EMBD),
        routed_out: filled(0, DS4_N_EMBD as int),
        after_ffn_hc: filled(0, DS4_N_HC * DS4_N_EMBD),
        output_pre: filled(0, DS4_N_HC as int),
        output_weights: filled(0, DS4_N_HC as int),
        output_embd: filled(0, DS4_N_EMBD as int),
        logits: filled(0, DS4_N_VOCAB as int),
    }
}

impl DecodeScratch {
    /// Buffers of the fixed shapes, all zero.
    pub fn new() -> (r: Self)
        ensures
            r@ == zero_scratch(),
    {
        assert(DS4_N_HC * DS4_N_EMBD == 16384);
        let router_selected: Vec<i32> = vec![0i32; DS4_N_EXPERT_USED as usize];
        assert(router_selected@ =~= Seq::new(DS4_N_EXPERT_USED as nat, |i: int| 0i32));
        DecodeScratch {
            hc: fill(0, DS4_N_HC as usize * DS4_N_EMBD as usize),
            attn_cur: fill(0, DS4_N_EMBD as usize),
            attn_norm: fill(0, DS4_N_EMBD as usize),
            q: fill(0, DS4_N_HEAD as usize * DS4_N_HEAD_DIM as usize),
            kv: fill(0, DS4_N_HEAD_DIM as usize),
            heads: fill(0, DS4_N_HEAD as usize * DS4_N_HEAD_DIM as usize),
            attn_low: fill(0, DS4_N_OUT_GROUP as usize * DS4_N_LORA_O as usize),
            attn_out: fill(0, DS4_N_EMBD as usize),
            after_attn_hc: fill(0, DS4_N_HC as usize * DS4_N_EMBD as usize),
            ffn_cur: fill(0, DS4_N_EMBD as usize),
            ffn_norm: fill(0, DS4_N_EMBD as usize),
            shared_gate: fill(0, DS4_N_FF_EXP as usize),
            shared_up: fill(0, DS4_N_FF_EXP as usize),
            shared_mid: fill(0, DS4_N_FF_EXP as usize),
            shared_out: fill(0, DS4_N_EMBD as usize),
            router_logits: fill(0, DS4_N_EXPERT as usize),
            router_probs: fill(0, DS4_N_EXPERT as usize),
            router_selected,
            router_weights: fill(0, DS4_N_EXPERT_USED as usize),
            routed_gate: fill(0, DS4_N_EXPERT_USED as usize * DS4_N_FF_EXP as usize),
            routed_up: fill(0, DS4_N_EXPERT_USED as usize * DS4_N_FF_EXP as usize),
            routed_mid: fill(0, DS4_N_EXPERT_USED as usize * DS4_N_FF_EXP as usize),
            routed_down: fill(0, DS4_N_EXPERT_USED as usize * DS4_N_EMBD as usize),
            routed_out: fill(0, DS4_N_EMBD as usize),
            after_ffn_hc: fill(0, DS4_N_HC as usize * DS4_N_EMBD as usize),
            output_pre: fill(0, DS4_N_HC as usize),
            output_weights: fill(0, DS4_N_HC as usize),
            output_embd: fill(0, DS4_N_EMBD as usize),
            logits: fill(0, DS4_N_VOCAB as usize),
        }
    }
}

impl Default for DecodeScratch {
    fn default() -> (r: Self)
        ensures
            r@ == zero_scratch(),
    {
        DecodeScratch::new()
    }
}

} // verus!

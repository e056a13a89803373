//! The tensors of the Metal graph: which ones a session needs and how large they are.
//!
//! `MetalGraph` is the allocation plan. Each tensor is given by its size in bytes, and
//! `None` stands for one that is not allocated; the tensors themselves belong to whoever
//! drives the device.
use vstd::prelude::*;

use crate::cache::{comp_cap, ds4_default_comp_cap};
use crate::text::{append, dec_i64, dec_int};
use crate::types::{DS4_N_INDEXER_TOP_K, DS4_N_LAYER, DS4_N_LORA_O, DS4_N_SWA};
use crate::weights::{
    EMBD, EXPERT, EXPERT_USED, FF_EXP, HC, HC_DIM, HC_MIX_DIM, HEAD_DIM, INDEX_HEAD, INDEX_Q_DIM,
    LORA_Q, OUT_A_DIM, OUT_LOW_DIM, Q_DIM, VOCAB,
};

verus! {

pub const LORA_O: u64 = DS4_N_LORA_O as u64;

pub const TOP_K: u64 = DS4_N_INDEXER_TOP_K as u64;

/// Width of the widest compressor.
pub const COMP_WIDTH: u64 = 2 * HEAD_DIM;

/// An error of the Metal runtime.
#[derive(Debug, Clone, Copy, PartialEq, Eq)]
pub enum MetalError {
    /// A call returned a code that is not zero.
    Code(i32),
    /// The runtime could not be initialised.
    InitFailed,
    /// The named call returned no pointer.
    NullPointer(&'static str),
    /// A resource was freed before.
    AlreadyFreed,
    /// There is no Metal on this platform.
    Unavailable,
}

impl MetalError {
    /// The text of the error.
    pub open spec fn text(self) -> Seq<char> {
        match self {
            MetalError::Code(c) => "Metal FFI returned error code "@ + dec_int(c as int),
            MetalError::InitFailed => "Metal initialisation failed"@,
            MetalError::NullPointer(what) => "null pointer returned for "@ + what@,
            MetalError::AlreadyFreed => "Metal resource already freed"@,
            MetalError::Unavailable => "Metal backend not available on this platform"@,
        }
    }

    pub fn message(&self) -> (r: String)
        ensures
            r@ == self.text(),
    {
        match self {
            MetalError::Code(c) => {
                let mut s = String::from_str("Metal FFI returned error code ");
                let n = dec_i64(*c as i64);
                append(&mut s, n.as_str());
                s
            },
            MetalError::InitFailed => String::from_str("Metal initialisation failed"),
            MetalError::NullPointer(what) => {
                let mut s = String::from_str("null pointer returned for ");
                append(&mut s, what);
                s
            },
            MetalError::AlreadyFreed => String::from_str("Metal resource already freed"),
            MetalError::Unavailable => String::from_str(
                "Metal backend not available on this platform",
            ),
        }
    }
}

/// A tensor of the device. It holds nothing itself: the device is reached through
/// pointers to it, and none can be made here.
#[allow(non_camel_case_types)]
pub struct ds4_metal_tensor {
    _opaque: (),
}

/// The result of a call that returned `code`: zero is success.
pub fn ck(code: i32) -> (r: Result<(), MetalError>)
    ensures
        match r {
            Ok(_) => code == 0,
            Err(e) => code != 0 && e == MetalError::Code(code),
        },
{
    if code == 0 {
        Ok(())
    } else {
        Err(MetalError::Code(code))
    }
}

/// Whether the Metal runtime is initialised.
#[derive(Debug, Clone, Copy, PartialEq, Eq, Structural)]
pub struct MetalRuntime {
    pub initialized: bool,
}

impl MetalRuntime {
    /// A runtime that is not initialised.
    pub fn new() -> (r: Self)
        ensures
            !r.initialized,
    {
        MetalRuntime { initialized: false }
    }

    pub fn is_initialized(&self) -> (r: bool)
        ensures
            r == self.initialized,
    {
        self.initialized
    }

    /// Takes in what the device's initialisation returned; zero is failure.
    pub fn init_returned(&mut self, code: i32) -> (r: Result<(), MetalError>)
        ensures
            match r {
                Ok(_) => code != 0 && final(self).initialized,
                Err(e) => code == 0 && e == MetalError::InitFailed && *final(self) == *old(self),
            },
    {
        if code == 0 {
            Err(MetalError::InitFailed)
        } else {
            self.initialized = true;
            Ok(())
        }
    }

    /// Marks the runtime as torn down, and says whether the device is to be told.
    pub fn cleanup(&mut self) -> (r: bool)
        ensures
            r == old(self).initialized,
            !final(self).initialized,
    {
        let was = self.initialized;
        self.initialized = false;
        was
    }
}

// ── Capacities ───────────────────────────────────────────────────────────

pub open spec fn min2(a: int, b: int) -> int {
    if a < b {
        a
    } else {
        b
    }
}

pub open spec fn max2(a: int, b: int) -> int {
    if a < b {
        b
    } else {
        a
    }
}

/// Chunks of `prefill_cap` tokens in a context, at least one.
pub open spec fn chunks(ctx: int, prefill_cap: int) -> int {
    max2(ctx / prefill_cap, 1)
}

/// Raw ring capacity of the graph: the window, one more for each chunk behind the
/// first, and no more than the context.
pub open spec fn graph_raw_cap(ctx: int, prefill_cap: int) -> int {
    if ctx == 0 {
        1
    } else if ctx <= DS4_N_SWA {
        ctx
    } else {
        min2(DS4_N_SWA + (chunks(ctx, prefill_cap) - 1) * DS4_N_SWA, ctx)
    }
}

/// Raw ring capacity of the graph for a context and a prefill capacity.
pub fn metal_graph_raw_cap_for_context(ctx_size: u32, prefill_cap: u32) -> (r: u32)
    requires
        ctx_size > DS4_N_SWA ==> prefill_cap > 0 && chunks(ctx_size as int, prefill_cap as int)
            * DS4_N_SWA <= u32::MAX,
    ensures
        r == graph_raw_cap(ctx_size as int, prefill_cap as int),
{
    if ctx_size == 0 {
        return 1;
    }
    if ctx_size <= DS4_N_SWA {
        return ctx_size;
    }
    let whole: u32 = ctx_size / prefill_cap;
    let extra: u32 = if whole > 1 {
        whole - 1
    } else {
        0
    };
    let cap: u32 = DS4_N_SWA + extra * DS4_N_SWA;
    if cap > ctx_size {
        ctx_size
    } else {
        cap
    }
}

// ── The graph ────────────────────────────────────────────────────────────

/// The tensors of a graph, each by its size in bytes.
#[derive(Debug)]
pub struct MetalGraph {
    pub cur_hc: Option<u64>,
    pub flat_hc: Option<u64>,
    pub hc_mix: Option<u64>,
    pub hc_split: Option<u64>,
    pub hc_pre: Option<u64>,
    pub hc_post: Option<u64>,
    pub hc_comb: Option<u64>,
    pub attn_cur: Option<u64>,
    pub attn_norm: Option<u64>,
    pub qr: Option<u64>,
    pub qr_norm: Option<u64>,
    pub q: Option<u64>,
    pub kv_raw: Option<u64>,
    pub kv: Option<u64>,
    pub layer_raw_cache: Vec<Option<u64>>,
    pub layer_attn_comp_cache: Vec<Option<u64>>,
    pub layer_attn_state_kv: Vec<Option<u64>>,
    pub layer_attn_state_score: Vec<Option<u64>>,
    pub layer_index_comp_cache: Vec<Option<u64>>,
    pub layer_index_state_kv: Vec<Option<u64>>,
    pub layer_index_state_score: Vec<Option<u64>>,
    pub spec_attn_state_kv: Vec<Option<u64>>,
    pub spec_attn_state_score: Vec<Option<u64>>,
    pub spec_index_state_kv: Vec<Option<u64>>,
    pub spec_index_state_score: Vec<Option<u64>>,
    pub spec_prefix1_attn_state_kv: Vec<Option<u64>>,
    pub spec_prefix1_attn_state_score: Vec<Option<u64>>,
    pub spec_prefix1_index_state_kv: Vec<Option<u64>>,
    pub spec_prefix1_index_state_score: Vec<Option<u64>>,
    pub spec_logits: Option<u64>,
    pub layer_n_comp: Vec<u32>,
    pub layer_n_index_comp: Vec<u32>,
    pub spec_prefix1_n_comp: Vec<u32>,
    pub spec_prefix1_n_index_comp: Vec<u32>,
    pub spec_capture_prefix1: bool,
    pub raw_cap: u32,
    pub comp_cap: u32,
    pub comp_kv_cur: Option<u64>,
    pub comp_sc_cur: Option<u64>,
    pub indexer_q: Option<u64>,
    pub indexer_weights: Option<u64>,
    pub indexer_scores: Option<u64>,
    pub comp_mask: Option<u64>,
    pub comp_selected: Option<u64>,
    pub heads: Option<u64>,
    pub attn_low: Option<u64>,
    pub attn_out: Option<u64>,
    pub after_attn_hc: Option<u64>,
    pub ffn_cur: Option<u64>,
    pub ffn_norm: Option<u64>,
    pub shared_gate: Option<u64>,
    pub shared_up: Option<u64>,
    pub shared_mid: Option<u64>,
    pub shared_out: Option<u64>,
    pub router_logits: Option<u64>,
    pub router_probs: Option<u64>,
    pub router_selected: Option<u64>,
    pub router_weights: Option<u64>,
    pub routed_gate: Option<u64>,
    pub routed_up: Option<u64>,
    pub routed_mid: Option<u64>,
    pub routed_down: Option<u64>,
    pub routed_out: Option<u64>,
    pub ffn_out: Option<u64>,
    pub after_ffn_hc: Option<u64>,
    pub output_pre: Option<u64>,
    pub output_weights: Option<u64>,
    pub output_embd: Option<u64>,
    pub output_norm: Option<u64>,
    pub logits: Option<u64>,
    pub mtp_embed: Option<u64>,
    pub mtp_enorm: Option<u64>,
    pub mtp_eproj: Option<u64>,
    pub mtp_eproj_hc: Option<u64>,
    pub mtp_hnorm_hc: Option<u64>,
    pub mtp_hproj_hc: Option<u64>,
    pub mtp_input_hc: Option<u64>,
    pub mtp_state_hc: Option<u64>,
    pub mtp_next_hc: Option<u64>,
    pub mtp_raw_cache: Option<u64>,
    pub mtp_n_raw: u32,
    pub prefill_cap: u32,
    pub raw_window: u32,
    pub prefill_tokens: Option<u64>,
    pub batch_cur_hc: Option<u64>,
    pub batch_next_hc: Option<u64>,
    pub batch_flat_hc: Option<u64>,
    pub batch_hc_mix: Option<u64>,
    pub batch_hc_split: Option<u64>,
    pub batch_attn_cur: Option<u64>,
    pub batch_attn_norm: Option<u64>,
    pub batch_qr: Option<u64>,
    pub batch_qr_norm: Option<u64>,
    pub batch_q: Option<u64>,
    pub batch_kv_raw: Option<u64>,
    pub batch_kv: Option<u64>,
    pub batch_comp_kv: Option<u64>,
    pub batch_comp_sc: Option<u64>,
    pub batch_indexer_q: Option<u64>,
    pub batch_indexer_weights: Option<u64>,
    pub batch_heads: Option<u64>,
    pub batch_attn_low: Option<u64>,
    pub batch_attn_out: Option<u64>,
    pub batch_group_tmp: Option<u64>,
    pub batch_low_tmp: Option<u64>,
    pub batch_after_attn_hc: Option<u64>,
    pub batch_ffn_cur: Option<u64>,
    pub batch_ffn_norm: Option<u64>,
    pub batch_shared_gate: Option<u64>,
    pub batch_shared_up: Option<u64>,
    pub batch_shared_mid: Option<u64>,
    pub batch_shared_out: Option<u64>,
    pub batch_router_logits: Option<u64>,
    pub batch_router_probs: Option<u64>,
    pub batch_router_selected: Option<u64>,
    pub batch_router_weights: Option<u64>,
    pub batch_routed_gate: Option<u64>,
    pub batch_routed_up: Option<u64>,
    pub batch_routed_mid: Option<u64>,
    pub batch_routed_down: Option<u64>,
    pub batch_routed_out: Option<u64>,
    pub batch_ffn_out: Option<u64>,
    pub materialize_ffn_out: bool,
    pub quality: bool,
    pub mtp_enabled: bool,
}

/// One entry for each layer.
fn per_layer(v: Option<u64>) -> (r: Vec<Option<u64>>)
    ensures
        r@ == Seq::new(DS4_N_LAYER as nat, |i: int| v),
{
    let mut r: Vec<Option<u64>> = Vec::new();
    let mut i: u32 = 0;
    while i < DS4_N_LAYER
        invariant
            i <= DS4_N_LAYER,
            r@ == Seq::new(i as nat, |k: int| v),
        decreases DS4_N_LAYER - i,
    {
        r.push(v);
        i = i + 1;
        assert(r@ =~= Seq::new(i as nat, |k: int| v));
    }
    r
}

fn zero_per_layer() -> (r: Vec<u32>)
    ensures
        r@ == Seq::new(DS4_N_LAYER as nat, |i: int| 0u32),
{
    let r: Vec<u32> = vec![0u32; DS4_N_LAYER as usize];
    assert(r@ =~= Seq::new(DS4_N_LAYER as nat, |i: int| 0u32));
    r
}

/// The context that a graph is made for: a zero stands for the raw capacity.
pub open spec fn graph_ctx(raw_cap: int, ctx_size: int) -> int {
    if ctx_size == 0 {
        max2(raw_cap, 1)
    } else {
        ctx_size
    }
}

/// The raw capacity of a graph: at least the window, at most the context.
pub open spec fn graph_raw(raw_cap: int, ctx_size: int) -> int {
    let ctx = graph_ctx(raw_cap, ctx_size);
    min2(max2(max2(raw_cap, 1), min2(DS4_N_SWA as int, ctx)), ctx)
}

impl MetalGraph {
    /// The graph of a session with the given capacities.
    pub fn allocate(
        raw_cap: u32,
        ctx_size: u32,
        prefill_cap: u32,
        enable_mtp: bool,
        quality: bool,
    ) -> (r: Self)
        requires
            comp_cap(graph_ctx(raw_cap as int, ctx_size as int)) * max2(prefill_cap as int, 1) * 4
                <= u64::MAX,
        ensures
            ({
                let ctx = graph_ctx(raw_cap as int, ctx_size as int);
                let comp_rows = comp_cap(ctx);
                let pc = max2(prefill_cap as int, 1);
                let raw = graph_raw(raw_cap as int, ctx_size as int);
                &&& r.cur_hc == Some((HC_DIM * 4) as u64)
                &&& r.flat_hc == Some((HC_DIM * 4) as u64)
                &&& r.hc_mix == Some((HC_MIX_DIM * 4) as u64)
                &&& r.hc_split == Some((HC_MIX_DIM * 4) as u64)
                &&& r.hc_pre is None
                &&& r.hc_post is None
                &&& r.hc_comb is None
                &&& r.attn_cur == Some((EMBD * 4) as u64)
                &&& r.attn_norm == Some((EMBD * 4) as u64)
                &&& r.qr == Some((LORA_Q * 4) as u64)
                &&& r.qr_norm == Some((LORA_Q * 4) as u64)
                &&& r.q == Some((Q_DIM * 4) as u64)
                &&& r.kv_raw == Some((HEAD_DIM * 4) as u64)
                &&& r.kv == Some((HEAD_DIM * 4) as u64)
                &&& r.layer_raw_cache@ == Seq::new(DS4_N_LAYER as nat, |i: int| Some((raw * HEAD_DIM * 4) as u64))
                &&& r.layer_attn_comp_cache@ == Seq::new(DS4_N_LAYER as nat, |i: int| None::<u64>)
                &&& r.layer_attn_state_kv@ == Seq::new(DS4_N_LAYER as nat, |i: int| None::<u64>)
                &&& r.layer_attn_state_score@ == Seq::new(DS4_N_LAYER as nat, |i: int| None::<u64>)
                &&& r.layer_index_comp_cache@ == Seq::new(DS4_N_LAYER as nat, |i: int| None::<u64>)
                &&& r.layer_index_state_kv@ == Seq::new(DS4_N_LAYER as nat, |i: int| None::<u64>)
                &&& r.layer_index_state_score@ == Seq::new(DS4_N_LAYER as nat, |i: int| None::<u64>)
                &&& r.spec_attn_state_kv@ == Seq::new(DS4_N_LAYER as nat, |i: int| None::<u64>)
                &&& r.spec_attn_state_score@ == Seq::new(DS4_N_LAYER as nat, |i: int| None::<u64>)
                &&& r.spec_index_state_kv@ == Seq::new(DS4_N_LAYER as nat, |i: int| None::<u64>)
                &&& r.spec_index_state_score@ == Seq::new(DS4_N_LAYER as nat, |i: int| None::<u64>)
                &&& r.spec_prefix1_attn_state_kv@ == Seq::new(DS4_N_LAYER as nat, |i: int| None::<u64>)
                &&& r.spec_prefix1_attn_state_score@ == Seq::new(DS4_N_LAYER as nat, |i: int| None::<u64>)
                &&& r.spec_prefix1_index_state_kv@ == Seq::new(DS4_N_LAYER as nat, |i: int| None::<u64>)
                &&& r.spec_prefix1_index_state_score@ == Seq::new(DS4_N_LAYER as nat, |i: int| None::<u64>)
                &&& r.spec_logits is None
                &&& r.layer_n_comp@ == Seq::new(DS4_N_LAYER as nat, |i: int| 0u32)
                &&& r.layer_n_index_comp@ == Seq::new(DS4_N_LAYER as nat, |i: int| 0u32)
                &&& r.spec_prefix1_n_comp@ == Seq::new(DS4_N_LAYER as nat, |i: int| 0u32)
                &&& r.spec_prefix1_n_index_comp@ == Seq::new(DS4_N_LAYER as nat, |i: int| 0u32)
                &&& !r.spec_capture_prefix1
                &&& r.raw_cap == raw
                &&& r.comp_cap == comp_rows
                &&& r.comp_kv_cur == Some((COMP_WIDTH * 4) as u64)
                &&& r.comp_sc_cur == Some((COMP_WIDTH * 4) as u64)
                &&& r.indexer_q == Some((INDEX_Q_DIM * 4) as u64)
                &&& r.indexer_weights == Some((INDEX_HEAD * 4) as u64)
                &&& r.indexer_scores == Some((comp_rows * pc * 4) as u64)
                &&& r.comp_mask == Some((comp_rows * pc * 4) as u64)
                &&& r.comp_selected == Some((TOP_K * pc * 4) as u64)
                &&& r.heads == Some((Q_DIM * 4) as u64)
                &&& r.attn_low == Some((OUT_LOW_DIM * 4) as u64)
                &&& r.attn_out == Some((EMBD * 4) as u64)
                &&& r.after_attn_hc == Some((HC_DIM * 4) as u64)
                &&& r.ffn_cur == Some((EMBD * 4) as u64)
                &&& r.ffn_norm == Some((EMBD * 4) as u64)
                &&& r.shared_gate == Some((FF_EXP * 4) as u64)
                &&& r.shared_up == Some((FF_EXP * 4) as u64)
                &&& r.shared_mid == Some((FF_EXP * 4) as u64)
                &&& r.shared_out == Some((EMBD * 4) as u64)
                &&& r.router_logits == Some((EXPERT * 4) as u64)
                &&& r.router_probs == Some((EXPERT * 4) as u64)
                &&& r.router_selected == Some((EXPERT_USED * 4) as u64)
                &&& r.router_weights == Some((EXPERT_USED * 4) as u64)
                &&& r.routed_gate == Some((EXPERT_USED * FF_EXP * 4) as u64)
                &&& r.routed_up == Some((EXPERT_USED * FF_EXP * 4) as u64)
                &&& r.routed_mid == Some((EXPERT_USED * FF_EXP * 4) as u64)
                &&& r.routed_down == Some((EXPERT_USED * EMBD * 4) as u64)
                &&& r.routed_out == Some((EMBD * 4) as u64)
                &&& r.ffn_out is None
                &&& r.after_ffn_hc == Some((HC_DIM * 4) as u64)
                &&& r.output_pre == Some((HC * 4) as u64)
                &&& r.output_weights == Some((HC * 4) as u64)
                &&& r.output_embd == Some((EMBD * 4) as u64)
                &&& r.output_norm == Some((EMBD * 4) as u64)
                &&& r.logits == Some((VOCAB * 4) as u64)
                &&& r.mtp_embed is None
                &&& r.mtp_enorm is None
                &&& r.mtp_eproj is None
                &&& r.mtp_eproj_hc is None
                &&& r.mtp_hnorm_hc is None
                &&& r.mtp_hproj_hc is None
                &&& r.mtp_input_hc is None
                &&& r.mtp_state_hc is None
                &&& r.mtp_next_hc is None
                &&& r.mtp_raw_cache is None
                &&& r.mtp_n_raw == 0
                &&& r.prefill_cap == pc
                &&& r.raw_window == min2(DS4_N_SWA as int, ctx)
                &&& r.prefill_tokens == Some((pc * 4) as u64)
                &&& r.batch_cur_hc == Some((pc * HC_DIM * 4) as u64)
                &&& r.batch_next_hc == Some((pc * HC_DIM * 4) as u64)
                &&& r.batch_flat_hc == Some((pc * HC_DIM * 4) as u64)
                &&& r.batch_hc_mix == Some((pc * HC_MIX_DIM * 4) as u64)
                &&& r.batch_hc_split == Some((pc * HC_MIX_DIM * 4) as u64)
                &&& r.batch_attn_cur == Some((pc * EMBD * 4) as u64)
                &&& r.batch_attn_norm == Some((pc * EMBD * 4) as u64)
                &&& r.batch_qr == Some((pc * LORA_Q * 4) as u64)
                &&& r.batch_qr_norm == Some((pc * LORA_Q * 4) as u64)
                &&& r.batch_q == Some((pc * Q_DIM * 4) as u64)
                &&& r.batch_kv_raw == Some((pc * HEAD_DIM * 4) as u64)
                &&& r.batch_kv == Some((pc * HEAD_DIM * 4) as u64)
                &&& r.batch_comp_kv == Some((pc * COMP_WIDTH * 4) as u64)
                &&& r.batch_comp_sc == Some((pc * COMP_WIDTH * 4) as u64)
                &&& r.batch_indexer_q == Some((pc * INDEX_Q_DIM * 4) as u64)
                &&& r.batch_indexer_weights == Some((pc * INDEX_HEAD * 4) as u64)
                &&& r.batch_heads == Some((pc * Q_DIM * 4) as u64)
                &&& r.batch_attn_low == Some((pc * OUT_LOW_DIM * 4) as u64)
                &&& r.batch_attn_out == Some((pc * EMBD * 4) as u64)
                &&& r.batch_group_tmp == Some((pc * OUT_A_DIM * 4) as u64)
                &&& r.batch_low_tmp == Some((pc * LORA_O * 4) as u64)
                &&& r.batch_after_attn_hc == Some((pc * HC_DIM * 4) as u64)
                &&& r.batch_ffn_cur == Some((pc * EMBD * 4) as u64)
                &&& r.batch_ffn_norm == Some((pc * EMBD * 4) as u64)
                &&& r.batch_shared_gate == Some((pc * FF_EXP * 4) as u64)
                &&& r.batch_shared_up == Some((pc * FF_EXP * 4) as u64)
                &&& r.batch_shared_mid == Some((pc * FF_EXP * 4) as u64)
                &&& r.batch_shared_out == Some((pc * EMBD * 4) as u64)
                &&& r.batch_router_logits == Some((pc * EXPERT * 4) as u64)
                &&& r.batch_router_probs == Some((pc * EXPERT * 4) as u64)
                &&& r.batch_router_selected == Some((pc * EXPERT_USED * 4) as u64)
                &&& r.batch_router_weights == Some((pc * EXPERT_USED * 4) as u64)
                &&& r.batch_routed_gate == Some((pc * EXPERT_USED * FF_EXP * 4) as u64)
                &&& r.batch_routed_up == Some((pc * EXPERT_USED * FF_EXP * 4) as u64)
                &&& r.batch_routed_mid == Some((pc * EXPERT_USED * FF_EXP * 4) as u64)
                &&& r.batch_routed_down == Some((pc * EXPERT_USED * EMBD * 4) as u64)
                &&& r.batch_routed_out == Some((pc * EMBD * 4) as u64)
                &&& r.batch_ffn_out is None
                &&& !r.materialize_ffn_out
                &&& r.quality == quality
                &&& r.mtp_enabled == enable_mtp
            }),
    {
        let rc: u32 = if raw_cap == 0 {
            1
        } else {
            raw_cap
        };
        let ctx: u32 = if ctx_size == 0 {
            rc
        } else {
            ctx_size
        };
        let raw_window: u32 = if DS4_N_SWA < ctx {
            DS4_N_SWA
        } else {
            ctx
        };
        let widened: u32 = if rc < raw_window {
            raw_window
        } else {
            rc
        };
        let raw_cap: u32 = if widened < ctx {
            widened
        } else {
            ctx
        };
        let prefill_cap: u32 = if prefill_cap == 0 {
            1
        } else {
            prefill_cap
        };
        let comp_cap: u32 = ds4_default_comp_cap(ctx);
        let comp_rows: u64 = comp_cap as u64;
        let pc: u64 = prefill_cap as u64;
        assert(comp_rows * pc <= u64::MAX);
        MetalGraph {
            cur_hc: Some(HC_DIM * 4),
            flat_hc: Some(HC_DIM * 4),
            hc_mix: Some(HC_MIX_DIM * 4),
            hc_split: Some(HC_MIX_DIM * 4),
            hc_pre: None,
            hc_post: None,
            hc_comb: None,
            attn_cur: Some(EMBD * 4),
            attn_norm: Some(EMBD * 4),
            qr: Some(LORA_Q * 4),
            qr_norm: Some(LORA_Q * 4),
            q: Some(Q_DIM * 4),
            kv_raw: Some(HEAD_DIM * 4),
            kv: Some(HEAD_DIM * 4),
            layer_raw_cache: per_layer(Some(raw_cap as u64 * HEAD_DIM * 4)),
            layer_attn_comp_cache: per_layer(None),
            layer_attn_state_kv: per_layer(None),
            layer_attn_state_score: per_layer(None),
            layer_index_comp_cache: per_layer(None),
            layer_index_state_kv: per_layer(None),
            layer_index_state_score: per_layer(None),
            spec_attn_state_kv: per_layer(None),
            spec_attn_state_score: per_layer(None),
            spec_index_state_kv: per_layer(None),
            spec_index_state_score: per_layer(None),
            spec_prefix1_attn_state_kv: per_layer(None),
            spec_prefix1_attn_state_score: per_layer(None),
            spec_prefix1_index_state_kv: per_layer(None),
            spec_prefix1_index_state_score: per_layer(None),
            spec_logits: None,
            layer_n_comp: zero_per_layer(),
            layer_n_index_comp: zero_per_layer(),
            spec_prefix1_n_comp: zero_per_layer(),
            spec_prefix1_n_index_comp: zero_per_layer(),
            spec_capture_prefix1: false,
            raw_cap,
            comp_cap,
            comp_kv_cur: Some(COMP_WIDTH * 4),
            comp_sc_cur: Some(COMP_WIDTH * 4),
            indexer_q: Some(INDEX_Q_DIM * 4),
            indexer_weights: Some(INDEX_HEAD * 4),
            indexer_scores: Some(comp_rows * pc * 4),
            comp_mask: Some(comp_rows * pc * 4),
            comp_selected: Some(TOP_K * pc * 4),
            heads: Some(Q_DIM * 4),
            attn_low: Some(OUT_LOW_DIM * 4),
            attn_out: Some(EMBD * 4),
            after_attn_hc: Some(HC_DIM * 4),
            ffn_cur: Some(EMBD * 4),
            ffn_norm: Some(EMBD * 4),
            shared_gate: Some(FF_EXP * 4),
            shared_up: Some(FF_EXP * 4),
            shared_mid: Some(FF_EXP * 4),
            shared_out: Some(EMBD * 4),
            router_logits: Some(EXPERT * 4),
            router_probs: Some(EXPERT * 4),
            router_selected: Some(EXPERT_USED * 4),
            router_weights: Some(EXPERT_USED * 4),
            routed_gate: Some(EXPERT_USED * FF_EXP * 4),
            routed_up: Some(EXPERT_USED * FF_EXP * 4),
            routed_mid: Some(EXPERT_USED * FF_EXP * 4),
            routed_down: Some(EXPERT_USED * EMBD * 4),
            routed_out: Some(EMBD * 4),
            ffn_out: None,
            after_ffn_hc: Some(HC_DIM * 4),
            output_pre: Some(HC * 4),
            output_weights: Some(HC * 4),
            output_embd: Some(EMBD * 4),
            output_norm: Some(EMBD * 4),
            logits: Some(VOCAB * 4),
            mtp_embed: None,
            mtp_enorm: None,
            mtp_eproj: None,
            mtp_eproj_hc: None,
            mtp_hnorm_hc: None,
            mtp_hproj_hc: None,
            mtp_input_hc: None,
            mtp_state_hc: None,
            mtp_next_hc: None,
            mtp_raw_cache: None,
            mtp_n_raw: 0,
            prefill_cap,
            raw_window,
            prefill_tokens: Some(pc * 4),
            batch_cur_hc: Some(pc * HC_DIM * 4),
            batch_next_hc: Some(pc * HC_DIM * 4),
            batch_flat_hc: Some(pc * HC_DIM * 4),
            batch_hc_mix: Some(pc * HC_MIX_DIM * 4),
            batch_hc_split: Some(pc * HC_MIX_DIM * 4),
            batch_attn_cur: Some(pc * EMBD * 4),
            batch_attn_norm: Some(pc * EMBD * 4),
            batch_qr: Some(pc * LORA_Q * 4),
            batch_qr_norm: Some(pc * LORA_Q * 4),
            batch_q: Some(pc * Q_DIM * 4),
            batch_kv_raw: Some(pc * HEAD_DIM * 4),
            batch_kv: Some(pc * HEAD_DIM * 4),
            batch_comp_kv: Some(pc * COMP_WIDTH * 4),
            batch_comp_sc: Some(pc * COMP_WIDTH * 4),
            batch_indexer_q: Some(pc * INDEX_Q_DIM * 4),
            batch_indexer_weights: Some(pc * INDEX_HEAD * 4),
            batch_heads: Some(pc * Q_DIM * 4),
            batch_attn_low: Some(pc * OUT_LOW_DIM * 4),
            batch_attn_out: Some(pc * EMBD * 4),
            batch_group_tmp: Some(pc * OUT_A_DIM * 4),
            batch_low_tmp: Some(pc * LORA_O * 4),
            batch_after_attn_hc: Some(pc * HC_DIM * 4),
            batch_ffn_cur: Some(pc * EMBD * 4),
            batch_ffn_norm: Some(pc * EMBD * 4),
            batch_shared_gate: Some(pc * FF_EXP * 4),
            batch_shared_up: Some(pc * FF_EXP * 4),
            batch_shared_mid: Some(pc * FF_EXP * 4),
            batch_shared_out: Some(pc * EMBD * 4),
            batch_router_logits: Some(pc * EXPERT * 4),
            batch_router_probs: Some(pc * EXPERT * 4),
            batch_router_selected: Some(pc * EXPERT_USED * 4),
            batch_router_weights: Some(pc * EXPERT_USED * 4),
            batch_routed_gate: Some(pc * EXPERT_USED * FF_EXP * 4),
            batch_routed_up: Some(pc * EXPERT_USED * FF_EXP * 4),
            batch_routed_mid: Some(pc * EXPERT_USED * FF_EXP * 4),
            batch_routed_down: Some(pc * EXPERT_USED * EMBD * 4),
            batch_routed_out: Some(pc * EMBD * 4),
            batch_ffn_out: None,
            materialize_ffn_out: false,
            quality,
            mtp_enabled: enable_mtp,
        }
    }
}

// ── Release ──────────────────────────────────────────────────────────────

/// A tensor, where there is one.
pub open spec fn present(t: Option<u64>) -> Seq<u64> {
    match t {
        Some(n) => seq![n],
        None => Seq::empty(),
    }
}

fn push_present(out: &mut Vec<u64>, t: Option<u64>)
    ensures
        final(out)@ == old(out)@ + present(t),
{
    match t {
        Some(n) => {
            out.push(n);
            assert(out@ =~= old(out)@ + present(t));
        },
        None => {
            assert(out@ =~= old(out)@ + present(t));
        },
    }
}

impl MetalGraph {
    /// Whether there is a place for each layer.
    pub open spec fn layered(self) -> bool {
        &&& self.layer_raw_cache@.len() == DS4_N_LAYER
        &&& self.layer_attn_comp_cache@.len() == DS4_N_LAYER
        &&& self.layer_attn_state_kv@.len() == DS4_N_LAYER
        &&& self.layer_attn_state_score@.len() == DS4_N_LAYER
        &&& self.layer_index_comp_cache@.len() == DS4_N_LAYER
        &&& self.layer_index_state_kv@.len() == DS4_N_LAYER
        &&& self.layer_index_state_score@.len() == DS4_N_LAYER
        &&& self.spec_attn_state_kv@.len() == DS4_N_LAYER
        &&& self.spec_attn_state_score@.len() == DS4_N_LAYER
        &&& self.spec_index_state_kv@.len() == DS4_N_LAYER
        &&& self.spec_index_state_score@.len() == DS4_N_LAYER
        &&& self.spec_prefix1_attn_state_kv@.len() == DS4_N_LAYER
        &&& self.spec_prefix1_attn_state_score@.len() == DS4_N_LAYER
        &&& self.spec_prefix1_index_state_kv@.len() == DS4_N_LAYER
        &&& self.spec_prefix1_index_state_score@.len() == DS4_N_LAYER
    }

    /// The tensors of a step up to the attention.
    pub open spec fn head_tensors(self) -> Seq<u64> {
        Seq::<u64>::empty()
            + present(self.cur_hc)
            + present(self.flat_hc)
            + present(self.hc_mix)
            + present(self.hc_split)
            + present(self.hc_pre)
            + present(self.hc_post)
            + present(self.hc_comb)
            + present(self.attn_cur)
            + present(self.attn_norm)
            + present(self.qr)
            + present(self.qr_norm)
            + present(self.q)
            + present(self.kv_raw)
            + present(self.kv)
    }

    /// The tensors of a step from the compression on.
    pub open spec fn step_tensors(self) -> Seq<u64> {
        Seq::<u64>::empty()
            + present(self.spec_logits)
            + present(self.comp_kv_cur)
            + present(self.comp_sc_cur)
            + present(self.indexer_q)
            + present(self.indexer_weights)
            + present(self.indexer_scores)
            + present(self.comp_mask)
            + present(self.comp_selected)
            + present(self.heads)
            + present(self.attn_low)
            + present(self.attn_out)
            + present(self.after_attn_hc)
            + present(self.ffn_cur)
            + present(self.ffn_norm)
            + present(self.shared_gate)
            + present(self.shared_up)
            + present(self.shared_mid)
            + present(self.shared_out)
            + present(self.router_logits)
            + present(self.router_probs)
            + present(self.router_selected)
            + present(self.router_weights)
    }

    /// The tensors from the routed experts to the multi-token prediction.
    pub open spec fn expert_tensors(self) -> Seq<u64> {
        Seq::<u64>::empty()
            + present(self.routed_gate)
            + present(self.routed_up)
            + present(self.routed_mid)
            + present(self.routed_down)
            + present(self.routed_out)
            + present(self.ffn_out)
            + present(self.after_ffn_hc)
            + present(self.output_pre)
            + present(self.output_weights)
            + present(self.output_embd)
            + present(self.output_norm)
            + present(self.logits)
            + present(self.mtp_embed)
            + present(self.mtp_enorm)
            + present(self.mtp_eproj)
            + present(self.mtp_eproj_hc)
            + present(self.mtp_hnorm_hc)
            + present(self.mtp_hproj_hc)
            + present(self.mtp_input_hc)
            + present(self.mtp_state_hc)
            + present(self.mtp_next_hc)
            + present(self.mtp_raw_cache)
    }

    /// The first tensors of a batch.
    pub open spec fn draft_tensors(self) -> Seq<u64> {
        Seq::<u64>::empty()
            + present(self.prefill_tokens)
            + present(self.batch_cur_hc)
            + present(self.batch_next_hc)
            + present(self.batch_flat_hc)
            + present(self.batch_hc_mix)
            + present(self.batch_hc_split)
            + present(self.batch_attn_cur)
            + present(self.batch_attn_norm)
            + present(self.batch_qr)
            + present(self.batch_qr_norm)
            + present(self.batch_q)
            + present(self.batch_kv_raw)
            + present(self.batch_kv)
            + present(self.batch_comp_kv)
            + present(self.batch_comp_sc)
            + present(self.batch_indexer_q)
            + present(self.batch_indexer_weights)
            + present(self.batch_heads)
            + present(self.batch_attn_low)
            + present(self.batch_attn_out)
            + present(self.batch_group_tmp)
            + present(self.batch_low_tmp)
    }

    /// The other tensors of a batch.
    pub open spec fn batch_tensors(self) -> Seq<u64> {
        Seq::<u64>::empty()
            + present(self.batch_after_attn_hc)
            + present(self.batch_ffn_cur)
            + present(self.batch_ffn_norm)
            + present(self.batch_shared_gate)
            + present(self.batch_shared_up)
            + present(self.batch_shared_mid)
            + present(self.batch_shared_out)
            + present(self.batch_router_logits)
            + present(self.batch_router_probs)
            + present(self.batch_router_selected)
            + present(self.batch_router_weights)
            + present(self.batch_routed_gate)
            + present(self.batch_routed_up)
            + present(self.batch_routed_mid)
            + present(self.batch_routed_down)
            + present(self.batch_routed_out)
            + present(self.batch_ffn_out)
    }

    /// The tensors of the first `n` layers.
    pub open spec fn layer_tensors(self, n: nat) -> Seq<u64>
        decreases n,
    {
        if n == 0 {
            Seq::empty()
        } else {
            let i = n - 1;
            self.layer_tensors((n - 1) as nat)
                + present(self.layer_raw_cache@[i])
                + present(self.layer_attn_comp_cache@[i])
                + present(self.layer_attn_state_kv@[i])
                + present(self.layer_attn_state_score@[i])
                + present(self.layer_index_comp_cache@[i])
                + present(self.layer_index_state_kv@[i])
                + present(self.layer_index_state_score@[i])
                + present(self.spec_attn_state_kv@[i])
                + present(self.spec_attn_state_score@[i])
                + present(self.spec_index_state_kv@[i])
                + present(self.spec_index_state_score@[i])
                + present(self.spec_prefix1_attn_state_kv@[i])
                + present(self.spec_prefix1_attn_state_score@[i])
                + present(self.spec_prefix1_index_state_kv@[i])
                + present(self.spec_prefix1_index_state_score@[i])
        }
    }

    /// All tensors in the order in which they are released.
    pub open spec fn released(self) -> Seq<u64> {
        self.head_tensors() + self.layer_tensors(DS4_N_LAYER as nat) + self.step_tensors() + self.expert_tensors() + self.draft_tensors() + self.batch_tensors()
    }

    fn release_head_tensors(&self, out: &mut Vec<u64>)
        ensures
            final(out)@ == old(out)@ + self.head_tensors(),
    {
        let mut list: Vec<u64> = Vec::new();
        push_present(&mut list, self.cur_hc);
        push_present(&mut list, self.flat_hc);
        push_present(&mut list, self.hc_mix);
        push_present(&mut list, self.hc_split);
        push_present(&mut list, self.hc_pre);
        push_present(&mut list, self.hc_post);
        push_present(&mut list, self.hc_comb);
        push_present(&mut list, self.attn_cur);
        push_present(&mut list, self.attn_norm);
        push_present(&mut list, self.qr);
        push_present(&mut list, self.qr_norm);
        push_present(&mut list, self.q);
        push_present(&mut list, self.kv_raw);
        push_present(&mut list, self.kv);
        out.append(&mut list);
    }

    fn release_step_tensors(&self, out: &mut Vec<u64>)
        ensures
            final(out)@ == old(out)@ + self.step_tensors(),
    {
        let mut list: Vec<u64> = Vec::new();
        push_present(&mut list, self.spec_logits);
        push_present(&mut list, self.comp_kv_cur);
        push_present(&mut list, self.comp_sc_cur);
        push_present(&mut list, self.indexer_q);
        push_present(&mut list, self.indexer_weights);
        push_present(&mut list, self.indexer_scores);
        push_present(&mut list, self.comp_mask);
        push_present(&mut list, self.comp_selected);
        push_present(&mut list, self.heads);
        push_present(&mut list, self.attn_low);
        push_present(&mut list, self.attn_out);
        push_present(&mut list, self.after_attn_hc);
        push_present(&mut list, self.ffn_cur);
        push_present(&mut list, self.ffn_norm);
        push_present(&mut list, self.shared_gate);
        push_present(&mut list, self.shared_up);
        push_present(&mut list, self.shared_mid);
        push_present(&mut list, self.shared_out);
        push_present(&mut list, self.router_logits);
        push_present(&mut list, self.router_probs);
        push_present(&mut list, self.router_selected);
        push_present(&mut list, self.router_weights);
        out.append(&mut list);
    }

    fn release_expert_tensors(&self, out: &mut Vec<u64>)
        ensures
            final(out)@ == old(out)@ + self.expert_tensors(),
    {
        let mut list: Vec<u64> = Vec::new();
        push_present(&mut list, self.routed_gate);
        push_present(&mut list, self.routed_up);
        push_present(&mut list, self.routed_mid);
        push_present(&mut list, self.routed_down);
        push_present(&mut list, self.routed_out);
        push_present(&mut list, self.ffn_out);
        push_present(&mut list, self.after_ffn_hc);
        push_present(&mut list, self.output_pre);
        push_present(&mut list, self.output_weights);
        push_present(&mut list, self.output_embd);
        push_present(&mut list, self.output_norm);
        push_present(&mut list, self.logits);
        push_present(&mut list, self.mtp_embed);
        push_present(&mut list, self.mtp_enorm);
        push_present(&mut list, self.mtp_eproj);
        push_present(&mut list, self.mtp_eproj_hc);
        push_present(&mut list, self.mtp_hnorm_hc);
        push_present(&mut list, self.mtp_hproj_hc);
        push_present(&mut list, self.mtp_input_hc);
        push_present(&mut list, self.mtp_state_hc);
        push_present(&mut list, self.mtp_next_hc);
        push_present(&mut list, self.mtp_raw_cache);
        out.append(&mut list);
    }

    fn release_draft_tensors(&self, out: &mut Vec<u64>)
        ensures
            final(out)@ == old(out)@ + self.draft_tensors(),
    {
        let mut list: Vec<u64> = Vec::new();
        push_present(&mut list, self.prefill_tokens);
        push_present(&mut list, self.batch_cur_hc);
        push_present(&mut list, self.batch_next_hc);
        push_present(&mut list, self.batch_flat_hc);
        push_present(&mut list, self.batch_hc_mix);
        push_present(&mut list, self.batch_hc_split);
        push_present(&mut list, self.batch_attn_cur);
        push_present(&mut list, self.batch_attn_norm);
        push_present(&mut list, self.batch_qr);
        push_present(&mut list, self.batch_qr_norm);
        push_present(&mut list, self.batch_q);
        push_present(&mut list, self.batch_kv_raw);
        push_present(&mut list, self.batch_kv);
        push_present(&mut list, self.batch_comp_kv);
        push_present(&mut list, self.batch_comp_sc);
        push_present(&mut list, self.batch_indexer_q);
        push_present(&mut list, self.batch_indexer_weights);
        push_present(&mut list, self.batch_heads);
        push_present(&mut list, self.batch_attn_low);
        push_present(&mut list, self.batch_attn_out);
        push_present(&mut list, self.batch_group_tmp);
        push_present(&mut list, self.batch_low_tmp);
        out.append(&mut list);
    }

    fn release_batch_tensors(&self, out: &mut Vec<u64>)
        ensures
            final(out)@ == old(out)@ + self.batch_tensors(),
    {
        let mut list: Vec<u64> = Vec::new();
        push_present(&mut list, self.batch_after_attn_hc);
        push_present(&mut list, self.batch_ffn_cur);
        push_present(&mut list, self.batch_ffn_norm);
        push_present(&mut list, self.batch_shared_gate);
        push_present(&mut list, self.batch_shared_up);
        push_present(&mut list, self.batch_shared_mid);
        push_present(&mut list, self.batch_shared_out);
        push_present(&mut list, self.batch_router_logits);
        push_present(&mut list, self.batch_router_probs);
        push_present(&mut list, self.batch_router_selected);
        push_present(&mut list, self.batch_router_weights);
        push_present(&mut list, self.batch_routed_gate);
        push_present(&mut list, self.batch_routed_up);
        push_present(&mut list, self.batch_routed_mid);
        push_present(&mut list, self.batch_routed_down);
        push_present(&mut list, self.batch_routed_out);
        push_present(&mut list, self.batch_ffn_out);
        out.append(&mut list);
    }

    fn release_layer_tensors(&self, out: &mut Vec<u64>)
        requires
            self.layered(),
        ensures
            final(out)@ == old(out)@ + self.layer_tensors(DS4_N_LAYER as nat),
    {
        let mut list: Vec<u64> = Vec::new();
        let mut i: usize = 0;
        while i < DS4_N_LAYER as usize
            invariant
                i <= DS4_N_LAYER,
                self.layered(),
                list@ == self.layer_tensors(i as nat),
            decreases DS4_N_LAYER - i,
        {
            push_present(&mut list, self.layer_raw_cache[i]);
            push_present(&mut list, self.layer_attn_comp_cache[i]);
            push_present(&mut list, self.layer_attn_state_kv[i]);
            push_present(&mut list, self.layer_attn_state_score[i]);
            push_present(&mut list, self.layer_index_comp_cache[i]);
            push_present(&mut list, self.layer_index_state_kv[i]);
            push_present(&mut list, self.layer_index_state_score[i]);
            push_present(&mut list, self.spec_attn_state_kv[i]);
            push_present(&mut list, self.spec_attn_state_score[i]);
            push_present(&mut list, self.spec_index_state_kv[i]);
            push_present(&mut list, self.spec_index_state_score[i]);
            push_present(&mut list, self.spec_prefix1_attn_state_kv[i]);
            push_present(&mut list, self.spec_prefix1_attn_state_score[i]);
            push_present(&mut list, self.spec_prefix1_index_state_kv[i]);
            push_present(&mut list, self.spec_prefix1_index_state_score[i]);
            i = i + 1;
        }
        out.append(&mut list);
    }

    /// The tensors in the order in which they are released; those that were not made are
    /// passed over.
    pub fn release(self) -> (tensors: Vec<u64>)
        requires
            self.layered(),
        ensures
            tensors@ == self.released(),
    {
        let mut tensors: Vec<u64> = Vec::new();
        self.release_head_tensors(&mut tensors);
        self.release_layer_tensors(&mut tensors);
        self.release_step_tensors(&mut tensors);
        self.release_expert_tensors(&mut tensors);
        self.release_draft_tensors(&mut tensors);
        self.release_batch_tensors(&mut tensors);
        tensors
    }
}

} // verus!

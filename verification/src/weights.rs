//! The weight table: tensors bound by name from the directory of a model file into
//! the fixed layout of DeepSeek V4 Flash, and the checks of their types and shapes.
use vstd::prelude::*;

use crate::gguf::{ModelGGUF, ModelView, TensorInfo, TensorView};
use crate::text::{append, dec, dec_u64};
use crate::types::{
    DS4_N_EMBD, DS4_N_EXPERT, DS4_N_EXPERT_USED, DS4_N_FF_EXP, DS4_N_HASH_LAYER, DS4_N_HC,
    DS4_N_HEAD, DS4_N_HEAD_DIM, DS4_N_INDEXER_HEAD, DS4_N_INDEXER_HEAD_DIM, DS4_N_LAYER,
    DS4_N_LORA_O, DS4_N_LORA_Q, DS4_N_OUT_GROUP, DS4_N_VOCAB,
};

verus! {

// ── Dimensions ───────────────────────────────────────────────────────────

pub const EMBD: u64 = DS4_N_EMBD as u64;

pub const VOCAB: u64 = DS4_N_VOCAB as u64;

pub const HC: u64 = DS4_N_HC as u64;

pub const LORA_Q: u64 = DS4_N_LORA_Q as u64;

pub const HEAD: u64 = DS4_N_HEAD as u64;

pub const HEAD_DIM: u64 = DS4_N_HEAD_DIM as u64;

pub const EXPERT: u64 = DS4_N_EXPERT as u64;

pub const EXPERT_USED: u64 = DS4_N_EXPERT_USED as u64;

pub const FF_EXP: u64 = DS4_N_FF_EXP as u64;

pub const INDEX_HEAD: u64 = DS4_N_INDEXER_HEAD as u64;

pub const INDEX_HEAD_DIM: u64 = DS4_N_INDEXER_HEAD_DIM as u64;

/// Width of the hyper-connection state.
pub const HC_DIM: u64 = (DS4_N_EMBD * DS4_N_HC) as u64;

/// Width of the hyper-connection mix.
pub const HC_MIX_DIM: u64 = (2 * DS4_N_HC + DS4_N_HC * DS4_N_HC) as u64;

/// Width of all query heads.
pub const Q_DIM: u64 = (DS4_N_HEAD * DS4_N_HEAD_DIM) as u64;

/// Width of the low-rank attention output.
pub const OUT_LOW_DIM: u64 = (DS4_N_OUT_GROUP * DS4_N_LORA_O) as u64;

/// Width of one group of heads.
pub const OUT_A_DIM: u64 = (DS4_N_HEAD_DIM * (DS4_N_HEAD / DS4_N_OUT_GROUP)) as u64;

/// Width of all indexer query heads.
pub const INDEX_Q_DIM: u64 = (DS4_N_INDEXER_HEAD * DS4_N_INDEXER_HEAD_DIM) as u64;

/// Width of the indexer compressor.
pub const INDEX_WIDTH: u64 = (2 * DS4_N_INDEXER_HEAD_DIM) as u64;

/// The attention compression ratio of layer `il`: the first two layers are dense,
/// then even layers have ratio 4 and odd layers ratio 128.
pub open spec fn compress_ratio(il: int) -> u32 {
    if il < 2 {
        0
    } else if il % 2 == 0 {
        4
    } else {
        128
    }
}

/// The attention compression ratio of layer `il`.
pub fn layer_compress_ratio(il: u32) -> (r: u32)
    requires
        il < DS4_N_LAYER,
    ensures
        r == compress_ratio(il as int),
{
    if il < 2 {
        0
    } else if il % 2 == 0 {
        4
    } else {
        128
    }
}

// ── Tables ───────────────────────────────────────────────────────────────

/// The tensors of one layer.
#[derive(Debug, Clone)]
pub struct LayerWeights {
    pub hc_attn_fn: TensorInfo,
    pub hc_attn_scale: TensorInfo,
    pub hc_attn_base: TensorInfo,
    pub attn_norm: TensorInfo,
    pub attn_q_a: TensorInfo,
    pub attn_q_a_norm: TensorInfo,
    pub attn_q_b: TensorInfo,
    pub attn_kv: TensorInfo,
    pub attn_kv_a_norm: TensorInfo,
    pub attn_sinks: TensorInfo,
    pub attn_output_a: TensorInfo,
    pub attn_output_b: TensorInfo,
    /// Where the compression ratio is not zero.
    pub attn_compressor_ape: Option<TensorInfo>,
    /// Where the compression ratio is not zero.
    pub attn_compressor_kv: Option<TensorInfo>,
    /// Where the compression ratio is not zero.
    pub attn_compressor_gate: Option<TensorInfo>,
    /// Where the compression ratio is not zero.
    pub attn_compressor_norm: Option<TensorInfo>,
    /// Where the compression ratio is 4.
    pub indexer_attn_q_b: Option<TensorInfo>,
    /// Where the compression ratio is 4.
    pub indexer_proj: Option<TensorInfo>,
    /// Where the compression ratio is 4.
    pub indexer_compressor_ape: Option<TensorInfo>,
    /// Where the compression ratio is 4.
    pub indexer_compressor_kv: Option<TensorInfo>,
    /// Where the compression ratio is 4.
    pub indexer_compressor_gate: Option<TensorInfo>,
    /// Where the compression ratio is 4.
    pub indexer_compressor_norm: Option<TensorInfo>,
    pub hc_ffn_fn: TensorInfo,
    pub hc_ffn_scale: TensorInfo,
    pub hc_ffn_base: TensorInfo,
    pub ffn_norm: TensorInfo,
    pub ffn_gate_inp: TensorInfo,
    /// Where the file has it.
    pub ffn_exp_probs_b: Option<TensorInfo>,
    pub ffn_gate_exps: TensorInfo,
    pub ffn_up_exps: TensorInfo,
    pub ffn_down_exps: TensorInfo,
    pub ffn_gate_shexp: TensorInfo,
    pub ffn_up_shexp: TensorInfo,
    pub ffn_down_shexp: TensorInfo,
    /// In the hash layers.
    pub ffn_gate_tid2eid: Option<TensorInfo>,
}

/// The mathematical form of `LayerWeights`.
pub struct LayerView {
    pub hc_attn_fn: TensorView,
    pub hc_attn_scale: TensorView,
    pub hc_attn_base: TensorView,
    pub attn_norm: TensorView,
    pub attn_q_a: TensorView,
    pub attn_q_a_norm: TensorView,
    pub attn_q_b: TensorView,
    pub attn_kv: TensorView,
    pub attn_kv_a_norm: TensorView,
    pub attn_sinks: TensorView,
    pub attn_output_a: TensorView,
    pub attn_output_b: TensorView,
    pub attn_compressor_ape: Option<TensorView>,
    pub attn_compressor_kv: Option<TensorView>,
    pub attn_compressor_gate: Option<TensorView>,
    pub attn_compressor_norm: Option<TensorView>,
    pub indexer_attn_q_b: Option<TensorView>,
    pub indexer_proj: Option<TensorView>,
    pub indexer_compressor_ape: Option<TensorView>,
    pub indexer_compressor_kv: Option<TensorView>,
    pub indexer_compressor_gate: Option<TensorView>,
    pub indexer_compressor_norm: Option<TensorView>,
    pub hc_ffn_fn: TensorView,
    pub hc_ffn_scale: TensorView,
    pub hc_ffn_base: TensorView,
    pub ffn_norm: TensorView,
    pub ffn_gate_inp: TensorView,
    pub ffn_exp_probs_b: Option<TensorView>,
    pub ffn_gate_exps: TensorView,
    pub ffn_up_exps: TensorView,
    pub ffn_down_exps: TensorView,
    pub ffn_gate_shexp: TensorView,
    pub ffn_up_shexp: TensorView,
    pub ffn_down_shexp: TensorView,
    pub ffn_gate_tid2eid: Option<TensorView>,
}

/// The view of an optional tensor.
pub open spec fn optional_view(t: Option<TensorInfo>) -> Option<TensorView> {
    match t {
        Some(t) => Some(t@),
        None => None,
    }
}

impl View for LayerWeights {
    type V = LayerView;

    open spec fn view(&self) -> LayerView {
        LayerView {
            hc_attn_fn: self.hc_attn_fn@,
            hc_attn_scale: self.hc_attn_scale@,
            hc_attn_base: self.hc_attn_base@,
            attn_norm: self.attn_norm@,
            attn_q_a: self.attn_q_a@,
            attn_q_a_norm: self.attn_q_a_norm@,
            attn_q_b: self.attn_q_b@,
            attn_kv: self.attn_kv@,
            attn_kv_a_norm: self.attn_kv_a_norm@,
            attn_sinks: self.attn_sinks@,
            attn_output_a: self.attn_output_a@,
            attn_output_b: self.attn_output_b@,
            attn_compressor_ape: optional_view(self.attn_compressor_ape),
            attn_compressor_kv: optional_view(self.attn_compressor_kv),
            attn_compressor_gate: optional_view(self.attn_compressor_gate),
            attn_compressor_norm: optional_view(self.attn_compressor_norm),
            indexer_attn_q_b: optional_view(self.indexer_attn_q_b),
            indexer_proj: optional_view(self.indexer_proj),
            indexer_compressor_ape: optional_view(self.indexer_compressor_ape),
            indexer_compressor_kv: optional_view(self.indexer_compressor_kv),
            indexer_compressor_gate: optional_view(self.indexer_compressor_gate),
            indexer_compressor_norm: optional_view(self.indexer_compressor_norm),
            hc_ffn_fn: self.hc_ffn_fn@,
            hc_ffn_scale: self.hc_ffn_scale@,
            hc_ffn_base: self.hc_ffn_base@,
            ffn_norm: self.ffn_norm@,
            ffn_gate_inp: self.ffn_gate_inp@,
            ffn_exp_probs_b: optional_view(self.ffn_exp_probs_b),
            ffn_gate_exps: self.ffn_gate_exps@,
            ffn_up_exps: self.ffn_up_exps@,
            ffn_down_exps: self.ffn_down_exps@,
            ffn_gate_shexp: self.ffn_gate_shexp@,
            ffn_up_shexp: self.ffn_up_shexp@,
            ffn_down_shexp: self.ffn_down_shexp@,
            ffn_gate_tid2eid: optional_view(self.ffn_gate_tid2eid),
        }
    }
}

/// The weight table of a model, one entry of `layer` for each layer.
#[derive(Debug, Clone)]
pub struct Weights {
    pub token_embd: TensorInfo,
    pub output_hc_base: TensorInfo,
    pub output_hc_fn: TensorInfo,
    pub output_hc_scale: TensorInfo,
    pub output_norm: TensorInfo,
    pub output: TensorInfo,
    pub layer: Vec<LayerWeights>,
}

/// The mathematical form of `Weights`.
#[verifier::ext_equal]
pub struct WeightsView {
    pub token_embd: TensorView,
    pub output_hc_base: TensorView,
    pub output_hc_fn: TensorView,
    pub output_hc_scale: TensorView,
    pub output_norm: TensorView,
    pub output: TensorView,
    pub layer: Seq<LayerView>,
}

/// The views of the layers.
pub open spec fn layer_views(s: Seq<LayerWeights>) -> Seq<LayerView> {
    Seq::new(s.len(), |i: int| s[i]@)
}

impl View for Weights {
    type V = WeightsView;

    open spec fn view(&self) -> WeightsView {
        WeightsView {
            token_embd: self.token_embd@,
            output_hc_base: self.output_hc_base@,
            output_hc_fn: self.output_hc_fn@,
            output_hc_scale: self.output_hc_scale@,
            output_norm: self.output_norm@,
            output: self.output@,
            layer: layer_views(self.layer@),
        }
    }
}

/// The tensors of the multi-token prediction head.
#[derive(Debug, Clone)]
pub struct MtpWeights {
    pub e_proj: TensorInfo,
    pub h_proj: TensorInfo,
    pub enorm: TensorInfo,
    pub hnorm: TensorInfo,
    pub norm: TensorInfo,
    pub hc_head_base: TensorInfo,
    pub hc_head_fn: TensorInfo,
    pub hc_head_scale: TensorInfo,
    pub block: MtpLayerWeights,
}

/// The tensors of the one layer of the multi-token prediction head.
#[derive(Debug, Clone)]
pub struct MtpLayerWeights {
    pub hc_attn_fn: TensorInfo,
    pub hc_attn_scale: TensorInfo,
    pub hc_attn_base: TensorInfo,
    pub attn_norm: TensorInfo,
    pub attn_q_a: TensorInfo,
    pub attn_q_a_norm: TensorInfo,
    pub attn_q_b: TensorInfo,
    pub attn_kv: TensorInfo,
    pub attn_kv_a_norm: TensorInfo,
    pub attn_sinks: TensorInfo,
    pub attn_output_a: TensorInfo,
    pub attn_output_b: TensorInfo,
    pub hc_ffn_fn: TensorInfo,
    pub hc_ffn_scale: TensorInfo,
    pub hc_ffn_base: TensorInfo,
    pub ffn_norm: TensorInfo,
    pub ffn_gate_inp: TensorInfo,
    pub ffn_exp_probs_b: TensorInfo,
    pub ffn_gate_exps: TensorInfo,
    pub ffn_up_exps: TensorInfo,
    pub ffn_down_exps: TensorInfo,
    pub ffn_gate_shexp: TensorInfo,
    pub ffn_up_shexp: TensorInfo,
    pub ffn_down_shexp: TensorInfo,
}

/// The mathematical form of `MtpWeights`.
pub struct MtpView {
    pub e_proj: TensorView,
    pub h_proj: TensorView,
    pub enorm: TensorView,
    pub hnorm: TensorView,
    pub norm: TensorView,
    pub hc_head_base: TensorView,
    pub hc_head_fn: TensorView,
    pub hc_head_scale: TensorView,
    pub block: MtpLayerView,
}

/// The mathematical form of `MtpLayerWeights`.
pub struct MtpLayerView {
    pub hc_attn_fn: TensorView,
    pub hc_attn_scale: TensorView,
    pub hc_attn_base: TensorView,
    pub attn_norm: TensorView,
    pub attn_q_a: TensorView,
    pub attn_q_a_norm: TensorView,
    pub attn_q_b: TensorView,
    pub attn_kv: TensorView,
    pub attn_kv_a_norm: TensorView,
    pub attn_sinks: TensorView,
    pub attn_output_a: TensorView,
    pub attn_output_b: TensorView,
    pub hc_ffn_fn: TensorView,
    pub hc_ffn_scale: TensorView,
    pub hc_ffn_base: TensorView,
    pub ffn_norm: TensorView,
    pub ffn_gate_inp: TensorView,
    pub ffn_exp_probs_b: TensorView,
    pub ffn_gate_exps: TensorView,
    pub ffn_up_exps: TensorView,
    pub ffn_down_exps: TensorView,
    pub ffn_gate_shexp: TensorView,
    pub ffn_up_shexp: TensorView,
    pub ffn_down_shexp: TensorView,
}

impl View for MtpLayerWeights {
    type V = MtpLayerView;

    open spec fn view(&self) -> MtpLayerView {
        MtpLayerView {
            hc_attn_fn: self.hc_attn_fn@,
            hc_attn_scale: self.hc_attn_scale@,
            hc_attn_base: self.hc_attn_base@,
            attn_norm: self.attn_norm@,
            attn_q_a: self.attn_q_a@,
            attn_q_a_norm: self.attn_q_a_norm@,
            attn_q_b: self.attn_q_b@,
            attn_kv: self.attn_kv@,
            attn_kv_a_norm: self.attn_kv_a_norm@,
            attn_sinks: self.attn_sinks@,
            attn_output_a: self.attn_output_a@,
            attn_output_b: self.attn_output_b@,
            hc_ffn_fn: self.hc_ffn_fn@,
            hc_ffn_scale: self.hc_ffn_scale@,
            hc_ffn_base: self.hc_ffn_base@,
            ffn_norm: self.ffn_norm@,
            ffn_gate_inp: self.ffn_gate_inp@,
            ffn_exp_probs_b: self.ffn_exp_probs_b@,
            ffn_gate_exps: self.ffn_gate_exps@,
            ffn_up_exps: self.ffn_up_exps@,
            ffn_down_exps: self.ffn_down_exps@,
            ffn_gate_shexp: self.ffn_gate_shexp@,
            ffn_up_shexp: self.ffn_up_shexp@,
            ffn_down_shexp: self.ffn_down_shexp@,
        }
    }
}

impl View for MtpWeights {
    type V = MtpView;

    open spec fn view(&self) -> MtpView {
        MtpView {
            e_proj: self.e_proj@,
            h_proj: self.h_proj@,
            enorm: self.enorm@,
            hnorm: self.hnorm@,
            norm: self.norm@,
            hc_head_base: self.hc_head_base@,
            hc_head_fn: self.hc_head_fn@,
            hc_head_scale: self.hc_head_scale@,
            block: self.block@,
        }
    }
}

// ── Errors ───────────────────────────────────────────────────────────────

/// Why a model file does not hold the weights of the fixed layout.
#[derive(Debug)]
pub enum WeightsError {
    /// A required tensor is not in the directory.
    Missing { name: String },
    /// A tensor has another type than the layout demands.
    WrongType { tensor: String, got: u32, expected: u32 },
    /// A tensor that has to be of type F16 or F32 is of another one.
    NotPlain { tensor: String, got: u32 },
    /// A routed expert tensor has none of the types Q2_K, Q4_K and IQ2_XXS.
    NotRouted { tensor: String, got: u32 },
    /// A tensor has another number of dimensions.
    WrongRank { tensor: String, got: u32, expected: u32 },
    /// Dimension `index` of a tensor has another size.
    WrongDim { tensor: String, index: u32, size: u64, wanted: u64 },
    /// A layer lacks a tensor that its kind of layer has.
    Absent { layer: u32, slot: String },
    /// Routed experts whose two input tensors differ in type: of a layer, or of the draft
    /// head where no layer is named.
    MixedExperts { of_layer: Option<u32>, gate: u32, up: u32 },
}

/// The mathematical form of `WeightsError`.
pub enum WeightsErrorView {
    Missing { name: Seq<char> },
    WrongType { tensor: Seq<char>, got: u32, expected: u32 },
    NotPlain { tensor: Seq<char>, got: u32 },
    NotRouted { tensor: Seq<char>, got: u32 },
    WrongRank { tensor: Seq<char>, got: u32, expected: u32 },
    WrongDim { tensor: Seq<char>, index: u32, size: u64, wanted: u64 },
    Absent { layer: u32, slot: Seq<char> },
    MixedExperts { of_layer: Option<u32>, gate: u32, up: u32 },
}

impl View for WeightsError {
    type V = WeightsErrorView;

    open spec fn view(&self) -> WeightsErrorView {
        match *self {
            WeightsError::Missing { name } => WeightsErrorView::Missing { name: name@ },
            WeightsError::WrongType { tensor, got, expected } => WeightsErrorView::WrongType {
                tensor: tensor@,
                got,
                expected,
            },
            WeightsError::NotPlain { tensor, got } => WeightsErrorView::NotPlain {
                tensor: tensor@,
                got,
            },
            WeightsError::NotRouted { tensor, got } => WeightsErrorView::NotRouted {
                tensor: tensor@,
                got,
            },
            WeightsError::WrongRank { tensor, got, expected } => WeightsErrorView::WrongRank {
                tensor: tensor@,
                got,
                expected,
            },
            WeightsError::WrongDim { tensor, index, size, wanted } => WeightsErrorView::WrongDim {
                tensor: tensor@,
                index,
                size,
                wanted,
            },
            WeightsError::Absent { layer, slot } => WeightsErrorView::Absent { layer, slot: slot@ },
            WeightsError::MixedExperts { of_layer, gate, up } => WeightsErrorView::MixedExperts {
                of_layer,
                gate,
                up,
            },
        }
    }
}

/// What is wrong, if anything is.
pub type Fault = Option<WeightsErrorView>;

/// The first of two faults.
pub open spec fn or_else(a: Fault, b: Fault) -> Fault {
    if a is Some {
        a
    } else {
        b
    }
}

/// Whether `r` reports the fault `f`, and success exactly where there is none.
pub open spec fn reports<T>(r: Result<T, WeightsError>, f: Fault) -> bool {
    match r {
        Ok(_) => f is None,
        Err(e) => f == Some(e@),
    }
}

// ── Layout of one tensor ─────────────────────────────────────────────────

/// Size of dimension `i` of a tensor, zero past the last one.
pub open spec fn dim(t: TensorView, i: int) -> u64 {
    if 0 <= i < t.dims.len() {
        t.dims[i]
    } else {
        0
    }
}

/// The first of the dimensions `i..ndim` that is not as in `want`.
pub open spec fn dims_fault(t: TensorView, ndim: int, want: Seq<u64>, i: int) -> Fault
    decreases ndim - i,
{
    if i >= ndim {
        None
    } else if dim(t, i) != want[i] {
        Some(
            WeightsErrorView::WrongDim {
                tensor: t.name,
                index: i as u32,
                size: dim(t, i),
                wanted: want[i],
            },
        )
    } else {
        dims_fault(t, ndim, want, i + 1)
    }
}

/// What is wrong with the number and size of the dimensions of `t`.
#[verifier::opaque]
pub open spec fn shape_fault(t: TensorView, ndim: u32, d0: u64, d1: u64, d2: u64) -> Fault {
    if t.ndim != ndim {
        Some(WeightsErrorView::WrongRank { tensor: t.name, got: t.ndim, expected: ndim })
    } else {
        dims_fault(t, ndim as int, seq![d0, d1, d2], 0)
    }
}

/// What is wrong with `t`, which has to be of type `ty` and of the given shape.
pub open spec fn layout(t: TensorView, ty: u32, ndim: u32, d0: u64, d1: u64, d2: u64) -> Fault {
    if t.tensor_type != ty {
        Some(WeightsErrorView::WrongType { tensor: t.name, got: t.tensor_type, expected: ty })
    } else {
        shape_fault(t, ndim, d0, d1, d2)
    }
}

/// What is wrong with `t`, which has to be F16 or F32 and of the given shape.
pub open spec fn plain_layout(t: TensorView, ndim: u32, d0: u64, d1: u64, d2: u64) -> Fault {
    if t.tensor_type != 0 && t.tensor_type != 1 {
        Some(WeightsErrorView::NotPlain { tensor: t.name, got: t.tensor_type })
    } else {
        shape_fault(t, ndim, d0, d1, d2)
    }
}

/// What is wrong with `t`, which has to be Q2_K, Q4_K or IQ2_XXS and of three
/// dimensions of the given size.
pub open spec fn routed_layout(t: TensorView, d0: u64, d1: u64, d2: u64) -> Fault {
    if t.tensor_type != 10 && t.tensor_type != 12 && t.tensor_type != 16 {
        Some(WeightsErrorView::NotRouted { tensor: t.name, got: t.tensor_type })
    } else {
        shape_fault(t, 3, d0, d1, d2)
    }
}

/// What is wrong with the tensor in `slot` of layer `il`, which has to be there.
pub open spec fn slot_layout(
    t: Option<TensorView>,
    il: u32,
    slot: Seq<char>,
    ty: u32,
    ndim: u32,
    d0: u64,
    d1: u64,
) -> Fault {
    match t {
        Some(t) => layout(t, ty, ndim, d0, d1, 0),
        None => Some(WeightsErrorView::Absent { layer: il, slot }),
    }
}

fn expect_shape(t: &TensorInfo, ndim: u32, d0: u64, d1: u64, d2: u64) -> (r: Result<
    (),
    WeightsError,
>)
    requires
        ndim <= 3,
    ensures
        reports(r, shape_fault(t@, ndim, d0, d1, d2)),
{
    proof {
        reveal(shape_fault);
    }
    if t.ndim != ndim {
        return Err(
            WeightsError::WrongRank { tensor: t.name.clone(), got: t.ndim, expected: ndim },
        );
    }
    let ghost want = seq![d0, d1, d2];
    let mut i: u32 = 0;
    while i < ndim
        invariant
            i <= ndim <= 3,
            want == seq![d0, d1, d2],
            shape_fault(t@, ndim, d0, d1, d2) == dims_fault(t@, ndim as int, want, i as int),
        decreases ndim - i,
    {
        let expected: u64 = if i == 0 {
            d0
        } else if i == 1 {
            d1
        } else {
            d2
        };
        let got: u64 = if (i as usize) < t.dims.len() {
            t.dims[i as usize]
        } else {
            0
        };
        assert(want[i as int] == expected);
        if got != expected {
            return Err(
                WeightsError::WrongDim { tensor: t.name.clone(), index: i, size: got, wanted: expected },
            );
        }
        i = i + 1;
    }
    Ok(())
}

fn expect_layout(t: &TensorInfo, ty: u32, ndim: u32, d0: u64, d1: u64, d2: u64) -> (r: Result<
    (),
    WeightsError,
>)
    requires
        ndim <= 3,
    ensures
        reports(r, layout(t@, ty, ndim, d0, d1, d2)),
{
    if t.tensor_type != ty {
        return Err(
            WeightsError::WrongType { tensor: t.name.clone(), got: t.tensor_type, expected: ty },
        );
    }
    expect_shape(t, ndim, d0, d1, d2)
}

fn expect_plain_layout(t: &TensorInfo, ndim: u32, d0: u64, d1: u64, d2: u64) -> (r: Result<
    (),
    WeightsError,
>)
    requires
        ndim <= 3,
    ensures
        reports(r, plain_layout(t@, ndim, d0, d1, d2)),
{
    if t.tensor_type != 0 && t.tensor_type != 1 {
        return Err(WeightsError::NotPlain { tensor: t.name.clone(), got: t.tensor_type });
    }
    expect_shape(t, ndim, d0, d1, d2)
}

fn expect_routed_expert(t: &TensorInfo, d0: u64, d1: u64, d2: u64) -> (r: Result<
    (),
    WeightsError,
>)
    ensures
        reports(r, routed_layout(t@, d0, d1, d2)),
{
    if t.tensor_type != 10 && t.tensor_type != 12 && t.tensor_type != 16 {
        return Err(WeightsError::NotRouted { tensor: t.name.clone(), got: t.tensor_type });
    }
    expect_shape(t, 3, d0, d1, d2)
}

fn expect_slot(
    t: &Option<TensorInfo>,
    il: u32,
    slot: &str,
    ty: u32,
    ndim: u32,
    d0: u64,
    d1: u64,
) -> (r: Result<(), WeightsError>)
    requires
        ndim <= 3,
    ensures
        reports(r, slot_layout(optional_view(*t), il, slot@, ty, ndim, d0, d1)),
{
    match t {
        Some(t) => expect_layout(t, ty, ndim, d0, d1, 0),
        None => Err(WeightsError::Absent { layer: il, slot: String::from_str(slot) }),
    }
}

// ── Layout of a layer ────────────────────────────────────────────────────

/// What is wrong with the attention tensors that every layer has.
pub open spec fn attention_fault(l: LayerView) -> Fault {
    or_else(
        layout(l.hc_attn_fn, 1, 2, HC_DIM, HC_MIX_DIM, 0),
    or_else(
        layout(l.hc_attn_scale, 0, 1, 3, 0, 0),
    or_else(
        layout(l.hc_attn_base, 0, 1, HC_MIX_DIM, 0, 0),
    or_else(
        layout(l.attn_norm, 0, 1, EMBD, 0, 0),
    or_else(
        layout(l.attn_q_a, 8, 2, EMBD, LORA_Q, 0),
    or_else(
        layout(l.attn_q_a_norm, 0, 1, LORA_Q, 0, 0),
    or_else(
        layout(l.attn_q_b, 8, 2, LORA_Q, Q_DIM, 0),
    or_else(
        layout(l.attn_kv, 8, 2, EMBD, HEAD_DIM, 0),
    or_else(
        layout(l.attn_kv_a_norm, 0, 1, HEAD_DIM, 0, 0),
    or_else(
        layout(l.attn_sinks, 0, 1, HEAD, 0, 0),
    or_else(
        layout(l.attn_output_a, 8, 2, OUT_A_DIM, OUT_LOW_DIM, 0),
        layout(l.attn_output_b, 8, 2, OUT_LOW_DIM, EMBD, 0)
    )))))))))))
}

/// What is wrong with the compressor of a layer whose ratio is not zero.
pub open spec fn compressor_fault(l: LayerView, il: u32) -> Fault {
    let ratio = compress_ratio(il as int);
    let width: u64 = if ratio == 4 {
        (2 * HEAD_DIM) as u64
    } else {
        HEAD_DIM
    };
    or_else(
        slot_layout(l.attn_compressor_ape, il, "compressor_ape"@, 1, 2, width, ratio as u64),
    or_else(
        slot_layout(l.attn_compressor_kv, il, "compressor_kv"@, 1, 2, EMBD, width),
    or_else(
        slot_layout(l.attn_compressor_gate, il, "compressor_gate"@, 1, 2, EMBD, width),
        slot_layout(l.attn_compressor_norm, il, "compressor_norm"@, 0, 1, HEAD_DIM, 0)
    )))
}

/// What is wrong with the indexer of a layer of ratio 4.
pub open spec fn indexer_fault(l: LayerView, il: u32) -> Fault {
    let ratio = compress_ratio(il as int);
    or_else(
        slot_layout(l.indexer_attn_q_b, il, "indexer_attn_q_b"@, 1, 2, LORA_Q, INDEX_Q_DIM),
    or_else(
        slot_layout(l.indexer_proj, il, "indexer_proj"@, 1, 2, EMBD, INDEX_HEAD),
    or_else(
        slot_layout(l.indexer_compressor_ape, il, "indexer_compressor_ape"@, 1, 2, INDEX_WIDTH, ratio as u64),
    or_else(
        slot_layout(l.indexer_compressor_kv, il, "indexer_compressor_kv"@, 1, 2, EMBD, INDEX_WIDTH),
    or_else(
        slot_layout(l.indexer_compressor_gate, il, "indexer_compressor_gate"@, 1, 2, EMBD, INDEX_WIDTH),
        slot_layout(l.indexer_compressor_norm, il, "indexer_compressor_norm"@, 0, 1, INDEX_HEAD_DIM, 0)
    )))))
}

/// What is wrong with the tensors that lead into the experts.
pub open spec fn router_fault(l: LayerView) -> Fault {
    or_else(
        layout(l.hc_ffn_fn, 1, 2, HC_DIM, HC_MIX_DIM, 0),
    or_else(
        layout(l.hc_ffn_scale, 0, 1, 3, 0, 0),
    or_else(
        layout(l.hc_ffn_base, 0, 1, HC_MIX_DIM, 0, 0),
    or_else(
        layout(l.ffn_norm, 0, 1, EMBD, 0, 0),
        layout(l.ffn_gate_inp, 1, 2, EMBD, EXPERT, 0)
    ))))
}

/// What is wrong with the routed and shared experts of layer `il`.
pub open spec fn experts_fault(l: LayerView, il: u32) -> Fault {
    or_else(
        match l.ffn_exp_probs_b {
            Some(t) => layout(t, 0, 1, EXPERT, 0, 0),
            None => None,
        },
    or_else(
        routed_layout(l.ffn_gate_exps, EMBD, FF_EXP, EXPERT),
    or_else(
        routed_layout(l.ffn_up_exps, EMBD, FF_EXP, EXPERT),
    or_else(
        routed_layout(l.ffn_down_exps, FF_EXP, EMBD, EXPERT),
    or_else(
        if l.ffn_gate_exps.tensor_type != l.ffn_up_exps.tensor_type {
            Some(
                WeightsErrorView::MixedExperts {
                    of_layer: Some(il),
                    gate: l.ffn_gate_exps.tensor_type,
                    up: l.ffn_up_exps.tensor_type,
                },
            )
        } else {
            None
        },
    or_else(
        layout(l.ffn_gate_shexp, 8, 2, EMBD, FF_EXP, 0),
    or_else(
        layout(l.ffn_up_shexp, 8, 2, EMBD, FF_EXP, 0),
    or_else(
        layout(l.ffn_down_shexp, 8, 2, FF_EXP, EMBD, 0),
        if il < DS4_N_HASH_LAYER {
            slot_layout(l.ffn_gate_tid2eid, il, "ffn_gate_tid2eid"@, 26, 2, EXPERT_USED, VOCAB)
        } else {
            None
        }
    ))))))))
}

/// What is wrong with the tensors of layer `il`.
pub open spec fn layer_fault(l: LayerView, il: u32) -> Fault {
    or_else(
        attention_fault(l),
        or_else(
            if compress_ratio(il as int) != 0 {
                compressor_fault(l, il)
            } else {
                None
            },
            or_else(
                if compress_ratio(il as int) == 4 {
                    indexer_fault(l, il)
                } else {
                    None
                },
                or_else(router_fault(l), experts_fault(l, il)),
            ),
        ),
    )
}

/// The first fault of the first `n` layers.
pub open spec fn layers_fault(s: Seq<LayerView>, n: nat) -> Fault
    decreases n,
{
    if n == 0 {
        None
    } else {
        or_else(layers_fault(s, (n - 1) as nat), layer_fault(s[n - 1], (n - 1) as u32))
    }
}

/// What is wrong with the tensors outside the layers.
pub open spec fn top_fault(w: WeightsView) -> Fault {
    or_else(
        layout(w.token_embd, 1, 2, EMBD, VOCAB, 0),
    or_else(
        layout(w.output_hc_base, 0, 1, HC, 0, 0),
    or_else(
        layout(w.output_hc_fn, 1, 2, HC_DIM, HC, 0),
    or_else(
        layout(w.output_hc_scale, 0, 1, 1, 0, 0),
    or_else(
        layout(w.output_norm, 0, 1, EMBD, 0, 0),
        layout(w.output, 8, 2, EMBD, VOCAB, 0)
    )))))
}

/// What is wrong with a weight table.
pub open spec fn weights_fault(w: WeightsView) -> Fault {
    or_else(top_fault(w), layers_fault(w.layer, DS4_N_LAYER as nat))
}

proof fn lemma_layers_fault(s: Seq<LayerView>, k: nat, n: nat)
    requires
        k <= n,
        layers_fault(s, k) is Some,
    ensures
        layers_fault(s, n) == layers_fault(s, k),
    decreases n,
{
    if k < n {
        lemma_layers_fault(s, k, (n - 1) as nat);
    }
}

fn check_attention(l: &LayerWeights) -> (r: Result<(), WeightsError>)
    ensures
        reports(r, attention_fault(l@)),
{
    match expect_layout(&l.hc_attn_fn, 1, 2, HC_DIM, HC_MIX_DIM, 0) {
        Err(e) => {
            return Err(e);
        },
        Ok(_) => {},
    }
    match expect_layout(&l.hc_attn_scale, 0, 1, 3, 0, 0) {
        Err(e) => {
            return Err(e);
        },
        Ok(_) => {},
    }
    match expect_layout(&l.hc_attn_base, 0, 1, HC_MIX_DIM, 0, 0) {
        Err(e) => {
            return Err(e);
        },
        Ok(_) => {},
    }
    match expect_layout(&l.attn_norm, 0, 1, EMBD, 0, 0) {
        Err(e) => {
            return Err(e);
        },
        Ok(_) => {},
    }
    match expect_layout(&l.attn_q_a, 8, 2, EMBD, LORA_Q, 0) {
        Err(e) => {
            return Err(e);
        },
        Ok(_) => {},
    }
    match expect_layout(&l.attn_q_a_norm, 0, 1, LORA_Q, 0, 0) {
        Err(e) => {
            return Err(e);
        },
        Ok(_) => {},
    }
    match expect_layout(&l.attn_q_b, 8, 2, LORA_Q, Q_DIM, 0) {
        Err(e) => {
            return Err(e);
        },
        Ok(_) => {},
    }
    match expect_layout(&l.attn_kv, 8, 2, EMBD, HEAD_DIM, 0) {
        Err(e) => {
            return Err(e);
        },
        Ok(_) => {},
    }
    match expect_layout(&l.attn_kv_a_norm, 0, 1, HEAD_DIM, 0, 0) {
        Err(e) => {
            return Err(e);
        },
        Ok(_) => {},
    }
    match expect_layout(&l.attn_sinks, 0, 1, HEAD, 0, 0) {
        Err(e) => {
            return Err(e);
        },
        Ok(_) => {},
    }
    match expect_layout(&l.attn_output_a, 8, 2, OUT_A_DIM, OUT_LOW_DIM, 0) {
        Err(e) => {
            return Err(e);
        },
        Ok(_) => {},
    }
    expect_layout(&l.attn_output_b, 8, 2, OUT_LOW_DIM, EMBD, 0)
}

fn check_compressor(l: &LayerWeights, il: u32) -> (r: Result<(), WeightsError>)
    requires
        il < DS4_N_LAYER,
    ensures
        reports(r, compressor_fault(l@, il)),
{
    let ratio: u32 = layer_compress_ratio(il);
    let width: u64 = if ratio == 4 {
        2 * HEAD_DIM
    } else {
        HEAD_DIM
    };
    match expect_slot(&l.attn_compressor_ape, il, "compressor_ape", 1, 2, width, ratio as u64) {
        Err(e) => {
            return Err(e);
        },
        Ok(_) => {},
    }
    match expect_slot(&l.attn_compressor_kv, il, "compressor_kv", 1, 2, EMBD, width) {
        Err(e) => {
            return Err(e);
        },
        Ok(_) => {},
    }
    match expect_slot(&l.attn_compressor_gate, il, "compressor_gate", 1, 2, EMBD, width) {
        Err(e) => {
            return Err(e);
        },
        Ok(_) => {},
    }
    expect_slot(&l.attn_compressor_norm, il, "compressor_norm", 0, 1, HEAD_DIM, 0)
}

fn check_indexer(l: &LayerWeights, il: u32) -> (r: Result<(), WeightsError>)
    requires
        il < DS4_N_LAYER,
    ensures
        reports(r, indexer_fault(l@, il)),
{
    let ratio: u32 = layer_compress_ratio(il);
    match expect_slot(&l.indexer_attn_q_b, il, "indexer_attn_q_b", 1, 2, LORA_Q, INDEX_Q_DIM) {
        Err(e) => {
            return Err(e);
        },
        Ok(_) => {},
    }
    match expect_slot(&l.indexer_proj, il, "indexer_proj", 1, 2, EMBD, INDEX_HEAD) {
        Err(e) => {
            return Err(e);
        },
        Ok(_) => {},
    }
    match expect_slot(&l.indexer_compressor_ape, il, "indexer_compressor_ape", 1, 2, INDEX_WIDTH, ratio as u64) {
        Err(e) => {
            return Err(e);
        },
        Ok(_) => {},
    }
    match expect_slot(&l.indexer_compressor_kv, il, "indexer_compressor_kv", 1, 2, EMBD, INDEX_WIDTH) {
        Err(e) => {
            return Err(e);
        },
        Ok(_) => {},
    }
    match expect_slot(&l.indexer_compressor_gate, il, "indexer_compressor_gate", 1, 2, EMBD, INDEX_WIDTH) {
        Err(e) => {
            return Err(e);
        },
        Ok(_) => {},
    }
    expect_slot(&l.indexer_compressor_norm, il, "indexer_compressor_norm", 0, 1, INDEX_HEAD_DIM, 0)
}

fn check_router(l: &LayerWeights) -> (r: Result<(), WeightsError>)
    ensures
        reports(r, router_fault(l@)),
{
    match expect_layout(&l.hc_ffn_fn, 1, 2, HC_DIM, HC_MIX_DIM, 0) {
        Err(e) => {
            return Err(e);
        },
        Ok(_) => {},
    }
    match expect_layout(&l.hc_ffn_scale, 0, 1, 3, 0, 0) {
        Err(e) => {
            return Err(e);
        },
        Ok(_) => {},
    }
    match expect_layout(&l.hc_ffn_base, 0, 1, HC_MIX_DIM, 0, 0) {
        Err(e) => {
            return Err(e);
        },
        Ok(_) => {},
    }
    match expect_layout(&l.ffn_norm, 0, 1, EMBD, 0, 0) {
        Err(e) => {
            return Err(e);
        },
        Ok(_) => {},
    }
    expect_layout(&l.ffn_gate_inp, 1, 2, EMBD, EXPERT, 0)
}

fn check_experts(l: &LayerWeights, il: u32) -> (r: Result<(), WeightsError>)
    ensures
        reports(r, experts_fault(l@, il)),
{
    match &l.ffn_exp_probs_b {
        Some(t) => match expect_layout(t, 0, 1, EXPERT, 0, 0) {
            Err(e) => {
                return Err(e);
            },
            Ok(_) => {},
        },
        None => {},
    }
    match expect_routed_expert(&l.ffn_gate_exps, EMBD, FF_EXP, EXPERT) {
        Err(e) => {
            return Err(e);
        },
        Ok(_) => {},
    }
    match expect_routed_expert(&l.ffn_up_exps, EMBD, FF_EXP, EXPERT) {
        Err(e) => {
            return Err(e);
        },
        Ok(_) => {},
    }
    match expect_routed_expert(&l.ffn_down_exps, FF_EXP, EMBD, EXPERT) {
        Err(e) => {
            return Err(e);
        },
        Ok(_) => {},
    }
    if l.ffn_gate_exps.tensor_type != l.ffn_up_exps.tensor_type {
        return Err(
            WeightsError::MixedExperts {
                of_layer: Some(il),
                gate: l.ffn_gate_exps.tensor_type,
                up: l.ffn_up_exps.tensor_type,
            },
        );
    }
    match expect_layout(&l.ffn_gate_shexp, 8, 2, EMBD, FF_EXP, 0) {
        Err(e) => {
            return Err(e);
        },
        Ok(_) => {},
    }
    match expect_layout(&l.ffn_up_shexp, 8, 2, EMBD, FF_EXP, 0) {
        Err(e) => {
            return Err(e);
        },
        Ok(_) => {},
    }
    match expect_layout(&l.ffn_down_shexp, 8, 2, FF_EXP, EMBD, 0) {
        Err(e) => {
            return Err(e);
        },
        Ok(_) => {},
    }
    if il < DS4_N_HASH_LAYER {
        expect_slot(&l.ffn_gate_tid2eid, il, "ffn_gate_tid2eid", 26, 2, EXPERT_USED, VOCAB)
    } else {
        Ok(())
    }
}

fn check_layer(l: &LayerWeights, il: u32) -> (r: Result<(), WeightsError>)
    requires
        il < DS4_N_LAYER,
    ensures
        reports(r, layer_fault(l@, il)),
{
    let ratio: u32 = layer_compress_ratio(il);
    match check_attention(l) {
        Err(e) => {
            return Err(e);
        },
        Ok(_) => {},
    }
    if ratio != 0 {
        match check_compressor(l, il) {
            Err(e) => {
                return Err(e);
            },
            Ok(_) => {},
        }
    }
    if ratio == 4 {
        match check_indexer(l, il) {
            Err(e) => {
                return Err(e);
            },
            Ok(_) => {},
        }
    }
    match check_router(l) {
        Err(e) => {
            return Err(e);
        },
        Ok(_) => {},
    }
    check_experts(l, il)
}

fn check_top(w: &Weights) -> (r: Result<(), WeightsError>)
    ensures
        reports(r, top_fault(w@)),
{
    match expect_layout(&w.token_embd, 1, 2, EMBD, VOCAB, 0) {
        Err(e) => {
            return Err(e);
        },
        Ok(_) => {},
    }
    match expect_layout(&w.output_hc_base, 0, 1, HC, 0, 0) {
        Err(e) => {
            return Err(e);
        },
        Ok(_) => {},
    }
    match expect_layout(&w.output_hc_fn, 1, 2, HC_DIM, HC, 0) {
        Err(e) => {
            return Err(e);
        },
        Ok(_) => {},
    }
    match expect_layout(&w.output_hc_scale, 0, 1, 1, 0, 0) {
        Err(e) => {
            return Err(e);
        },
        Ok(_) => {},
    }
    match expect_layout(&w.output_norm, 0, 1, EMBD, 0, 0) {
        Err(e) => {
            return Err(e);
        },
        Ok(_) => {},
    }
    expect_layout(&w.output, 8, 2, EMBD, VOCAB, 0)
}

/// Checks that every tensor of the table has the type and the dimensions of the
/// fixed layout, and reports the first one that has not.
pub fn weights_validate_layout(w: &Weights) -> (r: Result<(), WeightsError>)
    requires
        w.layer@.len() == DS4_N_LAYER,
    ensures
        reports(r, weights_fault(w@)),
{
    match check_top(w) {
        Err(e) => {
            return Err(e);
        },
        Ok(_) => {},
    }
    let ghost views = w@.layer;
    let mut il: u32 = 0;
    while il < DS4_N_LAYER
        invariant
            il <= DS4_N_LAYER,
            w.layer@.len() == DS4_N_LAYER,
            views == layer_views(w.layer@),
            views == w@.layer,
            top_fault(w@) is None,
            layers_fault(views, il as nat) is None,
        decreases DS4_N_LAYER - il,
    {
        assert(views[il as int] == w.layer@[il as int]@);
        match check_layer(&w.layer[il as usize], il) {
            Err(e) => {
                proof {
                    lemma_layers_fault(views, (il + 1) as nat, DS4_N_LAYER as nat);
                }
                return Err(e);
            },
            Ok(_) => {},
        }
        il = il + 1;
    }
    Ok(())
}

/// What is wrong with the head tensors of the multi-token prediction.
pub open spec fn mtp_head_fault(w: MtpView) -> Fault {
    or_else(
        layout(w.hc_head_base, 0, 1, HC, 0, 0),
    or_else(
        plain_layout(w.hc_head_fn, 2, HC_DIM, HC, 0),
    or_else(
        layout(w.hc_head_scale, 0, 1, 1, 0, 0),
    or_else(
        layout(w.e_proj, 8, 2, EMBD, EMBD, 0),
    or_else(
        layout(w.h_proj, 8, 2, EMBD, EMBD, 0),
    or_else(
        layout(w.enorm, 0, 1, EMBD, 0, 0),
    or_else(
        layout(w.hnorm, 0, 1, EMBD, 0, 0),
        layout(w.norm, 0, 1, EMBD, 0, 0)
    )))))))
}

/// What is wrong with the attention tensors of the multi-token prediction layer.
pub open spec fn mtp_attention_fault(l: MtpLayerView) -> Fault {
    or_else(
        plain_layout(l.hc_attn_fn, 2, HC_DIM, HC_MIX_DIM, 0),
    or_else(
        layout(l.hc_attn_scale, 0, 1, 3, 0, 0),
    or_else(
        layout(l.hc_attn_base, 0, 1, HC_MIX_DIM, 0, 0),
    or_else(
        layout(l.attn_norm, 0, 1, EMBD, 0, 0),
    or_else(
        layout(l.attn_q_a, 8, 2, EMBD, LORA_Q, 0),
    or_else(
        layout(l.attn_q_a_norm, 0, 1, LORA_Q, 0, 0),
    or_else(
        layout(l.attn_q_b, 8, 2, LORA_Q, Q_DIM, 0),
    or_else(
        layout(l.attn_kv, 8, 2, EMBD, HEAD_DIM, 0),
    or_else(
        layout(l.attn_kv_a_norm, 0, 1, HEAD_DIM, 0, 0),
    or_else(
        layout(l.attn_sinks, 0, 1, HEAD, 0, 0),
    or_else(
        layout(l.attn_output_a, 8, 2, OUT_A_DIM, OUT_LOW_DIM, 0),
        layout(l.attn_output_b, 8, 2, OUT_LOW_DIM, EMBD, 0)
    )))))))))))
}

/// What is wrong with the experts of the multi-token prediction layer.
pub open spec fn mtp_experts_fault(l: MtpLayerView) -> Fault {
    or_else(
        plain_layout(l.hc_ffn_fn, 2, HC_DIM, HC_MIX_DIM, 0),
    or_else(
        layout(l.hc_ffn_scale, 0, 1, 3, 0, 0),
    or_else(
        layout(l.hc_ffn_base, 0, 1, HC_MIX_DIM, 0, 0),
    or_else(
        layout(l.ffn_norm, 0, 1, EMBD, 0, 0),
    or_else(
        plain_layout(l.ffn_gate_inp, 2, EMBD, EXPERT, 0),
    or_else(
        layout(l.ffn_exp_probs_b, 0, 1, EXPERT, 0, 0),
    or_else(
        routed_layout(l.ffn_gate_exps, EMBD, FF_EXP, EXPERT),
    or_else(
        routed_layout(l.ffn_up_exps, EMBD, FF_EXP, EXPERT),
    or_else(
        routed_layout(l.ffn_down_exps, FF_EXP, EMBD, EXPERT),
    or_else(
        if l.ffn_gate_exps.tensor_type != l.ffn_up_exps.tensor_type {
            Some(
                WeightsErrorView::MixedExperts {
                    of_layer: None,
                    gate: l.ffn_gate_exps.tensor_type,
                    up: l.ffn_up_exps.tensor_type,
                },
            )
        } else {
            None
        },
    or_else(
        layout(l.ffn_gate_shexp, 8, 2, EMBD, FF_EXP, 0),
    or_else(
        layout(l.ffn_up_shexp, 8, 2, EMBD, FF_EXP, 0),
        layout(l.ffn_down_shexp, 8, 2, FF_EXP, EMBD, 0)
    ))))))))))))
}

/// What is wrong with the weights of a multi-token prediction head.
pub open spec fn mtp_fault(w: MtpView) -> Fault {
    or_else(
        mtp_head_fault(w),
        or_else(mtp_attention_fault(w.block), mtp_experts_fault(w.block)),
    )
}

fn check_mtp_head(w: &MtpWeights) -> (r: Result<(), WeightsError>)
    ensures
        reports(r, mtp_head_fault(w@)),
{
    match expect_layout(&w.hc_head_base, 0, 1, HC, 0, 0) {
        Err(e) => {
            return Err(e);
        },
        Ok(_) => {},
    }
    match expect_plain_layout(&w.hc_head_fn, 2, HC_DIM, HC, 0) {
        Err(e) => {
            return Err(e);
        },
        Ok(_) => {},
    }
    match expect_layout(&w.hc_head_scale, 0, 1, 1, 0, 0) {
        Err(e) => {
            return Err(e);
        },
        Ok(_) => {},
    }
    match expect_layout(&w.e_proj, 8, 2, EMBD, EMBD, 0) {
        Err(e) => {
            return Err(e);
        },
        Ok(_) => {},
    }
    match expect_layout(&w.h_proj, 8, 2, EMBD, EMBD, 0) {
        Err(e) => {
            return Err(e);
        },
        Ok(_) => {},
    }
    match expect_layout(&w.enorm, 0, 1, EMBD, 0, 0) {
        Err(e) => {
            return Err(e);
        },
        Ok(_) => {},
    }
    match expect_layout(&w.hnorm, 0, 1, EMBD, 0, 0) {
        Err(e) => {
            return Err(e);
        },
        Ok(_) => {},
    }
    expect_layout(&w.norm, 0, 1, EMBD, 0, 0)
}

fn check_mtp_attention(l: &MtpLayerWeights) -> (r: Result<(), WeightsError>)
    ensures
        reports(r, mtp_attention_fault(l@)),
{
    match expect_plain_layout(&l.hc_attn_fn, 2, HC_DIM, HC_MIX_DIM, 0) {
        Err(e) => {
            return Err(e);
        },
        Ok(_) => {},
    }
    match expect_layout(&l.hc_attn_scale, 0, 1, 3, 0, 0) {
        Err(e) => {
            return Err(e);
        },
        Ok(_) => {},
    }
    match expect_layout(&l.hc_attn_base, 0, 1, HC_MIX_DIM, 0, 0) {
        Err(e) => {
            return Err(e);
        },
        Ok(_) => {},
    }
    match expect_layout(&l.attn_norm, 0, 1, EMBD, 0, 0) {
        Err(e) => {
            return Err(e);
        },
        Ok(_) => {},
    }
    match expect_layout(&l.attn_q_a, 8, 2, EMBD, LORA_Q, 0) {
        Err(e) => {
            return Err(e);
        },
        Ok(_) => {},
    }
    match expect_layout(&l.attn_q_a_norm, 0, 1, LORA_Q, 0, 0) {
        Err(e) => {
            return Err(e);
        },
        Ok(_) => {},
    }
    match expect_layout(&l.attn_q_b, 8, 2, LORA_Q, Q_DIM, 0) {
        Err(e) => {
            return Err(e);
        },
        Ok(_) => {},
    }
    match expect_layout(&l.attn_kv, 8, 2, EMBD, HEAD_DIM, 0) {
        Err(e) => {
            return Err(e);
        },
        Ok(_) => {},
    }
    match expect_layout(&l.attn_kv_a_norm, 0, 1, HEAD_DIM, 0, 0) {
        Err(e) => {
            return Err(e);
        },
        Ok(_) => {},
    }
    match expect_layout(&l.attn_sinks, 0, 1, HEAD, 0, 0) {
        Err(e) => {
            return Err(e);
        },
        Ok(_) => {},
    }
    match expect_layout(&l.attn_output_a, 8, 2, OUT_A_DIM, OUT_LOW_DIM, 0) {
        Err(e) => {
            return Err(e);
        },
        Ok(_) => {},
    }
    expect_layout(&l.attn_output_b, 8, 2, OUT_LOW_DIM, EMBD, 0)
}

fn check_mtp_experts(l: &MtpLayerWeights) -> (r: Result<(), WeightsError>)
    ensures
        reports(r, mtp_experts_fault(l@)),
{
    match expect_plain_layout(&l.hc_ffn_fn, 2, HC_DIM, HC_MIX_DIM, 0) {
        Err(e) => {
            return Err(e);
        },
        Ok(_) => {},
    }
    match expect_layout(&l.hc_ffn_scale, 0, 1, 3, 0, 0) {
        Err(e) => {
            return Err(e);
        },
        Ok(_) => {},
    }
    match expect_layout(&l.hc_ffn_base, 0, 1, HC_MIX_DIM, 0, 0) {
        Err(e) => {
            return Err(e);
        },
        Ok(_) => {},
    }
    match expect_layout(&l.ffn_norm, 0, 1, EMBD, 0, 0) {
        Err(e) => {
            return Err(e);
        },
        Ok(_) => {},
    }
    match expect_plain_layout(&l.ffn_gate_inp, 2, EMBD, EXPERT, 0) {
        Err(e) => {
            return Err(e);
        },
        Ok(_) => {},
    }
    match expect_layout(&l.ffn_exp_probs_b, 0, 1, EXPERT, 0, 0) {
        Err(e) => {
            return Err(e);
        },
        Ok(_) => {},
    }
    match expect_routed_expert(&l.ffn_gate_exps, EMBD, FF_EXP, EXPERT) {
        Err(e) => {
            return Err(e);
        },
        Ok(_) => {},
    }
    match expect_routed_expert(&l.ffn_up_exps, EMBD, FF_EXP, EXPERT) {
        Err(e) => {
            return Err(e);
        },
        Ok(_) => {},
    }
    match expect_routed_expert(&l.ffn_down_exps, FF_EXP, EMBD, EXPERT) {
        Err(e) => {
            return Err(e);
        },
        Ok(_) => {},
    }
    if l.ffn_gate_exps.tensor_type != l.ffn_up_exps.tensor_type {
        return Err(
            WeightsError::MixedExperts {
                of_layer: None,
                gate: l.ffn_gate_exps.tensor_type,
                up: l.ffn_up_exps.tensor_type,
            },
        );
    }
    match expect_layout(&l.ffn_gate_shexp, 8, 2, EMBD, FF_EXP, 0) {
        Err(e) => {
            return Err(e);
        },
        Ok(_) => {},
    }
    match expect_layout(&l.ffn_up_shexp, 8, 2, EMBD, FF_EXP, 0) {
        Err(e) => {
            return Err(e);
        },
        Ok(_) => {},
    }
    expect_layout(&l.ffn_down_shexp, 8, 2, FF_EXP, EMBD, 0)
}

/// Checks the types and the dimensions of the multi-token prediction tensors, and
/// reports the first one that is not as the layout demands.
pub fn mtp_weights_validate_layout(w: &MtpWeights) -> (r: Result<(), WeightsError>)
    ensures
        reports(r, mtp_fault(w@)),
{
    match check_mtp_head(w) {
        Err(e) => {
            return Err(e);
        },
        Ok(_) => {},
    }
    match check_mtp_attention(&w.block) {
        Err(e) => {
            return Err(e);
        },
        Ok(_) => {},
    }
    check_mtp_experts(&w.block)
}

// ── Binding ──────────────────────────────────────────────────────────────

/// The name of the tensor `suffix` of layer `il`.
pub open spec fn block_name(il: int, suffix: Seq<char>) -> Seq<char> {
    "blk."@ + dec(il as nat) + "."@ + suffix
}

fn block_tensor_name(il: u32, suffix: &str) -> (r: String)
    ensures
        r@ == block_name(il as int, suffix@),
{
    let mut s = String::from_str("blk.");
    let n = dec_u64(il as u64);
    append(&mut s, n.as_str());
    append(&mut s, ".");
    append(&mut s, suffix);
    s
}

/// The tensor called `name`; only of interest where there is one.
pub open spec fn tensor_of(m: ModelView, name: Seq<char>) -> TensorView {
    m.find_tensor(name)->0
}

/// The fault that no tensor is called `name`.
pub open spec fn absent(m: ModelView, name: Seq<char>) -> Fault {
    if m.find_tensor(name) is None {
        Some(WeightsErrorView::Missing { name })
    } else {
        None
    }
}

fn find_required_tensor(model: &ModelGGUF, name: &str) -> (r: Result<TensorInfo, WeightsError>)
    ensures
        reports(r, absent(model@, name@)),
        r matches Ok(t) ==> t@ == tensor_of(model@, name@),
{
    match model.find_tensor(name) {
        Some(t) => Ok(t.copy()),
        None => Err(WeightsError::Missing { name: String::from_str(name) }),
    }
}

fn find_required_tensorf(model: &ModelGGUF, suffix: &str, il: u32) -> (r: Result<
    TensorInfo,
    WeightsError,
>)
    ensures
        reports(r, absent(model@, block_name(il as int, suffix@))),
        r matches Ok(t) ==> t@ == tensor_of(model@, block_name(il as int, suffix@)),
{
    let name = block_tensor_name(il, suffix);
    find_required_tensor(model, name.as_str())
}

/// The tensor `suffix` of layer `il`, which the layer has where `present` holds.
pub open spec fn tensor_if(m: ModelView, present: bool, il: int, suffix: Seq<char>) -> Option<
    TensorView,
> {
    if present {
        Some(tensor_of(m, block_name(il, suffix)))
    } else {
        None
    }
}

/// The fault that layer `il` has no tensor `suffix` although `present` holds.
pub open spec fn absent_if(m: ModelView, present: bool, il: int, suffix: Seq<char>) -> Fault {
    if present {
        absent(m, block_name(il, suffix))
    } else {
        None
    }
}

fn find_tensor_if(model: &ModelGGUF, present: bool, suffix: &str, il: u32) -> (r: Result<
    Option<TensorInfo>,
    WeightsError,
>)
    ensures
        reports(r, absent_if(model@, present, il as int, suffix@)),
        r matches Ok(t) ==> optional_view(t) == tensor_if(model@, present, il as int, suffix@),
{
    if present {
        match find_required_tensorf(model, suffix, il) {
            Ok(t) => Ok(Some(t)),
            Err(e) => Err(e),
        }
    } else {
        Ok(None)
    }
}

/// The tensors of layer `il` of a model that has them all.
pub open spec fn layer_of(m: ModelView, il: int) -> LayerView {
    LayerView {
        hc_attn_fn: tensor_of(m, block_name(il, "hc_attn_fn.weight"@)),
        hc_attn_scale: tensor_of(m, block_name(il, "hc_attn_scale.weight"@)),
        hc_attn_base: tensor_of(m, block_name(il, "hc_attn_base.weight"@)),
        attn_norm: tensor_of(m, block_name(il, "attn_norm.weight"@)),
        attn_q_a: tensor_of(m, block_name(il, "attn_q_a.weight"@)),
        attn_q_a_norm: tensor_of(m, block_name(il, "attn_q_a_norm.weight"@)),
        attn_q_b: tensor_of(m, block_name(il, "attn_q_b.weight"@)),
        attn_kv: tensor_of(m, block_name(il, "attn_kv.weight"@)),
        attn_kv_a_norm: tensor_of(m, block_name(il, "attn_kv_a_norm.weight"@)),
        attn_sinks: tensor_of(m, block_name(il, "attn_sinks.weight"@)),
        attn_output_a: tensor_of(m, block_name(il, "attn_output_a.weight"@)),
        attn_output_b: tensor_of(m, block_name(il, "attn_output_b.weight"@)),
        attn_compressor_ape: tensor_if(m, compress_ratio(il) != 0, il, "attn_compressor_ape.weight"@),
        attn_compressor_kv: tensor_if(m, compress_ratio(il) != 0, il, "attn_compressor_kv.weight"@),
        attn_compressor_gate: tensor_if(m, compress_ratio(il) != 0, il, "attn_compressor_gate.weight"@),
        attn_compressor_norm: tensor_if(m, compress_ratio(il) != 0, il, "attn_compressor_norm.weight"@),
        indexer_attn_q_b: tensor_if(m, compress_ratio(il) == 4, il, "indexer.attn_q_b.weight"@),
        indexer_proj: tensor_if(m, compress_ratio(il) == 4, il, "indexer.proj.weight"@),
        indexer_compressor_ape: tensor_if(m, compress_ratio(il) == 4, il, "indexer_compressor_ape.weight"@),
        indexer_compressor_kv: tensor_if(m, compress_ratio(il) == 4, il, "indexer_compressor_kv.weight"@),
        indexer_compressor_gate: tensor_if(m, compress_ratio(il) == 4, il, "indexer_compressor_gate.weight"@),
        indexer_compressor_norm: tensor_if(m, compress_ratio(il) == 4, il, "indexer_compressor_norm.weight"@),
        hc_ffn_fn: tensor_of(m, block_name(il, "hc_ffn_fn.weight"@)),
        hc_ffn_scale: tensor_of(m, block_name(il, "hc_ffn_scale.weight"@)),
        hc_ffn_base: tensor_of(m, block_name(il, "hc_ffn_base.weight"@)),
        ffn_norm: tensor_of(m, block_name(il, "ffn_norm.weight"@)),
        ffn_gate_inp: tensor_of(m, block_name(il, "ffn_gate_inp.weight"@)),
        ffn_exp_probs_b: m.find_tensor(block_name(il, "exp_probs_b.bias"@)),
        ffn_gate_exps: tensor_of(m, block_name(il, "ffn_gate_exps.weight"@)),
        ffn_up_exps: tensor_of(m, block_name(il, "ffn_up_exps.weight"@)),
        ffn_down_exps: tensor_of(m, block_name(il, "ffn_down_exps.weight"@)),
        ffn_gate_shexp: tensor_of(m, block_name(il, "ffn_gate_shexp.weight"@)),
        ffn_up_shexp: tensor_of(m, block_name(il, "ffn_up_shexp.weight"@)),
        ffn_down_shexp: tensor_of(m, block_name(il, "ffn_down_shexp.weight"@)),
        ffn_gate_tid2eid: tensor_if(m, il < DS4_N_HASH_LAYER, il, "ffn_gate_tid2eid.weight"@),
    }
}

/// The first required tensor of layer `il` that the file lacks.
pub open spec fn layer_missing(m: ModelView, il: int) -> Fault {
    or_else(
        absent(m, block_name(il, "hc_attn_fn.weight"@)),
    or_else(
        absent(m, block_name(il, "hc_attn_scale.weight"@)),
    or_else(
        absent(m, block_name(il, "hc_attn_base.weight"@)),
    or_else(
        absent(m, block_name(il, "attn_norm.weight"@)),
    or_else(
        absent(m, block_name(il, "attn_q_a.weight"@)),
    or_else(
        absent(m, block_name(il, "attn_q_a_norm.weight"@)),
    or_else(
        absent(m, block_name(il, "attn_q_b.weight"@)),
    or_else(
        absent(m, block_name(il, "attn_kv.weight"@)),
    or_else(
        absent(m, block_name(il, "attn_kv_a_norm.weight"@)),
    or_else(
        absent(m, block_name(il, "attn_sinks.weight"@)),
    or_else(
        absent(m, block_name(il, "attn_output_a.weight"@)),
    or_else(
        absent(m, block_name(il, "attn_output_b.weight"@)),
    or_else(
        absent_if(m, compress_ratio(il) != 0, il, "attn_compressor_ape.weight"@),
    or_else(
        absent_if(m, compress_ratio(il) != 0, il, "attn_compressor_kv.weight"@),
    or_else(
        absent_if(m, compress_ratio(il) != 0, il, "attn_compressor_gate.weight"@),
    or_else(
        absent_if(m, compress_ratio(il) != 0, il, "attn_compressor_norm.weight"@),
    or_else(
        absent_if(m, compress_ratio(il) == 4, il, "indexer.attn_q_b.weight"@),
    or_else(
        absent_if(m, compress_ratio(il) == 4, il, "indexer.proj.weight"@),
    or_else(
        absent_if(m, compress_ratio(il) == 4, il, "indexer_compressor_ape.weight"@),
    or_else(
        absent_if(m, compress_ratio(il) == 4, il, "indexer_compressor_kv.weight"@),
    or_else(
        absent_if(m, compress_ratio(il) == 4, il, "indexer_compressor_gate.weight"@),
    or_else(
        absent_if(m, compress_ratio(il) == 4, il, "indexer_compressor_norm.weight"@),
    or_else(
        absent(m, block_name(il, "hc_ffn_fn.weight"@)),
    or_else(
        absent(m, block_name(il, "hc_ffn_scale.weight"@)),
    or_else(
        absent(m, block_name(il, "hc_ffn_base.weight"@)),
    or_else(
        absent(m, block_name(il, "ffn_norm.weight"@)),
    or_else(
        absent(m, block_name(il, "ffn_gate_inp.weight"@)),
    or_else(
        absent(m, block_name(il, "ffn_gate_exps.weight"@)),
    or_else(
        absent(m, block_name(il, "ffn_up_exps.weight"@)),
    or_else(
        absent(m, block_name(il, "ffn_down_exps.weight"@)),
    or_else(
        absent(m, block_name(il, "ffn_gate_shexp.weight"@)),
    or_else(
        absent(m, block_name(il, "ffn_up_shexp.weight"@)),
    or_else(
        absent(m, block_name(il, "ffn_down_shexp.weight"@)),
        absent_if(m, il < DS4_N_HASH_LAYER, il, "ffn_gate_tid2eid.weight"@)
    )))))))))))))))))))))))))))))))))
}

/// The first required tensor of the first `n` layers that the file lacks.
pub open spec fn layers_missing(m: ModelView, n: nat) -> Fault
    decreases n,
{
    if n == 0 {
        None
    } else {
        or_else(layers_missing(m, (n - 1) as nat), layer_missing(m, n - 1))
    }
}

proof fn lemma_layers_missing(m: ModelView, k: nat, n: nat)
    requires
        k <= n,
        layers_missing(m, k) is Some,
    ensures
        layers_missing(m, n) == layers_missing(m, k),
    decreases n,
{
    if k < n {
        lemma_layers_missing(m, k, (n - 1) as nat);
    }
}

/// The first required tensor outside the layers that the file lacks.
pub open spec fn top_missing(m: ModelView) -> Fault {
    or_else(
        absent(m, "token_embd.weight"@),
    or_else(
        absent(m, "output_hc_base.weight"@),
    or_else(
        absent(m, "output_hc_fn.weight"@),
    or_else(
        absent(m, "output_hc_scale.weight"@),
    or_else(
        absent(m, "output_norm.weight"@),
        absent(m, "output.weight"@)
    )))))
}

/// The weight table of a model that has all its tensors.
pub open spec fn weights_of(m: ModelView) -> WeightsView {
    WeightsView {
        token_embd: tensor_of(m, "token_embd.weight"@),
        output_hc_base: tensor_of(m, "output_hc_base.weight"@),
        output_hc_fn: tensor_of(m, "output_hc_fn.weight"@),
        output_hc_scale: tensor_of(m, "output_hc_scale.weight"@),
        output_norm: tensor_of(m, "output_norm.weight"@),
        output: tensor_of(m, "output.weight"@),
        layer: Seq::new(DS4_N_LAYER as nat, |i: int| layer_of(m, i)),
    }
}

/// What keeps the weights of a model from being bound: a missing tensor, and where
/// none is missing, a tensor that is not as the layout demands.
pub open spec fn bind_fault(m: ModelView) -> Fault {
    or_else(
        top_missing(m),
        or_else(layers_missing(m, DS4_N_LAYER as nat), weights_fault(weights_of(m))),
    )
}

fn bind_layer(model: &ModelGGUF, il: u32) -> (r: Result<LayerWeights, WeightsError>)
    requires
        il < DS4_N_LAYER,
    ensures
        reports(r, layer_missing(model@, il as int)),
        r matches Ok(l) ==> l@ == layer_of(model@, il as int),
{
    let ratio: u32 = layer_compress_ratio(il);
    let hc_attn_fn = match find_required_tensorf(model, "hc_attn_fn.weight", il) {
        Ok(t) => t,
        Err(e) => {
            return Err(e);
        },
    };
    let hc_attn_scale = match find_required_tensorf(model, "hc_attn_scale.weight", il) {
        Ok(t) => t,
        Err(e) => {
            return Err(e);
        },
    };
    let hc_attn_base = match find_required_tensorf(model, "hc_attn_base.weight", il) {
        Ok(t) => t,
        Err(e) => {
            return Err(e);
        },
    };
    let attn_norm = match find_required_tensorf(model, "attn_norm.weight", il) {
        Ok(t) => t,
        Err(e) => {
            return Err(e);
        },
    };
    let attn_q_a = match find_required_tensorf(model, "attn_q_a.weight", il) {
        Ok(t) => t,
        Err(e) => {
            return Err(e);
        },
    };
    let attn_q_a_norm = match find_required_tensorf(model, "attn_q_a_norm.weight", il) {
        Ok(t) => t,
        Err(e) => {
            return Err(e);
        },
    };
    let attn_q_b = match find_required_tensorf(model, "attn_q_b.weight", il) {
        Ok(t) => t,
        Err(e) => {
            return Err(e);
        },
    };
    let attn_kv = match find_required_tensorf(model, "attn_kv.weight", il) {
        Ok(t) => t,
        Err(e) => {
            return Err(e);
        },
    };
    let attn_kv_a_norm = match find_required_tensorf(model, "attn_kv_a_norm.weight", il) {
        Ok(t) => t,
        Err(e) => {
            return Err(e);
        },
    };
    let attn_sinks = match find_required_tensorf(model, "attn_sinks.weight", il) {
        Ok(t) => t,
        Err(e) => {
            return Err(e);
        },
    };
    let attn_output_a = match find_required_tensorf(model, "attn_output_a.weight", il) {
        Ok(t) => t,
        Err(e) => {
            return Err(e);
        },
    };
    let attn_output_b = match find_required_tensorf(model, "attn_output_b.weight", il) {
        Ok(t) => t,
        Err(e) => {
            return Err(e);
        },
    };
    let attn_compressor_ape = match find_tensor_if(model, ratio != 0, "attn_compressor_ape.weight", il) {
        Ok(t) => t,
        Err(e) => {
            return Err(e);
        },
    };
    let attn_compressor_kv = match find_tensor_if(model, ratio != 0, "attn_compressor_kv.weight", il) {
        Ok(t) => t,
        Err(e) => {
            return Err(e);
        },
    };
    let attn_compressor_gate = match find_tensor_if(model, ratio != 0, "attn_compressor_gate.weight", il) {
        Ok(t) => t,
        Err(e) => {
            return Err(e);
        },
    };
    let attn_compressor_norm = match find_tensor_if(model, ratio != 0, "attn_compressor_norm.weight", il) {
        Ok(t) => t,
        Err(e) => {
            return Err(e);
        },
    };
    let indexer_attn_q_b = match find_tensor_if(model, ratio == 4, "indexer.attn_q_b.weight", il) {
        Ok(t) => t,
        Err(e) => {
            return Err(e);
        },
    };
    let indexer_proj = match find_tensor_if(model, ratio == 4, "indexer.proj.weight", il) {
        Ok(t) => t,
        Err(e) => {
            return Err(e);
        },
    };
    let indexer_compressor_ape = match find_tensor_if(model, ratio == 4, "indexer_compressor_ape.weight", il) {
        Ok(t) => t,
        Err(e) => {
            return Err(e);
        },
    };
    let indexer_compressor_kv = match find_tensor_if(model, ratio == 4, "indexer_compressor_kv.weight", il) {
        Ok(t) => t,
        Err(e) => {
            return Err(e);
        },
    };
    let indexer_compressor_gate = match find_tensor_if(model, ratio == 4, "indexer_compressor_gate.weight", il) {
        Ok(t) => t,
        Err(e) => {
            return Err(e);
        },
    };
    let indexer_compressor_norm = match find_tensor_if(model, ratio == 4, "indexer_compressor_norm.weight", il) {
        Ok(t) => t,
        Err(e) => {
            return Err(e);
        },
    };
    let hc_ffn_fn = match find_required_tensorf(model, "hc_ffn_fn.weight", il) {
        Ok(t) => t,
        Err(e) => {
            return Err(e);
        },
    };
    let hc_ffn_scale = match find_required_tensorf(model, "hc_ffn_scale.weight", il) {
        Ok(t) => t,
        Err(e) => {
            return Err(e);
        },
    };
    let hc_ffn_base = match find_required_tensorf(model, "hc_ffn_base.weight", il) {
        Ok(t) => t,
        Err(e) => {
            return Err(e);
        },
    };
    let ffn_norm = match find_required_tensorf(model, "ffn_norm.weight", il) {
        Ok(t) => t,
        Err(e) => {
            return Err(e);
        },
    };
    let ffn_gate_inp = match find_required_tensorf(model, "ffn_gate_inp.weight", il) {
        Ok(t) => t,
        Err(e) => {
            return Err(e);
        },
    };
    let name = block_tensor_name(il, "exp_probs_b.bias");
    let ffn_exp_probs_b = match model.find_tensor(name.as_str()) {
        Some(t) => Some(t.copy()),
        None => None,
    };
    let ffn_gate_exps = match find_required_tensorf(model, "ffn_gate_exps.weight", il) {
        Ok(t) => t,
        Err(e) => {
            return Err(e);
        },
    };
    let ffn_up_exps = match find_required_tensorf(model, "ffn_up_exps.weight", il) {
        Ok(t) => t,
        Err(e) => {
            return Err(e);
        },
    };
    let ffn_down_exps = match find_required_tensorf(model, "ffn_down_exps.weight", il) {
        Ok(t) => t,
        Err(e) => {
            return Err(e);
        },
    };
    let ffn_gate_shexp = match find_required_tensorf(model, "ffn_gate_shexp.weight", il) {
        Ok(t) => t,
        Err(e) => {
            return Err(e);
        },
    };
    let ffn_up_shexp = match find_required_tensorf(model, "ffn_up_shexp.weight", il) {
        Ok(t) => t,
        Err(e) => {
            return Err(e);
        },
    };
    let ffn_down_shexp = match find_required_tensorf(model, "ffn_down_shexp.weight", il) {
        Ok(t) => t,
        Err(e) => {
            return Err(e);
        },
    };
    let ffn_gate_tid2eid = match find_tensor_if(model, il < DS4_N_HASH_LAYER, "ffn_gate_tid2eid.weight", il) {
        Ok(t) => t,
        Err(e) => {
            return Err(e);
        },
    };
    Ok(
        LayerWeights {
            hc_attn_fn,
            hc_attn_scale,
            hc_attn_base,
            attn_norm,
            attn_q_a,
            attn_q_a_norm,
            attn_q_b,
            attn_kv,
            attn_kv_a_norm,
            attn_sinks,
            attn_output_a,
            attn_output_b,
            attn_compressor_ape,
            attn_compressor_kv,
            attn_compressor_gate,
            attn_compressor_norm,
            indexer_attn_q_b,
            indexer_proj,
            indexer_compressor_ape,
            indexer_compressor_kv,
            indexer_compressor_gate,
            indexer_compressor_norm,
            hc_ffn_fn,
            hc_ffn_scale,
            hc_ffn_base,
            ffn_norm,
            ffn_gate_inp,
            ffn_exp_probs_b,
            ffn_gate_exps,
            ffn_up_exps,
            ffn_down_exps,
            ffn_gate_shexp,
            ffn_up_shexp,
            ffn_down_shexp,
            ffn_gate_tid2eid,
        },
    )
}

/// Binds the tensors of a model file into the weight table, and checks the layout of
/// the table.
pub fn weights_bind(model: &ModelGGUF) -> (r: Result<Weights, WeightsError>)
    ensures
        reports(r, bind_fault(model@)),
        r matches Ok(w) ==> w@ == weights_of(model@) && w.layer@.len() == DS4_N_LAYER,
{
    let token_embd = match find_required_tensor(model, "token_embd.weight") {
        Ok(t) => t,
        Err(e) => {
            return Err(e);
        },
    };
    let output_hc_base = match find_required_tensor(model, "output_hc_base.weight") {
        Ok(t) => t,
        Err(e) => {
            return Err(e);
        },
    };
    let output_hc_fn = match find_required_tensor(model, "output_hc_fn.weight") {
        Ok(t) => t,
        Err(e) => {
            return Err(e);
        },
    };
    let output_hc_scale = match find_required_tensor(model, "output_hc_scale.weight") {
        Ok(t) => t,
        Err(e) => {
            return Err(e);
        },
    };
    let output_norm = match find_required_tensor(model, "output_norm.weight") {
        Ok(t) => t,
        Err(e) => {
            return Err(e);
        },
    };
    let output = match find_required_tensor(model, "output.weight") {
        Ok(t) => t,
        Err(e) => {
            return Err(e);
        },
    };
    let mut layer: Vec<LayerWeights> = Vec::new();
    let mut il: u32 = 0;
    while il < DS4_N_LAYER
        invariant
            il <= DS4_N_LAYER,
            layer@.len() == il,
            top_missing(model@) is None,
            layers_missing(model@, il as nat) is None,
            forall|i: int| 0 <= i < il ==> (#[trigger] layer@[i])@ == layer_of(model@, i),
        decreases DS4_N_LAYER - il,
    {
        match bind_layer(model, il) {
            Ok(l) => {
                layer.push(l);
            },
            Err(e) => {
                proof {
                    lemma_layers_missing(model@, (il + 1) as nat, DS4_N_LAYER as nat);
                }
                return Err(e);
            },
        }
        il = il + 1;
    }
    let w = Weights {
        token_embd,
        output_hc_base,
        output_hc_fn,
        output_hc_scale,
        output_norm,
        output,
        layer,
    };
    proof {
        assert(w@.layer =~= weights_of(model@).layer);
    }
    match weights_validate_layout(&w) {
        Ok(_) => Ok(w),
        Err(e) => Err(e),
    }
}

/// The layer of the multi-token prediction head in a model that has all its tensors.
pub open spec fn mtp_layer_of(m: ModelView) -> MtpLayerView {
    MtpLayerView {
        hc_attn_fn: tensor_of(m, "mtp.0.hc_attn_fn.weight"@),
        hc_attn_scale: tensor_of(m, "mtp.0.hc_attn_scale.weight"@),
        hc_attn_base: tensor_of(m, "mtp.0.hc_attn_base.weight"@),
        attn_norm: tensor_of(m, "mtp.0.attn_norm.weight"@),
        attn_q_a: tensor_of(m, "mtp.0.attn_q_a.weight"@),
        attn_q_a_norm: tensor_of(m, "mtp.0.attn_q_a_norm.weight"@),
        attn_q_b: tensor_of(m, "mtp.0.attn_q_b.weight"@),
        attn_kv: tensor_of(m, "mtp.0.attn_kv.weight"@),
        attn_kv_a_norm: tensor_of(m, "mtp.0.attn_kv_a_norm.weight"@),
        attn_sinks: tensor_of(m, "mtp.0.attn_sinks.weight"@),
        attn_output_a: tensor_of(m, "mtp.0.attn_output_a.weight"@),
        attn_output_b: tensor_of(m, "mtp.0.attn_output_b.weight"@),
        hc_ffn_fn: tensor_of(m, "mtp.0.hc_ffn_fn.weight"@),
        hc_ffn_scale: tensor_of(m, "mtp.0.hc_ffn_scale.weight"@),
        hc_ffn_base: tensor_of(m, "mtp.0.hc_ffn_base.weight"@),
        ffn_norm: tensor_of(m, "mtp.0.ffn_norm.weight"@),
        ffn_gate_inp: tensor_of(m, "mtp.0.ffn_gate_inp.weight"@),
        ffn_exp_probs_b: tensor_of(m, "mtp.0.exp_probs_b.bias"@),
        ffn_gate_exps: tensor_of(m, "mtp.0.ffn_gate_exps.weight"@),
        ffn_up_exps: tensor_of(m, "mtp.0.ffn_up_exps.weight"@),
        ffn_down_exps: tensor_of(m, "mtp.0.ffn_down_exps.weight"@),
        ffn_gate_shexp: tensor_of(m, "mtp.0.ffn_gate_shexp.weight"@),
        ffn_up_shexp: tensor_of(m, "mtp.0.ffn_up_shexp.weight"@),
        ffn_down_shexp: tensor_of(m, "mtp.0.ffn_down_shexp.weight"@),
    }
}

/// The multi-token prediction head of a model that has all its tensors.
pub open spec fn mtp_of(m: ModelView) -> MtpView {
    MtpView {
        e_proj: tensor_of(m, "mtp.0.e_proj.weight"@),
        h_proj: tensor_of(m, "mtp.0.h_proj.weight"@),
        enorm: tensor_of(m, "mtp.0.enorm.weight"@),
        hnorm: tensor_of(m, "mtp.0.hnorm.weight"@),
        norm: tensor_of(m, "mtp.0.norm.weight"@),
        hc_head_base: tensor_of(m, "mtp.0.hc_head_base.weight"@),
        hc_head_fn: tensor_of(m, "mtp.0.hc_head_fn.weight"@),
        hc_head_scale: tensor_of(m, "mtp.0.hc_head_scale.weight"@),
        block: mtp_layer_of(m),
    }
}

/// The first head tensor of the multi-token prediction that the file lacks.
pub open spec fn mtp_head_missing(m: ModelView) -> Fault {
    or_else(
        absent(m, "mtp.0.e_proj.weight"@),
    or_else(
        absent(m, "mtp.0.h_proj.weight"@),
    or_else(
        absent(m, "mtp.0.enorm.weight"@),
    or_else(
        absent(m, "mtp.0.hnorm.weight"@),
    or_else(
        absent(m, "mtp.0.norm.weight"@),
    or_else(
        absent(m, "mtp.0.hc_head_base.weight"@),
    or_else(
        absent(m, "mtp.0.hc_head_fn.weight"@),
        absent(m, "mtp.0.hc_head_scale.weight"@)
    )))))))
}

/// The first layer tensor of the multi-token prediction that the file lacks.
pub open spec fn mtp_layer_missing(m: ModelView) -> Fault {
    or_else(
        absent(m, "mtp.0.hc_attn_fn.weight"@),
    or_else(
        absent(m, "mtp.0.hc_attn_scale.weight"@),
    or_else(
        absent(m, "mtp.0.hc_attn_base.weight"@),
    or_else(
        absent(m, "mtp.0.attn_norm.weight"@),
    or_else(
        absent(m, "mtp.0.attn_q_a.weight"@),
    or_else(
        absent(m, "mtp.0.attn_q_a_norm.weight"@),
    or_else(
        absent(m, "mtp.0.attn_q_b.weight"@),
    or_else(
        absent(m, "mtp.0.attn_kv.weight"@),
    or_else(
        absent(m, "mtp.0.attn_kv_a_norm.weight"@),
    or_else(
        absent(m, "mtp.0.attn_sinks.weight"@),
    or_else(
        absent(m, "mtp.0.attn_output_a.weight"@),
    or_else(
        absent(m, "mtp.0.attn_output_b.weight"@),
    or_else(
        absent(m, "mtp.0.hc_ffn_fn.weight"@),
    or_else(
        absent(m, "mtp.0.hc_ffn_scale.weight"@),
    or_else(
        absent(m, "mtp.0.hc_ffn_base.weight"@),
    or_else(
        absent(m, "mtp.0.ffn_norm.weight"@),
    or_else(
        absent(m, "mtp.0.ffn_gate_inp.weight"@),
    or_else(
        absent(m, "mtp.0.exp_probs_b.bias"@),
    or_else(
        absent(m, "mtp.0.ffn_gate_exps.weight"@),
    or_else(
        absent(m, "mtp.0.ffn_up_exps.weight"@),
    or_else(
        absent(m, "mtp.0.ffn_down_exps.weight"@),
    or_else(
        absent(m, "mtp.0.ffn_gate_shexp.weight"@),
    or_else(
        absent(m, "mtp.0.ffn_up_shexp.weight"@),
        absent(m, "mtp.0.ffn_down_shexp.weight"@)
    )))))))))))))))))))))))
}

/// What keeps the multi-token prediction head from being bound.
pub open spec fn mtp_bind_fault(m: ModelView) -> Fault {
    or_else(mtp_head_missing(m), or_else(mtp_layer_missing(m), mtp_fault(mtp_of(m))))
}

fn bind_mtp_layer(model: &ModelGGUF) -> (r: Result<MtpLayerWeights, WeightsError>)
    ensures
        reports(r, mtp_layer_missing(model@)),
        r matches Ok(l) ==> l@ == mtp_layer_of(model@),
{
    let hc_attn_fn = match find_required_tensor(model, "mtp.0.hc_attn_fn.weight") {
        Ok(t) => t,
        Err(e) => {
            return Err(e);
        },
    };
    let hc_attn_scale = match find_required_tensor(model, "mtp.0.hc_attn_scale.weight") {
        Ok(t) => t,
        Err(e) => {
            return Err(e);
        },
    };
    let hc_attn_base = match find_required_tensor(model, "mtp.0.hc_attn_base.weight") {
        Ok(t) => t,
        Err(e) => {
            return Err(e);
        },
    };
    let attn_norm = match find_required_tensor(model, "mtp.0.attn_norm.weight") {
        Ok(t) => t,
        Err(e) => {
            return Err(e);
        },
    };
    let attn_q_a = match find_required_tensor(model, "mtp.0.attn_q_a.weight") {
        Ok(t) => t,
        Err(e) => {
            return Err(e);
        },
    };
    let attn_q_a_norm = match find_required_tensor(model, "mtp.0.attn_q_a_norm.weight") {
        Ok(t) => t,
        Err(e) => {
            return Err(e);
        },
    };
    let attn_q_b = match find_required_tensor(model, "mtp.0.attn_q_b.weight") {
        Ok(t) => t,
        Err(e) => {
            return Err(e);
        },
    };
    let attn_kv = match find_required_tensor(model, "mtp.0.attn_kv.weight") {
        Ok(t) => t,
        Err(e) => {
            return Err(e);
        },
    };
    let attn_kv_a_norm = match find_required_tensor(model, "mtp.0.attn_kv_a_norm.weight") {
        Ok(t) => t,
        Err(e) => {
            return Err(e);
        },
    };
    let attn_sinks = match find_required_tensor(model, "mtp.0.attn_sinks.weight") {
        Ok(t) => t,
        Err(e) => {
            return Err(e);
        },
    };
    let attn_output_a = match find_required_tensor(model, "mtp.0.attn_output_a.weight") {
        Ok(t) => t,
        Err(e) => {
            return Err(e);
        },
    };
    let attn_output_b = match find_required_tensor(model, "mtp.0.attn_output_b.weight") {
        Ok(t) => t,
        Err(e) => {
            return Err(e);
        },
    };
    let hc_ffn_fn = match find_required_tensor(model, "mtp.0.hc_ffn_fn.weight") {
        Ok(t) => t,
        Err(e) => {
            return Err(e);
        },
    };
    let hc_ffn_scale = match find_required_tensor(model, "mtp.0.hc_ffn_scale.weight") {
        Ok(t) => t,
        Err(e) => {
            return Err(e);
        },
    };
    let hc_ffn_base = match find_required_tensor(model, "mtp.0.hc_ffn_base.weight") {
        Ok(t) => t,
        Err(e) => {
            return Err(e);
        },
    };
    let ffn_norm = match find_required_tensor(model, "mtp.0.ffn_norm.weight") {
        Ok(t) => t,
        Err(e) => {
            return Err(e);
        },
    };
    let ffn_gate_inp = match find_required_tensor(model, "mtp.0.ffn_gate_inp.weight") {
        Ok(t) => t,
        Err(e) => {
            return Err(e);
        },
    };
    let ffn_exp_probs_b = match find_required_tensor(model, "mtp.0.exp_probs_b.bias") {
        Ok(t) => t,
        Err(e) => {
            return Err(e);
        },
    };
    let ffn_gate_exps = match find_required_tensor(model, "mtp.0.ffn_gate_exps.weight") {
        Ok(t) => t,
        Err(e) => {
            return Err(e);
        },
    };
    let ffn_up_exps = match find_required_tensor(model, "mtp.0.ffn_up_exps.weight") {
        Ok(t) => t,
        Err(e) => {
            return Err(e);
        },
    };
    let ffn_down_exps = match find_required_tensor(model, "mtp.0.ffn_down_exps.weight") {
        Ok(t) => t,
        Err(e) => {
            return Err(e);
        },
    };
    let ffn_gate_shexp = match find_required_tensor(model, "mtp.0.ffn_gate_shexp.weight") {
        Ok(t) => t,
        Err(e) => {
            return Err(e);
        },
    };
    let ffn_up_shexp = match find_required_tensor(model, "mtp.0.ffn_up_shexp.weight") {
        Ok(t) => t,
        Err(e) => {
            return Err(e);
        },
    };
    let ffn_down_shexp = match find_required_tensor(model, "mtp.0.ffn_down_shexp.weight") {
        Ok(t) => t,
        Err(e) => {
            return Err(e);
        },
    };
    Ok(
        MtpLayerWeights {
            hc_attn_fn,
            hc_attn_scale,
            hc_attn_base,
            attn_norm,
            attn_q_a,
            attn_q_a_norm,
            attn_q_b,
            attn_kv,
            attn_kv_a_norm,
            attn_sinks,
            attn_output_a,
            attn_output_b,
            hc_ffn_fn,
            hc_ffn_scale,
            hc_ffn_base,
            ffn_norm,
            ffn_gate_inp,
            ffn_exp_probs_b,
            ffn_gate_exps,
            ffn_up_exps,
            ffn_down_exps,
            ffn_gate_shexp,
            ffn_up_shexp,
            ffn_down_shexp,
        },
    )
}

/// Binds the tensors of a multi-token prediction file, and checks their layout.
pub fn mtp_weights_bind(model: &ModelGGUF) -> (r: Result<MtpWeights, WeightsError>)
    ensures
        reports(r, mtp_bind_fault(model@)),
        r matches Ok(w) ==> w@ == mtp_of(model@),
{
    let e_proj = match find_required_tensor(model, "mtp.0.e_proj.weight") {
        Ok(t) => t,
        Err(e) => {
            return Err(e);
        },
    };
    let h_proj = match find_required_tensor(model, "mtp.0.h_proj.weight") {
        Ok(t) => t,
        Err(e) => {
            return Err(e);
        },
    };
    let enorm = match find_required_tensor(model, "mtp.0.enorm.weight") {
        Ok(t) => t,
        Err(e) => {
            return Err(e);
        },
    };
    let hnorm = match find_required_tensor(model, "mtp.0.hnorm.weight") {
        Ok(t) => t,
        Err(e) => {
            return Err(e);
        },
    };
    let norm = match find_required_tensor(model, "mtp.0.norm.weight") {
        Ok(t) => t,
        Err(e) => {
            return Err(e);
        },
    };
    let hc_head_base = match find_required_tensor(model, "mtp.0.hc_head_base.weight") {
        Ok(t) => t,
        Err(e) => {
            return Err(e);
        },
    };
    let hc_head_fn = match find_required_tensor(model, "mtp.0.hc_head_fn.weight") {
        Ok(t) => t,
        Err(e) => {
            return Err(e);
        },
    };
    let hc_head_scale = match find_required_tensor(model, "mtp.0.hc_head_scale.weight") {
        Ok(t) => t,
        Err(e) => {
            return Err(e);
        },
    };
    let block = match bind_mtp_layer(model) {
        Ok(b) => b,
        Err(e) => {
            return Err(e);
        },
    };
    let w = MtpWeights {
        e_proj,
        h_proj,
        enorm,
        hnorm,
        norm,
        hc_head_base,
        hc_head_fn,
        hc_head_scale,
        block,
    };
    match mtp_weights_validate_layout(&w) {
        Ok(_) => Ok(w),
        Err(e) => Err(e),
    }
}

} // verus!

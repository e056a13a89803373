//! What the weights of a model are held to.
use vstd::prelude::*;

use crate::gguf::{ModelView, TensorView};
use crate::text::dec;
use crate::weights::{
    attention_fault, bind_fault, compressor_fault, dims_fault, experts_fault, indexer_fault,
    layer_fault, layer_missing, layer_of, layers_fault, layers_missing, mtp_attention_fault,
    mtp_bind_fault, mtp_experts_fault, mtp_fault, mtp_head_fault, mtp_head_missing,
    mtp_layer_missing, mtp_of, router_fault, shape_fault, top_fault, top_missing, weights_of,
    LayerView, WeightsErrorView,
};

verus! {

/// Whether a tensor has dimensions of these sizes.
pub open spec fn sized(t: TensorView, dims: Seq<u64>) -> bool {
    &&& t.ndim == dims.len()
    &&& forall|i: int|
        0 <= i < dims.len() ==> i < t.dims.len() && t.dims[i] == #[trigger] dims[i]
}

/// Whether the model has a tensor of this name, with the type of this tag and dimensions of
/// these sizes.
pub open spec fn fits(m: ModelView, name: Seq<char>, tag: int, dims: Seq<u64>) -> bool {
    m.find_tensor(name) matches Some(t) && t.tensor_type == tag && sized(t, dims)
}

/// The same of a tensor that may be plain: F32 or F16.
pub open spec fn fits_plain(m: ModelView, name: Seq<char>, dims: Seq<u64>) -> bool {
    m.find_tensor(name) matches Some(t) && (t.tensor_type == 0 || t.tensor_type == 1) && sized(
        t,
        dims,
    )
}

/// The same of the routed experts, which are Q2_K, Q4_K or IQ2_XXS.
pub open spec fn fits_routed(m: ModelView, name: Seq<char>, dims: Seq<u64>) -> bool {
    m.find_tensor(name) matches Some(t) && (t.tensor_type == 10 || t.tensor_type == 12
        || t.tensor_type == 16) && sized(t, dims)
}

/// The name of a tensor of layer `il`.
pub open spec fn block(il: int, suffix: Seq<char>) -> Seq<char> {
    "blk."@ + dec(il as nat) + "."@ + suffix
}

/// The attention tensors that every layer has.
pub open spec fn attention_fits(m: ModelView, il: int) -> bool {
    &&& fits(m, block(il, "hc_attn_fn.weight"@), 1, seq![16384u64, 24u64])
    &&& fits(m, block(il, "hc_attn_scale.weight"@), 0, seq![3u64])
    &&& fits(m, block(il, "hc_attn_base.weight"@), 0, seq![24u64])
    &&& fits(m, block(il, "attn_norm.weight"@), 0, seq![4096u64])
    &&& fits(m, block(il, "attn_q_a.weight"@), 8, seq![4096u64, 1024u64])
    &&& fits(m, block(il, "attn_q_a_norm.weight"@), 0, seq![1024u64])
    &&& fits(m, block(il, "attn_q_b.weight"@), 8, seq![1024u64, 32768u64])
    &&& fits(m, block(il, "attn_kv.weight"@), 8, seq![4096u64, 512u64])
    &&& fits(m, block(il, "attn_kv_a_norm.weight"@), 0, seq![512u64])
    &&& fits(m, block(il, "attn_sinks.weight"@), 0, seq![64u64])
    &&& fits(m, block(il, "attn_output_a.weight"@), 8, seq![4096u64, 8192u64])
    &&& fits(m, block(il, "attn_output_b.weight"@), 8, seq![8192u64, 4096u64])
}

/// The compressor of a layer with a ratio.
pub open spec fn compressor_fits(m: ModelView, il: int, width: u64, ratio: u64) -> bool {
    &&& fits(m, block(il, "attn_compressor_ape.weight"@), 1, seq![width, ratio])
    &&& fits(m, block(il, "attn_compressor_kv.weight"@), 1, seq![4096u64, width])
    &&& fits(m, block(il, "attn_compressor_gate.weight"@), 1, seq![4096u64, width])
    &&& fits(m, block(il, "attn_compressor_norm.weight"@), 0, seq![512u64])
}

/// The indexer of a layer of ratio 4.
pub open spec fn indexer_fits(m: ModelView, il: int) -> bool {
    &&& fits(m, block(il, "indexer.attn_q_b.weight"@), 1, seq![1024u64, 8192u64])
    &&& fits(m, block(il, "indexer.proj.weight"@), 1, seq![4096u64, 64u64])
    &&& fits(m, block(il, "indexer_compressor_ape.weight"@), 1, seq![256u64, 4u64])
    &&& fits(m, block(il, "indexer_compressor_kv.weight"@), 1, seq![4096u64, 256u64])
    &&& fits(m, block(il, "indexer_compressor_gate.weight"@), 1, seq![4096u64, 256u64])
    &&& fits(m, block(il, "indexer_compressor_norm.weight"@), 0, seq![128u64])
}

/// The tensors that lead into the experts.
pub open spec fn router_fits(m: ModelView, il: int) -> bool {
    &&& fits(m, block(il, "hc_ffn_fn.weight"@), 1, seq![16384u64, 24u64])
    &&& fits(m, block(il, "hc_ffn_scale.weight"@), 0, seq![3u64])
    &&& fits(m, block(il, "hc_ffn_base.weight"@), 0, seq![24u64])
    &&& fits(m, block(il, "ffn_norm.weight"@), 0, seq![4096u64])
    &&& fits(m, block(il, "ffn_gate_inp.weight"@), 1, seq![4096u64, 256u64])
}

/// The shared expert.
pub open spec fn shared_expert_fits(m: ModelView, il: int) -> bool {
    &&& fits(m, block(il, "ffn_gate_shexp.weight"@), 8, seq![4096u64, 2048u64])
    &&& fits(m, block(il, "ffn_up_shexp.weight"@), 8, seq![4096u64, 2048u64])
    &&& fits(m, block(il, "ffn_down_shexp.weight"@), 8, seq![2048u64, 4096u64])
}
/// The routed experts, of which gate and up are of one type, and what chooses them: in the
/// first three layers a table from tokens to experts.
pub open spec fn experts_fit(m: ModelView, il: int) -> bool {
    &&& m.find_tensor(block(il, "exp_probs_b.bias"@)) matches Some(t) ==> t.tensor_type == 0
        && sized(t, seq![256u64])
    &&& fits_routed(m, block(il, "ffn_gate_exps.weight"@), seq![4096u64, 2048u64, 256u64])
    &&& fits_routed(m, block(il, "ffn_up_exps.weight"@), seq![4096u64, 2048u64, 256u64])
    &&& fits_routed(m, block(il, "ffn_down_exps.weight"@), seq![2048u64, 4096u64, 256u64])
    &&& m.find_tensor(block(il, "ffn_gate_exps.weight"@))->0.tensor_type == m.find_tensor(
        block(il, "ffn_up_exps.weight"@),
    )->0.tensor_type
    &&& il < 3 ==> fits(m, block(il, "ffn_gate_tid2eid.weight"@), 26, seq![6u64, 129280u64])
}

/// All tensors of layer `il`: from the third layer on with a compressor, and every other
/// one, beginning there, with an indexer.
pub open spec fn layer_fits(m: ModelView, il: int) -> bool {
    &&& attention_fits(m, il)
    &&& il >= 2 && il % 2 == 0 ==> compressor_fits(m, il, 1024, 4) && indexer_fits(m, il)
    &&& il >= 2 && il % 2 == 1 ==> compressor_fits(m, il, 512, 128)
    &&& router_fits(m, il)
    &&& experts_fit(m, il)
    &&& shared_expert_fits(m, il)
}

/// The tensors outside the layers.
pub open spec fn top_fits(m: ModelView) -> bool {
    &&& fits(m, "token_embd.weight"@, 1, seq![4096u64, 129280u64])
    &&& fits(m, "output_hc_base.weight"@, 0, seq![4u64])
    &&& fits(m, "output_hc_fn.weight"@, 1, seq![16384u64, 4u64])
    &&& fits(m, "output_hc_scale.weight"@, 0, seq![1u64])
    &&& fits(m, "output_norm.weight"@, 0, seq![4096u64])
    &&& fits(m, "output.weight"@, 8, seq![4096u64, 129280u64])
}

/// The weights of a model are bound just where all its tensors are there, each of its type
/// and shape.
pub proof fn weights_are_bound_when_all_fit(m: ModelView)
    ensures
        bind_fault(m) is None <==> top_fits(m) && forall|il: int|
            0 <= il < 43 ==> #[trigger] layer_fits(m, il),
{
    lemma_top(m);
    assert(weights_of(m).layer =~= Seq::new(43, |i: int| layer_of(m, i)));
    lemma_layers(m, 43);
}

/// Each weight stands in the slot of its name.
pub proof fn weights_stand_in_their_slots(m: ModelView, il: int)
    requires
        bind_fault(m) is None,
        0 <= il < 43,
    ensures
        weights_of(m).layer.len() == 43,
        m.find_tensor("token_embd.weight"@) == Some(weights_of(m).token_embd),
        m.find_tensor("output_hc_base.weight"@) == Some(weights_of(m).output_hc_base),
        m.find_tensor("output_hc_fn.weight"@) == Some(weights_of(m).output_hc_fn),
        m.find_tensor("output_hc_scale.weight"@) == Some(weights_of(m).output_hc_scale),
        m.find_tensor("output_norm.weight"@) == Some(weights_of(m).output_norm),
        m.find_tensor("output.weight"@) == Some(weights_of(m).output),
        ({
            let l = weights_of(m).layer[il];
            &&& m.find_tensor(block(il, "hc_attn_fn.weight"@)) == Some(l.hc_attn_fn)
            &&& m.find_tensor(block(il, "hc_attn_scale.weight"@)) == Some(l.hc_attn_scale)
            &&& m.find_tensor(block(il, "hc_attn_base.weight"@)) == Some(l.hc_attn_base)
            &&& m.find_tensor(block(il, "attn_norm.weight"@)) == Some(l.attn_norm)
            &&& m.find_tensor(block(il, "attn_q_a.weight"@)) == Some(l.attn_q_a)
            &&& m.find_tensor(block(il, "attn_q_a_norm.weight"@)) == Some(l.attn_q_a_norm)
            &&& m.find_tensor(block(il, "attn_q_b.weight"@)) == Some(l.attn_q_b)
            &&& m.find_tensor(block(il, "attn_kv.weight"@)) == Some(l.attn_kv)
            &&& m.find_tensor(block(il, "attn_kv_a_norm.weight"@)) == Some(l.attn_kv_a_norm)
            &&& m.find_tensor(block(il, "attn_sinks.weight"@)) == Some(l.attn_sinks)
            &&& m.find_tensor(block(il, "attn_output_a.weight"@)) == Some(l.attn_output_a)
            &&& m.find_tensor(block(il, "attn_output_b.weight"@)) == Some(l.attn_output_b)
            &&& m.find_tensor(block(il, "hc_ffn_fn.weight"@)) == Some(l.hc_ffn_fn)
            &&& m.find_tensor(block(il, "hc_ffn_scale.weight"@)) == Some(l.hc_ffn_scale)
            &&& m.find_tensor(block(il, "hc_ffn_base.weight"@)) == Some(l.hc_ffn_base)
            &&& m.find_tensor(block(il, "ffn_norm.weight"@)) == Some(l.ffn_norm)
            &&& m.find_tensor(block(il, "ffn_gate_inp.weight"@)) == Some(l.ffn_gate_inp)
            &&& m.find_tensor(block(il, "ffn_gate_shexp.weight"@)) == Some(l.ffn_gate_shexp)
            &&& m.find_tensor(block(il, "ffn_up_shexp.weight"@)) == Some(l.ffn_up_shexp)
            &&& m.find_tensor(block(il, "ffn_down_shexp.weight"@)) == Some(l.ffn_down_shexp)
            &&& m.find_tensor(block(il, "ffn_gate_exps.weight"@)) == Some(l.ffn_gate_exps)
            &&& m.find_tensor(block(il, "ffn_up_exps.weight"@)) == Some(l.ffn_up_exps)
            &&& m.find_tensor(block(il, "ffn_down_exps.weight"@)) == Some(l.ffn_down_exps)
            &&& m.find_tensor(block(il, "exp_probs_b.bias"@)) == l.ffn_exp_probs_b
            &&& il >= 2 ==> {
                &&& m.find_tensor(block(il, "attn_compressor_ape.weight"@)) == l.attn_compressor_ape
                &&& m.find_tensor(block(il, "attn_compressor_kv.weight"@)) == l.attn_compressor_kv
                &&& m.find_tensor(block(il, "attn_compressor_gate.weight"@)) == l.attn_compressor_gate
                &&& m.find_tensor(block(il, "attn_compressor_norm.weight"@)) == l.attn_compressor_norm
            }
            &&& il >= 2 && il % 2 == 0 ==> {
                &&& m.find_tensor(block(il, "indexer.attn_q_b.weight"@)) == l.indexer_attn_q_b
                &&& m.find_tensor(block(il, "indexer.proj.weight"@)) == l.indexer_proj
                &&& m.find_tensor(block(il, "indexer_compressor_ape.weight"@)) == l.indexer_compressor_ape
                &&& m.find_tensor(block(il, "indexer_compressor_kv.weight"@)) == l.indexer_compressor_kv
                &&& m.find_tensor(block(il, "indexer_compressor_gate.weight"@)) == l.indexer_compressor_gate
                &&& m.find_tensor(block(il, "indexer_compressor_norm.weight"@)) == l.indexer_compressor_norm
            }
            &&& il < 3 ==> m.find_tensor(block(il, "ffn_gate_tid2eid.weight"@))
                == l.ffn_gate_tid2eid
        }),
{
    weights_are_bound_when_all_fit(m);
    assert(layer_fits(m, il));
}

proof fn lemma_shape(t: TensorView, ndim: u32, d0: u64, d1: u64, d2: u64)
    requires
        1 <= ndim <= 3,
        d0 != 0,
        ndim >= 2 ==> d1 != 0,
        ndim >= 3 ==> d2 != 0,
    ensures
        shape_fault(t, ndim, d0, d1, d2) is None <==> sized(
            t,
            seq![d0, d1, d2].take(ndim as int),
        ),
{
    reveal(shape_fault);
    reveal_with_fuel(dims_fault, 4);
    let want = seq![d0, d1, d2];
    let dims = want.take(ndim as int);
    assert(dims.len() == ndim);
    assert(dims[0] == d0);
    if ndim >= 2 {
        assert(dims[1] == d1);
    }
    if ndim >= 3 {
        assert(dims[2] == d2);
    }
}

/// The lemma on shapes for all shapes of a kind.
proof fn lemma_shapes()
    ensures
        forall|t: TensorView, d0: u64|
            d0 != 0 ==> (#[trigger] shape_fault(t, 1, d0, 0, 0) is None <==> sized(t, seq![d0])),
        forall|t: TensorView, d0: u64, d1: u64|
            d0 != 0 && d1 != 0 ==> (#[trigger] shape_fault(t, 2, d0, d1, 0) is None <==> sized(
                t,
                seq![d0, d1],
            )),
        forall|t: TensorView, d0: u64, d1: u64, d2: u64|
            d0 != 0 && d1 != 0 && d2 != 0 ==> (#[trigger] shape_fault(t, 3, d0, d1, d2) is None
                <==> sized(t, seq![d0, d1, d2])),
{
    assert forall|t: TensorView, d0: u64| d0 != 0 implies (#[trigger] shape_fault(t, 1, d0, 0, 0)
        is None <==> sized(t, seq![d0])) by {
        lemma_shape(t, 1, d0, 0, 0);
        assert(seq![d0, 0u64, 0u64].take(1) =~= seq![d0]);
    }
    assert forall|t: TensorView, d0: u64, d1: u64| d0 != 0 && d1 != 0 implies (
    #[trigger] shape_fault(t, 2, d0, d1, 0) is None <==> sized(t, seq![d0, d1])) by {
        lemma_shape(t, 2, d0, d1, 0);
        assert(seq![d0, d1, 0u64].take(2) =~= seq![d0, d1]);
    }
    assert forall|t: TensorView, d0: u64, d1: u64, d2: u64|
        d0 != 0 && d1 != 0 && d2 != 0 implies (#[trigger] shape_fault(t, 3, d0, d1, d2) is None
        <==> sized(t, seq![d0, d1, d2])) by {
        lemma_shape(t, 3, d0, d1, d2);
        assert(seq![d0, d1, d2].take(3) =~= seq![d0, d1, d2]);
    }
}

proof fn lemma_top(m: ModelView)
    ensures
        top_missing(m) is None && top_fault(weights_of(m)) is None <==> top_fits(m),
{
    lemma_shapes();
}

/// Whether the model has all tensors of layer `il`.
spec fn layer_there(m: ModelView, il: int) -> bool {
    &&& m.find_tensor(block(il, "hc_attn_fn.weight"@)) is Some
    &&& m.find_tensor(block(il, "hc_attn_scale.weight"@)) is Some
    &&& m.find_tensor(block(il, "hc_attn_base.weight"@)) is Some
    &&& m.find_tensor(block(il, "attn_norm.weight"@)) is Some
    &&& m.find_tensor(block(il, "attn_q_a.weight"@)) is Some
    &&& m.find_tensor(block(il, "attn_q_a_norm.weight"@)) is Some
    &&& m.find_tensor(block(il, "attn_q_b.weight"@)) is Some
    &&& m.find_tensor(block(il, "attn_kv.weight"@)) is Some
    &&& m.find_tensor(block(il, "attn_kv_a_norm.weight"@)) is Some
    &&& m.find_tensor(block(il, "attn_sinks.weight"@)) is Some
    &&& m.find_tensor(block(il, "attn_output_a.weight"@)) is Some
    &&& m.find_tensor(block(il, "attn_output_b.weight"@)) is Some
    &&& il >= 2 ==> {
        &&& m.find_tensor(block(il, "attn_compressor_ape.weight"@)) is Some
        &&& m.find_tensor(block(il, "attn_compressor_kv.weight"@)) is Some
        &&& m.find_tensor(block(il, "attn_compressor_gate.weight"@)) is Some
        &&& m.find_tensor(block(il, "attn_compressor_norm.weight"@)) is Some
    }
    &&& il >= 2 && il % 2 == 0 ==> {
        &&& m.find_tensor(block(il, "indexer.attn_q_b.weight"@)) is Some
        &&& m.find_tensor(block(il, "indexer.proj.weight"@)) is Some
        &&& m.find_tensor(block(il, "indexer_compressor_ape.weight"@)) is Some
        &&& m.find_tensor(block(il, "indexer_compressor_kv.weight"@)) is Some
        &&& m.find_tensor(block(il, "indexer_compressor_gate.weight"@)) is Some
        &&& m.find_tensor(block(il, "indexer_compressor_norm.weight"@)) is Some
    }
    &&& m.find_tensor(block(il, "hc_ffn_fn.weight"@)) is Some
    &&& m.find_tensor(block(il, "hc_ffn_scale.weight"@)) is Some
    &&& m.find_tensor(block(il, "hc_ffn_base.weight"@)) is Some
    &&& m.find_tensor(block(il, "ffn_norm.weight"@)) is Some
    &&& m.find_tensor(block(il, "ffn_gate_inp.weight"@)) is Some
    &&& m.find_tensor(block(il, "ffn_gate_exps.weight"@)) is Some
    &&& m.find_tensor(block(il, "ffn_up_exps.weight"@)) is Some
    &&& m.find_tensor(block(il, "ffn_down_exps.weight"@)) is Some
    &&& m.find_tensor(block(il, "ffn_gate_shexp.weight"@)) is Some
    &&& m.find_tensor(block(il, "ffn_up_shexp.weight"@)) is Some
    &&& m.find_tensor(block(il, "ffn_down_shexp.weight"@)) is Some
    &&& il < 3 ==> m.find_tensor(block(il, "ffn_gate_tid2eid.weight"@)) is Some
}

proof fn lemma_there(m: ModelView, il: int)
    requires
        0 <= il < 43,
    ensures
        layer_missing(m, il) is None <==> layer_there(m, il),
{
}

proof fn lemma_layer(m: ModelView, il: int)
    requires
        0 <= il < 43,
    ensures
        layer_missing(m, il) is None && layer_fault(layer_of(m, il), il as u32) is None
            <==> layer_fits(m, il),
{
    lemma_there(m, il);
    if layer_there(m, il) {
        lemma_parts(m, il);
    }
}

proof fn lemma_parts(m: ModelView, il: int)
    requires
        0 <= il < 43,
        layer_there(m, il),
    ensures
        ({
            let l = layer_of(m, il);
            &&& attention_fault(l) is None <==> attention_fits(m, il)
            &&& il >= 2 && il % 2 == 0 ==> (compressor_fault(l, il as u32) is None
                <==> compressor_fits(m, il, 1024, 4))
            &&& il >= 2 && il % 2 == 1 ==> (compressor_fault(l, il as u32) is None
                <==> compressor_fits(m, il, 512, 128))
            &&& il >= 2 && il % 2 == 0 ==> (indexer_fault(l, il as u32) is None <==> indexer_fits(
                m,
                il,
            ))
            &&& router_fault(l) is None <==> router_fits(m, il)
            &&& experts_fault(l, il as u32) is None <==> experts_fit(m, il) && shared_expert_fits(
                m,
                il,
            )
        }),
{
    lemma_shapes();
}

proof fn lemma_layers(m: ModelView, n: nat)
    requires
        n <= 43,
    ensures
        layers_missing(m, n) is None && layers_fault(
            Seq::new(43, |i: int| layer_of(m, i)),
            n,
        ) is None <==> forall|il: int| 0 <= il < n ==> #[trigger] layer_fits(m, il),
    decreases n,
{
    if n > 0 {
        lemma_layers(m, (n - 1) as nat);
        lemma_layer(m, n - 1);
        let s = Seq::new(43, |i: int| layer_of(m, i));
        assert(s[n - 1] == layer_of(m, n - 1));
    }
}

/// The tensors of the head of a draft model.
pub open spec fn draft_head_fits(m: ModelView) -> bool {
    &&& fits(m, "mtp.0.e_proj.weight"@, 8, seq![4096u64, 4096u64])
    &&& fits(m, "mtp.0.h_proj.weight"@, 8, seq![4096u64, 4096u64])
    &&& fits(m, "mtp.0.enorm.weight"@, 0, seq![4096u64])
    &&& fits(m, "mtp.0.hnorm.weight"@, 0, seq![4096u64])
    &&& fits(m, "mtp.0.norm.weight"@, 0, seq![4096u64])
    &&& fits(m, "mtp.0.hc_head_base.weight"@, 0, seq![4u64])
    &&& fits_plain(m, "mtp.0.hc_head_fn.weight"@, seq![16384u64, 4u64])
    &&& fits(m, "mtp.0.hc_head_scale.weight"@, 0, seq![1u64])
}

/// The tensors of the layer of a draft model.
pub open spec fn draft_layer_fits(m: ModelView) -> bool {
    &&& fits_plain(m, "mtp.0.hc_attn_fn.weight"@, seq![16384u64, 24u64])
    &&& fits(m, "mtp.0.hc_attn_scale.weight"@, 0, seq![3u64])
    &&& fits(m, "mtp.0.hc_attn_base.weight"@, 0, seq![24u64])
    &&& fits(m, "mtp.0.attn_norm.weight"@, 0, seq![4096u64])
    &&& fits(m, "mtp.0.attn_q_a.weight"@, 8, seq![4096u64, 1024u64])
    &&& fits(m, "mtp.0.attn_q_a_norm.weight"@, 0, seq![1024u64])
    &&& fits(m, "mtp.0.attn_q_b.weight"@, 8, seq![1024u64, 32768u64])
    &&& fits(m, "mtp.0.attn_kv.weight"@, 8, seq![4096u64, 512u64])
    &&& fits(m, "mtp.0.attn_kv_a_norm.weight"@, 0, seq![512u64])
    &&& fits(m, "mtp.0.attn_sinks.weight"@, 0, seq![64u64])
    &&& fits(m, "mtp.0.attn_output_a.weight"@, 8, seq![4096u64, 8192u64])
    &&& fits(m, "mtp.0.attn_output_b.weight"@, 8, seq![8192u64, 4096u64])
    &&& fits_plain(m, "mtp.0.hc_ffn_fn.weight"@, seq![16384u64, 24u64])
    &&& fits(m, "mtp.0.hc_ffn_scale.weight"@, 0, seq![3u64])
    &&& fits(m, "mtp.0.hc_ffn_base.weight"@, 0, seq![24u64])
    &&& fits(m, "mtp.0.ffn_norm.weight"@, 0, seq![4096u64])
    &&& fits_plain(m, "mtp.0.ffn_gate_inp.weight"@, seq![4096u64, 256u64])
    &&& fits(m, "mtp.0.exp_probs_b.bias"@, 0, seq![256u64])
    &&& fits_routed(m, "mtp.0.ffn_gate_exps.weight"@, seq![4096u64, 2048u64, 256u64])
    &&& fits_routed(m, "mtp.0.ffn_up_exps.weight"@, seq![4096u64, 2048u64, 256u64])
    &&& fits_routed(m, "mtp.0.ffn_down_exps.weight"@, seq![2048u64, 4096u64, 256u64])
    &&& fits(m, "mtp.0.ffn_gate_shexp.weight"@, 8, seq![4096u64, 2048u64])
    &&& fits(m, "mtp.0.ffn_up_shexp.weight"@, 8, seq![4096u64, 2048u64])
    &&& fits(m, "mtp.0.ffn_down_shexp.weight"@, 8, seq![2048u64, 4096u64])
    &&& m.find_tensor("mtp.0.ffn_gate_exps.weight"@)->0.tensor_type == m.find_tensor(
        "mtp.0.ffn_up_exps.weight"@,
    )->0.tensor_type
}

/// A draft model is bound just where all its tensors are there, each of its type and
/// shape, and then each stands in the slot of its name.
pub proof fn draft_is_bound_when_all_fit(m: ModelView)
    ensures
        mtp_bind_fault(m) is None <==> draft_head_fits(m) && draft_layer_fits(m),
        mtp_bind_fault(m) is None ==> {
            &&& m.find_tensor("mtp.0.e_proj.weight"@) == Some(mtp_of(m).e_proj)
            &&& m.find_tensor("mtp.0.h_proj.weight"@) == Some(mtp_of(m).h_proj)
            &&& m.find_tensor("mtp.0.enorm.weight"@) == Some(mtp_of(m).enorm)
            &&& m.find_tensor("mtp.0.hnorm.weight"@) == Some(mtp_of(m).hnorm)
            &&& m.find_tensor("mtp.0.norm.weight"@) == Some(mtp_of(m).norm)
            &&& m.find_tensor("mtp.0.hc_head_base.weight"@) == Some(mtp_of(m).hc_head_base)
            &&& m.find_tensor("mtp.0.hc_head_fn.weight"@) == Some(mtp_of(m).hc_head_fn)
            &&& m.find_tensor("mtp.0.hc_head_scale.weight"@) == Some(mtp_of(m).hc_head_scale)
            &&& m.find_tensor("mtp.0.hc_attn_fn.weight"@) == Some(mtp_of(m).block.hc_attn_fn)
            &&& m.find_tensor("mtp.0.hc_attn_scale.weight"@) == Some(mtp_of(m).block.hc_attn_scale)
            &&& m.find_tensor("mtp.0.hc_attn_base.weight"@) == Some(mtp_of(m).block.hc_attn_base)
            &&& m.find_tensor("mtp.0.attn_norm.weight"@) == Some(mtp_of(m).block.attn_norm)
            &&& m.find_tensor("mtp.0.attn_q_a.weight"@) == Some(mtp_of(m).block.attn_q_a)
            &&& m.find_tensor("mtp.0.attn_q_a_norm.weight"@) == Some(mtp_of(m).block.attn_q_a_norm)
            &&& m.find_tensor("mtp.0.attn_q_b.weight"@) == Some(mtp_of(m).block.attn_q_b)
            &&& m.find_tensor("mtp.0.attn_kv.weight"@) == Some(mtp_of(m).block.attn_kv)
            &&& m.find_tensor("mtp.0.attn_kv_a_norm.weight"@) == Some(mtp_of(m).block.attn_kv_a_norm)
            &&& m.find_tensor("mtp.0.attn_sinks.weight"@) == Some(mtp_of(m).block.attn_sinks)
            &&& m.find_tensor("mtp.0.attn_output_a.weight"@) == Some(mtp_of(m).block.attn_output_a)
            &&& m.find_tensor("mtp.0.attn_output_b.weight"@) == Some(mtp_of(m).block.attn_output_b)
            &&& m.find_tensor("mtp.0.hc_ffn_fn.weight"@) == Some(mtp_of(m).block.hc_ffn_fn)
            &&& m.find_tensor("mtp.0.hc_ffn_scale.weight"@) == Some(mtp_of(m).block.hc_ffn_scale)
            &&& m.find_tensor("mtp.0.hc_ffn_base.weight"@) == Some(mtp_of(m).block.hc_ffn_base)
            &&& m.find_tensor("mtp.0.ffn_norm.weight"@) == Some(mtp_of(m).block.ffn_norm)
            &&& m.find_tensor("mtp.0.ffn_gate_inp.weight"@) == Some(mtp_of(m).block.ffn_gate_inp)
            &&& m.find_tensor("mtp.0.exp_probs_b.bias"@) == Some(mtp_of(m).block.ffn_exp_probs_b)
            &&& m.find_tensor("mtp.0.ffn_gate_exps.weight"@) == Some(mtp_of(m).block.ffn_gate_exps)
            &&& m.find_tensor("mtp.0.ffn_up_exps.weight"@) == Some(mtp_of(m).block.ffn_up_exps)
            &&& m.find_tensor("mtp.0.ffn_down_exps.weight"@) == Some(mtp_of(m).block.ffn_down_exps)
            &&& m.find_tensor("mtp.0.ffn_gate_shexp.weight"@) == Some(mtp_of(m).block.ffn_gate_shexp)
            &&& m.find_tensor("mtp.0.ffn_up_shexp.weight"@) == Some(mtp_of(m).block.ffn_up_shexp)
            &&& m.find_tensor("mtp.0.ffn_down_shexp.weight"@) == Some(mtp_of(m).block.ffn_down_shexp)
        },
{
    lemma_shapes();
    assert(mtp_head_missing(m) is None && mtp_head_fault(mtp_of(m)) is None <==> draft_head_fits(
        m,
    ));
    assert(mtp_layer_missing(m) is None && mtp_attention_fault(mtp_of(m).block) is None
        && mtp_experts_fault(mtp_of(m).block) is None <==> draft_layer_fits(m));
    assert(mtp_fault(mtp_of(m)) is None <==> mtp_head_fault(mtp_of(m)) is None
        && mtp_attention_fault(mtp_of(m).block) is None && mtp_experts_fault(mtp_of(m).block)
        is None);
}

/// What is said of the dimensions of a tensor is true: its name, their number or the first
/// of them that is wrong, with what was wanted.
pub proof fn shape_faults_are_true(t: TensorView, ndim: u32, d0: u64, d1: u64, d2: u64)
    requires
        ndim <= 3,
    ensures
        match shape_fault(t, ndim, d0, d1, d2) {
            None => true,
            Some(WeightsErrorView::WrongRank { tensor, got, expected }) => {
                tensor == t.name && got == t.ndim && expected == ndim && got != expected
            },
            Some(WeightsErrorView::WrongDim { tensor, index, size, wanted }) => {
                &&& tensor == t.name && t.ndim == ndim && index < ndim
                &&& index < t.dims.len() ==> size == t.dims[index as int]
                &&& wanted == if index == 0 {
                    d0
                } else if index == 1 {
                    d1
                } else {
                    d2
                }
                &&& size != wanted
            },
            Some(_) => false,
        },
{
    reveal(shape_fault);
    reveal_with_fuel(dims_fault, 4);
}

/// A tensor that a layer lacks is reported under the name of its slot, with the layer.
pub proof fn lacking_tensors_are_named(l: LayerView, il: u32, layer: u32, slot: Seq<char>)
    ensures
        compressor_fault(l, il) == Some(WeightsErrorView::Absent { layer, slot }) ==> layer == il && {
            ||| slot == "compressor_ape"@ && l.attn_compressor_ape is None
            ||| slot == "compressor_kv"@ && l.attn_compressor_kv is None
            ||| slot == "compressor_gate"@ && l.attn_compressor_gate is None
            ||| slot == "compressor_norm"@ && l.attn_compressor_norm is None
        },
        indexer_fault(l, il) == Some(WeightsErrorView::Absent { layer, slot }) ==> layer == il && {
            ||| slot == "indexer_attn_q_b"@ && l.indexer_attn_q_b is None
            ||| slot == "indexer_proj"@ && l.indexer_proj is None
            ||| slot == "indexer_compressor_ape"@ && l.indexer_compressor_ape is None
            ||| slot == "indexer_compressor_kv"@ && l.indexer_compressor_kv is None
            ||| slot == "indexer_compressor_gate"@ && l.indexer_compressor_gate is None
            ||| slot == "indexer_compressor_norm"@ && l.indexer_compressor_norm is None
        },
        experts_fault(l, il) == Some(WeightsErrorView::Absent { layer, slot }) ==> {
            layer == il && il < 3 && slot == "ffn_gate_tid2eid"@ && l.ffn_gate_tid2eid is None
        },
{
    assert forall|t: TensorView, ndim: u32, d0: u64, d1: u64, d2: u64| ndim <= 3 implies !(
    #[trigger] shape_fault(t, ndim, d0, d1, d2) matches Some(WeightsErrorView::Absent { .. })) by {
        shape_faults_are_true(t, ndim, d0, d1, d2);
    }
}

} // verus!

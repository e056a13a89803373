//! What the buffers of the device are held to.
use vstd::prelude::*;

use crate::metal::{chunks, graph_ctx, graph_raw, graph_raw_cap, present, MetalGraph};

verus! {

/// The raw ring of a graph holds the window of 128 tokens once for each chunk of a prefill,
/// and never more than the context.
pub proof fn raw_ring_fits(ctx: int, prefill: int)
    requires
        ctx > 0,
        prefill > 0,
    ensures
        1 <= graph_raw_cap(ctx, prefill) <= ctx,
        ctx <= 128 ==> graph_raw_cap(ctx, prefill) == ctx,
        ctx > 128 && ctx < 2 * prefill ==> graph_raw_cap(ctx, prefill) == 128,
        ctx > 128 && ctx >= prefill ==> (graph_raw_cap(ctx, prefill) == ctx || graph_raw_cap(
            ctx,
            prefill,
        ) == 128 * (ctx / prefill)),
        graph_raw_cap(0, prefill) == 1,
{
    let q = ctx / prefill;
    if ctx >= prefill {
        assert(q >= 1) by (nonlinear_arith)
            requires
                prefill > 0,
                ctx >= prefill,
                q == ctx / prefill,
        ;
    }
    if ctx < 2 * prefill {
        assert(q <= 1) by (nonlinear_arith)
            requires
                prefill > 0,
                ctx < 2 * prefill,
                q == ctx / prefill,
        ;
    }
    assert(chunks(ctx, prefill) >= 1);
}

/// The raw rows of a graph are at least what is asked for and at least the window, and at
/// most the context; a context of zero stands for what is asked for.
pub proof fn raw_rows_lie_between(raw: int, ctx: int)
    requires
        raw >= 0,
        ctx >= 0,
    ensures
        ctx > 0 ==> graph_ctx(raw, ctx) == ctx,
        ctx == 0 && raw > 0 ==> graph_ctx(raw, ctx) == raw,
        1 <= graph_raw(raw, ctx) <= graph_ctx(raw, ctx),
        128 <= raw <= graph_ctx(raw, ctx) ==> graph_raw(raw, ctx) == raw,
        raw < 128 <= graph_ctx(raw, ctx) ==> graph_raw(raw, ctx) == 128,
        graph_ctx(raw, ctx) < 128 || graph_ctx(raw, ctx) < raw ==> graph_raw(raw, ctx) == graph_ctx(
            raw,
            ctx,
        ),
{
}

/// The buffers among the first `n` that were made.
spec fn made(parts: Seq<Option<u64>>, n: nat) -> Seq<u64>
    decreases n,
{
    if n == 0 {
        Seq::empty()
    } else {
        made(parts, (n - 1) as nat) + present(parts[n - 1])
    }
}

proof fn lemma_made(parts: Seq<Option<u64>>, n: nat, i: int)
    requires
        0 <= i < n <= parts.len(),
        parts[i] is Some,
    ensures
        made(parts, n).contains(parts[i]->0),
    decreases n,
{
    let before = made(parts, (n - 1) as nat);
    let last = present(parts[n - 1]);
    if i == n - 1 {
        assert(last[0] == parts[i]->0);
        lemma_part(before, last, parts[i]->0);
    } else {
        lemma_made(parts, (n - 1) as nat, i);
        lemma_part(before, last, parts[i]->0);
    }
}

proof fn lemma_part(a: Seq<u64>, b: Seq<u64>, x: u64)
    requires
        a.contains(x) || b.contains(x),
    ensures
        (a + b).contains(x),
{
    if a.contains(x) {
        let i = a.index_of(x);
        assert((a + b)[i] == x);
    } else {
        let i = b.index_of(x);
        assert((a + b)[a.len() + i] == x);
    }
}

/// What one of the groups holds is released.
proof fn lemma_released(g: MetalGraph, x: u64)
    requires
        g.head_tensors().contains(x) || g.layer_tensors(43).contains(x)
            || g.step_tensors().contains(x) || g.expert_tensors().contains(x)
            || g.draft_tensors().contains(x) || g.batch_tensors().contains(x),
    ensures
        g.released().contains(x),
{
    let a = g.head_tensors();
    let b = a + g.layer_tensors(43);
    let c = b + g.step_tensors();
    let d = c + g.expert_tensors();
    let e = d + g.draft_tensors();
    if a.contains(x) || g.layer_tensors(43).contains(x) {
        lemma_part(a, g.layer_tensors(43), x);
    }
    if b.contains(x) || g.step_tensors().contains(x) {
        lemma_part(b, g.step_tensors(), x);
    }
    if c.contains(x) || g.expert_tensors().contains(x) {
        lemma_part(c, g.expert_tensors(), x);
    }
    if d.contains(x) || g.draft_tensors().contains(x) {
        lemma_part(d, g.draft_tensors(), x);
    }
    lemma_part(e, g.batch_tensors(), x);
}

/// Every buffer that was made is released: those up to the attention.
pub proof fn attention_buffers_are_released(g: MetalGraph)
    ensures
        g.cur_hc matches Some(b) ==> g.released().contains(b),
        g.flat_hc matches Some(b) ==> g.released().contains(b),
        g.hc_mix matches Some(b) ==> g.released().contains(b),
        g.hc_split matches Some(b) ==> g.released().contains(b),
        g.hc_pre matches Some(b) ==> g.released().contains(b),
        g.hc_post matches Some(b) ==> g.released().contains(b),
        g.hc_comb matches Some(b) ==> g.released().contains(b),
        g.attn_cur matches Some(b) ==> g.released().contains(b),
        g.attn_norm matches Some(b) ==> g.released().contains(b),
        g.qr matches Some(b) ==> g.released().contains(b),
        g.qr_norm matches Some(b) ==> g.released().contains(b),
        g.q matches Some(b) ==> g.released().contains(b),
        g.kv_raw matches Some(b) ==> g.released().contains(b),
        g.kv matches Some(b) ==> g.released().contains(b),
{
    let parts = seq![
        g.cur_hc,
        g.flat_hc,
        g.hc_mix,
        g.hc_split,
        g.hc_pre,
        g.hc_post,
        g.hc_comb,
        g.attn_cur,
        g.attn_norm,
        g.qr,
        g.qr_norm,
        g.q,
        g.kv_raw,
        g.kv,
    ];
    lemma_head_tensors(g);
    assert forall|i: int| 0 <= i < 14 && #[trigger] parts[i] is Some implies g.released().contains(
        parts[i]->0,
    ) by {
        lemma_made(parts, 14, i);
        lemma_released(g, parts[i]->0);
    }
    assert(parts[0] == g.cur_hc);
    assert(parts[1] == g.flat_hc);
    assert(parts[2] == g.hc_mix);
    assert(parts[3] == g.hc_split);
    assert(parts[4] == g.hc_pre);
    assert(parts[5] == g.hc_post);
    assert(parts[6] == g.hc_comb);
    assert(parts[7] == g.attn_cur);
    assert(parts[8] == g.attn_norm);
    assert(parts[9] == g.qr);
    assert(parts[10] == g.qr_norm);
    assert(parts[11] == g.q);
    assert(parts[12] == g.kv_raw);
    assert(parts[13] == g.kv);
}

/// Those from the compression on.
pub proof fn compression_buffers_are_released(g: MetalGraph)
    ensures
        g.spec_logits matches Some(b) ==> g.released().contains(b),
        g.comp_kv_cur matches Some(b) ==> g.released().contains(b),
        g.comp_sc_cur matches Some(b) ==> g.released().contains(b),
        g.indexer_q matches Some(b) ==> g.released().contains(b),
        g.indexer_weights matches Some(b) ==> g.released().contains(b),
        g.indexer_scores matches Some(b) ==> g.released().contains(b),
        g.comp_mask matches Some(b) ==> g.released().contains(b),
        g.comp_selected matches Some(b) ==> g.released().contains(b),
        g.heads matches Some(b) ==> g.released().contains(b),
        g.attn_low matches Some(b) ==> g.released().contains(b),
        g.attn_out matches Some(b) ==> g.released().contains(b),
        g.after_attn_hc matches Some(b) ==> g.released().contains(b),
        g.ffn_cur matches Some(b) ==> g.released().contains(b),
        g.ffn_norm matches Some(b) ==> g.released().contains(b),
        g.shared_gate matches Some(b) ==> g.released().contains(b),
        g.shared_up matches Some(b) ==> g.released().contains(b),
        g.shared_mid matches Some(b) ==> g.released().contains(b),
        g.shared_out matches Some(b) ==> g.released().contains(b),
        g.router_logits matches Some(b) ==> g.released().contains(b),
        g.router_probs matches Some(b) ==> g.released().contains(b),
        g.router_selected matches Some(b) ==> g.released().contains(b),
        g.router_weights matches Some(b) ==> g.released().contains(b),
{
    let parts = seq![
        g.spec_logits,
        g.comp_kv_cur,
        g.comp_sc_cur,
        g.indexer_q,
        g.indexer_weights,
        g.indexer_scores,
        g.comp_mask,
        g.comp_selected,
        g.heads,
        g.attn_low,
        g.attn_out,
        g.after_attn_hc,
        g.ffn_cur,
        g.ffn_norm,
        g.shared_gate,
        g.shared_up,
        g.shared_mid,
        g.shared_out,
        g.router_logits,
        g.router_probs,
        g.router_selected,
        g.router_weights,
    ];
    lemma_step_tensors(g);
    assert forall|i: int| 0 <= i < 22 && #[trigger] parts[i] is Some implies g.released().contains(
        parts[i]->0,
    ) by {
        lemma_made(parts, 22, i);
        lemma_released(g, parts[i]->0);
    }
    assert(parts[0] == g.spec_logits);
    assert(parts[1] == g.comp_kv_cur);
    assert(parts[2] == g.comp_sc_cur);
    assert(parts[3] == g.indexer_q);
    assert(parts[4] == g.indexer_weights);
    assert(parts[5] == g.indexer_scores);
    assert(parts[6] == g.comp_mask);
    assert(parts[7] == g.comp_selected);
    assert(parts[8] == g.heads);
    assert(parts[9] == g.attn_low);
    assert(parts[10] == g.attn_out);
    assert(parts[11] == g.after_attn_hc);
    assert(parts[12] == g.ffn_cur);
    assert(parts[13] == g.ffn_norm);
    assert(parts[14] == g.shared_gate);
    assert(parts[15] == g.shared_up);
    assert(parts[16] == g.shared_mid);
    assert(parts[17] == g.shared_out);
    assert(parts[18] == g.router_logits);
    assert(parts[19] == g.router_probs);
    assert(parts[20] == g.router_selected);
    assert(parts[21] == g.router_weights);
}

/// Those from the routed experts to the draft.
pub proof fn expert_buffers_are_released(g: MetalGraph)
    ensures
        g.routed_gate matches Some(b) ==> g.released().contains(b),
        g.routed_up matches Some(b) ==> g.released().contains(b),
        g.routed_mid matches Some(b) ==> g.released().contains(b),
        g.routed_down matches Some(b) ==> g.released().contains(b),
        g.routed_out matches Some(b) ==> g.released().contains(b),
        g.ffn_out matches Some(b) ==> g.released().contains(b),
        g.after_ffn_hc matches Some(b) ==> g.released().contains(b),
        g.output_pre matches Some(b) ==> g.released().contains(b),
        g.output_weights matches Some(b) ==> g.released().contains(b),
        g.output_embd matches Some(b) ==> g.released().contains(b),
        g.output_norm matches Some(b) ==> g.released().contains(b),
        g.logits matches Some(b) ==> g.released().contains(b),
        g.mtp_embed matches Some(b) ==> g.released().contains(b),
        g.mtp_enorm matches Some(b) ==> g.released().contains(b),
        g.mtp_eproj matches Some(b) ==> g.released().contains(b),
        g.mtp_eproj_hc matches Some(b) ==> g.released().contains(b),
        g.mtp_hnorm_hc matches Some(b) ==> g.released().contains(b),
        g.mtp_hproj_hc matches Some(b) ==> g.released().contains(b),
        g.mtp_input_hc matches Some(b) ==> g.released().contains(b),
        g.mtp_state_hc matches Some(b) ==> g.released().contains(b),
        g.mtp_next_hc matches Some(b) ==> g.released().contains(b),
        g.mtp_raw_cache matches Some(b) ==> g.released().contains(b),
{
    let parts = seq![
        g.routed_gate,
        g.routed_up,
        g.routed_mid,
        g.routed_down,
        g.routed_out,
        g.ffn_out,
        g.after_ffn_hc,
        g.output_pre,
        g.output_weights,
        g.output_embd,
        g.output_norm,
        g.logits,
        g.mtp_embed,
        g.mtp_enorm,
        g.mtp_eproj,
        g.mtp_eproj_hc,
        g.mtp_hnorm_hc,
        g.mtp_hproj_hc,
        g.mtp_input_hc,
        g.mtp_state_hc,
        g.mtp_next_hc,
        g.mtp_raw_cache,
    ];
    lemma_expert_tensors(g);
    assert forall|i: int| 0 <= i < 22 && #[trigger] parts[i] is Some implies g.released().contains(
        parts[i]->0,
    ) by {
        lemma_made(parts, 22, i);
        lemma_released(g, parts[i]->0);
    }
    assert(parts[0] == g.routed_gate);
    assert(parts[1] == g.routed_up);
    assert(parts[2] == g.routed_mid);
    assert(parts[3] == g.routed_down);
    assert(parts[4] == g.routed_out);
    assert(parts[5] == g.ffn_out);
    assert(parts[6] == g.after_ffn_hc);
    assert(parts[7] == g.output_pre);
    assert(parts[8] == g.output_weights);
    assert(parts[9] == g.output_embd);
    assert(parts[10] == g.output_norm);
    assert(parts[11] == g.logits);
    assert(parts[12] == g.mtp_embed);
    assert(parts[13] == g.mtp_enorm);
    assert(parts[14] == g.mtp_eproj);
    assert(parts[15] == g.mtp_eproj_hc);
    assert(parts[16] == g.mtp_hnorm_hc);
    assert(parts[17] == g.mtp_hproj_hc);
    assert(parts[18] == g.mtp_input_hc);
    assert(parts[19] == g.mtp_state_hc);
    assert(parts[20] == g.mtp_next_hc);
    assert(parts[21] == g.mtp_raw_cache);
}

/// Those of a batch up to its attention.
pub proof fn batch_buffers_are_released(g: MetalGraph)
    ensures
        g.prefill_tokens matches Some(b) ==> g.released().contains(b),
        g.batch_cur_hc matches Some(b) ==> g.released().contains(b),
        g.batch_next_hc matches Some(b) ==> g.released().contains(b),
        g.batch_flat_hc matches Some(b) ==> g.released().contains(b),
        g.batch_hc_mix matches Some(b) ==> g.released().contains(b),
        g.batch_hc_split matches Some(b) ==> g.released().contains(b),
        g.batch_attn_cur matches Some(b) ==> g.released().contains(b),
        g.batch_attn_norm matches Some(b) ==> g.released().contains(b),
        g.batch_qr matches Some(b) ==> g.released().contains(b),
        g.batch_qr_norm matches Some(b) ==> g.released().contains(b),
        g.batch_q matches Some(b) ==> g.released().contains(b),
        g.batch_kv_raw matches Some(b) ==> g.released().contains(b),
        g.batch_kv matches Some(b) ==> g.released().contains(b),
        g.batch_comp_kv matches Some(b) ==> g.released().contains(b),
        g.batch_comp_sc matches Some(b) ==> g.released().contains(b),
        g.batch_indexer_q matches Some(b) ==> g.released().contains(b),
        g.batch_indexer_weights matches Some(b) ==> g.released().contains(b),
        g.batch_heads matches Some(b) ==> g.released().contains(b),
        g.batch_attn_low matches Some(b) ==> g.released().contains(b),
        g.batch_attn_out matches Some(b) ==> g.released().contains(b),
        g.batch_group_tmp matches Some(b) ==> g.released().contains(b),
        g.batch_low_tmp matches Some(b) ==> g.released().contains(b),
{
    let parts = seq![
        g.prefill_tokens,
        g.batch_cur_hc,
        g.batch_next_hc,
        g.batch_flat_hc,
        g.batch_hc_mix,
        g.batch_hc_split,
        g.batch_attn_cur,
        g.batch_attn_norm,
        g.batch_qr,
        g.batch_qr_norm,
        g.batch_q,
        g.batch_kv_raw,
        g.batch_kv,
        g.batch_comp_kv,
        g.batch_comp_sc,
        g.batch_indexer_q,
        g.batch_indexer_weights,
        g.batch_heads,
        g.batch_attn_low,
        g.batch_attn_out,
        g.batch_group_tmp,
        g.batch_low_tmp,
    ];
    lemma_draft_tensors(g);
    assert forall|i: int| 0 <= i < 22 && #[trigger] parts[i] is Some implies g.released().contains(
        parts[i]->0,
    ) by {
        lemma_made(parts, 22, i);
        lemma_released(g, parts[i]->0);
    }
    assert(parts[0] == g.prefill_tokens);
    assert(parts[1] == g.batch_cur_hc);
    assert(parts[2] == g.batch_next_hc);
    assert(parts[3] == g.batch_flat_hc);
    assert(parts[4] == g.batch_hc_mix);
    assert(parts[5] == g.batch_hc_split);
    assert(parts[6] == g.batch_attn_cur);
    assert(parts[7] == g.batch_attn_norm);
    assert(parts[8] == g.batch_qr);
    assert(parts[9] == g.batch_qr_norm);
    assert(parts[10] == g.batch_q);
    assert(parts[11] == g.batch_kv_raw);
    assert(parts[12] == g.batch_kv);
    assert(parts[13] == g.batch_comp_kv);
    assert(parts[14] == g.batch_comp_sc);
    assert(parts[15] == g.batch_indexer_q);
    assert(parts[16] == g.batch_indexer_weights);
    assert(parts[17] == g.batch_heads);
    assert(parts[18] == g.batch_attn_low);
    assert(parts[19] == g.batch_attn_out);
    assert(parts[20] == g.batch_group_tmp);
    assert(parts[21] == g.batch_low_tmp);
}

/// Those of a batch behind its attention.
pub proof fn other_batch_buffers_are_released(g: MetalGraph)
    ensures
        g.batch_after_attn_hc matches Some(b) ==> g.released().contains(b),
        g.batch_ffn_cur matches Some(b) ==> g.released().contains(b),
        g.batch_ffn_norm matches Some(b) ==> g.released().contains(b),
        g.batch_shared_gate matches Some(b) ==> g.released().contains(b),
        g.batch_shared_up matches Some(b) ==> g.released().contains(b),
        g.batch_shared_mid matches Some(b) ==> g.released().contains(b),
        g.batch_shared_out matches Some(b) ==> g.released().contains(b),
        g.batch_router_logits matches Some(b) ==> g.released().contains(b),
        g.batch_router_probs matches Some(b) ==> g.released().contains(b),
        g.batch_router_selected matches Some(b) ==> g.released().contains(b),
        g.batch_router_weights matches Some(b) ==> g.released().contains(b),
        g.batch_routed_gate matches Some(b) ==> g.released().contains(b),
        g.batch_routed_up matches Some(b) ==> g.released().contains(b),
        g.batch_routed_mid matches Some(b) ==> g.released().contains(b),
        g.batch_routed_down matches Some(b) ==> g.released().contains(b),
        g.batch_routed_out matches Some(b) ==> g.released().contains(b),
        g.batch_ffn_out matches Some(b) ==> g.released().contains(b),
{
    let parts = seq![
        g.batch_after_attn_hc,
        g.batch_ffn_cur,
        g.batch_ffn_norm,
        g.batch_shared_gate,
        g.batch_shared_up,
        g.batch_shared_mid,
        g.batch_shared_out,
        g.batch_router_logits,
        g.batch_router_probs,
        g.batch_router_selected,
        g.batch_router_weights,
        g.batch_routed_gate,
        g.batch_routed_up,
        g.batch_routed_mid,
        g.batch_routed_down,
        g.batch_routed_out,
        g.batch_ffn_out,
    ];
    lemma_batch_tensors(g);
    assert forall|i: int| 0 <= i < 17 && #[trigger] parts[i] is Some implies g.released().contains(
        parts[i]->0,
    ) by {
        lemma_made(parts, 17, i);
        lemma_released(g, parts[i]->0);
    }
    assert(parts[0] == g.batch_after_attn_hc);
    assert(parts[1] == g.batch_ffn_cur);
    assert(parts[2] == g.batch_ffn_norm);
    assert(parts[3] == g.batch_shared_gate);
    assert(parts[4] == g.batch_shared_up);
    assert(parts[5] == g.batch_shared_mid);
    assert(parts[6] == g.batch_shared_out);
    assert(parts[7] == g.batch_router_logits);
    assert(parts[8] == g.batch_router_probs);
    assert(parts[9] == g.batch_router_selected);
    assert(parts[10] == g.batch_router_weights);
    assert(parts[11] == g.batch_routed_gate);
    assert(parts[12] == g.batch_routed_up);
    assert(parts[13] == g.batch_routed_mid);
    assert(parts[14] == g.batch_routed_down);
    assert(parts[15] == g.batch_routed_out);
    assert(parts[16] == g.batch_ffn_out);
}

/// Those of every layer.
pub proof fn layer_buffers_are_released(g: MetalGraph, i: int)
    requires
        0 <= i < 43,
    ensures
        g.layer_raw_cache@[i] matches Some(b) ==> g.released().contains(b),
        g.layer_attn_comp_cache@[i] matches Some(b) ==> g.released().contains(b),
        g.layer_attn_state_kv@[i] matches Some(b) ==> g.released().contains(b),
        g.layer_attn_state_score@[i] matches Some(b) ==> g.released().contains(b),
        g.layer_index_comp_cache@[i] matches Some(b) ==> g.released().contains(b),
        g.layer_index_state_kv@[i] matches Some(b) ==> g.released().contains(b),
        g.layer_index_state_score@[i] matches Some(b) ==> g.released().contains(b),
        g.spec_attn_state_kv@[i] matches Some(b) ==> g.released().contains(b),
        g.spec_attn_state_score@[i] matches Some(b) ==> g.released().contains(b),
        g.spec_index_state_kv@[i] matches Some(b) ==> g.released().contains(b),
        g.spec_index_state_score@[i] matches Some(b) ==> g.released().contains(b),
        g.spec_prefix1_attn_state_kv@[i] matches Some(b) ==> g.released().contains(b),
        g.spec_prefix1_attn_state_score@[i] matches Some(b) ==> g.released().contains(b),
        g.spec_prefix1_index_state_kv@[i] matches Some(b) ==> g.released().contains(b),
        g.spec_prefix1_index_state_score@[i] matches Some(b) ==> g.released().contains(b),
{
    let parts = layer_parts(g, i);
    assert forall|k: int| 0 <= k < 15 && #[trigger] parts[k] is Some implies g.released().contains(
        parts[k]->0,
    ) by {
        lemma_made(parts, 15, k);
        lemma_layer(g, 43, i, parts[k]->0);
        lemma_released(g, parts[k]->0);
    }
    assert(parts[0] == g.layer_raw_cache@[i]);
    assert(parts[1] == g.layer_attn_comp_cache@[i]);
    assert(parts[2] == g.layer_attn_state_kv@[i]);
    assert(parts[3] == g.layer_attn_state_score@[i]);
    assert(parts[4] == g.layer_index_comp_cache@[i]);
    assert(parts[5] == g.layer_index_state_kv@[i]);
    assert(parts[6] == g.layer_index_state_score@[i]);
    assert(parts[7] == g.spec_attn_state_kv@[i]);
    assert(parts[8] == g.spec_attn_state_score@[i]);
    assert(parts[9] == g.spec_index_state_kv@[i]);
    assert(parts[10] == g.spec_index_state_score@[i]);
    assert(parts[11] == g.spec_prefix1_attn_state_kv@[i]);
    assert(parts[12] == g.spec_prefix1_attn_state_score@[i]);
    assert(parts[13] == g.spec_prefix1_index_state_kv@[i]);
    assert(parts[14] == g.spec_prefix1_index_state_score@[i]);
}

/// The buffers of one layer.
spec fn layer_parts(g: MetalGraph, i: int) -> Seq<Option<u64>> {
    seq![
        g.layer_raw_cache@[i],
        g.layer_attn_comp_cache@[i],
        g.layer_attn_state_kv@[i],
        g.layer_attn_state_score@[i],
        g.layer_index_comp_cache@[i],
        g.layer_index_state_kv@[i],
        g.layer_index_state_score@[i],
        g.spec_attn_state_kv@[i],
        g.spec_attn_state_score@[i],
        g.spec_index_state_kv@[i],
        g.spec_index_state_score@[i],
        g.spec_prefix1_attn_state_kv@[i],
        g.spec_prefix1_attn_state_score@[i],
        g.spec_prefix1_index_state_kv@[i],
        g.spec_prefix1_index_state_score@[i],
    ]
}

proof fn lemma_layer(g: MetalGraph, n: nat, i: int, x: u64)
    requires
        0 <= i < n,
        made(layer_parts(g, i), 15).contains(x),
    ensures
        g.layer_tensors(n).contains(x),
    decreases n,
{
    let parts = layer_parts(g, n - 1);
    let before = g.layer_tensors((n - 1) as nat);
    lemma_layer_parts(g, n);
    if i < n - 1 {
        lemma_layer(g, (n - 1) as nat, i, x);
    }
    lemma_part(before, made(parts, 15), x);
}


#[verifier::spinoff_prover]
#[verifier::rlimit(40)]
proof fn lemma_head_tensors(g: MetalGraph)
    ensures
        g.head_tensors() == made(
            seq![
                g.cur_hc,
                g.flat_hc,
                g.hc_mix,
                g.hc_split,
                g.hc_pre,
                g.hc_post,
                g.hc_comb,
                g.attn_cur,
                g.attn_norm,
                g.qr,
                g.qr_norm,
                g.q,
                g.kv_raw,
                g.kv,
            ],
            14,
        ),
{
    reveal_with_fuel(made, 15);
}

#[verifier::spinoff_prover]
#[verifier::rlimit(40)]
proof fn lemma_step_tensors(g: MetalGraph)
    ensures
        g.step_tensors() == made(
            seq![
                g.spec_logits,
                g.comp_kv_cur,
                g.comp_sc_cur,
                g.indexer_q,
                g.indexer_weights,
                g.indexer_scores,
                g.comp_mask,
                g.comp_selected,
                g.heads,
                g.attn_low,
                g.attn_out,
                g.after_attn_hc,
                g.ffn_cur,
                g.ffn_norm,
                g.shared_gate,
                g.shared_up,
                g.shared_mid,
                g.shared_out,
                g.router_logits,
                g.router_probs,
                g.router_selected,
                g.router_weights,
            ],
            22,
        ),
{
    reveal_with_fuel(made, 23);
}

#[verifier::spinoff_prover]
#[verifier::rlimit(40)]
proof fn lemma_expert_tensors(g: MetalGraph)
    ensures
        g.expert_tensors() == made(
            seq![
                g.routed_gate,
                g.routed_up,
                g.routed_mid,
                g.routed_down,
                g.routed_out,
                g.ffn_out,
                g.after_ffn_hc,
                g.output_pre,
                g.output_weights,
                g.output_embd,
                g.output_norm,
                g.logits,
                g.mtp_embed,
                g.mtp_enorm,
                g.mtp_eproj,
                g.mtp_eproj_hc,
                g.mtp_hnorm_hc,
                g.mtp_hproj_hc,
                g.mtp_input_hc,
                g.mtp_state_hc,
                g.mtp_next_hc,
                g.mtp_raw_cache,
            ],
            22,
        ),
{
    reveal_with_fuel(made, 23);
}

#[verifier::spinoff_prover]
#[verifier::rlimit(40)]
proof fn lemma_draft_tensors(g: MetalGraph)
    ensures
        g.draft_tensors() == made(
            seq![
                g.prefill_tokens,
                g.batch_cur_hc,
                g.batch_next_hc,
                g.batch_flat_hc,
                g.batch_hc_mix,
                g.batch_hc_split,
                g.batch_attn_cur,
                g.batch_attn_norm,
                g.batch_qr,
                g.batch_qr_norm,
                g.batch_q,
                g.batch_kv_raw,
                g.batch_kv,
                g.batch_comp_kv,
                g.batch_comp_sc,
                g.batch_indexer_q,
                g.batch_indexer_weights,
                g.batch_heads,
                g.batch_attn_low,
                g.batch_attn_out,
                g.batch_group_tmp,
                g.batch_low_tmp,
            ],
            22,
        ),
{
    reveal_with_fuel(made, 23);
}

#[verifier::spinoff_prover]
#[verifier::rlimit(40)]
proof fn lemma_batch_tensors(g: MetalGraph)
    ensures
        g.batch_tensors() == made(
            seq![
                g.batch_after_attn_hc,
                g.batch_ffn_cur,
                g.batch_ffn_norm,
                g.batch_shared_gate,
                g.batch_shared_up,
                g.batch_shared_mid,
                g.batch_shared_out,
                g.batch_router_logits,
                g.batch_router_probs,
                g.batch_router_selected,
                g.batch_router_weights,
                g.batch_routed_gate,
                g.batch_routed_up,
                g.batch_routed_mid,
                g.batch_routed_down,
                g.batch_routed_out,
                g.batch_ffn_out,
            ],
            17,
        ),
{
    reveal_with_fuel(made, 18);
}

#[verifier::spinoff_prover]
#[verifier::rlimit(40)]
proof fn lemma_layer_parts(g: MetalGraph, n: nat)
    requires
        n > 0,
    ensures
        g.layer_tensors(n) == g.layer_tensors((n - 1) as nat) + made(layer_parts(g, n - 1), 15),
{
    let parts = layer_parts(g, n - 1);
    let before = g.layer_tensors((n - 1) as nat);
    lemma_made_behind(before, parts, 15);
    reveal_with_fuel(behind, 16);
}

/// The buffers among the first `n` that were made, behind others.
spec fn behind(before: Seq<u64>, parts: Seq<Option<u64>>, n: nat) -> Seq<u64>
    decreases n,
{
    if n == 0 {
        before
    } else {
        behind(before, parts, (n - 1) as nat) + present(parts[n - 1])
    }
}

proof fn lemma_made_behind(before: Seq<u64>, parts: Seq<Option<u64>>, n: nat)
    ensures
        behind(before, parts, n) == before + made(parts, n),
    decreases n,
{
    if n == 0 {
        assert(before + Seq::<u64>::empty() =~= before);
    } else {
        lemma_made_behind(before, parts, (n - 1) as nat);
        let m = made(parts, (n - 1) as nat);
        assert((before + m) + present(parts[n - 1]) =~= before + (m + present(parts[n - 1])));
    }
}

} // verus!

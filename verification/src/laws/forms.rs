//! What the mathematical forms of values are held to: each holds what the value holds.
use vstd::prelude::*;

use crate::cache::{cache_views, LayerCache};
use crate::generate::Generation;
use crate::gguf::{KvEntry, MetadataValue, MetaView, ModelGGUF, TensorInfo};
use crate::http::{headers_view, Header, HttpRequest};
use crate::json::{json_view, json_views, members_view, Json, JsonView, Member};
use crate::options::{engine_settings, gen_settings, CliConfig, GenOptions};
use crate::request::{
    call_views, message_views, optional_view, tool_views, ChatMessage, Request, ToolCallData,
    ToolDefinition,
};
use crate::respond::{ResponseData, StreamLabel};
use crate::serve::ServerConfig;
use crate::session::Session;
use crate::stream::{event_views, EventView, Piece, PieceView, StreamEvent, StreamState};
use crate::tokenizer::{byte_views, string_views, Vocab};
use crate::types::EngineOptions;

verus! {

/// Lists have the forms of their items, in order, and what may be missing has a form where
/// it is there.
pub proof fn lists_hold_their_items(
    calls: Seq<ToolCallData>,
    msgs: Seq<ChatMessage>,
    tools: Seq<ToolDefinition>,
    texts: Seq<String>,
    events: Seq<StreamEvent>,
    caches: Seq<LayerCache>,
    s: String,
    i: int,
)
    ensures
        call_views(calls).len() == calls.len(),
        0 <= i < calls.len() ==> call_views(calls)[i] == calls[i]@,
        message_views(msgs).len() == msgs.len(),
        0 <= i < msgs.len() ==> message_views(msgs)[i] == msgs[i]@,
        tool_views(tools).len() == tools.len(),
        0 <= i < tools.len() ==> tool_views(tools)[i] == tools[i]@,
        string_views(texts).len() == texts.len(),
        0 <= i < texts.len() ==> string_views(texts)[i] == texts[i]@,
        event_views(events).len() == events.len(),
        0 <= i < events.len() ==> event_views(events)[i] == events[i]@,
        cache_views(caches).len() == caches.len(),
        0 <= i < caches.len() ==> cache_views(caches)[i] == caches[i]@,
        optional_view(Some(s)) == Some(s@),
        optional_view(None) is None,
{
}

/// A tool call, a message, a tool and a label.
pub proof fn messages_hold_their_parts(
    c: ToolCallData,
    m: ChatMessage,
    t: ToolDefinition,
    l: StreamLabel,
)
    ensures
        c@.id == c.id@ && c@.name == c.name@ && c@.arguments == c.arguments@,
        m@.role == m.role@ && m@.content == m.content@,
        m@.reasoning_content == optional_view(m.reasoning_content),
        m@.tool_call_id == optional_view(m.tool_call_id),
        m@.tool_calls == call_views(m.tool_calls@),
        t@.name == t.name@ && t@.parameters == t.parameters@,
        t@.description == optional_view(t.description),
        l@.id == l.id@ && l@.created == l.created && l@.model == l.model@,
{
}

/// A request and an answer.
pub proof fn requests_hold_their_parts(q: Request, d: ResponseData, g: Generation)
    ensures
        q@.kind == q.kind && q@.model == q.model@ && q@.messages == message_views(q.messages@),
        q@.prompt_text == optional_view(q.prompt_text) && q@.max_tokens == q.max_tokens,
        q@.temperature == q.temperature && q@.top_p == q.top_p && q@.min_p == q.min_p,
        q@.top_k == q.top_k && q@.seed == q.seed && q@.stream == q.stream,
        q@.stream_include_usage == q.stream_include_usage && q@.stop == string_views(q.stop@),
        q@.tools == tool_views(q.tools@) && q@.tool_choice == q.tool_choice@,
        q@.think_mode == q.think_mode,
        d@.content == d.content@ && d@.reasoning == d.reasoning@,
        d@.tool_calls == call_views(d.tool_calls@) && d@.finish_reason == d.finish_reason@,
        d@.prompt_tokens == d.prompt_tokens && d@.completion_tokens == d.completion_tokens,
        g@.text == g.text@ && g@.count == g.count && g@.left == g.left && g@.finish == g.finish,
{
}

/// The pieces and the events of a stream, and its state.
pub proof fn events_hold_their_parts(s: String, c: ToolCallData, st: StreamState)
    ensures
        Piece::Reasoning(s)@ == PieceView::Reasoning(s@),
        Piece::Content(s)@ == PieceView::Content(s@),
        StreamEvent::Token(s)@ == EventView::Token(s@),
        StreamEvent::ReasoningToken(s)@ == EventView::ReasoningToken(s@),
        StreamEvent::ToolCall(c)@ == EventView::ToolCall(c@),
        StreamEvent::Error(s)@ == EventView::Error(s@),
        st@.mode == st.mode && st@.emit_pos == st.emit_pos,
        st@.checked == st.checked_think_prefix && st@.sent_reasoning == st.sent_reasoning,
        st@.sent_content == st.sent_content && st@.tool_calls == call_views(st.tool_calls@),
{
}

/// An HTTP request; of two headers with the same name the later one counts.
pub proof fn http_requests_hold_their_parts(q: HttpRequest, h: Seq<Header>, e: Header)
    ensures
        q@.method == q.method@ && q@.path == q.path@ && q@.version == q.version@,
        q@.body == q.body@,
        q@.headers == headers_view(q.headers@, q.headers@.len()),
        headers_view(h.push(e), h.len() + 1) == headers_view(h, h.len()).insert(e.name@, e.value@),
        headers_view(Seq::empty(), 0) == Map::<Seq<char>, Seq<char>>::empty(),
{
    lemma_headers_prefix(h, e, h.len());
    assert(h.push(e)[h.len() as int] == e);
}

proof fn lemma_headers_prefix(h: Seq<Header>, e: Header, n: nat)
    requires
        n <= h.len(),
    ensures
        headers_view(h.push(e), n) == headers_view(h, n),
    decreases n,
{
    if n > 0 {
        lemma_headers_prefix(h, e, (n - 1) as nat);
        assert(h.push(e)[n - 1] == h[n - 1]);
    }
}

/// A JSON value; of two members with the same key the later one counts.
pub proof fn json_holds_its_parts(j: Json, members: Seq<Member>, e: Member)
    ensures
        j matches Json::Text(s) ==> j@ == JsonView::Text(s@),
        j matches Json::Bool(b) ==> j@ == JsonView::Bool(b),
        j matches Json::Unsigned(n) ==> j@ == JsonView::Unsigned(n),
        j matches Json::Negative(n) ==> j@ == JsonView::Negative(n),
        j matches Json::List(v) ==> j@ == JsonView::List(json_views(v@)),
        j matches Json::Object(m) ==> j@ == JsonView::Object(members_view(m@, m@.len())),
        members_view(members.push(e), members.len() + 1) == members_view(
            members,
            members.len(),
        ).insert(e.key@, json_view(e.value)),
{
    lemma_members_prefix(members, e, members.len());
    assert(members.push(e)[members.len() as int] == e);
    match j {
        Json::List(v) => {
            assert(j@->List_0 =~= json_views(v@));
        },
        _ => {},
    }
}

proof fn lemma_members_prefix(m: Seq<Member>, e: Member, n: nat)
    requires
        n <= m.len(),
    ensures
        members_view(m.push(e), n) == members_view(m, n),
    decreases n,
{
    if n > 0 {
        lemma_members_prefix(m, e, (n - 1) as nat);
        assert(m.push(e)[n - 1] == m[n - 1]);
    }
}

/// The settings of the program and of the server.
pub proof fn settings_hold_their_parts(c: CliConfig, e: EngineOptions, g: GenOptions, s: ServerConfig)
    ensures
        c@.engine == engine_settings(c.engine) && c@.gen == gen_settings(c.gen),
        c@.inspect == c.inspect,
        engine_settings(e).model_path == e.model_path@,
        engine_settings(e).mtp_path == optional_view(e.mtp_path),
        engine_settings(e).backend == e.backend && engine_settings(e).n_threads == e.n_threads,
        engine_settings(e).mtp_draft_tokens == e.mtp_draft_tokens,
        engine_settings(e).mtp_margin == e.mtp_margin,
        engine_settings(e).warm_weights == e.warm_weights && engine_settings(e).quality == e.quality,
        gen_settings(g).prompt == optional_view(g.prompt) && gen_settings(g).system == g.system@,
        gen_settings(g).n_predict == g.n_predict && gen_settings(g).ctx_size == g.ctx_size,
        gen_settings(g).temperature == g.temperature && gen_settings(g).top_p == g.top_p,
        gen_settings(g).seed == g.seed && gen_settings(g).think_mode == g.think_mode,
        gen_settings(g).dump_tokens == g.dump_tokens && gen_settings(g).head_test == g.head_test,
        gen_settings(g).dump_logprobs_path == optional_view(g.dump_logprobs_path),
        gen_settings(g).dump_logprobs_top_k == g.dump_logprobs_top_k,
        gen_settings(g).first_token_test == g.first_token_test,
        gen_settings(g).metal_graph_test == g.metal_graph_test,
        gen_settings(g).metal_graph_full_test == g.metal_graph_full_test,
        gen_settings(g).metal_graph_prompt_test == g.metal_graph_prompt_test,
        s@.model_path == s.model_path@ && s@.ctx_size == s.ctx_size && s@.host == s.host@,
        s@.port == s.port && s@.backend == s.backend && s@.n_threads == s.n_threads,
        s@.quality == s.quality && s@.disk_cache_dir == optional_view(s.disk_cache_dir),
        s@.max_disk_cache_entries == s.max_disk_cache_entries,
{
}

/// A model file, its entries and its tensors.
pub proof fn models_hold_their_parts(m: ModelGGUF, e: KvEntry, t: TensorInfo, i: int)
    ensures
        m@.version == m.version && m@.n_kv == m.n_kv && m@.n_tensors == m.n_tensors,
        m@.alignment == m.alignment && m@.tensor_data_pos == m.tensor_data_pos,
        m@.file_len == m.file_len,
        m@.kv.len() == m.kv@.len() && m@.tensors.len() == m.tensors@.len(),
        0 <= i < m.kv@.len() ==> m@.kv[i] == m.kv@[i]@,
        0 <= i < m.tensors@.len() ==> m@.tensors[i] == m.tensors@[i]@,
        e@.key == e.key@ && e@.value == e.value@,
        t@.name == t.name@ && t@.ndim == t.ndim && t@.dims == t.dims@,
        t@.tensor_type == t.tensor_type && t@.abs_offset == t.abs_offset,
        t@.rel_offset == t.rel_offset && t@.elements == t.elements && t@.bytes == t.bytes,
{
}

/// A metadata value keeps its type and what it holds.
pub proof fn metadata_holds_its_parts(v: MetadataValue, i: int)
    ensures
        v matches MetadataValue::Uint8(x) ==> v@ == MetaView::Uint8(x),
        v matches MetadataValue::Int8(x) ==> v@ == MetaView::Int8(x),
        v matches MetadataValue::Uint16(x) ==> v@ == MetaView::Uint16(x),
        v matches MetadataValue::Int16(x) ==> v@ == MetaView::Int16(x),
        v matches MetadataValue::Uint32(x) ==> v@ == MetaView::Uint32(x),
        v matches MetadataValue::Int32(x) ==> v@ == MetaView::Int32(x),
        v matches MetadataValue::Uint64(x) ==> v@ == MetaView::Uint64(x),
        v matches MetadataValue::Int64(x) ==> v@ == MetaView::Int64(x),
        v matches MetadataValue::Float32(x) ==> v@ == MetaView::Float32(x),
        v matches MetadataValue::Float64(x) ==> v@ == MetaView::Float64(x),
        v matches MetadataValue::Bool(x) ==> v@ == MetaView::Bool(x),
        v matches MetadataValue::String(x) ==> v@ == MetaView::String(x@),
        v matches MetadataValue::Array(x) ==> v@ is Array && v@->Array_0.len() == x@.len() && (0
            <= i < x@.len() ==> v@->Array_0[i] == x@[i]@),
{
}

/// A vocabulary and a session.
pub proof fn sessions_hold_their_parts(v: Vocab, s: Session)
    ensures
        v@.tokens == byte_views(v.tokens@) && v@.id_to_token == string_views(v.id_to_token@),
        v@.token_to_id == v.token_to_id@ && v@.merge_rank == v.merge_rank@,
        v@.scores == v.scores@ && v@.bos_id == v.bos_id && v@.eos_id == v.eos_id,
        v@.pad_id == v.pad_id && v@.user_id == v.user_id && v@.assistant_id == v.assistant_id,
        v@.think_start_id == v.think_start_id && v@.think_end_id == v.think_end_id,
        v@.dsml_id == v.dsml_id,
        s@.tokens == s.checkpoint@ && s@.logits == s.logits@ && s@.valid == s.checkpoint_valid,
        s@.draft_valid == s.mtp_draft_valid && s@.draft_token == s.mtp_draft_token,
        s@.probe_total == s.mtp_probe_total && s@.probe_hit == s.mtp_probe_hit,
        s@.ctx == s.ctx_size && s@.prefill_cap == s.prefill_cap && s@.rng == s.rng_state,
        s@.caches == cache_views(s.kv_cache.layers@) && s@.scratch == s.cpu_scratch@,
{
}

} // verus!

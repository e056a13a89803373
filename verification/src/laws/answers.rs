//! What the answers of the API are held to.
use vstd::prelude::*;

use crate::json::{json_text, JsonView};
use crate::request::{calls_of, message_of, ToolCallView};
use crate::respond::{
    answer_view, call_members, chunk_view, frames, indexed_call, indexed_calls, message_view,
    LabelView, ResponseView,
};
use crate::stream::EventView;

verus! {

/// Whether `j` is an object whose member `key` is `value`.
pub open spec fn says(j: JsonView, key: Seq<char>, value: JsonView) -> bool {
    j matches JsonView::Object(m) && m.contains_key(key) && m[key] == value
}

/// The member `key` of an object.
pub open spec fn at(j: JsonView, key: Seq<char>) -> JsonView {
    j->Object_0[key]
}

/// Whether `entry` is the call `c`: its ID, its kind, and the function with its name and
/// its arguments.
pub open spec fn tells_call(entry: JsonView, c: ToolCallView) -> bool {
    &&& says(entry, "id"@, JsonView::Text(c.id))
    &&& says(entry, "type"@, JsonView::Text("function"@))
    &&& entry->Object_0.contains_key("function"@)
    &&& says(at(entry, "function"@), "name"@, JsonView::Text(c.name))
    &&& says(at(entry, "function"@), "arguments"@, JsonView::Text(c.arguments))
}

proof fn lemma_keys()
    ensures
        "id"@ != "type"@,
        "id"@ != "function"@,
        "type"@ != "function"@,
        "name"@ != "arguments"@,
        "index"@ != "id"@,
        "index"@ != "type"@,
        "index"@ != "function"@,
{
    reveal_strlit("id");
    reveal_strlit("type");
    reveal_strlit("function");
    reveal_strlit("name");
    reveal_strlit("arguments");
    reveal_strlit("index");
    assert("id"@.len() == 2 && "type"@.len() == 4 && "name"@.len() == 4 && "function"@.len() == 8
        && "arguments"@.len() == 9 && "index"@.len() == 5);
}

/// A call in a message is told by its ID, its name and its arguments; in a stream also by
/// its place.
pub proof fn calls_are_told(c: ToolCallView, i: int)
    requires
        0 <= i <= u64::MAX,
    ensures
        tells_call(JsonView::Object(call_members(c)), c),
        tells_call(indexed_call(c, i), c),
        says(indexed_call(c, i), "index"@, JsonView::Unsigned(i as u64)),
{
    lemma_keys();
}

proof fn lemma_message_keys()
    ensures
        "role"@ != "content"@,
        "role"@ != "reasoning_content"@,
        "role"@ != "tool_calls"@,
        "content"@ != "reasoning_content"@,
        "content"@ != "tool_calls"@,
        "reasoning_content"@ != "tool_calls"@,
        "tool_call_id"@ != "role"@,
        "tool_call_id"@ != "content"@,
        "tool_call_id"@ != "reasoning_content"@,
        "tool_call_id"@ != "tool_calls"@,
{
    reveal_strlit("role");
    reveal_strlit("content");
    reveal_strlit("reasoning_content");
    reveal_strlit("tool_calls");
    reveal_strlit("tool_call_id");
    assert("role"@.len() == 4 && "content"@.len() == 7 && "reasoning_content"@.len() == 17
        && "tool_calls"@.len() == 10 && "tool_call_id"@.len() == 12);
}

/// The message of an answer holds the content, the reasoning where there is some, and
/// every tool call, one for one and in order.
pub proof fn message_holds_answer(d: ResponseView, i: int)
    ensures
        ({
            let m = message_view(d);
            &&& says(m, "role"@, JsonView::Text("assistant"@))
            &&& says(m, "content"@, JsonView::Text(d.content))
            &&& d.reasoning.len() > 0 ==> says(
                m,
                "reasoning_content"@,
                JsonView::Text(d.reasoning),
            )
            &&& d.reasoning.len() == 0 ==> !m->Object_0.contains_key("reasoning_content"@)
            &&& d.tool_calls.len() == 0 ==> !m->Object_0.contains_key("tool_calls"@)
            &&& d.tool_calls.len() > 0 ==> {
                &&& m->Object_0.contains_key("tool_calls"@)
                &&& at(m, "tool_calls"@) is List
                &&& at(m, "tool_calls"@)->List_0.len() == d.tool_calls.len()
                &&& 0 <= i < d.tool_calls.len() ==> tells_call(
                    at(m, "tool_calls"@)->List_0[i],
                    d.tool_calls[i],
                )
            }
        }),
{
    lemma_message_keys();
    if 0 <= i < d.tool_calls.len() {
        lemma_keys();
    }
}

/// A message that the API gave and that a client sends back is read as what it was: the
/// content, the reasoning, and the same tool calls.
pub proof fn answers_are_read_back(d: ResponseView)
    ensures
        message_of(message_view(d)).role == "assistant"@,
        message_of(message_view(d)).content == d.content,
        message_of(message_view(d)).reasoning_content == if d.reasoning.len() > 0 {
            Some(d.reasoning)
        } else {
            None
        },
        message_of(message_view(d)).tool_calls == d.tool_calls,
        message_of(message_view(d)).tool_call_id is None,
{
    lemma_message_keys();
    lemma_keys();
    let m = message_view(d);
    let calls = calls_of(m);
    assert(calls =~= d.tool_calls) by {
        if d.tool_calls.len() > 0 {
            assert forall|i: int| 0 <= i < d.tool_calls.len() implies calls[i]
                == d.tool_calls[i] by {
                let entry = at(m, "tool_calls"@)->List_0[i];
                assert(entry == JsonView::Object(call_members(d.tool_calls[i])));
            }
        }
    }
}

proof fn lemma_answer_keys()
    ensures
        "id"@ != "object"@,
        "id"@ != "created"@,
        "id"@ != "model"@,
        "id"@ != "choices"@,
        "id"@ != "usage"@,
        "object"@ != "created"@,
        "object"@ != "model"@,
        "object"@ != "choices"@,
        "object"@ != "usage"@,
        "created"@ != "model"@,
        "created"@ != "choices"@,
        "created"@ != "usage"@,
        "model"@ != "choices"@,
        "model"@ != "usage"@,
        "choices"@ != "usage"@,
        "index"@ != "message"@,
        "index"@ != "delta"@,
        "index"@ != "finish_reason"@,
        "message"@ != "finish_reason"@,
        "delta"@ != "finish_reason"@,
        "prompt_tokens"@ != "completion_tokens"@,
        "prompt_tokens"@ != "total_tokens"@,
        "completion_tokens"@ != "total_tokens"@,
{
    reveal_strlit("id");
    reveal_strlit("object");
    reveal_strlit("created");
    reveal_strlit("model");
    reveal_strlit("choices");
    reveal_strlit("usage");
    reveal_strlit("index");
    reveal_strlit("message");
    reveal_strlit("delta");
    reveal_strlit("finish_reason");
    reveal_strlit("prompt_tokens");
    reveal_strlit("completion_tokens");
    reveal_strlit("total_tokens");
    assert("id"@[0] == 'i' && "object"@[0] == 'o' && "created"@[1] == 'r' && "choices"@[1] == 'h'
        && "model"@[0] == 'm' && "usage"@[0] == 'u' && "created"@[0] == 'c' && "choices"@[0]
        == 'c');
    assert("index"@[0] == 'i' && "message"@[0] == 'm' && "delta"@[0] == 'd' && "finish_reason"@[0]
        == 'f' && "prompt_tokens"@[0] == 'p' && "completion_tokens"@[0] == 'c' && "total_tokens"@[0]
        == 't');
}

/// The body of an answer: its ID, the model and the time, one choice with the message and
/// the reason why it ended, and the counts of tokens with their sum.
pub proof fn answer_holds_message(
    id: Seq<char>,
    model: Seq<char>,
    created: i64,
    d: ResponseView,
)
    requires
        i32::MIN <= d.prompt_tokens + d.completion_tokens <= i32::MAX,
    ensures
        ({
            let a = answer_view(id, model, created, d);
            let choices = at(a, "choices"@);
            let usage = at(a, "usage"@);
            &&& says(a, "id"@, JsonView::Text(id))
            &&& says(a, "object"@, JsonView::Text("chat.completion"@))
            &&& says(a, "model"@, JsonView::Text(model))
            &&& created >= 0 ==> says(a, "created"@, JsonView::Unsigned(created as u64))
            &&& a->Object_0.contains_key("choices"@) && a->Object_0.contains_key("usage"@)
            &&& choices is List && choices->List_0.len() == 1
            &&& says(choices->List_0[0], "index"@, JsonView::Unsigned(0))
            &&& says(choices->List_0[0], "message"@, message_view(d))
            &&& says(choices->List_0[0], "finish_reason"@, JsonView::Text(d.finish_reason))
            &&& d.prompt_tokens >= 0 ==> says(
                usage,
                "prompt_tokens"@,
                JsonView::Unsigned(d.prompt_tokens as u64),
            )
            &&& d.completion_tokens >= 0 ==> says(
                usage,
                "completion_tokens"@,
                JsonView::Unsigned(d.completion_tokens as u64),
            )
            &&& d.prompt_tokens + d.completion_tokens >= 0 ==> says(
                usage,
                "total_tokens"@,
                JsonView::Unsigned((d.prompt_tokens + d.completion_tokens) as u64),
            )
        }),
{
    lemma_answer_keys();
}

/// A chunk of a stream: its ID, the model and the time, and one choice with the delta.
pub proof fn chunk_holds_delta(
    l: LabelView,
    delta: Map<Seq<char>, JsonView>,
    finish_reason: JsonView,
)
    ensures
        ({
            let c = chunk_view(l, delta, finish_reason);
            let choices = at(c, "choices"@);
            &&& says(c, "id"@, JsonView::Text(l.id))
            &&& says(c, "object"@, JsonView::Text("chat.completion.chunk"@))
            &&& says(c, "model"@, JsonView::Text(l.model))
            &&& l.created >= 0 ==> says(c, "created"@, JsonView::Unsigned(l.created as u64))
            &&& c->Object_0.contains_key("choices"@)
            &&& choices is List && choices->List_0.len() == 1
            &&& says(choices->List_0[0], "index"@, JsonView::Unsigned(0))
            &&& says(choices->List_0[0], "delta"@, JsonView::Object(delta))
            &&& says(choices->List_0[0], "finish_reason"@, finish_reason)
        }),
{
    lemma_answer_keys();
}

/// Whether an event of a stream is the chunk whose delta has the one member `key`, and
/// which ends nothing.
pub open spec fn sends(event: Seq<char>, l: LabelView, key: Seq<char>, value: JsonView) -> bool {
    event == "data: "@ + json_text(
        chunk_view(l, Map::<Seq<char>, JsonView>::empty().insert(key, value), JsonView::Null),
    ) + "\n\n"@
}

/// What is streamed is sent under its name: content as content, reasoning as reasoning,
/// and a tool call as a list of that call.
pub proof fn events_are_sent_under_their_names(l: LabelView, text: Seq<char>, c: ToolCallView)
    ensures
        frames(l, EventView::Token(text)).0.len() == 1,
        !frames(l, EventView::Token(text)).1,
        sends(frames(l, EventView::Token(text)).0[0], l, "content"@, JsonView::Text(text)),
        frames(l, EventView::ReasoningToken(text)).0.len() == 1,
        !frames(l, EventView::ReasoningToken(text)).1,
        sends(
            frames(l, EventView::ReasoningToken(text)).0[0],
            l,
            "reasoning_content"@,
            JsonView::Text(text),
        ),
        frames(l, EventView::ToolCall(c)).0.len() == 1,
        !frames(l, EventView::ToolCall(c)).1,
        sends(
            frames(l, EventView::ToolCall(c)).0[0],
            l,
            "tool_calls"@,
            JsonView::List(seq![indexed_call(c, 0)]),
        ),
{
}

/// The calls at the end of a stream are told one for one, each with its place.
pub proof fn last_calls_are_told(calls: Seq<ToolCallView>, i: int)
    requires
        0 <= i < calls.len() <= u64::MAX,
    ensures
        indexed_calls(calls) is List,
        indexed_calls(calls)->List_0.len() == calls.len(),
        tells_call(indexed_calls(calls)->List_0[i], calls[i]),
        says(indexed_calls(calls)->List_0[i], "index"@, JsonView::Unsigned(i as u64)),
{
    calls_are_told(calls[i], i);
}

/// The end of a stream sends the whole reasoning, the whole content and all calls, where
/// there are any, then the reason why it ended, and the mark of the end.
pub proof fn stream_end_tells_all(
    l: LabelView,
    content: Seq<char>,
    reasoning: Seq<char>,
    calls: Seq<ToolCallView>,
    finish_reason: Seq<char>,
)
    ensures
        ({
            let (sent, last) = frames(
                l,
                EventView::Finish { content, reasoning, tool_calls: calls, finish_reason },
            );
            let n = sent.len() as int;
            let r: int = if reasoning.len() > 0 {
                1
            } else {
                0
            };
            let t: int = if content.len() > 0 {
                1
            } else {
                0
            };
            let k: int = if calls.len() > 0 {
                1
            } else {
                0
            };
            &&& last
            &&& n == r + t + k + 2
            &&& r == 1 ==> sends(sent[0], l, "reasoning_content"@, JsonView::Text(reasoning))
            &&& t == 1 ==> sends(sent[r], l, "content"@, JsonView::Text(content))
            &&& k == 1 ==> sends(sent[r + t], l, "tool_calls"@, indexed_calls(calls))
            &&& sent[n - 2] == "data: "@ + json_text(
                chunk_view(l, Map::empty(), JsonView::Text(finish_reason)),
            ) + "\n\n"@
            &&& sent[n - 1] == "data: "@ + "[DONE]"@ + "\n\n"@
        }),
{
}

} // verus!

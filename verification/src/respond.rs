//! What the API answers: responses, the chunks of a stream, and which request gets which.
use vstd::prelude::*;

use crate::http::{data_event, error_view, http_response, json_error, response_bytes, sse_data};
use crate::json::{int_view, json_text, json_views, json_wf, Json, JsonObject, JsonView};
use crate::request::{
    call_views, parse_request_body, parsed_request, tools_wf, Request, RequestView, ToolCallData,
    ToolCallView,
};
use crate::stream::{EventView, StreamEvent};
use crate::text::{append, is_empty_text, same_text};
use crate::tokenizer::string_views;

verus! {

/// An object without members.
pub open spec fn no_members() -> Map<Seq<char>, JsonView> {
    Map::<Seq<char>, JsonView>::empty()
}

// ── Tool calls ───────────────────────────────────────────────────────────

/// The function part of a call.
pub open spec fn function_view(c: ToolCallView) -> JsonView {
    JsonView::Object(
        no_members().insert("name"@, JsonView::Text(c.name)).insert(
            "arguments"@,
            JsonView::Text(c.arguments),
        ),
    )
}

/// A call in a message.
pub open spec fn call_members(c: ToolCallView) -> Map<Seq<char>, JsonView> {
    no_members().insert("id"@, JsonView::Text(c.id)).insert(
        "type"@,
        JsonView::Text("function"@),
    ).insert("function"@, function_view(c))
}

/// A call in a stream, with its place among the calls.
pub open spec fn indexed_call(c: ToolCallView, i: int) -> JsonView {
    JsonView::Object(call_members(c).insert("index"@, JsonView::Unsigned(i as u64)))
}

pub open spec fn calls_list(calls: Seq<ToolCallView>) -> JsonView {
    JsonView::List(Seq::new(calls.len(), |i: int| JsonView::Object(call_members(calls[i]))))
}

pub open spec fn indexed_calls(calls: Seq<ToolCallView>) -> JsonView {
    JsonView::List(Seq::new(calls.len(), |i: int| indexed_call(calls[i], i)))
}

/// The members of a call in a message.
fn call_object(c: &ToolCallData) -> (r: JsonObject)
    ensures
        r@ == call_members(c@),
        json_wf(JsonView::Object(r@)),
{
    let function = JsonObject::new().with_text("name", c.name.as_str()).with_text(
        "arguments",
        c.arguments.as_str(),
    ).done();
    JsonObject::new().with_text("id", c.id.as_str()).with_text("type", "function").with(
        "function",
        function,
    )
}

fn build_calls(calls: &Vec<ToolCallData>) -> (r: Json)
    ensures
        r@ == calls_list(call_views(calls@)),
        json_wf(r@),
{
    let ghost views = call_views(calls@);
    let mut list: Vec<Json> = Vec::new();
    let mut i: usize = 0;
    while i < calls.len()
        invariant
            i <= calls@.len(),
            views == call_views(calls@),
            list@.len() == i,
            forall|k: int|
                0 <= k < i ==> (#[trigger] list@[k])@ == JsonView::Object(call_members(views[k]))
                    && json_wf(list@[k]@),
        decreases calls@.len() - i,
    {
        assert(views[i as int] == calls@[i as int]@);
        list.push(call_object(&calls[i]).done());
        i = i + 1;
    }
    assert(JsonView::List(json_views(list@)) == calls_list(views)) by {
        assert(json_views(list@) =~= calls_list(views)->List_0);
    }
    finish_list(list)
}

fn build_indexed_calls(calls: &Vec<ToolCallData>) -> (r: Json)
    ensures
        r@ == indexed_calls(call_views(calls@)),
        json_wf(r@),
{
    let ghost views = call_views(calls@);
    let mut list: Vec<Json> = Vec::new();
    let mut i: usize = 0;
    while i < calls.len()
        invariant
            i <= calls@.len(),
            views == call_views(calls@),
            list@.len() == i,
            forall|k: int|
                0 <= k < i ==> (#[trigger] list@[k])@ == indexed_call(views[k], k) && json_wf(
                    list@[k]@,
                ),
        decreases calls@.len() - i,
    {
        assert(views[i as int] == calls@[i as int]@);
        list.push(call_object(&calls[i]).with("index", Json::Unsigned(i as u64)).done());
        i = i + 1;
    }
    assert(JsonView::List(json_views(list@)) == indexed_calls(views)) by {
        assert(json_views(list@) =~= indexed_calls(views)->List_0);
    }
    finish_list(list)
}

fn finish_list(list: Vec<Json>) -> (r: Json)
    requires
        forall|i: int| 0 <= i < list@.len() ==> json_wf((#[trigger] list@[i])@),
    ensures
        r@ == JsonView::List(json_views(list@)),
        json_wf(r@),
{
    let r = Json::List(list);
    proof {
        assert(r@->List_0 =~= json_views(list@));
        assert forall|i: int| 0 <= i < list@.len() implies json_wf(
            #[trigger] json_views(list@)[i],
        ) by {
            assert(json_wf(list@[i]@));
        }
        assert(json_wf(JsonView::List(json_views(list@))));
    }
    r
}

// ── Whole responses ──────────────────────────────────────────────────────

/// The answer of a request that is not streamed.
#[derive(Debug)]
pub struct ResponseData {
    pub content: String,
    pub reasoning: String,
    pub tool_calls: Vec<ToolCallData>,
    pub finish_reason: String,
    pub prompt_tokens: i32,
    pub completion_tokens: i32,
}

#[verifier::ext_equal]
pub struct ResponseView {
    pub content: Seq<char>,
    pub reasoning: Seq<char>,
    pub tool_calls: Seq<ToolCallView>,
    pub finish_reason: Seq<char>,
    pub prompt_tokens: i32,
    pub completion_tokens: i32,
}

impl View for ResponseData {
    type V = ResponseView;

    open spec fn view(&self) -> ResponseView {
        ResponseView {
            content: self.content@,
            reasoning: self.reasoning@,
            tool_calls: call_views(self.tool_calls@),
            finish_reason: self.finish_reason@,
            prompt_tokens: self.prompt_tokens,
            completion_tokens: self.completion_tokens,
        }
    }
}

/// The message of an answer.
pub open spec fn message_view(d: ResponseView) -> JsonView {
    let a = no_members().insert("role"@, JsonView::Text("assistant"@)).insert(
        "content"@,
        JsonView::Text(d.content),
    );
    let b = if d.reasoning.len() > 0 {
        a.insert("reasoning_content"@, JsonView::Text(d.reasoning))
    } else {
        a
    };
    JsonView::Object(
        if d.tool_calls.len() > 0 {
            b.insert("tool_calls"@, calls_list(d.tool_calls))
        } else {
            b
        },
    )
}

/// The token counts of an answer.
pub open spec fn usage_view(d: ResponseView) -> JsonView {
    JsonView::Object(
        no_members().insert("prompt_tokens"@, int_view(d.prompt_tokens as i64)).insert(
            "completion_tokens"@,
            int_view(d.completion_tokens as i64),
        ).insert("total_tokens"@, int_view((d.prompt_tokens + d.completion_tokens) as i64)),
    )
}

/// The body of an answer.
pub open spec fn answer_view(
    id: Seq<char>,
    model: Seq<char>,
    created: i64,
    d: ResponseView,
) -> JsonView {
    let choice = JsonView::Object(
        no_members().insert("index"@, JsonView::Unsigned(0)).insert(
            "message"@,
            message_view(d),
        ).insert("finish_reason"@, JsonView::Text(d.finish_reason)),
    );
    JsonView::Object(
        no_members().insert("id"@, JsonView::Text(id)).insert(
            "object"@,
            JsonView::Text("chat.completion"@),
        ).insert("created"@, int_view(created)).insert("model"@, JsonView::Text(model)).insert(
            "choices"@,
            JsonView::List(seq![choice]),
        ).insert("usage"@, usage_view(d)),
    )
}

/// A list of one item.
fn single_item(item: Json) -> (r: Json)
    requires
        json_wf(item@),
    ensures
        r@ == JsonView::List(seq![item@]),
        json_wf(r@),
{
    let mut list: Vec<Json> = Vec::new();
    list.push(item);
    assert(json_views(list@) =~= seq![item@]);
    finish_list(list)
}

fn build_message(d: &ResponseData) -> (r: Json)
    ensures
        r@ == message_view(d@),
        json_wf(r@),
{
    let mut msg = JsonObject::new().with_text("role", "assistant").with_text(
        "content",
        d.content.as_str(),
    );
    if !is_empty_text(d.reasoning.as_str()) {
        msg = msg.with_text("reasoning_content", d.reasoning.as_str());
    }
    if d.tool_calls.len() > 0 {
        let calls = build_calls(&d.tool_calls);
        msg = msg.with("tool_calls", calls);
    }
    msg.done()
}

fn build_usage(prompt_tokens: i32, completion_tokens: i32) -> (r: Json)
    requires
        i32::MIN <= prompt_tokens + completion_tokens <= i32::MAX,
    ensures
        forall|d: ResponseView|
            d.prompt_tokens == prompt_tokens && d.completion_tokens == completion_tokens ==> r@
                == #[trigger] usage_view(d),
        json_wf(r@),
{
    JsonObject::new().with_int("prompt_tokens", prompt_tokens as i64).with_int(
        "completion_tokens",
        completion_tokens as i64,
    ).with_int("total_tokens", (prompt_tokens + completion_tokens) as i64).done()
}

/// The body of an answer.
pub fn build_openai_response(id: &str, model: &str, created: i64, d: &ResponseData) -> (r: String)
    requires
        i32::MIN <= d.prompt_tokens + d.completion_tokens <= i32::MAX,
    ensures
        r@ == json_text(answer_view(id@, model@, created, d@)),
{
    let message = build_message(d);
    let usage = build_usage(d.prompt_tokens, d.completion_tokens);
    assert(usage@ == usage_view(d@));
    let choice = JsonObject::new().with("index", Json::Unsigned(0)).with(
        "message",
        message,
    ).with_text("finish_reason", d.finish_reason.as_str()).done();
    let choices = single_item(choice);
    JsonObject::new().with_text("id", id).with_text("object", "chat.completion").with_int(
        "created",
        created,
    ).with_text("model", model).with("choices", choices).with("usage", usage).done().print()
}

// ── Chunks of a stream ───────────────────────────────────────────────────

/// What every chunk of one stream carries.
#[derive(Debug)]
pub struct StreamLabel {
    pub id: String,
    pub created: i64,
    pub model: String,
}

#[verifier::ext_equal]
pub struct LabelView {
    pub id: Seq<char>,
    pub created: i64,
    pub model: Seq<char>,
}

impl View for StreamLabel {
    type V = LabelView;

    open spec fn view(&self) -> LabelView {
        LabelView { id: self.id@, created: self.created, model: self.model@ }
    }
}

/// A chunk with the given delta.
pub open spec fn chunk_view(
    l: LabelView,
    delta: Map<Seq<char>, JsonView>,
    finish_reason: JsonView,
) -> JsonView {
    let choice = JsonView::Object(
        no_members().insert("index"@, JsonView::Unsigned(0)).insert(
            "delta"@,
            JsonView::Object(delta),
        ).insert("finish_reason"@, finish_reason),
    );
    JsonView::Object(
        no_members().insert("id"@, JsonView::Text(l.id)).insert(
            "object"@,
            JsonView::Text("chat.completion.chunk"@),
        ).insert("created"@, int_view(l.created)).insert("model"@, JsonView::Text(l.model)).insert(
            "choices"@,
            JsonView::List(seq![choice]),
        ),
    )
}

/// The event of a chunk.
pub open spec fn chunk_event(
    l: LabelView,
    delta: Map<Seq<char>, JsonView>,
    finish_reason: JsonView,
) -> Seq<char> {
    data_event(json_text(chunk_view(l, delta, finish_reason)))
}

/// The event of a chunk with one member in its delta.
pub open spec fn delta_event(l: LabelView, key: Seq<char>, value: JsonView) -> Seq<char> {
    chunk_event(l, no_members().insert(key, value), JsonView::Null)
}

/// The last event of every stream.
pub open spec fn done_event() -> Seq<char> {
    data_event("[DONE]"@)
}

pub open spec fn event_if(cond: bool, e: Seq<char>) -> Seq<Seq<char>> {
    if cond {
        seq![e]
    } else {
        Seq::empty()
    }
}

/// What is sent for an event: the events of the stream, and whether they are its last.
pub open spec fn frames(l: LabelView, e: EventView) -> (Seq<Seq<char>>, bool) {
    match e {
        EventView::Token(t) => (seq![delta_event(l, "content"@, JsonView::Text(t))], false),
        EventView::ReasoningToken(t) => (
            seq![delta_event(l, "reasoning_content"@, JsonView::Text(t))],
            false,
        ),
        EventView::ToolCall(c) => (
            seq![delta_event(l, "tool_calls"@, JsonView::List(seq![indexed_call(c, 0)]))],
            false,
        ),
        EventView::Finish { content, reasoning, tool_calls, finish_reason } => (
            event_if(
                reasoning.len() > 0,
                delta_event(l, "reasoning_content"@, JsonView::Text(reasoning)),
            ) + event_if(
                content.len() > 0,
                delta_event(l, "content"@, JsonView::Text(content)),
            ) + event_if(
                tool_calls.len() > 0,
                delta_event(l, "tool_calls"@, indexed_calls(tool_calls)),
            ) + seq![chunk_event(l, no_members(), JsonView::Text(finish_reason)), done_event()],
            true,
        ),
        EventView::Error(msg) => (failure_frames(500, msg), true),
    }
}

/// What a stream sends on a failure.
pub open spec fn failure_frames(code: i32, msg: Seq<char>) -> Seq<Seq<char>> {
    seq![data_event(json_text(error_view(code, msg))), done_event()]
}

/// A stream that ends says so: what is sent last is the mark of its end.
pub proof fn stream_ends_with_mark(l: LabelView, e: EventView)
    ensures
        frames(l, e).1 ==> frames(l, e).0.len() > 0 && frames(l, e).0.last() == done_event(),
{
}

/// The event of a chunk.
fn build_chunk(l: &StreamLabel, delta: Json, finish_reason: Json) -> (r: String)
    requires
        delta@ is Object,
        json_wf(delta@),
        json_wf(finish_reason@),
    ensures
        r@ == chunk_event(l@, delta@->Object_0, finish_reason@),
{
    let choice = JsonObject::new().with("index", Json::Unsigned(0)).with("delta", delta).with(
        "finish_reason",
        finish_reason,
    ).done();
    let choices = single_item(choice);
    let text = JsonObject::new().with_text("id", l.id.as_str()).with_text(
        "object",
        "chat.completion.chunk",
    ).with_int("created", l.created).with_text("model", l.model.as_str()).with(
        "choices",
        choices,
    ).done().print();
    sse_data(text.as_str())
}

/// The event of a chunk with one member in its delta.
fn build_delta(l: &StreamLabel, key: &str, value: Json) -> (r: String)
    requires
        json_wf(value@),
    ensures
        r@ == delta_event(l@, key@, value@),
{
    let delta = JsonObject::new().with(key, value).done();
    build_chunk(l, delta, Json::Null)
}

/// What a stream sends on a failure.
pub fn stream_failure(code: i32, msg: &str) -> (r: Vec<String>)
    ensures
        string_views(r@) == failure_frames(code, msg@),
{
    let mut r: Vec<String> = Vec::new();
    let body = json_error(code, msg);
    r.push(sse_data(body.as_str()));
    r.push(sse_data("[DONE]"));
    assert(string_views(r@) =~= failure_frames(code, msg@));
    r
}

/// What is sent for an event, and whether it is the last of the stream.
pub fn stream_frames(l: &StreamLabel, event: &StreamEvent) -> (r: (Vec<String>, bool))
    ensures
        (string_views(r.0@), r.1) == frames(l@, event@),
{
    let mut out: Vec<String> = Vec::new();
    match event {
        StreamEvent::Token(t) => {
            out.push(build_delta(l, "content", Json::Text(t.clone())));
            assert(string_views(out@) =~= frames(l@, event@).0);
            (out, false)
        },
        StreamEvent::ReasoningToken(t) => {
            out.push(build_delta(l, "reasoning_content", Json::Text(t.clone())));
            assert(string_views(out@) =~= frames(l@, event@).0);
            (out, false)
        },
        StreamEvent::ToolCall(c) => {
            let call = call_object(c).with("index", Json::Unsigned(0)).done();
            out.push(build_delta(l, "tool_calls", single_item(call)));
            assert(string_views(out@) =~= frames(l@, event@).0);
            (out, false)
        },
        StreamEvent::Finish { content, reasoning, tool_calls, finish_reason } => {
            let ghost none = Seq::<Seq<char>>::empty();
            if !is_empty_text(reasoning.as_str()) {
                out.push(build_delta(l, "reasoning_content", Json::Text(reasoning.clone())));
            }
            let ghost e1 = event_if(
                reasoning@.len() > 0,
                delta_event(l@, "reasoning_content"@, JsonView::Text(reasoning@)),
            );
            assert(string_views(out@) =~= e1);
            if !is_empty_text(content.as_str()) {
                out.push(build_delta(l, "content", Json::Text(content.clone())));
            }
            let ghost e2 = event_if(
                content@.len() > 0,
                delta_event(l@, "content"@, JsonView::Text(content@)),
            );
            assert(string_views(out@) =~= e1 + e2);
            if tool_calls.len() > 0 {
                out.push(build_delta(l, "tool_calls", build_indexed_calls(tool_calls)));
            }
            let ghost e3 = event_if(
                tool_calls@.len() > 0,
                delta_event(l@, "tool_calls"@, indexed_calls(call_views(tool_calls@))),
            );
            assert(string_views(out@) =~= e1 + e2 + e3);
            let nothing = JsonObject::new().done();
            out.push(build_chunk(l, nothing, Json::Text(finish_reason.clone())));
            out.push(sse_data("[DONE]"));
            assert(string_views(out@) =~= e1 + e2 + e3 + seq![
                chunk_event(l@, no_members(), JsonView::Text(finish_reason@)),
                done_event(),
            ]);
            (out, true)
        },
        StreamEvent::Error(msg) => (stream_failure(500, msg.as_str()), true),
    }
}

// ── Which request gets which answer ──────────────────────────────────────

/// What became of a job.
#[derive(Debug)]
pub enum JobOutcome {
    /// The answer.
    Complete(ResponseData),
    /// The job failed.
    Failed(i32, String),
    /// A stream, where none was asked for.
    Streaming,
    /// The worker is gone.
    WorkerGone,
}

pub enum OutcomeView {
    Complete(ResponseView),
    Failed(i32, Seq<char>),
    Streaming,
    WorkerGone,
}

impl View for JobOutcome {
    type V = OutcomeView;

    open spec fn view(&self) -> OutcomeView {
        match *self {
            JobOutcome::Complete(d) => OutcomeView::Complete(d@),
            JobOutcome::Failed(code, msg) => OutcomeView::Failed(code, msg@),
            JobOutcome::Streaming => OutcomeView::Streaming,
            JobOutcome::WorkerGone => OutcomeView::WorkerGone,
        }
    }
}

pub open spec fn json_type() -> Seq<char> {
    "application/json"@
}

/// The response that tells a client of an error.
pub open spec fn error_response(code: i32, msg: Seq<char>) -> Seq<u8> {
    response_bytes(code, json_type(), json_text(error_view(code, msg)))
}

/// The response to a request that is not streamed.
pub open spec fn outcome_response(
    id: Seq<char>,
    model: Seq<char>,
    created: i64,
    o: OutcomeView,
) -> Seq<u8> {
    match o {
        OutcomeView::Complete(d) => response_bytes(
            200,
            json_type(),
            json_text(answer_view(id, model, created, d)),
        ),
        OutcomeView::Failed(code, msg) => error_response(code, msg),
        OutcomeView::Streaming => error_response(500, "Unexpected streaming response"@),
        OutcomeView::WorkerGone => error_response(503, "Worker unavailable"@),
    }
}

fn respond_error(code: i32, msg: &str) -> (r: Vec<u8>)
    ensures
        r@ == error_response(code, msg@),
{
    let body = json_error(code, msg);
    http_response(code, "application/json", body.as_str())
}

/// The response to a request that is not streamed.
pub fn respond_outcome(id: &str, model: &str, created: i64, o: &JobOutcome) -> (r: Vec<u8>)
    requires
        o matches JobOutcome::Complete(d) ==> i32::MIN <= d.prompt_tokens + d.completion_tokens
            <= i32::MAX,
    ensures
        r@ == outcome_response(id@, model@, created, o@),
{
    match o {
        JobOutcome::Complete(d) => {
            let body = build_openai_response(id, model, created, d);
            http_response(200, "application/json", body.as_str())
        },
        JobOutcome::Failed(code, msg) => respond_error(*code, msg.as_str()),
        JobOutcome::Streaming => respond_error(500, "Unexpected streaming response"),
        JobOutcome::WorkerGone => respond_error(503, "Worker unavailable"),
    }
}

/// What a stream sends where the worker has answered with anything but events.
pub open spec fn unstreamed_frames(o: OutcomeView) -> Seq<Seq<char>> {
    match o {
        OutcomeView::Failed(code, msg) => failure_frames(code, msg),
        _ => failure_frames(500, "Unexpected response"@),
    }
}

/// What a stream sends where the worker has answered with anything but events.
pub fn stream_outcome(o: &JobOutcome) -> (r: Vec<String>)
    ensures
        string_views(r@) == unstreamed_frames(o@),
{
    match o {
        JobOutcome::Failed(code, msg) => stream_failure(*code, msg.as_str()),
        _ => stream_failure(500, "Unexpected response"),
    }
}

/// The response where the job cannot be queued.
pub fn respond_busy(reason: &str) -> (r: Vec<u8>)
    ensures
        r@ == error_response(503, "Server busy: "@ + reason@),
{
    let mut msg = String::from_str("Server busy: ");
    append(&mut msg, reason);
    respond_error(503, msg.as_str())
}

/// What a stream sends where the job cannot be queued.
pub fn stream_busy() -> (r: String)
    ensures
        r@ == data_event(json_text(error_view(503, "Server busy"@))),
{
    let body = json_error(503, "Server busy");
    sse_data(body.as_str())
}

/// The response to a request that cannot be read.
pub fn respond_unreadable(reason: &str) -> (r: Vec<u8>)
    ensures
        r@ == error_response(400, "Bad request: "@ + reason@),
{
    let mut msg = String::from_str("Bad request: ");
    append(&mut msg, reason);
    respond_error(400, msg.as_str())
}

/// The body of the health check.
pub open spec fn health_view(model: Seq<char>, now: i64) -> JsonView {
    JsonView::Object(
        no_members().insert("status"@, JsonView::Text("ok"@)).insert(
            "model"@,
            JsonView::Text(model),
        ).insert("timestamp"@, int_view(now)),
    )
}

/// The body of the list of models.
pub open spec fn models_view(model: Seq<char>, now: i64) -> JsonView {
    let entry = JsonView::Object(
        no_members().insert("id"@, JsonView::Text(model)).insert(
            "object"@,
            JsonView::Text("model"@),
        ).insert("created"@, int_view(now)).insert("owned_by"@, JsonView::Text("ds4"@)),
    );
    JsonView::Object(
        no_members().insert("object"@, JsonView::Text("list"@)).insert(
            "data"@,
            JsonView::List(seq![entry]),
        ),
    )
}

/// What is to be done with a request.
#[derive(Debug)]
pub enum Route {
    /// The response is known.
    Respond(Vec<u8>),
    /// The model has to answer.
    Generate(Request),
}

pub enum RouteView {
    Respond(Seq<u8>),
    Generate(RequestView),
}

impl View for Route {
    type V = RouteView;

    open spec fn view(&self) -> RouteView {
        match *self {
            Route::Respond(b) => RouteView::Respond(b@),
            Route::Generate(q) => RouteView::Generate(q@),
        }
    }
}

/// What is to be done with a request: the health check and the list of models are
/// answered at once, whatever the method; a request that is refused gets the reason.
pub open spec fn route_of(
    method: Seq<char>,
    path: Seq<char>,
    body: Seq<char>,
    model: Seq<char>,
    now: i64,
) -> RouteView {
    if path == "/health"@ {
        RouteView::Respond(response_bytes(200, json_type(), json_text(health_view(model, now))))
    } else if path == "/v1/models"@ {
        RouteView::Respond(response_bytes(200, json_type(), json_text(models_view(model, now))))
    } else {
        match parsed_request(method, path, body) {
            Ok(q) => RouteView::Generate(q.0),
            Err(e) => RouteView::Respond(error_response(400, "Invalid request: "@ + e.text())),
        }
    }
}

/// A request with an unknown path, another method than `POST`, or a body that is no JSON
/// is answered with status 400.
pub proof fn refused_requests_get_400(
    method: Seq<char>,
    path: Seq<char>,
    body: Seq<char>,
    model: Seq<char>,
    now: i64,
)
    requires
        path != "/health"@,
        path != "/v1/models"@,
        (path != "/v1/chat/completions"@ && path != "/v1/completions"@) || method != "POST"@
            || crate::json::json_parsed(body) is None,
    ensures
        exists|msg: Seq<char>|
            route_of(method, path, body, model, now) == RouteView::Respond(
                #[trigger] error_response(400, msg),
            ),
{
    match parsed_request(method, path, body) {
        Ok(_) => {},
        Err(e) => {
            let msg = "Invalid request: "@ + e.text();
            assert(route_of(method, path, body, model, now) == RouteView::Respond(
                error_response(400, msg),
            ));
        },
    }
}

/// What is to be done with a request; `model` is the name that the engine goes by.
pub fn route(method: &str, path: &str, body: &str, model: &str, now: i64) -> (r: Route)
    ensures
        r@ == route_of(method@, path@, body@, model@, now),
        r matches Route::Generate(q) ==> tools_wf(q@.tools),
{
    if same_text(path, "/health") {
        let text = JsonObject::new().with_text("status", "ok").with_text("model", model).with_int(
            "timestamp",
            now,
        ).done().print();
        return Route::Respond(http_response(200, "application/json", text.as_str()));
    }
    if same_text(path, "/v1/models") {
        let entry = JsonObject::new().with_text("id", model).with_text("object", "model").with_int(
            "created",
            now,
        ).with_text("owned_by", "ds4").done();
        let data = single_item(entry);
        let text = JsonObject::new().with_text("object", "list").with("data", data).done().print();
        return Route::Respond(http_response(200, "application/json", text.as_str()));
    }
    match parse_request_body(method, path, body) {
        Ok((q, _)) => Route::Generate(q),
        Err(e) => {
            let mut msg = String::from_str("Invalid request: ");
            let why = e.message();
            append(&mut msg, why.as_str());
            Route::Respond(respond_error(400, msg.as_str()))
        },
    }
}

} // verus!

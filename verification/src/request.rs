//! Requests to the API: what a client asks for.
use vstd::prelude::*;

use crate::json::{
    json_parsed, json_text, json_views, json_wf, lemma_item_wf, lemma_member_wf, members_view,
    parse_json, Json, JsonView, Member,
};
use crate::text::{append, same_text};
use crate::tokenizer::string_views;
use crate::types::ThinkMode;

verus! {

/// Tokens to generate where the client names no number.
pub const DEFAULT_MAX_TOKENS: i32 = 4096;

/// The bit pattern of the single 1.
pub const SINGLE_ONE: u32 = 0x3f80_0000;

#[derive(Debug, Clone, Copy, PartialEq, Eq, Structural)]
pub enum RequestKind {
    Chat,
    Completion,
}

#[derive(Debug, Clone, Copy, PartialEq, Eq, Structural)]
pub enum ApiStyle {
    OpenAI,
    Anthropic,
}

/// A call of a tool by the model.
#[derive(Debug)]
pub struct ToolCallData {
    pub id: String,
    pub name: String,
    pub arguments: String,
}

#[verifier::ext_equal]
pub struct ToolCallView {
    pub id: Seq<char>,
    pub name: Seq<char>,
    pub arguments: Seq<char>,
}

impl View for ToolCallData {
    type V = ToolCallView;

    open spec fn view(&self) -> ToolCallView {
        ToolCallView { id: self.id@, name: self.name@, arguments: self.arguments@ }
    }
}

pub open spec fn call_views(s: Seq<ToolCallData>) -> Seq<ToolCallView> {
    Seq::new(s.len(), |i: int| s[i]@)
}

/// A message of a conversation.
#[derive(Debug)]
pub struct ChatMessage {
    pub role: String,
    pub content: String,
    pub reasoning_content: Option<String>,
    pub tool_call_id: Option<String>,
    pub tool_calls: Vec<ToolCallData>,
}

#[verifier::ext_equal]
pub struct ChatMessageView {
    pub role: Seq<char>,
    pub content: Seq<char>,
    pub reasoning_content: Option<Seq<char>>,
    pub tool_call_id: Option<Seq<char>>,
    pub tool_calls: Seq<ToolCallView>,
}

pub open spec fn optional_view(s: Option<String>) -> Option<Seq<char>> {
    match s {
        Some(s) => Some(s@),
        None => None,
    }
}

impl View for ChatMessage {
    type V = ChatMessageView;

    open spec fn view(&self) -> ChatMessageView {
        ChatMessageView {
            role: self.role@,
            content: self.content@,
            reasoning_content: optional_view(self.reasoning_content),
            tool_call_id: optional_view(self.tool_call_id),
            tool_calls: call_views(self.tool_calls@),
        }
    }
}

pub open spec fn message_views(s: Seq<ChatMessage>) -> Seq<ChatMessageView> {
    Seq::new(s.len(), |i: int| s[i]@)
}

/// A tool that the model may call.
#[derive(Debug)]
pub struct ToolDefinition {
    pub name: String,
    pub description: Option<String>,
    pub parameters: Json,
}

#[verifier::ext_equal]
pub struct ToolView {
    pub name: Seq<char>,
    pub description: Option<Seq<char>>,
    pub parameters: JsonView,
}

impl View for ToolDefinition {
    type V = ToolView;

    open spec fn view(&self) -> ToolView {
        ToolView {
            name: self.name@,
            description: optional_view(self.description),
            parameters: self.parameters@,
        }
    }
}

pub open spec fn tool_views(s: Seq<ToolDefinition>) -> Seq<ToolView> {
    Seq::new(s.len(), |i: int| s[i]@)
}

/// Whether the model is to call a tool.
#[derive(Debug)]
pub enum ToolChoice {
    Auto,
    None_,
    Required,
    Function(String),
}

pub enum ToolChoiceView {
    Auto,
    None_,
    Required,
    Function(Seq<char>),
}

impl View for ToolChoice {
    type V = ToolChoiceView;

    open spec fn view(&self) -> ToolChoiceView {
        match *self {
            ToolChoice::Auto => ToolChoiceView::Auto,
            ToolChoice::None_ => ToolChoiceView::None_,
            ToolChoice::Required => ToolChoiceView::Required,
            ToolChoice::Function(s) => ToolChoiceView::Function(s@),
        }
    }
}

impl Default for ToolChoice {
    fn default() -> (r: Self)
        ensures
            r@ == ToolChoiceView::Auto,
    {
        ToolChoice::Auto
    }
}

/// A request. Floating-point settings are bit patterns of singles.
#[derive(Debug)]
pub struct Request {
    pub kind: RequestKind,
    pub api: ApiStyle,
    pub model: String,
    pub messages: Vec<ChatMessage>,
    pub prompt_text: Option<String>,
    pub max_tokens: i32,
    pub temperature: u32,
    pub top_p: u32,
    pub min_p: u32,
    pub top_k: i32,
    pub seed: u64,
    pub stream: bool,
    pub stream_include_usage: bool,
    pub stop: Vec<String>,
    pub tools: Vec<ToolDefinition>,
    pub tool_choice: ToolChoice,
    pub think_mode: ThinkMode,
}

#[verifier::ext_equal]
pub struct RequestView {
    pub kind: RequestKind,
    pub api: ApiStyle,
    pub model: Seq<char>,
    pub messages: Seq<ChatMessageView>,
    pub prompt_text: Option<Seq<char>>,
    pub max_tokens: i32,
    pub temperature: u32,
    pub top_p: u32,
    pub min_p: u32,
    pub top_k: i32,
    pub seed: u64,
    pub stream: bool,
    pub stream_include_usage: bool,
    pub stop: Seq<Seq<char>>,
    pub tools: Seq<ToolView>,
    pub tool_choice: ToolChoiceView,
    pub think_mode: ThinkMode,
}

impl View for Request {
    type V = RequestView;

    open spec fn view(&self) -> RequestView {
        RequestView {
            kind: self.kind,
            api: self.api,
            model: self.model@,
            messages: message_views(self.messages@),
            prompt_text: optional_view(self.prompt_text),
            max_tokens: self.max_tokens,
            temperature: self.temperature,
            top_p: self.top_p,
            min_p: self.min_p,
            top_k: self.top_k,
            seed: self.seed,
            stream: self.stream,
            stream_include_usage: self.stream_include_usage,
            stop: string_views(self.stop@),
            tools: tool_views(self.tools@),
            tool_choice: self.tool_choice@,
            think_mode: self.think_mode,
        }
    }
}

/// Whether the schemas of the tools are values that can be printed.
pub open spec fn tools_wf(tools: Seq<ToolView>) -> bool {
    forall|i: int| 0 <= i < tools.len() ==> json_wf((#[trigger] tools[i]).parameters)
}

/// Why a request is refused.
#[derive(Debug)]
pub enum RequestError {
    UnknownPath(String),
    MethodNotAllowed(String),
    BadJson,
}

pub enum RequestErrorView {
    UnknownPath(Seq<char>),
    MethodNotAllowed(Seq<char>),
    BadJson,
}

impl View for RequestError {
    type V = RequestErrorView;

    open spec fn view(&self) -> RequestErrorView {
        match *self {
            RequestError::UnknownPath(p) => RequestErrorView::UnknownPath(p@),
            RequestError::MethodNotAllowed(m) => RequestErrorView::MethodNotAllowed(m@),
            RequestError::BadJson => RequestErrorView::BadJson,
        }
    }
}

impl RequestErrorView {
    pub open spec fn text(self) -> Seq<char> {
        match self {
            RequestErrorView::UnknownPath(p) => "unknown path: "@ + p,
            RequestErrorView::MethodNotAllowed(m) => "method not allowed: "@ + m,
            RequestErrorView::BadJson => "failed to parse JSON request body"@,
        }
    }
}

impl RequestError {
    pub fn message(&self) -> (r: String)
        ensures
            r@ == self@.text(),
    {
        match self {
            RequestError::UnknownPath(p) => {
                let mut s = String::from_str("unknown path: ");
                append(&mut s, p.as_str());
                s
            },
            RequestError::MethodNotAllowed(m) => {
                let mut s = String::from_str("method not allowed: ");
                append(&mut s, m.as_str());
                s
            },
            RequestError::BadJson => String::from_str("failed to parse JSON request body"),
        }
    }
}

// ── What a body says ─────────────────────────────────────────────────────

pub open spec fn member(j: JsonView, key: Seq<char>) -> JsonView {
    match j.get(key) {
        Some(v) => v,
        None => JsonView::Null,
    }
}

pub open spec fn text_or(v: Option<Seq<char>>, other: Seq<char>) -> Seq<char> {
    match v {
        Some(s) => s,
        None => other,
    }
}

/// The text parts of the first `n` items of a content list, one to a line.
pub open spec fn joined_parts(parts: Seq<JsonView>, n: nat) -> Seq<char>
    decreases n,
{
    if n == 0 {
        Seq::empty()
    } else {
        let rest = joined_parts(parts, (n - 1) as nat);
        match member(parts[n - 1], "text"@).as_text() {
            Some(t) => (if rest.len() > 0 {
                rest.push('\n')
            } else {
                rest
            }) + t,
            None => rest,
        }
    }
}

/// The text of a content: a text, or a list of parts.
pub open spec fn content_text(v: JsonView) -> Option<Seq<char>> {
    match v {
        JsonView::Text(s) => Some(s),
        JsonView::List(parts) => Some(joined_parts(parts, parts.len())),
        _ => None,
    }
}

/// The arguments of a tool call, as JSON text.
pub open spec fn arguments_text(function: JsonView) -> Seq<char> {
    match function.get("arguments"@) {
        Some(v) => match v.as_text() {
            Some(s) => s,
            None => json_text(v),
        },
        None => "{}"@,
    }
}

pub open spec fn call_of(tc: JsonView) -> ToolCallView {
    let function = member(tc, "function"@);
    ToolCallView {
        id: text_or(member(tc, "id"@).as_text(), Seq::empty()),
        name: text_or(member(function, "name"@).as_text(), Seq::empty()),
        arguments: arguments_text(function),
    }
}

pub open spec fn calls_of(msg: JsonView) -> Seq<ToolCallView> {
    match member(msg, "tool_calls"@).as_list() {
        Some(v) => Seq::new(v.len(), |i: int| call_of(v[i])),
        None => Seq::empty(),
    }
}

pub open spec fn message_of(msg: JsonView) -> ChatMessageView {
    ChatMessageView {
        role: text_or(member(msg, "role"@).as_text(), "user"@),
        content: text_or(content_text(member(msg, "content"@)), Seq::empty()),
        reasoning_content: content_text(member(msg, "reasoning_content"@)),
        tool_call_id: member(msg, "tool_call_id"@).as_text(),
        tool_calls: calls_of(msg),
    }
}

pub open spec fn messages_of(json: JsonView) -> Seq<ChatMessageView> {
    match member(json, "messages"@).as_list() {
        Some(v) => Seq::new(v.len(), |i: int| message_of(v[i])),
        None => Seq::empty(),
    }
}

/// The part of a tool entry that describes the function: the entry itself, or its member
/// `function`.
pub open spec fn tool_function(entry: JsonView) -> JsonView {
    match entry.get("function"@) {
        Some(f) => f,
        None => entry,
    }
}

/// The schema of a tool's parameters: an object without members where it is missing.
pub open spec fn tool_parameters(function: JsonView) -> JsonView {
    match function.get("parameters"@) {
        Some(p) => p,
        None => match function.get("input_schema"@) {
            Some(p) => p,
            None => JsonView::Object(Map::empty()),
        },
    }
}

pub open spec fn tool_name_of(entry: JsonView) -> Seq<char> {
    text_or(member(tool_function(entry), "name"@).as_text(), Seq::empty())
}

pub open spec fn tool_of(entry: JsonView) -> ToolView {
    let function = tool_function(entry);
    ToolView {
        name: tool_name_of(entry),
        description: member(function, "description"@).as_text(),
        parameters: tool_parameters(function),
    }
}

/// The tools of the first `n` entries; an entry without a name is passed over.
pub open spec fn tools_of_list(v: Seq<JsonView>, n: nat) -> Seq<ToolView>
    decreases n,
{
    if n == 0 {
        Seq::empty()
    } else {
        let rest = tools_of_list(v, (n - 1) as nat);
        if tool_name_of(v[n - 1]).len() == 0 {
            rest
        } else {
            rest.push(tool_of(v[n - 1]))
        }
    }
}

pub open spec fn tools_of(json: JsonView) -> Seq<ToolView> {
    match member(json, "tools"@).as_list() {
        Some(v) => tools_of_list(v, v.len()),
        None => Seq::empty(),
    }
}

pub open spec fn tool_choice_of(json: JsonView) -> ToolChoiceView {
    let v = member(json, "tool_choice"@);
    match v {
        JsonView::Text(s) => if s == "none"@ {
            ToolChoiceView::None_
        } else if s == "required"@ {
            ToolChoiceView::Required
        } else {
            ToolChoiceView::Auto
        },
        JsonView::Object(_) => if member(v, "type"@).as_text() == Some("function"@) {
            match member(v, "function"@).as_text() {
                Some(name) => ToolChoiceView::Function(name),
                None => ToolChoiceView::Auto,
            }
        } else {
            ToolChoiceView::Auto
        },
        _ => ToolChoiceView::Auto,
    }
}

/// Whether the member `thinking` switches thinking off: `false`, or an object of the type
/// `disabled`.
pub open spec fn thinking_disabled(json: JsonView) -> bool {
    let v = member(json, "thinking"@);
    v == JsonView::Bool(false) || (v is Object && member(v, "type"@).as_text() == Some(
        "disabled"@,
    ))
}

/// The thinking mode that a body asks for. A model name that stands for a mode decides.
pub open spec fn think_mode_of(json: JsonView, model: Seq<char>) -> ThinkMode {
    let asked = if member(json, "reasoning_effort"@).as_text() == Some("max"@) {
        ThinkMode::Max
    } else if thinking_disabled(json) {
        ThinkMode::Off
    } else {
        ThinkMode::High
    };
    if model == "deepseek-chat"@ {
        ThinkMode::Off
    } else if model == "deepseek-reasoner"@ && asked == ThinkMode::Off {
        ThinkMode::High
    } else {
        asked
    }
}

/// The text items among the first `n`.
pub open spec fn text_items(v: Seq<JsonView>, n: nat) -> Seq<Seq<char>>
    decreases n,
{
    if n == 0 {
        Seq::empty()
    } else {
        let rest = text_items(v, (n - 1) as nat);
        match v[n - 1].as_text() {
            Some(s) => rest.push(s),
            None => rest,
        }
    }
}

pub open spec fn stop_of(json: JsonView) -> Seq<Seq<char>> {
    match member(json, "stop"@) {
        JsonView::Text(s) => seq![s],
        JsonView::List(v) => text_items(v, v.len()),
        _ => Seq::empty(),
    }
}

/// The limit on generated tokens, cut to 32 bits.
pub open spec fn max_tokens_of(json: JsonView) -> i32 {
    let v = match json.get("max_tokens"@) {
        Some(v) => v,
        None => member(json, "max_completion_tokens"@),
    };
    match v.as_i64() {
        Some(n) => n as i32,
        None => DEFAULT_MAX_TOKENS,
    }
}

pub open spec fn single_or(v: Option<u32>, other: u32) -> u32 {
    match v {
        Some(b) => b,
        None => other,
    }
}

pub open spec fn model_of(json: JsonView) -> Seq<char> {
    text_or(member(json, "model"@).as_text(), "deepseek-v4-flash"@)
}

/// The request that a JSON body makes.
pub open spec fn request_of(kind: RequestKind, json: JsonView) -> RequestView {
    RequestView {
        kind,
        api: ApiStyle::OpenAI,
        model: model_of(json),
        messages: if kind == RequestKind::Chat {
            messages_of(json)
        } else {
            Seq::empty()
        },
        prompt_text: if kind == RequestKind::Completion {
            member(json, "prompt"@).as_text()
        } else {
            None
        },
        max_tokens: max_tokens_of(json),
        temperature: single_or(member(json, "temperature"@).as_single(), SINGLE_ONE),
        top_p: single_or(member(json, "top_p"@).as_single(), SINGLE_ONE),
        min_p: single_or(member(json, "min_p"@).as_single(), 0),
        top_k: match member(json, "top_k"@).as_i64() {
            Some(n) => n as i32,
            None => 0,
        },
        seed: match member(json, "seed"@).as_natural() {
            Some(n) => n,
            None => 0,
        },
        stream: member(json, "stream"@).as_bool() == Some(true),
        stream_include_usage: member(
            member(json, "stream_options"@),
            "include_usage"@,
        ).as_bool() == Some(true),
        stop: stop_of(json),
        tools: tools_of(json),
        tool_choice: tool_choice_of(json),
        think_mode: think_mode_of(json, model_of(json)),
    }
}

/// The request of an endpoint that takes no body.
pub open spec fn plain_request() -> RequestView {
    RequestView {
        kind: RequestKind::Chat,
        api: ApiStyle::OpenAI,
        model: Seq::empty(),
        messages: Seq::empty(),
        prompt_text: None,
        max_tokens: 0,
        temperature: SINGLE_ONE,
        top_p: SINGLE_ONE,
        min_p: 0,
        top_k: 0,
        seed: 0,
        stream: false,
        stream_include_usage: false,
        stop: Seq::empty(),
        tools: Seq::empty(),
        tool_choice: ToolChoiceView::Auto,
        think_mode: ThinkMode::High,
    }
}

/// What a request with the given method, path and body asks for, and whether it asks for
/// the list of models; or why it is refused.
pub open spec fn parsed_request(
    method: Seq<char>,
    path: Seq<char>,
    body: Seq<char>,
) -> Result<(RequestView, bool), RequestErrorView> {
    if path == "/health"@ {
        Ok((plain_request(), false))
    } else if path == "/v1/models"@ {
        Ok((plain_request(), true))
    } else if path != "/v1/chat/completions"@ && path != "/v1/completions"@ {
        Err(RequestErrorView::UnknownPath(path))
    } else if method != "POST"@ {
        Err(RequestErrorView::MethodNotAllowed(method))
    } else {
        match json_parsed(body) {
            None => Err(RequestErrorView::BadJson),
            Some(json) => Ok(
                (
                    request_of(
                        if path == "/v1/completions"@ {
                            RequestKind::Completion
                        } else {
                            RequestKind::Chat
                        },
                        json,
                    ),
                    false,
                ),
            ),
        }
    }
}

// ── Reading a body ───────────────────────────────────────────────────────

/// The text of the member `key`.
fn text_member<'a>(json: &'a Json, key: &str) -> (r: Option<&'a str>)
    ensures
        match r {
            Some(s) => member(json@, key@).as_text() == Some(s@),
            None => member(json@, key@).as_text() is None,
        },
{
    match json.get(key) {
        Some(v) => v.as_text(),
        None => None,
    }
}

/// The text of the member `key`, or another text.
fn text_member_or(json: &Json, key: &str, other: &str) -> (r: String)
    ensures
        r@ == text_or(member(json@, key@).as_text(), other@),
{
    match text_member(json, key) {
        Some(s) => String::from_str(s),
        None => String::from_str(other),
    }
}

/// The text of the member `key`, where it has one.
fn owned_member(json: &Json, key: &str) -> (r: Option<String>)
    ensures
        optional_view(r) == member(json@, key@).as_text(),
{
    match text_member(json, key) {
        Some(s) => Some(String::from_str(s)),
        None => None,
    }
}

fn bool_member(json: &Json, key: &str) -> (r: bool)
    ensures
        r == (member(json@, key@).as_bool() == Some(true)),
{
    match json.get(key) {
        Some(v) => match v.as_bool() {
            Some(b) => b,
            None => false,
        },
        None => false,
    }
}

fn single_member(json: &Json, key: &str, other: u32) -> (r: u32)
    requires
        json_wf(json@),
    ensures
        r == single_or(member(json@, key@).as_single(), other),
{
    proof {
        lemma_member_wf(json@, key@);
    }
    match json.get(key) {
        Some(v) => match v.as_single() {
            Some(b) => b,
            None => other,
        },
        None => other,
    }
}

fn join_parts(parts: &Vec<Json>) -> (r: String)
    ensures
        r@ == joined_parts(json_views(parts@), parts@.len()),
{
    let ghost views = json_views(parts@);
    let mut text = String::new();
    let mut empty = true;
    let mut i: usize = 0;
    while i < parts.len()
        invariant
            i <= parts@.len(),
            views == json_views(parts@),
            text@ == joined_parts(views, i as nat),
            empty == (text@.len() == 0),
        decreases parts@.len() - i,
    {
        assert(views[i as int] == parts@[i as int]@);
        match text_member(&parts[i], "text") {
            Some(t) => {
                if !empty {
                    text.push('\n');
                }
                append(&mut text, t);
                empty = same_text(text.as_str(), "");
                proof {
                    reveal_strlit("");
                    assert(text@.len() == 0 ==> text@ =~= ""@);
                }
            },
            None => {},
        }
        i = i + 1;
    }
    text
}

fn extract_content_value(v: &Json) -> (r: Option<String>)
    ensures
        optional_view(r) == content_text(v@),
{
    match v {
        Json::Text(s) => Some(s.clone()),
        Json::List(parts) => {
            proof {
                assert(v@->List_0 =~= json_views(parts@));
            }
            Some(join_parts(parts))
        },
        _ => None,
    }
}

fn extract_content(msg: &Json) -> (r: String)
    ensures
        r@ == text_or(content_text(member(msg@, "content"@)), Seq::empty()),
{
    match msg.get("content") {
        Some(v) => match extract_content_value(v) {
            Some(s) => s,
            None => String::new(),
        },
        None => String::new(),
    }
}

fn parse_tool_call(tc: &Json) -> (r: ToolCallData)
    requires
        json_wf(tc@),
    ensures
        r@ == call_of(tc@),
{
    proof {
        reveal_strlit("");
        assert(""@ =~= Seq::empty());
        lemma_member_wf(tc@, "function"@);
    }
    let id = text_member_or(tc, "id", "");
    match tc.get("function") {
        Some(function) => {
            let name = text_member_or(function, "name", "");
            proof {
                lemma_member_wf(function@, "arguments"@);
            }
            let arguments = match function.get("arguments") {
                Some(v) => match v.as_text() {
                    Some(s) => String::from_str(s),
                    None => v.print(),
                },
                None => String::from_str("{}"),
            };
            ToolCallData { id, name, arguments }
        },
        None => ToolCallData { id, name: String::new(), arguments: String::from_str("{}") },
    }
}

fn parse_message_tool_calls(msg: &Json) -> (r: Vec<ToolCallData>)
    requires
        json_wf(msg@),
    ensures
        call_views(r@) == calls_of(msg@),
{
    let mut calls: Vec<ToolCallData> = Vec::new();
    proof {
        lemma_member_wf(msg@, "tool_calls"@);
    }
    match msg.get("tool_calls") {
        Some(list) => match list.as_list() {
            Some(v) => {
                let ghost views = json_views(v@);
                let mut i: usize = 0;
                while i < v.len()
                    invariant
                        i <= v@.len(),
                        views == json_views(v@),
                        list@.as_list() == Some(views),
                        json_wf(list@),
                        calls@.len() == i,
                        forall|k: int| 0 <= k < i ==> (#[trigger] calls@[k])@ == call_of(views[k]),
                    decreases v@.len() - i,
                {
                    assert(views[i as int] == v@[i as int]@);
                    proof {
                        lemma_item_wf(list@, i as int);
                    }
                    calls.push(parse_tool_call(&v[i]));
                    i = i + 1;
                }
                assert(call_views(calls@) =~= calls_of(msg@));
            },
            None => {
                assert(call_views(calls@) =~= calls_of(msg@));
            },
        },
        None => {
            assert(call_views(calls@) =~= calls_of(msg@));
        },
    }
    calls
}

fn parse_message(msg: &Json) -> (r: ChatMessage)
    requires
        json_wf(msg@),
    ensures
        r@ == message_of(msg@),
{
    let role = text_member_or(msg, "role", "user");
    let content = extract_content(msg);
    let reasoning_content = match msg.get("reasoning_content") {
        Some(v) => extract_content_value(v),
        None => None,
    };
    let tool_call_id = owned_member(msg, "tool_call_id");
    let tool_calls = parse_message_tool_calls(msg);
    ChatMessage { role, content, reasoning_content, tool_call_id, tool_calls }
}

fn parse_chat_messages(json: &Json) -> (r: Vec<ChatMessage>)
    requires
        json_wf(json@),
    ensures
        message_views(r@) == messages_of(json@),
{
    let mut messages: Vec<ChatMessage> = Vec::new();
    proof {
        lemma_member_wf(json@, "messages"@);
    }
    match json.get("messages") {
        Some(list) => match list.as_list() {
            Some(v) => {
                let ghost views = json_views(v@);
                let mut i: usize = 0;
                while i < v.len()
                    invariant
                        i <= v@.len(),
                        views == json_views(v@),
                        list@.as_list() == Some(views),
                        json_wf(list@),
                        messages@.len() == i,
                        forall|k: int|
                            0 <= k < i ==> (#[trigger] messages@[k])@ == message_of(views[k]),
                    decreases v@.len() - i,
                {
                    assert(views[i as int] == v@[i as int]@);
                    proof {
                        lemma_item_wf(list@, i as int);
                    }
                    messages.push(parse_message(&v[i]));
                    i = i + 1;
                }
                assert(message_views(messages@) =~= messages_of(json@));
            },
            None => {
                assert(message_views(messages@) =~= messages_of(json@));
            },
        },
        None => {
            assert(message_views(messages@) =~= messages_of(json@));
        },
    }
    messages
}

/// The tool of an entry, where the entry has a name.
fn parse_tool(entry: &Json) -> (r: Option<ToolDefinition>)
    requires
        json_wf(entry@),
    ensures
        match r {
            Some(t) => tool_name_of(entry@).len() > 0 && t@ == tool_of(entry@) && json_wf(
                t@.parameters,
            ),
            None => tool_name_of(entry@).len() == 0,
        },
{
    proof {
        reveal_strlit("");
        assert(""@ =~= Seq::empty());
        lemma_member_wf(entry@, "function"@);
    }
    let function = match entry.get("function") {
        Some(f) => f,
        None => entry,
    };
    let name = text_member_or(function, "name", "");
    if same_text(name.as_str(), "") {
        return None;
    }
    proof {
        assert(name@.len() == 0 ==> name@ =~= ""@);
        lemma_member_wf(function@, "parameters"@);
        lemma_member_wf(function@, "input_schema"@);
    }
    let description = owned_member(function, "description");
    let parameters = match function.get("parameters") {
        Some(p) => p.copy(),
        None => match function.get("input_schema") {
            Some(p) => p.copy(),
            None => {
                let none: Vec<Member> = Vec::new();
                proof {
                    assert(members_view(none@, none@.len()) =~= Map::empty());
                    assert(json_wf(JsonView::Object(Map::empty())));
                }
                Json::Object(none)
            },
        },
    };
    Some(ToolDefinition { name, description, parameters })
}

fn parse_tools(json: &Json) -> (r: Vec<ToolDefinition>)
    requires
        json_wf(json@),
    ensures
        tool_views(r@) == tools_of(json@),
        tools_wf(tool_views(r@)),
{
    let mut tools: Vec<ToolDefinition> = Vec::new();
    proof {
        lemma_member_wf(json@, "tools"@);
    }
    assert(tool_views(tools@) =~= Seq::<ToolView>::empty());
    match json.get("tools") {
        Some(list) => match list.as_list() {
            Some(v) => {
                let ghost views = json_views(v@);
                let mut i: usize = 0;
                while i < v.len()
                    invariant
                        i <= v@.len(),
                        views == json_views(v@),
                        list@.as_list() == Some(views),
                        json_wf(list@),
                        tool_views(tools@) == tools_of_list(views, i as nat),
                        tools_wf(tool_views(tools@)),
                    decreases v@.len() - i,
                {
                    assert(views[i as int] == v@[i as int]@);
                    proof {
                        lemma_item_wf(list@, i as int);
                    }
                    let ghost before = tool_views(tools@);
                    match parse_tool(&v[i]) {
                        Some(t) => {
                            tools.push(t);
                            assert(tool_views(tools@) =~= before.push(t@));
                        },
                        None => {},
                    }
                    i = i + 1;
                }
            },
            None => {},
        },
        None => {},
    }
    tools
}

fn parse_tool_choice(json: &Json) -> (r: ToolChoice)
    ensures
        r@ == tool_choice_of(json@),
{
    match json.get("tool_choice") {
        Some(v) => match v {
            Json::Text(s) => {
                if same_text(s.as_str(), "none") {
                    ToolChoice::None_
                } else if same_text(s.as_str(), "required") {
                    ToolChoice::Required
                } else {
                    ToolChoice::Auto
                }
            },
            Json::Object(_) => {
                match text_member(v, "type") {
                    Some(t) => {
                        if same_text(t, "function") {
                            match owned_member(v, "function") {
                                Some(name) => {
                                    return ToolChoice::Function(name);
                                },
                                None => {},
                            }
                        }
                    },
                    None => {},
                }
                ToolChoice::Auto
            },
            _ => ToolChoice::Auto,
        },
        None => ToolChoice::Auto,
    }
}

fn parse_think_mode(json: &Json, model: &str) -> (r: ThinkMode)
    ensures
        r == think_mode_of(json@, model@),
{
    let mut mode = ThinkMode::High;
    match json.get("thinking") {
        Some(v) => {
            match v.as_bool() {
                Some(enabled) => {
                    if !enabled {
                        mode = ThinkMode::Off;
                    }
                },
                None => {
                    if v.is_object() {
                        match text_member(v, "type") {
                            Some(t) => {
                                if same_text(t, "disabled") {
                                    mode = ThinkMode::Off;
                                }
                            },
                            None => {},
                        }
                    }
                },
            }
        },
        None => {},
    }
    match text_member(json, "reasoning_effort") {
        Some(s) => {
            if same_text(s, "max") {
                mode = ThinkMode::Max;
            }
        },
        None => {},
    }
    if same_text(model, "deepseek-chat") {
        mode = ThinkMode::Off;
    } else if same_text(model, "deepseek-reasoner") {
        if mode == ThinkMode::Off {
            mode = ThinkMode::High;
        }
    }
    mode
}

fn parse_stop(json: &Json) -> (r: Vec<String>)
    ensures
        string_views(r@) == stop_of(json@),
{
    let mut stop: Vec<String> = Vec::new();
    assert(string_views(stop@) =~= Seq::<Seq<char>>::empty());
    match json.get("stop") {
        Some(v) => match v {
            Json::Text(s) => {
                stop.push(s.clone());
                assert(string_views(stop@) =~= seq![s@]);
            },
            Json::List(items) => {
                let ghost views = json_views(items@);
                assert(v@->List_0 =~= views);
                let mut i: usize = 0;
                while i < items.len()
                    invariant
                        i <= items@.len(),
                        views == json_views(items@),
                        string_views(stop@) == text_items(views, i as nat),
                    decreases items@.len() - i,
                {
                    assert(views[i as int] == items@[i as int]@);
                    let ghost before = string_views(stop@);
                    match items[i].as_text() {
                        Some(s) => {
                            stop.push(String::from_str(s));
                            assert(string_views(stop@) =~= before.push(s@));
                        },
                        None => {},
                    }
                    i = i + 1;
                }
            },
            _ => {},
        },
        None => {},
    }
    stop
}

fn parse_max_tokens(json: &Json) -> (r: i32)
    ensures
        r == max_tokens_of(json@),
{
    let v = match json.get("max_tokens") {
        Some(v) => Some(v),
        None => json.get("max_completion_tokens"),
    };
    match v {
        Some(v) => match v.as_i64() {
            Some(n) => n as i32,
            None => DEFAULT_MAX_TOKENS,
        },
        None => DEFAULT_MAX_TOKENS,
    }
}

/// The request that a JSON body makes.
pub fn read_request(kind: RequestKind, json: &Json) -> (r: Request)
    requires
        json_wf(json@),
    ensures
        r@ == request_of(kind, json@),
        tools_wf(r@.tools),
{
    let model = text_member_or(json, "model", "deepseek-v4-flash");
    let stream = bool_member(json, "stream");
    let stream_include_usage = match json.get("stream_options") {
        Some(o) => bool_member(o, "include_usage"),
        None => false,
    };
    let max_tokens: i32 = parse_max_tokens(json);
    let temperature: u32 = single_member(json, "temperature", SINGLE_ONE);
    let top_p: u32 = single_member(json, "top_p", SINGLE_ONE);
    let min_p: u32 = single_member(json, "min_p", 0);
    let top_k: i32 = match json.get("top_k") {
        Some(v) => match v.as_i64() {
            Some(n) => n as i32,
            None => 0,
        },
        None => 0,
    };
    let seed: u64 = match json.get("seed") {
        Some(v) => match v.as_natural() {
            Some(n) => n,
            None => 0,
        },
        None => 0,
    };
    let stop = parse_stop(json);
    let tools = parse_tools(json);
    let tool_choice = parse_tool_choice(json);
    let think_mode = parse_think_mode(json, model.as_str());
    let messages = if kind == RequestKind::Chat {
        parse_chat_messages(json)
    } else {
        Vec::new()
    };
    let prompt_text = if kind == RequestKind::Completion {
        owned_member(json, "prompt")
    } else {
        None
    };
    let r = Request {
        kind,
        api: ApiStyle::OpenAI,
        model,
        messages,
        prompt_text,
        max_tokens,
        temperature,
        top_p,
        min_p,
        top_k,
        seed,
        stream,
        stream_include_usage,
        stop,
        tools,
        tool_choice,
        think_mode,
    };
    proof {
        if kind != RequestKind::Chat {
            assert(message_views(messages@) =~= Seq::empty());
        }
    }
    r
}

fn make_plain_request() -> (r: Request)
    ensures
        r@ == plain_request(),
{
    let r = Request {
        kind: RequestKind::Chat,
        api: ApiStyle::OpenAI,
        model: String::new(),
        messages: Vec::new(),
        prompt_text: None,
        max_tokens: 0,
        temperature: SINGLE_ONE,
        top_p: SINGLE_ONE,
        min_p: 0,
        top_k: 0,
        seed: 0,
        stream: false,
        stream_include_usage: false,
        stop: Vec::new(),
        tools: Vec::new(),
        tool_choice: ToolChoice::Auto,
        think_mode: ThinkMode::High,
    };
    assert(r@ =~= plain_request());
    r
}

/// What a request asks for, and whether it asks for the list of models.
pub fn parse_request_body(method: &str, path: &str, body: &str) -> (r: Result<
    (Request, bool),
    RequestError,
>)
    ensures
        match r {
            Ok(q) => parsed_request(method@, path@, body@) == Ok::<
                (RequestView, bool),
                RequestErrorView,
            >((q.0@, q.1)) && tools_wf(q.0@.tools),
            Err(e) => parsed_request(method@, path@, body@) == Err::<
                (RequestView, bool),
                RequestErrorView,
            >(e@),
        },
{
    if same_text(path, "/health") {
        return Ok((make_plain_request(), false));
    }
    if same_text(path, "/v1/models") {
        return Ok((make_plain_request(), true));
    }
    let completion = same_text(path, "/v1/completions");
    if !completion && !same_text(path, "/v1/chat/completions") {
        return Err(RequestError::UnknownPath(String::from_str(path)));
    }
    if !same_text(method, "POST") {
        return Err(RequestError::MethodNotAllowed(String::from_str(method)));
    }
    let json = match parse_json(body) {
        Some(j) => j,
        None => {
            return Err(RequestError::BadJson);
        },
    };
    let kind = if completion {
        RequestKind::Completion
    } else {
        RequestKind::Chat
    };
    Ok((read_request(kind, &json), false))
}

} // verus!

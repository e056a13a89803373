//! What the reading of a request is held to.
use vstd::prelude::*;

use crate::http::{error_view, response_bytes};
use crate::json::{json_parsed, json_text, JsonView};
use crate::laws::answers::{at, says};
use crate::request::{
    call_of, joined_parts, message_of, parsed_request, request_of, text_items, tool_name_of,
    tools_of_list, RequestErrorView, RequestKind, ToolChoiceView, ToolView,
};
use crate::respond::{route_of, RouteView};
use crate::types::ThinkMode;

verus! {

/// What a body says under a key.
pub open spec fn under(j: JsonView, key: Seq<char>) -> Option<JsonView> {
    match j {
        JsonView::Object(m) => if m.contains_key(key) {
            Some(m[key])
        } else {
            None
        },
        _ => None,
    }
}

/// The text that a body says under a key.
pub open spec fn words_under(j: JsonView, key: Seq<char>) -> Option<Seq<char>> {
    match under(j, key) {
        Some(JsonView::Text(s)) => Some(s),
        _ => None,
    }
}

/// The whole number that a value is, where it fits in 64 bits with a sign.
pub open spec fn whole(v: Option<JsonView>) -> Option<int> {
    match v {
        Some(JsonView::Unsigned(n)) => if n <= 0x7fff_ffff_ffff_ffff {
            Some(n as int)
        } else {
            None
        },
        Some(JsonView::Negative(n)) => Some(n as int),
        _ => None,
    }
}

/// Each setting of a request is what the body says under its name, with its default
/// where the body says nothing that fits. A number of candidates is cut to 32 bits.
pub proof fn settings_come_from_their_names(kind: RequestKind, j: JsonView)
    ensures
        ({
            let q = request_of(kind, j);
            &&& q.kind == kind
            &&& q.model == match words_under(j, "model"@) {
                Some(s) => s,
                None => "deepseek-v4-flash"@,
            }
            &&& match under(j, "temperature"@) {
                Some(v) => if v is Unsigned || v is Negative || v is Double {
                    v.as_single() == Some(q.temperature)
                } else {
                    q.temperature == 0x3f80_0000
                },
                None => q.temperature == 0x3f80_0000,
            }
            &&& match under(j, "top_p"@) {
                Some(v) => if v is Unsigned || v is Negative || v is Double {
                    v.as_single() == Some(q.top_p)
                } else {
                    q.top_p == 0x3f80_0000
                },
                None => q.top_p == 0x3f80_0000,
            }
            &&& match under(j, "min_p"@) {
                Some(v) => if v is Unsigned || v is Negative || v is Double {
                    v.as_single() == Some(q.min_p)
                } else {
                    q.min_p == 0
                },
                None => q.min_p == 0,
            }
            &&& match whole(under(j, "top_k"@)) {
                Some(n) => q.top_k == n as i64 as i32,
                None => q.top_k == 0,
            }
            &&& match under(j, "seed"@) {
                Some(v) => if v is Unsigned || v is Negative || v is Double {
                    v.as_natural() == Some(q.seed)
                } else {
                    q.seed == 0
                },
                None => q.seed == 0,
            }
            &&& q.stream == (under(j, "stream"@) == Some(JsonView::Bool(true)))
            &&& q.stream_include_usage == match under(j, "stream_options"@) {
                Some(o) => under(o, "include_usage"@) == Some(JsonView::Bool(true)),
                None => false,
            }
        }),
{
}

/// The limit on generated tokens: `max_tokens`, or else `max_completion_tokens`, cut to 32
/// bits, or else 4096.
pub proof fn token_limit_has_two_names(kind: RequestKind, j: JsonView)
    ensures
        ({
            let limit = request_of(kind, j).max_tokens;
            match under(j, "max_tokens"@) {
                Some(v) => match whole(Some(v)) {
                    Some(n) => limit == n as i64 as i32,
                    None => limit == 4096,
                },
                None => match whole(under(j, "max_completion_tokens"@)) {
                    Some(n) => limit == n as i64 as i32,
                    None => limit == 4096,
                },
            }
        }),
{
}

/// The thinking mode: the models `deepseek-chat` never thinks and `deepseek-reasoner`
/// always does; else the greatest effort comes before switching thinking off, and thinking
/// is the default.
pub proof fn thinking_follows_model_and_effort(kind: RequestKind, j: JsonView)
    ensures
        ({
            let mode = request_of(kind, j).think_mode;
            let max = words_under(j, "reasoning_effort"@) == Some("max"@);
            let off = under(j, "thinking"@) == Some(JsonView::Bool(false)) || (under(
                j,
                "thinking"@,
            ) matches Some(o) && o is Object && words_under(o, "type"@) == Some("disabled"@));
            let chat = words_under(j, "model"@) == Some("deepseek-chat"@);
            let reasoner = words_under(j, "model"@) == Some("deepseek-reasoner"@);
            &&& chat ==> mode == ThinkMode::Off
            &&& !chat && max ==> mode == ThinkMode::Max
            &&& !chat && !max && off && !reasoner ==> mode == ThinkMode::Off
            &&& !chat && !max && (!off || reasoner) ==> mode == ThinkMode::High
        }),
{
    reveal_strlit("deepseek-v4-flash");
    reveal_strlit("deepseek-chat");
    reveal_strlit("deepseek-reasoner");
    assert("deepseek-v4-flash"@[9] == 'v' && "deepseek-chat"@[9] == 'c' && "deepseek-reasoner"@[9]
        == 'r');
}

/// Stop sequences: one text, or the texts of a list in their order.
pub proof fn stops_are_texts(kind: RequestKind, j: JsonView)
    ensures
        under(j, "stop"@) matches Some(JsonView::Text(s)) ==> request_of(kind, j).stop == seq![s],
        under(j, "stop"@) matches Some(JsonView::List(v)) ==> request_of(kind, j).stop == v.filter(
            |x: JsonView| x is Text,
        ).map_values(|x: JsonView| x->Text_0),
        under(j, "stop"@) is None || (under(j, "stop"@)->0 !is Text && under(j, "stop"@)->0 !is List)
            ==> request_of(kind, j).stop.len() == 0,
{
    match under(j, "stop"@) {
        Some(JsonView::List(v)) => {
            lemma_texts(v, v.len());
            assert(v.take(v.len() as int) =~= v);
        },
        _ => {},
    }
}

proof fn lemma_texts(v: Seq<JsonView>, n: nat)
    requires
        n <= v.len(),
    ensures
        text_items(v, n) == v.take(n as int).filter(|x: JsonView| x is Text).map_values(
            |x: JsonView| x->Text_0,
        ),
    decreases n,
{
    reveal(Seq::filter);
    let f = |x: JsonView| x is Text;
    let g = |x: JsonView| x->Text_0;
    let now = v.take(n as int);
    if n == 0 {
        assert(now.filter(f) =~= Seq::empty());
        assert(now.filter(f).map_values(g) =~= Seq::empty());
    } else {
        lemma_texts(v, (n - 1) as nat);
        let before = v.take(n - 1);
        assert(now.drop_last() =~= before);
        assert(now.last() == v[n - 1]);
        if v[n - 1] is Text {
            assert(now.filter(f) =~= before.filter(f).push(v[n - 1]));
            assert(now.filter(f).map_values(g) =~= before.filter(f).map_values(g).push(
                v[n - 1]->Text_0,
            ));
        } else {
            assert(now.filter(f) =~= before.filter(f));
        }
    }
}

/// The messages of a chat are those that the body lists, one for one; a completion has a
/// prompt instead.
pub proof fn messages_are_listed(j: JsonView, i: int)
    ensures
        under(j, "messages"@) matches Some(JsonView::List(v)) ==> {
            let q = request_of(RequestKind::Chat, j);
            &&& q.messages.len() == v.len()
            &&& 0 <= i < v.len() ==> {
                &&& q.messages[i].role == match words_under(v[i], "role"@) {
                    Some(s) => s,
                    None => "user"@,
                }
                &&& words_under(v[i], "content"@) matches Some(s) ==> q.messages[i].content == s
                &&& words_under(v[i], "reasoning_content"@) matches Some(s)
                    ==> q.messages[i].reasoning_content == Some(s)
                &&& under(v[i], "reasoning_content"@) is None
                    ==> q.messages[i].reasoning_content is None
                &&& q.messages[i].tool_call_id == words_under(v[i], "tool_call_id"@)
            }
        },
        request_of(RequestKind::Chat, j).prompt_text is None,
        request_of(RequestKind::Completion, j).messages.len() == 0,
        request_of(RequestKind::Completion, j).prompt_text == words_under(j, "prompt"@),
{
}

/// The tool calls of a message: its list of calls, each with its ID and its function's
/// name and arguments; arguments that are no text stand as JSON.
pub proof fn calls_are_listed(msg: JsonView, i: int)
    ensures
        under(msg, "tool_calls"@) matches Some(JsonView::List(v)) ==> {
            let calls = message_of(msg).tool_calls;
            &&& calls.len() == v.len()
            &&& 0 <= i < v.len() ==> {
                &&& words_under(v[i], "id"@) matches Some(s) ==> calls[i].id == s
                &&& under(v[i], "function"@) matches Some(f) ==> {
                    &&& words_under(f, "name"@) matches Some(s) ==> calls[i].name == s
                    &&& words_under(f, "arguments"@) matches Some(s) ==> calls[i].arguments == s
                    &&& under(f, "arguments"@) matches Some(v) ==> (v !is Text
                        ==> calls[i].arguments == json_text(v))
                    &&& under(f, "arguments"@) is None ==> calls[i].arguments == "{}"@
                }
            }
        },
        under(msg, "tool_calls"@) is None ==> message_of(msg).tool_calls.len() == 0,
{
    match under(msg, "tool_calls"@) {
        Some(JsonView::List(v)) => {
            if 0 <= i < v.len() {
                assert(message_of(msg).tool_calls[i] == call_of(v[i]));
            }
        },
        _ => {},
    }
}

/// A content in parts is their texts in order, one to a line; one more part with a text
/// comes behind the others.
pub proof fn parts_go_to_lines(parts: Seq<JsonView>, t: Seq<char>, part: JsonView)
    requires
        words_under(part, "text"@) == Some(t),
    ensures
        joined_parts(parts.push(part), parts.len() + 1) == if joined_parts(
            parts,
            parts.len(),
        ).len() > 0 {
            joined_parts(parts, parts.len()) + seq!['\n'] + t
        } else {
            t
        },
        message_of(
            JsonView::Object(
                Map::<Seq<char>, JsonView>::empty().insert("content"@, JsonView::List(parts)),
            ),
        ).content == joined_parts(parts, parts.len()),
{
    lemma_parts_prefix(parts, part, parts.len());
    let rest = joined_parts(parts, parts.len());
    let all = parts.push(part);
    assert(all[parts.len() as int] == part);
    if rest.len() > 0 {
        assert(rest.push('\n') + t =~= rest + seq!['\n'] + t);
    } else {
        assert(rest + t =~= t);
    }
}

proof fn lemma_parts_prefix(parts: Seq<JsonView>, part: JsonView, n: nat)
    requires
        n <= parts.len(),
    ensures
        joined_parts(parts.push(part), n) == joined_parts(parts, n),
    decreases n,
{
    if n > 0 {
        lemma_parts_prefix(parts, part, (n - 1) as nat);
    }
}

/// Whether `t` is the tool that an entry describes, itself or under `function`.
pub open spec fn describes(entry: JsonView, t: ToolView) -> bool {
    let f = match under(entry, "function"@) {
        Some(f) => f,
        None => entry,
    };
    &&& words_under(f, "name"@) == Some(t.name)
    &&& t.description == words_under(f, "description"@)
    &&& t.parameters == match under(f, "parameters"@) {
        Some(p) => p,
        None => match under(f, "input_schema"@) {
            Some(p) => p,
            None => JsonView::Object(Map::empty()),
        },
    }
}

/// The tools of a request are the entries with a name, in their order: one more entry
/// with a name gives one more tool, and one without gives none.
pub proof fn tools_are_named_entries(v: Seq<JsonView>, entry: JsonView)
    ensures
        ({
            let before = tools_of_list(v, v.len());
            let now = tools_of_list(v.push(entry), v.len() + 1);
            let f = match under(entry, "function"@) {
                Some(f) => f,
                None => entry,
            };
            &&& (words_under(f, "name"@) matches Some(s) && s.len() > 0) ==> {
                &&& now.len() == before.len() + 1
                &&& now.drop_last() == before
                &&& describes(entry, now.last())
            }
            &&& (words_under(f, "name"@) matches Some(s) ==> s.len() == 0) ==> now == before
        }),
        forall|j: JsonView|
            under(j, "tools"@) == Some(JsonView::List(v)) ==> (#[trigger] request_of(
                RequestKind::Chat,
                j,
            )).tools == tools_of_list(v, v.len()),
        tools_of_list(Seq::empty(), 0).len() == 0,
{
    lemma_tools_prefix(v, entry, v.len());
    let before = tools_of_list(v, v.len());
    let now = tools_of_list(v.push(entry), v.len() + 1);
    assert(v.push(entry)[v.len() as int] == entry);
    if tool_name_of(entry).len() > 0 {
        assert(now.drop_last() =~= before);
    }
}

proof fn lemma_tools_prefix(v: Seq<JsonView>, entry: JsonView, n: nat)
    requires
        n <= v.len(),
    ensures
        tools_of_list(v.push(entry), n) == tools_of_list(v, n),
    decreases n,
{
    if n > 0 {
        lemma_tools_prefix(v, entry, (n - 1) as nat);
    }
}

/// The choice of a tool: `none` and `required` by their names, a function by its own, and
/// otherwise the model's.
pub proof fn tool_choice_is_named(kind: RequestKind, j: JsonView)
    ensures
        ({
            let c = request_of(kind, j).tool_choice;
            &&& words_under(j, "tool_choice"@) == Some("none"@) ==> c is None_
            &&& words_under(j, "tool_choice"@) == Some("required"@) ==> c is Required
            &&& (words_under(j, "tool_choice"@) matches Some(s) && s != "none"@ && s
                != "required"@) ==> c is Auto
            &&& under(j, "tool_choice"@) is None ==> c is Auto
            &&& (under(j, "tool_choice"@) matches Some(o) && o is Object && words_under(o, "type"@)
                != Some("function"@)) ==> c is Auto
            &&& (under(j, "tool_choice"@) matches Some(o) && words_under(o, "type"@) == Some(
                "function"@,
            ) && words_under(o, "function"@) is Some) ==> c == ToolChoiceView::Function(
                words_under(under(j, "tool_choice"@)->0, "function"@)->0,
            )
        }),
{
    reveal_strlit("none");
    reveal_strlit("required");
    assert("none"@[0] == 'n' && "required"@[0] == 'r');
}

/// Which request is read, and why one is refused: an unknown path before a wrong method,
/// and that before a body that is no JSON.
pub proof fn requests_are_read_by_path(method: Seq<char>, path: Seq<char>, body: Seq<char>)
    requires
        path != "/health"@,
        path != "/v1/models"@,
    ensures
        ({
            let r = parsed_request(method, path, body);
            let known = path == "/v1/chat/completions"@ || path == "/v1/completions"@;
            &&& !known ==> r is Err && r->Err_0 == RequestErrorView::UnknownPath(path)
            &&& known && method != "POST"@ ==> r is Err && r->Err_0
                == RequestErrorView::MethodNotAllowed(method)
            &&& known && method == "POST"@ && json_parsed(body) is None ==> r is Err && r->Err_0
                == RequestErrorView::BadJson
            &&& known && method == "POST"@ && json_parsed(body) is Some ==> r is Ok && !r->Ok_0.1
                && r->Ok_0.0 == request_of(
                if path == "/v1/completions"@ {
                    RequestKind::Completion
                } else {
                    RequestKind::Chat
                },
                json_parsed(body)->0,
            )
        }),
{
    reveal_strlit("/v1/chat/completions");
    reveal_strlit("/v1/completions");
    assert("/v1/chat/completions"@.len() != "/v1/completions"@.len());
}

/// What a refusal says.
pub proof fn refusals_say_why(s: Seq<char>)
    ensures
        RequestErrorView::UnknownPath(s).text() == "unknown path: "@ + s,
        RequestErrorView::MethodNotAllowed(s).text() == "method not allowed: "@ + s,
        RequestErrorView::BadJson.text() == "failed to parse JSON request body"@,
{
}

/// A request that is read goes to the model as it is; one that is refused is answered
/// with status 400 and the reason, the health check with the model and the time, and the
/// list of models with the one model.
pub proof fn routes_lead_to_answers(
    method: Seq<char>,
    path: Seq<char>,
    body: Seq<char>,
    model: Seq<char>,
    now: i64,
)
    requires
        now >= 0,
    ensures
        ({
            let r = route_of(method, path, body, model, now);
            let read = parsed_request(method, path, body);
            let json = "application/json"@;
            &&& path != "/health"@ && path != "/v1/models"@ && read is Ok ==> r
                == RouteView::Generate(read->Ok_0.0)
            &&& path != "/health"@ && path != "/v1/models"@ && read is Err ==> r
                == RouteView::Respond(
                response_bytes(
                    400,
                    json,
                    json_text(error_view(400, "Invalid request: "@ + read->Err_0.text())),
                ),
            )
            &&& path == "/health"@ ==> exists|v: JsonView|
                {
                    &&& r == RouteView::Respond(response_bytes(200, json, #[trigger] json_text(v)))
                    &&& says(v, "status"@, JsonView::Text("ok"@))
                    &&& says(v, "model"@, JsonView::Text(model))
                    &&& says(v, "timestamp"@, JsonView::Unsigned(now as u64))
                }
            &&& path == "/v1/models"@ ==> exists|v: JsonView|
                {
                    &&& r == RouteView::Respond(response_bytes(200, json, #[trigger] json_text(v)))
                    &&& says(v, "object"@, JsonView::Text("list"@))
                    &&& at(v, "data"@) is List && at(v, "data"@)->List_0.len() == 1
                    &&& says(at(v, "data"@)->List_0[0], "id"@, JsonView::Text(model))
                    &&& says(at(v, "data"@)->List_0[0], "object"@, JsonView::Text("model"@))
                    &&& says(at(v, "data"@)->List_0[0], "created"@, JsonView::Unsigned(now as u64))
                }
        }),
{
    reveal_strlit("/health");
    reveal_strlit("/v1/models");
    assert("/health"@[1] == 'h' && "/v1/models"@[1] == 'v');
    reveal_strlit("status");
    reveal_strlit("model");
    reveal_strlit("timestamp");
    reveal_strlit("object");
    reveal_strlit("data");
    reveal_strlit("id");
    reveal_strlit("created");
    reveal_strlit("owned_by");
    assert("status"@[0] == 's' && "model"@[0] == 'm' && "timestamp"@[0] == 't' && "object"@[0]
        == 'o' && "object"@[1] == 'b' && "data"@[0] == 'd' && "id"@[0] == 'i' && "created"@[0]
        == 'c' && "owned_by"@[0] == 'o' && "owned_by"@[1] == 'w');
    let health = crate::respond::health_view(model, now);
    let models = crate::respond::models_view(model, now);
    if path == "/health"@ {
        assert(says(health, "status"@, JsonView::Text("ok"@)));
        assert(route_of(method, path, body, model, now) == RouteView::Respond(
            response_bytes(200, "application/json"@, json_text(health)),
        ));
    } else if path == "/v1/models"@ {
        assert(says(models, "object"@, JsonView::Text("list"@)));
        assert(route_of(method, path, body, model, now) == RouteView::Respond(
            response_bytes(200, "application/json"@, json_text(models)),
        ));
    }
}

/// An error is told by its message, its kind and its code.
pub proof fn errors_are_told(code: i32, message: Seq<char>)
    requires
        code >= 0,
    ensures
        ({
            let e = at(error_view(code, message), "error"@);
            &&& error_view(code, message)->Object_0.contains_key("error"@)
            &&& says(e, "message"@, JsonView::Text(message))
            &&& says(e, "code"@, JsonView::Unsigned(code as u64))
            &&& code == 400 ==> says(e, "type"@, JsonView::Text("invalid_request_error"@))
            &&& code == 404 ==> says(e, "type"@, JsonView::Text("not_found_error"@))
            &&& code == 503 ==> says(e, "type"@, JsonView::Text("service_unavailable_error"@))
            &&& code == 500 ==> says(e, "type"@, JsonView::Text("internal_server_error"@))
        }),
{
    reveal_strlit("message");
    reveal_strlit("type");
    reveal_strlit("code");
    assert("message"@[0] == 'm' && "type"@[0] == 't' && "code"@[0] == 'c');
}

/// A part of a content without a text adds nothing, and a content that is neither a text
/// nor a list is empty.
pub proof fn parts_without_text_add_nothing(msg: JsonView, parts: Seq<JsonView>, part: JsonView)
    ensures
        words_under(part, "text"@) is None ==> joined_parts(parts.push(part), parts.len() + 1)
            == joined_parts(parts, parts.len()),
        joined_parts(parts, 0).len() == 0,
        under(msg, "content"@) == Some(JsonView::List(parts)) ==> message_of(msg).content
            == joined_parts(parts, parts.len()),
        under(msg, "content"@) is None || (under(msg, "content"@)->0 !is Text && under(
            msg,
            "content"@,
        )->0 !is List) ==> message_of(msg).content.len() == 0,
        under(msg, "reasoning_content"@) == Some(JsonView::List(parts)) ==> message_of(
            msg,
        ).reasoning_content == Some(joined_parts(parts, parts.len())),
{
    lemma_parts_prefix(parts, part, parts.len());
    assert(parts.push(part)[parts.len() as int] == part);
}

/// A request for the health of the server or for its models asks for nothing else: it is
/// told apart by whether the models are wanted, and holds what a request is without a body.
pub proof fn other_requests_ask_for_nothing(method: Seq<char>, body: Seq<char>)
    ensures
        ({
            let health = parsed_request(method, "/health"@, body);
            let models = parsed_request(method, "/v1/models"@, body);
            &&& health is Ok && !(health->Ok_0).1
            &&& models is Ok && (models->Ok_0).1
            &&& (health->Ok_0).0 == (models->Ok_0).0
            &&& ({
                let q = (health->Ok_0).0;
                &&& q.kind == RequestKind::Chat && q.model.len() == 0 && q.messages.len() == 0
                &&& q.prompt_text is None && q.max_tokens == 0 && q.stop.len() == 0
                &&& q.temperature == 0x3f80_0000 && q.top_p == 0x3f80_0000 && q.min_p == 0
                &&& q.top_k == 0 && q.seed == 0 && q.tools.len() == 0
                &&& !q.stream && !q.stream_include_usage
                &&& q.tool_choice == ToolChoiceView::Auto && q.think_mode == ThinkMode::High
            })
        }),
{
    reveal_strlit("/health");
    reveal_strlit("/v1/models");
    assert("/health"@.len() != "/v1/models"@.len());
}

} // verus!

use ds4::dsml::{
    escape_dsml_attr, escape_dsml_text, format_tool_calls_dsml, name_call,
    parse_generated_tool_calls, read_tool_calls, unescape_dsml_text,
};
use ds4::http::{
    http_response, json_error, make_request_id, parse_http_request, request_id_of, sse_data,
    sse_event, sse_headers, HttpError, HttpReader, ReadStep,
};
use ds4::json::{parse_json, Json, JsonObject};
use ds4::prompt::{render_chat_prompt, render_completion_prompt, render_tools_prompt};
use ds4::request::{
    parse_request_body, read_request, ChatMessage, Request, RequestError, RequestKind,
    ToolCallData, ToolChoice,
};
use ds4::respond::{
    build_openai_response, respond_busy, respond_outcome, respond_unreadable, route, stream_busy,
    stream_failure, stream_frames, stream_outcome, JobOutcome, ResponseData, Route, StreamLabel,
};
use ds4::serve::{parse_args, server_engine_options};
use ds4::stream::{
    process_streaming_text, split_reasoning_content, StreamEvent, StreamMode, StreamState,
};
use ds4::types::{think_max_prefix, Backend, ThinkMode};
use serde_json::Value;

fn call(name: &str, arguments: &str) -> ToolCallData {
    ToolCallData { id: "id".to_string(), name: name.to_string(), arguments: arguments.to_string() }
}

fn message(role: &str, content: &str) -> ChatMessage {
    ChatMessage {
        role: role.to_string(),
        content: content.to_string(),
        reasoning_content: None,
        tool_call_id: None,
        tool_calls: vec![],
    }
}

fn strings(v: &[&str]) -> Vec<String> {
    v.iter().map(|s| s.to_string()).collect()
}

fn chat(body: &str) -> Request {
    parse_request_body("POST", "/v1/chat/completions", body).unwrap().0
}

// ── JSON ──

#[test]
fn json_is_read_and_printed() {
    let j = parse_json("{\"b\": [1, -2, true, null, \"x\\n\"], \"a\": 1.5}").unwrap();
    assert_eq!(j.print(), "{\"a\":1.5,\"b\":[1,-2,true,null,\"x\\n\"]}");
    assert_eq!(j.get("a").unwrap().as_single(), Some(1.5f32.to_bits()));
    let list = j.get("b").unwrap().as_list().unwrap();
    assert_eq!(list.len(), 5);
    assert_eq!(list[0].as_i64(), Some(1));
    assert_eq!(list[1].as_i64(), Some(-2));
    assert_eq!(list[2].as_bool(), Some(true));
    assert_eq!(list[4].as_text(), Some("x\n"));
    assert!(j.get("c").is_none());
    assert!(parse_json("{\"a\": }").is_none());
    assert!(parse_json("").is_none());
    assert_eq!(j.copy().print(), j.print());
}

#[test]
fn json_numbers_convert_as_doubles_do() {
    for text in ["0", "1", "7", "16777217", "18446744073709551615", "-3", "0.1", "1e300", "-2.75",
        "1e-46", "123456789.987654321", "9007199254740993"]
    {
        let v: Value = serde_json::from_str(text).unwrap();
        let j = parse_json(text).unwrap();
        let d = v.as_f64().unwrap();
        assert_eq!(j.as_single(), Some((d as f32).to_bits()), "{}", text);
        assert_eq!(j.as_natural(), Some(if d > 0.0 { d as u64 } else { 0 }), "{}", text);
        assert_eq!(j.as_i64(), v.as_i64(), "{}", text);
    }
    assert_eq!(parse_json("\"1\"").unwrap().as_single(), None);
    assert_eq!(parse_json("[]").unwrap().as_natural(), None);
}

#[test]
fn json_objects_keep_the_last_member() {
    let j = JsonObject::new().with_text("k", "a").with_int("n", -5).with_text("k", "b").done();
    assert_eq!(j.print(), "{\"k\":\"b\",\"n\":-5}");
    assert!(j.is_object());
    assert!(!Json::Null.is_object());
}

// ── Markup ──

#[test]
fn escapes() {
    assert_eq!(escape_dsml_text("a<b>&\"c'"), "a&lt;b&gt;&amp;\"c'");
    assert_eq!(escape_dsml_attr("a<b>&\"c'"), "a&lt;b&gt;&amp;&quot;c'");
    assert_eq!(unescape_dsml_text("a&lt;b&gt;&amp;&quot;c&apos;"), "a<b>&\"c'");
    assert_eq!(unescape_dsml_text(&escape_dsml_text("x < y && y > \"z\"")), "x < y && y > \"z\"");
    // The ampersand is replaced first.
    assert_eq!(unescape_dsml_text("&amp;lt;"), "<");
}

#[test]
fn calls_are_written() {
    assert_eq!(format_tool_calls_dsml(&vec![]), "");
    assert_eq!(
        format_tool_calls_dsml(&vec![call("f<", "{\"a\":1}")]),
        "\n\n｜DSML｜tool_calls>\n｜DSML｜invoke name=\"f&lt;\">\n\
         ｜DSML｜parameter name=\"arguments\" string=\"false\">{\"a\":1}｜DSML｜/parameter>\n\
         ｜DSML｜/invoke>\n｜DSML｜/tool_calls>"
    );
}

#[test]
fn written_calls_come_back() {
    let calls = vec![call("weather", "{\"city\":\"Rome\"}"), call("a&b", "[1,2]")];
    let text = format_tool_calls_dsml(&calls);
    let read = read_tool_calls(&text);
    assert_eq!(read.len(), 2);
    assert_eq!(read[0].name, "weather");
    assert_eq!(read[0].params.len(), 1);
    assert_eq!(read[0].params[0].name, "arguments");
    assert_eq!(read[0].params[0].value, "{\"city\":\"Rome\"}");
    assert!(!read[0].params[0].is_text);
    assert_eq!(read[1].name, "a&amp;b");
    assert_eq!(read[1].params[0].value, "[1,2]");
    let named = name_call(&read[0], 255);
    assert_eq!(named.id, "call_ff");
    assert_eq!(named.name, "weather");
    assert_eq!(named.arguments, "{\"arguments\":{\"city\":\"Rome\"}}");
}

#[test]
fn escaped_text_comes_back() {
    for text in ["", "a < b & c > d", "&amp;", "\"x\" 'y'", "&#39;", "&&lt"] {
        assert_eq!(unescape_dsml_text(&escape_dsml_text(text)), text);
    }
}

#[test]
fn arguments_with_an_end_tag_are_cut() {
    let calls = vec![call("f", "a｜DSML｜/parameter>b")];
    let read = read_tool_calls(&format_tool_calls_dsml(&calls));
    assert_eq!(read[0].params[0].value, "a");
}

#[test]
fn generated_calls_in_all_spellings() {
    for (open, close) in [("｜DSML｜", "｜DSML｜/"), ("<|DSML|", "</|DSML|"), ("<", "</")] {
        let text = format!(
            "hi {open}tool_calls>\n{open}invoke name=\"f\">\n\
             {open}parameter name=\"s\" string=\"true\">a &lt; b{close}parameter>\n\
             {open}parameter name=\"n\" string=\"false\">[1, 2]{close}parameter>\n\
             {open}parameter name=\"t\">3{close}parameter>\n\
             {close}invoke>\n{close}tool_calls> bye"
        );
        let calls = parse_generated_tool_calls(&text);
        assert_eq!(calls.len(), 1, "{}", open);
        assert_eq!(calls[0].name, "f");
        assert_eq!(calls[0].arguments, "{\"n\":[1,2],\"s\":\"a < b\",\"t\":\"3\"}");
        assert!(calls[0].id.starts_with("call_"));
        assert!(u64::from_str_radix(&calls[0].id[5..], 16).is_ok());
    }
    let calls = parse_generated_tool_calls("<tool_calls><invoke name=\"g\"></invoke></tool_calls>");
    assert_eq!(calls[0].arguments, "{}");
    // A value that is no JSON stays text.
    let calls = parse_generated_tool_calls(
        "<tool_calls><invoke name=\"g\"><parameter name=\"p\" string=\"false\">{oops</parameter>\
         </invoke></tool_calls>",
    );
    assert_eq!(calls[0].arguments, "{\"p\":\"{oops\"}");
    assert!(parse_generated_tool_calls("<tool_calls><invoke name=\"g\">").is_empty());
    assert!(parse_generated_tool_calls("plain").is_empty());
}

#[test]
fn ids_differ() {
    let text = "<tool_calls><invoke name=\"a\"></invoke><invoke name=\"b\"></invoke></tool_calls>";
    let mut ids: Vec<String> = Vec::new();
    for _ in 0..8 {
        for c in parse_generated_tool_calls(text) {
            ids.push(c.id);
        }
    }
    ids.sort();
    ids.dedup();
    assert!(ids.len() > 1);
}

// ── Prompts ──

#[test]
fn completion_prompts() {
    assert_eq!(
        render_completion_prompt("Hi", ThinkMode::High),
        "<｜begin▁of▁sentence｜>You are a helpful assistant<｜User｜>Hi<｜Assistant｜><think>"
    );
    assert_eq!(
        render_completion_prompt("Hi", ThinkMode::Off),
        "<｜begin▁of▁sentence｜>You are a helpful assistant<｜User｜>Hi<｜Assistant｜></think>"
    );
    assert_eq!(
        render_completion_prompt("Hi", ThinkMode::Max),
        format!(
            "<｜begin▁of▁sentence｜>{}You are a helpful assistant<｜User｜>Hi<｜Assistant｜><think>",
            think_max_prefix()
        )
    );
}

#[test]
fn chat_prompts() {
    let messages = vec![
        message("system", "Be brief."),
        message("developer", "Be kind."),
        message("user", "Hi"),
        message("assistant", "Hello"),
        message("tool", "1 < 2"),
        message("narrator", "skipped"),
    ];
    assert_eq!(
        render_chat_prompt(&messages, &vec![], ThinkMode::Off),
        "<｜begin▁of▁sentence｜>Be brief.\n\nBe kind.<｜User｜>Hi<｜Assistant｜></think>Hello\
         <｜end▁of▁sentence｜><tool_result>1 &lt; 2</tool_result><｜Assistant｜></think>"
    );
    assert_eq!(
        render_chat_prompt(&vec![message("user", "Hi")], &vec![], ThinkMode::High),
        "<｜begin▁of▁sentence｜><｜User｜>Hi<｜Assistant｜><think>"
    );
    assert_eq!(
        render_chat_prompt(&vec![], &vec![], ThinkMode::Off),
        "<｜begin▁of▁sentence｜>"
    );
}

#[test]
fn tools_are_described() {
    let req = chat(
        "{\"tools\":[{\"type\":\"function\",\"function\":{\"name\":\"f\",\"description\":\"Does f.\",\
         \"parameters\":{\"type\":\"object\"}}}],\"messages\":[{\"role\":\"user\",\"content\":\"x\"}]}",
    );
    assert_eq!(req.tools.len(), 1);
    let text = render_tools_prompt(&req.tools);
    assert!(text.starts_with("\n\n## Tools\n\nYou have access to a set of tools"));
    assert!(text.contains("### f\n\nDoes f.\n\n```json\n{\"type\":\"object\"}\n```\n\n"));
    assert!(text.ends_with("schemas to invoke tool calls."));
    let prompt = render_chat_prompt(&req.messages, &req.tools, req.think_mode);
    assert_eq!(
        prompt,
        format!("<｜begin▁of▁sentence｜>{}<｜User｜>x<｜Assistant｜><think>", text)
    );
}

// ── Requests ──

#[test]
fn requests_have_defaults() {
    let r = chat("{}");
    assert_eq!(r.model, "deepseek-v4-flash");
    assert_eq!(r.temperature, 1.0f32.to_bits());
    assert_eq!(r.top_p, 1.0f32.to_bits());
    assert_eq!(r.min_p, 0);
    assert_eq!(r.top_k, 0);
    assert_eq!(r.seed, 0);
    assert!(!r.stream && !r.stream_include_usage);
    assert!(r.messages.is_empty() && r.tools.is_empty() && r.stop.is_empty());
    assert_eq!(r.think_mode, ThinkMode::High);
    assert!(matches!(r.tool_choice, ToolChoice::Auto));
}

#[test]
fn requests_are_read() {
    let r = chat(
        "{\"model\":\"m\",\"stream\":true,\"stream_options\":{\"include_usage\":true},\
         \"max_completion_tokens\":77,\"temperature\":0.25,\"top_p\":0.9,\"min_p\":0.05,\"top_k\":40,\
         \"seed\":12.9,\"stop\":[\"a\",1,\"b\"],\"thinking\":{\"type\":\"disabled\"},\
         \"tool_choice\":\"required\",\
         \"messages\":[{\"role\":\"user\",\"content\":[{\"type\":\"text\",\"text\":\"He\"},\
         {\"type\":\"text\",\"text\":\"llo\"}]}]}",
    );
    assert_eq!(r.model, "m");
    assert!(r.stream && r.stream_include_usage);
    assert_eq!(r.max_tokens, 77);
    assert_eq!(r.temperature, 0.25f32.to_bits());
    assert_eq!(r.top_p, 0.9f32.to_bits());
    assert_eq!(r.min_p, 0.05f32.to_bits());
    assert_eq!(r.top_k, 40);
    assert_eq!(r.seed, 12);
    assert_eq!(r.stop, strings(&["a", "b"]));
    assert_eq!(r.think_mode, ThinkMode::Off);
    assert!(matches!(r.tool_choice, ToolChoice::Required));
    assert_eq!(r.messages.len(), 1);
    assert_eq!(r.messages[0].content, "He\nllo");
}

#[test]
fn think_modes_of_requests() {
    assert_eq!(chat("{\"thinking\":false}").think_mode, ThinkMode::Off);
    assert_eq!(chat("{\"thinking\":true}").think_mode, ThinkMode::High);
    assert_eq!(chat("{\"reasoning_effort\":\"max\"}").think_mode, ThinkMode::Max);
    assert_eq!(
        chat("{\"reasoning_effort\":\"max\",\"model\":\"deepseek-chat\"}").think_mode,
        ThinkMode::Off
    );
    assert_eq!(
        chat("{\"thinking\":false,\"model\":\"deepseek-reasoner\"}").think_mode,
        ThinkMode::High
    );
}

#[test]
fn completions_have_a_prompt() {
    let (r, listing) =
        parse_request_body("POST", "/v1/completions", "{\"prompt\":\"Once\",\"messages\":[{}]}")
            .unwrap();
    assert!(!listing);
    assert_eq!(r.kind, RequestKind::Completion);
    assert_eq!(r.prompt_text, Some("Once".to_string()));
    assert!(r.messages.is_empty());
    let j = parse_json("{\"prompt\":\"Once\"}").unwrap();
    assert_eq!(read_request(RequestKind::Completion, &j).prompt_text, Some("Once".to_string()));
    assert_eq!(read_request(RequestKind::Chat, &j).prompt_text, None);
}

#[test]
fn tool_calls_of_messages() {
    let r = chat(
        "{\"messages\":[{\"role\":\"assistant\",\"content\":null,\"reasoning_content\":\"hm\",\
         \"tool_calls\":[{\"id\":\"c1\",\"function\":{\"name\":\"f\",\"arguments\":\"{}\"}}]},\
         {\"role\":\"tool\",\"tool_call_id\":\"c1\",\"content\":\"ok\"}]}",
    );
    assert_eq!(r.messages.len(), 2);
    assert_eq!(r.messages[0].reasoning_content, Some("hm".to_string()));
    assert_eq!(r.messages[0].tool_calls.len(), 1);
    assert_eq!(r.messages[0].tool_calls[0].id, "c1");
    assert_eq!(r.messages[0].tool_calls[0].name, "f");
    assert_eq!(r.messages[0].tool_calls[0].arguments, "{}");
    assert_eq!(r.messages[1].tool_call_id, Some("c1".to_string()));
}

#[test]
fn bad_requests() {
    match parse_request_body("POST", "/nope", "{}") {
        Err(RequestError::UnknownPath(p)) => assert_eq!(p, "/nope"),
        _ => panic!("accepted"),
    }
    match parse_request_body("GET", "/v1/completions", "{}") {
        Err(RequestError::MethodNotAllowed(m)) => assert_eq!(m, "GET"),
        _ => panic!("accepted"),
    }
    match parse_request_body("POST", "/v1/completions", "{") {
        Err(e) => assert_eq!(e.message(), "failed to parse JSON request body"),
        _ => panic!("accepted"),
    }
    assert_eq!(
        parse_request_body("POST", "/nope", "{}").err().unwrap().message(),
        "unknown path: /nope"
    );
    assert!(parse_request_body("GET", "/health", "").is_ok());
    assert!(parse_request_body("GET", "/v1/models", "").unwrap().1);
}

// ── Streaming ──

#[test]
fn reasoning_is_split_off() {
    let (content, reasoning) = split_reasoning_content("<think>why</think>because");
    assert_eq!(content, "because");
    assert_eq!(reasoning, "why");
    let (content, reasoning) = split_reasoning_content("plain");
    assert_eq!(content, "plain");
    assert_eq!(reasoning, "");
}

#[test]
fn streamed_tool_calls_come_back() {
    let block = "<tool_calls><invoke name=\"f\"></invoke></tool_calls>";
    for content in ["", "hi", "a much longer piece of content than the whole block of calls that \
        follows it, so that the block is the shorter part of the two, by far - é"]
    {
        let mut state = StreamState::new(false);
        let events = process_streaming_text(&mut state, &format!("{content}{block}"), true, true);
        let calls = if content.is_empty() {
            &events[..]
        } else {
            assert!(matches!(&events[0], StreamEvent::Token(t) if t == content));
            &events[1..]
        };
        assert_eq!(calls.len(), 1);
        match &calls[0] {
            StreamEvent::ToolCall(c) => {
                assert_eq!(c.name, "f");
                assert_eq!(c.arguments, "{}");
                assert_eq!(state.tool_calls.len(), 1);
                assert_eq!(state.tool_calls[0].id, c.id);
            }
            _ => panic!("no call"),
        }
        assert_eq!(state.emit_pos, content.len());
        assert_eq!(state.mode, StreamMode::Done);
    }
}

#[test]
fn content_follows_the_reasoning() {
    let mut state = StreamState::new(true);
    let text = "<think>why é</think>because";
    let events = process_streaming_text(&mut state, text, false, false);
    assert_eq!(events.len(), 1);
    assert!(matches!(&events[0], StreamEvent::ReasoningToken(t) if t == "why é"));
    assert_eq!(&text[state.emit_pos..], "because");
    let events = process_streaming_text(&mut state, text, false, true);
    assert_eq!(events.len(), 1);
    assert!(matches!(&events[0], StreamEvent::Token(t) if t == "because"));
    // A text that starts with long characters can be streamed as a whole.
    let mut state = StreamState::new(true);
    assert!(state.can_step("这是一个", true));
    let events = process_streaming_text(&mut state, "这是一个", false, true);
    assert!(matches!(&events[0], StreamEvent::ReasoningToken(t) if t == "这是一个"));
    // A step must not cut a character.
    assert!(!StreamState::new(true).can_step("这是一个", false));
}

#[test]
fn a_whole_answer_streams() {
    let mut state = StreamState::new(false);
    assert!(state.can_step("Hello", true));
    let events = process_streaming_text(&mut state, "Hello", false, true);
    match &events[0] {
        StreamEvent::Token(t) => assert_eq!(t, "Hello"),
        _ => panic!("no token"),
    }
    assert!(state.sent_content);
    let mut state = StreamState::new(true);
    assert_eq!(state.mode, StreamMode::Thinking);
    let events = process_streaming_text(&mut state, "<think>hm", false, false);
    assert!(events.iter().all(|e| matches!(e, StreamEvent::ReasoningToken(_))));
}

fn label() -> StreamLabel {
    StreamLabel { id: "id".to_string(), created: 7, model: "m".to_string() }
}

#[test]
fn streams_end_with_the_mark() {
    let finish = StreamEvent::Finish {
        content: "c".to_string(),
        reasoning: "r".to_string(),
        tool_calls: vec![],
        finish_reason: "stop".to_string(),
    };
    let (frames, done) = stream_frames(&label(), &finish);
    assert!(done);
    assert_eq!(frames[frames.len() - 1], "data: [DONE]\n\n");
    let (frames, done) = stream_frames(&label(), &StreamEvent::Token("x".to_string()));
    assert!(!done);
    assert_eq!(frames.len(), 1);
    let text = frames[0].strip_prefix("data: ").unwrap().trim();
    let v: Value = serde_json::from_str(text).unwrap();
    assert_eq!(v["choices"][0]["delta"]["content"], "x");
    assert_eq!(v["id"], "id");
    assert_eq!(v["created"], 7);
    let (frames, _) = stream_frames(&label(), &StreamEvent::ReasoningToken("y".to_string()));
    assert!(frames[0].contains("\"reasoning_content\":\"y\""));
    let (frames, _) = stream_frames(&label(), &StreamEvent::ToolCall(call("f", "{}")));
    assert!(frames[0].contains("\"tool_calls\""));
    let (frames, done) = stream_frames(&label(), &StreamEvent::Error("bad".to_string()));
    assert!(done);
    assert!(frames[0].contains("bad"));
}

// ── Answers ──

fn answer() -> ResponseData {
    ResponseData {
        content: "hi".to_string(),
        reasoning: "".to_string(),
        tool_calls: vec![],
        finish_reason: "stop".to_string(),
        prompt_tokens: 3,
        completion_tokens: 4,
    }
}

#[test]
fn answers_are_built() {
    let text = build_openai_response("id", "m", 9, &answer());
    let v: Value = serde_json::from_str(&text).unwrap();
    assert_eq!(v["id"], "id");
    assert_eq!(v["model"], "m");
    assert_eq!(v["created"], 9);
    assert_eq!(v["choices"][0]["message"]["content"], "hi");
    assert_eq!(v["choices"][0]["finish_reason"], "stop");
    assert_eq!(v["usage"]["prompt_tokens"], 3);
    assert_eq!(v["usage"]["completion_tokens"], 4);
    assert_eq!(v["usage"]["total_tokens"], 7);
}

fn body_of(response: &[u8]) -> Value {
    let text = String::from_utf8(response.to_vec()).unwrap();
    let at = text.find("\r\n\r\n").unwrap();
    serde_json::from_str(&text[at + 4..]).unwrap()
}

#[test]
fn outcomes_are_answered() {
    let ok = respond_outcome("id", "m", 9, &JobOutcome::Complete(answer()));
    assert!(ok.starts_with(b"HTTP/1.1 200 OK\r\n"));
    assert_eq!(body_of(&ok)["choices"][0]["message"]["content"], "hi");
    let failed = respond_outcome("id", "m", 9, &JobOutcome::Failed(400, "no".to_string()));
    assert!(failed.starts_with(b"HTTP/1.1 400 Bad Request\r\n"));
    assert_eq!(body_of(&failed)["error"]["message"], "no");
    let gone = respond_outcome("id", "m", 9, &JobOutcome::WorkerGone);
    assert!(gone.starts_with(b"HTTP/1.1 503"));
    assert_eq!(body_of(&respond_busy("full"))["error"]["message"], "Server busy: full");
    assert_eq!(body_of(&respond_unreadable("x"))["error"]["message"], "Bad request: x");
    assert!(stream_busy().starts_with("data: {"));
    let frames = stream_failure(500, "x");
    assert!(frames[0].contains("\"message\":\"x\""));
    assert_eq!(frames[frames.len() - 1], "data: [DONE]\n\n");
    assert_eq!(
        stream_outcome(&JobOutcome::Failed(400, "no".to_string())),
        stream_failure(400, "no")
    );
    assert_eq!(stream_outcome(&JobOutcome::WorkerGone), stream_failure(500, "Unexpected response"));
    assert_eq!(
        stream_outcome(&JobOutcome::Complete(answer())),
        stream_failure(500, "Unexpected response")
    );
}

#[test]
fn routes() {
    match route("GET", "/health", "", "m", 5) {
        Route::Respond(b) => assert_eq!(body_of(&b)["status"], "ok"),
        _ => panic!("generates"),
    }
    match route("GET", "/v1/models", "", "m", 5) {
        Route::Respond(b) => assert_eq!(body_of(&b)["data"][0]["id"], "m"),
        _ => panic!("generates"),
    }
    match route("POST", "/v1/chat/completions", "{}", "m", 5) {
        Route::Generate(r) => assert_eq!(r.kind, RequestKind::Chat),
        _ => panic!("responds"),
    }
    match route("POST", "/v1/chat/completions", "{", "m", 5) {
        Route::Respond(b) => assert!(b.starts_with(b"HTTP/1.1 400")),
        _ => panic!("generates"),
    }
}

// ── HTTP ──

#[test]
fn http_texts() {
    assert_eq!(sse_data("x"), "data: x\n\n");
    assert_eq!(sse_event("e", "x"), "event: e\ndata: x\n\n");
    assert!(sse_headers().ends_with("\r\n\r\n"));
    let r = String::from_utf8(http_response(200, "text/plain", "é")).unwrap();
    assert!(r.starts_with("HTTP/1.1 200 OK\r\n"));
    assert!(r.contains("Content-Length: 2\r\n"));
    assert!(r.ends_with("\r\n\r\né"));
    let e: Value = serde_json::from_str(&json_error(404, "m")).unwrap();
    assert_eq!(e["error"]["message"], "m");
    assert_eq!(request_id_of(255, 16), "chatcmpl-ff10");
    assert!(make_request_id(1).starts_with("chatcmpl-1"));
}

fn done(step: ReadStep) -> ds4::http::HttpRequest {
    match step {
        ReadStep::Done(r) => r,
        ReadStep::More => panic!("more"),
        ReadStep::Failed(e) => panic!("failed: {}", e.message()),
    }
}

#[test]
fn requests_arrive_in_pieces() {
    let raw = b"POST /v1/completions HTTP/1.1\r\nHost: x\r\nContent-Length: 5\r\n\r\nhello";
    for cut in 1..raw.len() {
        let mut reader = HttpReader::new();
        match reader.received(&raw[..cut]) {
            ReadStep::More => {}
            _ => panic!("done at {}", cut),
        }
        let r = done(reader.received(&raw[cut..]));
        assert_eq!(r.method, "POST");
        assert_eq!(r.path, "/v1/completions");
        assert_eq!(r.version, "HTTP/1.1");
        assert_eq!(r.body, "hello");
        assert!(r.headers.iter().any(|h| h.name == "host" && h.value == "x"));
    }
}

#[test]
fn chunks_arrive_in_pieces() {
    let raw = b"POST /x HTTP/1.1\r\nTransfer-Encoding: chunked\r\n\r\n5\r\nhello\r\n0\r\n\r\n";
    let whole = done(HttpReader::new().received(raw));
    for cut in 1..raw.len() {
        let mut reader = HttpReader::new();
        if matches!(reader.received(&raw[..cut]), ReadStep::More) {
            let r = done(reader.received(&raw[cut..]));
            assert_eq!(r.path, whole.path);
            assert_eq!(r.body, whole.body);
        }
    }
}

#[test]
fn requests_end_early() {
    let mut reader = HttpReader::new();
    reader.received(b"GET / HTTP/1.1\r\nContent-Length: 5\r\n\r\nhe");
    assert_eq!(done(reader.ended()).body, "he");
    let mut reader = HttpReader::new();
    reader.received(b"GET / HT");
    match reader.ended() {
        ReadStep::Failed(HttpError::Incomplete) => {}
        _ => panic!("not incomplete"),
    }
    let mut reader = HttpReader::new();
    match reader.received(&vec![b'a'; 1 << 20]) {
        ReadStep::Failed(HttpError::TooLarge) => {}
        _ => panic!("not too large"),
    }
}

#[test]
fn request_heads() {
    let head = b"GET /health HTTP/1.0\r\nX-Up: Yes\r\n\r\n".to_vec();
    let r = parse_http_request(&head, &vec![]).unwrap();
    assert_eq!(r.path, "/health");
    assert_eq!(r.version, "HTTP/1.0");
    assert_eq!(r.headers[0].name, "x-up");
    assert_eq!(r.headers[0].value, "Yes");
    assert!(matches!(parse_http_request(&vec![0xff], &vec![]), Err(HttpError::NotUtf8)));
    let head = "GET / HTTP/1.1\r\nÄ-ÖX: Ü\r\n\r\n".as_bytes().to_vec();
    let r = parse_http_request(&head, &vec![b'a', 0xff]).unwrap();
    assert_eq!(r.headers[0].name, "ä-öx");
    assert_eq!(r.headers[0].value, "Ü");
    assert_eq!(r.body, "a\u{FFFD}");
}

// ── Server options ──

#[test]
fn server_options() {
    let c = parse_args(&strings(&["ds4-server", "--port", "9000", "--cpu"])).unwrap();
    assert_eq!(c.port, 9000);
    assert_eq!(server_engine_options(&c).backend, Backend::Cpu);
    assert!(parse_args(&strings(&["ds4-server", "--help"])).is_none());
}

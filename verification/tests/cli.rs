use ds4::engine::Engine;
use ds4::generate::{
    complete_job, prepare_job, render_prompt, stream_job, FinishReason, Generation, JobError,
};
use ds4::gguf::{KvEntry, MetadataValue, ModelGGUF, TensorInfo};
use ds4::number::{parse_integer, parse_natural};
use ds4::options::{CliConfig, GenOptions, OptionParser, ParseStep};
use ds4::printer::TokenPrinter;
use ds4::repl::{
    build_prompt, file_read, parse_command, plan_run, repl_help, think_max_downgraded, Command,
    Line, Next, Repl, RunStep,
};
use ds4::request::{parse_request_body, Request};
use ds4::session::Session;
use ds4::stream::StreamEvent;
use ds4::tokenizer::Vocab;
use ds4::types::{Backend, ThinkMode, TokenVec};
use ds4::weights::Weights;

fn strings(v: &[&str]) -> Vec<String> {
    v.iter().map(|s| s.to_string()).collect()
}

fn texts(v: &[&str]) -> MetadataValue {
    MetadataValue::Array(v.iter().map(|s| MetadataValue::String(s.to_string())).collect())
}

/// An engine whose tokens are the characters that GPT-2 prints for single bytes.
fn engine() -> Engine {
    let mut all: Vec<String> = (33u8..127).map(|b| (b as char).to_string()).collect();
    all.push("Ġ".to_string());
    all.push("Ċ".to_string());
    all.push("<think>".to_string());
    all.push("</think>".to_string());
    let names: Vec<&str> = all.iter().map(|s| s.as_str()).collect();
    let kv = vec![
        KvEntry { key: "tokenizer.ggml.tokens".to_string(), value: texts(&names) },
        KvEntry { key: "tokenizer.ggml.merges".to_string(), value: texts(&[]) },
    ];
    let model = ModelGGUF {
        version: 3,
        n_kv: 2,
        n_tensors: 0,
        alignment: 32,
        tensor_data_pos: 0,
        kv,
        tensors: vec![],
        file_len: 0,
    };
    let vocab = Vocab::load(&model).unwrap();
    let t = || TensorInfo {
        name: "t".to_string(),
        ndim: 1,
        dims: vec![1],
        tensor_type: 0,
        abs_offset: 0,
        rel_offset: 0,
        elements: 1,
        bytes: 4,
    };
    Engine {
        model,
        weights: Weights {
            token_embd: t(),
            output_hc_base: t(),
            output_hc_fn: t(),
            output_hc_scale: t(),
            output_norm: t(),
            output: t(),
            layer: vec![],
        },
        mtp_model: None,
        mtp_weights: None,
        vocab,
        backend: Backend::Cpu,
        mtp_draft_tokens: 1,
        mtp_margin: 0,
        quality: false,
        metal_initialized: false,
        mtp_ready: false,
    }
}

// ── Numbers ──

#[test]
fn numbers_are_read() {
    for s in ["0", "7", "+7", "-7", "007", "2147483647", "2147483648", "", "+", "-", "7 ", "x",
        "9223372036854775807", "-9223372036854775808", "9223372036854775808", "٣"]
    {
        assert_eq!(parse_integer(s), s.parse::<i64>().ok(), "{}", s);
        assert_eq!(parse_natural(s, 10, u64::MAX), s.parse::<u64>().ok(), "{}", s);
        assert_eq!(parse_natural(s, 10, 65535), s.parse::<u16>().ok().map(u64::from), "{}", s);
        assert_eq!(parse_natural(s, 16, u64::MAX), u64::from_str_radix(s, 16).ok(), "{}", s);
    }
    assert_eq!(parse_natural("fF", 16, u64::MAX), Some(255));
    assert_eq!(parse_natural("fg", 16, u64::MAX), None);
}

// ── Options ──

fn parse(args: &[&str]) -> (CliConfig, ParseStep) {
    let args = strings(args);
    let (p, step) = OptionParser::new().parse_options(&args);
    (p.cfg, step)
}

#[test]
fn options_are_read() {
    let (c, step) = parse(&[
        "-m", "model.gguf", "-p", "Hi", "-n", "12", "--ctx", "1000", "--temp", "0.5", "--top-p",
        "0.9", "--seed", "99", "--cpu", "--nothink", "--quality", "--system", "",
    ]);
    assert!(matches!(step, ParseStep::Done));
    assert_eq!(c.engine.model_path, "model.gguf");
    assert_eq!(c.gen.prompt, Some("Hi".to_string()));
    assert_eq!(c.gen.n_predict, 12);
    assert_eq!(c.gen.ctx_size, 1000);
    assert_eq!(c.gen.temperature, 0.5f32.to_bits());
    assert_eq!(c.gen.top_p, 0.9f32.to_bits());
    assert_eq!(c.gen.seed, 99);
    assert_eq!(c.engine.backend, Backend::Cpu);
    assert!(c.engine.quality);
    assert_eq!(c.gen.think_mode, ThinkMode::Off);
    assert_eq!(c.gen.system, "");
    assert!(!c.inspect);
}

#[test]
fn option_files_and_help() {
    let args = strings(&["--prompt-file", "f.txt", "--inspect"]);
    let (mut p, step) = OptionParser::new().parse_options(&args);
    match step {
        ParseStep::ReadFile(f) => assert_eq!(f, "f.txt"),
        _ => panic!("no file"),
    }
    p.file_read("content".to_string());
    let (p, step) = p.parse_options(&args);
    assert!(matches!(step, ParseStep::Done));
    assert!(p.cfg.inspect);
    assert_eq!(p.cfg.gen.prompt, Some("content".to_string()));
    assert!(matches!(parse(&["--help"]).1, ParseStep::Help));
}

fn fault(args: &[&str]) -> (String, i32) {
    match parse(args).1 {
        ParseStep::Failed(e) => (e.message(), e.exit_status()),
        _ => panic!("accepted"),
    }
}

#[test]
fn bad_options() {
    assert_eq!(fault(&["-p"]), ("ds4: missing value for -p".to_string(), 2));
    assert_eq!(fault(&["-n", "x"]), ("ds4: invalid value for -n: x".to_string(), 2));
    assert_eq!(fault(&["-n", "0"]), ("ds4: invalid value for -n: 0".to_string(), 2));
    assert_eq!(
        fault(&["-p", "a", "-p", "b"]),
        ("ds4: specify only one prompt source".to_string(), 2)
    );
    assert_eq!(fault(&["--nope"]).0, "ds4: unknown option: --nope");
    assert_eq!(fault(&["--top-p", "7"]).1, 2);
    assert_eq!(fault(&["--temp", "warm"]).1, 2);
    assert_eq!(fault(&["--temp", "NaN"]).1, 2);
    assert_eq!(fault(&["--temp", "inf"]).1, 2);
    assert_eq!(parse(&["--temp", "1e-1"]).0.gen.temperature, 0.1f32.to_bits());
    assert_eq!(parse(&["--mtp-margin", "1000"]).0.engine.mtp_margin, 1000f32.to_bits());
}

// ── Printer ──

#[test]
fn thinking_is_coloured() {
    let mut p = TokenPrinter::new(true, true);
    let mut out = String::new();
    for piece in ["<thi", "nk>a", "b</think", ">c\n"] {
        out.push_str(&p.write_text(piece.as_bytes()));
    }
    out.push_str(&p.close());
    let mut q = TokenPrinter::new(true, true);
    let mut whole = q.write_text(b"<think>ab</think>c\n");
    whole.push_str(&q.close());
    assert_eq!(out, whole);
    assert!(out.contains("\x1b["));
    assert!(!out.contains("<think>"));
    let mut r = TokenPrinter::new(true, false);
    let mut plain = r.write_text(b"<think>ab</think>c");
    plain.push_str(&r.close());
    assert!(!plain.contains('\x1b'));
    assert!(plain.ends_with('\n'));
}

#[test]
fn plain_text_is_printed_as_it_is() {
    let mut p = TokenPrinter::new(false, true);
    assert_eq!(p.write_text(b"<think>x"), "<think>x");
    assert_eq!(p.finish(), "");
    assert_eq!(p.close(), "\n");
    let mut p = TokenPrinter::new(false, false);
    assert_eq!(p.write_text(b"x\n"), "x\n");
    assert_eq!(p.close(), "");
}

// ── Interactive prompt ──

#[test]
fn commands() {
    let show = |s: &str| format!("{:?}", parse_command(s));
    assert_eq!(show("  \n"), "Nothing");
    assert_eq!(show("/help\n"), "Help");
    assert_eq!(show(" /think "), "Think");
    assert_eq!(show("/think-max"), "ThinkMax");
    assert_eq!(show("/nothink"), "NoThink");
    assert_eq!(show("/ctx 4096"), "Ctx(4096)");
    assert_eq!(show("/ctx+7"), "Ctx(7)");
    assert_eq!(show("/ctx"), "BadCtx");
    assert_eq!(show("/ctx 0"), "BadCtx");
    assert_eq!(show("/ctx 2147483648"), "BadCtx");
    assert_eq!(show("/ctx four"), "BadCtx");
    assert_eq!(show("/read  a b "), "Read(\"a b\")");
    assert_eq!(show("/read"), "BadRead");
    assert_eq!(show("/quit"), "Quit");
    assert_eq!(show("/exit"), "Quit");
    assert_eq!(show("/thinking"), "Unknown(\"/thinking\")");
    assert_eq!(show(" hello \n"), "Say(\"hello\")");
    assert!(matches!(parse_command("x"), Command::Say(_)));
}

fn shown(lines: &[Line]) -> Vec<String> {
    lines
        .iter()
        .map(|l| match l {
            Line::Out(s) => format!("out: {s}"),
            Line::Err_(s) => format!("err: {s}"),
            Line::Info(s) => format!("info: {s}"),
            Line::Warn(s) => format!("warn: {s}"),
        })
        .collect()
}

#[test]
fn effort_comes_and_goes_with_the_context() {
    let e = engine();
    let gen = GenOptions { think_mode: ThinkMode::Max, ..GenOptions::default() };
    let mut r = Repl::new(&e, Backend::Cpu, &gen, true);
    assert_eq!(r.conversation.transcript.v, vec![e.vocab.bos_id]);
    let (lines, next) = r.step(&e, "/ctx 400000");
    assert!(shown(&lines)[0].starts_with("info: context buffers "));
    assert!(matches!(next, Next::NewSession));
    assert!(r.conversation.max_prefix_tokens > 0);
    assert_eq!(r.conversation.transcript.v.len(), 1 + r.conversation.max_prefix_tokens);
    assert!(shown(&r.new_session(None)).is_empty());
    let (lines, _) = r.step(&e, "/think-max");
    assert_eq!(shown(&lines), vec!["out: Thinking mode: max."]);
    let (lines, _) = r.step(&e, "/think");
    assert_eq!(shown(&lines), vec!["out: Thinking mode: high."]);
    assert_eq!(r.conversation.transcript.v, vec![e.vocab.bos_id]);
    r.step(&e, "/ctx 100");
    let (lines, _) = r.step(&e, "/think-max");
    assert_eq!(
        shown(&lines),
        vec![
            "warn: --think-max needs --ctx >= 393216; ctx=100 uses normal thinking instead",
            "out: Thinking mode: high (ctx below 393216).",
        ]
    );
    assert!(think_max_downgraded(ThinkMode::Max, 100));
    assert!(think_max_downgraded(ThinkMode::Max, -1));
    assert!(!think_max_downgraded(ThinkMode::High, 100));
    assert_eq!(
        shown(&r.new_session(Some("no room"))),
        vec![
            "err: ds4: failed to recreate session: no room",
            "warn: --think-max needs --ctx >= 393216; ctx=100 uses normal thinking instead",
        ]
    );
    let (lines, _) = r.step(&e, "hello");
    assert_eq!(shown(&lines), vec!["err: ds4: session unavailable; cannot generate"]);
    let (lines, _) = r.step(&e, "/nothink");
    assert_eq!(shown(&lines), vec!["out: Thinking mode: none."]);
}

#[test]
fn prompt_answers() {
    let e = engine();
    let mut r = Repl::new(&e, Backend::Cpu, &GenOptions::default(), true);
    assert_eq!(r.step(&e, "/help").0.len(), repl_help().len());
    assert_eq!(shown(&repl_help())[0], "out: Commands:");
    let (lines, next) = r.step(&e, "/what");
    assert_eq!(
        shown(&lines),
        vec!["err: ds4: unknown command: /what", "err: ds4: type /help for commands"]
    );
    assert!(matches!(next, Next::Prompt));
    assert!(matches!(r.step(&e, "/quit").1, Next::Leave));
    match r.step(&e, "/read file").1 {
        Next::ReadFile(f) => assert_eq!(f, "file"),
        _ => panic!("no file"),
    }
    assert_eq!(
        shown(&r.step(&e, "/ctx x").0),
        vec!["err: ds4: /ctx needs a positive integer"]
    );
    assert_eq!(shown(&r.step(&e, "/read").0), vec!["err: ds4: /read needs a file path"]);
    assert_eq!(
        shown(&file_read("f", Err("gone"))),
        vec!["err: ds4: failed to read file 'f': gone"]
    );
    assert!(shown(&file_read("f", Ok(12)))[0].contains("'f' (12)"));
}

#[test]
fn runs_are_planned() {
    let mut g = GenOptions::default();
    assert_eq!(plan_run(&g, false), vec![RunStep::Sample]);
    g.temperature = 0;
    assert_eq!(plan_run(&g, false), vec![RunStep::Greedy]);
    assert_eq!(plan_run(&g, true), vec![RunStep::Sample]);
    g.dump_tokens = true;
    g.head_test = true;
    assert_eq!(
        plan_run(&g, true),
        vec![RunStep::HeadTest, RunStep::DumpTokens, RunStep::DumpTokens, RunStep::DiagnosticDone]
    );
    g.dump_logprobs_path = Some("f".to_string());
    assert_eq!(
        plan_run(&g, true),
        vec![RunStep::HeadTest, RunStep::DumpTokens, RunStep::DumpLogprobs]
    );
    g.metal_graph_test = true;
    g.metal_graph_full_test = true;
    assert_eq!(plan_run(&g, true)[2], RunStep::MetalGraphTest);
}

#[test]
fn prompts_of_runs() {
    let e = engine();
    let g = GenOptions {
        prompt: Some("ab".to_string()),
        system: String::new(),
        think_mode: ThinkMode::Off,
        ..GenOptions::default()
    };
    let mut want = TokenVec::new();
    e.encode_chat_prompt(None, "ab", ThinkMode::Off, &mut want);
    assert_eq!(build_prompt(&e, &g).v, want.v);
    let g = GenOptions {
        prompt: Some("<｜begin▁of▁sentence｜>a<think>b".to_string()),
        ..GenOptions::default()
    };
    assert_eq!(
        build_prompt(&e, &g).v,
        e.tokenize_rendered("<｜begin▁of▁sentence｜>a<think>b").v
    );
}

// ── Jobs ──

fn request(body: &str) -> Request {
    parse_request_body("POST", "/v1/completions", body).unwrap().0
}

#[test]
fn jobs_are_prepared() {
    let e = engine();
    let req = request("{\"prompt\":\"ab\",\"thinking\":false}");
    assert!(render_prompt(&req).ends_with("<｜User｜>ab<｜Assistant｜></think>"));
    let mut s = Session::new(4096).unwrap();
    let mut p = Vec::new();
    let n = prepare_job(&e, &mut s, &req, &mut p).unwrap();
    assert_eq!(n, s.pos());
    assert!(n > 10);
    let mut s = Session::new(4).unwrap();
    assert_eq!(
        prepare_job(&e, &mut s, &req, &mut p).err(),
        Some(JobError::PromptExceedsContext)
    );
    assert_eq!(JobError::PromptExceedsContext.code(), 500);
    assert_eq!(JobError::EmptyPrompt.code(), 400);
    assert_eq!(JobError::EmptyPrompt.message(), "Empty prompt after tokenization");
}

fn generated(text: &str, max: i32, stops: &[&str]) -> Generation {
    generated_in(256, text, max, stops)
}

fn generated_in(ctx: u32, text: &str, max: i32, stops: &[&str]) -> Generation {
    let e = engine();
    let mut s = Session::new(ctx).unwrap();
    s.sync(&TokenVec { v: vec![1] }, &mut Vec::new()).unwrap();
    let mut g = Generation::new(max);
    for t in e.tokenize(text).v {
        if !g.wants_token() || g.accept(&e, &mut s, t, &strings(stops)) {
            break;
        }
    }
    g
}

#[test]
fn generations_stop() {
    let g = generated("hello", 100, &[]);
    assert_eq!(g.text, "hello");
    assert_eq!(g.count, 5);
    let g = generated("hello", 3, &[]);
    assert_eq!(g.text, "hel");
    assert_eq!(complete_job(&g, 1).finish_reason, "stop");
    // The context is full.
    let g = generated_in(6, "hello", 100, &[]);
    assert_eq!(g.text, "hell");
    assert_eq!(complete_job(&g, 1).finish_reason, "length");
    let g = generated("hello world", 100, &["lo", "wor"]);
    assert_eq!(g.text, "hel");
    assert!(!g.text.contains("lo"));
    assert_eq!(complete_job(&g, 1).finish_reason, "stop");
    assert!(!Generation::new(0).wants_token());
    assert_eq!(FinishReason::Length.name(), "length");
}

#[test]
fn finished_jobs() {
    let g = generated("<think>why</think>so", 100, &[]);
    let r = complete_job(&g, 7);
    assert_eq!(r.reasoning, "why");
    assert_eq!(r.content, "so");
    assert_eq!(r.prompt_tokens, 7);
    assert_eq!(r.completion_tokens, g.count);
    let text = "hi<tool_calls><invoke name=\"f\"></invoke></tool_calls>";
    let mut g = Generation::new(5);
    g.text = text.to_string();
    let events = stream_job(&g, false, true);
    assert_eq!(events.len(), 3);
    assert!(matches!(&events[0], StreamEvent::Token(t) if t == "hi"));
    assert!(matches!(&events[1], StreamEvent::ToolCall(c) if c.name == "f"));
    match &events[2] {
        StreamEvent::Finish { tool_calls, .. } => assert_eq!(tool_calls[0].name, "f"),
        _ => panic!("no end"),
    }
    let events = stream_job(&generated("hi", 100, &[]), false, false);
    assert!(matches!(&events[0], StreamEvent::Token(t) if t == "hi"));
    match &events[events.len() - 1] {
        StreamEvent::Finish { content, .. } => assert_eq!(content, "hi"),
        _ => panic!("no end"),
    }
}

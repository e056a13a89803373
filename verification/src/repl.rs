//! The interactive prompt and the one-shot run: what the user's words call for.
use vstd::prelude::*;

use crate::chat::{chat_prompt, max_effort_tokens, rendered_tokens};
use crate::engine::Engine;
use crate::number::{integer, parse_integer};
use crate::options::{gen_settings, GenOptions, GenSettings};
use crate::report::{context_memory_line, memory_text};
use crate::single::{greater, is_greater};
use crate::text::{
    append, char_match_at, chars_of, dec, dec_i64, dec_int, dec_u64, is_empty_text, matches_at,
    same_text, string_of, trim, trimmed,
};
use crate::tokenizer::VocabView;
use crate::types::{
    mode_for_context, think_max_prefix, think_mode_for_context, Backend, ThinkMode, TokenVec,
};

verus! {

// ── Prompt of a run ──────────────────────────────────────────────────────

/// The thinking mode that is in effect.
pub fn effective_think_mode(gen: &GenOptions) -> (r: ThinkMode)
    ensures
        r == mode_for_context(gen.think_mode, gen.ctx_size as int),
{
    think_mode_for_context(gen.think_mode, gen.ctx_size)
}

/// Whether the greatest effort was asked for and the context is too small for it.
pub open spec fn downgraded(mode: ThinkMode, ctx: i32) -> bool {
    mode == ThinkMode::Max && mode_for_context(mode, ctx as int) != ThinkMode::Max
}

pub fn think_max_downgraded(mode: ThinkMode, ctx_size: i32) -> (r: bool)
    ensures
        r == downgraded(mode, ctx_size),
{
    mode == ThinkMode::Max && think_mode_for_context(mode, ctx_size) != ThinkMode::Max
}

/// Whether a prompt is a conversation that is rendered already.
pub open spec fn is_rendered(prompt: Seq<char>) -> bool {
    matches_at(prompt, "<｜begin▁of▁sentence｜>"@, 0)
}

fn is_rendered_chat_prompt(prompt: &str) -> (r: bool)
    ensures
        r == is_rendered(prompt@),
{
    let p = chars_of(prompt);
    let mark = chars_of("<｜begin▁of▁sentence｜>");
    char_match_at(&p, &mark, 0)
}

/// The tokens of the prompt of a run.
pub open spec fn run_prompt(v: VocabView, g: GenSettings) -> Seq<i32> {
    let prompt = match g.prompt {
        Some(p) => p,
        None => Seq::empty(),
    };
    if is_rendered(prompt) {
        rendered_tokens(v, prompt)
    } else {
        chat_prompt(
            v,
            if g.system.len() == 0 {
                None
            } else {
                Some(g.system)
            },
            prompt,
            mode_for_context(g.think_mode, g.ctx_size as int),
        )
    }
}

/// The tokens of the prompt of a run.
pub fn build_prompt(engine: &Engine, gen: &GenOptions) -> (r: TokenVec)
    ensures
        r@ == run_prompt(engine@.vocab, gen_settings(*gen)),
{
    let prompt = match &gen.prompt {
        Some(p) => p.as_str(),
        None => {
            proof {
                reveal_strlit("");
                assert(""@ =~= Seq::empty());
            }
            ""
        },
    };
    let mode = effective_think_mode(gen);
    if is_rendered_chat_prompt(prompt) {
        engine.tokenize_rendered(prompt)
    } else {
        let system = if is_empty_text(gen.system.as_str()) {
            None
        } else {
            Some(gen.system.as_str())
        };
        let mut out = TokenVec::new();
        engine.encode_chat_prompt(system, prompt, mode, &mut out);
        assert(out@ =~= run_prompt(engine@.vocab, gen_settings(*gen)));
        out
    }
}

/// The steps of a run.
#[derive(Debug, Clone, Copy, PartialEq, Eq, Structural)]
pub enum RunStep {
    HeadTest,
    FirstTokenTest,
    DumpTokens,
    MetalGraphTest,
    MetalGraphFullTest,
    MetalGraphPromptTest,
    DumpLogprobs,
    DiagnosticDone,
    Sample,
    Greedy,
}

pub open spec fn step_if(cond: bool, s: RunStep) -> Seq<RunStep> {
    if cond {
        seq![s]
    } else {
        Seq::empty()
    }
}

/// The last steps of a run: a test on the device, the dump of the probabilities, the end
/// of a diagnostic run, or the generation, which samples unless the temperature is zero
/// and there is no draft model.
pub open spec fn run_ending(g: GenSettings, has_mtp: bool) -> Seq<RunStep> {
    if g.metal_graph_test {
        seq![RunStep::MetalGraphTest]
    } else if g.metal_graph_full_test {
        seq![RunStep::MetalGraphFullTest]
    } else if g.metal_graph_prompt_test {
        seq![RunStep::MetalGraphPromptTest]
    } else if g.dump_logprobs_path is Some {
        seq![RunStep::DumpLogprobs]
    } else if g.dump_tokens || g.head_test || g.first_token_test {
        step_if(g.dump_tokens, RunStep::DumpTokens) + seq![RunStep::DiagnosticDone]
    } else if greater(g.temperature, 0) || has_mtp {
        seq![RunStep::Sample]
    } else {
        seq![RunStep::Greedy]
    }
}

/// The steps of a run.
pub open spec fn run_steps(g: GenSettings, has_mtp: bool) -> Seq<RunStep> {
    step_if(g.head_test, RunStep::HeadTest) + step_if(
        g.first_token_test,
        RunStep::FirstTokenTest,
    ) + step_if(g.dump_tokens, RunStep::DumpTokens) + run_ending(g, has_mtp)
}

/// The steps of a run.
pub fn plan_run(gen: &GenOptions, has_mtp: bool) -> (steps: Vec<RunStep>)
    ensures
        steps@ == run_steps(gen_settings(*gen), has_mtp),
{
    let ghost g = gen_settings(*gen);
    let mut steps: Vec<RunStep> = Vec::new();
    if gen.head_test {
        steps.push(RunStep::HeadTest);
    }
    if gen.first_token_test {
        steps.push(RunStep::FirstTokenTest);
    }
    if gen.dump_tokens {
        steps.push(RunStep::DumpTokens);
    }
    let ghost head = step_if(g.head_test, RunStep::HeadTest) + step_if(
        g.first_token_test,
        RunStep::FirstTokenTest,
    ) + step_if(g.dump_tokens, RunStep::DumpTokens);
    assert(steps@ =~= head);
    if gen.metal_graph_test {
        steps.push(RunStep::MetalGraphTest);
    } else if gen.metal_graph_full_test {
        steps.push(RunStep::MetalGraphFullTest);
    } else if gen.metal_graph_prompt_test {
        steps.push(RunStep::MetalGraphPromptTest);
    } else if gen.dump_logprobs_path.is_some() {
        steps.push(RunStep::DumpLogprobs);
    } else if gen.dump_tokens || gen.head_test || gen.first_token_test {
        if gen.dump_tokens {
            steps.push(RunStep::DumpTokens);
        }
        steps.push(RunStep::DiagnosticDone);
    } else if is_greater(gen.temperature, 0) || has_mtp {
        steps.push(RunStep::Sample);
    } else {
        steps.push(RunStep::Greedy);
    }
    assert(steps@ =~= head + run_ending(g, has_mtp));
    steps
}

// ── Commands ─────────────────────────────────────────────────────────────

/// What a line at the interactive prompt calls for.
#[derive(Debug)]
pub enum Command {
    Nothing,
    Help,
    Think,
    ThinkMax,
    NoThink,
    /// A new context size.
    Ctx(i32),
    /// The context size is missing or is no positive integer.
    BadCtx,
    /// A prompt in a file.
    Read(String),
    /// The file is missing.
    BadRead,
    Quit,
    Unknown(String),
    /// Words for the model.
    Say(String),
}

pub enum CommandView {
    Nothing,
    Help,
    Think,
    ThinkMax,
    NoThink,
    Ctx(i32),
    BadCtx,
    Read(Seq<char>),
    BadRead,
    Quit,
    Unknown(Seq<char>),
    Say(Seq<char>),
}

impl View for Command {
    type V = CommandView;

    open spec fn view(&self) -> CommandView {
        match *self {
            Command::Nothing => CommandView::Nothing,
            Command::Help => CommandView::Help,
            Command::Think => CommandView::Think,
            Command::ThinkMax => CommandView::ThinkMax,
            Command::NoThink => CommandView::NoThink,
            Command::Ctx(n) => CommandView::Ctx(n),
            Command::BadCtx => CommandView::BadCtx,
            Command::Read(p) => CommandView::Read(p@),
            Command::BadRead => CommandView::BadRead,
            Command::Quit => CommandView::Quit,
            Command::Unknown(c) => CommandView::Unknown(c@),
            Command::Say(s) => CommandView::Say(s@),
        }
    }
}

/// What stands behind a command word.
pub open spec fn operand(cmd: Seq<char>, word: Seq<char>) -> Seq<char> {
    trimmed(cmd.subrange(word.len() as int, cmd.len() as int))
}

/// The context size that an operand gives.
pub open spec fn ctx_command(s: Seq<char>) -> CommandView {
    match integer(s) {
        Some(n) => if 0 < n <= i32::MAX {
            CommandView::Ctx(n as i32)
        } else {
            CommandView::BadCtx
        },
        None => CommandView::BadCtx,
    }
}

/// What a line calls for.
pub open spec fn command_of(line: Seq<char>) -> CommandView {
    let cmd = trimmed(line);
    if cmd.len() == 0 {
        CommandView::Nothing
    } else if cmd == "/help"@ {
        CommandView::Help
    } else if cmd == "/think"@ {
        CommandView::Think
    } else if cmd == "/think-max"@ {
        CommandView::ThinkMax
    } else if cmd == "/nothink"@ {
        CommandView::NoThink
    } else if matches_at(cmd, "/ctx"@, 0) {
        ctx_command(operand(cmd, "/ctx"@))
    } else if matches_at(cmd, "/read"@, 0) {
        let path = operand(cmd, "/read"@);
        if path.len() == 0 {
            CommandView::BadRead
        } else {
            CommandView::Read(path)
        }
    } else if cmd == "/quit"@ || cmd == "/exit"@ {
        CommandView::Quit
    } else if cmd[0] == '/' {
        CommandView::Unknown(cmd)
    } else {
        CommandView::Say(cmd)
    }
}

/// What stands behind a command word.
fn read_operand(chars: &Vec<char>, word: &str) -> (r: Option<String>)
    ensures
        match r {
            Some(s) => matches_at(chars@, word@, 0) && s@ == operand(chars@, word@),
            None => !matches_at(chars@, word@, 0),
        },
{
    let w = chars_of(word);
    if char_match_at(chars, &w, 0) {
        let n: usize = chars.len();
        let rest = string_of(chars, w.len(), n);
        Some(trim(rest.as_str()))
    } else {
        None
    }
}

/// What a line calls for.
pub fn parse_command(line: &str) -> (r: Command)
    ensures
        r@ == command_of(line@),
{
    let cmd = trim(line);
    let text = cmd.as_str();
    if is_empty_text(text) {
        return Command::Nothing;
    }
    if same_text(text, "/help") {
        return Command::Help;
    }
    if same_text(text, "/think") {
        return Command::Think;
    }
    if same_text(text, "/think-max") {
        return Command::ThinkMax;
    }
    if same_text(text, "/nothink") {
        return Command::NoThink;
    }
    let chars = chars_of(text);
    match read_operand(&chars, "/ctx") {
        Some(s) => {
            return match parse_integer(s.as_str()) {
                Some(n) => {
                    if 0 < n && n <= 0x7fff_ffff {
                        Command::Ctx(n as i32)
                    } else {
                        Command::BadCtx
                    }
                },
                None => Command::BadCtx,
            };
        },
        None => {},
    }
    match read_operand(&chars, "/read") {
        Some(path) => {
            return if is_empty_text(path.as_str()) {
                Command::BadRead
            } else {
                Command::Read(path)
            };
        },
        None => {},
    }
    if same_text(text, "/quit") || same_text(text, "/exit") {
        return Command::Quit;
    }
    if chars[0] == '/' {
        Command::Unknown(cmd)
    } else {
        Command::Say(cmd)
    }
}

// ── Transcript ───────────────────────────────────────────────────────────

/// A conversation under way.
#[derive(Debug)]
pub struct Conversation {
    pub think_mode: ThinkMode,
    pub ctx_size: i32,
    pub transcript: TokenVec,
    /// Tokens of the prefix behind the first token.
    pub max_prefix_tokens: usize,
}

#[verifier::ext_equal]
pub struct ConversationView {
    pub think_mode: ThinkMode,
    pub ctx_size: i32,
    pub transcript: Seq<i32>,
    pub prefix: int,
}

impl View for Conversation {
    type V = ConversationView;

    open spec fn view(&self) -> ConversationView {
        ConversationView {
            think_mode: self.think_mode,
            ctx_size: self.ctx_size,
            transcript: self.transcript@,
            prefix: self.max_prefix_tokens as int,
        }
    }
}

impl ConversationView {
    /// Whether the greatest effort is in effect.
    pub open spec fn at_most_effort(self) -> bool {
        mode_for_context(self.think_mode, self.ctx_size as int) == ThinkMode::Max
    }

    /// The transcript carries the prefix of the greatest effort behind its first token
    /// exactly when that effort is in effect.
    pub open spec fn wf(self, v: VocabView) -> bool {
        let p = max_effort_tokens(v);
        &&& self.transcript.len() >= 1 + self.prefix
        &&& self.prefix == if self.at_most_effort() {
            p.len() as int
        } else {
            0
        }
        &&& self.transcript.subrange(1, 1 + self.prefix) == if self.at_most_effort() {
            p
        } else {
            Seq::empty()
        }
    }

    /// The transcript without the prefix.
    pub open spec fn words(self) -> Seq<i32> {
        seq![self.transcript[0]] + self.transcript.subrange(
            1 + self.prefix,
            self.transcript.len() as int,
        )
    }
}

/// The tokens with others behind the first one.
fn insert_tokens(tokens: &TokenVec, more: &TokenVec) -> (r: TokenVec)
    requires
        tokens@.len() >= 1,
    ensures
        r@ == seq![tokens@[0]] + more@ + tokens@.subrange(1, tokens@.len() as int),
{
    let n: usize = tokens.len();
    let mut v: Vec<i32> = Vec::new();
    v.push(tokens.v[0]);
    v.extend_from_slice(more.v.as_slice());
    v.extend_from_slice(vstd::slice::slice_subrange(tokens.v.as_slice(), 1, n));
    assert(v@ =~= seq![tokens@[0]] + more@ + tokens@.subrange(1, n as int));
    TokenVec { v }
}

/// The tokens without `count` of them behind the first one.
fn remove_tokens(tokens: &TokenVec, count: usize) -> (r: TokenVec)
    requires
        tokens@.len() >= 1 + count,
    ensures
        r@ == seq![tokens@[0]] + tokens@.subrange(1 + count, tokens@.len() as int),
{
    let n: usize = tokens.len();
    let mut v: Vec<i32> = Vec::new();
    v.push(tokens.v[0]);
    v.extend_from_slice(vstd::slice::slice_subrange(tokens.v.as_slice(), 1 + count, n));
    assert(v@ =~= seq![tokens@[0]] + tokens@.subrange(1 + count, n as int));
    TokenVec { v }
}

impl Conversation {
    /// A conversation before the first word.
    pub fn new(engine: &Engine, gen: &GenOptions) -> (r: Self)
        ensures
            r@.wf(engine@.vocab),
            r@.think_mode == gen.think_mode,
            r@.ctx_size == gen.ctx_size,
            r@.words() == seq![engine@.vocab.bos_id],
    {
        let mut transcript = TokenVec::new();
        engine.chat_begin(&mut transcript);
        let mut r = Conversation {
            think_mode: gen.think_mode,
            ctx_size: gen.ctx_size,
            transcript,
            max_prefix_tokens: 0,
        };
        r.apply_prefix(engine);
        r
    }

    /// Brings the prefix in line with the thinking mode and the context.
    fn apply_prefix(&mut self, engine: &Engine)
        requires
            old(self)@.transcript.len() >= 1 + old(self)@.prefix,
            old(self)@.prefix > 0 ==> old(self)@.prefix == max_effort_tokens(
                engine@.vocab,
            ).len() && old(self)@.transcript.subrange(1, 1 + old(self)@.prefix)
                == max_effort_tokens(engine@.vocab),
        ensures
            final(self)@.wf(engine@.vocab),
            final(self)@.think_mode == old(self)@.think_mode,
            final(self)@.ctx_size == old(self)@.ctx_size,
            final(self)@.words() == old(self)@.words(),
    {
        let ghost before = self@;
        let ghost p = max_effort_tokens(engine@.vocab);
        let active = think_mode_for_context(self.think_mode, self.ctx_size) == ThinkMode::Max;
        if active && self.max_prefix_tokens == 0 {
            let prefix = engine.tokenize(think_max_prefix());
            let n: usize = prefix.len();
            self.transcript = insert_tokens(&self.transcript, &prefix);
            self.max_prefix_tokens = n;
            proof {
                assert(self@.transcript.subrange(1, 1 + n) =~= p);
                assert(self@.transcript.subrange(1 + n, self@.transcript.len() as int)
                    =~= before.transcript.subrange(1, before.transcript.len() as int));
            }
        } else if !active && self.max_prefix_tokens > 0 {
            self.transcript = remove_tokens(&self.transcript, self.max_prefix_tokens);
            self.max_prefix_tokens = 0;
            proof {
                assert(self@.transcript.subrange(1, self@.transcript.len() as int)
                    =~= before.transcript.subrange(
                    1 + before.prefix,
                    before.transcript.len() as int,
                ));
            }
        }
        proof {
            if !self@.at_most_effort() {
                assert(self@.transcript.subrange(1, 1) =~= Seq::empty());
            }
        }
    }

    /// Selects a thinking mode.
    pub fn set_mode(&mut self, engine: &Engine, mode: ThinkMode)
        requires
            old(self)@.wf(engine@.vocab),
        ensures
            final(self)@.wf(engine@.vocab),
            final(self)@.think_mode == mode,
            final(self)@.ctx_size == old(self)@.ctx_size,
            final(self)@.words() == old(self)@.words(),
    {
        self.think_mode = mode;
        self.apply_prefix(engine);
    }

    /// Sets the context size.
    pub fn set_ctx(&mut self, engine: &Engine, ctx_size: i32)
        requires
            old(self)@.wf(engine@.vocab),
        ensures
            final(self)@.wf(engine@.vocab),
            final(self)@.think_mode == old(self)@.think_mode,
            final(self)@.ctx_size == ctx_size,
            final(self)@.words() == old(self)@.words(),
    {
        self.ctx_size = ctx_size;
        self.apply_prefix(engine);
    }
}

/// Turning the greatest effort on and off again leaves the transcript as it was.
pub proof fn transcripts_agree(a: ConversationView, b: ConversationView, v: VocabView)
    requires
        a.wf(v),
        b.wf(v),
        a.words() == b.words(),
        a.at_most_effort() == b.at_most_effort(),
    ensures
        a.transcript == b.transcript,
{
    let p = a.prefix;
    assert(a.words()[0] == a.transcript[0]);
    assert(b.words()[0] == b.transcript[0]);
    let ta = a.transcript.subrange(1 + p, a.transcript.len() as int);
    let tb = b.transcript.subrange(1 + p, b.transcript.len() as int);
    assert(a.words().subrange(1, a.words().len() as int) =~= ta);
    assert(b.words().subrange(1, b.words().len() as int) =~= tb);
    assert(a.transcript =~= seq![a.transcript[0]] + a.transcript.subrange(1, 1 + p) + ta);
    assert(b.transcript =~= seq![b.transcript[0]] + b.transcript.subrange(1, 1 + p) + tb);
}


// ── Interactive prompt ───────────────────────────────────────────────────

/// A line for the user.
#[derive(Debug)]
pub enum Line {
    /// On the output.
    Out(String),
    /// On the error output.
    Err_(String),
    /// In the log.
    Info(String),
    /// In the log, as a warning.
    Warn(String),
}

pub enum LineView {
    Out(Seq<char>),
    Err_(Seq<char>),
    Info(Seq<char>),
    Warn(Seq<char>),
}

impl View for Line {
    type V = LineView;

    open spec fn view(&self) -> LineView {
        match *self {
            Line::Out(s) => LineView::Out(s@),
            Line::Err_(s) => LineView::Err_(s@),
            Line::Info(s) => LineView::Info(s@),
            Line::Warn(s) => LineView::Warn(s@),
        }
    }
}

pub open spec fn line_views(lines: Seq<Line>) -> Seq<LineView> {
    lines.map_values(|l: Line| l@)
}

/// What is done after the lines are shown.
#[derive(Debug)]
pub enum Next {
    /// The next line is asked for.
    Prompt,
    /// A session of the new context size replaces the old one; then `Repl::new_session`
    /// is told.
    NewSession,
    /// The file is read; then `file_read` tells what to say.
    ReadFile(String),
    Leave,
}

pub enum NextView {
    Prompt,
    NewSession,
    ReadFile(Seq<char>),
    Leave,
}

impl View for Next {
    type V = NextView;

    open spec fn view(&self) -> NextView {
        match *self {
            Next::Prompt => NextView::Prompt,
            Next::NewSession => NextView::NewSession,
            Next::ReadFile(p) => NextView::ReadFile(p@),
            Next::Leave => NextView::Leave,
        }
    }
}

/// The help of the interactive prompt.
pub open spec fn help_lines() -> Seq<LineView> {
    seq![
        LineView::Out("Commands:"@),
        LineView::Out("  /help          Show this help."@),
        LineView::Out("  /think         Use normal thinking mode."@),
        LineView::Out(
            "  /think-max     Use Think Max only when context is at least 393216 tokens."@,
        ),
        LineView::Out("  /nothink       Disable thinking mode."@),
        LineView::Out("  /ctx N         Set context size for following prompts."@),
        LineView::Out("  /read FILE     Read a prompt from FILE and run it."@),
        LineView::Out("  /quit, /exit   Leave the prompt."@),
        LineView::Out("  Ctrl+C         Stop generation and return to the prompt."@),
    ]
}

/// The help of the interactive prompt.
pub fn repl_help() -> (lines: Vec<Line>)
    ensures
        line_views(lines@) == help_lines(),
{
    let lines = vec![
        Line::Out(String::from_str("Commands:")),
        Line::Out(String::from_str("  /help          Show this help.")),
        Line::Out(String::from_str("  /think         Use normal thinking mode.")),
        Line::Out(
            String::from_str(
                "  /think-max     Use Think Max only when context is at least 393216 tokens.",
            ),
        ),
        Line::Out(String::from_str("  /nothink       Disable thinking mode.")),
        Line::Out(String::from_str("  /ctx N         Set context size for following prompts.")),
        Line::Out(String::from_str("  /read FILE     Read a prompt from FILE and run it.")),
        Line::Out(String::from_str("  /quit, /exit   Leave the prompt.")),
        Line::Out(String::from_str("  Ctrl+C         Stop generation and return to the prompt.")),
    ];
    assert(line_views(lines@) =~= help_lines());
    lines
}

/// The warning that the greatest effort is not to be had, where it was asked for.
pub open spec fn downgrade_lines(mode: ThinkMode, ctx: i32) -> Seq<LineView> {
    if downgraded(mode, ctx) {
        seq![
            LineView::Warn(
                "--think-max needs --ctx >= 393216; ctx="@ + dec_int(ctx as int)
                    + " uses normal thinking instead"@,
            ),
        ]
    } else {
        Seq::empty()
    }
}

/// The warning that the greatest effort is not to be had, where it was asked for.
pub fn warn_think_max_downgraded(mode: ThinkMode, ctx_size: i32) -> (lines: Vec<Line>)
    ensures
        line_views(lines@) == downgrade_lines(mode, ctx_size),
{
    let mut lines: Vec<Line> = Vec::new();
    if think_max_downgraded(mode, ctx_size) {
        let n = dec_i64(ctx_size as i64);
        let mut s = String::from_str("--think-max needs --ctx >= 393216; ctx=");
        append(&mut s, n.as_str());
        append(&mut s, " uses normal thinking instead");
        lines.push(Line::Warn(s));
    }
    assert(line_views(lines@) =~= downgrade_lines(mode, ctx_size));
    lines
}

/// What is said after a thinking mode was selected.
pub open spec fn mode_lines(mode: ThinkMode, ctx: i32) -> Seq<LineView> {
    match mode {
        ThinkMode::High => seq![LineView::Out("Thinking mode: high."@)],
        ThinkMode::Off => seq![LineView::Out("Thinking mode: none."@)],
        ThinkMode::Max => downgrade_lines(mode, ctx).push(
            LineView::Out(
                if downgraded(mode, ctx) {
                    "Thinking mode: high (ctx below 393216)."@
                } else {
                    "Thinking mode: max."@
                },
            ),
        ),
    }
}

fn announce_mode(mode: ThinkMode, ctx_size: i32) -> (lines: Vec<Line>)
    ensures
        line_views(lines@) == mode_lines(mode, ctx_size),
{
    let mut lines: Vec<Line> = Vec::new();
    match mode {
        ThinkMode::High => {
            lines.push(Line::Out(String::from_str("Thinking mode: high.")));
        },
        ThinkMode::Off => {
            lines.push(Line::Out(String::from_str("Thinking mode: none.")));
        },
        ThinkMode::Max => {
            lines = warn_think_max_downgraded(mode, ctx_size);
            let s = if think_max_downgraded(mode, ctx_size) {
                "Thinking mode: high (ctx below 393216)."
            } else {
                "Thinking mode: max."
            };
            lines.push(Line::Out(String::from_str(s)));
        },
    }
    assert(line_views(lines@) =~= mode_lines(mode, ctx_size));
    lines
}

/// An interactive prompt.
#[derive(Debug)]
pub struct Repl {
    pub backend: Backend,
    pub conversation: Conversation,
    pub session_alive: bool,
}

/// The thinking mode after a command.
pub open spec fn mode_after(c: CommandView, mode: ThinkMode) -> ThinkMode {
    match c {
        CommandView::Think => ThinkMode::High,
        CommandView::ThinkMax => ThinkMode::Max,
        CommandView::NoThink => ThinkMode::Off,
        _ => mode,
    }
}

/// The context size after a command.
pub open spec fn ctx_after(c: CommandView, ctx: i32) -> i32 {
    match c {
        CommandView::Ctx(n) => n,
        _ => ctx,
    }
}

/// What a command is answered, where `mode` and `ctx` are those after it.
pub open spec fn answer(
    c: CommandView,
    backend: Backend,
    mode: ThinkMode,
    ctx: i32,
    session_alive: bool,
) -> Seq<LineView> {
    match c {
        CommandView::Nothing => Seq::empty(),
        CommandView::Help => help_lines(),
        CommandView::Think | CommandView::ThinkMax | CommandView::NoThink => mode_lines(
            mode,
            ctx,
        ),
        CommandView::Ctx(n) => seq![LineView::Info(memory_text(backend, n))],
        CommandView::BadCtx => seq![LineView::Err_("ds4: /ctx needs a positive integer"@)],
        CommandView::Read(p) => Seq::empty(),
        CommandView::BadRead => seq![LineView::Err_("ds4: /read needs a file path"@)],
        CommandView::Quit => Seq::empty(),
        CommandView::Unknown(cmd) => seq![
            LineView::Err_("ds4: unknown command: "@ + cmd),
            LineView::Err_("ds4: type /help for commands"@),
        ],
        CommandView::Say(cmd) => if session_alive {
            seq![LineView::Err_("ds4: interactive generation placeholder for: "@ + cmd)]
        } else {
            seq![LineView::Err_("ds4: session unavailable; cannot generate"@)]
        },
    }
}

/// What is done after a command.
pub open spec fn next_of(c: CommandView) -> NextView {
    match c {
        CommandView::Ctx(n) => NextView::NewSession,
        CommandView::Read(p) => NextView::ReadFile(p),
        CommandView::Quit => NextView::Leave,
        _ => NextView::Prompt,
    }
}

fn one_line(s: &str) -> (lines: Vec<Line>)
    ensures
        line_views(lines@) == seq![LineView::Err_(s@)],
{
    let mut lines: Vec<Line> = Vec::new();
    lines.push(Line::Err_(String::from_str(s)));
    assert(line_views(lines@) =~= seq![LineView::Err_(s@)]);
    lines
}

fn one_line_of(s: &str, t: &str) -> (lines: Vec<Line>)
    ensures
        line_views(lines@) == seq![LineView::Err_(s@ + t@)],
{
    let mut line = String::from_str(s);
    append(&mut line, t);
    one_line(line.as_str())
}

/// What is said of a file that was to be read; `outcome` holds its length in bytes or why
/// it cannot be read.
pub fn file_read(path: &str, outcome: Result<usize, &str>) -> (lines: Vec<Line>)
    ensures
        line_views(lines@) == seq![
            LineView::Err_(
                match outcome {
                    Ok(n) => "ds4: reading prompt from '"@ + path@ + "' ("@ + dec(n as nat)
                        + ") - placeholder turn"@,
                    Err(e) => "ds4: failed to read file '"@ + path@ + "': "@ + e@,
                },
            ),
        ],
{
    match outcome {
        Ok(n) => {
            let count = dec_u64(n as u64);
            let mut s = String::from_str("ds4: reading prompt from '");
            append(&mut s, path);
            append(&mut s, "' (");
            append(&mut s, count.as_str());
            append(&mut s, ") - placeholder turn");
            one_line(s.as_str())
        },
        Err(e) => {
            let mut s = String::from_str("ds4: failed to read file '");
            append(&mut s, path);
            append(&mut s, "': ");
            append(&mut s, e);
            one_line(s.as_str())
        },
    }
}

impl Repl {
    /// The prompt before the first line; `session_alive` tells whether there is a session.
    pub fn new(engine: &Engine, backend: Backend, gen: &GenOptions, session_alive: bool) -> (r:
        Self)
        ensures
            r.backend == backend,
            r.session_alive == session_alive,
            r.conversation@.wf(engine@.vocab),
            r.conversation@.think_mode == gen.think_mode,
            r.conversation@.ctx_size == gen.ctx_size,
            r.conversation@.words() == seq![engine@.vocab.bos_id],
    {
        Repl { backend, conversation: Conversation::new(engine, gen), session_alive }
    }

    /// Carries out a line and gives what is shown and what is done next.
    pub fn step(&mut self, engine: &Engine, line: &str) -> (r: (Vec<Line>, Next))
        requires
            old(self).conversation@.wf(engine@.vocab),
        ensures
            final(self).backend == old(self).backend,
            final(self).session_alive == old(self).session_alive,
            final(self).conversation@.wf(engine@.vocab),
            final(self).conversation@.words() == old(self).conversation@.words(),
            final(self).conversation@.think_mode == mode_after(
                command_of(line@),
                old(self).conversation@.think_mode,
            ),
            final(self).conversation@.ctx_size == ctx_after(
                command_of(line@),
                old(self).conversation@.ctx_size,
            ),
            line_views(r.0@) == answer(
                command_of(line@),
                old(self).backend,
                final(self).conversation@.think_mode,
                final(self).conversation@.ctx_size,
                old(self).session_alive,
            ),
            r.1@ == next_of(command_of(line@)),
    {
        match parse_command(line) {
            Command::Nothing => {
                let lines: Vec<Line> = Vec::new();
                assert(line_views(lines@) =~= Seq::empty());
                (lines, Next::Prompt)
            },
            Command::Help => (repl_help(), Next::Prompt),
            Command::Think => (self.select(engine, ThinkMode::High), Next::Prompt),
            Command::ThinkMax => (self.select(engine, ThinkMode::Max), Next::Prompt),
            Command::NoThink => (self.select(engine, ThinkMode::Off), Next::Prompt),
            Command::Ctx(n) => {
                self.conversation.set_ctx(engine, n);
                let mut lines: Vec<Line> = Vec::new();
                lines.push(Line::Info(context_memory_line(self.backend, n)));
                assert(line_views(lines@) =~= seq![
                    LineView::Info(memory_text(self.backend, n)),
                ]);
                (lines, Next::NewSession)
            },
            Command::BadCtx => (one_line("ds4: /ctx needs a positive integer"), Next::Prompt),
            Command::Read(path) => {
                let lines: Vec<Line> = Vec::new();
                assert(line_views(lines@) =~= Seq::empty());
                (lines, Next::ReadFile(path))
            },
            Command::BadRead => (one_line("ds4: /read needs a file path"), Next::Prompt),
            Command::Quit => {
                let lines: Vec<Line> = Vec::new();
                assert(line_views(lines@) =~= Seq::empty());
                (lines, Next::Leave)
            },
            Command::Unknown(cmd) => {
                let mut lines = one_line_of("ds4: unknown command: ", cmd.as_str());
                let ghost first = lines@;
                lines.push(Line::Err_(String::from_str("ds4: type /help for commands")));
                assert(line_views(lines@) =~= line_views(first).push(
                    LineView::Err_("ds4: type /help for commands"@),
                ));
                assert(line_views(lines@) =~= seq![
                    LineView::Err_("ds4: unknown command: "@ + cmd@),
                    LineView::Err_("ds4: type /help for commands"@),
                ]);
                (lines, Next::Prompt)
            },
            Command::Say(cmd) => {
                if self.session_alive {
                    (
                        one_line_of(
                            "ds4: interactive generation placeholder for: ",
                            cmd.as_str(),
                        ),
                        Next::Prompt,
                    )
                } else {
                    (one_line("ds4: session unavailable; cannot generate"), Next::Prompt)
                }
            },
        }
    }

    fn select(&mut self, engine: &Engine, mode: ThinkMode) -> (lines: Vec<Line>)
        requires
            old(self).conversation@.wf(engine@.vocab),
        ensures
            final(self).backend == old(self).backend,
            final(self).session_alive == old(self).session_alive,
            final(self).conversation@.wf(engine@.vocab),
            final(self).conversation@.think_mode == mode,
            final(self).conversation@.ctx_size == old(self).conversation@.ctx_size,
            final(self).conversation@.words() == old(self).conversation@.words(),
            line_views(lines@) == mode_lines(mode, old(self).conversation@.ctx_size),
    {
        self.conversation.set_mode(engine, mode);
        announce_mode(mode, self.conversation.ctx_size)
    }

    /// Notes whether a session of the new context size was made; `fault` is why not.
    pub fn new_session(&mut self, fault: Option<&str>) -> (lines: Vec<Line>)
        ensures
            final(self).backend == old(self).backend,
            final(self).conversation == old(self).conversation,
            final(self).session_alive == fault is None,
            line_views(lines@) == match fault {
                Some(e) => seq![LineView::Err_("ds4: failed to recreate session: "@ + e@)],
                None => Seq::empty(),
            } + downgrade_lines(
                old(self).conversation@.think_mode,
                old(self).conversation@.ctx_size,
            ),
    {
        let mut warning = warn_think_max_downgraded(
            self.conversation.think_mode,
            self.conversation.ctx_size,
        );
        let ghost w = warning@;
        let mut lines: Vec<Line> = Vec::new();
        match fault {
            Some(e) => {
                self.session_alive = false;
                lines = one_line_of("ds4: failed to recreate session: ", e);
            },
            None => {
                self.session_alive = true;
            },
        }
        let ghost first = lines@;
        lines.append(&mut warning);
        assert(line_views(lines@) =~= line_views(first) + line_views(w));
        assert(fault is None ==> line_views(first) =~= Seq::empty());
        lines
    }
}

} // verus!

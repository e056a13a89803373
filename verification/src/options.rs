//! The command line of the interactive program.
use vstd::prelude::*;

use byteorder::{ByteOrder, LittleEndian};

use crate::number::{at_most, integer, natural, parse_integer, parse_natural};
use crate::request::{optional_view, SINGLE_ONE};
use crate::single::{finite, is_finite, key, nan, order_key};
use crate::text::{append, lowercase, same_text};
use crate::tokenizer::string_views;
use crate::types::{Backend, EngineOptions, ThinkMode, MTP_MARGIN_DEFAULT};

verus! {

/// The bit pattern of the single 100.
pub const SINGLE_100: u32 = 0x42c8_0000;

/// The bit pattern of the single 1000.
pub const SINGLE_1000: u32 = 0x447a_0000;

/// Settings of a generation. Floating-point settings are bit patterns of singles.
#[derive(Debug)]
pub struct GenOptions {
    pub prompt: Option<String>,
    pub system: String,
    pub n_predict: i32,
    pub ctx_size: i32,
    pub temperature: u32,
    pub top_p: u32,
    pub seed: u64,
    pub dump_tokens: bool,
    pub dump_logprobs_path: Option<String>,
    pub dump_logprobs_top_k: i32,
    pub think_mode: ThinkMode,
    pub head_test: bool,
    pub first_token_test: bool,
    pub metal_graph_test: bool,
    pub metal_graph_full_test: bool,
    pub metal_graph_prompt_test: bool,
}

/// The settings of the program.
#[derive(Debug)]
pub struct CliConfig {
    pub engine: EngineOptions,
    pub gen: GenOptions,
    pub inspect: bool,
}

/// The mathematical form of the engine's settings.
pub struct EngineSettings {
    pub model_path: Seq<char>,
    pub mtp_path: Option<Seq<char>>,
    pub backend: Backend,
    pub n_threads: u32,
    pub mtp_draft_tokens: u32,
    pub mtp_margin: u32,
    pub warm_weights: bool,
    pub quality: bool,
}

/// The mathematical form of the settings of a generation.
pub struct GenSettings {
    pub prompt: Option<Seq<char>>,
    pub system: Seq<char>,
    pub n_predict: i32,
    pub ctx_size: i32,
    pub temperature: u32,
    pub top_p: u32,
    pub seed: u64,
    pub dump_tokens: bool,
    pub dump_logprobs_path: Option<Seq<char>>,
    pub dump_logprobs_top_k: i32,
    pub think_mode: ThinkMode,
    pub head_test: bool,
    pub first_token_test: bool,
    pub metal_graph_test: bool,
    pub metal_graph_full_test: bool,
    pub metal_graph_prompt_test: bool,
}

/// The mathematical form of the settings.
pub struct CliView {
    pub engine: EngineSettings,
    pub gen: GenSettings,
    pub inspect: bool,
}

pub open spec fn engine_settings(e: EngineOptions) -> EngineSettings {
    EngineSettings {
        model_path: e.model_path@,
        mtp_path: optional_view(e.mtp_path),
        backend: e.backend,
        n_threads: e.n_threads,
        mtp_draft_tokens: e.mtp_draft_tokens,
        mtp_margin: e.mtp_margin,
        warm_weights: e.warm_weights,
        quality: e.quality,
    }
}

pub open spec fn gen_settings(g: GenOptions) -> GenSettings {
    GenSettings {
        prompt: optional_view(g.prompt),
        system: g.system@,
        n_predict: g.n_predict,
        ctx_size: g.ctx_size,
        temperature: g.temperature,
        top_p: g.top_p,
        seed: g.seed,
        dump_tokens: g.dump_tokens,
        dump_logprobs_path: optional_view(g.dump_logprobs_path),
        dump_logprobs_top_k: g.dump_logprobs_top_k,
        think_mode: g.think_mode,
        head_test: g.head_test,
        first_token_test: g.first_token_test,
        metal_graph_test: g.metal_graph_test,
        metal_graph_full_test: g.metal_graph_full_test,
        metal_graph_prompt_test: g.metal_graph_prompt_test,
    }
}

impl View for CliConfig {
    type V = CliView;

    open spec fn view(&self) -> CliView {
        CliView {
            engine: engine_settings(self.engine),
            gen: gen_settings(self.gen),
            inspect: self.inspect,
        }
    }
}

/// The settings where none is given.
pub open spec fn default_settings() -> CliView {
    CliView {
        engine: EngineSettings {
            model_path: "ds4flash.gguf"@,
            mtp_path: None,
            backend: Backend::Metal,
            n_threads: 0,
            mtp_draft_tokens: 1,
            mtp_margin: MTP_MARGIN_DEFAULT,
            warm_weights: false,
            quality: false,
        },
        gen: GenSettings {
            prompt: None,
            system: "You are a helpful assistant"@,
            n_predict: 50000,
            ctx_size: 32768,
            temperature: SINGLE_ONE,
            top_p: SINGLE_ONE,
            seed: 0,
            dump_tokens: false,
            dump_logprobs_path: None,
            dump_logprobs_top_k: 20,
            think_mode: ThinkMode::High,
            head_test: false,
            first_token_test: false,
            metal_graph_test: false,
            metal_graph_full_test: false,
            metal_graph_prompt_test: false,
        },
        inspect: false,
    }
}

impl Default for GenOptions {
    fn default() -> (r: Self)
        ensures
            r.prompt is None,
            r.system@ == "You are a helpful assistant"@,
            r.n_predict == 50000,
            r.ctx_size == 32768,
            r.temperature == SINGLE_ONE,
            r.top_p == SINGLE_ONE,
            r.seed == 0,
            !r.dump_tokens,
            r.dump_logprobs_path is None,
            r.dump_logprobs_top_k == 20,
            r.think_mode == ThinkMode::High,
            !r.head_test,
            !r.first_token_test,
            !r.metal_graph_test,
            !r.metal_graph_full_test,
            !r.metal_graph_prompt_test,
    {
        GenOptions {
            prompt: None,
            system: String::from_str("You are a helpful assistant"),
            n_predict: 50000,
            ctx_size: 32768,
            temperature: SINGLE_ONE,
            top_p: SINGLE_ONE,
            seed: 0,
            dump_tokens: false,
            dump_logprobs_path: None,
            dump_logprobs_top_k: 20,
            think_mode: ThinkMode::High,
            head_test: false,
            first_token_test: false,
            metal_graph_test: false,
            metal_graph_full_test: false,
            metal_graph_prompt_test: false,
        }
    }
}

/// The options of the program.
#[derive(Debug, Clone, Copy, PartialEq, Eq, Structural)]
pub enum Opt {
    Help,
    Prompt,
    PromptFile,
    System,
    Model,
    Mtp,
    BackendName,
    DumpLogprobs,
    MtpDraft,
    Tokens,
    Ctx,
    Threads,
    TopK,
    Seed,
    MtpMargin,
    Temp,
    TopP,
    Quality,
    Cpu,
    Metal,
    DumpTokens,
    Think,
    ThinkMax,
    NoThink,
    HeadTest,
    FirstTokenTest,
    GraphTest,
    GraphFullTest,
    GraphPromptTest,
    Inspect,
    WarmWeights,
    Unknown,
}

/// The option that an argument names.
pub open spec fn option_named(s: Seq<char>) -> Opt {
    if s == "-h"@ || s == "--help"@ {
        Opt::Help
    } else if s == "-p"@ || s == "--prompt"@ {
        Opt::Prompt
    } else if s == "--prompt-file"@ {
        Opt::PromptFile
    } else if s == "-sys"@ || s == "--system"@ {
        Opt::System
    } else if s == "-m"@ || s == "--model"@ {
        Opt::Model
    } else if s == "--mtp"@ {
        Opt::Mtp
    } else if s == "--backend"@ {
        Opt::BackendName
    } else if s == "--dump-logprobs"@ {
        Opt::DumpLogprobs
    } else if s == "--mtp-draft"@ {
        Opt::MtpDraft
    } else if s == "-n"@ || s == "--tokens"@ {
        Opt::Tokens
    } else if s == "-c"@ || s == "--ctx"@ {
        Opt::Ctx
    } else if s == "-t"@ || s == "--threads"@ {
        Opt::Threads
    } else if s == "--logprobs-top-k"@ {
        Opt::TopK
    } else if s == "--seed"@ {
        Opt::Seed
    } else if s == "--mtp-margin"@ {
        Opt::MtpMargin
    } else if s == "--temp"@ {
        Opt::Temp
    } else if s == "--top-p"@ {
        Opt::TopP
    } else if s == "--quality"@ {
        Opt::Quality
    } else if s == "--cpu"@ {
        Opt::Cpu
    } else if s == "--metal"@ {
        Opt::Metal
    } else if s == "--dump-tokens"@ {
        Opt::DumpTokens
    } else if s == "--think"@ {
        Opt::Think
    } else if s == "--think-max"@ {
        Opt::ThinkMax
    } else if s == "--nothink"@ {
        Opt::NoThink
    } else if s == "--head-test"@ {
        Opt::HeadTest
    } else if s == "--first-token-test"@ {
        Opt::FirstTokenTest
    } else if s == "--metal-graph-test"@ {
        Opt::GraphTest
    } else if s == "--metal-graph-full-test"@ {
        Opt::GraphFullTest
    } else if s == "--metal-graph-prompt-test"@ {
        Opt::GraphPromptTest
    } else if s == "--inspect"@ {
        Opt::Inspect
    } else if s == "--warm-weights"@ {
        Opt::WarmWeights
    } else {
        Opt::Unknown
    }
}

fn find_option(s: &str) -> (r: Opt)
    ensures
        r == option_named(s@),
{
    if same_text(s, "-h") || same_text(s, "--help") {
        Opt::Help
    } else if same_text(s, "-p") || same_text(s, "--prompt") {
        Opt::Prompt
    } else if same_text(s, "--prompt-file") {
        Opt::PromptFile
    } else if same_text(s, "-sys") || same_text(s, "--system") {
        Opt::System
    } else if same_text(s, "-m") || same_text(s, "--model") {
        Opt::Model
    } else if same_text(s, "--mtp") {
        Opt::Mtp
    } else if same_text(s, "--backend") {
        Opt::BackendName
    } else if same_text(s, "--dump-logprobs") {
        Opt::DumpLogprobs
    } else if same_text(s, "--mtp-draft") {
        Opt::MtpDraft
    } else if same_text(s, "-n") || same_text(s, "--tokens") {
        Opt::Tokens
    } else if same_text(s, "-c") || same_text(s, "--ctx") {
        Opt::Ctx
    } else if same_text(s, "-t") || same_text(s, "--threads") {
        Opt::Threads
    } else if same_text(s, "--logprobs-top-k") {
        Opt::TopK
    } else if same_text(s, "--seed") {
        Opt::Seed
    } else if same_text(s, "--mtp-margin") {
        Opt::MtpMargin
    } else if same_text(s, "--temp") {
        Opt::Temp
    } else if same_text(s, "--top-p") {
        Opt::TopP
    } else if same_text(s, "--quality") {
        Opt::Quality
    } else if same_text(s, "--cpu") {
        Opt::Cpu
    } else if same_text(s, "--metal") {
        Opt::Metal
    } else if same_text(s, "--dump-tokens") {
        Opt::DumpTokens
    } else if same_text(s, "--think") {
        Opt::Think
    } else if same_text(s, "--think-max") {
        Opt::ThinkMax
    } else if same_text(s, "--nothink") {
        Opt::NoThink
    } else if same_text(s, "--head-test") {
        Opt::HeadTest
    } else if same_text(s, "--first-token-test") {
        Opt::FirstTokenTest
    } else if same_text(s, "--metal-graph-test") {
        Opt::GraphTest
    } else if same_text(s, "--metal-graph-full-test") {
        Opt::GraphFullTest
    } else if same_text(s, "--metal-graph-prompt-test") {
        Opt::GraphPromptTest
    } else if same_text(s, "--inspect") {
        Opt::Inspect
    } else if same_text(s, "--warm-weights") {
        Opt::WarmWeights
    } else {
        Opt::Unknown
    }
}

/// Whether an option has a value behind it.
pub open spec fn takes_value(o: Opt) -> bool {
    match o {
        Opt::System | Opt::Model | Opt::Mtp | Opt::BackendName | Opt::DumpLogprobs | Opt::MtpDraft | Opt::Tokens | Opt::Ctx | Opt::Threads | Opt::TopK | Opt::Seed | Opt::MtpMargin | Opt::Temp | Opt::TopP => true,
        _ => false,
    }
}

/// A value that has to be a positive 32-bit integer.
pub open spec fn positive_int(s: Seq<char>) -> Option<int> {
    match integer(s) {
        Some(n) => if 0 < n <= i32::MAX {
            Some(n)
        } else {
            None
        },
        None => None,
    }
}

/// A value that has to be a positive 64-bit number.
pub open spec fn positive_u64(s: Seq<char>) -> Option<int> {
    match at_most(natural(s, 10), u64::MAX as int) {
        Some(n) => if n > 0 {
            Some(n)
        } else {
            None
        },
        None => None,
    }
}

/// A value that has to be a finite number from zero up to `max`.
pub open spec fn in_range(number: Option<u32>, max: u32) -> Option<u32> {
    match number {
        Some(b) => if finite(b) && 0 <= key(b) <= key(max) {
            Some(b)
        } else {
            None
        },
        None => None,
    }
}

/// The backend of a name: whatever is not `cpu` is Metal.
pub open spec fn backend_named(s: Seq<char>) -> Backend {
    if lowercase(s) == "cpu"@ {
        Backend::Cpu
    } else {
        Backend::Metal
    }
}

/// The settings with an option that has a value; none where the value does not fit.
/// `number` is the number that the value denotes as a single.
pub open spec fn with_value(c: CliView, o: Opt, s: Seq<char>, number: Option<u32>) -> Option<
    CliView,
> {
    match o {
        Opt::System => Some(CliView { gen: GenSettings { system: s, ..c.gen }, ..c }),
        Opt::Model => Some(CliView { engine: EngineSettings { model_path: s, ..c.engine }, ..c }),
        Opt::Mtp => Some(CliView { engine: EngineSettings { mtp_path: Some(s), ..c.engine }, ..c }),
        Opt::BackendName => Some(CliView { engine: EngineSettings { backend: backend_named(s), ..c.engine }, ..c }),
        Opt::DumpLogprobs => Some(CliView { gen: GenSettings { dump_logprobs_path: Some(s), ..c.gen }, ..c }),
        Opt::MtpDraft => match positive_int(s) {
            Some(n) => Some(CliView { engine: EngineSettings { mtp_draft_tokens: n as u32, ..c.engine }, ..c }),
            None => None,
        },
        Opt::Tokens => match positive_int(s) {
            Some(n) => Some(CliView { gen: GenSettings { n_predict: n as i32, ..c.gen }, ..c }),
            None => None,
        },
        Opt::Ctx => match positive_int(s) {
            Some(n) => Some(CliView { gen: GenSettings { ctx_size: n as i32, ..c.gen }, ..c }),
            None => None,
        },
        Opt::Threads => match positive_int(s) {
            Some(n) => Some(CliView { engine: EngineSettings { n_threads: n as u32, ..c.engine }, ..c }),
            None => None,
        },
        Opt::TopK => match positive_int(s) {
            Some(n) => Some(CliView { gen: GenSettings { dump_logprobs_top_k: n as i32, ..c.gen }, ..c }),
            None => None,
        },
        Opt::Seed => match positive_u64(s) {
            Some(n) => Some(CliView { gen: GenSettings { seed: n as u64, ..c.gen }, ..c }),
            None => None,
        },
        Opt::MtpMargin => match in_range(number, SINGLE_1000) {
            Some(b) => Some(CliView { engine: EngineSettings { mtp_margin: b, ..c.engine }, ..c }),
            None => None,
        },
        Opt::Temp => match in_range(number, SINGLE_100) {
            Some(b) => Some(CliView { gen: GenSettings { temperature: b, ..c.gen }, ..c }),
            None => None,
        },
        Opt::TopP => match in_range(number, SINGLE_ONE) {
            Some(b) => Some(CliView { gen: GenSettings { top_p: b, ..c.gen }, ..c }),
            None => None,
        },
        _ => Some(c),
    }
}

/// The settings with an option that stands alone.
pub open spec fn with_flag(c: CliView, o: Opt) -> CliView {
    match o {
        Opt::Quality => CliView { engine: EngineSettings { quality: true, ..c.engine }, ..c },
        Opt::Cpu => CliView { engine: EngineSettings { backend: Backend::Cpu, ..c.engine }, ..c },
        Opt::Metal => CliView { engine: EngineSettings { backend: Backend::Metal, ..c.engine }, ..c },
        Opt::DumpTokens => CliView { gen: GenSettings { dump_tokens: true, ..c.gen }, ..c },
        Opt::Think => CliView { gen: GenSettings { think_mode: ThinkMode::High, ..c.gen }, ..c },
        Opt::ThinkMax => CliView { gen: GenSettings { think_mode: ThinkMode::Max, ..c.gen }, ..c },
        Opt::NoThink => CliView { gen: GenSettings { think_mode: ThinkMode::Off, ..c.gen }, ..c },
        Opt::HeadTest => CliView { gen: GenSettings { head_test: true, ..c.gen }, ..c },
        Opt::FirstTokenTest => CliView { gen: GenSettings { first_token_test: true, ..c.gen }, ..c },
        Opt::GraphTest => CliView { engine: EngineSettings { backend: Backend::Metal, ..c.engine }, gen: GenSettings { metal_graph_test: true, ..c.gen }, ..c },
        Opt::GraphFullTest => CliView { engine: EngineSettings { backend: Backend::Metal, ..c.engine }, gen: GenSettings { metal_graph_full_test: true, ..c.gen }, ..c },
        Opt::GraphPromptTest => CliView { engine: EngineSettings { backend: Backend::Metal, ..c.engine }, gen: GenSettings { metal_graph_prompt_test: true, ..c.gen }, ..c },
        Opt::Inspect => CliView { inspect: true, ..c },
        Opt::WarmWeights => CliView { engine: EngineSettings { warm_weights: true, ..c.engine }, ..c },
        _ => c,
    }
}

/// The settings with a prompt.
pub open spec fn with_prompt(c: CliView, prompt: Seq<char>) -> CliView {
    CliView { gen: GenSettings { prompt: Some(prompt), ..c.gen }, ..c }
}

/// Why the command line is refused.
#[derive(Debug)]
pub enum OptionError {
    MissingValue(String),
    BadValue(String, String),
    TwoPrompts,
    Unknown(String),
}

pub enum OptionErrorView {
    MissingValue(Seq<char>),
    BadValue(Seq<char>, Seq<char>),
    TwoPrompts,
    Unknown(Seq<char>),
}

impl View for OptionError {
    type V = OptionErrorView;

    open spec fn view(&self) -> OptionErrorView {
        match *self {
            OptionError::MissingValue(o) => OptionErrorView::MissingValue(o@),
            OptionError::BadValue(o, v) => OptionErrorView::BadValue(o@, v@),
            OptionError::TwoPrompts => OptionErrorView::TwoPrompts,
            OptionError::Unknown(a) => OptionErrorView::Unknown(a@),
        }
    }
}

impl OptionErrorView {
    pub open spec fn text(self) -> Seq<char> {
        match self {
            OptionErrorView::MissingValue(o) => "ds4: missing value for "@ + o,
            OptionErrorView::BadValue(o, v) => "ds4: invalid value for "@ + o + ": "@ + v,
            OptionErrorView::TwoPrompts => "ds4: specify only one prompt source"@,
            OptionErrorView::Unknown(a) => "ds4: unknown option: "@ + a,
        }
    }

    /// The exit status. An unknown option leads to the help text, which is no failure.
    pub open spec fn status(self) -> i32 {
        match self {
            OptionErrorView::Unknown(_) => 0,
            _ => 2,
        }
    }
}

impl OptionError {
    pub fn message(&self) -> (r: String)
        ensures
            r@ == self@.text(),
    {
        match self {
            OptionError::MissingValue(o) => {
                let mut s = String::from_str("ds4: missing value for ");
                append(&mut s, o.as_str());
                s
            },
            OptionError::BadValue(o, v) => {
                let mut s = String::from_str("ds4: invalid value for ");
                append(&mut s, o.as_str());
                append(&mut s, ": ");
                append(&mut s, v.as_str());
                s
            },
            OptionError::TwoPrompts => String::from_str("ds4: specify only one prompt source"),
            OptionError::Unknown(a) => {
                let mut s = String::from_str("ds4: unknown option: ");
                append(&mut s, a.as_str());
                s
            },
        }
    }

    pub fn exit_status(&self) -> (r: i32)
        ensures
            r == self@.status(),
    {
        match self {
            OptionError::Unknown(_) => 0,
            _ => 2,
        }
    }
}

/// How far the command line has been read.
pub struct ParserView {
    pub cfg: CliView,
    pub at: int,
}

/// What the command line calls for.
pub enum ParseStepView {
    /// The settings are complete.
    Done,
    /// The help text is asked for.
    Help,
    /// The prompt is to be read from a file.
    ReadFile(Seq<char>),
    Failed(OptionErrorView),
}

/// Reads the command line from where the parser stands.
pub open spec fn parsed(p: ParserView, args: Seq<Seq<char>>, numbers: Seq<Option<u32>>) -> (
    ParserView,
    ParseStepView,
)
    decreases args.len() - p.at,
{
    if p.at < 0 || p.at >= args.len() {
        (p, ParseStepView::Done)
    } else {
        let name = args[p.at];
        let o = option_named(name);
        let last = p.at + 1 >= args.len();
        if o == Opt::Help {
            (p, ParseStepView::Help)
        } else if o == Opt::Unknown {
            (p, ParseStepView::Failed(OptionErrorView::Unknown(name)))
        } else if (o == Opt::Prompt || o == Opt::PromptFile) && p.cfg.gen.prompt is Some {
            (p, ParseStepView::Failed(OptionErrorView::TwoPrompts))
        } else if (o == Opt::Prompt || o == Opt::PromptFile || takes_value(o)) && last {
            (p, ParseStepView::Failed(OptionErrorView::MissingValue(name)))
        } else if o == Opt::Prompt {
            parsed(
                ParserView {
                    cfg: with_prompt(p.cfg, args[p.at + 1]),
                    at: p.at + 2,
                },
                args,
                numbers,
            )
        } else if o == Opt::PromptFile {
            (ParserView { at: p.at + 2, ..p }, ParseStepView::ReadFile(args[p.at + 1]))
        } else if takes_value(o) {
            match with_value(p.cfg, o, args[p.at + 1], numbers[p.at + 1]) {
                Some(cfg) => parsed(ParserView { cfg, at: p.at + 2 }, args, numbers),
                None => (
                    p,
                    ParseStepView::Failed(OptionErrorView::BadValue(name, args[p.at + 1])),
                ),
            }
        } else {
            parsed(ParserView { cfg: with_flag(p.cfg, o), at: p.at + 1 }, args, numbers)
        }
    }
}

/// Reads the command line.
#[derive(Debug)]
pub struct OptionParser {
    pub cfg: CliConfig,
    pub at: usize,
}

impl View for OptionParser {
    type V = ParserView;

    open spec fn view(&self) -> ParserView {
        ParserView { cfg: self.cfg@, at: self.at as int }
    }
}

/// What the command line calls for.
#[derive(Debug)]
pub enum ParseStep {
    Done,
    Help,
    ReadFile(String),
    Failed(OptionError),
}

impl View for ParseStep {
    type V = ParseStepView;

    open spec fn view(&self) -> ParseStepView {
        match *self {
            ParseStep::Done => ParseStepView::Done,
            ParseStep::Help => ParseStepView::Help,
            ParseStep::ReadFile(p) => ParseStepView::ReadFile(p@),
            ParseStep::Failed(e) => ParseStepView::Failed(e@),
        }
    }
}

fn parse_int(s: &str) -> (r: Option<i32>)
    ensures
        match r {
            Some(n) => positive_int(s@) == Some(n as int),
            None => positive_int(s@) is None,
        },
{
    match parse_integer(s) {
        Some(v) => {
            if v <= 0 || v > 0x7fff_ffff {
                None
            } else {
                Some(v as i32)
            }
        },
        None => None,
    }
}

fn parse_u64(s: &str) -> (r: Option<u64>)
    ensures
        match r {
            Some(n) => positive_u64(s@) == Some(n as int),
            None => positive_u64(s@) is None,
        },
{
    match parse_natural(s, 10, u64::MAX) {
        Some(v) => {
            if v == 0 {
                None
            } else {
                Some(v)
            }
        },
        None => None,
    }
}

fn parse_float_range(number: Option<u32>, max: u32) -> (r: Option<u32>)
    ensures
        r == in_range(number, max),
{
    match number {
        Some(b) => {
            if is_finite(b) && order_key(b) >= 0 && order_key(b) <= order_key(max) {
                Some(b)
            } else {
                None
            }
        },
        None => None,
    }
}

/// The settings with an option that has a value, where the value fits.
#[verifier::rlimit(40)]
fn set_value(c: CliConfig, o: Opt, text: &String, number: Option<u32>) -> (r: Result<
    CliConfig,
    CliConfig,
>)
    ensures
        match r {
            Ok(n) => with_value(c@, o, text@, number) == Some(n@),
            Err(same) => with_value(c@, o, text@, number) is None && same == c,
        },
{
    match o {
        Opt::System => {
            return Ok(CliConfig { gen: GenOptions { system: text.clone(), ..c.gen }, ..c });
        },
        Opt::Model => {
            return Ok(CliConfig { engine: EngineOptions { model_path: text.clone(), ..c.engine }, ..c });
        },
        Opt::Mtp => {
            return Ok(CliConfig { engine: EngineOptions { mtp_path: Some(text.clone()), ..c.engine }, ..c });
        },
        Opt::BackendName => {
            return Ok(CliConfig { engine: EngineOptions { backend: Backend::from_name(text.as_str()), ..c.engine }, ..c });
        },
        Opt::DumpLogprobs => {
            return Ok(CliConfig { gen: GenOptions { dump_logprobs_path: Some(text.clone()), ..c.gen }, ..c });
        },
        Opt::MtpDraft => match parse_int(text.as_str()) {
            Some(n) => {
                return Ok(CliConfig { engine: EngineOptions { mtp_draft_tokens: n as u32, ..c.engine }, ..c });
            },
            None => {
                return Err(c);
            },
        },
        Opt::Tokens => match parse_int(text.as_str()) {
            Some(n) => {
                return Ok(CliConfig { gen: GenOptions { n_predict: n, ..c.gen }, ..c });
            },
            None => {
                return Err(c);
            },
        },
        Opt::Ctx => match parse_int(text.as_str()) {
            Some(n) => {
                return Ok(CliConfig { gen: GenOptions { ctx_size: n, ..c.gen }, ..c });
            },
            None => {
                return Err(c);
            },
        },
        Opt::Threads => match parse_int(text.as_str()) {
            Some(n) => {
                return Ok(CliConfig { engine: EngineOptions { n_threads: n as u32, ..c.engine }, ..c });
            },
            None => {
                return Err(c);
            },
        },
        Opt::TopK => match parse_int(text.as_str()) {
            Some(n) => {
                return Ok(CliConfig { gen: GenOptions { dump_logprobs_top_k: n, ..c.gen }, ..c });
            },
            None => {
                return Err(c);
            },
        },
        Opt::Seed => match parse_u64(text.as_str()) {
            Some(n) => {
                return Ok(CliConfig { gen: GenOptions { seed: n, ..c.gen }, ..c });
            },
            None => {
                return Err(c);
            },
        },
        Opt::MtpMargin => match parse_float_range(number, SINGLE_1000) {
            Some(b) => {
                return Ok(CliConfig { engine: EngineOptions { mtp_margin: b, ..c.engine }, ..c });
            },
            None => {
                return Err(c);
            },
        },
        Opt::Temp => match parse_float_range(number, SINGLE_100) {
            Some(b) => {
                return Ok(CliConfig { gen: GenOptions { temperature: b, ..c.gen }, ..c });
            },
            None => {
                return Err(c);
            },
        },
        Opt::TopP => match parse_float_range(number, SINGLE_ONE) {
            Some(b) => {
                return Ok(CliConfig { gen: GenOptions { top_p: b, ..c.gen }, ..c });
            },
            None => {
                return Err(c);
            },
        },
        _ => {
            return Ok(c);
        },
    }
}

/// The settings with an option that stands alone.
#[verifier::rlimit(40)]
fn set_flag(c: CliConfig, o: Opt) -> (r: CliConfig)
    ensures
        r@ == with_flag(c@, o),
{
    match o {
        Opt::Quality => CliConfig { engine: EngineOptions { quality: true, ..c.engine }, ..c },
        Opt::Cpu => CliConfig { engine: EngineOptions { backend: Backend::Cpu, ..c.engine }, ..c },
        Opt::Metal => CliConfig { engine: EngineOptions { backend: Backend::Metal, ..c.engine }, ..c },
        Opt::DumpTokens => CliConfig { gen: GenOptions { dump_tokens: true, ..c.gen }, ..c },
        Opt::Think => CliConfig { gen: GenOptions { think_mode: ThinkMode::High, ..c.gen }, ..c },
        Opt::ThinkMax => CliConfig { gen: GenOptions { think_mode: ThinkMode::Max, ..c.gen }, ..c },
        Opt::NoThink => CliConfig { gen: GenOptions { think_mode: ThinkMode::Off, ..c.gen }, ..c },
        Opt::HeadTest => CliConfig { gen: GenOptions { head_test: true, ..c.gen }, ..c },
        Opt::FirstTokenTest => CliConfig { gen: GenOptions { first_token_test: true, ..c.gen }, ..c },
        Opt::GraphTest => CliConfig { engine: EngineOptions { backend: Backend::Metal, ..c.engine }, gen: GenOptions { metal_graph_test: true, ..c.gen }, ..c },
        Opt::GraphFullTest => CliConfig { engine: EngineOptions { backend: Backend::Metal, ..c.engine }, gen: GenOptions { metal_graph_full_test: true, ..c.gen }, ..c },
        Opt::GraphPromptTest => CliConfig { engine: EngineOptions { backend: Backend::Metal, ..c.engine }, gen: GenOptions { metal_graph_prompt_test: true, ..c.gen }, ..c },
        Opt::Inspect => CliConfig { inspect: true, ..c },
        Opt::WarmWeights => CliConfig { engine: EngineOptions { warm_weights: true, ..c.engine }, ..c },
        _ => c,
    }
}

/// The bit pattern of the single that a text denotes, where it denotes one.
pub uninterp spec fn single_denoted(s: Seq<char>) -> Option<u32>;

/// Whether both are missing, the same pattern, or both a NaN.
pub open spec fn same_single(a: Option<u32>, b: Option<u32>) -> bool {
    a == b || match (a, b) {
        (Some(x), Some(y)) => nan(x) && nan(y),
        _ => false,
    }
}

/// Calls `str::parse` for a single, whose bits byteorder's `LittleEndian` takes. Which text
/// denotes which single is named, not stated; the bits of a NaN are left open.
#[verifier::external_body]
fn parse_single(s: &str) -> (r: Option<u32>)
    ensures
        same_single(r, single_denoted(s@)),
{
    let mut bytes = [0u8; 4];
    LittleEndian::write_f32(&mut bytes, s.parse().ok()?);
    Some(LittleEndian::read_u32(&bytes))
}

/// The finite number among what a text may denote.
pub open spec fn finite_number(number: Option<u32>) -> Option<u32> {
    match number {
        Some(b) => if finite(b) {
            Some(b)
        } else {
            None
        },
        None => None,
    }
}

/// The finite numbers that the arguments denote.
pub open spec fn numbers_in(args: Seq<Seq<char>>) -> Seq<Option<u32>> {
    Seq::new(args.len(), |i: int| finite_number(single_denoted(args[i])))
}

fn read_numbers(args: &Vec<String>) -> (r: Vec<Option<u32>>)
    ensures
        r@ == numbers_in(string_views(args@)),
{
    let ghost numbers = numbers_in(string_views(args@));
    let mut r: Vec<Option<u32>> = Vec::new();
    let mut i: usize = 0;
    while i < args.len()
        invariant
            i == r@.len() <= args@.len(),
            numbers == numbers_in(string_views(args@)),
            r@ == numbers.subrange(0, i as int),
        decreases args@.len() - i,
    {
        let number = match parse_single(args[i].as_str()) {
            Some(b) => if is_finite(b) {
                Some(b)
            } else {
                None
            },
            None => None,
        };
        assert(number == numbers[i as int]);
        r.push(number);
        i = i + 1;
        assert(r@ =~= numbers.subrange(0, i as int));
    }
    assert(r@ =~= numbers);
    r
}

impl OptionParser {
    /// A parser before the first argument.
    pub fn new() -> (r: Self)
        ensures
            r@ == (ParserView { cfg: default_settings(), at: 0 }),
    {
        let r = OptionParser {
            cfg: CliConfig {
                engine: EngineOptions::default(),
                gen: GenOptions::default(),
                inspect: false,
            },
            at: 0,
        };
        r
    }

    /// Reads on. `numbers` holds, for each argument, the number that it denotes as a
    /// single, where it denotes one.
    pub fn advance(self, args: &Vec<String>, numbers: &Vec<Option<u32>>) -> (r: (Self, ParseStep))
        requires
            numbers@.len() == args@.len(),
        ensures
            (r.0@, r.1@) == parsed(self@, string_views(args@), numbers@),
    {
        let ghost views = string_views(args@);
        let n: usize = args.len();
        let ghost start = parsed(self@, views, numbers@);
        let mut p = self;
        while p.at < n
            invariant
                n == args@.len() == numbers@.len(),
                views == string_views(args@),
                start == parsed(self@, views, numbers@),
                parsed(p@, views, numbers@) == start,
            decreases n - p.at,
        {
            let at: usize = p.at;
            assert(views[at as int] == args@[at as int]@);
            let o = find_option(args[at].as_str());
            if o == Opt::Help {
                return (p, ParseStep::Help);
            }
            if o == Opt::Unknown {
                return (p, ParseStep::Failed(OptionError::Unknown(args[at].clone())));
            }
            let is_prompt = o == Opt::Prompt || o == Opt::PromptFile;
            if is_prompt && p.cfg.gen.prompt.is_some() {
                return (p, ParseStep::Failed(OptionError::TwoPrompts));
            }
            let valued = value_expected(o);
            if (is_prompt || valued) && n - at <= 1 {
                return (p, ParseStep::Failed(OptionError::MissingValue(args[at].clone())));
            }
            if o == Opt::Prompt {
                assert(views[at + 1] == args@[at + 1]@);
                p.cfg.gen.prompt = Some(args[at + 1].clone());
                p.at = at + 2;
            } else if o == Opt::PromptFile {
                assert(views[at + 1] == args@[at + 1]@);
                p.at = at + 2;
                return (p, ParseStep::ReadFile(args[at + 1].clone()));
            } else if valued {
                assert(views[at + 1] == args@[at + 1]@);
                match set_value(p.cfg, o, &args[at + 1], numbers[at + 1]) {
                    Ok(cfg) => {
                        p = OptionParser { cfg, at: at + 2 };
                    },
                    Err(cfg) => {
                        p = OptionParser { cfg, at };
                        return (
                            p,
                            ParseStep::Failed(
                                OptionError::BadValue(args[at].clone(), args[at + 1].clone()),
                            ),
                        );
                    },
                }
            } else {
                p = OptionParser { cfg: set_flag(p.cfg, o), at: at + 1 };
            }
        }
        (p, ParseStep::Done)
    }

    /// Reads on, with the numbers that the arguments denote.
    pub fn parse_options(self, args: &Vec<String>) -> (r: (Self, ParseStep))
        ensures
            (r.0@, r.1@) == parsed(self@, string_views(args@), numbers_in(string_views(args@))),
    {
        let numbers = read_numbers(args);
        self.advance(args, &numbers)
    }

    /// Takes in the contents of the prompt file.
    pub fn file_read(&mut self, content: String)
        ensures
            final(self)@ == (ParserView {
                cfg: with_prompt(old(self)@.cfg, content@),
                ..old(self)@
            }),
    {
        self.cfg.gen.prompt = Some(content);
    }
}

fn value_expected(o: Opt) -> (r: bool)
    ensures
        r == takes_value(o),
{
    match o {
        Opt::System | Opt::Model | Opt::Mtp | Opt::BackendName | Opt::DumpLogprobs | Opt::MtpDraft | Opt::Tokens | Opt::Ctx | Opt::Threads | Opt::TopK | Opt::Seed | Opt::MtpMargin | Opt::Temp | Opt::TopP => true,
        _ => false,
    }
}

} // verus!

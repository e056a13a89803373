//! What the command lines are held to.
use vstd::prelude::*;

use crate::number::{integer, natural};
use crate::options::{
    default_settings, numbers_in, option_named, parsed, single_denoted, CliView, EngineSettings,
    GenSettings, Opt, OptionErrorView, ParseStepView, ParserView,
};
use crate::serve::{default_server, server_settings, ServerView};
use crate::text::lowercase;
use crate::types::{Backend, ThinkMode};

verus! {

/// Whether reading the command line goes on with the settings `c`, `n` arguments further.
pub open spec fn goes_on(
    p: ParserView,
    args: Seq<Seq<char>>,
    numbers: Seq<Option<u32>>,
    c: CliView,
    n: int,
) -> bool {
    parsed(p, args, numbers) == parsed(ParserView { cfg: c, at: p.at + n }, args, numbers)
}

/// Whether reading the command line ends here with an error.
pub open spec fn fails(
    p: ParserView,
    args: Seq<Seq<char>>,
    numbers: Seq<Option<u32>>,
    e: OptionErrorView,
) -> bool {
    parsed(p, args, numbers) == (p, ParseStepView::Failed(e))
}

/// The option of each name.
proof fn lemma_names(s: Seq<char>)
    ensures
        s == "-h"@ ==> option_named(s) == Opt::Help,
        s == "--help"@ ==> option_named(s) == Opt::Help,
        s == "-p"@ ==> option_named(s) == Opt::Prompt,
        s == "--prompt"@ ==> option_named(s) == Opt::Prompt,
        s == "--prompt-file"@ ==> option_named(s) == Opt::PromptFile,
        s == "-sys"@ ==> option_named(s) == Opt::System,
        s == "--system"@ ==> option_named(s) == Opt::System,
        s == "-m"@ ==> option_named(s) == Opt::Model,
        s == "--model"@ ==> option_named(s) == Opt::Model,
        s == "--mtp"@ ==> option_named(s) == Opt::Mtp,
        s == "--backend"@ ==> option_named(s) == Opt::BackendName,
        s == "--dump-logprobs"@ ==> option_named(s) == Opt::DumpLogprobs,
        s == "--mtp-draft"@ ==> option_named(s) == Opt::MtpDraft,
        s == "-n"@ ==> option_named(s) == Opt::Tokens,
        s == "--tokens"@ ==> option_named(s) == Opt::Tokens,
        s == "-c"@ ==> option_named(s) == Opt::Ctx,
        s == "--ctx"@ ==> option_named(s) == Opt::Ctx,
        s == "-t"@ ==> option_named(s) == Opt::Threads,
        s == "--threads"@ ==> option_named(s) == Opt::Threads,
        s == "--logprobs-top-k"@ ==> option_named(s) == Opt::TopK,
        s == "--seed"@ ==> option_named(s) == Opt::Seed,
        s == "--mtp-margin"@ ==> option_named(s) == Opt::MtpMargin,
        s == "--temp"@ ==> option_named(s) == Opt::Temp,
        s == "--top-p"@ ==> option_named(s) == Opt::TopP,
        s == "--quality"@ ==> option_named(s) == Opt::Quality,
        s == "--cpu"@ ==> option_named(s) == Opt::Cpu,
        s == "--metal"@ ==> option_named(s) == Opt::Metal,
        s == "--dump-tokens"@ ==> option_named(s) == Opt::DumpTokens,
        s == "--think"@ ==> option_named(s) == Opt::Think,
        s == "--think-max"@ ==> option_named(s) == Opt::ThinkMax,
        s == "--nothink"@ ==> option_named(s) == Opt::NoThink,
        s == "--head-test"@ ==> option_named(s) == Opt::HeadTest,
        s == "--first-token-test"@ ==> option_named(s) == Opt::FirstTokenTest,
        s == "--metal-graph-test"@ ==> option_named(s) == Opt::GraphTest,
        s == "--metal-graph-full-test"@ ==> option_named(s) == Opt::GraphFullTest,
        s == "--metal-graph-prompt-test"@ ==> option_named(s) == Opt::GraphPromptTest,
        s == "--inspect"@ ==> option_named(s) == Opt::Inspect,
        s == "--warm-weights"@ ==> option_named(s) == Opt::WarmWeights,
{
    reveal_strlit("-h");
    reveal_strlit("--help");
    reveal_strlit("-p");
    reveal_strlit("--prompt");
    reveal_strlit("--prompt-file");
    reveal_strlit("-sys");
    reveal_strlit("--system");
    reveal_strlit("-m");
    reveal_strlit("--model");
    reveal_strlit("--mtp");
    reveal_strlit("--backend");
    reveal_strlit("--dump-logprobs");
    reveal_strlit("--mtp-draft");
    reveal_strlit("-n");
    reveal_strlit("--tokens");
    reveal_strlit("-c");
    reveal_strlit("--ctx");
    reveal_strlit("-t");
    reveal_strlit("--threads");
    reveal_strlit("--logprobs-top-k");
    reveal_strlit("--seed");
    reveal_strlit("--mtp-margin");
    reveal_strlit("--temp");
    reveal_strlit("--top-p");
    reveal_strlit("--quality");
    reveal_strlit("--cpu");
    reveal_strlit("--metal");
    reveal_strlit("--dump-tokens");
    reveal_strlit("--think");
    reveal_strlit("--think-max");
    reveal_strlit("--nothink");
    reveal_strlit("--head-test");
    reveal_strlit("--first-token-test");
    reveal_strlit("--metal-graph-test");
    reveal_strlit("--metal-graph-full-test");
    reveal_strlit("--metal-graph-prompt-test");
    reveal_strlit("--inspect");
    reveal_strlit("--warm-weights");
    assert("-h"@.len() == 2 && "-h"@[1] == 'h');
    assert("-p"@.len() == 2 && "-p"@[1] == 'p');
    assert("-m"@.len() == 2 && "-m"@[1] == 'm');
    assert("-n"@.len() == 2 && "-n"@[1] == 'n');
    assert("-c"@.len() == 2 && "-c"@[1] == 'c');
    assert("-t"@.len() == 2 && "-t"@[1] == 't');
    assert("-sys"@.len() == 4);
    assert("--mtp"@.len() == 5 && "--mtp"@[4] == 'p');
    assert("--ctx"@.len() == 5 && "--ctx"@[4] == 'x');
    assert("--cpu"@.len() == 5 && "--cpu"@[4] == 'u');
    assert("--help"@.len() == 6 && "--help"@[2] == 'h');
    assert("--seed"@.len() == 6 && "--seed"@[2] == 's');
    assert("--temp"@.len() == 6 && "--temp"@[2] == 't');
    assert("--model"@.len() == 7 && "--model"@[4] == 'd');
    assert("--top-p"@.len() == 7 && "--top-p"@[4] == 'p');
    assert("--metal"@.len() == 7 && "--metal"@[4] == 't');
    assert("--think"@.len() == 7 && "--think"@[4] == 'i');
    assert("--prompt"@.len() == 8 && "--prompt"@[2] == 'p');
    assert("--system"@.len() == 8 && "--system"@[2] == 's');
    assert("--tokens"@.len() == 8 && "--tokens"@[2] == 't');
    assert("--backend"@.len() == 9 && "--backend"@[2] == 'b');
    assert("--threads"@.len() == 9 && "--threads"@[2] == 't');
    assert("--quality"@.len() == 9 && "--quality"@[2] == 'q');
    assert("--nothink"@.len() == 9 && "--nothink"@[2] == 'n');
    assert("--inspect"@.len() == 9 && "--inspect"@[2] == 'i');
    assert("--mtp-draft"@.len() == 11 && "--mtp-draft"@[2] == 'm');
    assert("--think-max"@.len() == 11 && "--think-max"@[2] == 't');
    assert("--head-test"@.len() == 11 && "--head-test"@[2] == 'h');
    assert("--mtp-margin"@.len() == 12);
    assert("--prompt-file"@.len() == 13 && "--prompt-file"@[2] == 'p');
    assert("--dump-tokens"@.len() == 13 && "--dump-tokens"@[2] == 'd');
    assert("--warm-weights"@.len() == 14);
    assert("--dump-logprobs"@.len() == 15);
    assert("--logprobs-top-k"@.len() == 16);
    assert("--first-token-test"@.len() == 18 && "--first-token-test"@[2] == 'f');
    assert("--metal-graph-test"@.len() == 18 && "--metal-graph-test"@[2] == 'm');
    assert("--metal-graph-full-test"@.len() == 23);
    assert("--metal-graph-prompt-test"@.len() == 25);
}

/// An option with a text takes it as it stands, and a prompt is taken once.
pub proof fn texts_are_taken_as_they_stand(
    p: ParserView,
    args: Seq<Seq<char>>,
    numbers: Seq<Option<u32>>,
)
    requires
        0 <= p.at,
        p.at + 1 < args.len(),
    ensures
        ({
            let name = args[p.at];
            let v = args[p.at + 1];
            let c = p.cfg;
            &&& c.gen.prompt is None && (name == "-p"@ || name == "--prompt"@) ==> goes_on(p, args, numbers, CliView { gen: GenSettings { prompt: Some(v), ..c.gen }, ..c }, 2)
            &&& (name == "-sys"@ || name == "--system"@) ==> goes_on(p, args, numbers, CliView { gen: GenSettings { system: v, ..c.gen }, ..c }, 2)
            &&& (name == "-m"@ || name == "--model"@) ==> goes_on(p, args, numbers, CliView { engine: EngineSettings { model_path: v, ..c.engine }, ..c }, 2)
            &&& (name == "--mtp"@) ==> goes_on(p, args, numbers, CliView { engine: EngineSettings { mtp_path: Some(v), ..c.engine }, ..c }, 2)
            &&& (name == "--dump-logprobs"@) ==> goes_on(p, args, numbers, CliView { gen: GenSettings { dump_logprobs_path: Some(v), ..c.gen }, ..c }, 2)
            &&& c.gen.prompt is None && name == "--prompt-file"@ ==> parsed(p, args, numbers) == (
                ParserView { cfg: c, at: p.at + 2 },
                ParseStepView::ReadFile(v),
            )
            &&& c.gen.prompt is Some && (name == "-p"@ || name == "--prompt"@ || name
                == "--prompt-file"@) ==> fails(p, args, numbers, OptionErrorView::TwoPrompts)
            &&& name == "--backend"@ && lowercase(v) == "cpu"@ ==> goes_on(p, args, numbers, CliView { engine: EngineSettings { backend: Backend::Cpu, ..c.engine }, ..c }, 2)
            &&& name == "--backend"@ && lowercase(v) != "cpu"@ ==> goes_on(p, args, numbers, CliView { engine: EngineSettings { backend: Backend::Metal, ..c.engine }, ..c }, 2)
        }),
{
    lemma_names(args[p.at]);
}

/// An option with a number takes a positive one that fits, and refuses any other value.
pub proof fn numbers_have_to_be_positive(
    p: ParserView,
    args: Seq<Seq<char>>,
    numbers: Seq<Option<u32>>,
    n: int,
)
    requires
        0 <= p.at,
        p.at + 1 < args.len(),
    ensures
        ({
            let name = args[p.at];
            let v = args[p.at + 1];
            let c = p.cfg;
            let good = integer(v) == Some(n) && 0 < n <= i32::MAX;
            let bad = integer(v) is None || (integer(v) == Some(n) && !(0 < n <= i32::MAX));
            let e = OptionErrorView::BadValue(name, v);
            &&& (name == "--mtp-draft"@) && good ==> goes_on(p, args, numbers, CliView { engine: EngineSettings { mtp_draft_tokens: n as u32, ..c.engine }, ..c }, 2)
            &&& (name == "--mtp-draft"@) && bad ==> fails(p, args, numbers, e)
            &&& (name == "-n"@ || name == "--tokens"@) && good ==> goes_on(p, args, numbers, CliView { gen: GenSettings { n_predict: n as i32, ..c.gen }, ..c }, 2)
            &&& (name == "-n"@ || name == "--tokens"@) && bad ==> fails(p, args, numbers, e)
            &&& (name == "-c"@ || name == "--ctx"@) && good ==> goes_on(p, args, numbers, CliView { gen: GenSettings { ctx_size: n as i32, ..c.gen }, ..c }, 2)
            &&& (name == "-c"@ || name == "--ctx"@) && bad ==> fails(p, args, numbers, e)
            &&& (name == "-t"@ || name == "--threads"@) && good ==> goes_on(p, args, numbers, CliView { engine: EngineSettings { n_threads: n as u32, ..c.engine }, ..c }, 2)
            &&& (name == "-t"@ || name == "--threads"@) && bad ==> fails(p, args, numbers, e)
            &&& (name == "--logprobs-top-k"@) && good ==> goes_on(p, args, numbers, CliView { gen: GenSettings { dump_logprobs_top_k: n as i32, ..c.gen }, ..c }, 2)
            &&& (name == "--logprobs-top-k"@) && bad ==> fails(p, args, numbers, e)
            &&& name == "--seed"@ && natural(v, 10) == Some(n) && 0 < n <= u64::MAX ==> goes_on(p, args, numbers, CliView { gen: GenSettings { seed: n as u64, ..c.gen }, ..c }, 2)
            &&& name == "--seed"@ && (natural(v, 10) is None || natural(v, 10) == Some(0int)) ==> fails(p, args, numbers, e)
        }),
{
    lemma_names(args[p.at]);
}

/// An option with a floating-point number takes one from zero up to its limit: 1000 for the
/// margin of a draft, 100 for the temperature and 1 for the probability of the nucleus.
pub proof fn singles_have_to_be_in_range(
    p: ParserView,
    args: Seq<Seq<char>>,
    numbers: Seq<Option<u32>>,
    b: u32,
)
    requires
        0 <= p.at,
        p.at + 1 < args.len(),
    ensures
        ({
            let name = args[p.at];
            let c = p.cfg;
            let given = numbers[p.at + 1] == Some(b);
            let e = OptionErrorView::BadValue(name, args[p.at + 1]);
            &&& name == "--mtp-margin"@ && given && b <= 0x447a_0000 ==> goes_on(p, args, numbers, CliView { engine: EngineSettings { mtp_margin: b, ..c.engine }, ..c }, 2)
            &&& name == "--mtp-margin"@ && given && b > 0x447a_0000 && b != 0x8000_0000 ==> fails(p, args, numbers, e)
            &&& name == "--mtp-margin"@ && numbers[p.at + 1] is None ==> fails(p, args, numbers, e)
            &&& name == "--temp"@ && given && b <= 0x42c8_0000 ==> goes_on(p, args, numbers, CliView { gen: GenSettings { temperature: b, ..c.gen }, ..c }, 2)
            &&& name == "--temp"@ && given && b > 0x42c8_0000 && b != 0x8000_0000 ==> fails(p, args, numbers, e)
            &&& name == "--temp"@ && numbers[p.at + 1] is None ==> fails(p, args, numbers, e)
            &&& name == "--top-p"@ && given && b <= 0x3f80_0000 ==> goes_on(p, args, numbers, CliView { gen: GenSettings { top_p: b, ..c.gen }, ..c }, 2)
            &&& name == "--top-p"@ && given && b > 0x3f80_0000 && b != 0x8000_0000 ==> fails(p, args, numbers, e)
            &&& name == "--top-p"@ && numbers[p.at + 1] is None ==> fails(p, args, numbers, e)
        }),
{
    lemma_names(args[p.at]);
}

/// An option that stands alone sets what it names and leaves all else: those of the engine.
pub proof fn engine_flags_set_what_they_name(
    p: ParserView,
    args: Seq<Seq<char>>,
    numbers: Seq<Option<u32>>,
)
    requires
        0 <= p.at < args.len(),
    ensures
        ({
            let name = args[p.at];
            let c = p.cfg;
            &&& name == "--quality"@ ==> goes_on(p, args, numbers, CliView { engine: EngineSettings { quality: true, ..c.engine }, ..c }, 1)
            &&& name == "--cpu"@ ==> goes_on(p, args, numbers, CliView { engine: EngineSettings { backend: Backend::Cpu, ..c.engine }, ..c }, 1)
            &&& name == "--metal"@ ==> goes_on(p, args, numbers, CliView { engine: EngineSettings { backend: Backend::Metal, ..c.engine }, ..c }, 1)
            &&& name == "--inspect"@ ==> goes_on(p, args, numbers, CliView { inspect: true, ..c }, 1)
            &&& name == "--warm-weights"@ ==> goes_on(p, args, numbers, CliView { engine: EngineSettings { warm_weights: true, ..c.engine }, ..c }, 1)
        }),
{
    lemma_names(args[p.at]);
}

/// Those of the generation.
pub proof fn generation_flags_set_what_they_name(
    p: ParserView,
    args: Seq<Seq<char>>,
    numbers: Seq<Option<u32>>,
)
    requires
        0 <= p.at < args.len(),
    ensures
        ({
            let name = args[p.at];
            let c = p.cfg;
            &&& name == "--dump-tokens"@ ==> goes_on(p, args, numbers, CliView { gen: GenSettings { dump_tokens: true, ..c.gen }, ..c }, 1)
            &&& name == "--think"@ ==> goes_on(p, args, numbers, CliView { gen: GenSettings { think_mode: ThinkMode::High, ..c.gen }, ..c }, 1)
            &&& name == "--think-max"@ ==> goes_on(p, args, numbers, CliView { gen: GenSettings { think_mode: ThinkMode::Max, ..c.gen }, ..c }, 1)
            &&& name == "--nothink"@ ==> goes_on(p, args, numbers, CliView { gen: GenSettings { think_mode: ThinkMode::Off, ..c.gen }, ..c }, 1)
            &&& name == "--head-test"@ ==> goes_on(p, args, numbers, CliView { gen: GenSettings { head_test: true, ..c.gen }, ..c }, 1)
            &&& name == "--first-token-test"@ ==> goes_on(p, args, numbers, CliView { gen: GenSettings { first_token_test: true, ..c.gen }, ..c }, 1)
        }),
{
    lemma_names(args[p.at]);
}

/// Those of the tests of the graph, which run on Metal.
pub proof fn graph_flags_set_what_they_name(
    p: ParserView,
    args: Seq<Seq<char>>,
    numbers: Seq<Option<u32>>,
)
    requires
        0 <= p.at < args.len(),
    ensures
        ({
            let name = args[p.at];
            let c = p.cfg;
            &&& name == "--metal-graph-test"@ ==> goes_on(p, args, numbers, CliView { engine: EngineSettings { backend: Backend::Metal, ..c.engine }, gen: GenSettings { metal_graph_test: true, ..c.gen }, ..c }, 1)
            &&& name == "--metal-graph-full-test"@ ==> goes_on(p, args, numbers, CliView { engine: EngineSettings { backend: Backend::Metal, ..c.engine }, gen: GenSettings { metal_graph_full_test: true, ..c.gen }, ..c }, 1)
            &&& name == "--metal-graph-prompt-test"@ ==> goes_on(p, args, numbers, CliView { engine: EngineSettings { backend: Backend::Metal, ..c.engine }, gen: GenSettings { metal_graph_prompt_test: true, ..c.gen }, ..c }, 1)
        }),
{
    lemma_names(args[p.at]);
}

/// The help text is shown where it is asked for, and behind the last argument the settings
/// are complete.
pub proof fn command_line_ends(p: ParserView, args: Seq<Seq<char>>, numbers: Seq<Option<u32>>)
    requires
        0 <= p.at < args.len(),
    ensures
        args[p.at] == "-h"@ || args[p.at] == "--help"@ ==> parsed(p, args, numbers) == (
            p,
            ParseStepView::Help,
        ),
        parsed(ParserView { cfg: p.cfg, at: args.len() as int }, args, numbers).1 is Done,
        parsed(ParserView { cfg: p.cfg, at: args.len() as int }, args, numbers).0.cfg == p.cfg,
{
    lemma_names(args[p.at]);
}

/// An argument that is no option is refused, and so is an option whose value is missing.
pub proof fn other_arguments_are_refused(
    p: ParserView,
    args: Seq<Seq<char>>,
    numbers: Seq<Option<u32>>,
)
    requires
        0 <= p.at < args.len(),
        p.cfg.gen.prompt is None,
    ensures
        ({
            let name = args[p.at];
            let missing = fails(p, args, numbers, OptionErrorView::MissingValue(name));
            let last = p.at + 1 == args.len();
            &&& last && name == "-p"@ ==> missing
            &&& last && name == "--prompt"@ ==> missing
            &&& last && name == "--prompt-file"@ ==> missing
            &&& last && name == "-sys"@ ==> missing
            &&& last && name == "--system"@ ==> missing
            &&& last && name == "-m"@ ==> missing
            &&& last && name == "--model"@ ==> missing
            &&& last && name == "--mtp"@ ==> missing
            &&& last && name == "--backend"@ ==> missing
            &&& last && name == "--dump-logprobs"@ ==> missing
            &&& last && name == "--mtp-draft"@ ==> missing
            &&& last && name == "-n"@ ==> missing
            &&& last && name == "--tokens"@ ==> missing
            &&& last && name == "-c"@ ==> missing
            &&& last && name == "--ctx"@ ==> missing
            &&& last && name == "-t"@ ==> missing
            &&& last && name == "--threads"@ ==> missing
            &&& last && name == "--logprobs-top-k"@ ==> missing
            &&& last && name == "--seed"@ ==> missing
            &&& last && name == "--mtp-margin"@ ==> missing
            &&& last && name == "--temp"@ ==> missing
            &&& last && name == "--top-p"@ ==> missing
            &&& name != "-h"@ && name != "--help"@ && name != "-p"@ && name != "--prompt"@ && name != "--prompt-file"@ && name != "-sys"@ && name != "--system"@ && name != "-m"@ && name != "--model"@ && name != "--mtp"@ && name != "--backend"@ && name != "--dump-logprobs"@ && name != "--mtp-draft"@ && name != "-n"@ && name != "--tokens"@ && name != "-c"@ && name != "--ctx"@ && name != "-t"@ && name != "--threads"@ && name != "--logprobs-top-k"@ && name != "--seed"@ && name != "--mtp-margin"@ && name != "--temp"@ && name != "--top-p"@ && name != "--quality"@ && name != "--cpu"@ && name != "--metal"@ && name != "--dump-tokens"@ && name != "--think"@ && name != "--think-max"@ && name != "--nothink"@ && name != "--head-test"@ && name != "--first-token-test"@ && name != "--metal-graph-test"@ && name != "--metal-graph-full-test"@ && name != "--metal-graph-prompt-test"@ && name != "--inspect"@ && name != "--warm-weights"@ ==> fails(
                p,
                args,
                numbers,
                OptionErrorView::Unknown(name),
            )
        }),
{
    lemma_names(args[p.at]);
}

/// What an error says, and the status with which the program ends: 2, but 0 where the help
/// text is shown for an unknown option.
pub proof fn errors_say_what_is_wrong(a: Seq<char>, b: Seq<char>)
    ensures
        OptionErrorView::MissingValue(a).text() == "ds4: missing value for "@ + a,
        OptionErrorView::BadValue(a, b).text() == "ds4: invalid value for "@ + a + ": "@ + b,
        OptionErrorView::TwoPrompts.text() == "ds4: specify only one prompt source"@,
        OptionErrorView::Unknown(a).text() == "ds4: unknown option: "@ + a,
        OptionErrorView::MissingValue(a).status() == 2,
        OptionErrorView::BadValue(a, b).status() == 2,
        OptionErrorView::TwoPrompts.status() == 2,
        OptionErrorView::Unknown(a).status() == 0,
{
}

/// The number of an argument is the finite single that it denotes.
pub proof fn numbers_are_finite(args: Seq<Seq<char>>, i: int)
    requires
        0 <= i < args.len(),
    ensures
        numbers_in(args).len() == args.len(),
        single_denoted(args[i]) matches Some(b) ==> (b < 0x7f80_0000 || 0x8000_0000 <= b
            < 0xff80_0000 ==> numbers_in(args)[i] == Some(b)),
        single_denoted(args[i]) matches Some(b) ==> (0x7f80_0000 <= b < 0x8000_0000 || b
            >= 0xff80_0000 ==> numbers_in(args)[i] is None),
        single_denoted(args[i]) is None ==> numbers_in(args)[i] is None,
{
}

/// The settings where none is given.
pub proof fn defaults_of_the_program()
    ensures
        ({
            let d = default_settings();
            &&& d.engine.model_path == "ds4flash.gguf"@ && d.engine.mtp_path is None
            &&& d.engine.backend == Backend::Metal && d.engine.n_threads == 0
            &&& d.engine.mtp_draft_tokens == 1 && d.engine.mtp_margin == 0x4040_0000
            &&& !d.engine.warm_weights && !d.engine.quality && !d.inspect
            &&& d.gen.prompt is None && d.gen.system == "You are a helpful assistant"@
            &&& d.gen.n_predict == 50000 && d.gen.ctx_size == 32768
            &&& d.gen.temperature == 0x3f80_0000 && d.gen.top_p == 0x3f80_0000 && d.gen.seed == 0
            &&& d.gen.think_mode == ThinkMode::High
            &&& d.gen.dump_logprobs_path is None && d.gen.dump_logprobs_top_k == 20
            &&& !d.gen.dump_tokens && !d.gen.head_test && !d.gen.first_token_test
            &&& !d.gen.metal_graph_test && !d.gen.metal_graph_full_test
            &&& !d.gen.metal_graph_prompt_test
        }),
        ({
            let s = default_server();
            &&& s.model_path == "ds4flash.gguf"@ && s.ctx_size == 32768
            &&& s.host == "127.0.0.1"@ && s.port == 8080
            &&& s.backend == Backend::Metal && s.n_threads == 0 && !s.quality
            &&& s.disk_cache_dir is None && s.max_disk_cache_entries == 100
        }),
{
}

/// Whether reading the server's command line goes on with the settings `d`, `n` arguments
/// further.
pub open spec fn serves_on(
    args: Seq<Seq<char>>,
    i: int,
    c: ServerView,
    d: ServerView,
    n: int,
) -> bool {
    server_settings(args, i, c) == server_settings(args, i + n, d)
}

/// An option of the server sets what it names, and leaves all else; a number that does not
/// fit is replaced by the default.
pub proof fn server_options_set_what_they_name(args: Seq<Seq<char>>, i: int, c: ServerView, n: int)
    requires
        0 <= i,
        i + 1 < args.len(),
    ensures
        ({
            let name = args[i];
            let v = args[i + 1];
            let given = natural(v, 10) == Some(n);
            &&& (name == "-m"@ || name == "--model"@) ==> serves_on(args, i, c, ServerView { model_path: v, ..c }, 2)
            &&& (name == "--host"@) ==> serves_on(args, i, c, ServerView { host: v, ..c }, 2)
            &&& (name == "--disk-cache"@) ==> serves_on(args, i, c, ServerView { disk_cache_dir: Some(v), ..c }, 2)
            &&& (name == "-c"@ || name == "--ctx"@) && given && n <= u32::MAX ==> serves_on(args, i, c, ServerView { ctx_size: n as u32, ..c }, 2)
            &&& (name == "-c"@ || name == "--ctx"@) && (given && n > u32::MAX || natural(v, 10) is None) ==> serves_on(args, i, c, ServerView { ctx_size: 32768, ..c }, 2)
            &&& (name == "--port"@) && given && n <= u16::MAX ==> serves_on(args, i, c, ServerView { port: n as u16, ..c }, 2)
            &&& (name == "--port"@) && (given && n > u16::MAX || natural(v, 10) is None) ==> serves_on(args, i, c, ServerView { port: 8080, ..c }, 2)
            &&& (name == "-t"@ || name == "--threads"@) && given && n <= u32::MAX ==> serves_on(args, i, c, ServerView { n_threads: n as u32, ..c }, 2)
            &&& (name == "-t"@ || name == "--threads"@) && (given && n > u32::MAX || natural(v, 10) is None) ==> serves_on(args, i, c, ServerView { n_threads: 0, ..c }, 2)
            &&& (name == "--max-disk-cache"@) && given && n <= u32::MAX ==> serves_on(args, i, c, ServerView { max_disk_cache_entries: n as u32, ..c }, 2)
            &&& (name == "--max-disk-cache"@) && (given && n > u32::MAX || natural(v, 10) is None) ==> serves_on(args, i, c, ServerView { max_disk_cache_entries: 100, ..c }, 2)
            &&& name == "--metal"@ ==> serves_on(args, i, c, ServerView { backend: Backend::Metal, ..c }, 1)
            &&& name == "--cpu"@ ==> serves_on(args, i, c, ServerView { backend: Backend::Cpu, ..c }, 1)
            &&& name == "--quality"@ ==> serves_on(args, i, c, ServerView { quality: true, ..c }, 1)
            &&& name == "-h"@ || name == "--help"@ ==> server_settings(args, i, c) is None
            &&& name != "-h"@ && name != "--help"@ && name != "-m"@ && name != "--model"@ && name != "-c"@ && name != "--ctx"@ && name != "--host"@ && name != "--port"@ && name != "-t"@ && name != "--threads"@ && name != "--disk-cache"@ && name != "--max-disk-cache"@ && name != "--metal"@ && name != "--cpu"@ && name != "--quality"@ ==> serves_on(args, i, c, c, 1)
        }),
        server_settings(args, args.len() as int, c) == Some(c),
{
    reveal_strlit("-h");
    reveal_strlit("--help");
    reveal_strlit("-m");
    reveal_strlit("--model");
    reveal_strlit("-c");
    reveal_strlit("--ctx");
    reveal_strlit("--host");
    reveal_strlit("--port");
    reveal_strlit("-t");
    reveal_strlit("--threads");
    reveal_strlit("--disk-cache");
    reveal_strlit("--max-disk-cache");
    reveal_strlit("--metal");
    reveal_strlit("--cpu");
    reveal_strlit("--quality");
    assert("-h"@.len() == 2 && "-h"@[1] == 'h');
    assert("-m"@.len() == 2 && "-m"@[1] == 'm');
    assert("-c"@.len() == 2 && "-c"@[1] == 'c');
    assert("-t"@.len() == 2 && "-t"@[1] == 't');
    assert("--ctx"@.len() == 5 && "--ctx"@[3] == 't');
    assert("--cpu"@.len() == 5 && "--cpu"@[3] == 'p');
    assert("--help"@.len() == 6 && "--help"@[4] == 'l');
    assert("--host"@.len() == 6 && "--host"@[4] == 's');
    assert("--port"@.len() == 6 && "--port"@[4] == 'r');
    assert("--model"@.len() == 7 && "--model"@[3] == 'o');
    assert("--metal"@.len() == 7 && "--metal"@[3] == 'e');
    assert("--threads"@.len() == 9 && "--threads"@[2] == 't');
    assert("--quality"@.len() == 9 && "--quality"@[2] == 'q');
    assert("--disk-cache"@.len() == 12);
    assert("--max-disk-cache"@.len() == 16);
}

} // verus!

//! What the interactive prompt and the printing of tokens are held to.
use vstd::prelude::*;
use vstd::utf8::{decode_utf8, encode_utf8, is_ascii_chars_encode_utf8, valid_utf8};

use crate::chat::{chat_prompt, rendered_tokens};
use crate::number::integer;
use crate::options::GenSettings;
use crate::printer::{
    begins, close_tag, closed, flushed, open_tag, partial_tag, printed, processed, written,
    PrinterView,
};
use crate::repl::{
    answer, command_of, ctx_after, downgrade_lines, downgraded, help_lines, mode_after, mode_lines,
    next_of, run_prompt, run_steps, CommandView, LineView, NextView, RunStep,
};
use crate::report::memory_text;
use crate::text::{dec_int, matches_at, trimmed};
use crate::tokenizer::VocabView;
use crate::types::{Backend, ThinkMode};

verus! {

/// A line calls for the command that it names; one that begins otherwise is for the model.
pub proof fn lines_name_their_commands(line: Seq<char>)
    ensures
        ({
            let cmd = trimmed(line);
            let c = command_of(line);
            &&& cmd.len() == 0 ==> c is Nothing
            &&& cmd == "/help"@ ==> c is Help
            &&& cmd == "/think"@ ==> c is Think
            &&& cmd == "/think-max"@ ==> c is ThinkMax
            &&& cmd == "/nothink"@ ==> c is NoThink
            &&& cmd == "/quit"@ || cmd == "/exit"@ ==> c is Quit
            &&& cmd.len() > 0 && cmd[0] != '/' ==> c == CommandView::Say(cmd)
        }),
{
    let cmd = trimmed(line);
    reveal_strlit("/help");
    reveal_strlit("/think");
    reveal_strlit("/think-max");
    reveal_strlit("/nothink");
    reveal_strlit("/quit");
    reveal_strlit("/exit");
    reveal_strlit("/ctx");
    reveal_strlit("/read");
    assert("/help"@.len() == 5 && "/help"@[1] == 'h');
    assert("/quit"@.len() == 5 && "/quit"@[1] == 'q');
    assert("/exit"@.len() == 5 && "/exit"@[1] == 'e');
    assert("/think"@.len() == 6);
    assert("/nothink"@.len() == 8);
    assert("/think-max"@.len() == 10);
    assert("/ctx"@[0] == '/' && "/ctx"@[1] == 'c' && "/read"@[0] == '/' && "/read"@[1] == 'r');
    assert("/help"@[1] == 'h' && "/think"@[1] == 't' && "/think-max"@[1] == 't' && "/nothink"@[1]
        == 'n' && "/quit"@[1] == 'q' && "/exit"@[1] == 'e');
    assert("/help"@[0] == '/' && "/think"@[0] == '/' && "/think-max"@[0] == '/' && "/nothink"@[0]
        == '/' && "/quit"@[0] == '/' && "/exit"@[0] == '/');
    if matches_at(cmd, "/ctx"@, 0) {
        assert(cmd.subrange(0, 4)[0] == cmd[0] && cmd.subrange(0, 4)[1] == cmd[1]);
    }
    if matches_at(cmd, "/read"@, 0) {
        assert(cmd.subrange(0, 5)[0] == cmd[0] && cmd.subrange(0, 5)[1] == cmd[1]);
    }
}

/// What stands behind `/ctx` has to be a positive number, and what stands behind `/read` is
/// the path of a file.
pub proof fn commands_take_operands(line: Seq<char>, rest: Seq<char>, n: int)
    ensures
        trimmed(line) == "/ctx"@ + rest ==> {
            &&& integer(trimmed(rest)) == Some(n) && 0 < n <= i32::MAX ==> command_of(line)
                == CommandView::Ctx(n as i32)
            &&& integer(trimmed(rest)) == Some(n) && !(0 < n <= i32::MAX) ==> command_of(line)
                is BadCtx
            &&& integer(trimmed(rest)) is None ==> command_of(line) is BadCtx
        },
        trimmed(line) == "/read"@ + rest ==> {
            &&& trimmed(rest).len() > 0 ==> command_of(line) == CommandView::Read(trimmed(rest))
            &&& trimmed(rest).len() == 0 ==> command_of(line) is BadRead
        },
{
    let cmd = trimmed(line);
    reveal_strlit("/help");
    reveal_strlit("/think");
    reveal_strlit("/think-max");
    reveal_strlit("/nothink");
    reveal_strlit("/quit");
    reveal_strlit("/exit");
    reveal_strlit("/ctx");
    reveal_strlit("/read");
    assert("/ctx"@[1] == 'c' && "/read"@[1] == 'r');
    assert("/help"@[1] == 'h' && "/think"@[1] == 't' && "/think-max"@[1] == 't' && "/nothink"@[1]
        == 'n' && "/quit"@[1] == 'q' && "/exit"@[1] == 'e');
    if cmd == "/ctx"@ + rest {
        assert(cmd[1] == 'c');
        assert(cmd.subrange(0, 4) =~= "/ctx"@);
        assert(cmd.subrange(4, cmd.len() as int) =~= rest);
    }
    if cmd == "/read"@ + rest {
        assert(cmd[1] == 'r');
        assert(cmd.subrange(0, 5) =~= "/read"@);
        assert(cmd.subrange(5, cmd.len() as int) =~= rest);
        if matches_at(cmd, "/ctx"@, 0) {
            assert(cmd.subrange(0, 4)[1] == cmd[1]);
        }
    }
}

/// A command changes the thinking mode or the context that it names, and nothing else; a
/// new context needs a new session.
pub proof fn commands_change_what_they_name(mode: ThinkMode, ctx: i32, n: i32, s: Seq<char>)
    ensures
        mode_after(CommandView::Think, mode) == ThinkMode::High,
        mode_after(CommandView::ThinkMax, mode) == ThinkMode::Max,
        mode_after(CommandView::NoThink, mode) == ThinkMode::Off,
        mode_after(CommandView::Ctx(n), mode) == mode,
        mode_after(CommandView::Say(s), mode) == mode,
        mode_after(CommandView::Unknown(s), mode) == mode,
        ctx_after(CommandView::Ctx(n), ctx) == n,
        ctx_after(CommandView::BadCtx, ctx) == ctx,
        ctx_after(CommandView::ThinkMax, ctx) == ctx,
        ctx_after(CommandView::Say(s), ctx) == ctx,
        next_of(CommandView::Ctx(n)) is NewSession,
        next_of(CommandView::Read(s)) == NextView::ReadFile(s),
        next_of(CommandView::Quit) is Leave,
        next_of(CommandView::Say(s)) is Prompt && next_of(CommandView::Unknown(s)) is Prompt,
        next_of(CommandView::BadCtx) is Prompt && next_of(CommandView::Help) is Prompt,
{
}

/// What a command is answered.
pub proof fn commands_are_answered(
    backend: Backend,
    mode: ThinkMode,
    ctx: i32,
    alive: bool,
    n: i32,
    s: Seq<char>,
)
    ensures
        answer(CommandView::Nothing, backend, mode, ctx, alive).len() == 0,
        answer(CommandView::Ctx(n), backend, mode, ctx, alive) == seq![
            LineView::Info(memory_text(backend, n)),
        ],
        answer(CommandView::BadCtx, backend, mode, ctx, alive) == seq![
            LineView::Err_("ds4: /ctx needs a positive integer"@),
        ],
        answer(CommandView::BadRead, backend, mode, ctx, alive) == seq![
            LineView::Err_("ds4: /read needs a file path"@),
        ],
        answer(CommandView::Unknown(s), backend, mode, ctx, alive) == seq![
            LineView::Err_("ds4: unknown command: "@ + s),
            LineView::Err_("ds4: type /help for commands"@),
        ],
        answer(CommandView::Say(s), backend, mode, ctx, false) == seq![
            LineView::Err_("ds4: session unavailable; cannot generate"@),
        ],
        answer(CommandView::Say(s), backend, mode, ctx, true) == seq![
            LineView::Err_("ds4: interactive generation placeholder for: "@ + s),
        ],
        answer(CommandView::ThinkMax, backend, mode, ctx, alive) == mode_lines(mode, ctx),
        mode_lines(ThinkMode::High, ctx) == seq![LineView::Out("Thinking mode: high."@)],
        mode_lines(ThinkMode::Off, ctx) == seq![LineView::Out("Thinking mode: none."@)],
        ctx >= 393216 ==> mode_lines(ThinkMode::Max, ctx) == seq![
            LineView::Out("Thinking mode: max."@),
        ],
        ctx < 393216 ==> mode_lines(ThinkMode::Max, ctx) == seq![
            LineView::Warn(
                "--think-max needs --ctx >= 393216; ctx="@ + dec_int(ctx as int)
                    + " uses normal thinking instead"@,
            ),
            LineView::Out("Thinking mode: high (ctx below 393216)."@),
        ],
        downgraded(mode, ctx) <==> mode == ThinkMode::Max && ctx < 393216,
        !downgraded(mode, ctx) ==> downgrade_lines(mode, ctx).len() == 0,
{
    if ctx >= 393216 {
        assert(mode_lines(ThinkMode::Max, ctx) =~= seq![LineView::Out("Thinking mode: max."@)]);
    } else {
        assert(mode_lines(ThinkMode::Max, ctx) =~= seq![
            LineView::Warn(
                "--think-max needs --ctx >= 393216; ctx="@ + dec_int(ctx as int)
                    + " uses normal thinking instead"@,
            ),
            LineView::Out("Thinking mode: high (ctx below 393216)."@),
        ]);
    }
}

/// A prompt that is a rendered conversation goes to the model as it is; any other one is
/// framed, with the system text where there is one and in the mode that the context allows.
pub proof fn prompts_are_framed_once(v: VocabView, g: GenSettings, p: Seq<char>)
    requires
        g.prompt == Some(p),
    ensures
        ({
            let mark = "<｜begin▁of▁sentence｜>"@;
            let rendered = mark.len() <= p.len() && p.subrange(0, mark.len() as int) == mark;
            let mode = if g.think_mode == ThinkMode::Max && g.ctx_size < 393216 {
                ThinkMode::High
            } else {
                g.think_mode
            };
            &&& rendered ==> run_prompt(v, g) == rendered_tokens(v, p)
            &&& !rendered && g.system.len() > 0 ==> run_prompt(v, g) == chat_prompt(
                v,
                Some(g.system),
                p,
                mode,
            )
            &&& !rendered && g.system.len() == 0 ==> run_prompt(v, g) == chat_prompt(
                v,
                None,
                p,
                mode,
            )
        }),
{
}

/// A run generates unless it is a test or a dump: by sampling where the temperature is above
/// zero or there is a draft model, and else by taking the most probable token.
pub proof fn runs_generate_unless_they_test(g: GenSettings, draft: bool)
    ensures
        ({
            let steps = run_steps(g, draft);
            let graph = g.metal_graph_test || g.metal_graph_full_test || g.metal_graph_prompt_test;
            let plain = !graph && g.dump_logprobs_path is None && !g.dump_tokens && !g.head_test
                && !g.first_token_test;
            &&& plain && (draft || 0 < g.temperature <= 0x7f80_0000) ==> steps == seq![
                RunStep::Sample,
            ]
            &&& plain && !draft && g.temperature == 0 ==> steps == seq![RunStep::Greedy]
            &&& !plain ==> steps.len() > 0 && steps.last() != RunStep::Sample && steps.last()
                != RunStep::Greedy
            &&& g.metal_graph_test ==> steps.last() == RunStep::MetalGraphTest
            &&& !g.metal_graph_test && g.metal_graph_full_test ==> steps.last()
                == RunStep::MetalGraphFullTest
            &&& !g.metal_graph_test && !g.metal_graph_full_test && g.metal_graph_prompt_test
                ==> steps.last() == RunStep::MetalGraphPromptTest
            &&& !graph && g.dump_logprobs_path is Some ==> steps.last() == RunStep::DumpLogprobs
            &&& g.head_test ==> steps[0] == RunStep::HeadTest
            &&& !g.head_test && g.first_token_test ==> steps[0] == RunStep::FirstTokenTest
            &&& !g.head_test && !g.first_token_test && g.dump_tokens ==> steps[0]
                == RunStep::DumpTokens
        }),
{
    let steps = run_steps(g, draft);
    let graph = g.metal_graph_test || g.metal_graph_full_test || g.metal_graph_prompt_test;
    if !graph && g.dump_logprobs_path is None && !g.dump_tokens && !g.head_test
        && !g.first_token_test {
        if draft || 0 < g.temperature <= 0x7f80_0000 {
            assert(steps =~= seq![RunStep::Sample]);
        } else if g.temperature == 0 {
            assert(steps =~= seq![RunStep::Greedy]);
        }
    }
}

proof fn lemma_tags()
    ensures
        open_tag() == encode_utf8("<think>"@),
        open_tag().len() == 7,
        open_tag()[0] == 60,
        open_tag()[1] == 116,
        close_tag() == encode_utf8("</think>"@),
        close_tag().len() == 8,
        close_tag()[0] == 60,
        close_tag()[1] == 47,
{
    reveal_strlit("<think>");
    reveal_strlit("</think>");
    is_ascii_chars_encode_utf8("<think>"@);
    is_ascii_chars_encode_utf8("</think>"@);
    assert("<think>"@[0] == '<' && "<think>"@[1] == 't');
    assert("</think>"@[0] == '<' && "</think>"@[1] == '/');
}

/// The tags of reasoning are not printed. Behind the opening tag the text is reasoning;
/// behind the closing tag it is not, the colour is ended where one is on, and so is the line.
pub proof fn tags_are_not_printed(p: PrinterView)
    requires
        p.format_thinking,
        p.pending.len() == 0,
    ensures
        ({
            let (q, out) = written(p, encode_utf8("<think>"@));
            out.len() == 0 && q.in_think && q.color_open == p.color_open && q.newline == p.newline
        }),
        ({
            let (q, out) = written(p, encode_utf8("</think>"@));
            &&& !q.in_think && q.newline
            &&& p.use_color ==> !q.color_open
            &&& out == (if p.use_color && p.color_open {
                "\u{1b}[0m"@
            } else {
                Seq::empty()
            }) + (if p.newline {
                Seq::empty()
            } else {
                seq!['\n']
            })
        }),
{
    lemma_tags();
    let start = PrinterView { pending: Seq::empty(), ..p };
    let a = open_tag();
    let b = close_tag();
    assert(p.pending + a =~= a);
    assert(p.pending + b =~= b);
    assert(a.subrange(0, 7) =~= a);
    assert(b.subrange(0, 8) =~= b);
    reveal_with_fuel(printed, 2);
    assert(printed(start, a, 0, false).1 =~= Seq::empty());
    if b.subrange(0, 7) == a {
        assert(b.subrange(0, 7)[1] == b[1]);
    }
    let (q, out) = printed(start, b, 0, false);
    assert(out =~= (if p.use_color && p.color_open {
        "\u{1b}[0m"@
    } else {
        Seq::empty()
    }) + (if p.newline {
        Seq::empty()
    } else {
        seq!['\n']
    }));
}

/// Any other character is printed, and reasoning in grey where colours are in use: the
/// colour is switched on once.
pub proof fn reasoning_is_printed_in_grey(p: PrinterView, c: u8)
    requires
        p.format_thinking,
        p.pending.len() == 0,
        c != 60,
    ensures
        ({
            let (q, out) = written(p, seq![c]);
            let grey = p.in_think && p.use_color && !p.color_open;
            &&& out == (if grey {
                "\u{1b}[90m"@
            } else {
                Seq::empty()
            }) + seq![c as char]
            &&& q.newline == (c == 10)
            &&& q.color_open == (p.color_open || grey)
            &&& q.in_think == p.in_think && q.pending.len() == 0
        }),
{
    lemma_tags();
    let start = PrinterView { pending: Seq::empty(), ..p };
    let b = seq![c];
    assert(p.pending + b =~= b);
    reveal_with_fuel(printed, 2);
    assert(b.subrange(0, 1) =~= b);
    assert(!begins(b, open_tag())) by {
        assert(open_tag().subrange(0, 1)[0] == 60);
    }
    assert(!begins(b, close_tag())) by {
        assert(close_tag().subrange(0, 1)[0] == 60);
    }
    assert(!partial_tag(b, 0));
    let (q, out) = printed(start, b, 0, false);
    assert(out =~= (if p.in_think && p.use_color && !p.color_open {
        "\u{1b}[90m"@
    } else {
        Seq::empty()
    }) + seq![c as char]);
}

/// Without formatting a text is printed as it stands.
pub proof fn unformatted_text_is_printed_as_it_stands(p: PrinterView, text: Seq<u8>)
    requires
        !p.format_thinking,
        text.len() > 0,
        valid_utf8(text),
    ensures
        written(p, text).1 == decode_utf8(text),
        written(p, text).0.newline == (text.last() == 10),
        flushed(p).1.len() == 0,
{
}

/// At the end nothing is kept back, the colour is off and the line is ended.
pub proof fn end_closes_colour_and_line(p: PrinterView)
    requires
        p.pending.len() == 0,
    ensures
        closed(p).0.newline,
        p.format_thinking && p.use_color ==> !closed(p).0.color_open,
        p.format_thinking ==> closed(p).1 == (if p.use_color && p.color_open {
            "\u{1b}[0m"@
        } else {
            Seq::empty()
        }) + (if p.newline {
            Seq::empty()
        } else {
            seq!['\n']
        }),
{
    let none = Seq::<u8>::empty();
    assert(p.pending + none =~= none);
    assert(processed(p, none, true).1 =~= Seq::empty());
    if p.format_thinking {
        assert(closed(p).1 =~= (if p.use_color && p.color_open {
            "\u{1b}[0m"@
        } else {
            Seq::empty()
        }) + (if p.newline {
            Seq::empty()
        } else {
            seq!['\n']
        }));
    }
}

/// The help names every command.
pub proof fn help_names_every_command()
    ensures
        help_lines() == seq![
            LineView::Out("Commands:"@),
            LineView::Out("  /help          Show this help."@),
            LineView::Out("  /think         Use normal thinking mode."@),
            LineView::Out(
                "  /think-max     Use Think Max only when context is at least 393216 tokens."@,
            ),
            LineView::Out("  /nothink       Disable thinking mode."@),
            LineView::Out("  /ctx N         Set context size for following prompts."@),
            LineView::Out("  /read FILE     Read a prompt from FILE and run it."@),
            LineView::Out("  /quit, /exit   Leave the prompt."@),
            LineView::Out("  Ctrl+C         Stop generation and return to the prompt."@),
        ],
{
}

/// The beginning of a tag is kept back, and printed after all where nothing follows it.
pub proof fn kept_bytes_are_printed_at_the_end(p: PrinterView)
    requires
        p.format_thinking,
        p.pending.len() == 0,
        !p.in_think,
    ensures
        ({
            let (q, out) = written(p, seq![60u8]);
            out.len() == 0 && q.pending == seq![60u8] && flushed(q).1 == (seq!['<'] + (if p.use_color
                && p.color_open {
                "\u{1b}[0m"@
            } else {
                Seq::empty()
            }))
        }),
{
    lemma_tags();
    let b = seq![60u8];
    let start = PrinterView { pending: Seq::empty(), ..p };
    assert(p.pending + b =~= b);
    assert(b.subrange(0, 1) =~= b);
    assert(open_tag().subrange(0, 1) =~= b);
    assert(begins(b, open_tag()));
    assert(partial_tag(b, 0));
    reveal_with_fuel(printed, 3);
    let q = written(p, b).0;
    assert(q.pending == b);
    assert(q.pending + Seq::<u8>::empty() =~= b);
    let (r, out) = processed(q, Seq::empty(), true);
    assert(out =~= seq!['<']);
    assert(flushed(q).1 =~= seq!['<'] + (if p.use_color && p.color_open {
        "\u{1b}[0m"@
    } else {
        Seq::empty()
    }));
}

} // verus!

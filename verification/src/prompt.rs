//! Prompts: a conversation as the text that the model reads.
use vstd::prelude::*;

use crate::dsml::{calls_text, escape_dsml_text, escaped_text, format_tool_calls_dsml};
use crate::json::json_text;
use crate::request::{
    message_views, tool_views, tools_wf, ChatMessage, ChatMessageView, ToolDefinition, ToolView,
};
use crate::text::{append, is_empty_text, same_text};
use crate::types::{think_max_prefix, ThinkMode, DS4_REASONING_EFFORT_MAX_PREFIX};

verus! {

/// The instructions before the list of tools.
pub const TOOLS_INTRODUCTION: &'static str = "\n\n## Tools\n\nYou have access to a set of tools to help answer the user question. You can invoke tools by writing a \"｜DSML｜tool_calls>\" block like the following:\n\n｜DSML｜tool_calls>\n｜DSML｜invoke name=\"$TOOL_NAME\">\n｜DSML｜parameter name=\"$PARAMETER_NAME\" string=\"true|false\">$PARAMETER_VALUE｜DSML｜/parameter>\n...\n｜DSML｜/invoke>\n｜DSML｜/tool_calls>\n\nString parameters should be specified as raw text and set `string=\"true\"`. For all other types (numbers, booleans, arrays, objects), pass the value in JSON format.\n\n";

/// The instruction behind the list of tools.
pub const TOOLS_CONCLUSION: &'static str = "You MUST strictly follow the above defined tool name and parameter schemas to invoke tool calls.";

/// The section on one tool.
pub open spec fn tool_section(t: ToolView) -> Seq<char> {
    "### "@ + t.name + "\n\n"@ + (match t.description {
        Some(d) => d,
        None => Seq::empty(),
    }) + "\n\n```json\n"@ + json_text(t.parameters) + "\n```\n\n"@
}

/// The sections on the first `n` tools.
pub open spec fn tool_sections(tools: Seq<ToolView>, n: nat) -> Seq<char>
    decreases n,
{
    if n == 0 {
        Seq::empty()
    } else {
        tool_sections(tools, (n - 1) as nat) + tool_section(tools[n - 1])
    }
}

pub open spec fn tools_text(tools: Seq<ToolView>) -> Seq<char> {
    TOOLS_INTRODUCTION@ + tool_sections(tools, tools.len()) + TOOLS_CONCLUSION@
}

pub open spec fn system_role(role: Seq<char>) -> bool {
    role == "system"@ || role == "developer"@
}

/// A text with a blank line and another text behind it.
pub open spec fn paragraph(s: Seq<char>, t: Seq<char>) -> Seq<char> {
    (if s.len() > 0 {
        s + "\n\n"@
    } else {
        s
    }) + t
}

/// The system texts among the first `n` messages, with blank lines between them.
pub open spec fn system_texts(msgs: Seq<ChatMessageView>, n: nat) -> Seq<char>
    decreases n,
{
    if n == 0 {
        Seq::empty()
    } else {
        let rest = system_texts(msgs, (n - 1) as nat);
        let m = msgs[n - 1];
        if system_role(m.role) && m.content.len() > 0 {
            paragraph(rest, m.content)
        } else {
            rest
        }
    }
}

/// The system part of a prompt: the system texts and the tools.
pub open spec fn system_part(msgs: Seq<ChatMessageView>, tools: Seq<ToolView>) -> Seq<char> {
    let s = system_texts(msgs, msgs.len());
    if tools.len() > 0 {
        paragraph(s, tools_text(tools))
    } else {
        s
    }
}

/// Whether tools play a part: they are offered, or one of the first `n` messages calls
/// one.
pub open spec fn calls_tools(msgs: Seq<ChatMessageView>, n: nat) -> bool
    decreases n,
{
    n > 0 && ((msgs[n - 1].role == "assistant"@ && msgs[n - 1].tool_calls.len() > 0)
        || calls_tools(msgs, (n - 1) as nat))
}

pub open spec fn tool_context(msgs: Seq<ChatMessageView>, tools: Seq<ToolView>) -> bool {
    tools.len() > 0 || calls_tools(msgs, msgs.len())
}

/// Whether one of the first `n` messages is the assistant's.
pub open spec fn answered(msgs: Seq<ChatMessageView>, n: nat) -> bool
    decreases n,
{
    n > 0 && (msgs[n - 1].role == "assistant"@ || answered(msgs, (n - 1) as nat))
}

/// What an answer of the assistant opens with: its reasoning, kept where tools play a
/// part and in the first answer.
pub open spec fn answer_opening(
    msgs: Seq<ChatMessageView>,
    i: nat,
    thinking: bool,
    tool_ctx: bool,
) -> Seq<char> {
    "<｜Assistant｜>"@ + if thinking && (tool_ctx || !answered(msgs, i)) {
        "<think>"@ + (match msgs[i as int].reasoning_content {
            Some(r) => r,
            None => Seq::empty(),
        }) + "</think>"@
    } else {
        "</think>"@
    }
}

/// Message `i` as text, and whether an answer is due behind it; `due` says whether one
/// was before it.
#[verifier::opaque]
pub open spec fn turn(
    msgs: Seq<ChatMessageView>,
    i: nat,
    thinking: bool,
    tool_ctx: bool,
    due: bool,
) -> (Seq<char>, bool) {
    let m = msgs[i as int];
    if m.role == "user"@ {
        ("<｜User｜>"@ + m.content, true)
    } else if m.role == "tool"@ || m.role == "function"@ {
        ("<tool_result>"@ + escaped_text(m.content) + "</tool_result>"@, true)
    } else if m.role == "assistant"@ {
        (
            (if due {
                answer_opening(msgs, i, thinking, tool_ctx)
            } else {
                Seq::empty()
            }) + m.content + calls_text(m.tool_calls) + "<｜end▁of▁sentence｜>"@,
            false,
        )
    } else {
        (Seq::empty(), due)
    }
}

/// The first `n` messages as text, and whether an answer is due.
pub open spec fn turns(
    msgs: Seq<ChatMessageView>,
    thinking: bool,
    tool_ctx: bool,
    n: nat,
) -> (Seq<char>, bool)
    decreases n,
{
    if n == 0 {
        (Seq::empty(), false)
    } else {
        let i = (n - 1) as nat;
        let (out, due) = turns(msgs, thinking, tool_ctx, i);
        let (text, next) = turn(msgs, i, thinking, tool_ctx, due);
        (out + text, next)
    }
}

/// The marker with which the model's turn opens.
pub open spec fn turn_marker(mode: ThinkMode) -> Seq<char> {
    if mode != ThinkMode::Off {
        "<think>"@
    } else {
        "</think>"@
    }
}

/// What every prompt begins with.
pub open spec fn prompt_opening(mode: ThinkMode) -> Seq<char> {
    "<｜begin▁of▁sentence｜>"@ + if mode == ThinkMode::Max {
        DS4_REASONING_EFFORT_MAX_PREFIX@
    } else {
        Seq::empty()
    }
}

/// The prompt of a conversation.
pub open spec fn chat_text(
    msgs: Seq<ChatMessageView>,
    tools: Seq<ToolView>,
    mode: ThinkMode,
) -> Seq<char> {
    let (body, due) = turns(msgs, mode != ThinkMode::Off, tool_context(msgs, tools), msgs.len());
    prompt_opening(mode) + system_part(msgs, tools) + body + if due {
        "<｜Assistant｜>"@ + turn_marker(mode)
    } else {
        Seq::empty()
    }
}

/// The prompt of a completion.
pub open spec fn completion_text(prompt: Seq<char>, mode: ThinkMode) -> Seq<char> {
    prompt_opening(mode) + "You are a helpful assistant<｜User｜>"@ + prompt + "<｜Assistant｜>"@
        + turn_marker(mode)
}

/// A conversation that ends with the user's words awaits the assistant's: its prompt
/// ends with the opening of a turn.
pub proof fn prompt_awaits_answer(
    msgs: Seq<ChatMessageView>,
    tools: Seq<ToolView>,
    mode: ThinkMode,
)
    requires
        msgs.len() > 0,
        msgs.last().role == "user"@,
    ensures
        ({
            let ending = "<｜User｜>"@ + msgs.last().content + ("<｜Assistant｜>"@ + turn_marker(
                mode,
            ));
            let text = chat_text(msgs, tools, mode);
            text.len() >= ending.len() && text.subrange(
                text.len() - ending.len(),
                text.len() as int,
            ) == ending
        }),
{
    reveal(turn);
    let thinking = mode != ThinkMode::Off;
    let ctx = tool_context(msgs, tools);
    let n = msgs.len();
    let (before, _) = turns(msgs, thinking, ctx, (n - 1) as nat);
    let tail = "<｜Assistant｜>"@ + turn_marker(mode);
    let ending = "<｜User｜>"@ + msgs.last().content + tail;
    let head = prompt_opening(mode) + system_part(msgs, tools) + before;
    let text = chat_text(msgs, tools, mode);
    assert(turns(msgs, thinking, ctx, n) == (before + ("<｜User｜>"@ + msgs.last().content), true));
    assert(text =~= head + ending);
    assert(text.subrange(head.len() as int, text.len() as int) =~= ending);
}

/// The prompt section on the tools.
pub fn render_tools_prompt(tools: &Vec<ToolDefinition>) -> (out: String)
    requires
        tools_wf(tool_views(tools@)),
    ensures
        out@ == tools_text(tool_views(tools@)),
{
    let ghost views = tool_views(tools@);
    let mut out = String::from_str(TOOLS_INTRODUCTION);
    let mut i: usize = 0;
    assert(out@ =~= TOOLS_INTRODUCTION@ + tool_sections(views, 0));
    while i < tools.len()
        invariant
            i <= tools@.len(),
            views == tool_views(tools@),
            tools_wf(views),
            out@ == TOOLS_INTRODUCTION@ + tool_sections(views, i as nat),
        decreases tools@.len() - i,
    {
        assert(views[i as int] == tools@[i as int]@);
        let ghost before = out@;
        append(&mut out, "### ");
        append(&mut out, tools[i].name.as_str());
        append(&mut out, "\n\n");
        match &tools[i].description {
            Some(d) => append(&mut out, d.as_str()),
            None => {},
        }
        append(&mut out, "\n\n```json\n");
        let schema = tools[i].parameters.print();
        append(&mut out, schema.as_str());
        append(&mut out, "\n```\n\n");
        assert(out@ =~= before + tool_section(views[i as int]));
        i = i + 1;
        assert(out@ =~= TOOLS_INTRODUCTION@ + tool_sections(views, i as nat));
    }
    append(&mut out, TOOLS_CONCLUSION);
    out
}

/// The system part of a prompt.
fn render_system(messages: &Vec<ChatMessage>, tools: &Vec<ToolDefinition>) -> (out: String)
    requires
        tools_wf(tool_views(tools@)),
    ensures
        out@ == system_part(message_views(messages@), tool_views(tools@)),
{
    let ghost msgs = message_views(messages@);
    let mut out = String::new();
    let mut i: usize = 0;
    while i < messages.len()
        invariant
            i <= messages@.len(),
            msgs == message_views(messages@),
            out@ == system_texts(msgs, i as nat),
        decreases messages@.len() - i,
    {
        assert(msgs[i as int] == messages@[i as int]@);
        let role = messages[i].role.as_str();
        if (same_text(role, "system") || same_text(role, "developer")) && !is_empty_text(
            messages[i].content.as_str(),
        ) {
            if !is_empty_text(out.as_str()) {
                append(&mut out, "\n\n");
            }
            append(&mut out, messages[i].content.as_str());
        }
        i = i + 1;
    }
    if tools.len() > 0 {
        if !is_empty_text(out.as_str()) {
            append(&mut out, "\n\n");
        }
        let section = render_tools_prompt(tools);
        append(&mut out, section.as_str());
    }
    out
}

fn has_tool_context(messages: &Vec<ChatMessage>, tools: &Vec<ToolDefinition>) -> (r: bool)
    ensures
        r == tool_context(message_views(messages@), tool_views(tools@)),
{
    if tools.len() > 0 {
        return true;
    }
    let ghost msgs = message_views(messages@);
    let mut found = false;
    let mut i: usize = 0;
    while i < messages.len()
        invariant
            i <= messages@.len(),
            msgs == message_views(messages@),
            found == calls_tools(msgs, i as nat),
        decreases messages@.len() - i,
    {
        assert(msgs[i as int] == messages@[i as int]@);
        if same_text(messages[i].role.as_str(), "assistant") && messages[i].tool_calls.len() > 0 {
            found = true;
        }
        i = i + 1;
    }
    found
}

/// Appends message `i`; says whether an answer is due behind it.
fn render_turn(
    messages: &Vec<ChatMessage>,
    i: usize,
    thinking: bool,
    tool_ctx: bool,
    first: bool,
    due: bool,
    out: &mut String,
) -> (next: bool)
    requires
        i < messages@.len(),
        first == !answered(message_views(messages@), i as nat),
    ensures
        ({
            let t = turn(message_views(messages@), i as nat, thinking, tool_ctx, due);
            final(out)@ == old(out)@ + t.0 && next == t.1
        }),
{
    let ghost msgs = message_views(messages@);
    proof {
        reveal(turn);
    }
    assert(msgs[i as int] == messages@[i as int]@);
    let role = messages[i].role.as_str();
    if same_text(role, "user") {
        append(out, "<｜User｜>");
        append(out, messages[i].content.as_str());
        assert(out@ =~= old(out)@ + ("<｜User｜>"@ + msgs[i as int].content));
        true
    } else if same_text(role, "tool") || same_text(role, "function") {
        append(out, "<tool_result>");
        let escaped = escape_dsml_text(messages[i].content.as_str());
        append(out, escaped.as_str());
        append(out, "</tool_result>");
        assert(out@ =~= old(out)@ + ("<tool_result>"@ + escaped_text(msgs[i as int].content)
            + "</tool_result>"@));
        true
    } else if same_text(role, "assistant") {
        let ghost opening = if due {
            answer_opening(msgs, i as nat, thinking, tool_ctx)
        } else {
            Seq::empty()
        };
        if due {
            append(out, "<｜Assistant｜>");
            if thinking && (tool_ctx || first) {
                append(out, "<think>");
                match &messages[i].reasoning_content {
                    Some(r) => append(out, r.as_str()),
                    None => {},
                }
                append(out, "</think>");
            } else {
                append(out, "</think>");
            }
        }
        assert(out@ =~= old(out)@ + opening);
        append(out, messages[i].content.as_str());
        let calls = format_tool_calls_dsml(&messages[i].tool_calls);
        append(out, calls.as_str());
        append(out, "<｜end▁of▁sentence｜>");
        assert(out@ =~= old(out)@ + (opening + msgs[i as int].content + calls_text(
            msgs[i as int].tool_calls,
        ) + "<｜end▁of▁sentence｜>"@));
        false
    } else {
        assert(out@ =~= old(out)@ + Seq::<char>::empty());
        due
    }
}

/// The prompt of a conversation.
pub fn render_chat_prompt(
    messages: &Vec<ChatMessage>,
    tools: &Vec<ToolDefinition>,
    think_mode: ThinkMode,
) -> (out: String)
    requires
        tools_wf(tool_views(tools@)),
    ensures
        out@ == chat_text(message_views(messages@), tool_views(tools@), think_mode),
{
    let ghost msgs = message_views(messages@);
    let ghost views = tool_views(tools@);
    let thinking = think_mode.is_enabled();
    let tool_ctx = has_tool_context(messages, tools);
    let mut out = String::from_str("<｜begin▁of▁sentence｜>");
    if think_mode == ThinkMode::Max {
        append(&mut out, think_max_prefix());
    }
    assert(out@ =~= prompt_opening(think_mode));
    let system = render_system(messages, tools);
    append(&mut out, system.as_str());
    let ghost head = out@;
    let mut due = false;
    let mut first = true;
    let mut i: usize = 0;
    assert(out@ =~= head + turns(msgs, thinking, tool_ctx, 0).0);
    while i < messages.len()
        invariant
            i <= messages@.len(),
            msgs == message_views(messages@),
            first == !answered(msgs, i as nat),
            out@ == head + turns(msgs, thinking, tool_ctx, i as nat).0,
            due == turns(msgs, thinking, tool_ctx, i as nat).1,
        decreases messages@.len() - i,
    {
        assert(msgs[i as int] == messages@[i as int]@);
        due = render_turn(messages, i, thinking, tool_ctx, first, due, &mut out);
        if same_text(messages[i].role.as_str(), "assistant") {
            first = false;
        }
        i = i + 1;
        assert(out@ =~= head + turns(msgs, thinking, tool_ctx, i as nat).0);
    }
    if due {
        append(&mut out, "<｜Assistant｜>");
        append(
            &mut out,
            if thinking {
                "<think>"
            } else {
                "</think>"
            },
        );
    }
    assert(out@ =~= chat_text(msgs, views, think_mode));
    out
}

/// The prompt of a completion.
pub fn render_completion_prompt(prompt: &str, think_mode: ThinkMode) -> (out: String)
    ensures
        out@ == completion_text(prompt@, think_mode),
{
    let mut out = String::from_str("<｜begin▁of▁sentence｜>");
    if think_mode == ThinkMode::Max {
        append(&mut out, think_max_prefix());
    }
    assert(out@ =~= prompt_opening(think_mode));
    append(&mut out, "You are a helpful assistant<｜User｜>");
    append(&mut out, prompt);
    append(&mut out, "<｜Assistant｜>");
    append(
        &mut out,
        if think_mode.is_enabled() {
            "<think>"
        } else {
            "</think>"
        },
    );
    out
}

} // verus!

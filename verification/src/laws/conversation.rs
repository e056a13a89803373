//! What the prompt of a conversation is held to.
use vstd::prelude::*;

use crate::dsml::{calls_body, calls_text, escaped_text, raw_calls, raw_calls_from, spelling};
use crate::prompt::{
    answer_opening, answered, calls_tools, chat_text, completion_text, prompt_opening, system_part,
    system_texts, tool_context, tool_section, tool_sections, tools_text, turn,
    turn_marker, turns, TOOLS_CONCLUSION, TOOLS_INTRODUCTION,
};
use crate::json::json_text;
use crate::readback::{as_read, lemma_find_shift, lemma_written_body, plain_arguments, written_calls_are_read_back};
use crate::request::{ChatMessageView, ToolCallView, ToolView};
use crate::text::{find, find_from, lemma_find_from, matches_at};
use crate::types::{ThinkMode, DS4_REASONING_EFFORT_MAX_PREFIX};

verus! {

/// Whether a message is the assistant's.
pub open spec fn answers(m: ChatMessageView) -> bool {
    m.role == "assistant"@
}

/// Whether a message gives the result of a tool.
pub open spec fn reports(m: ChatMessageView) -> bool {
    m.role == "tool"@ || m.role == "function"@
}

/// Whether an answer is due behind the first `n` messages: the user or a tool has spoken,
/// and the assistant has not since.
pub open spec fn awaited(msgs: Seq<ChatMessageView>, n: int) -> bool {
    exists|j: int|
        {
            &&& 0 <= j < n
            &&& (#[trigger] msgs[j]).role == "user"@ || reports(msgs[j])
            &&& forall|k: int| j < k < n ==> !answers(#[trigger] msgs[k])
        }
}

/// Whether tools are offered, or the assistant has called one.
pub open spec fn tools_matter(msgs: Seq<ChatMessageView>, tools: Seq<ToolView>) -> bool {
    tools.len() > 0 || exists|k: int|
        0 <= k < msgs.len() && answers(#[trigger] msgs[k]) && msgs[k].tool_calls.len() > 0
}

/// Whether the reasoning of answer `i` is kept: thinking is on, and tools matter or it is
/// the first answer.
pub open spec fn keeps_reasoning(
    msgs: Seq<ChatMessageView>,
    tools: Seq<ToolView>,
    thinking: bool,
    i: int,
) -> bool {
    thinking && (tools_matter(msgs, tools) || forall|k: int|
        0 <= k < i ==> !answers(#[trigger] msgs[k]))
}

/// The mark of the assistant's turn, with the reasoning where it is kept.
pub open spec fn opened(kept: bool, reasoning: Option<Seq<char>>) -> Seq<char> {
    if kept {
        "<｜Assistant｜>"@ + ("<think>"@ + (match reasoning {
            Some(r) => r,
            None => Seq::empty(),
        }) + "</think>"@)
    } else {
        "<｜Assistant｜>"@ + "</think>"@
    }
}

/// The words of a message: the user's behind a mark, a tool's between tags with what is
/// special in them escaped, and the assistant's with its tool calls and the end of the
/// sentence behind them.
pub open spec fn words(m: ChatMessageView) -> Seq<char> {
    if m.role == "user"@ {
        "<｜User｜>"@ + m.content
    } else if reports(m) {
        "<tool_result>"@ + escaped_text(m.content) + "</tool_result>"@
    } else if answers(m) {
        m.content + calls_text(m.tool_calls) + "<｜end▁of▁sentence｜>"@
    } else {
        Seq::empty()
    }
}

/// Message `i` in the prompt: an awaited answer opens the assistant's turn.
pub open spec fn said(
    msgs: Seq<ChatMessageView>,
    tools: Seq<ToolView>,
    thinking: bool,
    i: int,
) -> Seq<char> {
    if answers(msgs[i]) && awaited(msgs, i) {
        opened(keeps_reasoning(msgs, tools, thinking, i), msgs[i].reasoning_content) + words(msgs[i])
    } else {
        words(msgs[i])
    }
}

/// The first `n` messages in the prompt, one behind the other.
pub open spec fn said_before(
    msgs: Seq<ChatMessageView>,
    tools: Seq<ToolView>,
    thinking: bool,
    n: nat,
) -> Seq<char>
    decreases n,
{
    if n == 0 {
        Seq::empty()
    } else {
        said_before(msgs, tools, thinking, (n - 1) as nat) + said(msgs, tools, thinking, n - 1)
    }
}

proof fn lemma_roles()
    ensures
        "user"@ != "tool"@,
        "user"@ != "function"@,
        "user"@ != "assistant"@,
        "tool"@ != "assistant"@,
        "function"@ != "assistant"@,
{
    reveal_strlit("user");
    reveal_strlit("tool");
    reveal_strlit("function");
    reveal_strlit("assistant");
    assert("user"@[0] == 'u' && "tool"@[0] == 't' && "function"@[0] == 'f' && "assistant"@[0]
        == 'a');
}

proof fn lemma_answered(msgs: Seq<ChatMessageView>, n: nat)
    requires
        n <= msgs.len(),
    ensures
        answered(msgs, n) == exists|k: int| 0 <= k < n && answers(#[trigger] msgs[k]),
    decreases n,
{
    if n > 0 {
        lemma_answered(msgs, (n - 1) as nat);
        if answers(msgs[n - 1]) {
        } else if answered(msgs, n) {
            let k = choose|k: int| 0 <= k < n - 1 && answers(#[trigger] msgs[k]);
            assert(answers(msgs[k]));
        }
    }
}

proof fn lemma_calls_tools(msgs: Seq<ChatMessageView>, n: nat)
    requires
        n <= msgs.len(),
    ensures
        calls_tools(msgs, n) == exists|k: int|
            0 <= k < n && answers(#[trigger] msgs[k]) && msgs[k].tool_calls.len() > 0,
    decreases n,
{
    if n > 0 {
        lemma_calls_tools(msgs, (n - 1) as nat);
        if calls_tools(msgs, (n - 1) as nat) {
            let k = choose|k: int|
                0 <= k < n - 1 && answers(#[trigger] msgs[k]) && msgs[k].tool_calls.len() > 0;
            assert(answers(msgs[k]));
        } else if calls_tools(msgs, n) {
            assert(answers(msgs[n - 1]));
        }
    }
}

proof fn lemma_awaited(msgs: Seq<ChatMessageView>, n: int)
    requires
        0 <= n < msgs.len(),
    ensures
        awaited(msgs, n + 1) == (msgs[n].role == "user"@ || reports(msgs[n]) || (awaited(msgs, n)
            && !answers(msgs[n]))),
        !awaited(msgs, 0),
{
    lemma_roles();
    let m = msgs[n];
    if m.role == "user"@ || reports(m) {
        assert(awaited(msgs, n + 1)) by {
            assert(msgs[n].role == "user"@ || reports(msgs[n]));
        }
    } else {
        if awaited(msgs, n) && !answers(m) {
            let j = choose|j: int|
                {
                    &&& 0 <= j < n
                    &&& (#[trigger] msgs[j]).role == "user"@ || reports(msgs[j])
                    &&& forall|k: int| j < k < n ==> !answers(#[trigger] msgs[k])
                };
            assert(msgs[j].role == "user"@ || reports(msgs[j]));
            assert(awaited(msgs, n + 1));
        }
        if awaited(msgs, n + 1) {
            let j = choose|j: int|
                {
                    &&& 0 <= j < n + 1
                    &&& (#[trigger] msgs[j]).role == "user"@ || reports(msgs[j])
                    &&& forall|k: int| j < k < n + 1 ==> !answers(#[trigger] msgs[k])
                };
            assert(j < n);
            assert(!answers(msgs[n]));
            assert(awaited(msgs, n));
        }
    }
}

proof fn lemma_turns(
    msgs: Seq<ChatMessageView>,
    tools: Seq<ToolView>,
    thinking: bool,
    n: nat,
)
    requires
        n <= msgs.len(),
    ensures
        turns(msgs, thinking, tool_context(msgs, tools), n).0 == said_before(
            msgs,
            tools,
            thinking,
            n,
        ),
        turns(msgs, thinking, tool_context(msgs, tools), n).1 == awaited(msgs, n as int),
    decreases n,
{
    reveal(turn);
    if n > 0 {
        let i = (n - 1) as nat;
        lemma_turns(msgs, tools, thinking, i);
        lemma_awaited(msgs, i as int);
        lemma_roles();
        lemma_answered(msgs, i);
        lemma_calls_tools(msgs, msgs.len());
        let ctx = tool_context(msgs, tools);
        assert(ctx == tools_matter(msgs, tools));
        let due = awaited(msgs, i as int);
        let t = turn(msgs, i, thinking, ctx, due);
        let m = msgs[i as int];
        if answers(m) {
            let open = opened(keeps_reasoning(msgs, tools, thinking, i as int), m.reasoning_content);
            if due {
                assert(answer_opening(msgs, i, thinking, ctx) == open);
                assert(t.0 =~= said(msgs, tools, thinking, i as int));
            } else {
                assert(t.0 =~= said(msgs, tools, thinking, i as int));
            }
        }
        assert(t.0 =~= said(msgs, tools, thinking, i as int));
    }
}

/// The prompt of a conversation holds what was said, in the order in which it was said:
/// behind the opening and the system part stand the messages, each with its marks, and
/// behind them, where an answer is due, the opening of the assistant's turn.
pub proof fn prompt_is_what_was_said(
    msgs: Seq<ChatMessageView>,
    tools: Seq<ToolView>,
    mode: ThinkMode,
)
    ensures
        chat_text(msgs, tools, mode) == "<｜begin▁of▁sentence｜>"@ + (if mode == ThinkMode::Max {
            DS4_REASONING_EFFORT_MAX_PREFIX@
        } else {
            Seq::empty()
        }) + system_part(msgs, tools) + said_before(
            msgs,
            tools,
            mode != ThinkMode::Off,
            msgs.len(),
        ) + (if !awaited(msgs, msgs.len() as int) {
            Seq::empty()
        } else if mode == ThinkMode::Off {
            "<｜Assistant｜>"@ + "</think>"@
        } else {
            "<｜Assistant｜>"@ + "<think>"@
        }),
{
    lemma_turns(msgs, tools, mode != ThinkMode::Off, msgs.len());
}

proof fn lemma_said_prefix(
    msgs: Seq<ChatMessageView>,
    tools: Seq<ToolView>,
    thinking: bool,
    i: nat,
    n: nat,
)
    requires
        i <= n,
    ensures
        said_before(msgs, tools, thinking, i).is_prefix_of(said_before(msgs, tools, thinking, n)),
    decreases n,
{
    if i < n {
        lemma_said_prefix(msgs, tools, thinking, i, (n - 1) as nat);
        let a = said_before(msgs, tools, thinking, i);
        let b = said_before(msgs, tools, thinking, (n - 1) as nat);
        let c = said_before(msgs, tools, thinking, n);
        assert(c.subrange(0, a.len() as int) =~= b.subrange(0, a.len() as int));
    } else {
        let a = said_before(msgs, tools, thinking, i);
        assert(a.subrange(0, a.len() as int) =~= a);
    }
}

/// What stands before the words of message `i` in the prompt.
pub open spec fn lead(
    msgs: Seq<ChatMessageView>,
    tools: Seq<ToolView>,
    mode: ThinkMode,
    i: int,
) -> Seq<char> {
    let thinking = mode != ThinkMode::Off;
    prompt_opening(mode) + system_part(msgs, tools) + said_before(msgs, tools, thinking, i as nat)
        + (if answers(msgs[i]) && awaited(msgs, i) {
        opened(keeps_reasoning(msgs, tools, thinking, i), msgs[i].reasoning_content)
    } else {
        Seq::empty()
    })
}

proof fn lemma_lead(msgs: Seq<ChatMessageView>, tools: Seq<ToolView>, mode: ThinkMode, i: int)
    requires
        0 <= i < msgs.len(),
    ensures
        lead(msgs, tools, mode, i) + words(msgs[i]) == prompt_opening(mode) + system_part(
            msgs,
            tools,
        ) + said_before(msgs, tools, mode != ThinkMode::Off, (i + 1) as nat),
{
    assert(lead(msgs, tools, mode, i) + words(msgs[i]) =~= prompt_opening(mode) + system_part(
        msgs,
        tools,
    ) + said_before(msgs, tools, mode != ThinkMode::Off, (i + 1) as nat));
}

proof fn lemma_stands(
    head: Seq<char>,
    all: Seq<char>,
    tail: Seq<char>,
    upto: Seq<char>,
    l: Seq<char>,
    w: Seq<char>,
)
    requires
        upto.is_prefix_of(all),
        l + w == head + upto,
    ensures
        matches_at(head + all + tail, w, l.len() as int),
        (head + all + tail).subrange(0, l.len() as int) == l,
{
    let text = head + all + tail;
    let lw = l + w;
    let hu = head + upto;
    assert(lw == hu);
    assert(lw.len() == l.len() + w.len());
    assert(hu.len() == head.len() + upto.len());
    assert(upto.len() <= all.len());
    assert(text.subrange(0, hu.len() as int) =~= hu) by {
        assert forall|q: int| 0 <= q < hu.len() implies text[q] == hu[q] by {
            if q < head.len() {
                assert(text[q] == head[q]);
            } else {
                assert(upto[q - head.len()] == all.subrange(0, upto.len() as int)[q - head.len()]);
                assert(text[q] == all[q - head.len()]);
            }
        }
    }
    assert(lw.subrange(0, l.len() as int) =~= l);
    assert(lw.subrange(l.len() as int, lw.len() as int) =~= w);
    assert(text.subrange(0, l.len() as int) =~= lw.subrange(0, l.len() as int));
    assert(text.subrange(l.len() as int, lw.len() as int) =~= lw.subrange(
        l.len() as int,
        lw.len() as int,
    ));
}

/// The words of every message stand in the prompt, and those of a later message behind
/// those of an earlier one.
pub proof fn every_message_stands_in_prompt(
    msgs: Seq<ChatMessageView>,
    tools: Seq<ToolView>,
    mode: ThinkMode,
    i: int,
    j: int,
)
    requires
        0 <= i < msgs.len(),
    ensures
        matches_at(
            chat_text(msgs, tools, mode),
            words(msgs[i]),
            lead(msgs, tools, mode, i).len() as int,
        ),
        chat_text(msgs, tools, mode).subrange(0, lead(msgs, tools, mode, i).len() as int) == lead(
            msgs,
            tools,
            mode,
            i,
        ),
        answers(msgs[i]) ==> matches_at(
            chat_text(msgs, tools, mode),
            msgs[i].content + calls_text(msgs[i].tool_calls) + "<｜end▁of▁sentence｜>"@,
            lead(msgs, tools, mode, i).len() as int,
        ),
        i < j < msgs.len() ==> lead(msgs, tools, mode, i).len() + words(msgs[i]).len() <= lead(
            msgs,
            tools,
            mode,
            j,
        ).len(),
{
    let thinking = mode != ThinkMode::Off;
    let text = chat_text(msgs, tools, mode);
    let n = msgs.len();
    lemma_roles();
    prompt_is_what_was_said(msgs, tools, mode);
    lemma_said_prefix(msgs, tools, thinking, (i + 1) as nat, n);
    let head = prompt_opening(mode) + system_part(msgs, tools);
    let all = said_before(msgs, tools, thinking, n);
    let tail = if !awaited(msgs, n as int) {
        Seq::empty()
    } else {
        "<｜Assistant｜>"@ + turn_marker(mode)
    };
    let upto = said_before(msgs, tools, thinking, (i + 1) as nat);
    let l = lead(msgs, tools, mode, i);
    let w = words(msgs[i]);
    lemma_lead(msgs, tools, mode, i);
    lemma_turns(msgs, tools, thinking, n);
    assert(text == head + all + tail);
    lemma_stands(head, all, tail, upto, l, w);
    if i < j < n {
        lemma_said_prefix(msgs, tools, thinking, (i + 1) as nat, j as nat);
    }
}

/// The tool calls of an answer are read back from the prompt of its conversation, where
/// they are the first block of calls in it and no arguments hold a tag that ends a
/// parameter or the calls.
pub proof fn calls_are_read_back_from_prompt(
    msgs: Seq<ChatMessageView>,
    tools: Seq<ToolView>,
    mode: ThinkMode,
    i: int,
)
    requires
        0 <= i < msgs.len(),
        answers(msgs[i]),
        msgs[i].tool_calls.len() > 0,
        forall|j: int|
            0 <= j < msgs[i].tool_calls.len() ==> plain_arguments(
                #[trigger] msgs[i].tool_calls[j],
            ),
        forall|q: int|
            0 <= q < lead(msgs, tools, mode, i).len() + msgs[i].content.len() ==> !matches_at(
                chat_text(msgs, tools, mode),
                "｜DSML｜tool_calls>"@,
                q,
            ),
    ensures
        raw_calls(chat_text(msgs, tools, mode)) == msgs[i].tool_calls.map_values(
            |c: ToolCallView| as_read(c),
        ),
{
    let text = chat_text(msgs, tools, mode);
    let calls = msgs[i].tool_calls;
    let l = lead(msgs, tools, mode, i);
    let block = calls_text(calls);
    every_message_stands_in_prompt(msgs, tools, mode, i, i);
    written_calls_are_read_back(calls);
    lemma_written_body(calls);
    let front = l + msgs[i].content;
    let from = front.len() as int;
    let rest = text.subrange(from + block.len(), text.len() as int);
    let w = words(msgs[i]);
    assert(w == msgs[i].content + block + "<｜end▁of▁sentence｜>"@) by {
        lemma_roles();
    }
    assert(text.subrange(from, from + block.len()) =~= block) by {
        assert(text.subrange(l.len() as int, (l.len() + w.len()) as int) == w);
        let a = msgs[i].content.len() as int;
        assert(w.subrange(a, a + block.len()) =~= block);
        assert(text.subrange(from, from + block.len()) =~= text.subrange(
            l.len() as int,
            (l.len() + w.len()) as int,
        ).subrange(a, a + block.len()));
    }
    assert(text.subrange(0, from) =~= front) by {
        assert(text.subrange(l.len() as int, (l.len() + w.len()) as int) == w);
        assert forall|q: int| 0 <= q < from implies text[q] == front[q] by {
            if q < l.len() {
                assert(text.subrange(0, l.len() as int)[q] == l[q]);
            } else {
                assert(text.subrange(l.len() as int, (l.len() + w.len()) as int)[q - l.len()] == w[q
                    - l.len()]);
            }
        }
    }
    assert(text =~= front + (block + rest));
    lemma_body_found(front, block, rest);
    reveal_with_fuel(raw_calls_from, 2);
}

/// A complete block of calls is found behind a beginning without one.
proof fn lemma_body_found(front: Seq<char>, block: Seq<char>, rest: Seq<char>)
    requires
        calls_body(block, spelling(0)) is Some,
        forall|q: int|
            0 <= q < front.len() ==> !matches_at(
                front + (block + rest),
                spelling(0).calls_start,
                q,
            ),
    ensures
        calls_body(front + (block + rest), spelling(0)) == calls_body(block, spelling(0)),
{
    let t = spelling(0);
    let text = front + (block + rest);
    let n = front.len() as int;
    let s = find(block, t.calls_start)->0;
    let m = s + t.calls_start.len();
    let e = find_from(block, t.calls_end, m)->0;
    lemma_find_from(block, t.calls_start, 0);
    lemma_find_from(block, t.calls_end, m);
    lemma_find_behind(block, rest, t.calls_start, 0, s);
    lemma_find_behind(block, rest, t.calls_end, m, e);
    lemma_find_shift(front, block + rest, t.calls_start, 0);
    lemma_find_shift(front, block + rest, t.calls_end, m);
    lemma_find_from(text, t.calls_start, 0);
    lemma_find_from(text, t.calls_start, n);
    assert(find(text, t.calls_start) == Some(n + s));
    assert(text.subrange(n + m, n + e) =~= block.subrange(m, e));
}

/// What is found in a text is found there whatever stands behind it.
proof fn lemma_find_behind(a: Seq<char>, b: Seq<char>, pat: Seq<char>, i: int, k: int)
    requires
        0 <= i,
        find_from(a, pat, i) == Some(k),
    ensures
        find_from(a + b, pat, i) == Some(k),
{
    lemma_find_from(a, pat, i);
    lemma_find_from(a + b, pat, i);
    assert((a + b).subrange(k, k + pat.len()) =~= a.subrange(k, k + pat.len()));
    assert(matches_at(a + b, pat, k));
    match find_from(a + b, pat, i) {
        Some(j) => {
            if j < k {
                assert((a + b).subrange(j, j + pat.len()) =~= a.subrange(j, j + pat.len()));
                assert(matches_at(a, pat, j));
            }
        },
        None => {},
    }
}

/// The system texts of a conversation: of the messages that are the system's and hold
/// something, the texts with blank lines between them.
pub open spec fn between_blank_lines(texts: Seq<Seq<char>>) -> Seq<char>
    decreases texts.len(),
{
    if texts.len() == 0 {
        Seq::empty()
    } else if texts.len() == 1 {
        texts[0]
    } else {
        between_blank_lines(texts.drop_last()) + "\n\n"@ + texts.last()
    }
}

/// Whether a message speaks for the system.
pub open spec fn instructs(m: ChatMessageView) -> bool {
    (m.role == "system"@ || m.role == "developer"@) && m.content.len() > 0
}

pub open spec fn instructions(msgs: Seq<ChatMessageView>) -> Seq<Seq<char>> {
    msgs.filter(|m: ChatMessageView| instructs(m)).map_values(|m: ChatMessageView| m.content)
}

proof fn lemma_instructions(msgs: Seq<ChatMessageView>, n: nat)
    requires
        n <= msgs.len(),
    ensures
        system_texts(msgs, n) == between_blank_lines(instructions(msgs.take(n as int))),
        forall|i: int|
            0 <= i < instructions(msgs.take(n as int)).len() ==> (#[trigger] instructions(
                msgs.take(n as int),
            )[i]).len() > 0,
    decreases n,
{
    reveal(Seq::filter);
    let f = |m: ChatMessageView| instructs(m);
    let now = msgs.take(n as int);
    if n == 0 {
        assert(now.filter(f) =~= Seq::empty());
        assert(instructions(now) =~= Seq::empty());
    } else {
        lemma_instructions(msgs, (n - 1) as nat);
        let before = msgs.take(n - 1);
        assert(now.drop_last() =~= before);
        assert(now.last() == msgs[n - 1]);
        let old = instructions(before);
        let new = instructions(now);
        if instructs(msgs[n - 1]) {
            assert(now.filter(f) =~= before.filter(f).push(msgs[n - 1]));
            assert(new =~= old.push(msgs[n - 1].content));
            assert(new.drop_last() =~= old);
            if old.len() > 0 {
                lemma_not_empty(old);
                assert(between_blank_lines(new) =~= between_blank_lines(old) + "\n\n"@ + msgs[n
                    - 1].content);
            } else {
                assert(between_blank_lines(old) =~= Seq::empty());
                assert(system_texts(msgs, n) =~= msgs[n - 1].content);
            }
            assert forall|i: int| 0 <= i < new.len() implies (#[trigger] new[i]).len() > 0 by {
                if i < old.len() {
                    assert(new[i] == old[i]);
                }
            }
        } else {
            assert(now.filter(f) =~= before.filter(f));
            assert(new =~= old);
        }
    }
}

proof fn lemma_not_empty(texts: Seq<Seq<char>>)
    requires
        texts.len() > 0,
        forall|i: int| 0 <= i < texts.len() ==> (#[trigger] texts[i]).len() > 0,
    ensures
        between_blank_lines(texts).len() > 0,
{
    assert(texts.last().len() > 0);
    assert(texts[0].len() > 0);
}

/// The system part of a prompt: the system's texts in order with blank lines between
/// them, and, where tools are offered, their description behind another blank line.
pub proof fn system_part_holds_instructions(msgs: Seq<ChatMessageView>, tools: Seq<ToolView>)
    ensures
        tools.len() == 0 ==> system_part(msgs, tools) == between_blank_lines(instructions(msgs)),
        tools.len() > 0 && instructions(msgs).len() == 0 ==> system_part(msgs, tools)
            == tools_text(tools),
        tools.len() > 0 && instructions(msgs).len() > 0 ==> system_part(msgs, tools)
            == between_blank_lines(instructions(msgs)) + "\n\n"@ + tools_text(tools),
{
    lemma_instructions(msgs, msgs.len());
    assert(msgs.take(msgs.len() as int) =~= msgs);
    if tools.len() > 0 {
        if instructions(msgs).len() > 0 {
            lemma_not_empty(instructions(msgs));
        } else {
            assert(system_part(msgs, tools) =~= tools_text(tools));
        }
    }
}

/// The description of the tools: each tool with its name, its description and its schema,
/// in order, between the introduction and the conclusion.
pub proof fn tools_are_described(tools: Seq<ToolView>, t: ToolView)
    ensures
        tools_text(Seq::empty()) == TOOLS_INTRODUCTION@ + TOOLS_CONCLUSION@,
        exists|before: Seq<char>|
            {
                &&& tools_text(tools) == #[trigger] (before + TOOLS_CONCLUSION@)
                &&& tools_text(tools.push(t)) == before + ("### "@ + t.name + "\n\n"@ + (
                match t.description {
                    Some(d) => d,
                    None => Seq::empty(),
                }) + "\n\n```json\n"@ + json_text(t.parameters) + "\n```\n\n"@) + TOOLS_CONCLUSION@
            },
{
    assert(tools_text(Seq::empty()) =~= TOOLS_INTRODUCTION@ + TOOLS_CONCLUSION@);
    let n = tools.len();
    let before = TOOLS_INTRODUCTION@ + tool_sections(tools, n);
    lemma_sections(tools, t, n);
    assert(tools_text(tools) == before + TOOLS_CONCLUSION@);
    assert(tools_text(tools.push(t)) =~= before + tool_section(t) + TOOLS_CONCLUSION@);
}

proof fn lemma_sections(tools: Seq<ToolView>, t: ToolView, n: nat)
    requires
        n <= tools.len(),
    ensures
        tool_sections(tools.push(t), n) == tool_sections(tools, n),
    decreases n,
{
    if n > 0 {
        lemma_sections(tools, t, (n - 1) as nat);
    }
}

/// The prompt of a completion: the default system text, the user's words, and the opening
/// of the assistant's turn.
pub proof fn completion_prompt_holds_words(prompt: Seq<char>, mode: ThinkMode)
    ensures
        completion_text(prompt, mode) == "<｜begin▁of▁sentence｜>"@ + (if mode == ThinkMode::Max {
            DS4_REASONING_EFFORT_MAX_PREFIX@
        } else {
            Seq::empty()
        }) + "You are a helpful assistant<｜User｜>"@ + prompt + "<｜Assistant｜>"@ + (if mode
            == ThinkMode::Off {
            "</think>"@
        } else {
            "<think>"@
        }),
{
}

} // verus!

//! What streaming, jobs and their outcomes are held to.
use vstd::prelude::*;
use vstd::utf8::encode_utf8;

use crate::dsml::raw_calls;
use crate::generate::{
    job_error, prompt_tokens, request_prompt, told_reason, FinishReason, JobError,
};
use crate::http::{data_event, error_view, response_bytes};
use crate::json::json_text;
use crate::prompt::{chat_text, completion_text};
use crate::request::{RequestKind, RequestView, ToolCallView};
use crate::respond::{
    answer_view, done_event, failure_frames, frames, outcome_response, unstreamed_frames,
    LabelView, OutcomeView,
};
use crate::session::SessionView;
use crate::stream::{
    call_events, fresh_stream, last_byte, piece_events, split_text, step, think_close, EventView,
    PieceView, StreamMode, StreamView,
};
use crate::text::{find, find_from, lemma_find_from, text_between};
use crate::tokenizer::{text_tokens, VocabView};

verus! {

/// A stream starts with reasoning where the model thinks, and with content where it does
/// not; nothing has been sent.
pub proof fn stream_starts_with_thinking(thinking: bool)
    ensures
        ({
            let s = fresh_stream(thinking);
            &&& thinking ==> s.mode == StreamMode::Thinking
            &&& !thinking ==> s.mode == StreamMode::Text
            &&& s.emit_pos == 0 && s.tool_calls.len() == 0
            &&& !s.checked && !s.sent_reasoning && !s.sent_content
        }),
{
}

/// While the model thinks, only reasoning is sent, and no tool calls are looked for. What
/// is sent lies before the closing tag; without one, and as long as more may come, the last
/// seven bytes are kept back. With the closing tag the content begins behind it.
pub proof fn thinking_sends_reasoning(st: StreamView, b: Seq<u8>, tools: bool, last: bool)
    requires
        st.mode == StreamMode::Thinking,
        0 <= st.emit_pos < b.len(),
        st.checked,
    ensures
        ({
            let s = step(st, b, tools, last);
            let close = encode_utf8("</think>"@);
            &&& s.piece is Some ==> s.piece->0 is Reasoning && s.state.sent_reasoning
            &&& s.tool_text is None
            &&& s.state.sent_content == st.sent_content
            &&& find_from(b, close, st.emit_pos) matches Some(k) ==> {
                &&& s.state.mode == StreamMode::Text
                &&& s.state.emit_pos == k + 8
                &&& k > st.emit_pos ==> s.piece == Some(
                    PieceView::Reasoning(text_between(b, st.emit_pos, k)),
                )
                &&& k == st.emit_pos ==> s.piece is None
            }
            &&& find_from(b, close, st.emit_pos) is None && last ==> s.state.mode
                == StreamMode::Done && s.piece == Some(
                PieceView::Reasoning(text_between(b, st.emit_pos, b.len() as int)),
            )
            &&& find_from(b, close, st.emit_pos) is None && !last ==> {
                &&& s.state.mode == StreamMode::Thinking
                &&& b.len() > st.emit_pos + 7 ==> s.state.emit_pos == b.len() - 7 && s.piece
                    == Some(PieceView::Reasoning(text_between(b, st.emit_pos, b.len() - 7)))
                &&& b.len() <= st.emit_pos + 7 ==> s.state.emit_pos == st.emit_pos && s.piece
                    is None
            }
        }),
{
    lemma_close_len();
    lemma_find_from(b, think_close(), st.emit_pos);
}

proof fn lemma_close_len()
    ensures
        think_close().len() == 8,
        think_close() == encode_utf8("</think>"@),
{
    reveal_strlit("</think>");
    vstd::utf8::is_ascii_chars_encode_utf8("</think>"@);
}

/// Behind the reasoning only content is sent: up to a tool block, where tools are in use,
/// and else all of it, but for the beginning of a tag that is still open near the end as
/// long as more may come. With the tool block or with the end streaming is done.
pub proof fn content_is_sent(st: StreamView, b: Seq<u8>, tools: bool, last: bool)
    requires
        st.mode == StreamMode::Text,
        0 <= st.emit_pos < b.len(),
    ensures
        ({
            let s = step(st, b, tools, last);
            let n = b.len() as int;
            let mark = |m: Seq<char>| find_from(b, encode_utf8(m), st.emit_pos);
            let none = mark("｜DSML｜tool_calls>"@) is None && mark("<|DSML|tool_calls>"@) is None
                && mark("<tool_calls>"@) is None;
            &&& s.piece is Some ==> s.piece->0 is Content && s.state.sent_content
            &&& s.state.sent_reasoning == st.sent_reasoning
            &&& (!tools || none) ==> s.tool_text is None
            &&& (!tools || none) && last ==> s.state.mode == StreamMode::Done && s.piece == Some(
                PieceView::Content(text_between(b, st.emit_pos, n)),
            )
            &&& (!tools || none) && !last ==> s.state.mode == StreamMode::Text
            &&& tools ==> (mark("｜DSML｜tool_calls>"@) matches Some(k) ==> {
                &&& s.state.mode == StreamMode::Done
                &&& s.state.emit_pos == k
                &&& s.tool_text == Some(text_between(b, k, n))
                &&& k > st.emit_pos ==> s.piece == Some(
                    PieceView::Content(text_between(b, st.emit_pos, k)),
                )
                &&& k == st.emit_pos ==> s.piece is None
            })
            &&& tools && !none ==> s.state.mode == StreamMode::Done && s.tool_text is Some
        }),
{
    lemma_find_from(b, encode_utf8("｜DSML｜tool_calls>"@), st.emit_pos);
}

/// Content whose last angle bracket may open a tag is kept back from there on, as long as
/// more may come; all other content is sent at once.
pub proof fn open_tags_are_kept_back(st: StreamView, b: Seq<u8>, m: int)
    requires
        st.mode == StreamMode::Text,
        0 <= st.emit_pos <= m < b.len(),
        b[m] == 60,
        forall|i: int| m < i < b.len() ==> #[trigger] b[i] != 60 && b[i] != 62,
    ensures
        ({
            let s = step(st, b, false, false);
            &&& b.len() - m < 20 && m > st.emit_pos ==> s.piece == Some(
                PieceView::Content(text_between(b, st.emit_pos, m)),
            ) && s.state.emit_pos == m
            &&& b.len() - m < 20 && m == st.emit_pos ==> s.piece is None && s.state.emit_pos == m
            &&& b.len() - m >= 20 ==> s.piece == Some(
                PieceView::Content(text_between(b, st.emit_pos, b.len() as int)),
            )
        }),
{
    lemma_last(b, 60, st.emit_pos, b.len() as int, m);
    lemma_none(b, 62, m, b.len() as int);
}

proof fn lemma_last(b: Seq<u8>, c: u8, pos: int, end: int, m: int)
    requires
        0 <= pos <= m < end <= b.len(),
        b[m] == c,
        forall|i: int| m < i < end ==> #[trigger] b[i] != c,
    ensures
        last_byte(b, c, pos, end) == Some(m),
    decreases end,
{
    if end - 1 > m {
        assert(b[end - 1] != c);
        lemma_last(b, c, pos, end - 1, m);
    }
}

proof fn lemma_none(b: Seq<u8>, c: u8, pos: int, end: int)
    requires
        0 <= pos <= end <= b.len(),
        forall|i: int| pos <= i < end ==> #[trigger] b[i] != c,
    ensures
        last_byte(b, c, pos, end) is None,
    decreases end,
{
    if end > pos {
        assert(b[end - 1] != c);
        lemma_none(b, c, pos, end - 1);
    }
}

/// A text without an opening tag is content alone.
pub proof fn untagged_text_is_content(text: Seq<char>)
    requires
        find(text, "<think>"@) is None,
    ensures
        split_text(text) == (text, Seq::<char>::empty()),
{
}

/// An opening tag that is never closed is dropped and leaves no reasoning.
pub proof fn reasoning_needs_both_tags(before: Seq<char>, behind: Seq<char>)
    requires
        find(before + "<think>"@ + behind, "<think>"@) == Some(before.len() as int),
        find_from(
            before + "<think>"@ + behind,
            "</think>"@,
            before.len() as int + 7,
        ) is None,
    ensures
        split_text(before + "<think>"@ + behind).0 == before + behind,
        split_text(before + "<think>"@ + behind).1.len() == 0,
{
    reveal_strlit("<think>");
    let text = before + "<think>"@ + behind;
    let n = before.len() as int;
    assert(text.subrange(0, n) =~= before);
    assert(text.subrange(n + 7, text.len() as int) =~= behind);
}

/// What is sent is told by its kind.
pub proof fn pieces_are_told_by_kind(s: Seq<char>, calls: Seq<ToolCallView>, i: int)
    ensures
        piece_events(Some(PieceView::Reasoning(s))) == seq![EventView::ReasoningToken(s)],
        piece_events(Some(PieceView::Content(s))) == seq![EventView::Token(s)],
        piece_events(None).len() == 0,
        call_events(calls).len() == calls.len(),
        0 <= i < calls.len() ==> call_events(calls)[i] == EventView::ToolCall(calls[i]),
{
}

/// A chat is asked by its conversation, and a completion by its prompt.
pub proof fn prompts_follow_kind(q: RequestView)
    ensures
        q.kind == RequestKind::Chat ==> request_prompt(q) == chat_text(
            q.messages,
            q.tools,
            q.think_mode,
        ),
        q.kind == RequestKind::Completion && q.prompt_text is Some ==> request_prompt(q)
            == completion_text(q.prompt_text->0, q.think_mode),
        q.kind == RequestKind::Completion && q.prompt_text is None ==> request_prompt(q)
            == completion_text(Seq::empty(), q.think_mode),
{
}

/// A job is refused before it starts just where its prompt has no tokens, or too many for
/// the context.
pub proof fn jobs_need_room(v: VocabView, s: SessionView, q: RequestView)
    ensures
        ({
            let n = text_tokens(v, request_prompt(q)).len();
            let e = job_error(v, s, q);
            &&& n == 0 ==> e == Some(JobError::EmptyPrompt)
            &&& n > 0 && n >= s.ctx ==> e == Some(JobError::PromptExceedsContext)
            &&& 0 < n < s.ctx ==> e is None
            &&& prompt_tokens(v, q).len() == n
        }),
        JobError::EmptyPrompt.spec_code() == 400,
        JobError::PromptExceedsContext.spec_code() == 500,
        JobError::EmptyPrompt.text() == "Empty prompt after tokenization"@,
        JobError::PromptExceedsContext.text() == "Session sync failed: prompt exceeds context"@,
{
}

/// The client is told of tool calls where there are any, and else why the text ended.
pub proof fn reasons_are_told(text: Seq<char>)
    ensures
        raw_calls(text).len() > 0 ==> told_reason(text, FinishReason::Stop) == "tool_calls"@
            && told_reason(text, FinishReason::Length) == "tool_calls"@,
        raw_calls(text).len() == 0 ==> told_reason(text, FinishReason::Stop) == "stop"@
            && told_reason(text, FinishReason::Length) == "length"@,
{
}

/// What a client is answered: the whole answer with status 200, or an error with its own
/// status.
pub proof fn outcomes_are_answered(
    id: Seq<char>,
    model: Seq<char>,
    created: i64,
    o: OutcomeView,
)
    ensures
        ({
            let json = "application/json"@;
            let r = outcome_response(id, model, created, o);
            &&& o matches OutcomeView::Complete(d) ==> r == response_bytes(
                200,
                json,
                json_text(answer_view(id, model, created, d)),
            )
            &&& o matches OutcomeView::Failed(code, msg) ==> r == response_bytes(
                code,
                json,
                json_text(error_view(code, msg)),
            )
            &&& o is WorkerGone ==> r == response_bytes(
                503,
                json,
                json_text(error_view(503, "Worker unavailable"@)),
            )
            &&& o is Streaming ==> r == response_bytes(
                500,
                json,
                json_text(error_view(500, "Unexpected streaming response"@)),
            )
        }),
{
}

/// A stream that fails tells the error and ends.
pub proof fn failed_streams_tell_why(l: LabelView, code: i32, msg: Seq<char>)
    ensures
        done_event() == data_event("[DONE]"@),
        failure_frames(code, msg) == seq![
            data_event(json_text(error_view(code, msg))),
            data_event("[DONE]"@),
        ],
        unstreamed_frames(OutcomeView::Failed(code, msg)) == failure_frames(code, msg),
        unstreamed_frames(OutcomeView::WorkerGone) == failure_frames(500, "Unexpected response"@),
        frames(l, EventView::Error(msg)) == (failure_frames(500, msg), true),
{
}

} // verus!

//! Generated text on its way to the client: reasoning, content and tool calls.
//!
//! Positions in the text are positions in its bytes.
use vstd::prelude::*;
use vstd::utf8::{
    encode_utf8, encode_utf8_valid_utf8, is_char_boundary,
    is_char_boundary_iff_not_is_continuation_byte, is_char_boundary_start_end_of_seq,
    pop_first_scalar, valid_utf8,
};

use crate::dsml::{names_call, parse_generated_tool_calls, raw_calls};
use crate::request::{call_views, ToolCallData, ToolCallView};
use crate::text::{
    append, byte_match_at, chars_of, find, find_bytes, find_chars, find_from, lemma_find_from,
    matches_at, string_of, sub_text, text_between,
};

verus! {

/// What the text being streamed is part of.
#[derive(Debug, Clone, Copy, PartialEq, Eq, Structural)]
pub enum StreamMode {
    Thinking,
    Text,
    Tool,
    Done,
}

/// How far a text has been streamed.
#[derive(Debug)]
pub struct StreamState {
    pub mode: StreamMode,
    pub emit_pos: usize,
    pub checked_think_prefix: bool,
    pub sent_reasoning: bool,
    pub sent_content: bool,
    pub tool_calls: Vec<ToolCallData>,
}

#[verifier::ext_equal]
pub struct StreamView {
    pub mode: StreamMode,
    pub emit_pos: int,
    pub checked: bool,
    pub sent_reasoning: bool,
    pub sent_content: bool,
    pub tool_calls: Seq<ToolCallView>,
}

impl View for StreamState {
    type V = StreamView;

    open spec fn view(&self) -> StreamView {
        StreamView {
            mode: self.mode,
            emit_pos: self.emit_pos as int,
            checked: self.checked_think_prefix,
            sent_reasoning: self.sent_reasoning,
            sent_content: self.sent_content,
            tool_calls: call_views(self.tool_calls@),
        }
    }
}

/// A piece of text for the client.
#[derive(Debug)]
pub enum Piece {
    Reasoning(String),
    Content(String),
}

pub enum PieceView {
    Reasoning(Seq<char>),
    Content(Seq<char>),
}

impl View for Piece {
    type V = PieceView;

    open spec fn view(&self) -> PieceView {
        match *self {
            Piece::Reasoning(s) => PieceView::Reasoning(s@),
            Piece::Content(s) => PieceView::Content(s@),
        }
    }
}

pub open spec fn piece_view(p: Option<Piece>) -> Option<PieceView> {
    match p {
        Some(p) => Some(p@),
        None => None,
    }
}

/// One step of streaming: the state behind it, the piece to send, and the text in which
/// tool calls are to be looked for.
pub struct StepView {
    pub state: StreamView,
    pub piece: Option<PieceView>,
    pub tool_text: Option<Seq<char>>,
}

pub open spec fn think_open() -> Seq<u8> {
    encode_utf8("<think>"@)
}

pub open spec fn think_close() -> Seq<u8> {
    encode_utf8("</think>"@)
}

/// The first of the markers of a tool block, in the order of their spellings, that stands
/// in the text from `pos` on.
pub open spec fn tool_start(b: Seq<u8>, pos: int) -> Option<int> {
    match find_from(b, encode_utf8("｜DSML｜tool_calls>"@), pos) {
        Some(k) => Some(k),
        None => match find_from(b, encode_utf8("<|DSML|tool_calls>"@), pos) {
            Some(k) => Some(k),
            None => find_from(b, encode_utf8("<tool_calls>"@), pos),
        },
    }
}

/// The last place from `pos` on, and before `end`, at which the byte `c` stands.
pub open spec fn last_byte(b: Seq<u8>, c: u8, pos: int, end: int) -> Option<int>
    decreases end - pos,
{
    if end <= pos {
        None
    } else if b[end - 1] == c {
        Some(end - 1)
    } else {
        last_byte(b, c, pos, end - 1)
    }
}

/// Where the reasoning starts: behind an opening tag at the head of the text.
pub open spec fn reasoning_start(st: StreamView, b: Seq<u8>) -> int {
    if !st.checked && matches_at(b, think_open(), 0) {
        think_open().len() as int
    } else {
        st.emit_pos
    }
}

/// How far reasoning can be sent: up to the closing tag; as long as more may come, what
/// may be the beginning of that tag is held back.
pub open spec fn reasoning_limit(b: Seq<u8>, pos: int, last: bool) -> int {
    let hold = think_close().len() - 1;
    match find_from(b, think_close(), pos) {
        Some(k) => k,
        None => if last {
            b.len() as int
        } else if b.len() > pos + hold {
            b.len() - hold
        } else {
            pos
        },
    }
}

/// How far content can be sent: up to a tool block; as long as more may come, what may be
/// the beginning of a tag is held back.
pub open spec fn content_limit(b: Seq<u8>, pos: int, tools: bool, last: bool) -> int {
    let n = b.len() as int;
    if tools && tool_start(b, pos) is Some {
        tool_start(b, pos)->0
    } else if last {
        n
    } else {
        match last_byte(b, 60, pos, n) {
            Some(m) => if n - m < 20 && last_byte(b, 62, m, n) is None {
                m
            } else {
                n
            },
            None => n,
        }
    }
}

/// Whether the text can be cut where the step cuts it.
pub open spec fn step_defined(st: StreamView, b: Seq<u8>, last: bool) -> bool {
    let n = b.len() as int;
    if n == 0 || st.emit_pos >= n {
        true
    } else if st.mode == StreamMode::Thinking {
        let pos = reasoning_start(st, b);
        let limit = reasoning_limit(b, pos, last);
        is_char_boundary(b, pos) && is_char_boundary(b, limit)
    } else if st.mode == StreamMode::Text {
        is_char_boundary(b, st.emit_pos)
    } else {
        true
    }
}

/// One step of streaming on the text `b`; `last` says that no more will come.
pub open spec fn step(st: StreamView, b: Seq<u8>, tools: bool, last: bool) -> StepView {
    let n = b.len() as int;
    if n == 0 {
        StepView {
            state: if last && st.mode == StreamMode::Thinking {
                StreamView { mode: StreamMode::Text, ..st }
            } else {
                st
            },
            piece: None,
            tool_text: None,
        }
    } else if st.emit_pos >= n {
        StepView { state: st, piece: None, tool_text: None }
    } else if st.mode == StreamMode::Thinking {
        let pos = reasoning_start(st, b);
        let limit = reasoning_limit(b, pos, last);
        let sent = limit > pos;
        let at = if sent {
            limit
        } else {
            pos
        };
        StepView {
            state: StreamView {
                mode: match find_from(b, think_close(), pos) {
                    Some(_) => StreamMode::Text,
                    None => if last {
                        StreamMode::Done
                    } else {
                        StreamMode::Thinking
                    },
                },
                emit_pos: match find_from(b, think_close(), pos) {
                    Some(k) => k + think_close().len(),
                    None => at,
                },
                checked: true,
                sent_reasoning: st.sent_reasoning || sent,
                ..st
            },
            piece: if sent {
                Some(PieceView::Reasoning(text_between(b, pos, limit)))
            } else {
                None
            },
            tool_text: None,
        }
    } else if st.mode == StreamMode::Text {
        let pos = st.emit_pos;
        let limit = content_limit(b, pos, tools, last);
        let sent = limit > pos;
        let start = if tools {
            tool_start(b, pos)
        } else {
            None
        };
        StepView {
            state: StreamView {
                mode: if start is Some || last {
                    StreamMode::Done
                } else {
                    StreamMode::Text
                },
                emit_pos: match start {
                    Some(k) => k,
                    None => if sent {
                        limit
                    } else {
                        pos
                    },
                },
                sent_content: st.sent_content || sent,
                ..st
            },
            piece: if sent {
                Some(PieceView::Content(text_between(b, pos, limit)))
            } else {
                None
            },
            tool_text: match start {
                Some(k) => Some(text_between(b, k, n)),
                None => None,
            },
        }
    } else {
        StepView { state: st, piece: None, tool_text: None }
    }
}

/// The state before anything was streamed.
pub open spec fn fresh_stream(thinking: bool) -> StreamView {
    StreamView {
        mode: if thinking {
            StreamMode::Thinking
        } else {
            StreamMode::Text
        },
        emit_pos: 0,
        checked: false,
        sent_reasoning: false,
        sent_content: false,
        tool_calls: Seq::empty(),
    }
}

pub proof fn lemma_encoded_not_empty(s: Seq<char>)
    requires
        s.len() > 0,
    ensures
        encode_utf8(s).len() > 0,
{
    reveal_with_fuel(encode_utf8, 2);
}

/// Where an encoded text stands in valid UTF-8, a character begins.
pub proof fn lemma_match_boundary(b: Seq<u8>, s: Seq<char>, i: int)
    requires
        valid_utf8(b),
        s.len() > 0,
        matches_at(b, encode_utf8(s), i),
    ensures
        is_char_boundary(b, i),
        i < b.len(),
{
    let pat = encode_utf8(s);
    lemma_encoded_not_empty(s);
    encode_utf8_valid_utf8(s);
    is_char_boundary_start_end_of_seq(pat);
    is_char_boundary_iff_not_is_continuation_byte(pat, 0);
    assert(b.subrange(i, i + pat.len())[0] == b[i]);
    is_char_boundary_iff_not_is_continuation_byte(b, i);
}

proof fn lemma_last_byte(b: Seq<u8>, c: u8, pos: int, end: int)
    requires
        0 <= pos <= end <= b.len(),
    ensures
        last_byte(b, c, pos, end) matches Some(m) ==> pos <= m < end && b[m] == c,
    decreases end - pos,
{
    if end > pos && b[end - 1] != c {
        lemma_last_byte(b, c, pos, end - 1);
    }
}

/// The markers of a tool block start at a character.
pub proof fn lemma_tool_start(b: Seq<u8>, pos: int)
    requires
        valid_utf8(b),
        0 <= pos,
    ensures
        tool_start(b, pos) matches Some(k) ==> pos <= k < b.len() && is_char_boundary(b, k),
{
    reveal_strlit("｜DSML｜tool_calls>");
    reveal_strlit("<|DSML|tool_calls>");
    reveal_strlit("<tool_calls>");
    lemma_find_from(b, encode_utf8("｜DSML｜tool_calls>"@), pos);
    lemma_find_from(b, encode_utf8("<|DSML|tool_calls>"@), pos);
    lemma_find_from(b, encode_utf8("<tool_calls>"@), pos);
    match tool_start(b, pos) {
        Some(k) => {
            if matches_at(b, encode_utf8("｜DSML｜tool_calls>"@), k) {
                lemma_match_boundary(b, "｜DSML｜tool_calls>"@, k);
            } else if matches_at(b, encode_utf8("<|DSML|tool_calls>"@), k) {
                lemma_match_boundary(b, "<|DSML|tool_calls>"@, k);
            } else {
                lemma_match_boundary(b, "<tool_calls>"@, k);
            }
        },
        None => {},
    }
}

/// The first of the markers of a tool block from `pos` on.
fn find_tool_start(b: &[u8], pos: usize) -> (r: Option<usize>)
    requires
        pos <= b@.len(),
    ensures
        match r {
            Some(k) => tool_start(b@, pos as int) == Some(k as int) && pos <= k <= b@.len(),
            None => tool_start(b@, pos as int) is None,
        },
{
    match find_bytes(b, "｜DSML｜tool_calls>".as_bytes(), pos) {
        Some(k) => Some(k),
        None => match find_bytes(b, "<|DSML|tool_calls>".as_bytes(), pos) {
            Some(k) => Some(k),
            None => find_bytes(b, "<tool_calls>".as_bytes(), pos),
        },
    }
}

fn find_last_byte(b: &[u8], c: u8, pos: usize) -> (r: Option<usize>)
    requires
        pos <= b@.len(),
    ensures
        match r {
            Some(m) => last_byte(b@, c, pos as int, b@.len() as int) == Some(m as int),
            None => last_byte(b@, c, pos as int, b@.len() as int) is None,
        },
        r matches Some(m) ==> pos <= m < b@.len() && b@[m as int] == c,
{
    let mut end: usize = b.len();
    while end > pos
        invariant
            pos <= end <= b@.len(),
            last_byte(b@, c, pos as int, b@.len() as int) == last_byte(
                b@,
                c,
                pos as int,
                end as int,
            ),
        decreases end,
    {
        end = end - 1;
        if b[end] == c {
            return Some(end);
        }
    }
    None
}

/// Where a valid text stands at the head of another, a character begins behind it.
pub proof fn lemma_head_boundary(b: Seq<u8>, head: Seq<u8>)
    requires
        valid_utf8(b),
        valid_utf8(head),
        matches_at(b, head, 0),
    ensures
        is_char_boundary(b, head.len() as int),
    decreases head.len(),
{
    if head.len() > 0 {
        assert forall|i: int| 0 <= i < head.len() implies #[trigger] b[i] == head[i] by {
            assert(b.subrange(0, head.len() as int)[i] == b[i]);
        }
        let rest = pop_first_scalar(b);
        let tail = pop_first_scalar(head);
        assert(rest.subrange(0, tail.len() as int) =~= tail);
        lemma_head_boundary(rest, tail);
    }
}

/// A whole text can always be streamed in one step.
pub proof fn whole_text_can_be_streamed(text: Seq<char>, thinking: bool)
    ensures
        step_defined(fresh_stream(thinking), encode_utf8(text), true),
{
    let b = encode_utf8(text);
    let st = fresh_stream(thinking);
    encode_utf8_valid_utf8(text);
    is_char_boundary_start_end_of_seq(b);
    if thinking && b.len() > 0 {
        reveal_strlit("<think>");
        reveal_strlit("</think>");
        let pos = reasoning_start(st, b);
        if matches_at(b, think_open(), 0) {
            encode_utf8_valid_utf8("<think>"@);
            lemma_head_boundary(b, think_open());
        }
        lemma_find_from(b, think_close(), pos);
        match find_from(b, think_close(), pos) {
            Some(k) => {
                lemma_match_boundary(b, "</think>"@, k);
            },
            None => {},
        }
    }
}

/// What one step of streaming sends.
#[derive(Debug)]
pub struct StepResult {
    pub piece: Option<Piece>,
    pub tool_text: Option<String>,
}

pub open spec fn tool_text_view(t: Option<String>) -> Option<Seq<char>> {
    match t {
        Some(s) => Some(s@),
        None => None,
    }
}

/// How far reasoning can be sent.
fn find_reasoning_limit(b: &[u8], pos: usize, last: bool) -> (r: usize)
    requires
        pos <= b@.len(),
    ensures
        r == reasoning_limit(b@, pos as int, last),
        pos <= r <= b@.len(),
{
    let n: usize = b.len();
    let close = "</think>".as_bytes();
    proof {
        reveal_strlit("</think>");
        lemma_encoded_not_empty("</think>"@);
    }
    match find_bytes(b, close, pos) {
        Some(k) => k,
        None => {
            let hold: usize = close.len() - 1;
            if last {
                n
            } else if n - pos > hold {
                n - hold
            } else {
                pos
            }
        },
    }
}

/// How far content can be sent.
fn find_content_limit(b: &[u8], pos: usize, tools: bool, last: bool) -> (r: usize)
    requires
        pos <= b@.len(),
    ensures
        r == content_limit(b@, pos as int, tools, last),
        pos <= r <= b@.len(),
{
    let n: usize = b.len();
    if tools {
        match find_tool_start(b, pos) {
            Some(k) => {
                return k;
            },
            None => {},
        }
    }
    if last {
        return n;
    }
    match find_last_byte(b, 60, pos) {
        Some(m) => {
            if n - m < 20 && find_last_byte(b, 62, m).is_none() {
                m
            } else {
                n
            }
        },
        None => n,
    }
}

impl StreamState {
    pub fn new(think_enabled: bool) -> (r: Self)
        ensures
            r@ == fresh_stream(think_enabled),
    {
        let r = StreamState {
            mode: if think_enabled {
                StreamMode::Thinking
            } else {
                StreamMode::Text
            },
            emit_pos: 0,
            checked_think_prefix: false,
            sent_reasoning: false,
            sent_content: false,
            tool_calls: Vec::new(),
        };
        assert(r@ =~= fresh_stream(think_enabled));
        r
    }

    /// Whether the text can be cut where the step cuts it.
    pub fn can_step(&self, raw: &str, is_final: bool) -> (r: bool)
        ensures
            r == step_defined(self@, encode_utf8(raw@), is_final),
    {
        let b = raw.as_bytes();
        let n: usize = b.len();
        let open = "<think>".as_bytes();
        if n == 0 || self.emit_pos >= n {
            return true;
        }
        match self.mode {
            StreamMode::Thinking => {
                let head = !self.checked_think_prefix && byte_match_at(b, open, 0);
                let pos: usize = if head {
                    open.len()
                } else {
                    self.emit_pos
                };
                let limit: usize = find_reasoning_limit(b, pos, is_final);
                raw.is_char_boundary(pos) && raw.is_char_boundary(limit)
            },
            StreamMode::Text => {
                raw.is_char_boundary(self.emit_pos)
            },
            _ => true,
        }
    }

    /// One step of streaming: what is to be sent of the text `raw`.
    pub fn advance(&mut self, raw: &str, has_tools: bool, is_final: bool) -> (r: StepResult)
        requires
            step_defined(old(self)@, encode_utf8(raw@), is_final),
        ensures
            ({
                let s = step(old(self)@, encode_utf8(raw@), has_tools, is_final);
                &&& final(self)@ == s.state
                &&& piece_view(r.piece) == s.piece
                &&& tool_text_view(r.tool_text) == s.tool_text
            }),
    {
        let b = raw.as_bytes();
        let n: usize = b.len();
        let open = "<think>".as_bytes();
        let close = "</think>".as_bytes();
        proof {
            encode_utf8_valid_utf8(raw@);
            is_char_boundary_start_end_of_seq(b@);
        }
        if n == 0 {
            if is_final && self.mode == StreamMode::Thinking {
                self.mode = StreamMode::Text;
            }
            return StepResult { piece: None, tool_text: None };
        }
        if self.emit_pos >= n {
            return StepResult { piece: None, tool_text: None };
        }
        match self.mode {
            StreamMode::Thinking => {
                if !self.checked_think_prefix {
                    if byte_match_at(b, open, 0) {
                        self.emit_pos = open.len();
                    }
                    self.checked_think_prefix = true;
                }
                let pos: usize = self.emit_pos;
                let limit: usize = find_reasoning_limit(b, pos, is_final);
                let found = find_bytes(b, close, pos);
                let piece = if limit > pos {
                    self.sent_reasoning = true;
                    self.emit_pos = limit;
                    Some(Piece::Reasoning(sub_text(raw, pos, limit)))
                } else {
                    None
                };
                match found {
                    Some(k) => {
                        self.emit_pos = k + close.len();
                        self.mode = StreamMode::Text;
                    },
                    None => {
                        if is_final {
                            self.mode = StreamMode::Done;
                        }
                    },
                }
                StepResult { piece, tool_text: None }
            },
            StreamMode::Text => {
                let pos: usize = self.emit_pos;
                let start = if has_tools {
                    find_tool_start(b, pos)
                } else {
                    None
                };
                let limit: usize = find_content_limit(b, pos, has_tools, is_final);
                proof {
                    lemma_tool_start(b@, pos as int);
                    lemma_last_byte(b@, 60, pos as int, n as int);
                    if limit < n {
                        is_char_boundary_iff_not_is_continuation_byte(b@, limit as int);
                    }
                }
                let piece = if limit > pos {
                    self.sent_content = true;
                    self.emit_pos = limit;
                    Some(Piece::Content(sub_text(raw, pos, limit)))
                } else {
                    None
                };
                match start {
                    Some(k) => {
                        self.emit_pos = k;
                        self.mode = StreamMode::Done;
                        let tool_text = sub_text(raw, k, n);
                        StepResult { piece, tool_text: Some(tool_text) }
                    },
                    None => {
                        if is_final {
                            self.mode = StreamMode::Done;
                        }
                        StepResult { piece, tool_text: None }
                    },
                }
            },
            _ => StepResult { piece: None, tool_text: None },
        }
    }
}

// ── Events ───────────────────────────────────────────────────────────────

/// What is streamed to the client.
#[derive(Debug)]
pub enum StreamEvent {
    Token(String),
    ReasoningToken(String),
    ToolCall(ToolCallData),
    Finish { content: String, reasoning: String, tool_calls: Vec<ToolCallData>, finish_reason: String },
    Error(String),
}

pub enum EventView {
    Token(Seq<char>),
    ReasoningToken(Seq<char>),
    ToolCall(ToolCallView),
    Finish {
        content: Seq<char>,
        reasoning: Seq<char>,
        tool_calls: Seq<ToolCallView>,
        finish_reason: Seq<char>,
    },
    Error(Seq<char>),
}

impl View for StreamEvent {
    type V = EventView;

    open spec fn view(&self) -> EventView {
        match *self {
            StreamEvent::Token(s) => EventView::Token(s@),
            StreamEvent::ReasoningToken(s) => EventView::ReasoningToken(s@),
            StreamEvent::ToolCall(c) => EventView::ToolCall(c@),
            StreamEvent::Finish { content, reasoning, tool_calls, finish_reason } => {
                EventView::Finish {
                    content: content@,
                    reasoning: reasoning@,
                    tool_calls: call_views(tool_calls@),
                    finish_reason: finish_reason@,
                }
            },
            StreamEvent::Error(s) => EventView::Error(s@),
        }
    }
}

pub open spec fn event_views(s: Seq<StreamEvent>) -> Seq<EventView> {
    Seq::new(s.len(), |i: int| s[i]@)
}

/// The events of a piece of text.
pub open spec fn piece_events(p: Option<PieceView>) -> Seq<EventView> {
    match p {
        Some(PieceView::Reasoning(s)) => seq![EventView::ReasoningToken(s)],
        Some(PieceView::Content(s)) => seq![EventView::Token(s)],
        None => Seq::empty(),
    }
}

/// The events of tool calls.
pub open spec fn call_events(calls: Seq<ToolCallView>) -> Seq<EventView> {
    Seq::new(calls.len(), |i: int| EventView::ToolCall(calls[i]))
}

/// Whether `calls` are the calls in a text, each under some ID.
pub open spec fn name_all(calls: Seq<ToolCallView>, text: Seq<char>) -> bool {
    &&& calls.len() == raw_calls(text).len()
    &&& forall|i: int|
        0 <= i < calls.len() ==> names_call(#[trigger] calls[i], raw_calls(text)[i])
}

fn copy_call(c: &ToolCallData) -> (r: ToolCallData)
    ensures
        r@ == c@,
{
    ToolCallData { id: c.id.clone(), name: c.name.clone(), arguments: c.arguments.clone() }
}

/// The events of one step of streaming. Tool calls get their IDs from random numbers; they
/// are kept in the state too.
pub fn process_streaming_text(
    state: &mut StreamState,
    raw: &str,
    has_tools: bool,
    is_final: bool,
) -> (events: Vec<StreamEvent>)
    requires
        step_defined(old(state)@, encode_utf8(raw@), is_final),
    ensures
        ({
            let s = step(old(state)@, encode_utf8(raw@), has_tools, is_final);
            exists|calls: Seq<ToolCallView>|
                {
                    &&& #[trigger] event_views(events@) == piece_events(s.piece)
                        + #[trigger] call_events(calls)
                    &&& final(state)@ == (StreamView {
                        tool_calls: old(state)@.tool_calls + calls,
                        ..s.state
                    })
                    &&& match s.tool_text {
                        Some(t) => name_all(calls, t),
                        None => calls.len() == 0,
                    }
                }
        }),
{
    let ghost s = step(old(state)@, encode_utf8(raw@), has_tools, is_final);
    let ghost before = old(state)@.tool_calls;
    let result = state.advance(raw, has_tools, is_final);
    let mut events: Vec<StreamEvent> = Vec::new();
    match result.piece {
        Some(Piece::Reasoning(t)) => {
            events.push(StreamEvent::ReasoningToken(t));
        },
        Some(Piece::Content(t)) => {
            events.push(StreamEvent::Token(t));
        },
        None => {},
    }
    assert(event_views(events@) =~= piece_events(s.piece));
    let ghost mut sent: Seq<ToolCallView> = Seq::empty();
    match result.tool_text {
        Some(t) => {
            let calls = parse_generated_tool_calls(t.as_str());
            let ghost views = call_views(calls@);
            let mut i: usize = 0;
            assert(event_views(events@) =~= piece_events(s.piece) + call_events(views.take(0)));
            assert(state@.tool_calls =~= before + views.take(0));
            while i < calls.len()
                invariant
                    i <= calls@.len(),
                    views == call_views(calls@),
                    event_views(events@) == piece_events(s.piece) + call_events(
                        views.take(i as int),
                    ),
                    state@ == (StreamView {
                        tool_calls: before + views.take(i as int),
                        ..s.state
                    }),
                decreases calls@.len() - i,
            {
                let ghost e0 = event_views(events@);
                let ghost c0 = state@.tool_calls;
                assert(views[i as int] == calls@[i as int]@);
                let c = copy_call(&calls[i]);
                state.tool_calls.push(c);
                events.push(StreamEvent::ToolCall(copy_call(&calls[i])));
                i = i + 1;
                assert(event_views(events@) =~= e0.push(EventView::ToolCall(views[i - 1])));
                assert(call_events(views.take(i as int)) =~= call_events(views.take(i - 1)).push(
                    EventView::ToolCall(views[i - 1]),
                ));
                assert(event_views(events@) =~= piece_events(s.piece) + call_events(
                    views.take(i as int),
                ));
                assert(state@.tool_calls =~= c0.push(views[i - 1]));
                assert(state@.tool_calls =~= before + views.take(i as int));
            }
            proof {
                sent = views;
                assert(views.take(views.len() as int) =~= views);
                assert forall|i: int| 0 <= i < views.len() implies names_call(
                    #[trigger] views[i],
                    raw_calls(t@)[i],
                ) by {
                    assert(views[i] == calls@[i]@);
                }
            }
        },
        None => {
            assert(event_views(events@) =~= piece_events(s.piece) + call_events(sent));
            assert(state@.tool_calls =~= before + sent);
        },
    }
    proof {
        assert(event_views(events@) == piece_events(s.piece) + call_events(sent));
        assert(state@ =~= (StreamView { tool_calls: before + sent, ..s.state }));
    }
    events
}

// ── Reasoning and content ────────────────────────────────────────────────

/// The content and the reasoning of a generated text. The reasoning stands between the
/// tags; an opening tag that is never closed is dropped.
pub open spec fn split_text(text: Seq<char>) -> (Seq<char>, Seq<char>) {
    let open = "<think>"@;
    let close = "</think>"@;
    match find(text, open) {
        Some(s) => {
            let inner = s + open.len();
            match find_from(text, close, inner) {
                Some(e) => (
                    text.subrange(e + close.len(), text.len() as int),
                    text.subrange(inner, e),
                ),
                None => (
                    text.subrange(0, s) + text.subrange(inner, text.len() as int),
                    Seq::empty(),
                ),
            }
        },
        None => (text, Seq::empty()),
    }
}

/// The content and the reasoning of a generated text.
pub fn split_reasoning_content(text: &str) -> (r: (String, String))
    ensures
        (r.0@, r.1@) == split_text(text@),
{
    let chars = chars_of(text);
    let n: usize = chars.len();
    let open = chars_of("<think>");
    let close = chars_of("</think>");
    match find_chars(&chars, &open, 0) {
        Some(s) => {
            let inner: usize = s + open.len();
            match find_chars(&chars, &close, inner) {
                Some(e) => (
                    string_of(&chars, e + close.len(), n),
                    string_of(&chars, inner, e),
                ),
                None => {
                    let mut content = string_of(&chars, 0, s);
                    let rest = string_of(&chars, inner, n);
                    append(&mut content, rest.as_str());
                    (content, String::new())
                },
            }
        },
        None => (String::from_str(text), String::new()),
    }
}

/// Reasoning in tags before the content is told apart from it, provided that the
/// reasoning holds no closing tag.
pub proof fn tagged_reasoning_is_split_off(reasoning: Seq<char>, content: Seq<char>)
    requires
        find(reasoning, "</think>"@) is None,
    ensures
        split_text("<think>"@ + reasoning + "</think>"@ + content) == (content, reasoning),
{
    let open = "<think>"@;
    let close = "</think>"@;
    let text = open + reasoning + close + content;
    reveal_strlit("<think>");
    reveal_strlit("</think>");
    let inner = open.len() as int;
    let e = inner + reasoning.len();
    assert(text.subrange(0, inner) =~= open);
    assert(matches_at(text, open, 0));
    assert(text.subrange(e, e + close.len()) =~= close);
    assert(matches_at(text, close, e));
    lemma_find_from(reasoning, close, 0);
    lemma_find_from(text, close, inner);
    assert forall|j: int| inner <= j < e implies !matches_at(text, close, j) by {
        if matches_at(text, close, j) {
            let part = text.subrange(j, j + close.len());
            if j + close.len() <= e {
                assert(reasoning.subrange(j - inner, j - inner + close.len()) =~= part);
                assert(matches_at(reasoning, close, j - inner));
            } else {
                assert(part[e - j] == text[e]);
                assert(text[e] == '<');
                assert(close[e - j] != '<');
            }
        }
    }
    assert(find_from(text, close, inner) == Some(e));
    assert(text.subrange(e + close.len(), text.len() as int) =~= content);
    assert(text.subrange(inner, e) =~= reasoning);
}

} // verus!

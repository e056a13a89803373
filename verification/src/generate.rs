//! A job: from a request to the generated text and what is made of it.
use vstd::prelude::*;
use vstd::utf8::encode_utf8;

use crate::dsml::{parse_generated_tool_calls, raw_calls};
use crate::engine::Engine;
use crate::prompt::{chat_text, completion_text, render_chat_prompt, render_completion_prompt};
use crate::request::{call_views, tools_wf, Request, RequestKind, RequestView, ToolCallView};
use crate::respond::ResponseData;
use crate::session::{zero_logits, Progress, Session, SessionView};
use crate::stream::{
    call_events, event_views, fresh_stream, name_all, piece_events, process_streaming_text,
    split_reasoning_content, split_text, step, whole_text_can_be_streamed, EventView, StreamEvent,
    StreamState,
};
use crate::text::{
    append, chars_of, dec_i64, dec_int, find, find_chars, lemma_find_from, matches_at, string_of,
};
use crate::tokenizer::{string_views, text_tokens, VocabView};

verus! {

// ── Prompt ───────────────────────────────────────────────────────────────

/// The prompt of a request.
pub open spec fn request_prompt(q: RequestView) -> Seq<char> {
    match q.kind {
        RequestKind::Chat => chat_text(q.messages, q.tools, q.think_mode),
        RequestKind::Completion => completion_text(
            match q.prompt_text {
                Some(p) => p,
                None => Seq::empty(),
            },
            q.think_mode,
        ),
    }
}

/// The prompt of a request.
pub fn render_prompt(req: &Request) -> (r: String)
    requires
        tools_wf(req@.tools),
    ensures
        r@ == request_prompt(req@),
{
    match req.kind {
        RequestKind::Chat => render_chat_prompt(&req.messages, &req.tools, req.think_mode),
        RequestKind::Completion => {
            match &req.prompt_text {
                Some(p) => render_completion_prompt(p.as_str(), req.think_mode),
                None => {
                    proof {
                        reveal_strlit("");
                        assert(""@ =~= Seq::empty());
                    }
                    render_completion_prompt("", req.think_mode)
                },
            }
        },
    }
}

/// Why a job fails before anything is generated, with its status code.
#[derive(Debug, Clone, Copy, PartialEq, Eq, Structural)]
pub enum JobError {
    EmptyPrompt,
    PromptExceedsContext,
}

impl JobError {
    pub open spec fn spec_code(self) -> i32 {
        match self {
            JobError::EmptyPrompt => 400,
            JobError::PromptExceedsContext => 500,
        }
    }

    pub open spec fn text(self) -> Seq<char> {
        match self {
            JobError::EmptyPrompt => "Empty prompt after tokenization"@,
            JobError::PromptExceedsContext => "Session sync failed: prompt exceeds context"@,
        }
    }

    pub fn code(&self) -> (r: i32)
        ensures
            r == self.spec_code(),
    {
        match self {
            JobError::EmptyPrompt => 400,
            JobError::PromptExceedsContext => 500,
        }
    }

    pub fn message(&self) -> (r: &'static str)
        ensures
            r@ == self.text(),
    {
        match self {
            JobError::EmptyPrompt => "Empty prompt after tokenization",
            JobError::PromptExceedsContext => "Session sync failed: prompt exceeds context",
        }
    }
}

/// The tokens of a request's prompt.
pub open spec fn prompt_tokens(v: VocabView, q: RequestView) -> Seq<i32> {
    text_tokens(v, request_prompt(q))
}

/// Why the job of a request fails before anything is generated.
pub open spec fn job_error(v: VocabView, s: SessionView, q: RequestView) -> Option<JobError> {
    let tokens = prompt_tokens(v, q);
    if tokens.len() == 0 {
        Some(JobError::EmptyPrompt)
    } else if !s.takes(tokens) {
        Some(JobError::PromptExceedsContext)
    } else {
        None
    }
}

/// Brings the session to the prompt of a request; gives the length of the prompt.
pub fn prepare_job(
    engine: &Engine,
    session: &mut Session,
    req: &Request,
    progress: &mut Vec<Progress>,
) -> (r: Result<i32, JobError>)
    requires
        old(session)@.wf(),
        tools_wf(req@.tools),
    ensures
        final(session)@.wf(),
        match r {
            Ok(n) => {
                let tokens = prompt_tokens(engine@.vocab, req@);
                &&& job_error(engine@.vocab, old(session)@, req@) is None
                &&& n == tokens.len()
                &&& final(session)@ == old(session)@.synced(tokens)
                &&& final(progress)@ == old(progress)@ + old(session)@.sync_progress(tokens)
            },
            Err(e) => {
                &&& job_error(engine@.vocab, old(session)@, req@) == Some(e)
                &&& final(session)@ == old(session)@
                &&& final(progress)@ == old(progress)@
            },
        },
{
    let text = render_prompt(req);
    let tokens = engine.tokenize(text.as_str());
    if tokens.is_empty() {
        return Err(JobError::EmptyPrompt);
    }
    match session.sync(&tokens, progress) {
        Ok(_) => Ok(tokens.len() as i32),
        Err(_) => Err(JobError::PromptExceedsContext),
    }
}

// ── Generation ───────────────────────────────────────────────────────────

/// Why a generation ended.
#[derive(Debug, Clone, Copy, PartialEq, Eq, Structural)]
pub enum FinishReason {
    Stop,
    Length,
}

impl FinishReason {
    pub open spec fn spec_name(self) -> Seq<char> {
        match self {
            FinishReason::Stop => "stop"@,
            FinishReason::Length => "length"@,
        }
    }

    pub fn name(&self) -> (r: &'static str)
        ensures
            r@ == self.spec_name(),
    {
        match self {
            FinishReason::Stop => "stop",
            FinishReason::Length => "length",
        }
    }
}

/// A generation under way.
#[derive(Debug)]
pub struct Generation {
    /// The text so far.
    pub text: String,
    /// Tokens generated.
    pub count: i32,
    /// Tokens that may still be generated.
    pub left: i32,
    pub finish: FinishReason,
}

#[verifier::ext_equal]
pub struct GenerationView {
    pub text: Seq<char>,
    pub count: int,
    pub left: int,
    pub finish: FinishReason,
}

impl View for Generation {
    type V = GenerationView;

    open spec fn view(&self) -> GenerationView {
        GenerationView {
            text: self.text@,
            count: self.count as int,
            left: self.left as int,
            finish: self.finish,
        }
    }
}

impl GenerationView {
    /// The counts do not exceed what was asked for.
    pub open spec fn wf(self) -> bool {
        0 <= self.count && 0 <= self.left && self.count + self.left <= i32::MAX
    }
}

/// The text of a token: its number in brackets where it has none.
pub open spec fn token_piece(v: VocabView, token: i32) -> Seq<char> {
    if 0 <= token < v.id_to_token.len() {
        v.id_to_token[token as int]
    } else {
        "<"@ + dec_int(token as int) + ">"@
    }
}

/// Where the text is to be cut: at the first place of the first stop sequence, from
/// number `i` on, that stands in it.
pub open spec fn stop_place(text: Seq<char>, stops: Seq<Seq<char>>, i: int) -> Option<int>
    decreases stops.len() - i,
{
    if i < 0 || i >= stops.len() {
        None
    } else {
        match find(text, stops[i]) {
            Some(k) => Some(k),
            None => stop_place(text, stops, i + 1),
        }
    }
}

/// What a sampled token does: the generation behind it, whether the session evaluates it,
/// and whether the generation is over. `pos` is the number of tokens in the session
/// before.
pub open spec fn accepted(
    g: GenerationView,
    v: VocabView,
    token: i32,
    stops: Seq<Seq<char>>,
    pos: int,
    ctx: int,
) -> (GenerationView, bool, bool) {
    if token == v.eos_id {
        (GenerationView { left: g.left - 1, finish: FinishReason::Stop, ..g }, false, true)
    } else {
        let text = g.text + token_piece(v, token);
        let next = GenerationView { text, count: g.count + 1, left: g.left - 1, ..g };
        match stop_place(text, stops, 0) {
            Some(k) => (
                GenerationView { text: text.subrange(0, k), finish: FinishReason::Stop, ..next },
                false,
                true,
            ),
            None => if pos + 1 >= ctx - 1 {
                (GenerationView { finish: FinishReason::Length, ..next }, true, true)
            } else {
                (next, true, next.left == 0)
            },
        }
    }
}

/// The text of a token.
fn piece_of(engine: &Engine, token: i32) -> (r: String)
    ensures
        r@ == token_piece(engine@.vocab, token),
{
    match engine.token_text(token) {
        Some(s) => s,
        None => {
            let mut s = String::from_str("<");
            let n = dec_i64(token as i64);
            append(&mut s, n.as_str());
            append(&mut s, ">");
            s
        },
    }
}

/// Where the text is to be cut.
fn find_stop(text: &Vec<char>, stops: &Vec<String>) -> (r: Option<usize>)
    ensures
        match r {
            Some(k) => stop_place(text@, string_views(stops@), 0) == Some(k as int) && k
                <= text@.len(),
            None => stop_place(text@, string_views(stops@), 0) is None,
        },
{
    let ghost views = string_views(stops@);
    let mut i: usize = 0;
    while i < stops.len()
        invariant
            i <= stops@.len(),
            views == string_views(stops@),
            stop_place(text@, views, 0) == stop_place(text@, views, i as int),
        decreases stops@.len() - i,
    {
        assert(views[i as int] == stops@[i as int]@);
        let pat = chars_of(stops[i].as_str());
        match find_chars(text, &pat, 0) {
            Some(k) => {
                return Some(k);
            },
            None => {},
        }
        i = i + 1;
    }
    None
}

impl Generation {
    /// A generation of at most `max_tokens` tokens.
    pub fn new(max_tokens: i32) -> (r: Self)
        ensures
            r@ == (GenerationView {
                text: Seq::empty(),
                count: 0,
                left: if max_tokens > 0 {
                    max_tokens as int
                } else {
                    0
                },
                finish: FinishReason::Stop,
            }),
            r@.wf(),
    {
        Generation {
            text: String::new(),
            count: 0,
            left: if max_tokens > 0 {
                max_tokens
            } else {
                0
            },
            finish: FinishReason::Stop,
        }
    }

    /// Whether another token is to be sampled.
    pub fn wants_token(&self) -> (r: bool)
        ensures
            r == (self@.left > 0),
    {
        self.left > 0
    }

    /// Takes in a sampled token, which the session evaluates unless it ends the text;
    /// says whether the generation is over.
    pub fn accept(
        &mut self,
        engine: &Engine,
        session: &mut Session,
        token: i32,
        stops: &Vec<String>,
    ) -> (done: bool)
        requires
            old(self)@.wf(),
            old(self)@.left > 0,
            old(session)@.wf(),
            old(session)@.tokens.len() < i32::MAX,
        ensures
            final(self)@.wf(),
            final(session)@.wf(),
            ({
                let s = old(session)@;
                let (g, evaluated, over) = accepted(
                    old(self)@,
                    engine@.vocab,
                    token,
                    string_views(stops@),
                    s.tokens.len() as int,
                    s.ctx as int,
                );
                &&& final(self)@ == g
                &&& done == over
                &&& final(session)@ == if evaluated {
                    SessionView { tokens: s.tokens.push(token), logits: zero_logits(), ..s }
                } else {
                    s
                }
            }),
            !done ==> final(session)@.tokens.len() < final(session)@.ctx,
    {
        self.left = self.left - 1;
        if token == engine.token_eos() {
            self.finish = FinishReason::Stop;
            return true;
        }
        let piece = piece_of(engine, token);
        append(&mut self.text, piece.as_str());
        self.count = self.count + 1;
        let chars = chars_of(self.text.as_str());
        match find_stop(&chars, stops) {
            Some(k) => {
                self.text = string_of(&chars, 0, k);
                self.finish = FinishReason::Stop;
                return true;
            },
            None => {},
        }
        session.eval(token);
        if session.pos() >= session.ctx() - 1 {
            self.finish = FinishReason::Length;
            return true;
        }
        self.left == 0
    }
}

/// A text that is cut holds the stop sequence at which it was cut no more; an empty one
/// stands in every text.
pub proof fn cut_text_is_free_of_stop(text: Seq<char>, stops: Seq<Seq<char>>)
    requires
        stop_place(text, stops, 0) is Some,
    ensures
        ({
            let k = stop_place(text, stops, 0)->0;
            exists|i: int|
                {
                    &&& 0 <= i < stops.len()
                    &&& find(text, #[trigger] stops[i]) == Some(k)
                    &&& stops[i].len() > 0 ==> find(text.subrange(0, k), stops[i]) is None
                }
        }),
{
    lemma_stop_place(text, stops, 0);
    let k = stop_place(text, stops, 0)->0;
    let i = choose|i: int|
        0 <= i < stops.len() && find(text, #[trigger] stops[i]) == stop_place(text, stops, 0);
    let stop = stops[i];
    lemma_find_from(text, stop, 0);
    if stop.len() > 0 {
        let head = text.subrange(0, k);
        lemma_find_from(head, stop, 0);
        match find(head, stop) {
            Some(j) => {
                assert(head.subrange(j, j + stop.len()) =~= text.subrange(j, j + stop.len()));
                assert(matches_at(text, stop, j));
            },
            None => {},
        }
    }
}

proof fn lemma_stop_place(text: Seq<char>, stops: Seq<Seq<char>>, i: int)
    requires
        0 <= i,
        stop_place(text, stops, i) is Some,
    ensures
        exists|j: int|
            i <= j < stops.len() && find(text, #[trigger] stops[j]) == stop_place(text, stops, i),
    decreases stops.len() - i,
{
    if find(text, stops[i]) is None {
        lemma_stop_place(text, stops, i + 1);
        let j = choose|j: int|
            i + 1 <= j < stops.len() && find(text, #[trigger] stops[j]) == stop_place(
                text,
                stops,
                i + 1,
            );
        assert(find(text, stops[j]) == stop_place(text, stops, i));
    }
}

// ── Results ──────────────────────────────────────────────────────────────

/// The finish reason that the client is told: the model called tools, or why it ended.
pub open spec fn told_reason(text: Seq<char>, finish: FinishReason) -> Seq<char> {
    if raw_calls(text).len() > 0 {
        "tool_calls"@
    } else {
        finish.spec_name()
    }
}

/// The answer that a generation makes. Tool calls get IDs from random numbers.
pub fn complete_job(g: &Generation, prompt_tokens: i32) -> (r: ResponseData)
    ensures
        ({
            let (content, reasoning) = split_text(g@.text);
            &&& r@.content == content
            &&& r@.reasoning == reasoning
            &&& name_all(r@.tool_calls, g@.text)
            &&& r@.finish_reason == told_reason(g@.text, g@.finish)
            &&& r@.prompt_tokens == prompt_tokens
            &&& r@.completion_tokens == g.count
        }),
{
    let (content, reasoning) = split_reasoning_content(g.text.as_str());
    let tool_calls = parse_generated_tool_calls(g.text.as_str());
    proof {
        lemma_named(tool_calls@, g@.text);
    }
    let finish_reason = if tool_calls.len() > 0 {
        String::from_str("tool_calls")
    } else {
        String::from_str(g.finish.name())
    };
    ResponseData {
        content,
        reasoning,
        tool_calls,
        finish_reason,
        prompt_tokens,
        completion_tokens: g.count,
    }
}

proof fn lemma_named(calls: Seq<crate::request::ToolCallData>, text: Seq<char>)
    requires
        calls.len() == raw_calls(text).len(),
        forall|i: int|
            0 <= i < calls.len() ==> crate::dsml::names_call(
                (#[trigger] calls[i])@,
                raw_calls(text)[i],
            ),
    ensures
        name_all(call_views(calls), text),
{
    assert forall|i: int| 0 <= i < calls.len() implies crate::dsml::names_call(
        #[trigger] call_views(calls)[i],
        raw_calls(text)[i],
    ) by {
        assert(call_views(calls)[i] == calls[i]@);
    }
}

/// The events of a generation: those of its text, then its end. `sent` are the tool
/// calls that were sent on the way.
pub open spec fn job_events(
    text: Seq<char>,
    finish: FinishReason,
    thinking: bool,
    tools: bool,
    sent: Seq<ToolCallView>,
    calls: Seq<ToolCallView>,
) -> Seq<EventView> {
    let (content, reasoning) = split_text(text);
    piece_events(step(fresh_stream(thinking), encode_utf8(text), tools, true).piece) + call_events(
        sent,
    ) + seq![
        EventView::Finish {
            content,
            reasoning,
            tool_calls: calls,
            finish_reason: finish.spec_name(),
        },
    ]
}

/// The events of a generation. The end carries the tool calls that were sent on the way,
/// or else those in the whole text.
pub fn stream_job(g: &Generation, thinking: bool, tools: bool) -> (events: Vec<StreamEvent>)
    ensures
        exists|sent: Seq<ToolCallView>, calls: Seq<ToolCallView>|
            {
                &&& event_views(events@) == #[trigger] job_events(
                    g@.text,
                    g@.finish,
                    thinking,
                    tools,
                    sent,
                    calls,
                )
                &&& match step(
                    fresh_stream(thinking),
                    encode_utf8(g@.text),
                    tools,
                    true,
                ).tool_text {
                    Some(t) => name_all(sent, t),
                    None => sent.len() == 0,
                }
                &&& if sent.len() > 0 {
                    calls == sent
                } else {
                    name_all(calls, g@.text)
                }
            },
{
    let mut state = StreamState::new(thinking);
    let ghost st = state@;
    let ghost s = step(st, encode_utf8(g@.text), tools, true);
    proof {
        whole_text_can_be_streamed(g@.text, thinking);
    }
    let mut events = process_streaming_text(&mut state, g.text.as_str(), tools, true);
    let ghost before = event_views(events@);
    let ghost sent = state@.tool_calls;
    proof {
        let c = choose|c: Seq<ToolCallView>|
            {
                &&& before == piece_events(s.piece) + #[trigger] call_events(c)
                &&& state@ == (crate::stream::StreamView {
                    tool_calls: st.tool_calls + c,
                    ..s.state
                })
                &&& match s.tool_text {
                    Some(t) => name_all(c, t),
                    None => c.len() == 0,
                }
            };
        assert(st.tool_calls + c =~= c);
    }
    let (content, reasoning) = split_reasoning_content(g.text.as_str());
    let tool_calls = if state.tool_calls.len() > 0 {
        state.tool_calls
    } else {
        let found = parse_generated_tool_calls(g.text.as_str());
        proof {
            lemma_named(found@, g@.text);
        }
        found
    };
    let ghost calls = call_views(tool_calls@);
    events.push(
        StreamEvent::Finish {
            content,
            reasoning,
            tool_calls,
            finish_reason: String::from_str(g.finish.name()),
        },
    );
    proof {
        assert(event_views(events@) =~= job_events(
            g@.text,
            g@.finish,
            thinking,
            tools,
            sent,
            calls,
        ));
    }
    events
}

} // verus!

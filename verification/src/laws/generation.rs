//! What a generation is held to.
use vstd::prelude::*;

use crate::generate::{accepted, job_events, stop_place, FinishReason, GenerationView};
use crate::request::ToolCallView;
use crate::stream::{split_text, EventView};
use crate::text::{dec_int, find, lemma_find_from, matches_at};
use crate::tokenizer::VocabView;

verus! {

/// Whether `stop` stands in `text` at `k`.
pub open spec fn stands_at(text: Seq<char>, stop: Seq<char>, k: int) -> bool {
    0 <= k <= text.len() - stop.len() && text.subrange(k, k + stop.len()) == stop
}

/// Whether a stop sequence stands in a text.
pub open spec fn holds(text: Seq<char>, stop: Seq<char>) -> bool {
    exists|k: int| stands_at(text, stop, k)
}

/// The end-of-sentence token ends the generation: it adds nothing to the text, is not
/// counted and not evaluated.
pub proof fn end_token_ends_generation(
    g: GenerationView,
    v: VocabView,
    stops: Seq<Seq<char>>,
    pos: int,
    ctx: int,
)
    ensures
        ({
            let (next, evaluated, over) = accepted(g, v, v.eos_id, stops, pos, ctx);
            &&& over
            &&& !evaluated
            &&& next.text == g.text
            &&& next.count == g.count
            &&& next.left == g.left - 1
            &&& next.finish == FinishReason::Stop
        }),
{
}

/// The text with that of a token behind it; a token that the vocabulary does not hold
/// stands as its number in angle brackets.
pub open spec fn with_token(g: GenerationView, v: VocabView, token: i32) -> Seq<char> {
    g.text + if 0 <= token < v.id_to_token.len() {
        v.id_to_token[token as int]
    } else {
        "<"@ + dec_int(token as int) + ">"@
    }
}

/// Any other token is counted and its text appended. Where no stop sequence then stands in
/// the text, the session evaluates it, and the generation is over only when the limit is
/// used up or the context is full but for one token.
pub proof fn other_tokens_go_on(
    g: GenerationView,
    v: VocabView,
    token: i32,
    stops: Seq<Seq<char>>,
    pos: int,
    ctx: int,
)
    requires
        token != v.eos_id,
        forall|i: int|
            0 <= i < stops.len() ==> !holds(with_token(g, v, token), #[trigger] stops[i]),
    ensures
        ({
            let (next, evaluated, over) = accepted(g, v, token, stops, pos, ctx);
            &&& next.text == with_token(g, v, token)
            &&& next.count == g.count + 1
            &&& next.left == g.left - 1
            &&& evaluated
            &&& over == (g.left == 1 || pos + 2 >= ctx)
            &&& pos + 2 >= ctx ==> next.finish == FinishReason::Length
            &&& pos + 2 < ctx ==> next.finish == g.finish
        }),
{
    lemma_no_stop(with_token(g, v, token), stops, 0);
}

proof fn lemma_no_stop(text: Seq<char>, stops: Seq<Seq<char>>, i: int)
    requires
        0 <= i <= stops.len(),
        forall|j: int| 0 <= j < stops.len() ==> !holds(text, #[trigger] stops[j]),
    ensures
        stop_place(text, stops, i) is None,
    decreases stops.len() - i,
{
    if i < stops.len() {
        lemma_find_from(text, stops[i], 0);
        match find(text, stops[i]) {
            Some(k) => {
                assert(stands_at(text, stops[i], k));
                assert(holds(text, stops[i]));
            },
            None => {},
        }
        lemma_no_stop(text, stops, i + 1);
    }
}

/// A stop sequence ends the generation: of the stop sequences that stand in the text with
/// the new token, the first one listed decides, and the text is cut where it first stands.
/// The token counts, but is not evaluated.
pub proof fn stop_sequence_cuts(
    g: GenerationView,
    v: VocabView,
    token: i32,
    stops: Seq<Seq<char>>,
    pos: int,
    ctx: int,
    i: int,
    k: int,
)
    requires
        token != v.eos_id,
        0 <= i < stops.len(),
        forall|j: int| 0 <= j < i ==> !holds(with_token(g, v, token), #[trigger] stops[j]),
        stands_at(with_token(g, v, token), stops[i], k),
        forall|m: int| 0 <= m < k ==> !stands_at(with_token(g, v, token), stops[i], m),
    ensures
        ({
            let (next, evaluated, over) = accepted(g, v, token, stops, pos, ctx);
            &&& over
            &&& !evaluated
            &&& next.text == with_token(g, v, token).subrange(0, k)
            &&& next.count == g.count + 1
            &&& next.finish == FinishReason::Stop
        }),
{
    lemma_first_stop(with_token(g, v, token), stops, 0, i, k);
}

proof fn lemma_first_stop(text: Seq<char>, stops: Seq<Seq<char>>, from: int, i: int, k: int)
    requires
        0 <= from <= i < stops.len(),
        forall|j: int| 0 <= j < i ==> !holds(text, #[trigger] stops[j]),
        stands_at(text, stops[i], k),
        forall|m: int| 0 <= m < k ==> !stands_at(text, stops[i], m),
    ensures
        stop_place(text, stops, from) == Some(k),
    decreases i - from,
{
    lemma_find_from(text, stops[from], 0);
    if from < i {
        match find(text, stops[from]) {
            Some(p) => {
                assert(stands_at(text, stops[from], p));
                assert(holds(text, stops[from]));
            },
            None => {},
        }
        lemma_first_stop(text, stops, from + 1, i, k);
    } else {
        assert(matches_at(text, stops[i], k));
        match find(text, stops[i]) {
            Some(p) => {
                if p < k {
                    assert(stands_at(text, stops[i], p));
                }
            },
            None => {},
        }
    }
}

/// The last event of a streamed job ends it, with the tool calls and the reason; a text
/// without an opening tag of reasoning is its content as it stands.
pub proof fn streamed_job_ends_with_answer(
    text: Seq<char>,
    finish: FinishReason,
    thinking: bool,
    tools: bool,
    sent: Seq<ToolCallView>,
    calls: Seq<ToolCallView>,
)
    ensures
        ({
            let events = job_events(text, finish, thinking, tools, sent, calls);
            let end = events.last();
            &&& events.len() > 0
            &&& end matches EventView::Finish { content, reasoning, tool_calls, finish_reason }
            &&& tool_calls == calls
            &&& finish_reason == match finish {
                FinishReason::Stop => "stop"@,
                FinishReason::Length => "length"@,
            }
            &&& !holds(text, "<think>"@) ==> content == text && reasoning.len() == 0
        }),
{
    lemma_find_from(text, "<think>"@, 0);
    match find(text, "<think>"@) {
        Some(k) => {
            assert(stands_at(text, "<think>"@, k));
        },
        None => {
            assert(split_text(text) == (text, Seq::<char>::empty()));
        },
    }
}

} // verus!

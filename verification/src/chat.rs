//! The chat format: messages and rendered conversations as tokens.
use vstd::prelude::*;

use crate::engine::Engine;
use crate::text::{append, char_match_at, chars_of, dec_i64, dec_int, matches_at, same_text, string_of};
use crate::tokenizer::{text_tokens, VocabView};
use crate::types::{think_max_prefix, ThinkMode, TokenVec, DS4_REASONING_EFFORT_MAX_PREFIX};

verus! {

/// The token with which an assistant turn opens.
pub open spec fn think_marker(v: VocabView, mode: ThinkMode) -> i32 {
    if mode != ThinkMode::Off {
        v.think_start_id
    } else {
        v.think_end_id
    }
}

/// The tokens of the prefix that asks for the greatest effort.
pub open spec fn max_effort_tokens(v: VocabView) -> Seq<i32> {
    text_tokens(v, DS4_REASONING_EFFORT_MAX_PREFIX@)
}

/// The tokens of a whole prompt: the system text, the user's text, and the opening of the
/// assistant's turn.
pub open spec fn chat_prompt(
    v: VocabView,
    system: Option<Seq<char>>,
    prompt: Seq<char>,
    mode: ThinkMode,
) -> Seq<i32> {
    seq![v.bos_id] + (if mode == ThinkMode::Max {
        max_effort_tokens(v)
    } else {
        Seq::empty()
    }) + (match system {
        Some(s) => if s.len() > 0 {
            text_tokens(v, s)
        } else {
            Seq::empty()
        },
        None => Seq::empty(),
    }) + seq![v.user_id] + text_tokens(v, prompt) + seq![v.assistant_id] + seq![
        think_marker(v, mode),
    ]
}

/// The tokens of a message. A role without a name is the user's.
pub open spec fn message_tokens(v: VocabView, role: Seq<char>, content: Seq<char>) -> Seq<i32> {
    let body = text_tokens(v, content);
    if role == "system"@ || role == "developer"@ {
        body
    } else if role == "assistant"@ {
        let marked = matches_at(content, "<think>"@, 0) || matches_at(content, "</think>"@, 0);
        seq![v.assistant_id] + (if marked {
            Seq::empty()
        } else {
            seq![v.think_end_id]
        }) + body
    } else if role == "tool"@ || role == "function"@ {
        seq![v.user_id] + text_tokens(v, "Tool: "@) + body
    } else {
        seq![v.user_id] + body
    }
}

/// The texts that stand for a token of their own in a rendered conversation.
pub open spec fn specials(v: VocabView) -> Seq<(Seq<char>, i32)> {
    seq![
        ("<｜begin▁of▁sentence｜>"@, v.bos_id),
        ("<｜end▁of▁sentence｜>"@, v.eos_id),
        ("<｜User｜>"@, v.user_id),
        ("<｜Assistant｜>"@, v.assistant_id),
        ("<think>"@, v.think_start_id),
        ("</think>"@, v.think_end_id),
        ("｜DSML｜"@, v.dsml_id),
    ]
}

/// The first of the special texts from number `k` on that stands at `pos`.
pub open spec fn special_at(v: VocabView, text: Seq<char>, pos: int, k: int) -> Option<int>
    decreases 7 - k,
{
    if k < 0 || k >= 7 {
        None
    } else if matches_at(text, specials(v)[k].0, pos) {
        Some(k)
    } else {
        special_at(v, text, pos, k + 1)
    }
}

/// The tokens of the text between special texts.
pub open spec fn span_tokens(v: VocabView, text: Seq<char>, start: int, end: int) -> Seq<i32> {
    if end > start {
        text_tokens(v, text.subrange(start, end))
    } else {
        Seq::empty()
    }
}

/// The tokens of a rendered conversation from `start` on, where no special text stands
/// between `start` and `pos`.
pub open spec fn rendered(v: VocabView, text: Seq<char>, start: int, pos: int) -> Seq<i32>
    decreases text.len() - pos,
{
    if pos < 0 || pos >= text.len() {
        span_tokens(v, text, start, pos)
    } else {
        match special_at(v, text, pos, 0) {
            Some(k) => {
                let next = pos + specials(v)[k].0.len();
                if pos < next <= text.len() {
                    span_tokens(v, text, start, pos) + seq![specials(v)[k].1] + rendered(
                        v,
                        text,
                        next,
                        next,
                    )
                } else {
                    Seq::empty()
                }
            },
            None => rendered(v, text, start, pos + 1),
        }
    }
}

/// The tokens of a rendered conversation.
pub open spec fn rendered_tokens(v: VocabView, text: Seq<char>) -> Seq<i32> {
    rendered(v, text, 0, 0)
}

/// The first `n` numbers in decimal, each but the first behind a comma and a space.
pub open spec fn listed(ids: Seq<i32>, n: nat) -> Seq<char>
    decreases n,
{
    if n == 0 {
        Seq::empty()
    } else {
        listed(ids, (n - 1) as nat) + (if n > 1 {
            ", "@
        } else {
            Seq::empty()
        }) + dec_int(ids[n - 1] as int)
    }
}

proof fn lemma_specials_not_empty(v: VocabView)
    ensures
        specials(v).len() == 7,
        forall|k: int| 0 <= k < 7 ==> (#[trigger] specials(v)[k]).0.len() > 0,
{
    reveal_strlit("<｜begin▁of▁sentence｜>");
    reveal_strlit("<｜end▁of▁sentence｜>");
    reveal_strlit("<｜User｜>");
    reveal_strlit("<｜Assistant｜>");
    reveal_strlit("<think>");
    reveal_strlit("</think>");
    reveal_strlit("｜DSML｜");
}

/// What `special_at` gives is a special text that stands there.
proof fn lemma_special_at(v: VocabView, text: Seq<char>, pos: int, k: int)
    ensures
        special_at(v, text, pos, k) matches Some(i) ==> k <= i < 7 && 0 <= i && matches_at(
            text,
            specials(v)[i].0,
            pos,
        ),
    decreases 7 - k,
{
    if 0 <= k < 7 && !matches_at(text, specials(v)[k].0, pos) {
        lemma_special_at(v, text, pos, k + 1);
    }
}

/// A conversation without special texts has the tokens of a plain text.
pub proof fn plain_text_is_tokenized_whole(v: VocabView, text: Seq<char>)
    requires
        forall|p: int, k: int|
            0 <= p < text.len() && 0 <= k < 7 ==> !#[trigger] matches_at(
                text,
                specials(v)[k].0,
                p,
            ),
    ensures
        rendered_tokens(v, text) == text_tokens(v, text),
{
    lemma_no_special(v, text, 0);
    assert(text.subrange(0, text.len() as int) =~= text);
    if text.len() == 0 {
        assert(text =~= Seq::empty());
        lemma_empty_text(v);
    }
}

proof fn lemma_empty_text(v: VocabView)
    ensures
        text_tokens(v, Seq::empty()) == Seq::<i32>::empty(),
{
    let bytes = vstd::utf8::encode_utf8(Seq::empty());
    assert(bytes.len() == 0);
    assert(crate::tokenizer::pieces(bytes, 0).len() == 0);
}

proof fn lemma_no_special(v: VocabView, text: Seq<char>, pos: int)
    requires
        0 <= pos <= text.len(),
        forall|p: int, k: int|
            0 <= p < text.len() && 0 <= k < 7 ==> !#[trigger] matches_at(
                text,
                specials(v)[k].0,
                p,
            ),
    ensures
        rendered(v, text, 0, pos) == span_tokens(v, text, 0, text.len() as int),
    decreases text.len() - pos,
{
    if pos < text.len() {
        lemma_special_at(v, text, pos, 0);
        lemma_no_special(v, text, pos + 1);
    }
}

/// Of two special texts, none is the beginning of the other.
proof fn lemma_specials_differ(v: VocabView, j: int, k: int)
    requires
        0 <= j < k < 7,
    ensures
        specials(v)[j].0.len() > 2,
        specials(v)[k].0.len() > 2,
        specials(v)[j].0[0] != specials(v)[k].0[0] || specials(v)[j].0[1] != specials(v)[k].0[1]
            || specials(v)[j].0[2] != specials(v)[k].0[2],
{
    reveal_strlit("<｜begin▁of▁sentence｜>");
    reveal_strlit("<｜end▁of▁sentence｜>");
    reveal_strlit("<｜User｜>");
    reveal_strlit("<｜Assistant｜>");
    reveal_strlit("<think>");
    reveal_strlit("</think>");
    reveal_strlit("｜DSML｜");
}

proof fn lemma_special_first(v: VocabView, k: int, rest: Seq<char>, j: int)
    requires
        0 <= j <= k < 7,
    ensures
        special_at(v, specials(v)[k].0 + rest, 0, j) == Some(k),
    decreases k - j,
{
    let head = specials(v)[k].0;
    let text = head + rest;
    if j == k {
        assert(text.subrange(0, head.len() as int) =~= head);
    } else {
        lemma_specials_differ(v, j, k);
        let other = specials(v)[j].0;
        if matches_at(text, other, 0) {
            let part = text.subrange(0, other.len() as int);
            assert(part[0] == head[0] && part[1] == head[1] && part[2] == head[2]);
        }
        lemma_special_first(v, k, rest, j + 1);
    }
}

/// A special text at the head of a conversation is its one token, followed by the tokens
/// of the rest.
pub proof fn special_text_is_one_token(v: VocabView, k: int, rest: Seq<char>)
    requires
        0 <= k < 7,
    ensures
        rendered_tokens(v, specials(v)[k].0 + rest) == seq![specials(v)[k].1] + rendered_tokens(
            v,
            rest,
        ),
{
    let head = specials(v)[k].0;
    let text = head + rest;
    lemma_specials_not_empty(v);
    assert(specials(v)[k].0.len() > 0);
    lemma_special_first(v, k, rest, 0);
    lemma_shifted(v, head, rest, 0, 0);
    assert(span_tokens(v, text, 0, 0) + seq![specials(v)[k].1] =~= seq![specials(v)[k].1]);
}

proof fn lemma_special_shifted(v: VocabView, head: Seq<char>, rest: Seq<char>, pos: int, k: int)
    requires
        0 <= pos <= rest.len(),
    ensures
        special_at(v, head + rest, head.len() + pos, k) == special_at(v, rest, pos, k),
    decreases 7 - k,
{
    if 0 <= k < 7 {
        let pat = specials(v)[k].0;
        let text = head + rest;
        let at = head.len() + pos;
        assert(matches_at(text, pat, at) == matches_at(rest, pat, pos)) by {
            if pos + pat.len() <= rest.len() {
                assert(text.subrange(at, at + pat.len()) =~= rest.subrange(pos, pos + pat.len()));
            }
        }
        lemma_special_shifted(v, head, rest, pos, k + 1);
    }
}

/// The tokens of a rest do not depend on what stands before it.
proof fn lemma_shifted(v: VocabView, head: Seq<char>, rest: Seq<char>, start: int, pos: int)
    requires
        0 <= start <= pos <= rest.len(),
    ensures
        rendered(v, head + rest, head.len() + start, head.len() + pos) == rendered(
            v,
            rest,
            start,
            pos,
        ),
    decreases rest.len() - pos,
{
    let text = head + rest;
    let n = head.len();
    assert(span_tokens(v, text, n + start, n + pos) == span_tokens(v, rest, start, pos)) by {
        assert(text.subrange(n + start, n + pos) =~= rest.subrange(start, pos));
    }
    if pos < rest.len() {
        lemma_special_shifted(v, head, rest, pos, 0);
        lemma_special_at(v, rest, pos, 0);
        lemma_specials_not_empty(v);
        match special_at(v, rest, pos, 0) {
            Some(k) => {
                let next = pos + specials(v)[k].0.len();
                lemma_shifted(v, head, rest, next, next);
            },
            None => {
                lemma_shifted(v, head, rest, start, pos + 1);
            },
        }
    }
}

/// A special text behind plain text is its one token, between the tokens of what stands
/// before it and those of what stands behind it.
pub proof fn special_text_splits(v: VocabView, before: Seq<char>, k: int, behind: Seq<char>)
    requires
        0 <= k < 7,
        forall|p: int, j: int|
            0 <= p < before.len() && 0 <= j < 7 ==> !#[trigger] matches_at(
                before + specials(v)[k].0 + behind,
                specials(v)[j].0,
                p,
            ),
    ensures
        rendered_tokens(v, before + specials(v)[k].0 + behind) == text_tokens(v, before) + seq![
            specials(v)[k].1,
        ] + rendered_tokens(v, behind),
        (forall|p: int, j: int|
            0 <= p < behind.len() && 0 <= j < 7 ==> !#[trigger] matches_at(
                behind,
                specials(v)[j].0,
                p,
            )) ==> rendered_tokens(v, before + specials(v)[k].0 + behind) == text_tokens(v, before)
            + seq![specials(v)[k].1] + text_tokens(v, behind),
{
    let s = specials(v)[k].0;
    let text = before + s + behind;
    let n = before.len() as int;
    lemma_specials_not_empty(v);
    assert(specials(v)[k].0.len() > 0);
    lemma_walk(v, text, 0, n);
    assert(text =~= before + (s + behind));
    lemma_special_shifted(v, before, s + behind, 0, 0);
    lemma_special_first(v, k, behind, 0);
    lemma_shifted(v, before + s, behind, 0, 0);
    assert(text.subrange(0, n) =~= before);
    if n == 0 {
        assert(before =~= Seq::empty());
        lemma_empty_text(v);
    }
    if forall|p: int, j: int|
        0 <= p < behind.len() && 0 <= j < 7 ==> !#[trigger] matches_at(
            behind,
            specials(v)[j].0,
            p,
        ) {
        plain_text_is_tokenized_whole(v, behind);
    }
}

/// Plain text is passed over.
proof fn lemma_walk(v: VocabView, text: Seq<char>, pos: int, end: int)
    requires
        0 <= pos <= end <= text.len(),
        forall|p: int, j: int|
            0 <= p < end && 0 <= j < 7 ==> !#[trigger] matches_at(text, specials(v)[j].0, p),
    ensures
        rendered(v, text, 0, pos) == rendered(v, text, 0, end),
    decreases end - pos,
{
    if pos < end {
        lemma_special_at(v, text, pos, 0);
        lemma_walk(v, text, pos + 1, end);
    }
}

/// Whether a text starts with another.
fn text_starts_with(text: &str, prefix: &str) -> (r: bool)
    ensures
        r == matches_at(text@, prefix@, 0),
{
    let t = chars_of(text);
    let p = chars_of(prefix);
    char_match_at(&t, &p, 0)
}

/// Parts that are appended one by one stand behind the rest as a whole.
proof fn lemma_seven_parts(
    z: Seq<i32>,
    a: Seq<i32>,
    b: Seq<i32>,
    c: Seq<i32>,
    d: Seq<i32>,
    e: Seq<i32>,
    f: Seq<i32>,
    g: Seq<i32>,
)
    ensures
        z + a + b + c + d + e + f + g == z + (a + b + c + d + e + f + g),
{
    assert(z + a + b =~= z + (a + b));
    assert(z + (a + b) + c =~= z + (a + b + c));
    assert(z + (a + b + c) + d =~= z + (a + b + c + d));
    assert(z + (a + b + c + d) + e =~= z + (a + b + c + d + e));
    assert(z + (a + b + c + d + e) + f =~= z + (a + b + c + d + e + f));
    assert(z + (a + b + c + d + e + f) + g =~= z + (a + b + c + d + e + f + g));
}

impl Engine {
    /// Opens a conversation.
    pub fn chat_begin(&self, tokens: &mut TokenVec)
        ensures
            final(tokens)@ == old(tokens)@.push(self@.vocab.bos_id),
    {
        tokens.push(self.vocab.bos_id);
    }

    /// Appends a whole prompt.
    pub fn encode_chat_prompt(
        &self,
        system: Option<&str>,
        prompt: &str,
        think_mode: ThinkMode,
        out: &mut TokenVec,
    )
        ensures
            final(out)@ == old(out)@ + chat_prompt(
                self@.vocab,
                match system {
                    Some(s) => Some(s@),
                    None => None,
                },
                prompt@,
                think_mode,
            ),
    {
        let ghost v = self@.vocab;
        let ghost effort = if think_mode == ThinkMode::Max {
            max_effort_tokens(v)
        } else {
            Seq::empty()
        };
        let ghost opening: Seq<i32> = match system {
            Some(s) => if s@.len() > 0 {
                text_tokens(v, s@)
            } else {
                Seq::empty()
            },
            None => Seq::empty(),
        };
        out.push(self.vocab.bos_id);
        assert(out@ =~= old(out)@ + seq![v.bos_id]);
        let ghost s1 = out@;
        if think_mode == ThinkMode::Max {
            self.tokenize_max_effort_prefix(out);
        }
        assert(out@ =~= s1 + effort);
        let ghost s2 = out@;
        match system {
            Some(sys) => {
                if !same_text(sys, "") {
                    self.vocab.bpe_tokenize(sys, &mut out.v);
                }
                proof {
                    reveal_strlit("");
                    assert(sys@.len() == 0 ==> sys@ =~= ""@);
                }
            },
            None => {},
        }
        assert(out@ =~= s2 + opening);
        let ghost s3 = out@;
        out.push(self.vocab.user_id);
        assert(out@ =~= s3 + seq![v.user_id]);
        self.vocab.bpe_tokenize(prompt, &mut out.v);
        let ghost s4 = out@;
        out.push(self.vocab.assistant_id);
        assert(out@ =~= s4 + seq![v.assistant_id]);
        let ghost s5 = out@;
        if think_mode.is_enabled() {
            out.push(self.vocab.think_start_id);
        } else {
            out.push(self.vocab.think_end_id);
        }
        assert(out@ =~= s5 + seq![think_marker(v, think_mode)]);
        proof {
            lemma_seven_parts(
                old(out)@,
                seq![v.bos_id],
                effort,
                opening,
                seq![v.user_id],
                text_tokens(v, prompt@),
                seq![v.assistant_id],
                seq![think_marker(v, think_mode)],
            );
        }
    }

    /// Appends the prefix that asks for the greatest effort.
    pub fn chat_append_max_effort_prefix(&self, tokens: &mut TokenVec)
        ensures
            final(tokens)@ == old(tokens)@ + max_effort_tokens(self@.vocab),
    {
        self.tokenize_max_effort_prefix(tokens);
    }

    /// Appends a message.
    pub fn chat_append_message(&self, tokens: &mut TokenVec, role: &str, content: &str)
        ensures
            final(tokens)@ == old(tokens)@ + message_tokens(self@.vocab, role@, content@),
    {
        let ghost v = self@.vocab;
        if same_text(role, "system") || same_text(role, "developer") {
            self.vocab.bpe_tokenize(content, &mut tokens.v);
        } else if same_text(role, "assistant") {
            tokens.push(self.vocab.assistant_id);
            if !text_starts_with(content, "<think>") && !text_starts_with(content, "</think>") {
                tokens.push(self.vocab.think_end_id);
            }
            self.vocab.bpe_tokenize(content, &mut tokens.v);
        } else {
            tokens.push(self.vocab.user_id);
            if same_text(role, "tool") || same_text(role, "function") {
                self.vocab.bpe_tokenize("Tool: ", &mut tokens.v);
            }
            self.vocab.bpe_tokenize(content, &mut tokens.v);
        }
        assert(tokens@ =~= old(tokens)@ + message_tokens(v, role@, content@));
    }

    /// Appends the opening of an assistant turn.
    pub fn chat_append_assistant_prefix(&self, tokens: &mut TokenVec, think_mode: ThinkMode)
        ensures
            final(tokens)@ == old(tokens)@.push(self@.vocab.assistant_id).push(
                think_marker(self@.vocab, think_mode),
            ),
    {
        tokens.push(self.vocab.assistant_id);
        if think_mode.is_enabled() {
            tokens.push(self.vocab.think_start_id);
        } else {
            tokens.push(self.vocab.think_end_id);
        }
    }

    /// The special texts with their tokens.
    fn special_texts(&self) -> (r: Vec<(Vec<char>, i32)>)
        ensures
            r@.len() == 7,
            forall|k: int|
                0 <= k < 7 ==> (#[trigger] r@[k]).0@ == specials(self@.vocab)[k].0 && r@[k].1
                    == specials(self@.vocab)[k].1,
    {
        let mut r: Vec<(Vec<char>, i32)> = Vec::new();
        r.push((chars_of("<｜begin▁of▁sentence｜>"), self.vocab.bos_id));
        r.push((chars_of("<｜end▁of▁sentence｜>"), self.vocab.eos_id));
        r.push((chars_of("<｜User｜>"), self.vocab.user_id));
        r.push((chars_of("<｜Assistant｜>"), self.vocab.assistant_id));
        r.push((chars_of("<think>"), self.vocab.think_start_id));
        r.push((chars_of("</think>"), self.vocab.think_end_id));
        r.push((chars_of("｜DSML｜"), self.vocab.dsml_id));
        r
    }

    /// Appends the tokens of a rendered conversation.
    pub fn tokenize_rendered_chat(&self, text: &str, out: &mut TokenVec)
        ensures
            final(out)@ == old(out)@ + rendered_tokens(self@.vocab, text@),
    {
        let ghost v = self@.vocab;
        let marks = self.special_texts();
        let chars = chars_of(text);
        let mut start: usize = 0;
        let mut pos: usize = 0;
        while pos < chars.len()
            invariant
                v == self@.vocab,
                marks@.len() == 7,
                forall|k: int|
                    0 <= k < 7 ==> (#[trigger] marks@[k]).0@ == specials(v)[k].0 && marks@[k].1
                        == specials(v)[k].1,
                chars@ == text@,
                start <= pos <= chars@.len(),
                out@ + rendered(v, text@, start as int, pos as int) == old(out)@ + rendered_tokens(
                    v,
                    text@,
                ),
            decreases chars@.len() - pos,
        {
            let mut k: usize = 0;
            while k < 7 && !char_match_at(&chars, &marks[k].0, pos)
                invariant
                    k <= 7,
                    marks@.len() == 7,
                    forall|k: int|
                        0 <= k < 7 ==> (#[trigger] marks@[k]).0@ == specials(v)[k].0 && marks@[k].1
                            == specials(v)[k].1,
                    chars@ == text@,
                    pos <= chars@.len(),
                    special_at(v, text@, pos as int, 0) == special_at(
                        v,
                        text@,
                        pos as int,
                        k as int,
                    ),
                decreases 7 - k,
            {
                k = k + 1;
            }
            if k < 7 {
                proof {
                    lemma_specials_not_empty(v);
                    assert(specials(v)[k as int].0.len() > 0);
                }
                let ghost before = out@;
                if pos > start {
                    let span = string_of(&chars, start, pos);
                    self.vocab.bpe_tokenize(span.as_str(), &mut out.v);
                }
                out.push(marks[k].1);
                let len: usize = marks[k].0.len();
                let ghost rest = rendered(v, text@, pos + len, pos + len);
                assert(before + (span_tokens(v, text@, start as int, pos as int) + seq![
                    specials(v)[k as int].1,
                ] + rest) =~= out@ + rest);
                pos = pos + len;
                start = pos;
            } else {
                pos = pos + 1;
            }
        }
        let ghost before = out@;
        if pos > start {
            let span = string_of(&chars, start, pos);
            self.vocab.bpe_tokenize(span.as_str(), &mut out.v);
        }
        assert(out@ =~= before + span_tokens(v, text@, start as int, pos as int));
    }

    /// The tokens of a rendered conversation.
    pub fn tokenize_rendered(&self, text: &str) -> (r: TokenVec)
        ensures
            r@ == rendered_tokens(self@.vocab, text@),
    {
        let mut out = TokenVec::new();
        self.tokenize_rendered_chat(text, &mut out);
        assert(out@ =~= rendered_tokens(self@.vocab, text@));
        out
    }

    fn tokenize_max_effort_prefix(&self, tokens: &mut TokenVec)
        ensures
            final(tokens)@ == old(tokens)@ + max_effort_tokens(self@.vocab),
    {
        self.vocab.bpe_tokenize(think_max_prefix(), &mut tokens.v);
    }

    /// The token IDs as a list in brackets.
    pub fn dump_tokens(&self, tokens: &TokenVec) -> (r: String)
        ensures
            r@ == "["@ + listed(tokens@, tokens@.len()) + "]"@,
    {
        let mut s = String::from_str("[");
        let mut i: usize = 0;
        while i < tokens.len()
            invariant
                i <= tokens@.len(),
                s@ == "["@ + listed(tokens@, i as nat),
            decreases tokens@.len() - i,
        {
            let ghost before = s@;
            if i > 0 {
                append(&mut s, ", ");
            }
            let id = dec_i64(tokens.v[i] as i64);
            append(&mut s, id.as_str());
            i = i + 1;
            assert(s@ =~= "["@ + listed(tokens@, i as nat));
        }
        append(&mut s, "]");
        s
    }
}

} // verus!

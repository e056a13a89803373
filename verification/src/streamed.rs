//! What streaming keeps of a generated text.
use vstd::prelude::*;
use vstd::utf8::{
    decode_utf8, decode_utf8_encode_utf8, decode_utf8_split, encode_utf8, encode_utf8_decode_utf8,
    encode_utf8_valid_utf8, is_char_boundary, is_char_boundary_start_end_of_seq, valid_utf8,
};

use crate::dsml::{calls_body, raw_calls, raw_calls_from, spelling};
use crate::readback::lemma_find_shift;
use crate::stream::{
    fresh_stream, lemma_encoded_not_empty, lemma_head_boundary, lemma_match_boundary,
    lemma_tool_start, step, step_defined, think_close, think_open, tool_start,
    PieceView, StreamMode, StreamView,
};
use crate::text::{find, find_from, lemma_between_valid, lemma_find_from, matches_at, text_between};

verus! {

/// The text of what is sent.
pub open spec fn piece_text(p: Option<PieceView>) -> Seq<char> {
    match p {
        Some(PieceView::Reasoning(s)) => s,
        Some(PieceView::Content(s)) => s,
        None => Seq::empty(),
    }
}

/// The text in which tool calls are looked for.
pub open spec fn tool_part(t: Option<Seq<char>>) -> Seq<char> {
    match t {
        Some(s) => s,
        None => Seq::empty(),
    }
}

/// The last step on content loses nothing: what is sent and the tool block together are
/// the text that had not been sent before.
pub proof fn content_is_kept(st: StreamView, b: Seq<u8>, tools: bool)
    requires
        valid_utf8(b),
        st.mode == StreamMode::Text,
        0 <= st.emit_pos < b.len(),
        step_defined(st, b, true),
    ensures
        ({
            let s = step(st, b, tools, true);
            piece_text(s.piece) + tool_part(s.tool_text) == text_between(
                b,
                st.emit_pos,
                b.len() as int,
            )
        }),
{
    let pos = st.emit_pos;
    let n = b.len() as int;
    let rest = b.subrange(pos, n);
    let s = step(st, b, tools, true);
    is_char_boundary_start_end_of_seq(b);
    lemma_between_valid(b, pos, n);
    lemma_tool_start(b, pos);
    let start = if tools {
        tool_start(b, pos)
    } else {
        None
    };
    match start {
        Some(k) => {
            lemma_parts(b, pos, k);
            if k == pos {
                assert(b.subrange(k, k) =~= Seq::empty());
                assert(decode_utf8(Seq::<u8>::empty()) =~= Seq::<char>::empty());
            }
        },
        None => {
            assert(piece_text(s.piece) + Seq::<char>::empty() =~= piece_text(s.piece));
        },
    }
}

/// The text from `pos` on falls apart at a character.
proof fn lemma_parts(b: Seq<u8>, pos: int, k: int)
    requires
        valid_utf8(b),
        0 <= pos <= k <= b.len(),
        is_char_boundary(b, pos),
        is_char_boundary(b, k),
    ensures
        text_between(b, pos, b.len() as int) == text_between(b, pos, k) + text_between(
            b,
            k,
            b.len() as int,
        ),
{
    let n = b.len() as int;
    let rest = b.subrange(pos, n);
    is_char_boundary_start_end_of_seq(b);
    lemma_between_valid(b, pos, n);
    lemma_between_valid(b, pos, k);
    assert(rest.subrange(0, k - pos) =~= b.subrange(pos, k));
    lemma_head_boundary(rest, b.subrange(pos, k));
    decode_utf8_split(rest, k - pos);
    assert(rest.subrange(k - pos, n - pos) =~= b.subrange(k, n));
}

proof fn lemma_encode_concat(a: Seq<char>, c: Seq<char>)
    ensures
        encode_utf8(a + c) == encode_utf8(a) + encode_utf8(c),
    decreases a.len(),
{
    if a.len() == 0 {
        assert(a + c =~= c);
        assert(encode_utf8(a) + encode_utf8(c) =~= encode_utf8(c));
    } else {
        assert((a + c).drop_first() =~= a.drop_first() + c);
        lemma_encode_concat(a.drop_first(), c);
        assert(encode_utf8(a + c) =~= encode_utf8(a) + encode_utf8(c));
    }
}

/// Where a text stands in another, its bytes stand in the other's bytes.
proof fn lemma_bytes_match(text: Seq<char>, pat: Seq<char>, c: int)
    requires
        matches_at(text, pat, c),
    ensures
        matches_at(
            encode_utf8(text),
            encode_utf8(pat),
            encode_utf8(text.subrange(0, c)).len() as int,
        ),
{
    let head = text.subrange(0, c);
    let rest = text.subrange(c + pat.len(), text.len() as int);
    assert(text =~= (head + pat) + rest);
    lemma_encode_concat(head + pat, rest);
    lemma_encode_concat(head, pat);
    let b = encode_utf8(text);
    let k = encode_utf8(head).len() as int;
    assert(b.subrange(k, k + encode_utf8(pat).len()) =~= encode_utf8(pat));
}

/// Where the bytes of a text stand first in those of another, the text stands first in
/// the other, behind the text of the bytes before them.
proof fn lemma_found(text: Seq<char>, pat: Seq<char>, k: int)
    requires
        pat.len() > 0,
        find_from(encode_utf8(text), encode_utf8(pat), 0) == Some(k),
    ensures
        0 <= k < encode_utf8(text).len(),
        is_char_boundary(encode_utf8(text), k),
        text == text_between(encode_utf8(text), 0, k) + text_between(
            encode_utf8(text),
            k,
            encode_utf8(text).len() as int,
        ),
        find(text, pat) == Some(text_between(encode_utf8(text), 0, k).len() as int),
        matches_at(text_between(encode_utf8(text), k, encode_utf8(text).len() as int), pat, 0),
{
    let b = encode_utf8(text);
    let p = encode_utf8(pat);
    let n = b.len() as int;
    encode_utf8_valid_utf8(text);
    lemma_find_from(b, p, 0);
    lemma_match_boundary(b, pat, k);
    lemma_cut(text, k);
    let head = text_between(b, 0, k);
    let tail = text_between(b, k, n);
    let c = head.len() as int;
    assert(b.subrange(k, n).subrange(0, p.len() as int) =~= b.subrange(k, k + p.len()));
    lemma_begins(tail, pat);
    assert(text.subrange(c, c + pat.len()) =~= tail.subrange(0, pat.len() as int));
    assert(matches_at(text, pat, c));
    assert forall|j: int| 0 <= j < c implies !matches_at(text, pat, j) by {
        if matches_at(text, pat, j) {
            lemma_bytes_match(text, pat, j);
            lemma_shorter(text, head, tail, j);
        }
    }
    lemma_find_from(text, pat, 0);
}

/// A text falls apart where a character begins.
proof fn lemma_cut(text: Seq<char>, k: int)
    requires
        0 <= k <= encode_utf8(text).len(),
        is_char_boundary(encode_utf8(text), k),
    ensures
        ({
            let b = encode_utf8(text);
            let head = text_between(b, 0, k);
            let tail = text_between(b, k, b.len() as int);
            &&& text == head + tail
            &&& encode_utf8(head) == b.subrange(0, k)
            &&& encode_utf8(tail) == b.subrange(k, b.len() as int)
        }),
{
    let b = encode_utf8(text);
    let n = b.len() as int;
    encode_utf8_valid_utf8(text);
    encode_utf8_decode_utf8(text);
    is_char_boundary_start_end_of_seq(b);
    lemma_between_valid(b, 0, k);
    lemma_between_valid(b, k, n);
    decode_utf8_split(b, k);
    decode_utf8_encode_utf8(b.subrange(0, k));
    decode_utf8_encode_utf8(b.subrange(k, n));
}

/// A text whose bytes begin with those of another begins with the other.
proof fn lemma_begins(tail: Seq<char>, pat: Seq<char>)
    requires
        matches_at(encode_utf8(tail), encode_utf8(pat), 0),
    ensures
        matches_at(tail, pat, 0),
{
    let p = encode_utf8(pat);
    encode_utf8_valid_utf8(tail);
    encode_utf8_valid_utf8(pat);
    encode_utf8_decode_utf8(pat);
    lemma_head_boundary(encode_utf8(tail), p);
    lemma_cut(tail, p.len() as int);
    let rest = text_between(encode_utf8(tail), p.len() as int, encode_utf8(tail).len() as int);
    assert(tail == pat + rest);
    assert(tail.subrange(0, pat.len() as int) =~= pat);
}

/// A shorter beginning of a text has fewer bytes.
proof fn lemma_shorter(text: Seq<char>, head: Seq<char>, tail: Seq<char>, j: int)
    requires
        text == head + tail,
        0 <= j < head.len(),
    ensures
        encode_utf8(text.subrange(0, j)).len() < encode_utf8(head).len(),
{
    let before = text.subrange(0, j);
    let between = head.subrange(j, head.len() as int);
    assert(head =~= before + between);
    lemma_encode_concat(before, between);
    lemma_encoded_not_empty(between);
}

proof fn lemma_not_found(text: Seq<char>, pat: Seq<char>)
    requires
        find_from(encode_utf8(text), encode_utf8(pat), 0) is None,
    ensures
        find(text, pat) is None,
{
    lemma_find_from(encode_utf8(text), encode_utf8(pat), 0);
    lemma_find_from(text, pat, 0);
    match find(text, pat) {
        Some(c) => {
            lemma_bytes_match(text, pat, c);
        },
        None => {},
    }
}

/// What does not stand in a text does not stand in its end.
proof fn lemma_not_in_end(head: Seq<char>, tail: Seq<char>, pat: Seq<char>)
    requires
        find(head + tail, pat) is None,
    ensures
        find(tail, pat) is None,
{
    lemma_find_from(head + tail, pat, 0);
    lemma_find_shift(head, tail, pat, 0);
    lemma_find_from(head + tail, pat, head.len() as int);
}

/// The spelling of the tool block in a text: the first that occurs.
pub open spec fn spelling_in(text: Seq<char>) -> int {
    if find(text, spelling(0).calls_start) is Some {
        0
    } else if find(text, spelling(1).calls_start) is Some {
        1
    } else {
        2
    }
}

/// The tool calls of a text without reasoning are streamed: what stands before the tool
/// block is sent as content, and the calls that are looked for behind it are the calls in
/// the whole text, where the block is complete.
pub proof fn streamed_calls_are_those_of_the_text(text: Seq<char>)
    requires
        calls_body(text, spelling(spelling_in(text))) is Some,
    ensures
        ({
            let s = step(fresh_stream(false), encode_utf8(text), true, true);
            let c = find(text, spelling(spelling_in(text)).calls_start)->0;
            &&& piece_text(s.piece) == text.subrange(0, c)
            &&& s.tool_text == Some(text.subrange(c, text.len() as int))
            &&& raw_calls(text.subrange(c, text.len() as int)) == raw_calls(text)
        }),
{
    let b = encode_utf8(text);
    let n = b.len() as int;
    let i = spelling_in(text);
    let t = spelling(i);
    lemma_starts();
    lemma_start_found(text);
    let k = tool_start(b, 0)->0;
    lemma_found(text, t.calls_start, k);
    let head = text_between(b, 0, k);
    let tail = text_between(b, k, n);
    let c = head.len() as int;
    assert(text.subrange(0, c) =~= head);
    assert(text.subrange(c, text.len() as int) =~= tail);
    if k == 0 {
        assert(b.subrange(0, 0) =~= Seq::empty());
        assert(decode_utf8(Seq::<u8>::empty()) =~= Seq::<char>::empty());
    }
    lemma_find_from(tail, t.calls_start, 0);
    lemma_find_shift(head, tail, t.calls_end, t.calls_start.len() as int);
    let e = find_from(tail, t.calls_end, t.calls_start.len() as int)->0;
    lemma_find_from(tail, t.calls_end, t.calls_start.len() as int);
    assert(text.subrange(c + t.calls_start.len(), c + e) =~= tail.subrange(
        t.calls_start.len() as int,
        e,
    ));
    assert(calls_body(tail, t) == calls_body(text, t));
    if i > 0 {
        lemma_not_in_end(head, tail, spelling(0).calls_start);
    }
    if i > 1 {
        lemma_not_in_end(head, tail, spelling(1).calls_start);
    }
    reveal_with_fuel(raw_calls_from, 4);
}

proof fn lemma_starts()
    ensures
        spelling(0).calls_start.len() > 0,
        spelling(1).calls_start.len() > 0,
        spelling(2).calls_start.len() > 0,
{
    reveal_strlit("｜DSML｜tool_calls>");
    reveal_strlit("<|DSML|tool_calls>");
    reveal_strlit("<tool_calls>");
}

/// The marker that is found in the bytes is that of the spelling of the text.
proof fn lemma_start_found(text: Seq<char>)
    requires
        find(text, spelling(spelling_in(text)).calls_start) is Some,
    ensures
        tool_start(encode_utf8(text), 0) is Some,
        find_from(encode_utf8(text), encode_utf8(spelling(spelling_in(text)).calls_start), 0)
            == tool_start(encode_utf8(text), 0),
{
    let b = encode_utf8(text);
    lemma_starts();
    lemma_same_presence(text, spelling(0).calls_start);
    lemma_same_presence(text, spelling(1).calls_start);
    lemma_same_presence(text, spelling(2).calls_start);
}

proof fn lemma_same_presence(text: Seq<char>, pat: Seq<char>)
    requires
        pat.len() > 0,
    ensures
        (find_from(encode_utf8(text), encode_utf8(pat), 0) is Some) == (find(text, pat) is Some),
{
    match find_from(encode_utf8(text), encode_utf8(pat), 0) {
        Some(k) => {
            lemma_found(text, pat, k);
        },
        None => {
            lemma_not_found(text, pat);
        },
    }
}

/// A text of reasoning in tags and content.
pub open spec fn tagged(reasoning: Seq<char>, content: Seq<char>) -> Seq<char> {
    "<think>"@ + reasoning + "</think>"@ + content
}

/// Reasoning in tags is sent as such, and streaming goes on with the content behind it,
/// provided that the reasoning holds no closing tag.
pub proof fn content_follows_reasoning(
    reasoning: Seq<char>,
    content: Seq<char>,
    tools: bool,
    last: bool,
)
    requires
        find(reasoning, "</think>"@) is None,
    ensures
        ({
            let b = encode_utf8(tagged(reasoning, content));
            let s = step(fresh_stream(true), b, tools, last);
            &&& piece_text(s.piece) == reasoning
            &&& s.tool_text is None
            &&& s.state.mode == StreamMode::Text
            &&& text_between(b, s.state.emit_pos, b.len() as int) == content
        }),
{
    let open = "<think>"@;
    let close = "</think>"@;
    let text = tagged(reasoning, content);
    let b = encode_utf8(text);
    let n = b.len() as int;
    let front = open + reasoning;
    lemma_close_found(reasoning, content);
    reveal_strlit("<think>");
    reveal_strlit("</think>");
    lemma_same_presence(text, close);
    let k = find_from(b, encode_utf8(close), 0)->0;
    lemma_found(text, close, k);
    encode_utf8_valid_utf8(text);
    lemma_cut(text, k);
    assert(text.subrange(0, front.len() as int) =~= front);
    assert(text_between(b, 0, k) =~= text.subrange(0, front.len() as int));
    let o = encode_utf8(open).len() as int;
    lemma_encode_concat(open, reasoning);
    assert(b.subrange(0, k) == encode_utf8(front));
    lemma_encoded_not_empty(open);
    assert(b.subrange(0, o) =~= encode_utf8(front).subrange(0, o));
    assert(encode_utf8(front).subrange(0, o) =~= encode_utf8(open));
    assert(matches_at(b, think_open(), 0));
    lemma_find_from(b, encode_utf8(close), 0);
    lemma_find_from(b, encode_utf8(close), o);
    assert(find_from(b, think_close(), o) == Some(k));
    encode_utf8_decode_utf8(reasoning);
    assert(b.subrange(o, k) =~= encode_utf8(front).subrange(o, k));
    assert(encode_utf8(front).subrange(o, k) =~= encode_utf8(reasoning));
    if k == o {
        assert(encode_utf8(reasoning) =~= Seq::<u8>::empty());
        assert(decode_utf8(Seq::<u8>::empty()) =~= Seq::<char>::empty());
    }
    assert(text =~= (front + close) + content);
    lemma_encode_concat(front + close, content);
    lemma_encode_concat(front, close);
    encode_utf8_decode_utf8(content);
    let p = k + think_close().len();
    assert(b.subrange(p, n) =~= encode_utf8(content));
    lemma_encoded_not_empty(close);
}

proof fn lemma_close_found(reasoning: Seq<char>, content: Seq<char>)
    requires
        find(reasoning, "</think>"@) is None,
    ensures
        find(tagged(reasoning, content), "</think>"@) == Some(
            ("<think>"@ + reasoning).len() as int,
        ),
{
    let open = "<think>"@;
    let close = "</think>"@;
    let text = tagged(reasoning, content);
    reveal_strlit("<think>");
    reveal_strlit("</think>");
    let inner = open.len() as int;
    let e = inner + reasoning.len();
    assert(text.subrange(e, e + close.len()) =~= close);
    assert(matches_at(text, close, e));
    lemma_find_from(reasoning, close, 0);
    assert forall|j: int| 0 <= j < e implies !matches_at(text, close, j) by {
        if matches_at(text, close, j) {
            let part = text.subrange(j, j + close.len());
            assert(part[0] == text[j] && part[1] == text[j + 1]);
            if j < inner {
                assert(text[j] == open[j]);
                assert(j == 0 ==> text[1] == open[1]);
            } else if j + close.len() <= e {
                assert(reasoning.subrange(j - inner, j - inner + close.len()) =~= part);
                assert(matches_at(reasoning, close, j - inner));
            } else {
                assert(part[e - j] == text[e]);
                assert(text[e] == close[0]);
            }
        }
    }
    lemma_find_from(text, close, 0);
}

} // verus!

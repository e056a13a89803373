//! Where the tokenizer splits a text.
use vstd::prelude::*;
use vstd::utf8::{encode_scalar, encode_utf8};

use crate::encoding::{byte_char, char_len, decoded, utf8_of};
use crate::tokenizer::{
    cjk_at, cjk_end, last_newline_end, letters_end, piece_end, run_end, space_end, ByteClass,
};

verus! {

/// An ASCII digit.
pub open spec fn digit(c: u8) -> bool {
    48 <= c <= 57
}

/// An ASCII letter.
pub open spec fn alpha(c: u8) -> bool {
    65 <= c <= 90 || 97 <= c <= 122
}

/// An ASCII letter, or a byte beyond ASCII.
pub open spec fn wordlike(c: u8) -> bool {
    alpha(c) || c >= 128
}

/// An ASCII symbol: printable, but no letter, digit or space.
pub open spec fn symbol(c: u8) -> bool {
    33 <= c <= 126 && !alpha(c) && !digit(c)
}

/// A line feed or a carriage return.
pub open spec fn line_end(c: u8) -> bool {
    c == 10 || c == 13
}

/// White space within ASCII.
pub open spec fn blank(c: u8) -> bool {
    c == 32 || 9 <= c <= 13
}

/// Whether `b[from..to]` is the longest run from `from` on of bytes for which `f` holds.
pub open spec fn longest_run(b: Seq<u8>, from: int, to: int, f: spec_fn(u8) -> bool) -> bool {
    &&& from <= to <= b.len()
    &&& forall|j: int| from <= j < to ==> f(#[trigger] b[j])
    &&& to < b.len() ==> !f(b[to])
}

proof fn lemma_run(b: Seq<u8>, pos: int, class: ByteClass)
    requires
        0 <= pos <= b.len(),
    ensures
        pos <= run_end(b, pos, class) <= b.len(),
        forall|j: int| pos <= j < run_end(b, pos, class) ==> class.has(#[trigger] b[j]),
        run_end(b, pos, class) < b.len() ==> !class.has(b[run_end(b, pos, class)]),
    decreases b.len() - pos,
{
    if pos < b.len() && class.has(b[pos]) {
        lemma_run(b, pos + 1, class);
    }
}

/// Whether every byte is ASCII.
pub open spec fn ascii(b: Seq<u8>) -> bool {
    forall|j: int| 0 <= j < b.len() ==> #[trigger] b[j] < 128
}

proof fn lemma_letters(b: Seq<u8>, pos: int)
    requires
        0 <= pos <= b.len(),
    ensures
        pos <= letters_end(b, pos) <= b.len(),
        letters_end(b, pos) < b.len() ==> !wordlike(b[letters_end(b, pos)]),
        pos < b.len() && wordlike(b[pos]) ==> letters_end(b, pos) >= pos + char_len(b, pos),
        ascii(b) ==> forall|j: int| pos <= j < letters_end(b, pos) ==> alpha(#[trigger] b[j]),
    decreases b.len() - pos,
{
    if pos < b.len() && wordlike(b[pos]) {
        lemma_letters(b, pos + char_len(b, pos));
    }
}

/// Digits are taken in groups of at most three.
pub proof fn digits_go_in_threes(b: Seq<u8>, pos: int)
    requires
        0 <= pos < b.len(),
        digit(b[pos]),
    ensures
        ({
            let e = piece_end(b, pos);
            &&& pos < e <= pos + 3 && e <= b.len()
            &&& forall|j: int| pos <= j < e ==> digit(#[trigger] b[j])
            &&& e < pos + 3 && e < b.len() ==> !digit(b[e])
        }),
{
    lemma_run(b, pos, ByteClass::Digit);
}

/// A symbol before a letter opens a word of ASCII letters.
pub proof fn symbol_joins_word(b: Seq<u8>, pos: int)
    requires
        0 <= pos < b.len() - 1,
        symbol(b[pos]),
        alpha(b[pos + 1]),
    ensures
        longest_run(b, pos + 1, piece_end(b, pos), |c: u8| alpha(c)),
        piece_end(b, pos) > pos + 1,
{
    lemma_run(b, pos + 1, ByteClass::Alphabetic);
}

/// A word goes on to the next byte that belongs to no letter; in ASCII it is the longest
/// run of letters.
pub proof fn words_are_whole(b: Seq<u8>, pos: int)
    requires
        0 <= pos < b.len(),
        wordlike(b[pos]),
        !cjk_at(b, pos),
    ensures
        ({
            let e = piece_end(b, pos);
            &&& pos < e <= b.len()
            &&& e < b.len() ==> !wordlike(b[e])
            &&& ascii(b) ==> longest_run(b, pos, e, |c: u8| alpha(c))
        }),
{
    lemma_letters(b, pos);
}

/// A word takes one blank, or another byte of no kind, that stands before it.
pub proof fn blank_joins_word(b: Seq<u8>, pos: int)
    requires
        0 <= pos < b.len() - 1,
        !digit(b[pos]) && !wordlike(b[pos]) && !symbol(b[pos]) && !line_end(b[pos]),
        wordlike(b[pos + 1]),
    ensures
        ({
            let e = piece_end(b, pos);
            &&& pos + 1 < e <= b.len()
            &&& e < b.len() ==> !wordlike(b[e])
            &&& ascii(b) ==> longest_run(b, pos + 1, e, |c: u8| alpha(c))
        }),
{
    lemma_letters(b, pos + 1);
}

/// Whether `b[from..m]` is the longest run of symbols and `b[m..to]` that of line ends.
pub open spec fn symbols_then_lines(b: Seq<u8>, from: int, m: int, to: int) -> bool {
    longest_run(b, from, m, |c: u8| symbol(c)) && longest_run(b, m, to, |c: u8| line_end(c))
}

/// Where the symbols of a piece start: behind a space.
pub open spec fn symbols_from(b: Seq<u8>, pos: int) -> int {
    if b[pos] == 32 {
        pos + 1
    } else {
        pos
    }
}

/// Symbols go together, with one space that stands before them and the line ends that
/// stand behind them.
pub proof fn symbols_go_together(b: Seq<u8>, pos: int)
    requires
        0 <= pos < b.len(),
        (symbol(b[pos]) && !(pos + 1 < b.len() && alpha(b[pos + 1]))) || (b[pos] == 32 && pos + 1
            < b.len() && symbol(b[pos + 1])),
    ensures
        exists|m: int|
            pos < m && #[trigger] symbols_then_lines(
                b,
                symbols_from(b, pos),
                m,
                piece_end(b, pos),
            ),
{
    let from = symbols_from(b, pos);
    assert(ByteClass::Punctuation.has(b[from]));
    lemma_run(b, from, ByteClass::Punctuation);
    let m = run_end(b, from, ByteClass::Punctuation);
    lemma_run(b, m, ByteClass::Newline);
    assert(m > from);
    let e = run_end(b, m, ByteClass::Newline);
    assert(piece_end(b, pos) == e);
    assert(longest_run(b, from, m, |c: u8| symbol(c)));
    assert(longest_run(b, m, e, |c: u8| line_end(c)));
    assert(symbols_then_lines(b, from, m, piece_end(b, pos)));
}

proof fn lemma_newline(b: Seq<u8>, pos: int, end: int)
    requires
        0 <= pos <= end <= b.len(),
    ensures
        ({
            let n = last_newline_end(b, pos, end);
            if n == 0 {
                forall|j: int| pos <= j < end ==> !line_end(#[trigger] b[j])
            } else {
                pos < n <= end && line_end(b[n - 1]) && forall|j: int|
                    n <= j < end ==> !line_end(#[trigger] b[j])
            }
        }),
    decreases end - pos,
{
    if end > pos && !line_end(b[end - 1]) {
        lemma_newline(b, pos, end - 1);
    }
}

/// White space before no word or symbol ends behind its last line end; without one it
/// leaves its last blank to a word or symbol that follows.
pub proof fn white_space_ends_with_lines(b: Seq<u8>, pos: int, p: int)
    requires
        0 <= pos < b.len(),
        blank(b[pos]),
        longest_run(b, pos, p, |c: u8| blank(c)),
        line_end(b[pos]) || !(pos + 1 < b.len() && wordlike(b[pos + 1])),
        b[pos] != 32 || !(pos + 1 < b.len() && symbol(b[pos + 1])),
    ensures
        ({
            let e = piece_end(b, pos);
            if exists|j: int| pos <= j < p && line_end(#[trigger] b[j]) {
                pos < e <= p && line_end(b[e - 1]) && forall|j: int|
                    e <= j < p ==> !line_end(#[trigger] b[j])
            } else if p < b.len() && p > pos + 1 && (wordlike(b[p]) || symbol(b[p])) {
                e == p - 1
            } else {
                e == p
            }
        }),
{
    let q = run_end(b, pos, ByteClass::Space);
    lemma_run(b, pos, ByteClass::Space);
    if q < p {
        assert(blank(b[q]));
    } else if p < q {
        assert(ByteClass::Space.has(b[p]));
    }
    assert(p == q);
    lemma_newline(b, pos, p);
    assert(piece_end(b, pos) == space_end(b, pos));
    let n = last_newline_end(b, pos, p);
    if n > 0 {
        assert(line_end(b[n - 1]));
    }
}

proof fn lemma_cjk(b: Seq<u8>, pos: int)
    requires
        0 <= pos <= b.len(),
    ensures
        pos <= cjk_end(b, pos) <= b.len(),
        cjk_end(b, pos) < b.len() ==> !east_asian(b, cjk_end(b, pos)),
    decreases b.len() - pos,
{
    if pos < b.len() && cjk_at(b, pos) {
        lemma_cjk(b, pos + char_len(b, pos));
    }
}

/// Whether a Chinese character or a letter of hiragana or katakana starts at `pos`.
pub open spec fn east_asian(b: Seq<u8>, pos: int) -> bool {
    let cp = decoded(b, pos);
    b[pos] >= 128 && (0x3040 <= cp <= 0x30ff || 0x4e00 <= cp <= 0x9fa5)
}

/// East Asian characters go together, and apart from other letters.
pub proof fn east_asian_goes_together(b: Seq<u8>, pos: int)
    requires
        0 <= pos < b.len(),
    ensures
        cjk_at(b, pos) == east_asian(b, pos),
        east_asian(b, pos) ==> {
            let e = piece_end(b, pos);
            let next = pos + char_len(b, pos);
            &&& next <= e <= b.len()
            &&& e < b.len() ==> !east_asian(b, e)
            &&& next < b.len() && east_asian(b, next) ==> piece_end(b, next) == e
            &&& next < b.len() && !east_asian(b, next) ==> e == next
        },
{
    if cjk_at(b, pos) {
        lemma_cjk(b, pos + char_len(b, pos));
    }
}

/// Bytes stand as characters: the printable ones of Latin-1 as themselves, the others in
/// their order from code point 256 on.
pub proof fn bytes_stand_as_characters(b: u8)
    ensures
        (33 <= b <= 126 || 161 <= b <= 172 || 174 <= b) ==> byte_char(b) as u32 == b,
        b <= 32 ==> byte_char(b) as u32 == 256 + b,
        127 <= b <= 160 ==> byte_char(b) as u32 == 162 + b,
        b == 173 ==> byte_char(b) as u32 == 323,
{
}

/// The bytes of a code point are its UTF-8, for every character.
pub proof fn code_points_are_written_in_utf8(c: char)
    ensures
        utf8_of(c as u32) == encode_utf8(seq![c]),
{
    let cp = c as u32;
    assert(cp <= 0x7f ==> (cp & 0x7f) as u8 == cp as u8) by (bit_vector);
    assert(0x80 <= cp <= 0x7ff ==> (0xc0u8 | ((cp >> 6) & 0x1f) as u8) == (0xc0 + cp / 64) as u8
        && (0x80u8 | (cp & 0x3f) as u8) == (0x80 + cp % 64) as u8) by (bit_vector);
    assert(0x800 <= cp <= 0xffff ==> (0xe0u8 | ((cp >> 12) & 0x0f) as u8) == (0xe0 + cp
        / 4096) as u8 && (0x80u8 | ((cp >> 6) & 0x3f) as u8) == (0x80 + cp / 64 % 64) as u8 && (
    0x80u8 | (cp & 0x3f) as u8) == (0x80 + cp % 64) as u8) by (bit_vector);
    assert(0x1_0000 <= cp <= 0x10_ffff ==> (0xf0u8 | ((cp >> 18) & 0x7) as u8) == (0xf0u8 | (cp
        / 262144) as u8) && (0x80u8 | ((cp >> 12) & 0x3f) as u8) == (0x80 + cp / 4096 % 64) as u8
        && (0x80u8 | ((cp >> 6) & 0x3f) as u8) == (0x80 + cp / 64 % 64) as u8 && (0x80u8 | (cp
        & 0x3f) as u8) == (0x80 + cp % 64) as u8) by (bit_vector);
    assert(seq![c].drop_first() =~= Seq::empty());
    assert(encode_utf8(Seq::<char>::empty()) =~= Seq::<u8>::empty());
    reveal_with_fuel(encode_utf8, 2);
    assert(utf8_of(cp) =~= encode_scalar(cp));
    assert(encode_utf8(seq![c]) =~= encode_scalar(cp));
}

/// The kinds of bytes are those of ASCII: none of them has a byte beyond it, no byte is of
/// two kinds but for the line ends, which are white space, and every other byte from the
/// blank to the tilde is a letter, a digit or a symbol.
pub proof fn bytes_have_their_kinds(c: u8)
    ensures
        ByteClass::Digit.has(c) <==> digit(c),
        ByteClass::Alphabetic.has(c) <==> alpha(c),
        ByteClass::Punctuation.has(c) <==> symbol(c),
        ByteClass::Newline.has(c) <==> line_end(c),
        ByteClass::Space.has(c) <==> blank(c),
{
}

} // verus!

//! What searches, trimming and numbers in texts are held to.
use vstd::prelude::*;

use crate::number::{at_most, digits_value, integer, natural};
use crate::text::{
    ascii_lower, dec, dec_int, find_from, hex, lemma_find_from, matches_at, trim_end, trim_start,
    trimmed, white,
};

verus! {

/// A search finds the first occurrence from its start on, and fails just where there is
/// none.
pub proof fn search_finds_first(hay: Seq<char>, pat: Seq<char>, start: int, k: int)
    requires
        0 <= start,
    ensures
        ({
            let found = find_from(hay, pat, start);
            let stands = start <= k && k + pat.len() <= hay.len() && forall|j: int|
                0 <= j < pat.len() ==> hay[k + j] == #[trigger] pat[j];
            &&& found == Some(k) ==> stands
            &&& stands ==> found is Some && found->0 <= k
        }),
{
    lemma_find_from(hay, pat, start);
    if start <= k && k + pat.len() <= hay.len() {
        let part = hay.subrange(k, k + pat.len());
        if forall|j: int| 0 <= j < pat.len() ==> hay[k + j] == #[trigger] pat[j] {
            assert(part =~= pat);
            assert(matches_at(hay, pat, k));
        }
        if part == pat {
            assert forall|j: int| 0 <= j < pat.len() implies hay[k + j] == #[trigger] pat[j] by {
                assert(part[j] == hay[k + j]);
            }
        }
    }
}

/// White space is what Unicode says; of the ASCII characters these six.
pub proof fn white_space_in_ascii(c: char)
    requires
        (c as u32) < 128,
    ensures
        white(c) <==> c == ' ' || c == '\t' || c == '\n' || c == '\r' || c == '\u{b}' || c
            == '\u{c}',
{
}

/// Trimming takes white space from both ends and nothing else: what is taken is white
/// space, and what is left neither begins nor ends with it.
pub proof fn trimming_takes_white_space(s: Seq<char>)
    ensures
        ({
            let t = trimmed(s);
            let a = trim_start(s, 0);
            &&& 0 <= a && a + t.len() <= s.len()
            &&& s.subrange(a, a + t.len()) == t
            &&& forall|i: int| 0 <= i < a ==> white(#[trigger] s[i])
            &&& forall|i: int| a + t.len() <= i < s.len() ==> white(#[trigger] s[i])
            &&& t.len() > 0 ==> !white(t[0]) && !white(t.last())
        }),
{
    lemma_trim_start(s, 0);
    let a = trim_start(s, 0);
    lemma_trim_end(s, a, s.len() as int);
    let b = trim_end(s, a, s.len() as int);
    assert(s.subrange(a, b) =~= trimmed(s));
}

proof fn lemma_trim_start(s: Seq<char>, i: int)
    requires
        0 <= i <= s.len(),
    ensures
        i <= trim_start(s, i) <= s.len(),
        forall|j: int| i <= j < trim_start(s, i) ==> white(#[trigger] s[j]),
        trim_start(s, i) < s.len() ==> !white(s[trim_start(s, i)]),
    decreases s.len() - i,
{
    if i < s.len() && white(s[i]) {
        lemma_trim_start(s, i + 1);
    }
}

proof fn lemma_trim_end(s: Seq<char>, start: int, end: int)
    requires
        0 <= start <= end <= s.len(),
    ensures
        start <= trim_end(s, start, end) <= end,
        forall|j: int| trim_end(s, start, end) <= j < end ==> white(#[trigger] s[j]),
        trim_end(s, start, end) > start ==> !white(s[trim_end(s, start, end) - 1]),
    decreases end - start,
{
    if start < end && white(s[end - 1]) {
        lemma_trim_end(s, start, end - 1);
    }
}

/// A number that is written in decimal is read back.
pub proof fn decimal_is_read_back(n: nat)
    ensures
        natural(dec(n), 10) == Some(n as int),
        integer(dec(n)) == Some(n as int),
{
    lemma_dec(n);
}

/// An integer that is written in decimal is read back, below zero too.
pub proof fn signed_decimal_is_read_back(n: int)
    ensures
        integer(dec_int(n)) == Some(n),
{
    if n < 0 {
        let m = (-n) as nat;
        lemma_dec(m);
        let s = dec_int(n);
        assert(s.subrange(1, s.len() as int) =~= dec(m));
    } else {
        lemma_dec(n as nat);
    }
}

/// A number that is written in hexadecimal is read back.
pub proof fn hexadecimal_is_read_back(n: nat)
    ensures
        natural(hex(n), 16) == Some(n as int),
{
    lemma_hex(n);
}

/// A limit lets a number pass or drops it.
pub proof fn limits_drop_larger_numbers(n: int, max: int)
    ensures
        n <= max ==> at_most(Some(n), max) == Some(n),
        n > max ==> at_most(Some(n), max) is None,
        at_most(None, max) is None,
{
}

proof fn lemma_pushed(s: Seq<char>, c: char, radix: int, n: nat)
    requires
        n <= s.len(),
    ensures
        digits_value(s.push(c), radix, n) == digits_value(s, radix, n),
    decreases n,
{
    if n > 0 {
        lemma_pushed(s, c, radix, (n - 1) as nat);
        assert(s.push(c)[n - 1] == s[n - 1]);
    }
}

proof fn lemma_dec(n: nat)
    ensures
        dec(n).len() > 0,
        '0' <= dec(n)[0] && dec(n)[0] <= '9',
        digits_value(dec(n), 10, dec(n).len()) == Some(n as int),
    decreases n,
{
    let s = dec(n);
    if n < 10 {
        reveal_with_fuel(digits_value, 2);
    } else {
        let head = dec(n / 10);
        let c = s.last();
        lemma_dec(n / 10);
        lemma_pushed(head, c, 10, head.len());
        assert(s == head.push(c));
        assert(s[0] == head[0]);
        assert(s[s.len() - 1] == c);
        assert(digits_value(s, 10, (s.len() - 1) as nat) == Some((n / 10) as int));
    }
}

proof fn lemma_hex(n: nat)
    ensures
        hex(n).len() > 0,
        hex(n)[0] != '+',
        digits_value(hex(n), 16, hex(n).len()) == Some(n as int),
    decreases n,
{
    let s = hex(n);
    if n < 16 {
        reveal_with_fuel(digits_value, 2);
    } else {
        let head = hex(n / 16);
        let c = s.last();
        lemma_hex(n / 16);
        lemma_pushed(head, c, 16, head.len());
        assert(s == head.push(c));
        assert(s[0] == head[0]);
        assert(s[s.len() - 1] == c);
        assert(digits_value(s, 16, (s.len() - 1) as nat) == Some((n / 16) as int));
    }
}

/// The capital letters of ASCII have their small ones, and every other character stays.
pub proof fn capitals_have_small_letters(c: char)
    ensures
        'A' <= c && c <= 'Z' ==> ascii_lower(c) as u32 == c as u32 + 32,
        !('A' <= c && c <= 'Z') ==> ascii_lower(c) == c,
{
}

/// Beyond ASCII white space is the next-line character, the no-break space, the Ogham space
/// mark, the spaces from U+2000 to U+200A, the separators of lines and paragraphs, the narrow
/// no-break space, the mathematical space and the ideographic space.
pub proof fn white_space_beyond_ascii(c: char)
    requires
        c as u32 >= 128,
    ensures
        white(c) <==> c == '\u{85}' || c == '\u{a0}' || c == '\u{1680}' || '\u{2000}' <= c
            <= '\u{200a}' || c == '\u{2028}' || c == '\u{2029}' || c == '\u{202f}' || c
            == '\u{205f}' || c == '\u{3000}',
{
}

} // verus!

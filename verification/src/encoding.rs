//! Bytes as printable characters, and UTF-8.
//!
//! Byte-level BPE works on text in which every byte stands as one printable character,
//! so that merges can be written down as strings. This module has that mapping and
//! the UTF-8 helpers of the tokenizer.
use vstd::prelude::*;
use vstd::utf8::{decode_utf8, encode_scalar, encode_utf8, valid_utf8};

verus! {

/// `char::from_u32` gives the character with the given number, where there is one.
pub assume_specification[ char::from_u32 ](v: u32) -> (r: Option<char>)
    ensures
        r is Some <==> vstd::utf8::is_scalar(v),
        r matches Some(c) ==> c as u32 == v,
;

/// What `String::from_utf8_lossy` gives for some bytes: the text that they encode, with
/// what is not UTF-8 replaced.
pub uninterp spec fn lossy_utf8(bytes: Seq<u8>) -> Seq<char>;

/// `String::from_utf8_lossy`: its result has the name `lossy_utf8`, and for valid UTF-8
/// it is the text that the bytes encode.
#[verifier::external_body]
pub(crate) fn from_utf8_lossy(bytes: &[u8]) -> (r: String)
    ensures
        r@ == lossy_utf8(bytes@),
        valid_utf8(bytes@) ==> r@ == decode_utf8(bytes@),
{
    String::from_utf8_lossy(bytes).into_owned()
}

// ── Bytes as characters ──────────────────────────────────────────────────

/// Whether byte `b` stands for itself.
pub open spec fn printable(b: u8) -> bool {
    33 <= b <= 126 || 161 <= b <= 172 || 174 <= b
}

/// The code point of byte `b`: its own number where it is printable, and else 256 and
/// on, in the order of the bytes.
pub open spec fn byte_codepoint(b: u8) -> u32 {
    if printable(b) {
        b as u32
    } else if b <= 32 {
        (256 + b) as u32
    } else if b <= 160 {
        (256 + 33 + (b - 127)) as u32
    } else {
        323
    }
}

/// The byte with the code point `cp`.
pub open spec fn codepoint_byte(cp: u32) -> Option<u8> {
    if cp <= 255 && printable(cp as u8) {
        Some(cp as u8)
    } else if 256 <= cp < 256 + 33 {
        Some((cp - 256) as u8)
    } else if 256 + 33 <= cp < 256 + 33 + 34 {
        Some((cp - 256 - 33 + 127) as u8)
    } else if cp == 256 + 33 + 34 {
        Some(173)
    } else {
        None
    }
}

pub fn gpt2_byte_to_codepoint(b: u8) -> (r: u32)
    ensures
        r == byte_codepoint(b),
{
    if (b >= 33 && b <= 126) || (b >= 161 && b <= 172) || b >= 174 {
        b as u32
    } else if b <= 32 {
        256 + b as u32
    } else if b <= 160 {
        256 + 33 + (b as u32 - 127)
    } else {
        256 + 33 + 34
    }
}

pub fn gpt2_codepoint_to_byte(cp: u32) -> (r: Option<u8>)
    ensures
        r == codepoint_byte(cp),
{
    if (cp >= 33 && cp <= 126) || (cp >= 161 && cp <= 172) || (cp >= 174 && cp <= 255) {
        Some(cp as u8)
    } else if cp >= 256 && cp < 256 + 33 {
        Some((cp - 256) as u8)
    } else if cp >= 256 + 33 && cp < 256 + 33 + 34 {
        Some((cp - 256 - 33 + 127) as u8)
    } else if cp == 256 + 33 + 34 {
        Some(173)
    } else {
        None
    }
}

/// Every byte comes back from its code point, and no two bytes share one.
pub proof fn byte_codepoint_roundtrip(b: u8)
    ensures
        codepoint_byte(byte_codepoint(b)) == Some(b),
        byte_codepoint(b) <= 323,
{
}

/// The character that stands for byte `b`.
pub open spec fn byte_char(b: u8) -> char {
    byte_codepoint(b) as char
}

pub fn char_of_byte(b: u8) -> (r: char)
    ensures
        r == byte_char(b),
{
    let cp: u32 = gpt2_byte_to_codepoint(b);
    match char::from_u32(cp) {
        Some(c) => {
            proof {
                vstd::utf8::char_u32_cast(c, cp);
            }
            c
        },
        None => '?',
    }
}

// ── UTF-8 ────────────────────────────────────────────────────────────────

/// The UTF-8 bytes of the number `cp`; where it is no code point, what the same
/// pattern of bits gives.
pub open spec fn utf8_of(cp: u32) -> Seq<u8> {
    if cp <= 0x7f {
        seq![cp as u8]
    } else if cp <= 0x7ff {
        seq![(0xc0 + cp / 64) as u8, (0x80 + cp % 64) as u8]
    } else if cp <= 0xffff {
        seq![(0xe0 + cp / 4096) as u8, (0x80 + cp / 64 % 64) as u8, (0x80 + cp % 64) as u8]
    } else {
        seq![
            0xf0u8 | (cp / 262144) as u8,
            (0x80 + cp / 4096 % 64) as u8,
            (0x80 + cp / 64 % 64) as u8,
            (0x80 + cp % 64) as u8,
        ]
    }
}

/// Appends the UTF-8 bytes of `cp`.
pub fn encode_utf8_cp(cp: u32, out: &mut Vec<u8>)
    ensures
        final(out)@ == old(out)@ + utf8_of(cp),
{
    let ghost start = out@;
    if cp <= 0x7f {
        out.push(cp as u8);
    } else if cp <= 0x7ff {
        out.push((0xc0 + cp / 64) as u8);
        out.push((0x80 + cp % 64) as u8);
    } else if cp <= 0xffff {
        out.push((0xe0 + cp / 4096) as u8);
        out.push((0x80 + cp / 64 % 64) as u8);
        out.push((0x80 + cp % 64) as u8);
    } else {
        out.push(0xf0u8 | ((cp / 262144) as u8));
        out.push((0x80 + cp / 4096 % 64) as u8);
        out.push((0x80 + cp / 64 % 64) as u8);
        out.push((0x80 + cp % 64) as u8);
    }
    assert(out@ =~= start + utf8_of(cp));
}

/// The number of bytes that a character starting with byte `c` takes.
pub open spec fn utf8_len(c: u8) -> int {
    if 0xc0 <= c <= 0xdf {
        2
    } else if 0xe0 <= c <= 0xef {
        3
    } else if 0xf0 <= c <= 0xf7 {
        4
    } else {
        1
    }
}

pub fn utf8_len_from_first_byte(c: u8) -> (r: usize)
    ensures
        r == utf8_len(c),
{
    if c >= 0xc0 && c <= 0xdf {
        2
    } else if c >= 0xe0 && c <= 0xef {
        3
    } else if c >= 0xf0 && c <= 0xf7 {
        4
    } else {
        1
    }
}

/// The bytes that the character at `pos` takes; one where it is cut off.
pub open spec fn char_len(bytes: Seq<u8>, pos: int) -> int {
    let n = utf8_len(bytes[pos]);
    if pos + n > bytes.len() {
        1
    } else {
        n
    }
}

/// The number that the character at `pos` encodes, from the data bits of its bytes.
pub open spec fn decoded(bytes: Seq<u8>, pos: int) -> u32 {
    let n = char_len(bytes, pos);
    let c = bytes[pos] as int;
    if n == 1 {
        c as u32
    } else if n == 2 {
        (c % 32 * 64 + bytes[pos + 1] % 64) as u32
    } else if n == 3 {
        (c % 16 * 4096 + bytes[pos + 1] % 64 * 64 + bytes[pos + 2] % 64) as u32
    } else {
        (c % 8 * 262144 + bytes[pos + 1] % 64 * 4096 + bytes[pos + 2] % 64 * 64 + bytes[pos + 3]
            % 64) as u32
    }
}

/// The number of the character at `pos`, and the position behind it.
pub fn utf8_decode_one(bytes: &[u8], pos: usize) -> (r: (u32, usize))
    requires
        pos < bytes@.len(),
    ensures
        r.0 == decoded(bytes@, pos as int),
        r.1 == pos + char_len(bytes@, pos as int),
        pos < r.1 <= bytes@.len(),
{
    let len: usize = bytes.len();
    let c: u32 = bytes[pos] as u32;
    let want: usize = utf8_len_from_first_byte(bytes[pos]);
    let n: usize = if len - pos < want {
        1
    } else {
        want
    };
    let cp: u32 = if n == 1 {
        c
    } else if n == 2 {
        c % 32 * 64 + bytes[pos + 1] as u32 % 64
    } else if n == 3 {
        c % 16 * 4096 + bytes[pos + 1] as u32 % 64 * 64 + bytes[pos + 2] as u32 % 64
    } else {
        c % 8 * 262144 + bytes[pos + 1] as u32 % 64 * 4096 + bytes[pos + 2] as u32 % 64 * 64
            + bytes[pos + 3] as u32 % 64
    };
    (cp, pos + n)
}

/// The position behind the character at `pos`.
pub fn next_utf8_char(bytes: &[u8], pos: usize) -> (r: usize)
    requires
        pos < bytes@.len(),
    ensures
        r == pos + char_len(bytes@, pos as int),
        pos < r <= bytes@.len(),
{
    let len: usize = bytes.len();
    let n: usize = utf8_len_from_first_byte(bytes[pos]);
    if len - pos < n {
        pos + 1
    } else {
        pos + n
    }
}

/// Decoding what was encoded gives the number back, for every code point.
pub proof fn utf8_roundtrip(cp: u32)
    requires
        cp <= 0x10_ffff,
    ensures
        decoded(utf8_of(cp), 0) == cp,
        char_len(utf8_of(cp), 0) == utf8_of(cp).len(),
{
    let s = utf8_of(cp);
    if cp <= 0x7f {
        assert(s.len() == 1 && s[0] == cp);
    } else if cp <= 0x7ff {
        let a = cp / 64;
        let b = cp % 64;
        assert(s.len() == 2 && s[0] == 0xc0 + a && s[1] == 0x80 + b);
        assert(s[0] as int % 32 == a && s[1] % 64 == b);
        assert(a * 64 + b == cp);
    } else if cp <= 0xffff {
        let a = cp / 4096;
        let b = cp / 64 % 64;
        let c = cp % 64;
        assert(s.len() == 3 && s[0] == 0xe0 + a && s[1] == 0x80 + b && s[2] == 0x80 + c);
        assert(s[0] as int % 16 == a && s[1] % 64 == b && s[2] % 64 == c);
        assert(a * 4096 + b * 64 + c == cp);
    } else {
        let a = cp / 262144;
        let b = cp / 4096 % 64;
        let c = cp / 64 % 64;
        let d = cp % 64;
        let top = a as u8;
        assert(top <= 7 ==> (0xf0u8 | top) == 0xf0 + top) by (bit_vector);
        assert(s.len() == 4 && s[0] == 0xf0 + a && s[1] == 0x80 + b && s[2] == 0x80 + c && s[3]
            == 0x80 + d);
        assert(s[0] as int % 8 == a && s[1] % 64 == b && s[2] % 64 == c && s[3] % 64 == d);
        assert(a * 262144 + b * 4096 + c * 64 + d == cp);
    }
}

// ── Encoding of bytes and strings ────────────────────────────────────────

/// The UTF-8 bytes of the characters that stand for some bytes.
pub open spec fn encoded_bytes(input: Seq<u8>) -> Seq<u8>
    decreases input.len(),
{
    if input.len() == 0 {
        Seq::empty()
    } else {
        encoded_bytes(input.drop_last()) + utf8_of(byte_codepoint(input.last()))
    }
}

/// The characters that stand for some bytes.
pub open spec fn encoded_chars(input: Seq<u8>) -> Seq<char> {
    Seq::new(input.len(), |i: int| byte_char(input[i]))
}

/// The bytes for which the characters in `input` from `pos` on stand; others are left
/// out.
pub open spec fn decoded_bytes(input: Seq<u8>, pos: int) -> Seq<u8>
    decreases input.len() - pos,
{
    if pos < 0 || pos >= input.len() {
        Seq::empty()
    } else {
        let rest = decoded_bytes(input, pos + char_len(input, pos));
        match codepoint_byte(decoded(input, pos)) {
            Some(b) => seq![b] + rest,
            None => rest,
        }
    }
}

/// Maps bytes to the UTF-8 bytes of the characters that stand for them.
pub fn byte_encode_bytes(input: &[u8]) -> (r: Vec<u8>)
    ensures
        r@ == encoded_bytes(input@),
{
    let mut out: Vec<u8> = Vec::new();
    let mut i: usize = 0;
    while i < input.len()
        invariant
            i <= input@.len(),
            out@ == encoded_bytes(input@.take(i as int)),
        decreases input@.len() - i,
    {
        encode_utf8_cp(gpt2_byte_to_codepoint(input[i]), &mut out);
        i = i + 1;
        assert(input@.take(i as int).drop_last() =~= input@.take(i - 1));
    }
    assert(input@.take(i as int) =~= input@);
    out
}

/// Maps a text to the text of the characters that stand for its bytes.
pub fn byte_encode_str(input: &str) -> (r: String)
    ensures
        r@ == encoded_chars(encode_utf8(input@)),
{
    let bytes = input.as_bytes();
    let mut out = String::new();
    let mut i: usize = 0;
    assert(encoded_chars(bytes@.take(0)) =~= Seq::empty());
    while i < bytes.len()
        invariant
            i <= bytes@.len(),
            out@ == encoded_chars(bytes@.take(i as int)),
        decreases bytes@.len() - i,
    {
        out.push(char_of_byte(bytes[i]));
        i = i + 1;
        assert(encoded_chars(bytes@.take(i as int)) =~= encoded_chars(bytes@.take(i - 1)).push(
            byte_char(bytes@[i - 1]),
        ));
    }
    assert(bytes@.take(i as int) =~= bytes@);
    out
}

/// Maps the UTF-8 bytes of characters back to the bytes for which they stand.
pub fn byte_decode_bytes(input: &[u8]) -> (r: Vec<u8>)
    ensures
        r@ == decoded_bytes(input@, 0),
{
    let mut out: Vec<u8> = Vec::new();
    let mut pos: usize = 0;
    while pos < input.len()
        invariant
            pos <= input@.len(),
            decoded_bytes(input@, 0) == out@ + decoded_bytes(input@, pos as int),
        decreases input@.len() - pos,
    {
        let ghost before = out@;
        let ghost rest = decoded_bytes(input@, pos + char_len(input@, pos as int));
        let (cp, next) = utf8_decode_one(input, pos);
        match gpt2_codepoint_to_byte(cp) {
            Some(b) => {
                out.push(b);
                assert(before + (seq![b] + rest) =~= out@ + rest);
            },
            None => {},
        }
        pos = next;
    }
    assert(decoded_bytes(input@, pos as int) =~= Seq::empty());
    assert(out@ + Seq::<u8>::empty() =~= out@);
    out
}

/// Maps a text of such characters back to the text of the bytes for which they stand;
/// what is then not UTF-8 is replaced.
pub fn byte_decode_str(input: &str) -> (r: String)
    ensures
        r@ == lossy_utf8(decoded_bytes(encode_utf8(input@), 0)),
        valid_utf8(decoded_bytes(encode_utf8(input@), 0)) ==> r@ == decode_utf8(
            decoded_bytes(encode_utf8(input@), 0),
        ),
{
    let bytes = byte_decode_bytes(input.as_bytes());
    from_utf8_lossy(bytes.as_slice())
}

// ── Laws ─────────────────────────────────────────────────────────────────

proof fn lemma_encoded_first(b: u8)
    ensures
        utf8_of(byte_codepoint(b)) == encode_scalar(byte_char(b) as u32),
        1 <= utf8_of(byte_codepoint(b)).len() <= 2,
{
    let cp = byte_codepoint(b);
    assert(byte_char(b) as u32 == cp);
    assert(cp <= 0x7f ==> (cp & 0x7f) as u8 == cp as u8) by (bit_vector);
    assert(0x80 <= cp <= 0x7ff ==> (0xc0u8 | ((cp >> 6) & 0x1f) as u8) == (0xc0 + cp / 64) as u8
        && (0x80u8 | (cp & 0x3f) as u8) == (0x80 + cp % 64) as u8) by (bit_vector);
    assert(utf8_of(cp) =~= encode_scalar(cp));
}

proof fn lemma_encode_push(chars: Seq<char>, c: char)
    ensures
        encode_utf8(chars.push(c)) == encode_utf8(chars) + encode_scalar(c as u32),
    decreases chars.len(),
{
    let all = chars.push(c);
    if chars.len() == 0 {
        assert(all.drop_first() =~= Seq::empty());
        assert(encode_utf8(Seq::<char>::empty()) =~= Seq::<u8>::empty());
        assert(encode_utf8(all) =~= encode_utf8(chars) + encode_scalar(c as u32));
    } else {
        assert(all.drop_first() =~= chars.drop_first().push(c));
        lemma_encode_push(chars.drop_first(), c);
        assert(encode_utf8(all) =~= encode_utf8(chars) + encode_scalar(c as u32));
    }
}

/// The UTF-8 of the characters that stand for some bytes is what those bytes are mapped
/// to.
pub proof fn encoded_forms_agree(input: Seq<u8>)
    ensures
        encode_utf8(encoded_chars(input)) == encoded_bytes(input),
    decreases input.len(),
{
    if input.len() == 0 {
        assert(encoded_chars(input) =~= Seq::empty());
        assert(encode_utf8(Seq::<char>::empty()) =~= Seq::<u8>::empty());
    } else {
        let rest = input.drop_last();
        encoded_forms_agree(rest);
        lemma_encoded_first(input.last());
        assert(encoded_chars(input) =~= encoded_chars(rest).push(byte_char(input.last())));
        lemma_encode_push(encoded_chars(rest), byte_char(input.last()));
    }
}

proof fn lemma_decoded_suffix(a: Seq<u8>, b: Seq<u8>, pos: int)
    requires
        0 <= pos,
    ensures
        decoded_bytes(a + b, a.len() + pos) == decoded_bytes(b, pos),
    decreases b.len() - pos,
{
    if pos < b.len() {
        let all = a + b;
        let at = a.len() + pos;
        assert(all[at] == b[pos]);
        assert(char_len(all, at) == char_len(b, pos));
        let n = char_len(b, pos);
        assert(forall|k: int| 0 <= k < n ==> #[trigger] all[at + k] == b[pos + k]);
        if n >= 2 {
            assert(all[at + 1] == b[pos + 1]);
        }
        if n >= 3 {
            assert(all[at + 2] == b[pos + 2]);
        }
        if n >= 4 {
            assert(all[at + 3] == b[pos + 3]);
        }
        assert(decoded(all, at) == decoded(b, pos));
        lemma_decoded_suffix(a, b, pos + n);
        assert(at + n == a.len() + (pos + n));
    }
}

proof fn lemma_encoded_cons(b: u8, rest: Seq<u8>)
    ensures
        encoded_bytes(seq![b] + rest) == utf8_of(byte_codepoint(b)) + encoded_bytes(rest),
    decreases rest.len(),
{
    let all = seq![b] + rest;
    if rest.len() == 0 {
        assert(all.drop_last() =~= Seq::empty());
        assert(all.last() == b);
        assert(encoded_bytes(all.drop_last()) =~= Seq::empty());
        assert(encoded_bytes(all) =~= utf8_of(byte_codepoint(b)) + encoded_bytes(rest));
    } else {
        assert(all.drop_last() =~= seq![b] + rest.drop_last());
        lemma_encoded_cons(b, rest.drop_last());
        assert(encoded_bytes(all) =~= utf8_of(byte_codepoint(b)) + encoded_bytes(rest));
    }
}

/// Mapping bytes to characters and back gives the bytes.
pub proof fn byte_roundtrip(input: Seq<u8>)
    ensures
        decoded_bytes(encoded_bytes(input), 0) == input,
    decreases input.len(),
{
    if input.len() == 0 {
        assert(decoded_bytes(encoded_bytes(input), 0) =~= input);
    } else {
        let b = input[0];
        let rest = input.drop_first();
        assert(input =~= seq![b] + rest);
        lemma_encoded_cons(b, rest);
        byte_roundtrip(rest);
        lemma_encoded_first(b);
        byte_codepoint_roundtrip(b);
        let first = utf8_of(byte_codepoint(b));
        let all = first + encoded_bytes(rest);
        utf8_roundtrip(byte_codepoint(b));
        assert(all[0] == first[0]);
        assert(char_len(all, 0) == first.len());
        assert(decoded(all, 0) == byte_codepoint(b));
        lemma_decoded_suffix(first, encoded_bytes(rest), 0);
        assert(decoded_bytes(all, 0) =~= seq![b] + rest);
    }
}

/// Encoding a text and decoding the result gives the text.
pub proof fn text_roundtrip(s: Seq<char>)
    ensures
        decoded_bytes(encode_utf8(encoded_chars(encode_utf8(s))), 0) == encode_utf8(s),
        valid_utf8(encode_utf8(s)),
        decode_utf8(encode_utf8(s)) == s,
{
    encoded_forms_agree(encode_utf8(s));
    byte_roundtrip(encode_utf8(s));
    vstd::utf8::encode_utf8_valid_utf8(s);
    vstd::utf8::encode_utf8_decode_utf8(s);
}

} // verus!

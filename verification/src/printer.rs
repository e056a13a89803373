//! Generated text on the terminal: reasoning in grey, its tags left out.
use vstd::prelude::*;
use vstd::utf8::{decode_utf8, encode_utf8, is_ascii_chars_encode_utf8, valid_utf8};

use crate::text::{append, byte_match_at, matches_at, utf8_string};

verus! {

/// Prints text that comes in pieces.
#[derive(Debug)]
pub struct TokenPrinter {
    pub format_thinking: bool,
    pub in_think: bool,
    pub color_open: bool,
    pub use_color: bool,
    pub last_output_newline: bool,
    /// Bytes that may be the beginning of a tag.
    pub pending: Vec<u8>,
}

#[verifier::ext_equal]
pub struct PrinterView {
    pub format_thinking: bool,
    pub in_think: bool,
    pub color_open: bool,
    pub use_color: bool,
    pub newline: bool,
    pub pending: Seq<u8>,
}

impl View for TokenPrinter {
    type V = PrinterView;

    open spec fn view(&self) -> PrinterView {
        PrinterView {
            format_thinking: self.format_thinking,
            in_think: self.in_think,
            color_open: self.color_open,
            use_color: self.use_color,
            newline: self.last_output_newline,
            pending: self.pending@,
        }
    }
}

pub open spec fn open_tag() -> Seq<u8> {
    encode_utf8("<think>"@)
}

pub open spec fn close_tag() -> Seq<u8> {
    encode_utf8("</think>"@)
}

/// Whether `b` is a beginning of `tag`, but not all of it.
pub open spec fn begins(b: Seq<u8>, tag: Seq<u8>) -> bool {
    b.len() < tag.len() && tag.subrange(0, b.len() as int) == b
}

/// Whether what starts at `i` may become a tag.
pub open spec fn partial_tag(b: Seq<u8>, i: int) -> bool {
    let rest = b.subrange(i, b.len() as int);
    begins(rest, open_tag()) || begins(rest, close_tag())
}

/// Ends the colour.
pub open spec fn uncolored(p: PrinterView) -> (PrinterView, Seq<char>) {
    if p.use_color && p.color_open {
        (PrinterView { color_open: false, ..p }, "\u{1b}[0m"@)
    } else {
        (p, Seq::empty())
    }
}

/// Prints one byte as the character of its number.
pub open spec fn printed_byte(p: PrinterView, c: u8) -> (PrinterView, Seq<char>) {
    let grey = p.in_think && p.use_color && !p.color_open;
    (
        PrinterView { color_open: p.color_open || grey, newline: c == 10, ..p },
        (if grey {
            "\u{1b}[90m"@
        } else {
            Seq::empty()
        }).push(c as char),
    )
}

/// Leaves the reasoning: the colour ends, and so does the line.
pub open spec fn left_reasoning(p: PrinterView) -> (PrinterView, Seq<char>) {
    let (q, out) = uncolored(PrinterView { in_think: false, ..p });
    if q.newline {
        (q, out)
    } else {
        (PrinterView { newline: true, ..q }, out.push('\n'))
    }
}

/// Prints the bytes from `i` on. Unless it is the end, what may become a tag is kept.
pub open spec fn printed(p: PrinterView, b: Seq<u8>, i: int, finish: bool) -> (
    PrinterView,
    Seq<char>,
)
    decreases b.len() - i,
{
    if i < 0 || i >= b.len() {
        (p, Seq::empty())
    } else if matches_at(b, open_tag(), i) && open_tag().len() > 0 {
        printed(PrinterView { in_think: true, ..p }, b, i + open_tag().len(), finish)
    } else if matches_at(b, close_tag(), i) && close_tag().len() > 0 {
        let (q, out) = left_reasoning(p);
        let (r, rest) = printed(q, b, i + close_tag().len(), finish);
        (r, out + rest)
    } else if !finish && partial_tag(b, i) {
        (PrinterView { pending: b.subrange(i, b.len() as int), ..p }, Seq::empty())
    } else {
        let (q, out) = printed_byte(p, b[i]);
        let (r, rest) = printed(q, b, i + 1, finish);
        (r, out + rest)
    }
}

/// Prints what was kept and the bytes of `text`.
pub open spec fn processed(p: PrinterView, text: Seq<u8>, finish: bool) -> (
    PrinterView,
    Seq<char>,
) {
    printed(PrinterView { pending: Seq::empty(), ..p }, p.pending + text, 0, finish)
}

/// Prints a piece of text.
pub open spec fn written(p: PrinterView, text: Seq<u8>) -> (PrinterView, Seq<char>) {
    if p.format_thinking {
        processed(p, text, false)
    } else if text.len() > 0 {
        (
            PrinterView { newline: text.last() == 10, ..p },
            if valid_utf8(text) {
                decode_utf8(text)
            } else {
                Seq::empty()
            },
        )
    } else {
        (p, Seq::empty())
    }
}

/// Prints what was kept, and ends the colour.
pub open spec fn flushed(p: PrinterView) -> (PrinterView, Seq<char>) {
    if p.format_thinking {
        let (q, out) = processed(p, Seq::empty(), true);
        let (r, rest) = uncolored(q);
        (r, out + rest)
    } else {
        (p, Seq::empty())
    }
}

/// The end of a generation: everything is printed, and the line ends.
pub open spec fn closed(p: PrinterView) -> (PrinterView, Seq<char>) {
    let (q, out) = flushed(p);
    if q.newline {
        (q, out)
    } else {
        (PrinterView { newline: true, ..q }, out.push('\n'))
    }
}

proof fn lemma_tags()
    ensures
        open_tag().len() == 7,
        close_tag().len() == 8,
{
    reveal_strlit("<think>");
    reveal_strlit("</think>");
    is_ascii_chars_encode_utf8("<think>"@);
    is_ascii_chars_encode_utf8("</think>"@);
}

/// What is scanned of `a` alone is scanned the same way of `a` with more behind it.
proof fn lemma_scan(p: PrinterView, a: Seq<u8>, b: Seq<u8>, i: int)
    requires
        p.pending.len() == 0,
        0 <= i <= a.len(),
    ensures
        ({
            let (q, out) = printed(p, a, i, false);
            let (r, rest) = processed(q, b, false);
            printed(p, a + b, i, false) == (r, out + rest)
        }),
    decreases a.len() - i,
{
    lemma_tags();
    let ab = a + b;
    let n = a.len() as int;
    if i == n {
        assert(p.pending + b =~= b);
        lemma_shift(p, a, b, 0);
        let (r, rest) = processed(p, b, false);
        assert(PrinterView { pending: Seq::empty(), ..p } =~= p);
        assert(Seq::<char>::empty() + rest =~= rest);
    } else {
        let rest_a = a.subrange(i, n);
        let rest_ab = ab.subrange(i, ab.len() as int);
        assert(rest_ab =~= rest_a + b);
        lemma_match(a, b, i, open_tag());
        lemma_match(a, b, i, close_tag());
        if matches_at(a, open_tag(), i) {
            lemma_scan(PrinterView { in_think: true, ..p }, a, b, i + open_tag().len());
        } else if matches_at(a, close_tag(), i) {
            let (q, out) = left_reasoning(p);
            lemma_scan(q, a, b, i + close_tag().len());
            let (q1, out1) = printed(q, a, i + close_tag().len(), false);
            let (r, rest) = processed(q1, b, false);
            assert(out + (out1 + rest) =~= (out + out1) + rest);
        } else if partial_tag(a, i) {
            // What is kept of `a` comes before `b`.
            let kept = PrinterView { pending: rest_a, ..p };
            let head = a.subrange(0, i);
            assert(a =~= head + rest_a);
            assert(ab =~= head + (rest_a + b));
            lemma_shift(p, head, rest_a + b, 0);
            assert(PrinterView { pending: Seq::empty(), ..kept } =~= p);
            let (r, rest) = processed(kept, b, false);
            assert(Seq::<char>::empty() + rest =~= rest);
        } else {
            assert(!partial_tag(ab, i)) by {
                if begins(rest_ab, open_tag()) {
                    assert(open_tag().subrange(0, rest_a.len() as int) =~= rest_a);
                }
                if begins(rest_ab, close_tag()) {
                    assert(close_tag().subrange(0, rest_a.len() as int) =~= rest_a);
                }
            }
            let (q, out) = printed_byte(p, a[i]);
            lemma_scan(q, a, b, i + 1);
            let (q1, out1) = printed(q, a, i + 1, false);
            let (r, rest) = processed(q1, b, false);
            assert(out + (out1 + rest) =~= (out + out1) + rest);
        }
    }
}

/// A tag stands in `a + b` where it stands in `a`, or where `a` ends with its beginning.
proof fn lemma_match(a: Seq<u8>, b: Seq<u8>, i: int, tag: Seq<u8>)
    requires
        0 <= i < a.len(),
        tag.len() > 0,
    ensures
        matches_at(a, tag, i) ==> matches_at(a + b, tag, i),
        matches_at(a + b, tag, i) && !matches_at(a, tag, i) ==> begins(
            a.subrange(i, a.len() as int),
            tag,
        ),
{
    let ab = a + b;
    if matches_at(a, tag, i) {
        assert(ab.subrange(i, i + tag.len()) =~= a.subrange(i, i + tag.len()));
    } else if matches_at(ab, tag, i) {
        let part = ab.subrange(i, i + tag.len());
        if i + tag.len() <= a.len() {
            assert(part =~= a.subrange(i, i + tag.len()));
        } else {
            let rest = a.subrange(i, a.len() as int);
            assert(tag.subrange(0, rest.len() as int) =~= rest) by {
                assert forall|k: int| 0 <= k < rest.len() implies tag[k] == rest[k] by {
                    assert(part[k] == ab[i + k]);
                }
            }
        }
    }
}

/// What is printed does not depend on the bytes before the place where printing starts.
proof fn lemma_shift(p: PrinterView, head: Seq<u8>, b: Seq<u8>, i: int)
    requires
        0 <= i <= b.len(),
    ensures
        printed(p, head + b, head.len() + i, false) == printed(p, b, i, false),
    decreases b.len() - i,
{
    lemma_tags();
    let all = head + b;
    let n = head.len();
    if i < b.len() {
        assert(all.subrange(n + i, all.len() as int) =~= b.subrange(i, b.len() as int));
        lemma_shift_match(head, b, i, open_tag());
        lemma_shift_match(head, b, i, close_tag());
        if matches_at(b, open_tag(), i) {
            lemma_shift(PrinterView { in_think: true, ..p }, head, b, i + open_tag().len());
        } else if matches_at(b, close_tag(), i) {
            lemma_shift(left_reasoning(p).0, head, b, i + close_tag().len());
        } else if !partial_tag(b, i) {
            lemma_shift(printed_byte(p, b[i]).0, head, b, i + 1);
        }
    }
}

proof fn lemma_shift_match(head: Seq<u8>, b: Seq<u8>, i: int, tag: Seq<u8>)
    requires
        0 <= i <= b.len(),
    ensures
        matches_at(head + b, tag, head.len() + i) == matches_at(b, tag, i),
{
    if i + tag.len() <= b.len() {
        assert((head + b).subrange(head.len() + i, head.len() + i + tag.len()) =~= b.subrange(
            i,
            i + tag.len(),
        ));
    }
}

/// How a text is cut into pieces does not change what is printed: two pieces print what
/// they print together.
pub proof fn pieces_print_as_one(p: PrinterView, a: Seq<u8>, b: Seq<u8>)
    requires
        p.format_thinking,
    ensures
        ({
            let (q, out) = written(p, a);
            let (r, rest) = written(q, b);
            written(p, a + b) == (r, out + rest)
        }),
{
    let start = PrinterView { pending: Seq::empty(), ..p };
    let first = p.pending + a;
    lemma_scan(start, first, b, 0);
    assert(first + b =~= p.pending + (a + b));
    lemma_keeps_format(start, first, 0);
}

proof fn lemma_keeps_format(p: PrinterView, b: Seq<u8>, i: int)
    ensures
        printed(p, b, i, false).0.format_thinking == p.format_thinking,
    decreases b.len() - i,
{
    lemma_tags();
    if 0 <= i < b.len() {
        if matches_at(b, open_tag(), i) {
            lemma_keeps_format(PrinterView { in_think: true, ..p }, b, i + open_tag().len());
        } else if matches_at(b, close_tag(), i) {
            lemma_keeps_format(left_reasoning(p).0, b, i + close_tag().len());
        } else if !partial_tag(b, i) {
            lemma_keeps_format(printed_byte(p, b[i]).0, b, i + 1);
        }
    }
}

fn starts_partial(b: &Vec<u8>, i: usize, tag: &[u8]) -> (r: bool)
    requires
        i <= b@.len(),
    ensures
        r == begins(b@.subrange(i as int, b@.len() as int), tag@),
{
    let n: usize = b.len();
    let ghost rest = b@.subrange(i as int, n as int);
    if n - i >= tag.len() {
        return false;
    }
    let mut k: usize = 0;
    while k < n - i
        invariant
            i <= n == b@.len(),
            k <= n - i < tag@.len(),
            rest == b@.subrange(i as int, n as int),
            forall|j: int| 0 <= j < k ==> tag@[j] == rest[j],
        decreases n - i - k,
    {
        if b[i + k] != tag[k] {
            assert(tag@.subrange(0, rest.len() as int)[k as int] != rest[k as int]);
            return false;
        }
        k = k + 1;
    }
    assert(tag@.subrange(0, rest.len() as int) =~= rest);
    true
}

impl TokenPrinter {
    pub fn new(format_thinking: bool, use_color: bool) -> (r: Self)
        ensures
            r@ == (PrinterView {
                format_thinking,
                in_think: format_thinking,
                color_open: false,
                use_color,
                newline: true,
                pending: Seq::empty(),
            }),
    {
        let r = TokenPrinter {
            format_thinking,
            in_think: format_thinking,
            color_open: false,
            use_color,
            last_output_newline: true,
            pending: Vec::new(),
        };
        assert(r@.pending =~= Seq::empty());
        r
    }

    fn reset_color(&mut self, out: &mut String)
        ensures
            (final(self)@, final(out)@) == (
                uncolored(old(self)@).0,
                old(out)@ + uncolored(old(self)@).1,
            ),
    {
        if self.use_color && self.color_open {
            append(out, "\u{1b}[0m");
            self.color_open = false;
        }
        assert(old(out)@ + Seq::<char>::empty() =~= old(out)@);
    }

    fn write_char(&mut self, c: u8, out: &mut String)
        ensures
            final(self)@ == printed_byte(old(self)@, c).0,
            final(out)@ == old(out)@ + printed_byte(old(self)@, c).1,
    {
        if self.in_think && self.use_color && !self.color_open {
            append(out, "\u{1b}[90m");
            self.color_open = true;
        }
        out.push(c as char);
        self.last_output_newline = c == 10;
        assert(out@ =~= old(out)@ + printed_byte(old(self)@, c).1);
    }

    fn leave_reasoning(&mut self, out: &mut String)
        ensures
            final(self)@ == left_reasoning(old(self)@).0,
            final(out)@ == old(out)@ + left_reasoning(old(self)@).1,
    {
        self.in_think = false;
        self.reset_color(out);
        if !self.last_output_newline {
            out.push('\n');
            self.last_output_newline = true;
        }
        assert(out@ =~= old(out)@ + left_reasoning(old(self)@).1);
    }

    /// Prints what was kept and the bytes of `text`.
    fn process(&mut self, text: &[u8], finish: bool, out: &mut String)
        ensures
            final(self)@ == processed(old(self)@, text@, finish).0,
            final(out)@ == old(out)@ + processed(old(self)@, text@, finish).1,
    {
        let open = "<think>".as_bytes();
        let close = "</think>".as_bytes();
        proof {
            lemma_tags();
        }
        let mut buf: Vec<u8> = Vec::new();
        std::mem::swap(&mut buf, &mut self.pending);
        buf.extend_from_slice(text);
        let ghost goal = processed(old(self)@, text@, finish);
        assert(buf@ =~= old(self)@.pending + text@);
        assert(self@.pending =~= Seq::empty());
        let n: usize = buf.len();
        let mut i: usize = 0;
        while i < n
            invariant
                i <= n == buf@.len(),
                open@ == open_tag(),
                close@ == close_tag(),
                open@.len() == 7,
                close@.len() == 8,
                goal.0 == printed(self@, buf@, i as int, finish).0,
                old(out)@ + goal.1 == out@ + printed(self@, buf@, i as int, finish).1,
                goal == processed(old(self)@, text@, finish),
            decreases n - i,
        {
            let ghost before = out@;
            let ghost p = self@;
            if byte_match_at(buf.as_slice(), open, i) {
                self.in_think = true;
                i = i + open.len();
                continue ;
            }
            if byte_match_at(buf.as_slice(), close, i) {
                self.leave_reasoning(out);
                let ghost rest = printed(self@, buf@, i + 8, finish).1;
                assert(before + (left_reasoning(p).1 + rest) =~= out@ + rest);
                i = i + close.len();
                continue ;
            }
            if !finish && (starts_partial(&buf, i, open) || starts_partial(&buf, i, close)) {
                let mut kept: Vec<u8> = Vec::new();
                kept.extend_from_slice(vstd::slice::slice_subrange(buf.as_slice(), i, n));
                assert(kept@ =~= buf@.subrange(i as int, n as int));
                self.pending = kept;
                assert(before + Seq::<char>::empty() =~= before);
                return ;
            }
            self.write_char(buf[i], out);
            let ghost rest = printed(self@, buf@, i + 1, finish).1;
            assert(before + (printed_byte(p, buf@[i as int]).1 + rest) =~= out@ + rest);
            i = i + 1;
        }
        assert(out@ + Seq::<char>::empty() =~= out@);
    }

    /// Prints a piece of text: gives what goes to the terminal.
    pub fn write_text(&mut self, text: &[u8]) -> (out: String)
        ensures
            (final(self)@, out@) == written(old(self)@, text@),
    {
        let mut out = String::new();
        if self.format_thinking {
            self.process(text, false, &mut out);
            assert(out@ =~= processed(old(self)@, text@, false).1);
        } else if text.len() > 0 {
            let mut v: Vec<u8> = Vec::new();
            v.extend_from_slice(text);
            assert(v@ =~= text@);
            self.last_output_newline = text[text.len() - 1] == 10;
            match utf8_string(v) {
                Some(s) => {
                    out = s;
                },
                None => {},
            }
        }
        out
    }

    /// Prints what was kept, and ends the colour.
    pub fn finish(&mut self) -> (out: String)
        ensures
            (final(self)@, out@) == flushed(old(self)@),
    {
        let mut out = String::new();
        if self.format_thinking {
            let none: [u8; 0] = [];
            assert(none@ =~= Seq::<u8>::empty());
            self.process(&none, true, &mut out);
            assert(out@ =~= processed(old(self)@, Seq::empty(), true).1);
            self.reset_color(&mut out);
        }
        out
    }

    /// Ends a generation.
    pub fn close(&mut self) -> (out: String)
        ensures
            (final(self)@, out@) == closed(old(self)@),
    {
        let mut out = self.finish();
        if !self.last_output_newline {
            out.push('\n');
            self.last_output_newline = true;
        }
        out
    }
}

} // verus!

//! What HTTP requests and responses are held to.
use vstd::prelude::*;
use vstd::utf8::{decode_utf8, encode_utf8, valid_utf8};

use crate::encoding::lossy_utf8;
use crate::http::{
    after_data, after_end, blank_line, body_plan, chunks, data_event, fields, header_of, line_end,
    plan_from, plan_line, request_id, request_in, response_bytes, trailers, BodyPlan, ChunkView,
    HttpErrorView, PhaseView, ReadStepView, ReaderView,
};
use crate::laws::texts::search_finds_first;
use crate::number::natural;
use crate::readback::lemma_find_shift;
use crate::text::{dec, dec_int, find, find_from, hex, lemma_find_from, lowercase, trimmed};

verus! {

/// A response is its status line, its headers and its body; it announces the number of
/// bytes of the body and the end of the connection.
pub proof fn responses_announce_their_bodies(code: i32, kind: Seq<char>, body: Seq<char>)
    ensures
        ({
            let phrase = if code == 200 {
                "OK"@
            } else if code == 204 {
                "No Content"@
            } else if code == 400 {
                "Bad Request"@
            } else if code == 404 {
                "Not Found"@
            } else if code == 500 {
                "Internal Server Error"@
            } else if code == 503 {
                "Service Unavailable"@
            } else {
                "Error"@
            };
            let status = "HTTP/1.1 "@ + dec_int(code as int) + " "@ + phrase;
            let content = "\r\nContent-Type: "@ + kind;
            let length = "\r\nContent-Length: "@ + dec(encode_utf8(body).len());
            let end = "\r\nConnection: close\r\n\r\n"@;
            response_bytes(code, kind, body) == encode_utf8(status + content + length + end)
                + encode_utf8(body)
        }),
{
    let head = crate::http::response_head(code, kind, encode_utf8(body).len());
    let status = "HTTP/1.1 "@ + dec_int(code as int) + " "@ + crate::http::reason(code);
    let content = "\r\nContent-Type: "@ + kind;
    let length = "\r\nContent-Length: "@ + dec(encode_utf8(body).len());
    let end = "\r\nConnection: close\r\n\r\n"@;
    assert(head =~= status + content + length + end);
}

/// An event carries its data between `data: ` and a blank line.
pub proof fn events_carry_their_data(data: Seq<char>)
    ensures
        data_event(data) == "data: "@ + data + "\n\n"@,
{
}

/// The ID of a request tells the time and the number in hexadecimal.
pub proof fn request_ids_tell_time(ts: i64, r: u64)
    requires
        ts >= 0,
    ensures
        request_id(ts, r) == "chatcmpl-"@ + hex(ts as nat) + hex(r as nat),
{
}

/// The first line of a request is its method, its path and its version, parted by one
/// space each, and neither of the first two holds a space; the body is read as text.
pub proof fn request_line_has_three_parts(head: Seq<u8>, body: Seq<u8>)
    ensures
        request_in(head, body) matches Ok(q) ==> {
            let line = trimmed(decode_utf8(head.subrange(0, line_end(head, 0))));
            &&& line == q.method + " "@ + q.path + " "@ + q.version
            &&& !q.method.contains(' ')
            &&& !q.path.contains(' ')
            &&& q.body == lossy_utf8(body)
            &&& fields(head, line_end(head, 0) + 1, Map::empty()) == Ok::<
                Map<Seq<char>, Seq<char>>,
                HttpErrorView,
            >(q.headers)
        },
{
    match request_in(head, body) {
        Ok(q) => {
            let line = trimmed(decode_utf8(head.subrange(0, line_end(head, 0))));
            let sp = " "@;
            reveal_strlit(" ");
            lemma_find_from(line, sp, 0);
            let a = find(line, sp)->0;
            lemma_find_from(line, sp, a + 1);
            let b = find_from(line, sp, a + 1)->0;
            assert(line.subrange(a, a + 1)[0] == ' ');
            assert(line.subrange(b, b + 1)[0] == ' ');
            assert(line =~= q.method + sp + q.path + sp + q.version);
            assert forall|i: int| 0 <= i < q.method.len() implies q.method[i] != ' ' by {
                search_finds_first(line, sp, 0, i);
                assert(line[i] == q.method[i]);
                if q.method[i] == ' ' {
                    assert forall|j: int| 0 <= j < 1 implies line[i + j] == #[trigger] sp[j] by {}
                }
            }
            assert forall|i: int| 0 <= i < q.path.len() implies q.path[i] != ' ' by {
                search_finds_first(line, sp, a + 1, a + 1 + i);
                assert(line[a + 1 + i] == q.path[i]);
                if q.path[i] == ' ' {
                    assert forall|j: int| 0 <= j < 1 implies line[a + 1 + i + j]
                        == #[trigger] sp[j] by {}
                }
            }
        },
        Err(_) => {},
    }
}

/// Why a request cannot be read: it is empty, its first line is no text, or the line has
/// fewer than two spaces.
pub proof fn bad_requests_are_refused(head: Seq<u8>, body: Seq<u8>)
    ensures
        ({
            let bytes = head.subrange(0, line_end(head, 0));
            let line = trimmed(decode_utf8(bytes));
            let r = request_in(head, body);
            &&& head.len() == 0 ==> r is Err && r->Err_0 is Empty
            &&& head.len() > 0 && !valid_utf8(bytes) ==> r is Err && r->Err_0 is NotUtf8
            &&& head.len() > 0 && valid_utf8(bytes) && !line.contains(' ') ==> r is Err && r->Err_0
                == HttpErrorView::Malformed(line)
        }),
{
    let bytes = head.subrange(0, line_end(head, 0));
    let line = trimmed(decode_utf8(bytes));
    reveal_strlit(" ");
    lemma_find_from(line, " "@, 0);
    if find(line, " "@) is Some {
        let a = find(line, " "@)->0;
        assert(line.subrange(a, a + 1)[0] == ' ');
        assert(line[a] == ' ');
    }
}

/// A header is named by what stands before the first colon, in lower case, and its value
/// is what stands behind it, both trimmed.
pub proof fn headers_are_parted_at_colon(name: Seq<char>, value: Seq<char>)
    requires
        !name.contains(':'),
    ensures
        header_of(name + ":"@ + value) == Some((lowercase(trimmed(name)), trimmed(value))),
        header_of(name) is None,
{
    let line = name + ":"@ + value;
    let colon = ":"@;
    reveal_strlit(":");
    lemma_find_from(line, colon, 0);
    lemma_find_from(name, colon, 0);
    let n = name.len() as int;
    assert(line.subrange(n, n + 1) =~= colon);
    assert(crate::text::matches_at(line, colon, n));
    let c = find(line, colon)->0;
    if c < n {
        assert(line.subrange(c, c + 1)[0] == ':');
        assert(name[c] == ':');
    }
    assert(c == n);
    assert(line.subrange(0, n) =~= name);
    assert(line.subrange(n + 1, line.len() as int) =~= value);
    if find(name, colon) is Some {
        let d = find(name, colon)->0;
        assert(name.subrange(d, d + 1)[0] == ':');
        assert(name[d] == ':');
    }
}

/// Of two headers with the same name the later one counts, and a blank line ends them.
pub proof fn later_headers_count(
    b: Seq<u8>,
    i: int,
    known: Map<Seq<char>, Seq<char>>,
    name: Seq<char>,
    value: Seq<char>,
)
    requires
        0 <= i < b.len(),
        valid_utf8(b.subrange(i, line_end(b, i))),
        trimmed(decode_utf8(b.subrange(i, line_end(b, i)))) == name + ":"@ + value,
        !name.contains(':'),
        line_end(b, i) + 1 >= b.len(),
    ensures
        fields(b, i, known) is Ok,
        fields(b, i, known)->Ok_0 == known.insert(lowercase(trimmed(name)), trimmed(value)),
        fields(b, b.len() as int, known) == Ok::<_, HttpErrorView>(known),
{
    headers_are_parted_at_colon(name, value);
    reveal_strlit(":");
    lemma_find_from(b, seq![10u8], i);
    let e = line_end(b, i);
    reveal_with_fuel(fields, 2);
}

/// A head says of its body how long it is, by its last `content-length`, or that it comes
/// in chunks; a length that is no number counts as none.
pub proof fn heads_tell_body_length(name: Seq<char>, value: Seq<char>, plan: BodyPlan)
    requires
        !name.contains(':'),
    ensures
        ({
            let next = plan_line(name + ":"@ + value, plan);
            let key = lowercase(trimmed(name));
            let n = natural(trimmed(value), 10);
            &&& key == "content-length"@ && n is Some && n->0 <= usize::MAX ==> next.len == n->0
            &&& key == "content-length"@ && n is None ==> next.len == 0
            &&& key != "content-length"@ ==> next.len == plan.len
            &&& key != "transfer-encoding"@ ==> next.chunked == plan.chunked
            &&& key == "transfer-encoding"@ && find(lowercase(trimmed(value)), "chunked"@) is Some
                ==> next.chunked
            &&& plan.chunked ==> next.chunked
        }),
        plan_line(name, plan) == plan,
{
    headers_are_parted_at_colon(name, value);
}

/// A request with a body of a known length is read as soon as the whole body is there,
/// from the head and just that many bytes behind it; one without a body as soon as the
/// head is there.
pub proof fn request_is_read_when_whole(buf: Seq<u8>, data: Seq<u8>, pos: int)
    requires
        find(buf + data, seq![13u8, 10u8, 13u8, 10u8]) == Some(pos),
        (buf + data).len() <= usize::MAX,
    ensures
        ({
            let all = buf + data;
            let plan = body_plan(lossy_utf8(all.subrange(0, pos)));
            let step = after_data(ReaderView { buf, phase: PhaseView::Head }, data).1;
            let end = pos + 4 + plan.len;
            &&& !plan.chunked && plan.len == 0 ==> (match request_in(all, Seq::empty()) {
                Ok(q) => step == ReadStepView::Done(q),
                Err(e) => step == ReadStepView::Failed(e),
            })
            &&& !plan.chunked && plan.len > 0 && end <= all.len() ==> (match request_in(
                all.subrange(0, pos + 4),
                all.subrange(pos + 4, end),
            ) {
                Ok(q) => step == ReadStepView::Done(q),
                Err(e) => step == ReadStepView::Failed(e),
            })
            &&& !plan.chunked && plan.len > 0 && all.len() < end <= usize::MAX ==> step is More
        }),
{
}

/// A head without end is read on up to its limit of 65536 bytes, and refused there.
pub proof fn long_heads_are_refused(buf: Seq<u8>, data: Seq<u8>)
    requires
        find(buf + data, seq![13u8, 10u8, 13u8, 10u8]) is None,
    ensures
        ({
            let step = after_data(ReaderView { buf, phase: PhaseView::Head }, data).1;
            &&& buf.len() + data.len() < 65536 ==> step is More
            &&& buf.len() + data.len() >= 65536 ==> step == ReadStepView::Failed(
                HttpErrorView::TooLarge,
            )
        }),
        after_end(ReaderView { buf, phase: PhaseView::Head }) == ReadStepView::Failed(
            HttpErrorView::Incomplete,
        ),
{
}

/// A chunk is passed over with its size, in hexadecimal, and the line ends behind the size
/// and behind the data; a size of zero ends the body.
pub proof fn chunks_are_passed_over(size: Seq<u8>, k: int, data: Seq<u8>, rest: Seq<u8>)
    requires
        valid_utf8(size),
        trimmed(decode_utf8(size)).len() > 0,
        natural(trimmed(decode_utf8(size)), 16) == Some(k),
        find(size + seq![13u8, 10u8] + data + seq![13u8, 10u8] + rest, seq![13u8, 10u8]) == Some(
            size.len() as int,
        ),
        k == data.len(),
        size.len() + data.len() + 4 <= usize::MAX,
    ensures
        k > 0 ==> chunks(size + seq![13u8, 10u8] + data + seq![13u8, 10u8] + rest) == chunks(rest),
        k == 0 ==> chunks(size + seq![13u8, 10u8] + data + seq![13u8, 10u8] + rest) is Done,
{
    let end = seq![13u8, 10u8];
    let b = size + end + data + end + rest;
    let c = size.len() as int;
    let n = b.len() as int;
    assert(b.subrange(0, c) =~= size);
    if k > 0 {
        assert(b.subrange(c + 2 + k + 2, n) =~= rest);
    }
}

/// A chunk whose size is no hexadecimal number is refused.
pub proof fn bad_chunk_sizes_are_refused(b: Seq<u8>, c: int)
    requires
        find(b, seq![13u8, 10u8]) == Some(c),
        valid_utf8(b.subrange(0, c)),
        trimmed(decode_utf8(b.subrange(0, c))).len() > 0,
        natural(trimmed(decode_utf8(b.subrange(0, c))), 16) is None,
    ensures
        chunks(b) == ChunkView::Failed(HttpErrorView::BadChunkSize),
{
    lemma_find_from(b, seq![13u8, 10u8], 0);
}

/// A body of chunks is read on with what is left of it, and the request is read when the
/// last chunk is there.
pub proof fn chunked_body_is_read_on(buf: Seq<u8>, body: Seq<u8>, data: Seq<u8>)
    ensures
        ({
            let (st, step) = after_data(
                ReaderView { buf, phase: PhaseView::Chunked { body } },
                data,
            );
            &&& chunks(body + data) matches ChunkView::More(rest) ==> step is More && st
                == (ReaderView { buf, phase: PhaseView::Chunked { body: rest } })
            &&& chunks(body + data) matches ChunkView::Done(rest) ==> (match request_in(buf, rest) {
                Ok(q) => step == ReadStepView::Done(q),
                Err(e) => step == ReadStepView::Failed(e),
            })
            &&& chunks(body + data) matches ChunkView::Failed(e) ==> step == ReadStepView::Failed(e)
        }),
{
}

/// A body of a known length is read on until all of it is there.
pub proof fn sized_body_is_read_on(buf: Seq<u8>, head: int, end: int, data: Seq<u8>)
    requires
        0 <= head <= end,
        head <= buf.len(),
    ensures
        ({
            let all = buf + data;
            let phase = PhaseView::Sized { head_end: head, body_end: end };
            let (st, step) = after_data(ReaderView { buf, phase }, data);
            &&& st == (ReaderView { buf: all, phase })
            &&& all.len() < end ==> step is More
            &&& all.len() >= end ==> (match request_in(
                all.subrange(0, head),
                all.subrange(head, end),
            ) {
                Ok(q) => step == ReadStepView::Done(q),
                Err(e) => step == ReadStepView::Failed(e),
            })
        }),
{
}

/// Where the connection ends in a body, the request is read with what there is of it.
pub proof fn cut_bodies_are_read_as_they_are(buf: Seq<u8>, head: int, end: int, body: Seq<u8>)
    requires
        0 <= head <= buf.len(),
        buf.len() < end,
    ensures
        ({
            let step = after_end(
                ReaderView { buf, phase: PhaseView::Sized { head_end: head, body_end: end } },
            );
            match request_in(buf.subrange(0, head), buf.subrange(head, buf.len() as int)) {
                Ok(q) => step == ReadStepView::Done(q),
                Err(e) => step == ReadStepView::Failed(e),
            }
        }),
        ({
            let step = after_end(ReaderView { buf, phase: PhaseView::Chunked { body } });
            match request_in(buf, body) {
                Ok(q) => step == ReadStepView::Done(q),
                Err(e) => step == ReadStepView::Failed(e),
            }
        }),
{
}

/// What an error in a request says.
pub proof fn http_errors_say_what_is_wrong(line: Seq<char>)
    ensures
        HttpErrorView::TooLarge.text() == "Request too large"@,
        HttpErrorView::Incomplete.text() == "Failed to parse HTTP request"@,
        HttpErrorView::BadChunkSize.text() == "Invalid chunk size"@,
        HttpErrorView::LengthOverflow.text() == "Invalid length"@,
        HttpErrorView::Empty.text() == "Empty request"@,
        HttpErrorView::NotUtf8.text() == "stream did not contain valid UTF-8"@,
        HttpErrorView::Malformed(line).text() == "Malformed request line: "@ + line,
{
}

/// The lines of a head are read one by one: each adds to the plan of those before it.
pub proof fn heads_are_read_line_by_line(first: Seq<char>, rest: Seq<char>)
    requires
        !first.contains('\n'),
    ensures
        body_plan(first) == plan_line(first, BodyPlan { len: 0, chunked: false }),
        body_plan(first + "\n"@ + rest) == plan_from(
            rest,
            0,
            plan_line(first, BodyPlan { len: 0, chunked: false }),
        ),
{
    let text = first + "\n"@ + rest;
    let nl = "\n"@;
    let n = first.len() as int;
    let plan = BodyPlan { len: 0, chunked: false };
    reveal_strlit("\n");
    lemma_find_from(first, nl, 0);
    if find(first, nl) is Some {
        let k = find(first, nl)->0;
        assert(first.subrange(k, k + 1)[0] == '\n');
        assert(first[k] == '\n');
    }
    assert(first.subrange(0, n) =~= first);
    lemma_find_from(text, nl, 0);
    assert(text.subrange(n, n + 1) =~= nl);
    assert(crate::text::matches_at(text, nl, n));
    let k = find(text, nl)->0;
    if k < n {
        assert(text.subrange(k, k + 1)[0] == '\n');
        assert(first[k] == '\n');
    }
    assert(text.subrange(0, n) =~= first);
    let front = first + nl;
    assert(text =~= front + rest);
    lemma_plan_shift(front, rest, 0, plan_line(first, plan));
}

proof fn lemma_plan_shift(front: Seq<char>, rest: Seq<char>, i: int, plan: BodyPlan)
    requires
        0 <= i <= rest.len(),
    ensures
        plan_from(front + rest, front.len() + i, plan) == plan_from(rest, i, plan),
    decreases rest.len() - i,
{
    let text = front + rest;
    let nl = "\n"@;
    reveal_strlit("\n");
    lemma_find_shift(front, rest, nl, i);
    lemma_find_from(rest, nl, i);
    match find_from(rest, nl, i) {
        Some(e) => {
            assert(text.subrange(front.len() + i, front.len() + e) =~= rest.subrange(i, e));
            lemma_plan_shift(front, rest, e + 1, plan_line(rest.subrange(i, e), plan));
        },
        None => {
            assert(text.subrange(front.len() + i, text.len() as int) =~= rest.subrange(
                i,
                rest.len() as int,
            ));
        },
    }
}

/// Behind the last chunk the trailers are kept: all before the empty line where there is
/// one, and else all behind the two bytes that follow the chunk.
pub proof fn trailers_end_at_an_empty_line(a: Seq<u8>, b: Seq<u8>)
    ensures
        find(a + seq![13u8, 10u8, 13u8, 10u8] + b, blank_line()) == Some(a.len() as int)
            ==> trailers(a + seq![13u8, 10u8, 13u8, 10u8] + b) == a,
        find(seq![13u8, 10u8] + b, blank_line()) is None ==> trailers(seq![13u8, 10u8] + b) == b,
        blank_line() == seq![13u8, 10u8, 13u8, 10u8],
{
    let whole = a + seq![13u8, 10u8, 13u8, 10u8] + b;
    assert(whole.subrange(0, a.len() as int) =~= a);
    let rest = seq![13u8, 10u8] + b;
    assert(rest.subrange(2, rest.len() as int) =~= b);
    assert(blank_line() =~= seq![13u8, 10u8, 13u8, 10u8]);
}

} // verus!

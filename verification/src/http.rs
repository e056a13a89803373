//! HTTP: how a request is read and how a response is framed.
use vstd::prelude::*;
use vstd::slice::slice_subrange;
use vstd::utf8::{decode_utf8, encode_utf8, valid_utf8};

use crate::dsml::random_u64;
use crate::encoding::{from_utf8_lossy, lossy_utf8};
use crate::json::{int_view, json_text, JsonObject, JsonView};
use crate::number::{at_most, natural, parse_natural};
use crate::text::{
    append, chars_of, dec, dec_i64, dec_int, dec_u64, find, find_bytes, find_chars, find_from, hex,
    hex_u64, is_empty_text, lemma_find_from, lowercase, matches_at, same_text, string_of, to_lowercase, trim,
    trimmed, utf8_string,
};

verus! {

// ── Responses ────────────────────────────────────────────────────────────

/// The reason phrase of a status code.
pub open spec fn reason(code: i32) -> Seq<char> {
    if code == 200 {
        "OK"@
    } else if code == 204 {
        "No Content"@
    } else if code == 400 {
        "Bad Request"@
    } else if code == 404 {
        "Not Found"@
    } else if code == 500 {
        "Internal Server Error"@
    } else if code == 503 {
        "Service Unavailable"@
    } else {
        "Error"@
    }
}

/// The status line and the headers of a response whose body has `len` bytes.
pub open spec fn response_head(code: i32, content_type: Seq<char>, len: nat) -> Seq<char> {
    "HTTP/1.1 "@ + dec_int(code as int) + " "@ + reason(code) + "\r\nContent-Type: "@ + content_type
        + "\r\nContent-Length: "@ + dec(len) + "\r\nConnection: close\r\n\r\n"@
}

/// The bytes of a response.
pub open spec fn response_bytes(code: i32, content_type: Seq<char>, body: Seq<char>) -> Seq<u8> {
    encode_utf8(response_head(code, content_type, encode_utf8(body).len())) + encode_utf8(body)
}

pub fn http_response(code: i32, content_type: &str, body: &str) -> (r: Vec<u8>)
    ensures
        r@ == response_bytes(code, content_type@, body@),
{
    let phrase = if code == 200 {
        "OK"
    } else if code == 204 {
        "No Content"
    } else if code == 400 {
        "Bad Request"
    } else if code == 404 {
        "Not Found"
    } else if code == 500 {
        "Internal Server Error"
    } else if code == 503 {
        "Service Unavailable"
    } else {
        "Error"
    };
    let payload = body.as_bytes();
    let len: usize = payload.len();
    let mut head = String::from_str("HTTP/1.1 ");
    let number = dec_i64(code as i64);
    append(&mut head, number.as_str());
    append(&mut head, " ");
    append(&mut head, phrase);
    append(&mut head, "\r\nContent-Type: ");
    append(&mut head, content_type);
    append(&mut head, "\r\nContent-Length: ");
    let number = dec_u64(len as u64);
    append(&mut head, number.as_str());
    append(&mut head, "\r\nConnection: close\r\n\r\n");
    let mut r = head.as_str().as_bytes_vec();
    r.extend_from_slice(payload);
    r
}

/// The head of a response that streams events.
pub fn sse_headers() -> (r: &'static str)
    ensures
        r@
            == "HTTP/1.1 200 OK\r\nContent-Type: text/event-stream\r\nCache-Control: no-cache\r\nConnection: close\r\n\r\n"@,
{
    "HTTP/1.1 200 OK\r\nContent-Type: text/event-stream\r\nCache-Control: no-cache\r\nConnection: close\r\n\r\n"
}

/// A named event of a stream.
pub fn sse_event(event_type: &str, data: &str) -> (r: String)
    ensures
        r@ == "event: "@ + event_type@ + "\ndata: "@ + data@ + "\n\n"@,
{
    let mut r = String::from_str("event: ");
    append(&mut r, event_type);
    append(&mut r, "\ndata: ");
    append(&mut r, data);
    append(&mut r, "\n\n");
    r
}

/// An event of a stream.
pub open spec fn data_event(data: Seq<char>) -> Seq<char> {
    "data: "@ + data + "\n\n"@
}

pub fn sse_data(data: &str) -> (r: String)
    ensures
        r@ == data_event(data@),
{
    let mut r = String::from_str("data: ");
    append(&mut r, data);
    append(&mut r, "\n\n");
    r
}

/// The kind of an error, by its status code.
pub open spec fn error_kind(code: i32) -> Seq<char> {
    if code == 400 {
        "invalid_request_error"@
    } else if code == 404 {
        "not_found_error"@
    } else if code == 503 {
        "service_unavailable_error"@
    } else {
        "internal_server_error"@
    }
}

/// The body that tells a client of an error.
pub open spec fn error_view(code: i32, message: Seq<char>) -> JsonView {
    JsonView::Object(
        Map::<Seq<char>, JsonView>::empty().insert(
            "error"@,
            JsonView::Object(
                Map::<Seq<char>, JsonView>::empty().insert(
                    "message"@,
                    JsonView::Text(message),
                ).insert("type"@, JsonView::Text(error_kind(code))).insert(
                    "code"@,
                    int_view(code as i64),
                ),
            ),
        ),
    )
}

pub fn json_error(code: i32, message: &str) -> (r: String)
    ensures
        r@ == json_text(error_view(code, message@)),
{
    let kind = if code == 400 {
        "invalid_request_error"
    } else if code == 404 {
        "not_found_error"
    } else if code == 503 {
        "service_unavailable_error"
    } else {
        "internal_server_error"
    };
    let inner = JsonObject::new().with_text("message", message).with_text("type", kind).with_int(
        "code",
        code as i64,
    ).done();
    JsonObject::new().with("error", inner).done().print()
}

/// The ID of a request, made of the time and a number.
pub open spec fn request_id(ts: i64, r: u64) -> Seq<char> {
    "chatcmpl-"@ + hex(ts as u64 as nat) + hex(r as nat)
}

/// The ID of a request, made of the time and a number.
pub fn request_id_of(ts: i64, r: u64) -> (id: String)
    ensures
        id@ == request_id(ts, r),
{
    let mut id = String::from_str("chatcmpl-");
    let a = hex_u64(ts as u64);
    append(&mut id, a.as_str());
    let b = hex_u64(r);
    append(&mut id, b.as_str());
    id
}

/// An ID for a request, made of the time and a random number.
pub fn make_request_id(ts: i64) -> (id: String)
    ensures
        exists|r: u64| id@ == #[trigger] request_id(ts, r),
{
    let r: u64 = random_u64();
    request_id_of(ts, r)
}

// ── Requests ─────────────────────────────────────────────────────────────

/// The number of bytes within which the head of a request has to end.
pub const HEAD_LIMIT: usize = 65536;

/// Why a request cannot be read.
#[derive(Debug)]
pub enum HttpError {
    /// The head does not end within the limit.
    TooLarge,
    /// The connection closed within the head.
    Incomplete,
    /// The size of a chunk is not a hexadecimal number.
    BadChunkSize,
    /// A length in the request is larger than memory.
    LengthOverflow,
    /// There is no request line.
    Empty,
    /// A line of the head is not UTF-8.
    NotUtf8,
    /// The request line has fewer than three parts.
    Malformed(String),
}

pub enum HttpErrorView {
    TooLarge,
    Incomplete,
    BadChunkSize,
    LengthOverflow,
    Empty,
    NotUtf8,
    Malformed(Seq<char>),
}

impl View for HttpError {
    type V = HttpErrorView;

    open spec fn view(&self) -> HttpErrorView {
        match *self {
            HttpError::TooLarge => HttpErrorView::TooLarge,
            HttpError::Incomplete => HttpErrorView::Incomplete,
            HttpError::BadChunkSize => HttpErrorView::BadChunkSize,
            HttpError::LengthOverflow => HttpErrorView::LengthOverflow,
            HttpError::Empty => HttpErrorView::Empty,
            HttpError::NotUtf8 => HttpErrorView::NotUtf8,
            HttpError::Malformed(s) => HttpErrorView::Malformed(s@),
        }
    }
}

impl HttpErrorView {
    pub open spec fn text(self) -> Seq<char> {
        match self {
            HttpErrorView::TooLarge => "Request too large"@,
            HttpErrorView::Incomplete => "Failed to parse HTTP request"@,
            HttpErrorView::BadChunkSize => "Invalid chunk size"@,
            HttpErrorView::LengthOverflow => "Invalid length"@,
            HttpErrorView::Empty => "Empty request"@,
            HttpErrorView::NotUtf8 => "stream did not contain valid UTF-8"@,
            HttpErrorView::Malformed(s) => "Malformed request line: "@ + s,
        }
    }
}

impl HttpError {
    pub fn message(&self) -> (r: String)
        ensures
            r@ == self@.text(),
    {
        match self {
            HttpError::TooLarge => String::from_str("Request too large"),
            HttpError::Incomplete => String::from_str("Failed to parse HTTP request"),
            HttpError::BadChunkSize => String::from_str("Invalid chunk size"),
            HttpError::LengthOverflow => String::from_str("Invalid length"),
            HttpError::Empty => String::from_str("Empty request"),
            HttpError::NotUtf8 => String::from_str("stream did not contain valid UTF-8"),
            HttpError::Malformed(s) => {
                let mut r = String::from_str("Malformed request line: ");
                append(&mut r, s.as_str());
                r
            },
        }
    }
}

/// A header of a request. Of two with the same name, the later one counts.
#[derive(Debug)]
pub struct Header {
    pub name: String,
    pub value: String,
}

/// A request.
#[derive(Debug)]
pub struct HttpRequest {
    pub method: String,
    pub path: String,
    pub version: String,
    pub headers: Vec<Header>,
    pub body: String,
}

#[verifier::ext_equal]
pub struct HttpRequestView {
    pub method: Seq<char>,
    pub path: Seq<char>,
    pub version: Seq<char>,
    pub headers: Map<Seq<char>, Seq<char>>,
    pub body: Seq<char>,
}

/// The first `n` headers by their names.
pub open spec fn headers_view(h: Seq<Header>, n: nat) -> Map<Seq<char>, Seq<char>>
    decreases n,
{
    if n == 0 {
        Map::empty()
    } else {
        headers_view(h, (n - 1) as nat).insert(h[n - 1].name@, h[n - 1].value@)
    }
}

impl View for HttpRequest {
    type V = HttpRequestView;

    open spec fn view(&self) -> HttpRequestView {
        HttpRequestView {
            method: self.method@,
            path: self.path@,
            version: self.version@,
            headers: headers_view(self.headers@, self.headers@.len()),
            body: self.body@,
        }
    }
}

/// The end of the line that starts at `i`: the next newline, or the end.
pub open spec fn line_end(b: Seq<u8>, i: int) -> int {
    match find_from(b, seq![10u8], i) {
        Some(k) => k,
        None => b.len() as int,
    }
}

/// The name and the value of a header line: what stands before and behind the first
/// colon.
pub open spec fn header_of(line: Seq<char>) -> Option<(Seq<char>, Seq<char>)> {
    match find(line, ":"@) {
        Some(c) => Some(
            (
                lowercase(trimmed(line.subrange(0, c))),
                trimmed(line.subrange(c + 1, line.len() as int)),
            ),
        ),
        None => None,
    }
}

/// The headers from `i` on, up to a blank line, added to `acc`.
pub open spec fn fields(
    b: Seq<u8>,
    i: int,
    acc: Map<Seq<char>, Seq<char>>,
) -> Result<Map<Seq<char>, Seq<char>>, HttpErrorView>
    decreases b.len() + 1 - i,
{
    if i < 0 || i >= b.len() {
        Ok(acc)
    } else {
        let e = line_end(b, i);
        let bytes = b.subrange(i, e);
        if !valid_utf8(bytes) {
            Err(HttpErrorView::NotUtf8)
        } else {
            let line = trimmed(decode_utf8(bytes));
            if line.len() == 0 || !(i <= e <= b.len()) {
                Ok(acc)
            } else {
                fields(
                    b,
                    e + 1,
                    match header_of(line) {
                        Some((k, v)) => acc.insert(k, v),
                        None => acc,
                    },
                )
            }
        }
    }
}

/// The request whose head is `b` and whose body is `body`.
pub open spec fn request_in(b: Seq<u8>, body: Seq<u8>) -> Result<HttpRequestView, HttpErrorView> {
    let e = line_end(b, 0);
    let bytes = b.subrange(0, e);
    if b.len() == 0 {
        Err(HttpErrorView::Empty)
    } else if !valid_utf8(bytes) {
        Err(HttpErrorView::NotUtf8)
    } else {
        let line = trimmed(decode_utf8(bytes));
        match find(line, " "@) {
            None => Err(HttpErrorView::Malformed(line)),
            Some(p) => match find_from(line, " "@, p + 1) {
                None => Err(HttpErrorView::Malformed(line)),
                Some(q) => match fields(b, e + 1, Map::empty()) {
                    Err(x) => Err(x),
                    Ok(headers) => Ok(
                        HttpRequestView {
                            method: line.subrange(0, p),
                            path: line.subrange(p + 1, q),
                            version: line.subrange(q + 1, line.len() as int),
                            headers,
                            body: lossy_utf8(body),
                        },
                    ),
                },
            },
        }
    }
}

/// The bytes from `from` up to `to`.
fn copy_bytes(b: &Vec<u8>, from: usize, to: usize) -> (r: Vec<u8>)
    requires
        from <= to <= b@.len(),
    ensures
        r@ == b@.subrange(from as int, to as int),
{
    let mut r: Vec<u8> = Vec::new();
    r.extend_from_slice(slice_subrange(b.as_slice(), from, to));
    assert(r@ =~= b@.subrange(from as int, to as int));
    r
}

fn find_line_end(b: &Vec<u8>, i: usize) -> (r: usize)
    requires
        i <= b@.len(),
    ensures
        r == line_end(b@, i as int),
        i <= r <= b@.len(),
{
    let newline: [u8; 1] = [10];
    assert(newline@ =~= seq![10u8]);
    match find_bytes(b.as_slice(), &newline, i) {
        Some(k) => k,
        None => b.len(),
    }
}

/// The name and the value of a header line.
fn split_header(line: &str) -> (r: Option<(String, String)>)
    ensures
        match r {
            Some(h) => header_of(line@) == Some((h.0@, h.1@)),
            None => header_of(line@) is None,
        },
{
    let chars = chars_of(line);
    let n: usize = chars.len();
    let colon = chars_of(":");
    proof {
        reveal_strlit(":");
    }
    match find_chars(&chars, &colon, 0) {
        Some(c) => {
            let before = string_of(&chars, 0, c);
            let behind = string_of(&chars, c + 1, n);
            let key = trim(before.as_str());
            Some((to_lowercase(key.as_str()), trim(behind.as_str())))
        },
        None => None,
    }
}

fn read_fields(b: &Vec<u8>, start: usize) -> (r: Result<Vec<Header>, HttpError>)
    ensures
        match r {
            Ok(h) => fields(b@, start as int, Map::empty()) == Ok::<
                Map<Seq<char>, Seq<char>>,
                HttpErrorView,
            >(headers_view(h@, h@.len())),
            Err(e) => fields(b@, start as int, Map::empty()) == Err::<
                Map<Seq<char>, Seq<char>>,
                HttpErrorView,
            >(e@),
        },
{
    let n: usize = b.len();
    let mut headers: Vec<Header> = Vec::new();
    let mut i: usize = start;
    while i < n
        invariant
            n == b@.len(),
            fields(b@, start as int, Map::empty()) == fields(
                b@,
                i as int,
                headers_view(headers@, headers@.len()),
            ),
        decreases n - i,
    {
        let e: usize = find_line_end(b, i);
        let line = match utf8_string(copy_bytes(b, i, e)) {
            Some(s) => trim(s.as_str()),
            None => {
                return Err(HttpError::NotUtf8);
            },
        };
        if is_empty_text(line.as_str()) {
            return Ok(headers);
        }
        match split_header(line.as_str()) {
            Some((name, value)) => {
                let ghost before = headers@;
                headers.push(Header { name, value });
                proof {
                    lemma_headers_prefix(before, headers@, before.len());
                }
            },
            None => {},
        }
        if e == n {
            proof {
                assert(fields(b@, e + 1, headers_view(headers@, headers@.len())) == Ok::<
                    Map<Seq<char>, Seq<char>>,
                    HttpErrorView,
                >(headers_view(headers@, headers@.len())));
            }
            return Ok(headers);
        }
        i = e + 1;
    }
    Ok(headers)
}

proof fn lemma_headers_prefix(a: Seq<Header>, b: Seq<Header>, n: nat)
    requires
        n <= a.len(),
        n <= b.len(),
        forall|i: int| 0 <= i < n ==> a[i] == b[i],
    ensures
        headers_view(a, n) == headers_view(b, n),
    decreases n,
{
    if n > 0 {
        lemma_headers_prefix(a, b, (n - 1) as nat);
        assert(a[n - 1] == b[n - 1]);
    }
}

/// The request with the given head and body.
pub fn parse_http_request(head: &Vec<u8>, body: &Vec<u8>) -> (r: Result<HttpRequest, HttpError>)
    ensures
        match r {
            Ok(q) => request_in(head@, body@) == Ok::<HttpRequestView, HttpErrorView>(q@),
            Err(e) => request_in(head@, body@) == Err::<HttpRequestView, HttpErrorView>(e@),
        },
{
    if head.len() == 0 {
        return Err(HttpError::Empty);
    }
    let n: usize = head.len();
    let e: usize = find_line_end(head, 0);
    let line = match utf8_string(copy_bytes(head, 0, e)) {
        Some(s) => trim(s.as_str()),
        None => {
            return Err(HttpError::NotUtf8);
        },
    };
    let chars = chars_of(line.as_str());
    let len: usize = chars.len();
    let space = chars_of(" ");
    proof {
        reveal_strlit(" ");
    }
    let p: usize = match find_chars(&chars, &space, 0) {
        Some(p) => p,
        None => {
            return Err(HttpError::Malformed(line));
        },
    };
    let q: usize = match find_chars(&chars, &space, p + 1) {
        Some(q) => q,
        None => {
            return Err(HttpError::Malformed(line));
        },
    };
    let headers = if e < n {
        match read_fields(head, e + 1) {
            Ok(h) => h,
            Err(x) => {
                return Err(x);
            },
        }
    } else {
        proof {
            assert(fields(head@, e + 1, Map::empty()) == Ok::<
                Map<Seq<char>, Seq<char>>,
                HttpErrorView,
            >(Map::empty()));
        }
        Vec::new()
    };
    Ok(
        HttpRequest {
            method: string_of(&chars, 0, p),
            path: string_of(&chars, p + 1, q),
            version: string_of(&chars, q + 1, len),
            headers,
            body: from_utf8_lossy(body.as_slice()),
        },
    )
}

// ── Reading from a connection ────────────────────────────────────────────

pub open spec fn crlf() -> Seq<u8> {
    seq![13u8, 10u8]
}

/// The end of a head: an empty line.
pub open spec fn blank_line() -> Seq<u8> {
    seq![13u8, 10u8, 13u8, 10u8]
}

/// What the head says of the body: its length, and whether it comes in chunks.
pub struct BodyPlan {
    pub len: int,
    pub chunked: bool,
}

/// The plan behind one more line of the head.
pub open spec fn plan_line(line: Seq<char>, plan: BodyPlan) -> BodyPlan {
    match header_of(line) {
        Some((k, v)) => BodyPlan {
            len: if k == "content-length"@ {
                match at_most(natural(v, 10), usize::MAX as int) {
                    Some(n) => n,
                    None => 0,
                }
            } else {
                plan.len
            },
            chunked: plan.chunked || (k == "transfer-encoding"@ && find(
                lowercase(v),
                "chunked"@,
            ) is Some),
        },
        None => plan,
    }
}

/// The plan behind the lines of `text` from `i` on.
pub open spec fn plan_from(text: Seq<char>, i: int, plan: BodyPlan) -> BodyPlan
    decreases text.len() - i,
{
    match find_from(text, "\n"@, i) {
        Some(e) => if 0 <= i <= e < text.len() {
            plan_from(text, e + 1, plan_line(text.subrange(i, e), plan))
        } else {
            plan
        },
        None => plan_line(text.subrange(i, text.len() as int), plan),
    }
}

/// What a head says of the body.
pub open spec fn body_plan(text: Seq<char>) -> BodyPlan {
    plan_from(text, 0, BodyPlan { len: 0, chunked: false })
}

/// What became of a body in chunks.
pub enum ChunkView {
    /// More has to be read behind what is left.
    More(Seq<u8>),
    /// The last chunk has come; what stands behind it is left.
    Done(Seq<u8>),
    Failed(HttpErrorView),
}

/// What is left behind the last chunk: the trailers.
pub open spec fn trailers(b: Seq<u8>) -> Seq<u8> {
    match find(b, blank_line()) {
        Some(k) => b.subrange(0, k),
        None => if b.len() >= 2 {
            b.subrange(2, b.len() as int)
        } else {
            b
        },
    }
}

/// Passes over the chunks in `b`.
pub open spec fn chunks(b: Seq<u8>) -> ChunkView
    decreases b.len(),
{
    let n = b.len() as int;
    match find(b, crlf()) {
        None => ChunkView::More(b),
        Some(c) => if !(0 <= c && c + 2 <= n) {
            ChunkView::More(b)
        } else if !valid_utf8(b.subrange(0, c)) {
            ChunkView::Failed(HttpErrorView::BadChunkSize)
        } else {
            let size = trimmed(decode_utf8(b.subrange(0, c)));
            if size.len() == 0 {
                chunks(b.subrange(c + 2, n))
            } else {
                match at_most(natural(size, 16), usize::MAX as int) {
                    None => ChunkView::Failed(HttpErrorView::BadChunkSize),
                    Some(k) => if k == 0 {
                        ChunkView::Done(trailers(b.subrange(c + 2, n)))
                    } else if c + 2 + k + 2 > usize::MAX {
                        ChunkView::Failed(HttpErrorView::LengthOverflow)
                    } else if n >= c + 2 + k + 2 && k > 0 {
                        chunks(b.subrange(c + 2 + k + 2, n))
                    } else {
                        ChunkView::More(b)
                    },
                }
            }
        },
    }
}

/// How far the reading of a request has come.
pub enum PhaseView {
    /// In the head.
    Head,
    /// In a body that ends at a known place of the buffer.
    Sized { head_end: int, body_end: int },
    /// In a body of chunks, of which these bytes are left.
    Chunked { body: Seq<u8> },
}

#[verifier::ext_equal]
pub struct ReaderView {
    pub buf: Seq<u8>,
    pub phase: PhaseView,
}

/// What is to be done after bytes have come.
pub enum ReadStepView {
    More,
    Done(HttpRequestView),
    Failed(HttpErrorView),
}

pub open spec fn finished(head: Seq<u8>, body: Seq<u8>) -> ReadStepView {
    match request_in(head, body) {
        Ok(q) => ReadStepView::Done(q),
        Err(e) => ReadStepView::Failed(e),
    }
}

/// The step in a body of chunks with the head `head`.
pub open spec fn chunked_step(head: Seq<u8>, body: Seq<u8>) -> (ReaderView, ReadStepView) {
    match chunks(body) {
        ChunkView::More(rest) => (
            ReaderView { buf: head, phase: PhaseView::Chunked { body: rest } },
            ReadStepView::More,
        ),
        ChunkView::Done(rest) => (
            ReaderView { buf: head, phase: PhaseView::Chunked { body: rest } },
            finished(head, rest),
        ),
        ChunkView::Failed(e) => (
            ReaderView { buf: head, phase: PhaseView::Chunked { body } },
            ReadStepView::Failed(e),
        ),
    }
}

/// The step in a body that ends at a known place.
pub open spec fn sized_step(buf: Seq<u8>, head_end: int, body_end: int) -> (
    ReaderView,
    ReadStepView,
) {
    (
        ReaderView { buf, phase: PhaseView::Sized { head_end, body_end } },
        if buf.len() < body_end {
            ReadStepView::More
        } else {
            finished(buf.subrange(0, head_end), buf.subrange(head_end, body_end))
        },
    )
}

/// The step after the bytes `data` have come.
pub open spec fn after_data(st: ReaderView, data: Seq<u8>) -> (ReaderView, ReadStepView) {
    match st.phase {
        PhaseView::Chunked { body } => chunked_step(st.buf, body + data),
        PhaseView::Sized { head_end, body_end } => sized_step(st.buf + data, head_end, body_end),
        PhaseView::Head => {
            let buf = st.buf + data;
            match find(buf, blank_line()) {
                None => (
                    ReaderView { buf, phase: PhaseView::Head },
                    if buf.len() >= HEAD_LIMIT {
                        ReadStepView::Failed(HttpErrorView::TooLarge)
                    } else {
                        ReadStepView::More
                    },
                ),
                Some(pos) => {
                    let plan = body_plan(lossy_utf8(buf.subrange(0, pos)));
                    let head_end = pos + 4;
                    if plan.chunked {
                        chunked_step(
                            buf.subrange(0, head_end),
                            buf.subrange(head_end, buf.len() as int),
                        )
                    } else if plan.len > 0 && head_end + plan.len > usize::MAX {
                        (
                            ReaderView { buf, phase: PhaseView::Head },
                            ReadStepView::Failed(HttpErrorView::LengthOverflow),
                        )
                    } else if plan.len > 0 {
                        sized_step(buf, head_end, head_end + plan.len)
                    } else {
                        (
                            ReaderView { buf, phase: PhaseView::Head },
                            finished(buf, Seq::empty()),
                        )
                    }
                },
            }
        },
    }
}

/// The step after the connection has closed.
pub open spec fn after_end(st: ReaderView) -> ReadStepView {
    match st.phase {
        PhaseView::Head => ReadStepView::Failed(HttpErrorView::Incomplete),
        PhaseView::Chunked { body } => finished(st.buf, body),
        PhaseView::Sized { head_end, body_end } => finished(
            st.buf.subrange(0, head_end),
            st.buf.subrange(
                head_end,
                if body_end < st.buf.len() {
                    body_end
                } else {
                    st.buf.len() as int
                },
            ),
        ),
    }
}

impl ReaderView {
    /// A body that ends at a known place starts within what has been read.
    pub open spec fn wf(self) -> bool {
        self.phase matches PhaseView::Sized { head_end, body_end } ==> 0 <= head_end <= body_end
            && head_end <= self.buf.len()
    }
}

/// How far the reading of a request has come.
#[derive(Debug)]
pub enum Phase {
    Head,
    Sized { head_end: usize, body_end: usize },
    Chunked { body: Vec<u8> },
}

/// Reads a request from a connection as its bytes come in.
#[derive(Debug)]
pub struct HttpReader {
    pub buf: Vec<u8>,
    pub phase: Phase,
}

impl View for HttpReader {
    type V = ReaderView;

    open spec fn view(&self) -> ReaderView {
        ReaderView {
            buf: self.buf@,
            phase: match self.phase {
                Phase::Head => PhaseView::Head,
                Phase::Sized { head_end, body_end } => PhaseView::Sized {
                    head_end: head_end as int,
                    body_end: body_end as int,
                },
                Phase::Chunked { body } => PhaseView::Chunked { body: body@ },
            },
        }
    }
}

/// What is to be done after bytes have come.
#[derive(Debug)]
pub enum ReadStep {
    /// More has to be read.
    More,
    Done(HttpRequest),
    Failed(HttpError),
}

impl View for ReadStep {
    type V = ReadStepView;

    open spec fn view(&self) -> ReadStepView {
        match *self {
            ReadStep::More => ReadStepView::More,
            ReadStep::Done(q) => ReadStepView::Done(q@),
            ReadStep::Failed(e) => ReadStepView::Failed(e@),
        }
    }
}

fn finish(head: &Vec<u8>, body: &Vec<u8>) -> (r: ReadStep)
    ensures
        r@ == finished(head@, body@),
{
    match parse_http_request(head, body) {
        Ok(q) => ReadStep::Done(q),
        Err(e) => ReadStep::Failed(e),
    }
}

/// The plan behind one more line of the head.
fn apply_line(line: &str, len: usize, chunked: bool) -> (r: (usize, bool))
    ensures
        ({
            let p = plan_line(line@, BodyPlan { len: len as int, chunked });
            r.0 == p.len && r.1 == p.chunked
        }),
{
    match split_header(line) {
        Some((key, value)) => {
            let new_len: usize = if same_text(key.as_str(), "content-length") {
                match parse_natural(value.as_str(), 10, usize::MAX as u64) {
                    Some(n) => n as usize,
                    None => 0,
                }
            } else {
                len
            };
            let mut is_chunked = chunked;
            if same_text(key.as_str(), "transfer-encoding") {
                let lower = to_lowercase(value.as_str());
                let hay = chars_of(lower.as_str());
                let word = chars_of("chunked");
                if find_chars(&hay, &word, 0).is_some() {
                    is_chunked = true;
                }
            }
            (new_len, is_chunked)
        },
        None => (len, chunked),
    }
}

/// What a head says of the body: its length, and whether it comes in chunks.
pub fn read_body_plan(text: &str) -> (r: (usize, bool))
    ensures
        r.0 == body_plan(text@).len,
        r.1 == body_plan(text@).chunked,
{
    let chars = chars_of(text);
    let n: usize = chars.len();
    let newline = chars_of("\n");
    proof {
        reveal_strlit("\n");
    }
    let mut len: usize = 0;
    let mut chunked = false;
    let mut i: usize = 0;
    loop
        invariant
            i <= n == chars@.len(),
            chars@ == text@,
            newline@ == "\n"@,
            newline@.len() == 1,
            body_plan(text@) == plan_from(
                text@,
                i as int,
                BodyPlan { len: len as int, chunked },
            ),
        decreases n - i,
    {
        match find_chars(&chars, &newline, i) {
            Some(e) => {
                let line = string_of(&chars, i, e);
                let (l, c) = apply_line(line.as_str(), len, chunked);
                len = l;
                chunked = c;
                i = e + 1;
            },
            None => {
                let line = string_of(&chars, i, n);
                return apply_line(line.as_str(), len, chunked);
            },
        }
    }
}

enum ChunkStep {
    More(Vec<u8>),
    Done(Vec<u8>),
    Failed(HttpError),
}

impl ChunkStep {
    spec fn view(self) -> ChunkView {
        match self {
            ChunkStep::More(b) => ChunkView::More(b@),
            ChunkStep::Done(b) => ChunkView::Done(b@),
            ChunkStep::Failed(e) => ChunkView::Failed(e@),
        }
    }
}

fn skip_trailers(b: &Vec<u8>) -> (r: Vec<u8>)
    ensures
        r@ == trailers(b@),
{
    let n: usize = b.len();
    let blank: [u8; 4] = [13, 10, 13, 10];
    assert(blank@ =~= blank_line());
    match find_bytes(b.as_slice(), &blank, 0) {
        Some(k) => copy_bytes(b, 0, k),
        None => {
            if n >= 2 {
                copy_bytes(b, 2, n)
            } else {
                copy_bytes(b, 0, n)
            }
        },
    }
}

/// Passes over the chunks in `body`.
fn pass_chunks(body: Vec<u8>) -> (r: ChunkStep)
    ensures
        r.view() == chunks(body@),
    decreases body@.len(),
{
    let n: usize = body.len();
    let end: [u8; 2] = [13, 10];
    assert(end@ =~= crlf());
    let c: usize = match find_bytes(body.as_slice(), &end, 0) {
        Some(c) => c,
        None => {
            return ChunkStep::More(body);
        },
    };
    let size = match utf8_string(copy_bytes(&body, 0, c)) {
        Some(s) => trim(s.as_str()),
        None => {
            return ChunkStep::Failed(HttpError::BadChunkSize);
        },
    };
    if is_empty_text(size.as_str()) {
        return pass_chunks(copy_bytes(&body, c + 2, n));
    }
    match parse_natural(size.as_str(), 16, usize::MAX as u64) {
        None => ChunkStep::Failed(HttpError::BadChunkSize),
        Some(k) => {
            let k: usize = k as usize;
            if k == 0 {
                let rest = copy_bytes(&body, c + 2, n);
                return ChunkStep::Done(skip_trailers(&rest));
            }
            if k > usize::MAX - c - 2 || k + c + 2 > usize::MAX - 2 {
                return ChunkStep::Failed(HttpError::LengthOverflow);
            }
            let next: usize = c + 2 + k + 2;
            if n >= next {
                pass_chunks(copy_bytes(&body, next, n))
            } else {
                ChunkStep::More(body)
            }
        },
    }
}

impl HttpReader {
    pub fn new() -> (r: Self)
        ensures
            r@ == (ReaderView { buf: Seq::empty(), phase: PhaseView::Head }),
            r@.wf(),
    {
        HttpReader { buf: Vec::new(), phase: Phase::Head }
    }

    /// Goes on in a body of chunks.
    fn continue_chunked(&mut self, body: Vec<u8>) -> (r: ReadStep)
        ensures
            (final(self)@, r@) == chunked_step(old(self)@.buf, body@),
    {
        let kept = copy_bytes(&body, 0, body.len());
        assert(kept@ =~= body@);
        match pass_chunks(body) {
            ChunkStep::More(rest) => {
                self.phase = Phase::Chunked { body: rest };
                ReadStep::More
            },
            ChunkStep::Done(rest) => {
                let step = finish(&self.buf, &rest);
                self.phase = Phase::Chunked { body: rest };
                step
            },
            ChunkStep::Failed(e) => {
                self.phase = Phase::Chunked { body: kept };
                ReadStep::Failed(e)
            },
        }
    }

    /// Goes on in a body that ends at a known place.
    fn continue_sized(&mut self, head_end: usize, body_end: usize) -> (r: ReadStep)
        requires
            head_end <= body_end,
            head_end <= old(self).buf@.len(),
        ensures
            (final(self)@, r@) == sized_step(old(self)@.buf, head_end as int, body_end as int),
    {
        self.phase = Phase::Sized { head_end, body_end };
        if self.buf.len() < body_end {
            return ReadStep::More;
        }
        let head = copy_bytes(&self.buf, 0, head_end);
        let body = copy_bytes(&self.buf, head_end, body_end);
        finish(&head, &body)
    }

    /// Takes in bytes that have come.
    pub fn received(&mut self, data: &[u8]) -> (r: ReadStep)
        requires
            old(self)@.wf(),
        ensures
            (final(self)@, r@) == after_data(old(self)@, data@),
            r is More ==> final(self)@.wf(),
    {
        let mut phase = Phase::Head;
        std::mem::swap(&mut phase, &mut self.phase);
        let ghost before = old(self)@;
        match phase {
            Phase::Chunked { body } => {
                let mut all = body;
                all.extend_from_slice(data);
                assert(before.phase == PhaseView::Chunked { body: body@ });
                assert(all@ =~= body@ + data@);
                self.continue_chunked(all)
            },
            Phase::Sized { head_end, body_end } => {
                self.buf.extend_from_slice(data);
                assert(self.buf@ =~= before.buf + data@);
                self.continue_sized(head_end, body_end)
            },
            Phase::Head => {
                self.buf.extend_from_slice(data);
                assert(self.buf@ =~= before.buf + data@);
                let n: usize = self.buf.len();
                let blank: [u8; 4] = [13, 10, 13, 10];
                assert(blank@ =~= blank_line());
                match find_bytes(self.buf.as_slice(), &blank, 0) {
                    None => {
                        if n >= HEAD_LIMIT {
                            ReadStep::Failed(HttpError::TooLarge)
                        } else {
                            ReadStep::More
                        }
                    },
                    Some(pos) => {
                        let head_text = from_utf8_lossy(
                            slice_subrange(self.buf.as_slice(), 0, pos),
                        );
                        let (len, chunked) = read_body_plan(head_text.as_str());
                        let head_end: usize = pos + 4;
                        if chunked {
                            let body = copy_bytes(&self.buf, head_end, n);
                            let head = copy_bytes(&self.buf, 0, head_end);
                            self.buf = head;
                            self.continue_chunked(body)
                        } else if len > 0 {
                            if len > usize::MAX - head_end {
                                return ReadStep::Failed(HttpError::LengthOverflow);
                            }
                            self.continue_sized(head_end, head_end + len)
                        } else {
                            let none: Vec<u8> = Vec::new();
                            assert(none@ =~= Seq::<u8>::empty());
                            finish(&self.buf, &none)
                        }
                    },
                }
            },
        }
    }

    /// Takes note that the connection has closed.
    pub fn ended(&self) -> (r: ReadStep)
        requires
            self@.wf(),
        ensures
            r@ == after_end(self@),
    {
        match &self.phase {
            Phase::Head => ReadStep::Failed(HttpError::Incomplete),
            Phase::Chunked { body } => finish(&self.buf, body),
            Phase::Sized { head_end, body_end } => {
                let n: usize = self.buf.len();
                let end: usize = if *body_end < n {
                    *body_end
                } else {
                    n
                };
                let head = copy_bytes(&self.buf, 0, *head_end);
                let body = copy_bytes(&self.buf, *head_end, end);
                finish(&head, &body)
            },
        }
    }
}

// ── Arrival in pieces ────────────────────────────────────────────────────

/// What is found in the beginning of a text is found in the whole.
proof fn lemma_found_stays(a: Seq<u8>, b: Seq<u8>, pat: Seq<u8>)
    requires
        find(a, pat) is Some,
    ensures
        find(a + b, pat) == find(a, pat),
{
    lemma_find_from(a, pat, 0);
    lemma_find_from(a + b, pat, 0);
    let k = find(a, pat)->0;
    assert((a + b).subrange(k, k + pat.len()) =~= a.subrange(k, k + pat.len()));
    assert(matches_at(a + b, pat, k));
    assert forall|j: int| 0 <= j < k implies !matches_at(a + b, pat, j) by {
        if matches_at(a + b, pat, j) {
            assert((a + b).subrange(j, j + pat.len()) =~= a.subrange(j, j + pat.len()));
            assert(matches_at(a, pat, j));
        }
    }
}

proof fn lemma_chunks_go_on(b: Seq<u8>, d: Seq<u8>)
    requires
        chunks(b) is More,
    ensures
        chunks(b + d) == chunks(chunks(b)->More_0 + d),
    decreases b.len(),
{
    match find(b, crlf()) {
        None => {},
        Some(c) => {
            let n = b.len() as int;
            let m = (b + d).len() as int;
            lemma_find_from(b, crlf(), 0);
            lemma_found_stays(b, d, crlf());
            assert((b + d).subrange(0, c) =~= b.subrange(0, c));
            let size = trimmed(decode_utf8(b.subrange(0, c)));
            if size.len() == 0 {
                lemma_chunks_go_on(b.subrange(c + 2, n), d);
                assert((b + d).subrange(c + 2, m) =~= b.subrange(c + 2, n) + d);
            } else {
                match at_most(natural(size, 16), usize::MAX as int) {
                    None => {},
                    Some(k) => {
                        if k > 0 && n >= c + 2 + k + 2 {
                            lemma_chunks_go_on(b.subrange(c + 2 + k + 2, n), d);
                            assert((b + d).subrange(c + 2 + k + 2, m) =~= b.subrange(
                                c + 2 + k + 2,
                                n,
                            ) + d);
                        }
                    },
                }
            }
        },
    }
}

/// A request that arrives in two pieces is read as one that arrives at once: the second
/// piece leads to the same step, and to the same state where more has to come.
pub proof fn pieces_arrive_as_one(st: ReaderView, a: Seq<u8>, b: Seq<u8>)
    requires
        st.wf(),
        after_data(st, a).1 is More,
    ensures
        after_data(after_data(st, a).0, b).1 == after_data(st, a + b).1,
        after_data(st, a + b).1 is More ==> after_data(after_data(st, a).0, b).0 == after_data(
            st,
            a + b,
        ).0,
{
    match st.phase {
        PhaseView::Chunked { body } => {
            lemma_chunks_go_on(body + a, b);
            assert(body + (a + b) =~= (body + a) + b);
        },
        PhaseView::Sized { head_end, body_end } => {
            assert(st.buf + (a + b) =~= (st.buf + a) + b);
        },
        PhaseView::Head => {
            let buf = st.buf + a;
            assert(st.buf + (a + b) =~= buf + b);
            match find(buf, blank_line()) {
                None => {},
                Some(pos) => {
                    lemma_find_from(buf, blank_line(), 0);
                    lemma_found_stays(buf, b, blank_line());
                    assert((buf + b).subrange(0, pos) =~= buf.subrange(0, pos));
                    let plan = body_plan(lossy_utf8(buf.subrange(0, pos)));
                    if plan.chunked {
                        let rest = buf.subrange(pos + 4, buf.len() as int);
                        lemma_chunks_go_on(rest, b);
                        assert((buf + b).subrange(0, pos + 4) =~= buf.subrange(0, pos + 4));
                        assert((buf + b).subrange(pos + 4, (buf + b).len() as int) =~= rest + b);
                    }
                },
            }
        },
    }
}

} // verus!

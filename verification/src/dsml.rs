//! Tool calls in the model's markup: how they are written into a prompt and read from
//! what the model generated.
use vstd::prelude::*;

use crate::json::{
    json_parsed, json_text, json_wf, parse_json, Json, JsonObject, JsonView,
};
use crate::request::{call_views, ToolCallData, ToolCallView};
use crate::text::{append, char_match_at, chars_of, find, find_chars, find_from, hex, hex_u64};
use crate::text::{lemma_find_from, matches_at, same_text, string_of};

verus! {

// ── Escapes ──────────────────────────────────────────────────────────────

/// A character in a text, or in an attribute, where the quote is escaped too.
pub open spec fn escaped_char(c: char, attribute: bool) -> Seq<char> {
    if c == '&' {
        "&amp;"@
    } else if c == '<' {
        "&lt;"@
    } else if c == '>' {
        "&gt;"@
    } else if c == '"' && attribute {
        "&quot;"@
    } else {
        seq![c]
    }
}

/// The first `n` characters, escaped.
pub open spec fn escaped(s: Seq<char>, attribute: bool, n: nat) -> Seq<char>
    decreases n,
{
    if n == 0 {
        Seq::empty()
    } else {
        escaped(s, attribute, (n - 1) as nat) + escaped_char(s[n - 1], attribute)
    }
}

pub open spec fn escaped_text(s: Seq<char>) -> Seq<char> {
    escaped(s, false, s.len())
}

pub open spec fn escaped_attr(s: Seq<char>) -> Seq<char> {
    escaped(s, true, s.len())
}

/// The text from `i` on with each occurrence of `pat`, from left to right, replaced.
pub open spec fn replaced_from(s: Seq<char>, pat: Seq<char>, with: Seq<char>, i: int) -> Seq<char>
    decreases s.len() - i,
{
    match find_from(s, pat, i) {
        Some(k) => if i <= k && 0 < pat.len() && k + pat.len() <= s.len() {
            s.subrange(i, k) + with + replaced_from(s, pat, with, k + pat.len())
        } else {
            Seq::empty()
        },
        None => s.subrange(i, s.len() as int),
    }
}

pub open spec fn replaced(s: Seq<char>, pat: Seq<char>, with: Seq<char>) -> Seq<char> {
    replaced_from(s, pat, with, 0)
}

/// The entities replaced one after another: first the ampersand, so that what it leaves
/// behind is replaced again.
pub open spec fn unescaped(s: Seq<char>) -> Seq<char> {
    replaced(
        replaced(
            replaced(replaced(replaced(s, "&amp;"@, "&"@), "&lt;"@, "<"@), "&gt;"@, ">"@),
            "&quot;"@,
            "\""@,
        ),
        "&apos;"@,
        "'"@,
    )
}

fn escape(s: &str, attribute: bool) -> (r: String)
    ensures
        r@ == escaped(s@, attribute, s@.len()),
{
    let chars = chars_of(s);
    let mut out = String::new();
    let mut i: usize = 0;
    while i < chars.len()
        invariant
            i <= chars@.len(),
            chars@ == s@,
            out@ == escaped(s@, attribute, i as nat),
        decreases chars@.len() - i,
    {
        let c = chars[i];
        if c == '&' {
            append(&mut out, "&amp;");
        } else if c == '<' {
            append(&mut out, "&lt;");
        } else if c == '>' {
            append(&mut out, "&gt;");
        } else if c == '"' && attribute {
            append(&mut out, "&quot;");
        } else {
            out.push(c);
            assert(out@ =~= escaped(s@, attribute, i as nat) + seq![c]);
        }
        i = i + 1;
    }
    out
}

pub fn escape_dsml_text(s: &str) -> (r: String)
    ensures
        r@ == escaped_text(s@),
{
    escape(s, false)
}

pub fn escape_dsml_attr(s: &str) -> (r: String)
    ensures
        r@ == escaped_attr(s@),
{
    escape(s, true)
}

fn replace(s: &str, pat: &str, with: &str) -> (r: String)
    requires
        pat@.len() > 0,
    ensures
        r@ == replaced(s@, pat@, with@),
{
    let hay = chars_of(s);
    let p = chars_of(pat);
    let n: usize = hay.len();
    let mut out = String::new();
    let mut i: usize = 0;
    loop
        invariant
            i <= hay@.len() == n,
            hay@ == s@,
            p@ == pat@,
            pat@.len() > 0,
            out@ + replaced_from(s@, pat@, with@, i as int) == replaced(s@, pat@, with@),
        decreases hay@.len() - i,
    {
        let ghost before = out@;
        match find_chars(&hay, &p, i) {
            Some(k) => {
                let piece = string_of(&hay, i, k);
                append(&mut out, piece.as_str());
                append(&mut out, with);
                let ghost rest = replaced_from(s@, pat@, with@, k + pat@.len());
                assert(before + (s@.subrange(i as int, k as int) + with@ + rest) =~= out@ + rest);
                i = k + p.len();
            },
            None => {
                let piece = string_of(&hay, i, n);
                append(&mut out, piece.as_str());
                return out;
            },
        }
    }
}

pub fn unescape_dsml_text(s: &str) -> (r: String)
    ensures
        r@ == unescaped(s@),
{
    proof {
        reveal_strlit("&amp;");
        reveal_strlit("&lt;");
        reveal_strlit("&gt;");
        reveal_strlit("&quot;");
        reveal_strlit("&apos;");
    }
    let a = replace(s, "&amp;", "&");
    let b = replace(a.as_str(), "&lt;", "<");
    let c = replace(b.as_str(), "&gt;", ">");
    let d = replace(c.as_str(), "&quot;", "\"");
    replace(d.as_str(), "&apos;", "'")
}

// ── Writing calls ────────────────────────────────────────────────────────

/// The block of one call.
pub open spec fn call_block(c: ToolCallView) -> Seq<char> {
    "｜DSML｜invoke name=\""@ + escaped_attr(c.name) + "\">\n"@
        + "｜DSML｜parameter name=\"arguments\" string=\"false\">"@ + c.arguments
        + "｜DSML｜/parameter>\n"@ + "｜DSML｜/invoke>\n"@
}

/// The blocks of the first `n` calls.
pub open spec fn call_blocks(calls: Seq<ToolCallView>, n: nat) -> Seq<char>
    decreases n,
{
    if n == 0 {
        Seq::empty()
    } else {
        call_blocks(calls, (n - 1) as nat) + call_block(calls[n - 1])
    }
}

/// The calls of a turn, as they stand in a prompt.
pub open spec fn calls_text(calls: Seq<ToolCallView>) -> Seq<char> {
    if calls.len() == 0 {
        Seq::empty()
    } else {
        "\n\n｜DSML｜tool_calls>\n"@ + call_blocks(calls, calls.len()) + "｜DSML｜/tool_calls>"@
    }
}

pub fn format_tool_calls_dsml(calls: &Vec<ToolCallData>) -> (r: String)
    ensures
        r@ == calls_text(call_views(calls@)),
{
    let ghost views = call_views(calls@);
    let mut out = String::new();
    if calls.len() == 0 {
        return out;
    }
    append(&mut out, "\n\n｜DSML｜tool_calls>\n");
    let ghost head = "\n\n｜DSML｜tool_calls>\n"@;
    let mut i: usize = 0;
    assert(out@ =~= head + call_blocks(views, 0));
    while i < calls.len()
        invariant
            i <= calls@.len(),
            views == call_views(calls@),
            head == "\n\n｜DSML｜tool_calls>\n"@,
            out@ == head + call_blocks(views, i as nat),
        decreases calls@.len() - i,
    {
        assert(views[i as int] == calls@[i as int]@);
        let ghost before = out@;
        append(&mut out, "｜DSML｜invoke name=\"");
        let name = escape_dsml_attr(calls[i].name.as_str());
        append(&mut out, name.as_str());
        append(&mut out, "\">\n");
        append(&mut out, "｜DSML｜parameter name=\"arguments\" string=\"false\">");
        append(&mut out, calls[i].arguments.as_str());
        append(&mut out, "｜DSML｜/parameter>\n");
        append(&mut out, "｜DSML｜/invoke>\n");
        assert(out@ =~= before + call_block(views[i as int]));
        i = i + 1;
        assert(out@ =~= head + call_blocks(views, i as nat));
    }
    append(&mut out, "｜DSML｜/tool_calls>");
    out
}

// ── Reading calls ────────────────────────────────────────────────────────

/// The tags of one spelling of the markup.
pub struct Tags {
    pub calls_start: Seq<char>,
    pub calls_end: Seq<char>,
    pub invoke_start: Seq<char>,
    pub invoke_end: Seq<char>,
    pub param_start: Seq<char>,
    pub param_end: Seq<char>,
}

/// The spellings in the order in which they are tried.
pub open spec fn spelling(i: int) -> Tags {
    if i <= 0 {
        Tags {
            calls_start: "｜DSML｜tool_calls>"@,
            calls_end: "｜DSML｜/tool_calls>"@,
            invoke_start: "｜DSML｜invoke"@,
            invoke_end: "｜DSML｜/invoke>"@,
            param_start: "｜DSML｜parameter"@,
            param_end: "｜DSML｜/parameter>"@,
        }
    } else if i == 1 {
        Tags {
            calls_start: "<|DSML|tool_calls>"@,
            calls_end: "</|DSML|tool_calls>"@,
            invoke_start: "<|DSML|invoke"@,
            invoke_end: "</|DSML|invoke>"@,
            param_start: "<|DSML|parameter"@,
            param_end: "</|DSML|parameter>"@,
        }
    } else {
        Tags {
            calls_start: "<tool_calls>"@,
            calls_end: "</tool_calls>"@,
            invoke_start: "<invoke"@,
            invoke_end: "</invoke>"@,
            param_start: "<parameter"@,
            param_end: "</parameter>"@,
        }
    }
}

/// A parameter of a call as it stands in the text.
#[verifier::ext_equal]
pub struct ParamView {
    pub name: Seq<char>,
    pub value: Seq<char>,
    pub is_text: bool,
}

/// A call as it stands in the text.
#[verifier::ext_equal]
pub struct RawCallView {
    pub name: Seq<char>,
    pub params: Seq<ParamView>,
}

pub open spec fn ascii_white(c: char) -> bool {
    c == ' ' || c == '\t' || c == '\n' || c == '\r' || c == '\u{c}'
}

pub open spec fn skip_white(s: Seq<char>, i: int) -> int
    decreases s.len() - i,
{
    if 0 <= i < s.len() && ascii_white(s[i]) {
        skip_white(s, i + 1)
    } else {
        i
    }
}

/// The value of an attribute in a tag: what stands between the two quotes behind its name
/// and the equals sign.
pub open spec fn attr_value(tag: Seq<char>, name: Seq<char>) -> Option<Seq<char>> {
    let pat = name + "="@;
    match find(tag, pat) {
        Some(s) => match find_from(tag, "\""@, s + pat.len()) {
            Some(q) => match find_from(tag, "\""@, q + 1) {
                Some(e) => Some(tag.subrange(q + 1, e)),
                None => None,
            },
            None => None,
        },
        None => None,
    }
}

/// Whether a parameter's value is text: so unless the tag says otherwise.
pub open spec fn text_param(tag: Seq<char>) -> bool {
    match attr_value(tag, "string"@) {
        Some(v) => v == "true"@,
        None => true,
    }
}

pub open spec fn name_or_empty(v: Option<Seq<char>>) -> Seq<char> {
    match v {
        Some(s) => s,
        None => Seq::empty(),
    }
}

/// The end of a parameter's opening tag: behind the next `>`, or the end of the text.
pub open spec fn param_tag_end(body: Seq<char>, i: int) -> int {
    match find_from(body, ">"@, i) {
        Some(k) => k + 1,
        None => body.len() as int,
    }
}

/// The parameters from `pos` on, and the place behind the call.
pub open spec fn read_params(body: Seq<char>, t: Tags, pos: int) -> (Seq<ParamView>, int)
    decreases body.len() - pos,
{
    let p = skip_white(body, pos);
    if matches_at(body, t.invoke_end, p) {
        (Seq::empty(), p + t.invoke_end.len())
    } else if !matches_at(body, t.param_start, p) {
        (Seq::empty(), p)
    } else {
        let tag_end = param_tag_end(body, p + t.param_start.len());
        let tag = body.subrange(p, tag_end);
        match find_from(body, t.param_end, tag_end) {
            None => (Seq::empty(), tag_end),
            Some(e) => {
                let is_text = text_param(tag);
                let value = body.subrange(tag_end, e);
                let next = e + t.param_end.len();
                if pos < next <= body.len() {
                    let (rest, end) = read_params(body, t, next);
                    (
                        seq![
                            ParamView {
                                name: name_or_empty(attr_value(tag, "name"@)),
                                value: if is_text {
                                    unescaped(value)
                                } else {
                                    value
                                },
                                is_text,
                            },
                        ] + rest,
                        end,
                    )
                } else {
                    (Seq::empty(), tag_end)
                }
            },
        }
    }
}

/// The calls from `pos` on.
pub open spec fn read_calls(body: Seq<char>, t: Tags, pos: int) -> Seq<RawCallView>
    decreases body.len() - pos,
{
    let p = skip_white(body, pos);
    if !matches_at(body, t.invoke_start, p) {
        Seq::empty()
    } else {
        match find_from(body, ">"@, p + t.invoke_start.len()) {
            None => Seq::empty(),
            Some(k) => {
                let tag = body.subrange(p, k + 1);
                let (params, next) = read_params(body, t, k + 1);
                if pos < next <= body.len() {
                    seq![RawCallView { name: name_or_empty(attr_value(tag, "name"@)), params }]
                        + read_calls(body, t, next)
                } else {
                    Seq::empty()
                }
            },
        }
    }
}

/// The block of calls in a text in one spelling, where it is complete.
pub open spec fn calls_body(text: Seq<char>, t: Tags) -> Option<Seq<char>> {
    match find(text, t.calls_start) {
        Some(s) => match find_from(text, t.calls_end, s + t.calls_start.len()) {
            Some(e) => Some(text.subrange(s + t.calls_start.len(), e)),
            None => None,
        },
        None => None,
    }
}

/// The calls in a text: those of the first complete block in the spellings from number
/// `i` on.
pub open spec fn raw_calls_from(text: Seq<char>, i: int) -> Seq<RawCallView>
    decreases 3 - i,
{
    if i < 0 || i >= 3 {
        Seq::empty()
    } else {
        match calls_body(text, spelling(i)) {
            Some(body) => read_calls(body, spelling(i), 0),
            None => raw_calls_from(text, i + 1),
        }
    }
}

/// The calls in a text.
pub open spec fn raw_calls(text: Seq<char>) -> Seq<RawCallView> {
    raw_calls_from(text, 0)
}

/// The value of a parameter: text, or what the JSON text denotes, or text where it is no
/// JSON.
pub open spec fn param_value(p: ParamView) -> JsonView {
    if p.is_text {
        JsonView::Text(p.value)
    } else {
        match json_parsed(p.value) {
            Some(v) => v,
            None => JsonView::Text(p.value),
        }
    }
}

/// The first `n` parameters by their names.
pub open spec fn params_object(params: Seq<ParamView>, n: nat) -> Map<Seq<char>, JsonView>
    decreases n,
{
    if n == 0 {
        Map::empty()
    } else {
        params_object(params, (n - 1) as nat).insert(params[n - 1].name, param_value(params[n - 1]))
    }
}

/// The arguments of a call as JSON text.
pub open spec fn call_arguments(params: Seq<ParamView>) -> Seq<char> {
    if params.len() == 0 {
        "{}"@
    } else {
        json_text(JsonView::Object(params_object(params, params.len())))
    }
}

/// The call with an ID made of the number `r`.
pub open spec fn call_with_id(c: RawCallView, r: u64) -> ToolCallView {
    ToolCallView { id: "call_"@ + hex(r as nat), name: c.name, arguments: call_arguments(c.params) }
}

proof fn lemma_skip_white(s: Seq<char>, i: int)
    requires
        0 <= i <= s.len(),
    ensures
        i <= skip_white(s, i) <= s.len(),
    decreases s.len() - i,
{
    if i < s.len() && ascii_white(s[i]) {
        lemma_skip_white(s, i + 1);
    }
}

/// Whether all tags of a spelling have characters.
spec fn tags_wf(t: Tags) -> bool {
    t.calls_start.len() > 0 && t.calls_end.len() > 0 && t.invoke_start.len() > 0
        && t.invoke_end.len() > 0 && t.param_start.len() > 0 && t.param_end.len() > 0
}

proof fn lemma_spelling(i: int)
    ensures
        tags_wf(spelling(i)),
{
    reveal_strlit("｜DSML｜tool_calls>");
    reveal_strlit("｜DSML｜/tool_calls>");
    reveal_strlit("｜DSML｜invoke");
    reveal_strlit("｜DSML｜/invoke>");
    reveal_strlit("｜DSML｜parameter");
    reveal_strlit("｜DSML｜/parameter>");
    reveal_strlit("<|DSML|tool_calls>");
    reveal_strlit("</|DSML|tool_calls>");
    reveal_strlit("<|DSML|invoke");
    reveal_strlit("</|DSML|invoke>");
    reveal_strlit("<|DSML|parameter");
    reveal_strlit("</|DSML|parameter>");
    reveal_strlit("<tool_calls>");
    reveal_strlit("</tool_calls>");
    reveal_strlit("<invoke");
    reveal_strlit("</invoke>");
    reveal_strlit("<parameter");
    reveal_strlit("</parameter>");
}

/// The place behind the parameters lies behind where they start, and in the text.
proof fn lemma_read_params(body: Seq<char>, t: Tags, pos: int)
    requires
        0 <= pos <= body.len(),
        tags_wf(t),
    ensures
        pos <= read_params(body, t, pos).1 <= body.len(),
    decreases body.len() - pos,
{
    let p = skip_white(body, pos);
    lemma_skip_white(body, pos);
    if !matches_at(body, t.invoke_end, p) && matches_at(body, t.param_start, p) {
        let start = p + t.param_start.len();
        lemma_find_from(body, ">"@, start);
        reveal_strlit(">");
        let tag_end = param_tag_end(body, start);
        assert(p < tag_end <= body.len());
        lemma_find_from(body, t.param_end, tag_end);
        match find_from(body, t.param_end, tag_end) {
            Some(e) => {
                lemma_read_params(body, t, e + t.param_end.len());
            },
            None => {},
        }
    }
}

/// The tags of a spelling as characters.
struct TagChars {
    calls_start: Vec<char>,
    calls_end: Vec<char>,
    invoke_start: Vec<char>,
    invoke_end: Vec<char>,
    param_start: Vec<char>,
    param_end: Vec<char>,
}

impl TagChars {
    spec fn tags(self) -> Tags {
        Tags {
            calls_start: self.calls_start@,
            calls_end: self.calls_end@,
            invoke_start: self.invoke_start@,
            invoke_end: self.invoke_end@,
            param_start: self.param_start@,
            param_end: self.param_end@,
        }
    }

    fn new(i: usize) -> (r: Self)
        ensures
            r.tags() == spelling(i as int),
    {
        if i == 0 {
            TagChars {
                calls_start: chars_of("｜DSML｜tool_calls>"),
                calls_end: chars_of("｜DSML｜/tool_calls>"),
                invoke_start: chars_of("｜DSML｜invoke"),
                invoke_end: chars_of("｜DSML｜/invoke>"),
                param_start: chars_of("｜DSML｜parameter"),
                param_end: chars_of("｜DSML｜/parameter>"),
            }
        } else if i == 1 {
            TagChars {
                calls_start: chars_of("<|DSML|tool_calls>"),
                calls_end: chars_of("</|DSML|tool_calls>"),
                invoke_start: chars_of("<|DSML|invoke"),
                invoke_end: chars_of("</|DSML|invoke>"),
                param_start: chars_of("<|DSML|parameter"),
                param_end: chars_of("</|DSML|parameter>"),
            }
        } else {
            TagChars {
                calls_start: chars_of("<tool_calls>"),
                calls_end: chars_of("</tool_calls>"),
                invoke_start: chars_of("<invoke"),
                invoke_end: chars_of("</invoke>"),
                param_start: chars_of("<parameter"),
                param_end: chars_of("</parameter>"),
            }
        }
    }
}

/// A parameter of a call as it stands in the text.
#[derive(Debug)]
pub struct Param {
    pub name: String,
    pub value: String,
    pub is_text: bool,
}

impl View for Param {
    type V = ParamView;

    open spec fn view(&self) -> ParamView {
        ParamView { name: self.name@, value: self.value@, is_text: self.is_text }
    }
}

pub open spec fn param_views(s: Seq<Param>) -> Seq<ParamView> {
    Seq::new(s.len(), |i: int| s[i]@)
}

/// A call as it stands in the text.
#[derive(Debug)]
pub struct RawCall {
    pub name: String,
    pub params: Vec<Param>,
}

impl View for RawCall {
    type V = RawCallView;

    open spec fn view(&self) -> RawCallView {
        RawCallView { name: self.name@, params: param_views(self.params@) }
    }
}

pub open spec fn raw_call_views(s: Seq<RawCall>) -> Seq<RawCallView> {
    Seq::new(s.len(), |i: int| s[i]@)
}

fn find_white_end(s: &Vec<char>, i: usize) -> (r: usize)
    requires
        i <= s@.len(),
    ensures
        r == skip_white(s@, i as int),
        i <= r <= s@.len(),
{
    let mut p: usize = i;
    while p < s.len() && (s[p] == ' ' || s[p] == '\t' || s[p] == '\n' || s[p] == '\r' || s[p]
        == '\u{c}')
        invariant
            i <= p <= s@.len(),
            skip_white(s@, p as int) == skip_white(s@, i as int),
        decreases s@.len() - p,
    {
        p = p + 1;
    }
    p
}

/// The value of an attribute in a tag.
fn extract_attr_value(tag: &Vec<char>, name: &str) -> (r: Option<String>)
    ensures
        match r {
            Some(s) => attr_value(tag@, name@) == Some(s@),
            None => attr_value(tag@, name@) is None,
        },
{
    let n: usize = tag.len();
    let mut pattern = String::from_str(name);
    append(&mut pattern, "=");
    let pat = chars_of(pattern.as_str());
    let quote = chars_of("\"");
    proof {
        reveal_strlit("\"");
    }
    match find_chars(tag, &pat, 0) {
        Some(s) => {
            match find_chars(tag, &quote, s + pat.len()) {
                Some(q) => {
                    match find_chars(tag, &quote, q + 1) {
                        Some(e) => Some(string_of(tag, q + 1, e)),
                        None => None,
                    }
                },
                None => None,
            }
        },
        None => None,
    }
}

/// The characters from `from` up to `to`.
fn slice_chars(s: &Vec<char>, from: usize, to: usize) -> (r: Vec<char>)
    requires
        from <= to <= s@.len(),
    ensures
        r@ == s@.subrange(from as int, to as int),
{
    let t = string_of(s, from, to);
    chars_of(t.as_str())
}

fn scan_params(body: &Vec<char>, t: &TagChars, start: usize) -> (r: (Vec<Param>, usize))
    requires
        start <= body@.len(),
        tags_wf(t.tags()),
    ensures
        (param_views(r.0@), r.1 as int) == read_params(body@, t.tags(), start as int),
        start <= r.1 <= body@.len(),
{
    let n: usize = body.len();
    let gt = chars_of(">");
    let ghost tags = t.tags();
    proof {
        reveal_strlit(">");
        lemma_read_params(body@, tags, start as int);
    }
    let mut params: Vec<Param> = Vec::new();
    let mut pos: usize = start;
    assert(param_views(params@) =~= Seq::<ParamView>::empty());
    loop
        invariant
            start <= pos <= n == body@.len(),
            tags == t.tags(),
            tags_wf(tags),
            gt@ == ">"@,
            gt@.len() == 1,
            read_params(body@, tags, start as int) == (
                param_views(params@) + read_params(body@, tags, pos as int).0,
                read_params(body@, tags, pos as int).1,
            ),
        decreases n - pos,
    {
        let ghost done = param_views(params@);
        let p: usize = find_white_end(body, pos);
        if char_match_at(body, &t.invoke_end, p) {
            assert(done + Seq::<ParamView>::empty() =~= done);
            return (params, p + t.invoke_end.len());
        }
        if !char_match_at(body, &t.param_start, p) {
            assert(done + Seq::<ParamView>::empty() =~= done);
            return (params, p);
        }
        let tag_end: usize = match find_chars(body, &gt, p + t.param_start.len()) {
            Some(k) => k + 1,
            None => n,
        };
        let tag = slice_chars(body, p, tag_end);
        let name = match extract_attr_value(&tag, "name") {
            Some(v) => v,
            None => String::new(),
        };
        let is_text = match extract_attr_value(&tag, "string") {
            Some(v) => same_text(v.as_str(), "true"),
            None => true,
        };
        match find_chars(body, &t.param_end, tag_end) {
            Some(e) => {
                let raw = string_of(body, tag_end, e);
                let value = if is_text {
                    unescape_dsml_text(raw.as_str())
                } else {
                    raw
                };
                let param = Param { name, value, is_text };
                let ghost next = e + t.param_end@.len();
                let ghost rest = read_params(body@, tags, next).0;
                params.push(param);
                assert(param_views(params@) =~= done + seq![param@]);
                assert(done + (seq![param@] + rest) =~= param_views(params@) + rest);
                pos = e + t.param_end.len();
            },
            None => {
                assert(done + Seq::<ParamView>::empty() =~= done);
                return (params, tag_end);
            },
        }
    }
}

fn scan_calls(body: &Vec<char>, t: &TagChars) -> (r: Vec<RawCall>)
    requires
        tags_wf(t.tags()),
    ensures
        raw_call_views(r@) == read_calls(body@, t.tags(), 0),
{
    let n: usize = body.len();
    let gt = chars_of(">");
    let ghost tags = t.tags();
    proof {
        reveal_strlit(">");
    }
    let mut calls: Vec<RawCall> = Vec::new();
    let mut pos: usize = 0;
    assert(raw_call_views(calls@) =~= Seq::<RawCallView>::empty());
    loop
        invariant
            pos <= n == body@.len(),
            tags == t.tags(),
            tags_wf(tags),
            gt@ == ">"@,
            gt@.len() == 1,
            read_calls(body@, tags, 0) == raw_call_views(calls@) + read_calls(
                body@,
                tags,
                pos as int,
            ),
        decreases n - pos,
    {
        let ghost done = raw_call_views(calls@);
        let p: usize = find_white_end(body, pos);
        if !char_match_at(body, &t.invoke_start, p) {
            assert(done + Seq::<RawCallView>::empty() =~= done);
            return calls;
        }
        match find_chars(body, &gt, p + t.invoke_start.len()) {
            Some(k) => {
                let tag = slice_chars(body, p, k + 1);
                let name = match extract_attr_value(&tag, "name") {
                    Some(v) => v,
                    None => String::new(),
                };
                let (params, next) = scan_params(body, t, k + 1);
                let call = RawCall { name, params };
                let ghost rest = read_calls(body@, tags, next as int);
                calls.push(call);
                assert(raw_call_views(calls@) =~= done + seq![call@]);
                assert(done + (seq![call@] + rest) =~= raw_call_views(calls@) + rest);
                pos = next;
            },
            None => {
                assert(done + Seq::<RawCallView>::empty() =~= done);
                return calls;
            },
        }
    }
}

/// The calls in a text.
pub fn read_tool_calls(text: &str) -> (r: Vec<RawCall>)
    ensures
        raw_call_views(r@) == raw_calls(text@),
{
    let chars = chars_of(text);
    let n: usize = chars.len();
    let mut i: usize = 0;
    while i < 3
        invariant
            i <= 3,
            n == chars@.len(),
            chars@ == text@,
            raw_calls(text@) == raw_calls_from(text@, i as int),
        decreases 3 - i,
    {
        let t = TagChars::new(i);
        proof {
            lemma_spelling(i as int);
        }
        match find_chars(&chars, &t.calls_start, 0) {
            Some(s) => {
                let from: usize = s + t.calls_start.len();
                match find_chars(&chars, &t.calls_end, from) {
                    Some(e) => {
                        let body = slice_chars(&chars, from, e);
                        return scan_calls(&body, &t);
                    },
                    None => {},
                }
            },
            None => {},
        }
        i = i + 1;
    }
    let none: Vec<RawCall> = Vec::new();
    assert(raw_call_views(none@) =~= Seq::<RawCallView>::empty());
    none
}

/// The arguments of a call as JSON text.
fn build_arguments(params: &Vec<Param>) -> (r: String)
    ensures
        r@ == call_arguments(param_views(params@)),
{
    let ghost views = param_views(params@);
    if params.len() == 0 {
        return String::from_str("{}");
    }
    let mut object = JsonObject::new();
    let mut i: usize = 0;
    while i < params.len()
        invariant
            i <= params@.len(),
            views == param_views(params@),
            object@ == params_object(views, i as nat),
            json_wf(JsonView::Object(object@)),
        decreases params@.len() - i,
    {
        assert(views[i as int] == params@[i as int]@);
        let value = if params[i].is_text {
            Json::Text(params[i].value.clone())
        } else {
            match parse_json(params[i].value.as_str()) {
                Some(v) => v,
                None => Json::Text(params[i].value.clone()),
            }
        };
        object = object.with(params[i].name.as_str(), value);
        i = i + 1;
    }
    object.done().print()
}

/// The call with an ID made of the number `r`.
pub fn name_call(c: &RawCall, r: u64) -> (call: ToolCallData)
    ensures
        call@ == call_with_id(c@, r),
{
    let mut id = String::from_str("call_");
    let digits = hex_u64(r);
    append(&mut id, digits.as_str());
    ToolCallData { id, name: c.name.clone(), arguments: build_arguments(&c.params) }
}

/// Whether a call is the one in the text under some ID.
pub open spec fn names_call(call: ToolCallView, c: RawCallView) -> bool {
    exists|r: u64| call == #[trigger] call_with_id(c, r)
}

/// Calls `rand::random` for a `u64`. Any number may come back.
#[verifier::external_body]
pub(crate) fn random_u64() -> (r: u64) {
    rand::random::<u64>()
}

/// The calls in a generated text, each with an ID made of a random number.
pub fn parse_generated_tool_calls(text: &str) -> (calls: Vec<ToolCallData>)
    ensures
        calls@.len() == raw_calls(text@).len(),
        forall|i: int|
            0 <= i < calls@.len() ==> names_call((#[trigger] calls@[i])@, raw_calls(text@)[i]),
{
    let raw = read_tool_calls(text);
    let ghost views = raw_calls(text@);
    let mut calls: Vec<ToolCallData> = Vec::new();
    let mut i: usize = 0;
    while i < raw.len()
        invariant
            i <= raw@.len(),
            views == raw_calls(text@),
            raw_call_views(raw@) == views,
            calls@.len() == i,
            forall|k: int|
                0 <= k < i ==> names_call((#[trigger] calls@[k])@, views[k]),
        decreases raw@.len() - i,
    {
        assert(raw_call_views(raw@)[i as int] == raw@[i as int]@);
        let r: u64 = random_u64();
        calls.push(name_call(&raw[i], r));
        assert(calls@[i as int]@ == call_with_id(views[i as int], r));
        i = i + 1;
    }
    calls
}

} // verus!

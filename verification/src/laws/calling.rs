//! What the tool calls in a generated text are held to.
use vstd::prelude::*;

use crate::dsml::{
    attr_value, call_arguments, call_with_id, calls_body, escaped_attr, escaped_text, names_call,
    param_value, params_object, raw_calls, read_calls, read_params, replaced, replaced_from,
    spelling, text_param, unescaped, ParamView, RawCallView, Tags,
};
use crate::json::{json_parsed, json_text, JsonView};
use crate::readback::lemma_find_shift;
use crate::request::ToolCallView;
use crate::text::{find, find_from, hex, lemma_find_from, matches_at};

verus! {

/// Whether `i` is the last parameter with its name.
pub open spec fn last_of_name(params: Seq<ParamView>, i: int) -> bool {
    0 <= i < params.len() && forall|j: int|
        i < j < params.len() ==> (#[trigger] params[j]).name != params[i].name
}

/// The arguments of a call are a JSON object with a member for each parameter's name; of
/// two with the same name the later one counts. Without parameters the object is empty.
pub proof fn arguments_hold_parameters(params: Seq<ParamView>, i: int)
    ensures
        params.len() == 0 ==> call_arguments(params) == "{}"@,
        params.len() > 0 ==> call_arguments(params) == json_text(
            JsonView::Object(params_object(params, params.len())),
        ),
        last_of_name(params, i) ==> {
            let m = params_object(params, params.len());
            m.contains_key(params[i].name) && m[params[i].name] == param_value(params[i])
        },
        forall|k: Seq<char>| #[trigger]
            params_object(params, params.len()).contains_key(k) ==> exists|j: int|
                0 <= j < params.len() && (#[trigger] params[j]).name == k,
{
    if last_of_name(params, i) {
        lemma_member(params, params.len(), i);
    }
    assert forall|k: Seq<char>| #[trigger]
        params_object(params, params.len()).contains_key(k) implies exists|j: int|
        0 <= j < params.len() && (#[trigger] params[j]).name == k by {
        lemma_named(params, params.len(), k);
    }
}

proof fn lemma_member(params: Seq<ParamView>, n: nat, i: int)
    requires
        0 <= i < n <= params.len(),
        forall|j: int| i < j < n ==> (#[trigger] params[j]).name != params[i].name,
    ensures
        params_object(params, n).contains_key(params[i].name),
        params_object(params, n)[params[i].name] == param_value(params[i]),
    decreases n,
{
    if i < n - 1 {
        lemma_member(params, (n - 1) as nat, i);
        assert(params[n - 1].name != params[i].name);
    }
}

proof fn lemma_named(params: Seq<ParamView>, n: nat, k: Seq<char>)
    requires
        n <= params.len(),
        params_object(params, n).contains_key(k),
    ensures
        exists|j: int| 0 <= j < n && (#[trigger] params[j]).name == k,
    decreases n,
{
    if n > 0 {
        if params[n - 1].name != k {
            lemma_named(params, (n - 1) as nat, k);
        }
    }
}

/// A parameter that is text stands as it is; any other is the JSON that it denotes, and
/// text where it denotes none.
pub proof fn parameters_are_text_or_json(name: Seq<char>, value: Seq<char>)
    ensures
        param_value(ParamView { name, value, is_text: true }) == JsonView::Text(value),
        json_parsed(value) matches Some(v) ==> param_value(
            ParamView { name, value, is_text: false },
        ) == v,
        json_parsed(value) is None ==> param_value(ParamView { name, value, is_text: false })
            == JsonView::Text(value),
{
}

/// A parameter is text unless its tag says `string` and anything but `true`.
pub proof fn parameters_are_text_by_default(tag: Seq<char>)
    ensures
        find(tag, "string="@) is None ==> text_param(tag),
        attr_value(tag, "string"@) == Some("true"@) ==> text_param(tag),
        attr_value(tag, "string"@) matches Some(v) ==> (v != "true"@ ==> !text_param(tag)),
{
    reveal_strlit("string");
    reveal_strlit("=");
    reveal_strlit("string=");
    assert("string"@ + "="@ =~= "string="@);
}

/// The value of an attribute is what stands in the quotes behind its name.
pub proof fn attributes_stand_in_quotes(
    before: Seq<char>,
    name: Seq<char>,
    value: Seq<char>,
    behind: Seq<char>,
)
    requires
        find(before + (name + "="@) + seq!['"'] + value + seq!['"'] + behind, name + "="@) == Some(
            before.len() as int,
        ),
        !value.contains('"'),
    ensures
        attr_value(before + (name + "="@) + seq!['"'] + value + seq!['"'] + behind, name) == Some(
            value,
        ),
{
    let pat = name + "="@;
    let tag = before + pat + seq!['"'] + value + seq!['"'] + behind;
    let quote = "\""@;
    reveal_strlit("\"");
    let q = before.len() as int + pat.len();
    let e = q + 1 + value.len();
    assert(tag[q] == '"');
    assert(tag.subrange(q, q + 1) =~= quote);
    assert(matches_at(tag, quote, q));
    assert(find_from(tag, quote, q) == Some(q));
    assert(tag[e] == '"');
    assert(tag.subrange(e, e + 1) =~= quote);
    assert(matches_at(tag, quote, e));
    lemma_find_from(tag, quote, q + 1);
    let f = find_from(tag, quote, q + 1)->0;
    if f < e {
        assert(tag.subrange(f, f + 1)[0] == '"');
        assert(tag[f] == value[f - q - 1]);
        assert(value.contains('"'));
    }
    assert(f == e);
    assert(tag.subrange(q + 1, e) =~= value);
}

/// A call is named by the call in the text and has its arguments; the ID is made of a
/// number.
pub proof fn calls_keep_name_and_arguments(call: ToolCallView, c: RawCallView)
    ensures
        names_call(call, c) <==> call.name == c.name && call.arguments == call_arguments(c.params)
            && exists|r: u64| call.id == "call_"@ + #[trigger] hex(r as nat),
{
    if names_call(call, c) {
        let r = choose|r: u64| call == #[trigger] call_with_id(c, r);
        assert(call.id == "call_"@ + hex(r as nat));
    }
    if call.name == c.name && call.arguments == call_arguments(c.params) && exists|r: u64|
        call.id == "call_"@ + #[trigger] hex(r as nat) {
        let r = choose|r: u64| call.id == "call_"@ + #[trigger] hex(r as nat);
        assert(call == call_with_id(c, r));
    }
}

/// A parameter is read between its tags: its name is that of the opening tag, and a text
/// has its entities replaced while anything else stands as it is. Reading goes on behind
/// the closing tag.
pub proof fn parameters_are_read_between_tags(body: Seq<char>, t: Tags, p: int, g: int, e: int)
    requires
        0 <= p < body.len(),
        !crate::dsml::ascii_white(body[p]),
        !matches_at(body, t.invoke_end, p),
        matches_at(body, t.param_start, p),
        t.param_end.len() > 0,
        find_from(body, ">"@, p + t.param_start.len()) == Some(g),
        find_from(body, t.param_end, g + 1) == Some(e),
    ensures
        ({
            let tag = body.subrange(p, g + 1);
            let raw = body.subrange(g + 1, e);
            let next = e + t.param_end.len();
            let (params, end) = read_params(body, t, p);
            &&& params.len() > 0
            &&& attr_value(tag, "name"@) matches Some(n) ==> params[0].name == n
            &&& params[0].is_text == text_param(tag)
            &&& text_param(tag) ==> params[0].value == unescaped(raw)
            &&& !text_param(tag) ==> params[0].value == raw
            &&& params.skip(1) == read_params(body, t, next).0
            &&& end == read_params(body, t, next).1
        }),
{
    lemma_find_from(body, ">"@, p + t.param_start.len());
    lemma_find_from(body, t.param_end, g + 1);
    let rest = read_params(body, t, e + t.param_end.len()).0;
    assert(read_params(body, t, p).0.skip(1) =~= rest);
}

/// The end of a call ends its parameters.
pub proof fn calls_end_their_parameters(body: Seq<char>, t: Tags, p: int)
    requires
        0 <= p < body.len(),
        !crate::dsml::ascii_white(body[p]),
        matches_at(body, t.invoke_end, p),
    ensures
        read_params(body, t, p).0.len() == 0,
        read_params(body, t, p).1 == p + t.invoke_end.len(),
{
}

/// A block of calls is what stands between the first mark of its beginning and the next
/// mark of its end; the spellings are tried in order, and a text without a whole block has
/// no calls.
pub proof fn blocks_are_read_in_their_spelling(text: Seq<char>)
    ensures
        calls_body(text, spelling(0)) matches Some(body) ==> raw_calls(text) == read_calls(
            body,
            spelling(0),
            0,
        ),
        calls_body(text, spelling(0)) is None ==> (calls_body(text, spelling(1)) matches Some(body)
            ==> raw_calls(text) == read_calls(body, spelling(1), 0)),
        calls_body(text, spelling(0)) is None && calls_body(text, spelling(1)) is None ==> (
        calls_body(text, spelling(2)) matches Some(body) ==> raw_calls(text) == read_calls(
            body,
            spelling(2),
            0,
        )),
        calls_body(text, spelling(0)) is None && calls_body(text, spelling(1)) is None
            && calls_body(text, spelling(2)) is None ==> raw_calls(text).len() == 0,
        spelling(0).calls_start == "｜DSML｜tool_calls>"@,
        spelling(1).calls_start == "<|DSML|tool_calls>"@,
        spelling(2).calls_start == "<tool_calls>"@,
        find(text, "｜DSML｜tool_calls>"@) is None && find(text, "<|DSML|tool_calls>"@) is None
            && find(text, "<tool_calls>"@) is None ==> raw_calls(text).len() == 0,
{
    reveal_with_fuel(crate::dsml::raw_calls_from, 4);
}

/// The tags of the three spellings differ in their marks alone.
pub proof fn spellings_are_alike()
    ensures
        spelling(0).invoke_start == "｜DSML｜invoke"@ && spelling(0).invoke_end == "｜DSML｜/invoke>"@,
        spelling(0).param_start == "｜DSML｜parameter"@ && spelling(0).param_end
            == "｜DSML｜/parameter>"@,
        spelling(0).calls_end == "｜DSML｜/tool_calls>"@,
        spelling(1).invoke_start == "<|DSML|invoke"@ && spelling(1).invoke_end
            == "</|DSML|invoke>"@,
        spelling(1).param_start == "<|DSML|parameter"@ && spelling(1).param_end
            == "</|DSML|parameter>"@,
        spelling(1).calls_end == "</|DSML|tool_calls>"@,
        spelling(2).invoke_start == "<invoke"@ && spelling(2).invoke_end == "</invoke>"@,
        spelling(2).param_start == "<parameter"@ && spelling(2).param_end == "</parameter>"@,
        spelling(2).calls_end == "</tool_calls>"@,
{
}

/// One more character is escaped by itself: the ampersand and the angle brackets
/// everywhere, the quote in attributes alone, and nothing else.
pub proof fn characters_are_escaped_one_by_one(s: Seq<char>, c: char)
    ensures
        ({
            let t = escaped_text(s.push(c));
            let a = escaped_attr(s.push(c));
            let (u, b) = (escaped_text(s), escaped_attr(s));
            &&& c == '&' ==> t == u + "&amp;"@ && a == b + "&amp;"@
            &&& c == '<' ==> t == u + "&lt;"@ && a == b + "&lt;"@
            &&& c == '>' ==> t == u + "&gt;"@ && a == b + "&gt;"@
            &&& c == '"' ==> t == u.push(c) && a == b + "&quot;"@
            &&& c != '&' && c != '<' && c != '>' && c != '"' ==> t == u.push(c) && a == b.push(c)
        }),
        escaped_text(Seq::empty()).len() == 0,
        escaped_attr(Seq::empty()).len() == 0,
{
    lemma_escaped_prefix(s, c, false, s.len());
    lemma_escaped_prefix(s, c, true, s.len());
    assert(s.push(c)[s.len() as int] == c);
    assert(escaped_text(s) + seq![c] =~= escaped_text(s).push(c));
    assert(escaped_attr(s) + seq![c] =~= escaped_attr(s).push(c));
}

proof fn lemma_escaped_prefix(s: Seq<char>, c: char, attribute: bool, n: nat)
    requires
        n <= s.len(),
    ensures
        crate::dsml::escaped(s.push(c), attribute, n) == crate::dsml::escaped(s, attribute, n),
    decreases n,
{
    if n > 0 {
        lemma_escaped_prefix(s, c, attribute, (n - 1) as nat);
        assert(s.push(c)[n - 1] == s[n - 1]);
    }
}

/// Replacing changes the first occurrence and goes on behind it; a text without an
/// occurrence stays as it is.
pub proof fn replacing_goes_on_behind(
    before: Seq<char>,
    pat: Seq<char>,
    with: Seq<char>,
    behind: Seq<char>,
)
    requires
        pat.len() > 0,
        find(before + pat + behind, pat) == Some(before.len() as int),
    ensures
        replaced(before + pat + behind, pat, with) == before + with + replaced(behind, pat, with),
        find(behind, pat) is None ==> replaced(behind, pat, with) == behind,
{
    let s = before + pat + behind;
    let n = before.len() as int;
    let m = n + pat.len();
    assert(s.subrange(0, n) =~= before);
    lemma_replaced_shift(before + pat, behind, pat, with, 0);
    assert(behind.subrange(0, behind.len() as int) =~= behind);
}

proof fn lemma_replaced_shift(
    a: Seq<char>,
    b: Seq<char>,
    pat: Seq<char>,
    with: Seq<char>,
    j: int,
)
    requires
        0 <= j <= b.len(),
        pat.len() > 0,
    ensures
        replaced_from(a + b, pat, with, a.len() + j) == replaced_from(b, pat, with, j),
    decreases b.len() - j,
{
    lemma_find_shift(a, b, pat, j);
    lemma_find_from(b, pat, j);
    match find_from(b, pat, j) {
        Some(k) => {
            lemma_replaced_shift(a, b, pat, with, k + pat.len());
            assert((a + b).subrange(a.len() + j, a.len() + k) =~= b.subrange(j, k));
        },
        None => {
            assert((a + b).subrange(a.len() + j, (a + b).len() as int) =~= b.subrange(
                j,
                b.len() as int,
            ));
        },
    }
}

/// White space between tags is passed over.
pub proof fn white_space_between_tags_is_passed_over(body: Seq<char>, t: Tags, pos: int)
    requires
        0 <= pos < body.len(),
        body[pos] == ' ' || body[pos] == '\n' || body[pos] == '\t' || body[pos] == '\r',
    ensures
        crate::dsml::skip_white(body, pos) == crate::dsml::skip_white(body, pos + 1),
        forall|p: int|
            0 <= p < body.len() && body[p] != ' ' && body[p] != '\n' && body[p] != '\t' && body[p]
                != '\r' && body[p] != '\u{c}' ==> #[trigger] crate::dsml::skip_white(body, p) == p,
{
}

/// A call is named by its opening tag, has the parameters up to its end, and the next one
/// is read behind it; where no call opens, there are no more.
pub proof fn calls_are_read_one_by_one(body: Seq<char>, t: Tags, p: int, g: int)
    requires
        0 <= p < body.len(),
        !crate::dsml::ascii_white(body[p]),
        t.invoke_start.len() > 0,
    ensures
        matches_at(body, t.invoke_start, p) && find_from(body, ">"@, p + t.invoke_start.len())
            == Some(g) ==> {
            let tag = body.subrange(p, g + 1);
            let (params, next) = read_params(body, t, g + 1);
            let calls = read_calls(body, t, p);
            p < next <= body.len() ==> {
                &&& calls.len() > 0
                &&& attr_value(tag, "name"@) matches Some(n) ==> calls[0].name == n
                &&& calls[0].params == params
                &&& calls.skip(1) == read_calls(body, t, next)
            }
        },
        !matches_at(body, t.invoke_start, p) ==> read_calls(body, t, p).len() == 0,
{
    if matches_at(body, t.invoke_start, p) && find_from(body, ">"@, p + t.invoke_start.len())
        == Some(g) {
        let next = read_params(body, t, g + 1).1;
        if p < next <= body.len() {
            assert(read_calls(body, t, p).skip(1) =~= read_calls(body, t, next));
        }
    }
}

/// Whether `c` is what the entity `e` stands for.
pub open spec fn stands_for(e: Seq<char>, c: char) -> bool {
    ||| e == "&amp;"@ && c == '&'
    ||| e == "&lt;"@ && c == '<'
    ||| e == "&gt;"@ && c == '>'
    ||| e == "&quot;"@ && c == '"'
    ||| e == "&apos;"@ && c == '\''
}

/// An entity in a text is replaced by its character, and the rest stays as it is.
pub proof fn entities_are_replaced(a: Seq<char>, e: Seq<char>, c: char, b: Seq<char>)
    requires
        stands_for(e, c),
        !a.contains('&'),
        !b.contains('&'),
        c == '&' ==> b.len() == 0,
    ensures
        unescaped(a + e + b) == a + seq![c] + b,
{
    reveal_strlit("&amp;");
    reveal_strlit("&lt;");
    reveal_strlit("&gt;");
    reveal_strlit("&quot;");
    reveal_strlit("&apos;");
    reveal_strlit("&");
    reveal_strlit("<");
    reveal_strlit(">");
    reveal_strlit("\"");
    reveal_strlit("'");
    assert("&amp;"@[0] == '&' && "&amp;"@[1] == 'a' && "&amp;"@[2] == 'm');
    assert("&lt;"@[0] == '&' && "&lt;"@[1] == 'l');
    assert("&gt;"@[0] == '&' && "&gt;"@[1] == 'g');
    assert("&quot;"@[0] == '&' && "&quot;"@[1] == 'q');
    assert("&apos;"@[0] == '&' && "&apos;"@[1] == 'a' && "&apos;"@[2] == 'p');
    assert("&"@ =~= seq!['&'] && "<"@ =~= seq!['<'] && ">"@ =~= seq!['>']);
    assert("\""@ =~= seq!['"'] && "'"@ =~= seq!['\'']);
    let t = a + e + b;
    let u = a + seq![c] + b;
    let s1 = replaced(t, "&amp;"@, "&"@);
    let s2 = replaced(s1, "&lt;"@, "<"@);
    let s3 = replaced(s2, "&gt;"@, ">"@);
    let s4 = replaced(s3, "&quot;"@, "\""@);
    lemma_entity(a, e, b, "&amp;"@, "&"@);
    if e == "&amp;"@ {
        assert(s1 == u);
        lemma_bare(a, "&lt;"@, "<"@);
        lemma_bare(a, "&gt;"@, ">"@);
        lemma_bare(a, "&quot;"@, "\""@);
        lemma_bare(a, "&apos;"@, "'"@);
        assert(u =~= a + seq!['&']);
    } else {
        assert(s1 == t);
        lemma_entity(a, e, b, "&lt;"@, "<"@);
        lemma_free(u, "&gt;"@, ">"@, c);
        lemma_free(u, "&quot;"@, "\""@, c);
        lemma_free(u, "&apos;"@, "'"@, c);
        assert forall|i: int| 0 <= i < u.len() implies u[i] != '&' by {
            if i < a.len() {
                assert(a.contains(a[i]));
            } else if i > a.len() {
                assert(b.contains(b[i - a.len() - 1]));
            }
        }
        if e == "&lt;"@ {
            assert(s2 == u && s3 == u && s4 == u);
        } else {
            assert(s2 == t);
            lemma_entity(a, e, b, "&gt;"@, ">"@);
            if e == "&gt;"@ {
                assert(s3 == u && s4 == u);
            } else {
                assert(s3 == t);
                lemma_entity(a, e, b, "&quot;"@, "\""@);
                if e == "&quot;"@ {
                    assert(s4 == u);
                } else {
                    assert(s4 == t);
                    lemma_entity(a, e, b, "&apos;"@, "'"@);
                }
            }
        }
    }
}

/// A text without an ampersand holds no entity.
proof fn lemma_free(u: Seq<char>, pat: Seq<char>, with: Seq<char>, c: char)
    requires
        pat.len() > 0,
        pat[0] == '&',
    ensures
        (forall|i: int| 0 <= i < u.len() ==> u[i] != '&') ==> replaced(u, pat, with) == u,
{
    if forall|i: int| 0 <= i < u.len() ==> u[i] != '&' {
        lemma_find_from(u, pat, 0);
        if find(u, pat) is Some {
            let k = find(u, pat)->0;
            assert(u.subrange(k, k + pat.len())[0] == u[k]);
        }
        assert(u.subrange(0, u.len() as int) =~= u);
    }
}

/// A text whose only ampersand is its last character holds no entity.
proof fn lemma_bare(a: Seq<char>, pat: Seq<char>, with: Seq<char>)
    requires
        !a.contains('&'),
        pat.len() > 1,
        pat[0] == '&',
    ensures
        replaced(a + seq!['&'], pat, with) == a + seq!['&'],
{
    let u = a + seq!['&'];
    lemma_find_from(u, pat, 0);
    if find(u, pat) is Some {
        let k = find(u, pat)->0;
        assert(u.subrange(k, k + pat.len())[0] == u[k]);
        assert(u[k] == a[k]);
        assert(a.contains(a[k]));
    }
    assert(u.subrange(0, u.len() as int) =~= u);
}

/// The only entity of a text is replaced, and no other.
proof fn lemma_entity(a: Seq<char>, e: Seq<char>, b: Seq<char>, pat: Seq<char>, with: Seq<char>)
    requires
        !a.contains('&'),
        !b.contains('&'),
        pat.len() > 2,
        e.len() > 2,
        pat[0] == '&',
        forall|i: int| 0 < i < e.len() ==> #[trigger] e[i] != '&',
        pat == e || pat[1] != e[1] || pat[2] != e[2],
    ensures
        pat == e ==> replaced(a + e + b, pat, with) == a + with + b,
        pat != e ==> replaced(a + e + b, pat, with) == a + e + b,
{
    let t = a + e + b;
    let n = a.len() as int;
    lemma_find_from(t, pat, 0);
    assert forall|i: int| 0 <= i < t.len() && i != n implies t[i] != '&' by {
        if i < n {
            assert(a.contains(a[i]));
        } else if i < n + e.len() {
            assert(t[i] == e[i - n]);
        } else {
            assert(b.contains(b[i - n - e.len()]));
        }
    }
    if find(t, pat) is Some {
        let k = find(t, pat)->0;
        let part = t.subrange(k, k + pat.len());
        assert(part[0] == t[k]);
        assert(k == n);
        assert(part[1] == t[n + 1] && part[2] == t[n + 2]);
        assert(t[n + 1] == e[1] && t[n + 2] == e[2]);
    }
    if pat == e {
        assert(t.subrange(n, n + e.len()) =~= e);
        assert(matches_at(t, pat, n));
        replacing_goes_on_behind(a, pat, with, b);
        lemma_free(b, pat, with, 'x');
        assert forall|i: int| 0 <= i < b.len() implies b[i] != '&' by {
            assert(b.contains(b[i]));
        }
    } else {
        assert(find(t, pat) is None);
        assert(t.subrange(0, t.len() as int) =~= t);
    }
}

} // verus!

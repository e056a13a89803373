//! What is written in the model's markup is read back.
use vstd::prelude::*;

use crate::dsml::{
    attr_value, call_block, call_blocks, calls_body, calls_text, escaped, escaped_attr, escaped_char,
    escaped_text, replaced, replaced_from, unescaped, raw_calls,
    raw_calls_from, read_calls, read_params, skip_white, spelling, text_param, ParamView,
    RawCallView,
};
use crate::request::ToolCallView;
use crate::text::{find_from, lemma_find_from, matches_at};

verus! {

/// Whether a text occurs in another.
pub open spec fn occurs(s: Seq<char>, pat: Seq<char>) -> bool {
    exists|i: int| matches_at(s, pat, i)
}

/// Whether the arguments of a call hold neither of the tags that end a parameter and the
/// calls, which are not escaped there.
pub open spec fn plain_arguments(c: ToolCallView) -> bool {
    !occurs(c.arguments, "｜DSML｜/parameter>"@) && !occurs(c.arguments, "｜DSML｜/tool_calls>"@)
}

/// A call as it is read back: the name is still escaped, and the arguments are one
/// parameter, which is no text.
pub open spec fn as_read(c: ToolCallView) -> RawCallView {
    RawCallView {
        name: escaped_attr(c.name),
        params: seq![ParamView { name: "arguments"@, value: c.arguments, is_text: false }],
    }
}

proof fn lemma_find_is(hay: Seq<char>, pat: Seq<char>, i: int, k: int)
    requires
        0 <= i <= k,
        matches_at(hay, pat, k),
        forall|j: int| i <= j < k ==> !matches_at(hay, pat, j),
    ensures
        find_from(hay, pat, i) == Some(k),
{
    lemma_find_from(hay, pat, i);
}

proof fn lemma_one(hay: Seq<char>, pat: Seq<char>, c: char, i: int)
    requires
        pat =~= seq![c],
    ensures
        matches_at(hay, pat, i) <==> 0 <= i < hay.len() && hay[i] == c,
{
    if 0 <= i < hay.len() && hay[i] == c {
        assert(hay.subrange(i, i + 1) =~= pat);
    }
    if matches_at(hay, pat, i) {
        assert(hay.subrange(i, i + 1)[0] == pat[0]);
    }
}

/// The first `c` from `i` on stands at `k`.
proof fn lemma_find_one(hay: Seq<char>, pat: Seq<char>, c: char, i: int, k: int)
    requires
        pat =~= seq![c],
        0 <= i <= k < hay.len(),
        hay[k] == c,
        forall|j: int| i <= j < k ==> hay[j] != c,
    ensures
        find_from(hay, pat, i) == Some(k),
{
    lemma_one(hay, pat, c, k);
    assert forall|j: int| i <= j < k implies !matches_at(hay, pat, j) by {
        lemma_one(hay, pat, c, j);
    }
    lemma_find_is(hay, pat, i, k);
}

/// An escaped attribute holds neither the quote nor the end of a tag.
proof fn lemma_escaped_plain(s: Seq<char>, n: nat)
    requires
        n <= s.len(),
    ensures
        forall|j: int|
            0 <= j < escaped(s, true, n).len() ==> #[trigger] escaped(s, true, n)[j] != '"'
                && escaped(s, true, n)[j] != '>',
    decreases n,
{
    if n > 0 {
        lemma_escaped_plain(s, (n - 1) as nat);
        reveal_strlit("&amp;");
        reveal_strlit("&lt;");
        reveal_strlit("&gt;");
        reveal_strlit("&quot;");
        let before = escaped(s, true, (n - 1) as nat);
        let last = escaped_char(s[n - 1], true);
        assert forall|j: int| 0 <= j < last.len() implies #[trigger] last[j] != '"' && last[j]
            != '>' by {}
        assert forall|j: int| 0 <= j < (before + last).len() implies #[trigger] (before + last)[j]
            != '"' && (before + last)[j] != '>' by {
            if j >= before.len() {
                assert((before + last)[j] == last[j - before.len()]);
            }
        }
    }
}

/// A name without characters that are escaped is read back as it is.
pub proof fn plain_name_is_not_escaped(name: Seq<char>)
    requires
        forall|i: int|
            0 <= i < name.len() ==> #[trigger] name[i] != '&' && name[i] != '<' && name[i] != '>'
                && name[i] != '"',
    ensures
        escaped_attr(name) == name,
{
    lemma_not_escaped(name, name.len());
    assert(name.take(name.len() as int) =~= name);
}

proof fn lemma_not_escaped(s: Seq<char>, n: nat)
    requires
        n <= s.len(),
        forall|i: int|
            0 <= i < s.len() ==> #[trigger] s[i] != '&' && s[i] != '<' && s[i] != '>' && s[i] != '"',
    ensures
        escaped(s, true, n) == s.take(n as int),
    decreases n,
{
    if n > 0 {
        lemma_not_escaped(s, (n - 1) as nat);
        assert(s.take(n as int) =~= s.take(n - 1) + seq![s[n - 1]]);
    } else {
        assert(s.take(0) =~= Seq::empty());
    }
}

/// The opening tag of a call.
spec fn invoke_tag(e: Seq<char>) -> Seq<char> {
    "｜DSML｜invoke name=\""@ + e + "\">"@
}

spec fn param_tag() -> Seq<char> {
    "｜DSML｜parameter name=\"arguments\" string=\"false\">"@
}

proof fn lemma_invoke_name(e: Seq<char>)
    requires
        forall|j: int| 0 <= j < e.len() ==> e[j] != '"',
    ensures
        attr_value(invoke_tag(e), "name"@) == Some(e),
{
    reveal_strlit("｜DSML｜invoke name=\"");
    reveal_strlit("\">");
    reveal_strlit("name");
    reveal_strlit("=");
    reveal_strlit("\"");
    let tag = invoke_tag(e);
    let pat = "name"@ + "="@;
    assert(pat =~= seq!['n', 'a', 'm', 'e', '=']);
    assert(tag.subrange(13, 18) =~= pat);
    assert forall|j: int| 0 <= j < 13 implies !matches_at(tag, pat, j) by {
        if matches_at(tag, pat, j) {
            assert(tag.subrange(j, j + 5)[0] == 'n');
            assert(tag.subrange(j, j + 5)[1] == 'a');
        }
    }
    lemma_find_is(tag, pat, 0, 13);
    lemma_find_one(tag, "\""@, '"', 18, 18);
    assert forall|j: int| 19 <= j < 19 + e.len() implies tag[j] != '"' by {
        assert(tag[j] == e[j - 19]);
    }
    lemma_find_one(tag, "\""@, '"', 19, (19 + e.len()) as int);
    assert(tag.subrange(19, 19 + e.len() as int) =~= e);
}

proof fn lemma_param_attrs()
    ensures
        attr_value(param_tag(), "name"@) == Some("arguments"@),
        !text_param(param_tag()),
{
    reveal_strlit("｜DSML｜parameter name=\"arguments\" string=\"false\">");
    reveal_strlit("name");
    reveal_strlit("string");
    reveal_strlit("arguments");
    reveal_strlit("true");
    reveal_strlit("=");
    reveal_strlit("\"");
    let tag = param_tag();
    let pat = "name"@ + "="@;
    assert(pat =~= seq!['n', 'a', 'm', 'e', '=']);
    assert(tag.subrange(16, 21) =~= pat);
    assert forall|j: int| 0 <= j < 16 implies !matches_at(tag, pat, j) by {
        if matches_at(tag, pat, j) {
            assert(tag.subrange(j, j + 5)[0] == 'n');
        }
    }
    lemma_find_is(tag, pat, 0, 16);
    lemma_find_one(tag, "\""@, '"', 21, 21);
    lemma_find_one(tag, "\""@, '"', 22, 31);
    assert(tag.subrange(22, 31) =~= "arguments"@);
    let pat2 = "string"@ + "="@;
    assert(pat2 =~= seq!['s', 't', 'r', 'i', 'n', 'g', '=']);
    assert(tag.subrange(33, 40) =~= pat2);
    assert forall|j: int| 0 <= j < 33 implies !matches_at(tag, pat2, j) by {
        if matches_at(tag, pat2, j) {
            assert(tag.subrange(j, j + 7)[0] == 's');
            assert(tag.subrange(j, j + 7)[1] == 't');
        }
    }
    lemma_find_is(tag, pat2, 0, 33);
    lemma_find_one(tag, "\""@, '"', 40, 40);
    lemma_find_one(tag, "\""@, '"', 41, 46);
    assert(tag.subrange(41, 46).len() == 5);
    assert("true"@.len() == 4);
}


/// The places of a call's block that stands in a text from `b` on, where the escaped name
/// has `e` and the arguments have `a` characters: the arguments start at `args`, and what
/// follows them at `rest`.
spec fn block_at(text: Seq<char>, b: int, c: ToolCallView) -> bool {
    &&& 0 <= b
    &&& b + call_block(c).len() <= text.len()
    &&& text.subrange(b, b + call_block(c).len()) == call_block(c)
}

spec fn args_at(b: int, c: ToolCallView) -> int {
    b + 19 + escaped_attr(c.name).len() + 3 + 48
}

spec fn rest_at(b: int, c: ToolCallView) -> int {
    args_at(b, c) + c.arguments.len()
}

proof fn lemma_block_len(c: ToolCallView)
    ensures
        call_block(c).len() == 19 + escaped_attr(c.name).len() + 3 + 48 + c.arguments.len() + 18
            + 15,
{
    reveal_strlit("｜DSML｜invoke name=\"");
    reveal_strlit("\">\n");
    reveal_strlit("｜DSML｜parameter name=\"arguments\" string=\"false\">");
    reveal_strlit("｜DSML｜/parameter>\n");
    reveal_strlit("｜DSML｜/invoke>\n");
}

/// The pieces of a block in a text.
proof fn lemma_block_pieces(text: Seq<char>, b: int, c: ToolCallView)
    requires
        block_at(text, b, c),
    ensures
        rest_at(b, c) + 33 <= text.len(),
        text.subrange(b, b + 19) == "｜DSML｜invoke name=\""@,
        text.subrange(b + 19, b + 19 + escaped_attr(c.name).len()) == escaped_attr(c.name),
        text.subrange(args_at(b, c) - 51, args_at(b, c) - 48) == "\">\n"@,
        text.subrange(args_at(b, c) - 48, args_at(b, c)) == param_tag(),
        text.subrange(args_at(b, c), rest_at(b, c)) == c.arguments,
        text.subrange(rest_at(b, c), rest_at(b, c) + 18) == "｜DSML｜/parameter>\n"@,
        text.subrange(rest_at(b, c) + 18, rest_at(b, c) + 33) == "｜DSML｜/invoke>\n"@,
{
    reveal_strlit("｜DSML｜invoke name=\"");
    reveal_strlit("\">\n");
    reveal_strlit("｜DSML｜parameter name=\"arguments\" string=\"false\">");
    reveal_strlit("｜DSML｜/parameter>\n");
    reveal_strlit("｜DSML｜/invoke>\n");
    let blk = call_block(c);
    let e = escaped_attr(c.name);
    assert forall|j: int| 0 <= j < blk.len() implies #[trigger] text[b + j] == blk[j] by {
        assert(text.subrange(b, b + blk.len())[j] == blk[j]);
    }
    assert(text.subrange(b, b + 19) =~= "｜DSML｜invoke name=\""@) by {
        assert forall|j: int| 0 <= j < 19 implies text.subrange(b, b + 19)[j]
            == "｜DSML｜invoke name=\""@[j] by {
            assert(text[b + j] == blk[j]);
        }
    }
    assert(text.subrange(b + 19, b + 19 + e.len()) =~= e) by {
        assert forall|j: int| 0 <= j < e.len() implies text.subrange(b + 19, b + 19 + e.len())[j]
            == e[j] by {
            assert(text[b + (19 + j)] == blk[19 + j]);
        }
    }
    let q = (19 + e.len()) as int;
    assert(text.subrange(b + q, b + q + 3) =~= "\">\n"@) by {
        assert forall|j: int| 0 <= j < 3 implies text.subrange(b + q, b + q + 3)[j] == "\">\n"@[j] by {
            assert(text[b + (q + j)] == blk[q + j]);
        }
    }
    assert(text.subrange(b + q + 3, b + q + 51) =~= param_tag()) by {
        assert forall|j: int| 0 <= j < 48 implies text.subrange(b + q + 3, b + q + 51)[j]
            == param_tag()[j] by {
            assert(text[b + (q + 3 + j)] == blk[q + 3 + j]);
        }
    }
    let a = c.arguments;
    let r = q + 51 + a.len();
    assert(text.subrange(b + q + 51, b + r) =~= a) by {
        assert forall|j: int| 0 <= j < a.len() implies text.subrange(b + q + 51, b + r)[j]
            == a[j] by {
            assert(text[b + (q + 51 + j)] == blk[q + 51 + j]);
        }
    }
    assert(text.subrange(b + r, b + r + 18) =~= "｜DSML｜/parameter>\n"@) by {
        assert forall|j: int| 0 <= j < 18 implies text.subrange(b + r, b + r + 18)[j]
            == "｜DSML｜/parameter>\n"@[j] by {
            assert(text[b + (r + j)] == blk[r + j]);
        }
    }
    assert(text.subrange(b + r + 18, b + r + 33) =~= "｜DSML｜/invoke>\n"@) by {
        assert forall|j: int| 0 <= j < 15 implies text.subrange(b + r + 18, b + r + 33)[j]
            == "｜DSML｜/invoke>\n"@[j] by {
            assert(text[b + (r + 18 + j)] == blk[r + 18 + j]);
        }
    }
}

/// Where the ends of tags stand in what is written.
proof fn lemma_ends()
    ensures
        "｜DSML｜invoke name=\""@.len() == 19,
        forall|j: int| 0 <= j < 19 ==> #[trigger] "｜DSML｜invoke name=\""@[j] != '>',
        "\">\n"@.len() == 3,
        "\">\n"@[0] == '"',
        "\">\n"@[1] == '>',
        "\">\n"@[2] == '\n',
        param_tag().len() == 48,
        forall|j: int| 0 <= j < 47 ==> #[trigger] param_tag()[j] != '>',
        param_tag()[46] == '"',
        param_tag()[47] == '>',
        "｜DSML｜/parameter>\n"@.len() == 18,
        forall|j: int| 0 <= j < 16 ==> #[trigger] "｜DSML｜/parameter>\n"@[j] != '>',
        "｜DSML｜/parameter>\n"@[15] == 'r',
        "｜DSML｜/parameter>\n"@[17] == '\n',
        "｜DSML｜/invoke>\n"@.len() == 15,
        forall|j: int| 0 <= j < 13 ==> #[trigger] "｜DSML｜/invoke>\n"@[j] != '>',
        "｜DSML｜/invoke>\n"@[12] == 'e',
        "｜DSML｜/invoke>\n"@[14] == '\n',
{
    reveal_strlit("｜DSML｜invoke name=\"");
    reveal_strlit("\">\n");
    reveal_strlit("｜DSML｜parameter name=\"arguments\" string=\"false\">");
    reveal_strlit("｜DSML｜/parameter>\n");
    reveal_strlit("｜DSML｜/invoke>\n");
}

/// Where the end of the tag stands that ends the calls.
proof fn lemma_calls_end()
    ensures
        "｜DSML｜/tool_calls>"@.len() == 18,
        forall|j: int| 0 <= j < 17 ==> #[trigger] "｜DSML｜/tool_calls>"@[j] != '>',
        "｜DSML｜/tool_calls>"@[16] == 's',
        "｜DSML｜/tool_calls>"@[17] == '>',
{
    reveal_strlit("｜DSML｜/tool_calls>");
}

/// A character of a piece.
proof fn lemma_char(text: Seq<char>, from: int, to: int, piece: Seq<char>, j: int)
    requires
        0 <= from <= j < to <= text.len(),
        text.subrange(from, to) == piece,
    ensures
        piece.len() == to - from,
        text[j] == piece[j - from],
{
    assert(text.subrange(from, to)[j - from] == text[j]);
}

/// The characters of a piece.
proof fn lemma_piece(text: Seq<char>, from: int, to: int, piece: Seq<char>)
    requires
        0 <= from <= to <= text.len(),
        text.subrange(from, to) == piece,
    ensures
        piece.len() == to - from,
        forall|j: int| from <= j < to ==> #[trigger] text[j] == piece[j - from],
{
    assert forall|j: int| from <= j < to implies #[trigger] text[j] == piece[j - from] by {
        assert(text.subrange(from, to)[j - from] == text[j]);
    }
}

/// A tag that ends the calls lies in no block.
proof fn lemma_no_end_at(text: Seq<char>, b: int, c: ToolCallView, j: int)
    requires
        block_at(text, b, c),
        plain_arguments(c),
        b <= j + 17 < b + call_block(c).len(),
    ensures
        !matches_at(text, "｜DSML｜/tool_calls>"@, j),
{
    let pat = "｜DSML｜/tool_calls>"@;
    lemma_calls_end();
    if matches_at(text, pat, j) {
        let e = escaped_attr(c.name);
        let a = args_at(b, c);
        let r = rest_at(b, c);
        let at = j + 17;
        lemma_ends();
        lemma_block_len(c);
        lemma_block_pieces(text, b, c);
        lemma_char(text, j, j + 18, pat, at);
        lemma_char(text, j, j + 18, pat, at - 1);
        if at < b + 19 {
            lemma_char(text, b, b + 19, "｜DSML｜invoke name=\""@, at);
        } else if at < a - 51 {
            lemma_escaped_plain(c.name, c.name.len());
            lemma_char(text, b + 19, b + 19 + e.len(), e, at);
        } else if at < a - 48 {
            lemma_char(text, a - 51, a - 48, "\">\n"@, at);
            lemma_char(text, a - 51, a - 48, "\">\n"@, a - 51);
        } else if at < a {
            lemma_char(text, a - 48, a, param_tag(), at);
            lemma_char(text, a - 48, a, param_tag(), a - 2);
        } else if at < r {
            if j < a {
                lemma_char(text, a - 48, a, param_tag(), a - 1);
                lemma_char(text, j, j + 18, pat, a - 1);
            } else {
                assert(c.arguments.subrange(j - a, j - a + 18) =~= text.subrange(j, j + 18)) by {
                    assert(text.subrange(a, r) =~= c.arguments);
                }
                assert(matches_at(c.arguments, pat, j - a));
            }
        } else if at < r + 18 {
            lemma_char(text, r, r + 18, "｜DSML｜/parameter>\n"@, at);
            lemma_char(text, r, r + 18, "｜DSML｜/parameter>\n"@, r + 15);
        } else {
            lemma_char(text, r + 18, r + 33, "｜DSML｜/invoke>\n"@, at);
            lemma_char(text, r + 18, r + 33, "｜DSML｜/invoke>\n"@, r + 30);
        }
    }
}

/// No tag that ends the calls ends within a block.
proof fn lemma_block_open(text: Seq<char>, b: int, c: ToolCallView)
    requires
        block_at(text, b, c),
        plain_arguments(c),
    ensures
        forall|j: int|
            b <= j + 17 < b + call_block(c).len() ==> !#[trigger] matches_at(
                text,
                "｜DSML｜/tool_calls>"@,
                j,
            ),
{
    assert forall|j: int|
        b <= j + 17 < b + call_block(c).len() implies !#[trigger] matches_at(
        text,
        "｜DSML｜/tool_calls>"@,
        j,
    ) by {
        lemma_no_end_at(text, b, c, j);
    }
}

/// The arguments of a block end before its closing tag.
proof fn lemma_value_end(body: Seq<char>, b: int, c: ToolCallView)
    requires
        block_at(body, b, c),
        plain_arguments(c),
    ensures
        find_from(body, "｜DSML｜/parameter>"@, args_at(b, c)) == Some(rest_at(b, c)),
{
    let pat = "｜DSML｜/parameter>"@;
    let a = args_at(b, c);
    let r = rest_at(b, c);
    lemma_block_pieces(body, b, c);
    lemma_param_end();
    assert(body.subrange(r, r + 17) =~= pat) by {
        assert(body.subrange(r, r + 17) =~= body.subrange(r, r + 18).subrange(0, 17));
    }
    assert forall|j: int| a <= j < r implies !matches_at(body, pat, j) by {
        if matches_at(body, pat, j) {
            if j + 17 <= r {
                assert(c.arguments.subrange(j - a, j - a + 17) =~= body.subrange(j, j + 17)) by {
                    assert(body.subrange(a, r) =~= c.arguments);
                }
                assert(matches_at(c.arguments, pat, j - a));
            } else {
                lemma_ends();
                lemma_char(body, j, j + 17, pat, j + 16);
                lemma_char(body, r, r + 18, "｜DSML｜/parameter>\n"@, j + 16);
            }
        }
    }
    lemma_find_is(body, pat, a, r);
}

proof fn lemma_param_end()
    ensures
        "｜DSML｜/parameter>"@.len() == 17,
        "｜DSML｜/parameter>"@[16] == '>',
        "｜DSML｜/parameter>\n"@.subrange(0, 17) == "｜DSML｜/parameter>"@,
{
    reveal_strlit("｜DSML｜/parameter>");
    reveal_strlit("｜DSML｜/parameter>\n");
    assert("｜DSML｜/parameter>\n"@.subrange(0, 17) =~= "｜DSML｜/parameter>"@);
}

/// Nothing more is read behind the parameter of a block.
proof fn lemma_block_close(body: Seq<char>, b: int, c: ToolCallView)
    requires
        block_at(body, b, c),
    ensures
        read_params(body, spelling(0), rest_at(b, c) + 17) == (
            Seq::<ParamView>::empty(),
            rest_at(b, c) + 32,
        ),
{
    let t = spelling(0);
    let r = rest_at(b, c);
    reveal_strlit("｜DSML｜/invoke>");
    reveal_strlit("｜DSML｜/parameter>\n");
    reveal_strlit("｜DSML｜/invoke>\n");
    lemma_block_pieces(body, b, c);
    lemma_piece(body, r, r + 18, "｜DSML｜/parameter>\n"@);
    lemma_piece(body, r + 18, r + 33, "｜DSML｜/invoke>\n"@);
    assert(body[r + 17] == '\n');
    assert(body[r + 18] == '｜');
    assert(skip_white(body, r + 18) == r + 18);
    assert(skip_white(body, r + 17) == r + 18);
    assert(body.subrange(r + 18, r + 32) =~= t.invoke_end);
}

/// The opening tag of a block's parameter.
proof fn lemma_param_open(body: Seq<char>, b: int, c: ToolCallView)
    requires
        block_at(body, b, c),
    ensures
        skip_white(body, args_at(b, c) - 49) == args_at(b, c) - 48,
        !matches_at(body, spelling(0).invoke_end, args_at(b, c) - 48),
        matches_at(body, spelling(0).param_start, args_at(b, c) - 48),
        spelling(0).param_start.len() == 15,
        find_from(body, ">"@, args_at(b, c) - 33) == Some(args_at(b, c) - 1),
{
    let t = spelling(0);
    let a = args_at(b, c);
    let p = a - 48;
    reveal_strlit("｜DSML｜/invoke>");
    reveal_strlit("｜DSML｜parameter");
    reveal_strlit("\">\n");
    reveal_strlit("｜DSML｜parameter name=\"arguments\" string=\"false\">");
    reveal_strlit(">");
    lemma_block_pieces(body, b, c);
    lemma_piece(body, a - 51, a - 48, "\">\n"@);
    lemma_piece(body, a - 48, a, param_tag());
    assert(body[a - 49] == '\n');
    assert(body[p] == '｜');
    assert(skip_white(body, p) == p);
    if matches_at(body, t.invoke_end, p) {
        lemma_piece(body, p, p + 14, t.invoke_end);
        assert(body[p + 6] == 'p');
        assert(body[p + 6] == t.invoke_end[6]);
    }
    assert(body.subrange(p, p + 15) =~= t.param_start);
    lemma_find_one(body, ">"@, '>', p + 15, a - 1);
}

/// The parameter of a block is read.
proof fn lemma_block_params(body: Seq<char>, b: int, c: ToolCallView)
    requires
        block_at(body, b, c),
        plain_arguments(c),
    ensures
        read_params(body, spelling(0), args_at(b, c) - 49) == (
            as_read(c).params,
            rest_at(b, c) + 32,
        ),
{
    let a = args_at(b, c);
    let r = rest_at(b, c);
    lemma_block_pieces(body, b, c);
    lemma_param_open(body, b, c);
    lemma_param_attrs();
    lemma_value_end(body, b, c);
    lemma_block_close(body, b, c);
    assert(body.subrange(a - 48, a) == param_tag());
    assert("｜DSML｜/parameter>"@.len() == 17) by {
        reveal_strlit("｜DSML｜/parameter>");
    }
    assert(seq![ParamView { name: "arguments"@, value: c.arguments, is_text: false }]
        + Seq::<ParamView>::empty() =~= as_read(c).params);
}

/// The call of a block is read, and then those behind it.
proof fn lemma_block_read(body: Seq<char>, b: int, c: ToolCallView)
    requires
        block_at(body, b, c),
        b >= 1,
        body[b - 1] == '\n',
        plain_arguments(c),
    ensures
        read_calls(body, spelling(0), b - 1) == seq![as_read(c)] + read_calls(
            body,
            spelling(0),
            b + call_block(c).len() - 1,
        ),
{
    let t = spelling(0);
    let e = escaped_attr(c.name);
    let a = args_at(b, c);
    reveal_strlit("｜DSML｜invoke");
    reveal_strlit("｜DSML｜invoke name=\"");
    reveal_strlit("\">\n");
    reveal_strlit("\">");
    reveal_strlit(">");
    lemma_block_len(c);
    lemma_block_pieces(body, b, c);
    lemma_escaped_plain(c.name, c.name.len());
    lemma_piece(body, b, b + 19, "｜DSML｜invoke name=\""@);
    lemma_piece(body, b + 19, b + 19 + e.len(), e);
    lemma_piece(body, a - 51, a - 48, "\">\n"@);
    assert(body[b] == '｜');
    assert(skip_white(body, b) == b);
    assert(skip_white(body, b - 1) == b);
    assert(body.subrange(b, b + 12) =~= t.invoke_start);
    assert(body[a - 50] == '>');
    assert forall|j: int| b + 12 <= j < a - 50 implies body[j] != '>' by {
        if j >= b + 19 && j < a - 51 {
            assert(body[j] == e[j - (b + 19)]);
        }
    }
    lemma_find_one(body, ">"@, '>', b + 12, a - 50);
    assert(body.subrange(b, a - 49) =~= invoke_tag(e)) by {
        assert forall|j: int| 0 <= j < a - 49 - b implies body.subrange(b, a - 49)[j]
            == invoke_tag(e)[j] by {
            if j >= 19 && j < 19 + e.len() {
                assert(body[b + j] == e[b + j - (b + 19)]);
            }
        }
    }
    lemma_invoke_name(e);
    lemma_block_params(body, b, c);
}

/// The calls from number `i` on are read.
proof fn lemma_read_from(calls: Seq<ToolCallView>, body: Seq<char>, i: nat)
    requires
        i <= calls.len(),
        forall|j: int| 0 <= j < calls.len() ==> plain_arguments(#[trigger] calls[j]),
        body == "\n"@ + call_blocks(calls, calls.len()),
    ensures
        read_calls(body, spelling(0), call_blocks(calls, i).len() as int) == Seq::new(
            (calls.len() - i) as nat,
            |j: int| as_read(calls[i + j]),
        ),
    decreases calls.len() - i,
{
    reveal_strlit("\n");
    reveal_strlit("｜DSML｜invoke");
    let t = spelling(0);
    let n = calls.len();
    let pos = call_blocks(calls, i).len() as int;
    lemma_before(calls, i, n);
    let goal = Seq::new((n - i) as nat, |j: int| as_read(calls[i + j]));
    if i == n {
        assert(body.len() == pos + 1);
        assert(body[pos] == '\n') by {
            lemma_newline(calls, i, n);
        }
        assert(skip_white(body, pos + 1) == pos + 1);
        assert(skip_white(body, pos) == pos + 1);
        assert(goal =~= Seq::empty());
    } else {
        let c = calls[i as int];
        lemma_before(calls, i + 1, n);
        let all = call_blocks(calls, n);
        let next = call_blocks(calls, i + 1);
        assert(next == call_blocks(calls, i) + call_block(c));
        assert(body.subrange(pos + 1, pos + 1 + call_block(c).len()) =~= call_block(c)) by {
            assert forall|j: int| 0 <= j < call_block(c).len() implies body.subrange(
                pos + 1,
                pos + 1 + call_block(c).len(),
            )[j] == call_block(c)[j] by {
                assert(body[pos + 1 + j] == all[pos + j]);
                assert(all.subrange(0, next.len() as int)[pos + j] == next[pos + j]);
            }
        }
        assert(body[pos] == '\n') by {
            lemma_newline(calls, i, n);
        }
        lemma_block_read(body, pos + 1, c);
        lemma_read_from(calls, body, i + 1);
        let rest = Seq::new((n - (i + 1)) as nat, |j: int| as_read(calls[i + 1 + j]));
        assert(seq![as_read(c)] + rest =~= goal);
    }
}

/// The first blocks start the blocks.
proof fn lemma_before(calls: Seq<ToolCallView>, i: nat, n: nat)
    requires
        i <= n <= calls.len(),
    ensures
        call_blocks(calls, i).len() <= call_blocks(calls, n).len(),
        call_blocks(calls, n).subrange(0, call_blocks(calls, i).len() as int) == call_blocks(
            calls,
            i,
        ),
    decreases n - i,
{
    if i == n {
        assert(call_blocks(calls, n).subrange(0, call_blocks(calls, n).len() as int)
            =~= call_blocks(calls, n));
    } else {
        lemma_before(calls, i, (n - 1) as nat);
        assert(call_blocks(calls, n).subrange(0, call_blocks(calls, i).len() as int)
            =~= call_blocks(calls, (n - 1) as nat).subrange(
            0,
            call_blocks(calls, i).len() as int,
        ));
    }
}

/// A block follows a newline.
proof fn lemma_newline(calls: Seq<ToolCallView>, i: nat, n: nat)
    requires
        i <= n <= calls.len(),
    ensures
        ("\n"@ + call_blocks(calls, n))[call_blocks(calls, i).len() as int] == '\n',
{
    reveal_strlit("\n");
    if i > 0 {
        reveal_strlit("｜DSML｜/invoke>\n");
        lemma_before(calls, i, n);
        let b = call_blocks(calls, i);
        let c = calls[i - 1];
        lemma_block_len(c);
        assert(b == call_blocks(calls, (i - 1) as nat) + call_block(c));
        assert(b[b.len() - 1] == call_block(c)[call_block(c).len() - 1]);
        assert(b[b.len() - 1] == '\n');
        assert(call_blocks(calls, n).subrange(0, b.len() as int)[b.len() - 1] == b[b.len() - 1]);
    }
}

/// No tag that ends the calls ends within the blocks.
proof fn lemma_blocks_open(text: Seq<char>, b: int, calls: Seq<ToolCallView>, n: nat)
    requires
        n <= calls.len(),
        forall|j: int| 0 <= j < calls.len() ==> plain_arguments(#[trigger] calls[j]),
        0 <= b,
        b + call_blocks(calls, n).len() <= text.len(),
        text.subrange(b, b + call_blocks(calls, n).len()) == call_blocks(calls, n),
    ensures
        forall|j: int|
            b <= j + 17 < b + call_blocks(calls, n).len() ==> !#[trigger] matches_at(
                text,
                "｜DSML｜/tool_calls>"@,
                j,
            ),
    decreases n,
{
    if n > 0 {
        let before = call_blocks(calls, (n - 1) as nat);
        let c = calls[n - 1];
        let m = b + before.len();
        let all = text.subrange(b, b + call_blocks(calls, n).len());
        assert(all == before + call_block(c));
        assert(text.subrange(b, b + before.len()) =~= before) by {
            assert(all.subrange(0, before.len() as int) =~= before);
            assert(text.subrange(b, b + before.len()) =~= all.subrange(0, before.len() as int));
        }
        assert(text.subrange(m, m + call_block(c).len()) =~= call_block(c)) by {
            assert(all.subrange(before.len() as int, all.len() as int) =~= call_block(c));
            assert(text.subrange(m, m + call_block(c).len()) =~= all.subrange(
                before.len() as int,
                all.len() as int,
            ));
        }
        lemma_blocks_open(text, b, calls, (n - 1) as nat);
        lemma_block_open(text, m, c);
    }
}

/// Calls that are written into a prompt are read back, one for one and in order, where
/// no arguments hold a tag that ends a parameter or the calls.
pub proof fn written_calls_are_read_back(calls: Seq<ToolCallView>)
    requires
        forall|j: int| 0 <= j < calls.len() ==> plain_arguments(#[trigger] calls[j]),
    ensures
        raw_calls(calls_text(calls)) == calls.map_values(|c: ToolCallView| as_read(c)),
{
    let t = spelling(0);
    let text = calls_text(calls);
    let n = calls.len();
    let goal = calls.map_values(|c: ToolCallView| as_read(c));
    if n == 0 {
        lemma_nothing_read(0);
        assert(goal =~= Seq::empty());
    } else {
        let body = "\n"@ + call_blocks(calls, n);
        lemma_written_body(calls);
        lemma_read_from(calls, body, 0);
        assert(call_blocks(calls, 0).len() == 0);
        assert(raw_calls(text) == read_calls(body, t, 0));
        assert(goal =~= Seq::new(n, |j: int| as_read(calls[0 + j])));
    }
}

/// The block of calls in a written text.
pub proof fn lemma_written_body(calls: Seq<ToolCallView>)
    requires
        calls.len() > 0,
        forall|j: int| 0 <= j < calls.len() ==> plain_arguments(#[trigger] calls[j]),
    ensures
        calls_body(calls_text(calls), spelling(0)) == Some("\n"@ + call_blocks(calls, calls.len())),
{
    let t = spelling(0);
    let text = calls_text(calls);
    let n = calls.len();
    let blocks = call_blocks(calls, n);
    let end = 20 + blocks.len() as int;
    let head = "\n\n｜DSML｜tool_calls>\n"@;
    lemma_head();
    lemma_calls_end();
    assert(text =~= head + blocks + t.calls_end);
    assert(text.subrange(2, 19) =~= head.subrange(2, 19));
    assert forall|j: int| 0 <= j < 2 implies !matches_at(text, t.calls_start, j) by {
        assert(text[j] == head[j]);
        if matches_at(text, t.calls_start, j) {
            assert(text.subrange(j, j + 17)[0] == text[j]);
        }
    }
    lemma_find_is(text, t.calls_start, 0, 2);
    assert(text.subrange(20, end) =~= blocks);
    assert(text.subrange(end, end + 18) =~= t.calls_end);
    lemma_blocks_open(text, 20, calls, n);
    assert forall|j: int| 19 <= j < end implies !matches_at(text, t.calls_end, j) by {
        if matches_at(text, t.calls_end, j) {
            lemma_char(text, j, j + 18, t.calls_end, j + 17);
            if j + 17 >= end {
                lemma_char(text, end, end + 18, t.calls_end, j + 17);
            }
        }
    }
    lemma_find_is(text, t.calls_end, 19, end);
    assert(text.subrange(19, end) =~= "\n"@ + blocks) by {
        assert(text[19] == head[19]);
        reveal_strlit("\n");
    }
}

proof fn lemma_head()
    ensures
        "\n\n｜DSML｜tool_calls>\n"@.len() == 20,
        "\n\n｜DSML｜tool_calls>\n"@[0] == '\n',
        "\n\n｜DSML｜tool_calls>\n"@[1] == '\n',
        "\n\n｜DSML｜tool_calls>\n"@[19] == '\n',
        "\n\n｜DSML｜tool_calls>\n"@.subrange(2, 19) == "｜DSML｜tool_calls>"@,
        "｜DSML｜tool_calls>"@.len() == 17,
        "｜DSML｜tool_calls>"@[0] == '｜',
{
    reveal_strlit("\n\n｜DSML｜tool_calls>\n");
    reveal_strlit("｜DSML｜tool_calls>");
    assert("\n\n｜DSML｜tool_calls>\n"@.subrange(2, 19) =~= "｜DSML｜tool_calls>"@);
}

/// Nothing is read from an empty text.
proof fn lemma_nothing_read(i: int)
    requires
        0 <= i <= 3,
    ensures
        raw_calls_from(Seq::empty(), i) == Seq::<RawCallView>::empty(),
    decreases 3 - i,
{
    if i < 3 {
        reveal_strlit("｜DSML｜tool_calls>");
        reveal_strlit("<|DSML|tool_calls>");
        reveal_strlit("<tool_calls>");
        lemma_find_from(Seq::<char>::empty(), spelling(i).calls_start, 0);
        lemma_nothing_read(i + 1);
    }
}

// ── Escapes ──────────────────────────────────────────────────────────────

/// A character of a text in which the first `level` of `&`, `<` and `>` are not escaped.
spec fn image(level: int, c: char) -> Seq<char> {
    if c == '&' && level < 1 {
        "&amp;"@
    } else if c == '<' && level < 2 {
        "&lt;"@
    } else if c == '>' && level < 3 {
        "&gt;"@
    } else {
        seq![c]
    }
}

/// The characters from `i` on.
spec fn image_from(level: int, s: Seq<char>, i: int) -> Seq<char>
    decreases s.len() - i,
{
    if i < 0 || i >= s.len() {
        Seq::empty()
    } else {
        image(level, s[i]) + image_from(level, s, i + 1)
    }
}

proof fn lemma_image_is_escaped(s: Seq<char>, i: int)
    requires
        0 <= i <= s.len(),
    ensures
        escaped(s, false, i as nat) + image_from(0, s, i) == escaped_text(s),
    decreases s.len() - i,
{
    if i < s.len() {
        lemma_image_is_escaped(s, i + 1);
        assert(escaped(s, false, (i + 1) as nat) == escaped(s, false, i as nat) + escaped_char(
            s[i],
            false,
        ));
        assert(escaped(s, false, i as nat) + (image(0, s[i]) + image_from(0, s, i + 1))
            =~= escaped(s, false, (i + 1) as nat) + image_from(0, s, i + 1));
    } else {
        assert(escaped_text(s) + Seq::<char>::empty() =~= escaped_text(s));
    }
}

proof fn lemma_image_is_plain(s: Seq<char>, i: int)
    requires
        0 <= i <= s.len(),
    ensures
        image_from(3, s, i) == s.subrange(i, s.len() as int),
    decreases s.len() - i,
{
    if i < s.len() {
        lemma_image_is_plain(s, i + 1);
        assert(seq![s[i]] + s.subrange(i + 1, s.len() as int) =~= s.subrange(i, s.len() as int));
    } else {
        assert(s.subrange(i, i) =~= Seq::<char>::empty());
    }
}

/// A search behind a beginning does not see the beginning.
pub proof fn lemma_find_shift(a: Seq<char>, b: Seq<char>, pat: Seq<char>, j: int)
    requires
        0 <= j,
    ensures
        find_from(a + b, pat, a.len() + j) == match find_from(b, pat, j) {
            Some(k) => Some(a.len() + k),
            None => None,
        },
    decreases b.len() + 1 - j,
{
    if j <= b.len() {
        assert(matches_at(a + b, pat, a.len() + j) == matches_at(b, pat, j)) by {
            if a.len() + j + pat.len() <= (a + b).len() {
                assert((a + b).subrange(a.len() + j, a.len() + j + pat.len()) =~= b.subrange(
                    j,
                    j + pat.len(),
                ));
            }
        }
        lemma_find_shift(a, b, pat, j + 1);
    }
}

/// What is replaced behind a beginning does not depend on it.
proof fn lemma_replace_shift(
    a: Seq<char>,
    b: Seq<char>,
    pat: Seq<char>,
    with: Seq<char>,
    j: int,
)
    requires
        0 <= j <= b.len(),
        pat.len() > 0,
    ensures
        replaced_from(a + b, pat, with, a.len() + j) == replaced_from(b, pat, with, j),
    decreases b.len() - j,
{
    lemma_find_shift(a, b, pat, j);
    lemma_find_from(b, pat, j);
    match find_from(b, pat, j) {
        Some(k) => {
            lemma_replace_shift(a, b, pat, with, k + pat.len());
            assert((a + b).subrange(a.len() + j, a.len() + k) =~= b.subrange(j, k));
            assert(a.len() + k + pat.len() == a.len() + (k + pat.len()));
        },
        None => {
            assert((a + b).subrange(a.len() + j, (a + b).len() as int) =~= b.subrange(
                j,
                b.len() as int,
            ));
        },
    }
}

/// Nothing is replaced in a beginning in which no match starts.
proof fn lemma_replace_skip(a: Seq<char>, b: Seq<char>, pat: Seq<char>, with: Seq<char>)
    requires
        pat.len() > 0,
        forall|j: int| 0 <= j < a.len() ==> !matches_at(a + b, pat, j),
    ensures
        replaced(a + b, pat, with) == a + replaced(b, pat, with),
{
    let m = a + b;
    lemma_find_from(m, pat, 0);
    lemma_find_from(m, pat, a.len() as int);
    lemma_replace_shift(a, b, pat, with, 0);
    assert(find_from(m, pat, 0) == find_from(m, pat, a.len() as int)) by {
        match find_from(m, pat, 0) {
            Some(k) => {
                assert(k >= a.len());
            },
            None => {},
        }
    }
    match find_from(m, pat, 0) {
        Some(k) => {
            assert(m.subrange(0, k) =~= a + m.subrange(a.len() as int, k));
            let rest = replaced_from(m, pat, with, k + pat.len());
            assert(m.subrange(0, k) + with + rest =~= a + (m.subrange(a.len() as int, k) + with
                + rest));
        },
        None => {
            assert(m.subrange(0, m.len() as int) =~= a + m.subrange(
                a.len() as int,
                m.len() as int,
            ));
        },
    }
}

/// A match at the start is replaced.
proof fn lemma_replace_first(b: Seq<char>, pat: Seq<char>, with: Seq<char>)
    requires
        pat.len() > 0,
    ensures
        replaced(pat + b, pat, with) == with + replaced(b, pat, with),
{
    assert((pat + b).subrange(0, pat.len() as int) =~= pat);
    lemma_replace_shift(pat, b, pat, with, 0);
    assert((pat + b).subrange(0, 0) + with + replaced(b, pat, with) =~= with + replaced(
        b,
        pat,
        with,
    ));
}

/// A text without ampersands that stands at the start of an image stands there as it is.
proof fn lemma_raw(level: int, s: Seq<char>, i: int, t: Seq<char>)
    requires
        0 <= i <= s.len(),
        matches_at(image_from(level, s, i), t, 0),
        forall|j: int| 0 <= j < t.len() ==> t[j] != '&',
    ensures
        i + t.len() <= s.len(),
        s.subrange(i, i + t.len()) == t,
    decreases t.len(),
{
    let m = image_from(level, s, i);
    if t.len() > 0 {
        reveal_strlit("&amp;");
        reveal_strlit("&lt;");
        reveal_strlit("&gt;");
        assert(m.subrange(0, t.len() as int)[0] == t[0]);
        assert(i < s.len());
        assert(image(level, s[i]) =~= seq![s[i]]);
        let rest = t.drop_first();
        let n = image_from(level, s, i + 1);
        assert(m =~= seq![s[i]] + n);
        assert(n.subrange(0, rest.len() as int) =~= rest) by {
            assert forall|j: int| 0 <= j < rest.len() implies n.subrange(0, rest.len() as int)[j]
                == rest[j] by {
                assert(m.subrange(0, t.len() as int)[j + 1] == t[j + 1]);
            }
        }
        lemma_raw(level, s, i + 1, rest);
        assert(s.subrange(i, i + t.len()) =~= t) by {
            assert forall|j: int| 0 <= j < t.len() implies s.subrange(i, i + t.len())[j] == t[j] by {
                if j > 0 {
                    assert(s.subrange(i + 1, i + 1 + rest.len())[j - 1] == rest[j - 1]);
                }
            }
        }
    } else {
        assert(s.subrange(i, i) =~= t);
    }
}

/// The entity that a level replaces, and the character that it stands for.
spec fn entity(level: int) -> Seq<char> {
    if level <= 0 {
        "&amp;"@
    } else if level == 1 {
        "&lt;"@
    } else {
        "&gt;"@
    }
}

spec fn meant(level: int) -> char {
    if level <= 0 {
        '&'
    } else if level == 1 {
        '<'
    } else {
        '>'
    }
}

/// No match of a level's entity starts within the image of another character.
proof fn lemma_other_image(level: int, s: Seq<char>, i: int, j: int)
    requires
        0 <= level < 3,
        0 <= i < s.len(),
        s[i] != meant(level),
        level > 0 ==> !occurs(s, entity(level)),
        0 <= j < image(level, s[i]).len(),
    ensures
        !matches_at(image_from(level, s, i), entity(level), j),
{
    reveal_strlit("&amp;");
    reveal_strlit("&lt;");
    reveal_strlit("&gt;");
    let m = image_from(level, s, i);
    let pat = entity(level);
    if matches_at(m, pat, j) {
        assert(m.subrange(j, j + pat.len())[0] == m[j]);
        assert(m.subrange(j, j + pat.len())[1] == m[j + 1]);
        assert(m[j] == image(level, s[i])[j]);
        if s[i] == '&' {
            assert(j == 0);
            let rest = pat.drop_first();
            let n = image_from(level, s, i + 1);
            assert(m =~= seq![s[i]] + n);
            assert(n.subrange(0, rest.len() as int) =~= rest) by {
                assert forall|k: int| 0 <= k < rest.len() implies n.subrange(
                    0,
                    rest.len() as int,
                )[k] == rest[k] by {
                    assert(m.subrange(0, pat.len() as int)[k + 1] == pat[k + 1]);
                }
            }
            lemma_raw(level, s, i + 1, rest);
            assert(s.subrange(i, i + pat.len()) =~= pat) by {
                assert forall|k: int| 0 <= k < pat.len() implies s.subrange(i, i + pat.len())[k]
                    == pat[k] by {
                    if k > 0 {
                        assert(s.subrange(i + 1, i + 1 + rest.len())[k - 1] == rest[k - 1]);
                    }
                }
            }
            assert(matches_at(s, pat, i));
        } else if s[i] == '<' || s[i] == '>' {
            if image(level, s[i]).len() > 1 {
                assert(m[j + 1] == image(level, s[i])[j + 1]);
            }
        }
    }
}

/// Replacing a level's entity raises the level.
proof fn lemma_level(level: int, s: Seq<char>, i: int)
    requires
        0 <= level < 3,
        0 <= i <= s.len(),
        level > 0 ==> !occurs(s, entity(level)),
    ensures
        replaced(image_from(level, s, i), entity(level), seq![meant(level)]) == image_from(
            level + 1,
            s,
            i,
        ),
    decreases s.len() - i,
{
    reveal_strlit("&amp;");
    reveal_strlit("&lt;");
    reveal_strlit("&gt;");
    let pat = entity(level);
    let with = seq![meant(level)];
    if i < s.len() {
        lemma_level(level, s, i + 1);
        let a = image(level, s[i]);
        let b = image_from(level, s, i + 1);
        if s[i] == meant(level) {
            assert(a == pat);
            lemma_replace_first(b, pat, with);
        } else {
            assert forall|j: int| 0 <= j < a.len() implies !matches_at(a + b, pat, j) by {
                lemma_other_image(level, s, i, j);
            }
            lemma_replace_skip(a, b, pat, with);
        }
    } else {
        lemma_find_from(Seq::<char>::empty(), pat, 0);
        assert(Seq::<char>::empty().subrange(0, 0) =~= Seq::<char>::empty());
    }
}

proof fn lemma_nothing_replaced(s: Seq<char>, pat: Seq<char>, with: Seq<char>)
    requires
        !occurs(s, pat),
    ensures
        replaced(s, pat, with) == s,
{
    lemma_find_from(s, pat, 0);
    assert(s.subrange(0, s.len() as int) =~= s);
}

/// A text that is escaped and unescaped again is what it was, unless it holds one of the
/// entities other than that of the ampersand.
pub proof fn escaped_text_is_restored(s: Seq<char>)
    requires
        !occurs(s, "&lt;"@),
        !occurs(s, "&gt;"@),
        !occurs(s, "&quot;"@),
        !occurs(s, "&apos;"@),
    ensures
        unescaped(escaped_text(s)) == s,
{
    lemma_image_is_escaped(s, 0);
    assert(escaped(s, false, 0) + image_from(0, s, 0) =~= image_from(0, s, 0));
    reveal_strlit("&");
    reveal_strlit("<");
    reveal_strlit(">");
    assert("&"@ =~= seq!['&']);
    assert("<"@ =~= seq!['<']);
    assert(">"@ =~= seq!['>']);
    lemma_level(0, s, 0);
    lemma_level(1, s, 0);
    lemma_level(2, s, 0);
    lemma_image_is_plain(s, 0);
    assert(s.subrange(0, s.len() as int) =~= s);
    lemma_nothing_replaced(s, "&quot;"@, "\""@);
    lemma_nothing_replaced(s, "&apos;"@, "'"@);
}

} // verus!

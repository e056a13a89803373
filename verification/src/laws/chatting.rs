//! What the tokens of a conversation are held to.
use vstd::prelude::*;

use crate::chat::{
    chat_prompt, listed, message_tokens, rendered_tokens, special_text_is_one_token, specials,
    think_marker,
};
use crate::text::dec_int;
use crate::tokenizer::{text_tokens, VocabView};
use crate::types::{mode_for_context, ThinkMode, DS4_REASONING_EFFORT_MAX_PREFIX};

verus! {

/// A marker in a rendered conversation becomes the one token that the vocabulary has for
/// it, and the rest is rendered as it would be alone.
pub proof fn markers_become_their_tokens(v: VocabView, rest: Seq<char>)
    ensures
        ({
            let r = rendered_tokens(v, rest);
            &&& rendered_tokens(v, "<｜begin▁of▁sentence｜>"@ + rest) == seq![v.bos_id] + r
            &&& rendered_tokens(v, "<｜end▁of▁sentence｜>"@ + rest) == seq![v.eos_id] + r
            &&& rendered_tokens(v, "<｜User｜>"@ + rest) == seq![v.user_id] + r
            &&& rendered_tokens(v, "<｜Assistant｜>"@ + rest) == seq![v.assistant_id] + r
            &&& rendered_tokens(v, "<think>"@ + rest) == seq![v.think_start_id] + r
            &&& rendered_tokens(v, "</think>"@ + rest) == seq![v.think_end_id] + r
            &&& rendered_tokens(v, "｜DSML｜"@ + rest) == seq![v.dsml_id] + r
        }),
{
    assert forall|k: int| 0 <= k < 7 implies rendered_tokens(v, #[trigger] specials(v)[k].0 + rest)
        == seq![specials(v)[k].1] + rendered_tokens(v, rest) by {
        special_text_is_one_token(v, k, rest);
    }
    assert(specials(v)[0].0 == "<｜begin▁of▁sentence｜>"@ && specials(v)[0].1 == v.bos_id);
    assert(specials(v)[1].0 == "<｜end▁of▁sentence｜>"@ && specials(v)[1].1 == v.eos_id);
    assert(specials(v)[2].0 == "<｜User｜>"@ && specials(v)[2].1 == v.user_id);
    assert(specials(v)[3].0 == "<｜Assistant｜>"@ && specials(v)[3].1 == v.assistant_id);
    assert(specials(v)[4].0 == "<think>"@ && specials(v)[4].1 == v.think_start_id);
    assert(specials(v)[5].0 == "</think>"@ && specials(v)[5].1 == v.think_end_id);
    assert(specials(v)[6].0 == "｜DSML｜"@ && specials(v)[6].1 == v.dsml_id);
}

/// A whole prompt opens with the first token of every text and closes with the opening of
/// the assistant's turn; before that stand the user's token and the user's words, and
/// between the two the prefix of the greatest effort, where it is asked for, and the system
/// text, in this order.
pub proof fn prompt_frames_its_texts(
    v: VocabView,
    system: Option<Seq<char>>,
    prompt: Seq<char>,
    mode: ThinkMode,
)
    ensures
        ({
            let p = chat_prompt(v, system, prompt, mode);
            let words = text_tokens(v, prompt);
            let n = p.len() as int;
            let w = n - 2 - words.len();
            let max = if mode == ThinkMode::Max {
                text_tokens(v, DS4_REASONING_EFFORT_MAX_PREFIX@)
            } else {
                Seq::empty()
            };
            let sys = if system is Some && system->0.len() > 0 {
                text_tokens(v, system->0)
            } else {
                Seq::empty()
            };
            &&& n == max.len() + sys.len() + words.len() + 4
            &&& p[0] == v.bos_id
            &&& p.subrange(1, 1int + max.len()) == max
            &&& p.subrange(1int + max.len(), w - 1) == sys
            &&& p[w - 1] == v.user_id
            &&& p.subrange(w, n - 2) == words
            &&& p[n - 2] == v.assistant_id
            &&& mode == ThinkMode::Off ==> p[n - 1] == v.think_end_id
            &&& mode != ThinkMode::Off ==> p[n - 1] == v.think_start_id
        }),
{
    let max = if mode == ThinkMode::Max {
        text_tokens(v, DS4_REASONING_EFFORT_MAX_PREFIX@)
    } else {
        Seq::empty()
    };
    let sys = if system is Some && system->0.len() > 0 {
        text_tokens(v, system->0)
    } else {
        Seq::empty()
    };
    lemma_frame(
        v.bos_id,
        max,
        sys,
        v.user_id,
        text_tokens(v, prompt),
        v.assistant_id,
        think_marker(v, mode),
    );
}

proof fn lemma_frame(
    a: i32,
    b: Seq<i32>,
    c: Seq<i32>,
    d: i32,
    e: Seq<i32>,
    f: i32,
    g: i32,
)
    ensures
        ({
            let p = seq![a] + b + c + seq![d] + e + seq![f] + seq![g];
            let n = p.len() as int;
            let w = n - 2 - e.len();
            &&& n == b.len() + c.len() + e.len() + 4
            &&& p[0] == a
            &&& p.subrange(1, 1int + b.len()) == b
            &&& p.subrange(1int + b.len(), w - 1) == c
            &&& p[w - 1] == d
            &&& p.subrange(w, n - 2) == e
            &&& p[n - 2] == f
            &&& p[n - 1] == g
        }),
{
    let p = seq![a] + b + c + seq![d] + e + seq![f] + seq![g];
    let n = p.len() as int;
    let w = n - 2 - e.len();
    assert(p.subrange(1, 1int + b.len()) =~= b);
    assert(p.subrange(1int + b.len(), w - 1) =~= c);
    assert(p.subrange(w, n - 2) =~= e);
}

/// A message ends with the tokens of its words, and what stands before them tells who
/// speaks: nothing before the system's, the assistant's token before the assistant's, and
/// the user's token before everybody else's.
pub proof fn messages_tell_who_speaks(v: VocabView, role: Seq<char>, content: Seq<char>)
    ensures
        ({
            let m = message_tokens(v, role, content);
            let words = text_tokens(v, content);
            let lead = m.len() - words.len();
            let opens = |s: Seq<char>|
                s.len() <= content.len() && content.subrange(0, s.len() as int) == s;
            &&& lead >= 0
            &&& m.subrange(lead, m.len() as int) == words
            &&& role == "system"@ || role == "developer"@ ==> lead == 0
            &&& role == "assistant"@ ==> m[0] == v.assistant_id && if opens("<think>"@) || opens(
                "</think>"@,
            ) {
                lead == 1
            } else {
                lead == 2 && m[1] == v.think_end_id
            }
            &&& role == "user"@ ==> lead == 1 && m[0] == v.user_id
            &&& role == "tool"@ || role == "function"@ ==> lead >= 1 && m[0] == v.user_id
                && m.subrange(1, lead) == text_tokens(v, "Tool: "@)
        }),
{
    let m = message_tokens(v, role, content);
    let words = text_tokens(v, content);
    let lead = m.len() - words.len();
    let said = text_tokens(v, "Tool: "@);
    reveal_strlit("system");
    reveal_strlit("developer");
    reveal_strlit("assistant");
    reveal_strlit("tool");
    reveal_strlit("function");
    reveal_strlit("user");
    assert("system"@[0] == 's' && "developer"@[0] == 'd' && "assistant"@[0] == 'a' && "tool"@[0]
        == 't' && "function"@[0] == 'f' && "user"@[0] == 'u');
    assert(m.subrange(lead, m.len() as int) =~= words);
    if role == "tool"@ || role == "function"@ {
        assert(m.subrange(1, lead) =~= said);
    }
}

/// The greatest effort is for contexts that are large enough; in a smaller one it falls
/// back to ordinary thinking, and no other mode depends on the context.
pub proof fn greatest_effort_needs_room(mode: ThinkMode, ctx: int)
    ensures
        mode != ThinkMode::Max ==> mode_for_context(mode, ctx) == mode,
        mode == ThinkMode::Max && ctx < 393216 ==> mode_for_context(mode, ctx) == ThinkMode::High,
        mode == ThinkMode::Max && ctx >= 393216 ==> mode_for_context(mode, ctx) == ThinkMode::Max,
{
}

/// A list of numbers reads on behind a comma.
pub proof fn listed_numbers_are_parted(ids: Seq<i32>, id: i32)
    ensures
        listed(ids.push(id), ids.len() + 1) == if ids.len() == 0 {
            dec_int(id as int)
        } else {
            listed(ids, ids.len()) + ", "@ + dec_int(id as int)
        },
{
    lemma_listed_prefix(ids, id, ids.len());
    assert(ids.push(id)[ids.len() as int] == id);
    if ids.len() == 0 {
        assert(listed(ids, 0) =~= Seq::empty());
        assert(Seq::<char>::empty() + Seq::<char>::empty() + dec_int(id as int) =~= dec_int(
            id as int,
        ));
    }
}

proof fn lemma_listed_prefix(ids: Seq<i32>, id: i32, n: nat)
    requires
        n <= ids.len(),
    ensures
        listed(ids.push(id), n) == listed(ids, n),
    decreases n,
{
    if n > 0 {
        lemma_listed_prefix(ids, id, (n - 1) as nat);
        assert(ids.push(id)[n - 1] == ids[n - 1]);
    }
}

} // verus!

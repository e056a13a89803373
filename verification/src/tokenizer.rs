//! The BPE vocabulary and the tokenizer.
use vstd::hash_map::StringHashMap;
use vstd::prelude::*;
use vstd::utf8::encode_utf8;

use crate::encoding::{
    byte_char, byte_decode_str, byte_encode_str, char_len, char_of_byte, decoded, decoded_bytes,
    encoded_chars, lossy_utf8, next_utf8_char, text_roundtrip, utf8_decode_one,
};
use crate::gguf::{meta_views, MetaView, MetadataValue, ModelGGUF, ModelView};
use crate::text::append;

verus! {

/// A token beyond the base vocabulary.
#[derive(Debug, Clone)]
pub struct AddedToken {
    pub id: i32,
    pub content: String,
    pub single_word: bool,
    pub lstrip: bool,
    pub rstrip: bool,
    pub normalized: bool,
    pub special: bool,
}

/// The vocabulary of a model.
pub struct Vocab {
    /// The bytes of each token as the file has them.
    pub tokens: Vec<Vec<u8>>,
    /// Scores of the tokens, as bit patterns of singles.
    pub scores: Vec<u32>,
    /// Token IDs by the byte-encoded text.
    pub token_to_id: StringHashMap<i32>,
    /// Texts of the tokens, byte-decoded.
    pub id_to_token: Vec<String>,
    /// Ranks of the merges: the two sides with a space between them.
    pub merge_rank: StringHashMap<i32>,
    pub bos_id: i32,
    pub eos_id: i32,
    pub pad_id: i32,
    /// Number of added tokens that the file lists.
    pub extra_ids: i32,
    /// Tokens beyond the base vocabulary.
    pub added_tokens: Vec<AddedToken>,
    pub user_id: i32,
    pub assistant_id: i32,
    pub think_start_id: i32,
    pub think_end_id: i32,
    pub dsml_id: i32,
}

/// The mathematical form of a vocabulary.
#[verifier::ext_equal]
pub struct VocabView {
    pub tokens: Seq<Seq<u8>>,
    pub scores: Seq<u32>,
    pub token_to_id: Map<Seq<char>, i32>,
    pub id_to_token: Seq<Seq<char>>,
    pub merge_rank: Map<Seq<char>, i32>,
    pub bos_id: i32,
    pub eos_id: i32,
    pub pad_id: i32,
    pub extra_ids: i32,
    pub added: Seq<AddedToken>,
    pub user_id: i32,
    pub assistant_id: i32,
    pub think_start_id: i32,
    pub think_end_id: i32,
    pub dsml_id: i32,
}

pub open spec fn byte_views(s: Seq<Vec<u8>>) -> Seq<Seq<u8>> {
    Seq::new(s.len(), |i: int| s[i]@)
}

pub open spec fn string_views(s: Seq<String>) -> Seq<Seq<char>> {
    Seq::new(s.len(), |i: int| s[i]@)
}

impl View for Vocab {
    type V = VocabView;

    open spec fn view(&self) -> VocabView {
        VocabView {
            tokens: byte_views(self.tokens@),
            scores: self.scores@,
            token_to_id: self.token_to_id@,
            id_to_token: string_views(self.id_to_token@),
            merge_rank: self.merge_rank@,
            bos_id: self.bos_id,
            eos_id: self.eos_id,
            pad_id: self.pad_id,
            extra_ids: self.extra_ids,
            added: self.added_tokens@,
            user_id: self.user_id,
            assistant_id: self.assistant_id,
            think_start_id: self.think_start_id,
            think_end_id: self.think_end_id,
            dsml_id: self.dsml_id,
        }
    }
}

/// Why a model has no usable vocabulary.
#[derive(Debug, Clone, Copy, PartialEq, Eq, Structural)]
pub enum VocabError {
    /// The token table is missing.
    NoTokens,
    /// The token table is empty.
    EmptyTokens,
    /// The merge table is missing.
    NoMerges,
    /// There are more added tokens than can be counted.
    TooManyAdded,
}

// ── What a file says ─────────────────────────────────────────────────────

/// The text of an item of a table; empty where it is no string.
pub open spec fn item_text(v: MetaView) -> Seq<char> {
    match v.as_string() {
        Some(s) => s,
        None => Seq::empty(),
    }
}

/// The key of a token under which it is found.
pub open spec fn token_key(text: Seq<char>) -> Seq<char> {
    encoded_chars(encode_utf8(text))
}

/// The IDs of the first `n` tokens; a later token takes the key from an earlier one.
pub open spec fn token_ids(items: Seq<MetaView>, n: nat) -> Map<Seq<char>, i32>
    decreases n,
{
    if n == 0 {
        Map::empty()
    } else {
        token_ids(items, (n - 1) as nat).insert(
            token_key(item_text(items[n - 1])),
            (n - 1) as i32,
        )
    }
}

/// The ranks of the first `n` merges; items that are no strings are passed over.
pub open spec fn merge_ranks(items: Seq<MetaView>, n: nat) -> Map<Seq<char>, i32>
    decreases n,
{
    if n == 0 {
        Map::empty()
    } else {
        let rest = merge_ranks(items, (n - 1) as nat);
        match items[n - 1].as_string() {
            Some(s) => rest.insert(s, (n - 1) as i32),
            None => rest,
        }
    }
}

/// The scores of the first `n` items that are numbers.
pub open spec fn item_scores(items: Seq<MetaView>, n: nat) -> Seq<u32>
    decreases n,
{
    if n == 0 {
        Seq::empty()
    } else {
        let rest = item_scores(items, (n - 1) as nat);
        match items[n - 1].as_f32() {
            Some(b) => rest.push(b),
            None => rest,
        }
    }
}

/// How many of the first `n` items are strings or arrays.
pub open spec fn added_count(items: Seq<MetaView>, n: nat) -> int
    decreases n,
{
    if n == 0 {
        0
    } else {
        added_count(items, (n - 1) as nat) + if items[n - 1].as_string() is Some
            || items[n - 1].as_array() is Some {
            1int
        } else {
            0
        }
    }
}

/// The last of the first `n` tokens with the text `token`.
pub open spec fn last_index(items: Seq<MetaView>, token: Seq<char>, n: nat) -> Option<int>
    decreases n,
{
    if n == 0 {
        None
    } else if item_text(items[n - 1]) == token {
        Some(n - 1)
    } else {
        last_index(items, token, (n - 1) as nat)
    }
}

/// The ID of a special token: its place in the token table, or -1 where it is absent.
pub open spec fn special_id(items: Seq<MetaView>, token: Seq<char>) -> i32 {
    match last_index(items, token, items.len()) {
        Some(i) => i as i32,
        None => -1i32,
    }
}

pub open spec fn added_items(m: ModelView) -> Seq<MetaView> {
    match m.get_array("tokenizer.ggml.added_tokens"@) {
        Some(a) => a,
        None => Seq::empty(),
    }
}

/// What keeps a model from having a vocabulary.
pub open spec fn vocab_error(m: ModelView) -> Option<VocabError> {
    match m.get_array("tokenizer.ggml.tokens"@) {
        None => Some(VocabError::NoTokens),
        Some(items) => if items.len() == 0 {
            Some(VocabError::EmptyTokens)
        } else if m.get_array("tokenizer.ggml.merges"@) is None {
            Some(VocabError::NoMerges)
        } else if added_count(added_items(m), added_items(m).len()) > i32::MAX {
            Some(VocabError::TooManyAdded)
        } else {
            None
        },
    }
}

/// The vocabulary of a model that has one.
pub open spec fn vocab_of(m: ModelView) -> VocabView {
    let items = m.get_array("tokenizer.ggml.tokens"@)->0;
    let merges = m.get_array("tokenizer.ggml.merges"@)->0;
    let eos = special_id(items, "<｜end▁of▁sentence｜>"@);
    VocabView {
        tokens: Seq::new(items.len(), |i: int| encode_utf8(item_text(items[i]))),
        scores: match m.get_array("tokenizer.ggml.scores"@) {
            Some(a) => item_scores(a, a.len()),
            None => Seq::new(items.len(), |i: int| 0u32),
        },
        token_to_id: token_ids(items, items.len()),
        id_to_token: Seq::new(
            items.len(),
            |i: int| lossy_utf8(decoded_bytes(encode_utf8(item_text(items[i])), 0)),
        ),
        merge_rank: merge_ranks(merges, merges.len()),
        bos_id: special_id(items, "<｜begin▁of▁sentence｜>"@),
        eos_id: eos,
        pad_id: match m.get_u32("tokenizer.ggml.padding_token_id"@) {
            Some(v) => v as i32,
            None => eos,
        },
        extra_ids: added_count(added_items(m), added_items(m).len()) as i32,
        added: Seq::empty(),
        user_id: special_id(items, "<｜User｜>"@),
        assistant_id: special_id(items, "<｜Assistant｜>"@),
        think_start_id: special_id(items, "<think>"@),
        think_end_id: special_id(items, "</think>"@),
        dsml_id: special_id(items, "｜DSML｜"@),
    }
}

/// Two texts with one key are the same text.
proof fn lemma_key_injective(a: Seq<char>, b: Seq<char>)
    requires
        token_key(a) == token_key(b),
    ensures
        a == b,
{
    text_roundtrip(a);
    text_roundtrip(b);
}

/// The table of IDs holds a text exactly where it is a token, with the last index.
proof fn lemma_token_ids(items: Seq<MetaView>, token: Seq<char>, n: nat)
    ensures
        match last_index(items, token, n) {
            Some(i) => token_ids(items, n).contains_key(token_key(token)) && token_ids(
                items,
                n,
            )[token_key(token)] == i as i32,
            None => !token_ids(items, n).contains_key(token_key(token)),
        },
    decreases n,
{
    if n > 0 {
        let text = item_text(items[n - 1]);
        lemma_token_ids(items, token, (n - 1) as nat);
        if text != token && token_key(text) == token_key(token) {
            lemma_key_injective(text, token);
        }
    }
}

/// A special token has the index that it has in the token table; one that is listed
/// nowhere has the ID -1.
pub proof fn special_token_has_its_index(items: Seq<MetaView>, token: Seq<char>, i: int)
    requires
        0 <= i < items.len() <= i32::MAX,
    ensures
        item_text(items[i]) == token && (forall|j: int|
            i < j < items.len() ==> item_text(#[trigger] items[j]) != token) ==> special_id(
            items,
            token,
        ) == i,
        (forall|j: int| 0 <= j < items.len() ==> item_text(#[trigger] items[j]) != token)
            ==> special_id(items, token) == -1,
{
    lemma_last_index(items, token, items.len());
}

proof fn lemma_last_index(items: Seq<MetaView>, token: Seq<char>, n: nat)
    requires
        n <= items.len(),
    ensures
        match last_index(items, token, n) {
            Some(i) => 0 <= i < n && item_text(items[i]) == token && forall|j: int|
                i < j < n ==> item_text(#[trigger] items[j]) != token,
            None => forall|j: int| 0 <= j < n ==> item_text(#[trigger] items[j]) != token,
        },
    decreases n,
{
    if n > 0 {
        lemma_last_index(items, token, (n - 1) as nat);
    }
}

fn lookup_special(ids: &StringHashMap<i32>, token: &str) -> (r: i32)
    ensures
        r == if ids@.contains_key(token_key(token@)) {
            ids@[token_key(token@)]
        } else {
            -1i32
        },
{
    let key = byte_encode_str(token);
    match ids.get(key.as_str()) {
        Some(id) => *id,
        None => -1,
    }
}

/// The tables that the token list gives: bytes, IDs and texts.
fn load_tokens(items: &[MetadataValue]) -> (r: (Vec<Vec<u8>>, StringHashMap<i32>, Vec<String>))
    ensures
        ({
            let views = meta_views(items@);
            &&& byte_views(r.0@) == Seq::new(
                items@.len(),
                |i: int| encode_utf8(item_text(views[i])),
            )
            &&& r.1@ == token_ids(views, items@.len())
            &&& string_views(r.2@) == Seq::new(
                items@.len(),
                |i: int| lossy_utf8(decoded_bytes(encode_utf8(item_text(views[i])), 0)),
            )
        }),
{
    let ghost views = meta_views(items@);
    let mut tokens: Vec<Vec<u8>> = Vec::new();
    let mut ids: StringHashMap<i32> = StringHashMap::new();
    let mut texts: Vec<String> = Vec::new();
    let mut i: usize = 0;
    while i < items.len()
        invariant
            i <= items@.len(),
            views == meta_views(items@),
            tokens@.len() == i,
            texts@.len() == i,
            ids@ == token_ids(views, i as nat),
            forall|k: int|
                0 <= k < i ==> (#[trigger] tokens@[k])@ == encode_utf8(item_text(views[k])),
            forall|k: int|
                0 <= k < i ==> (#[trigger] texts@[k])@ == lossy_utf8(
                    decoded_bytes(encode_utf8(item_text(views[k])), 0),
                ),
        decreases items@.len() - i,
    {
        assert(views[i as int] == items@[i as int]@);
        let s = match items[i].as_string() {
            Some(s) => s,
            None => {
                proof {
                    reveal_strlit("");
                    assert(""@ =~= Seq::empty());
                }
                ""
            },
        };
        tokens.push(s.as_bytes_vec());
        ids.insert(byte_encode_str(s), i as i32);
        texts.push(byte_decode_str(s));
        i = i + 1;
    }
    proof {
        assert(byte_views(tokens@) =~= Seq::new(
            items@.len(),
            |i: int| encode_utf8(item_text(views[i])),
        ));
        assert(string_views(texts@) =~= Seq::new(
            items@.len(),
            |i: int| lossy_utf8(decoded_bytes(encode_utf8(item_text(views[i])), 0)),
        ));
    }
    (tokens, ids, texts)
}

fn load_merges(items: &[MetadataValue]) -> (r: StringHashMap<i32>)
    ensures
        r@ == merge_ranks(meta_views(items@), items@.len()),
{
    let ghost views = meta_views(items@);
    let mut ranks: StringHashMap<i32> = StringHashMap::new();
    let mut i: usize = 0;
    while i < items.len()
        invariant
            i <= items@.len(),
            views == meta_views(items@),
            ranks@ == merge_ranks(views, i as nat),
        decreases items@.len() - i,
    {
        assert(views[i as int] == items@[i as int]@);
        match items[i].as_string() {
            Some(s) => {
                ranks.insert(String::from_str(s), i as i32);
            },
            None => {},
        }
        i = i + 1;
    }
    ranks
}

fn load_scores(items: &[MetadataValue]) -> (r: Vec<u32>)
    ensures
        r@ == item_scores(meta_views(items@), items@.len()),
{
    let ghost views = meta_views(items@);
    let mut scores: Vec<u32> = Vec::new();
    let mut i: usize = 0;
    while i < items.len()
        invariant
            i <= items@.len(),
            views == meta_views(items@),
            scores@ == item_scores(views, i as nat),
        decreases items@.len() - i,
    {
        assert(views[i as int] == items@[i as int]@);
        match items[i].as_f32() {
            Some(b) => {
                scores.push(b);
            },
            None => {},
        }
        i = i + 1;
    }
    scores
}

proof fn lemma_added_count(items: Seq<MetaView>, k: nat, n: nat)
    requires
        k <= n,
    ensures
        0 <= added_count(items, k) <= added_count(items, n),
    decreases n,
{
    if n > 0 {
        if k < n {
            lemma_added_count(items, k, (n - 1) as nat);
        } else {
            lemma_added_count(items, (n - 1) as nat, (n - 1) as nat);
        }
    }
}

/// How many of the items are strings or arrays, where that can be counted.
fn count_added(items: &[MetadataValue]) -> (r: Option<i32>)
    ensures
        match r {
            Some(n) => n == added_count(meta_views(items@), items@.len()),
            None => added_count(meta_views(items@), items@.len()) > i32::MAX,
        },
{
    let ghost views = meta_views(items@);
    let mut n: i32 = 0;
    let mut i: usize = 0;
    while i < items.len()
        invariant
            i <= items@.len(),
            views == meta_views(items@),
            n >= 0,
            n == added_count(views, i as nat),
        decreases items@.len() - i,
    {
        assert(views[i as int] == items@[i as int]@);
        if items[i].as_string().is_some() || items[i].as_array().is_some() {
            if n == i32::MAX {
                proof {
                    lemma_added_count(views, (i + 1) as nat, items@.len());
                }
                return None;
            }
            n = n + 1;
        }
        i = i + 1;
    }
    Some(n)
}

impl Vocab {
    /// The vocabulary of a model.
    pub fn load(model: &ModelGGUF) -> (r: Result<Self, VocabError>)
        ensures
            match r {
                Ok(v) => vocab_error(model@) is None && v@ == vocab_of(model@),
                Err(e) => vocab_error(model@) == Some(e),
            },
    {
        let items = match model.get_array("tokenizer.ggml.tokens") {
            Some(a) => a,
            None => {
                return Err(VocabError::NoTokens);
            },
        };
        if items.len() == 0 {
            return Err(VocabError::EmptyTokens);
        }
        let n_vocab: usize = items.len();
        let (tokens, token_to_id, id_to_token) = load_tokens(items);
        let merge_rank = match model.get_array("tokenizer.ggml.merges") {
            Some(a) => load_merges(a),
            None => {
                return Err(VocabError::NoMerges);
            },
        };
        let scores = match model.get_array("tokenizer.ggml.scores") {
            Some(a) => load_scores(a),
            None => {
                let zero: Vec<u32> = vec![0u32; n_vocab];
                assert(zero@ =~= Seq::new(items@.len(), |i: int| 0u32));
                zero
            },
        };
        let extra_ids: i32 = match model.get_array("tokenizer.ggml.added_tokens") {
            Some(a) => match count_added(a) {
                Some(n) => n,
                None => {
                    return Err(VocabError::TooManyAdded);
                },
            },
            None => 0,
        };
        let bos_id: i32 = lookup_special(&token_to_id, "<｜begin▁of▁sentence｜>");
        let eos_id: i32 = lookup_special(&token_to_id, "<｜end▁of▁sentence｜>");
        let user_id: i32 = lookup_special(&token_to_id, "<｜User｜>");
        let assistant_id: i32 = lookup_special(&token_to_id, "<｜Assistant｜>");
        let think_start_id: i32 = lookup_special(&token_to_id, "<think>");
        let think_end_id: i32 = lookup_special(&token_to_id, "</think>");
        let dsml_id: i32 = lookup_special(&token_to_id, "｜DSML｜");
        proof {
            let views = meta_views(items@);
            lemma_token_ids(views, "<｜begin▁of▁sentence｜>"@, views.len());
            lemma_token_ids(views, "<｜end▁of▁sentence｜>"@, views.len());
            lemma_token_ids(views, "<｜User｜>"@, views.len());
            lemma_token_ids(views, "<｜Assistant｜>"@, views.len());
            lemma_token_ids(views, "<think>"@, views.len());
            lemma_token_ids(views, "</think>"@, views.len());
            lemma_token_ids(views, "｜DSML｜"@, views.len());
        }
        let pad_id: i32 = match model.get_u32("tokenizer.ggml.padding_token_id") {
            Some(v) => v as i32,
            None => eos_id,
        };
        let v = Vocab {
            tokens,
            scores,
            token_to_id,
            id_to_token,
            merge_rank,
            bos_id,
            eos_id,
            pad_id,
            extra_ids,
            added_tokens: Vec::new(),
            user_id,
            assistant_id,
            think_start_id,
            think_end_id,
            dsml_id,
        };
        Ok(v)
    }

    /// The ID of a text that is a token.
    pub fn lookup(&self, text: &str) -> (r: Option<i32>)
        ensures
            match r {
                Some(id) => self@.token_to_id.contains_key(token_key(text@))
                    && self@.token_to_id[token_key(text@)] == id,
                None => !self@.token_to_id.contains_key(token_key(text@)),
            },
    {
        let key = byte_encode_str(text);
        match self.token_to_id.get(key.as_str()) {
            Some(id) => Some(*id),
            None => None,
        }
    }

    /// The text of a token.
    pub fn decode(&self, token: i32) -> (r: Option<String>)
        ensures
            match r {
                Some(s) => 0 <= token < self@.id_to_token.len() && s@
                    == self@.id_to_token[token as int],
                None => !(0 <= token < self@.id_to_token.len()),
            },
    {
        if token >= 0 && (token as usize) < self.id_to_token.len() {
            Some(self.id_to_token[token as usize].clone())
        } else {
            None
        }
    }
}

// ── Merging ──────────────────────────────────────────────────────────────

/// The rank of the merge of two adjacent symbols.
pub open spec fn pair_rank(v: VocabView, a: Seq<char>, b: Seq<char>) -> Option<i32> {
    let pair = a + seq![' '] + b;
    if v.merge_rank.contains_key(pair) {
        Some(v.merge_rank[pair])
    } else {
        None
    }
}

/// The pair to merge among the first `n` pairs of adjacent symbols, with its rank: the
/// one of the smallest rank, and the first of those.
pub open spec fn best_pair(v: VocabView, syms: Seq<Seq<char>>, n: int) -> Option<(int, i32)>
    decreases n,
{
    if n <= 0 {
        None
    } else {
        let prev = best_pair(v, syms, n - 1);
        let bound = match prev {
            Some((_, r)) => r,
            None => i32::MAX,
        };
        match pair_rank(v, syms[n - 1], syms[n]) {
            Some(r) => if r < bound {
                Some((n - 1, r))
            } else {
                prev
            },
            None => prev,
        }
    }
}

/// The symbols once no pair of them can be merged.
pub open spec fn merged(v: VocabView, syms: Seq<Seq<char>>) -> Seq<Seq<char>>
    decreases syms.len(),
{
    match best_pair(v, syms, syms.len() - 1) {
        Some((i, _)) => if 0 <= i < syms.len() - 1 {
            merged(v, syms.update(i, syms[i] + syms[i + 1]).remove(i + 1))
        } else {
            syms
        },
        None => syms,
    }
}

/// The text of symbols, one behind the other.
pub open spec fn joined(syms: Seq<Seq<char>>) -> Seq<char>
    decreases syms.len(),
{
    if syms.len() == 0 {
        Seq::empty()
    } else {
        syms[0] + joined(syms.drop_first())
    }
}

proof fn lemma_join_pair(syms: Seq<Seq<char>>, i: int)
    requires
        0 <= i < syms.len() - 1,
    ensures
        joined(syms.update(i, syms[i] + syms[i + 1]).remove(i + 1)) == joined(syms),
    decreases i,
{
    let new = syms.update(i, syms[i] + syms[i + 1]).remove(i + 1);
    let rest = syms.drop_first();
    if i == 0 {
        assert(new.drop_first() =~= rest.drop_first());
        assert(joined(rest) == rest[0] + joined(rest.drop_first()));
        assert(new[0] + joined(new.drop_first()) =~= syms[0] + (rest[0] + joined(
            rest.drop_first(),
        )));
    } else {
        lemma_join_pair(rest, i - 1);
        assert(new.drop_first() =~= rest.update(i - 1, rest[i - 1] + rest[i]).remove(i));
    }
}

proof fn lemma_best_pair(v: VocabView, syms: Seq<Seq<char>>, n: int)
    ensures
        best_pair(v, syms, n) matches Some((i, _)) ==> 0 <= i < n,
    decreases n,
{
    if n > 0 {
        lemma_best_pair(v, syms, n - 1);
    }
}

/// Merging keeps the text of the symbols, and leaves no pair that could be merged.
pub proof fn merging_keeps_text(v: VocabView, syms: Seq<Seq<char>>)
    ensures
        joined(merged(v, syms)) == joined(syms),
        best_pair(v, merged(v, syms), merged(v, syms).len() - 1) is None,
    decreases syms.len(),
{
    lemma_best_pair(v, syms, syms.len() - 1);
    match best_pair(v, syms, syms.len() - 1) {
        Some((i, _)) => {
            lemma_join_pair(syms, i);
            merging_keeps_text(v, syms.update(i, syms[i] + syms[i + 1]).remove(i + 1));
        },
        None => {},
    }
}

/// The tokens of the bytes `bytes[i..]`, one by one; bytes without a token give none.
pub open spec fn byte_tokens(v: VocabView, bytes: Seq<u8>, i: int) -> Seq<i32>
    decreases bytes.len() - i,
{
    if i < 0 || i >= bytes.len() {
        Seq::empty()
    } else {
        let key = seq![byte_char(bytes[i])];
        let rest = byte_tokens(v, bytes, i + 1);
        if v.token_to_id.contains_key(key) {
            seq![v.token_to_id[key]] + rest
        } else {
            rest
        }
    }
}

/// The tokens of a symbol: its own, or those of its bytes.
pub open spec fn symbol_tokens(v: VocabView, sym: Seq<char>) -> Seq<i32> {
    if v.token_to_id.contains_key(sym) {
        seq![v.token_to_id[sym]]
    } else {
        byte_tokens(v, encode_utf8(sym), 0)
    }
}

/// The tokens of the first `n` symbols.
pub open spec fn symbols_tokens(v: VocabView, syms: Seq<Seq<char>>, n: nat) -> Seq<i32>
    decreases n,
{
    if n == 0 {
        Seq::empty()
    } else {
        symbols_tokens(v, syms, (n - 1) as nat) + symbol_tokens(v, syms[n - 1])
    }
}

/// One symbol for each byte of a piece.
pub open spec fn byte_symbols(piece: Seq<u8>) -> Seq<Seq<char>> {
    Seq::new(piece.len(), |i: int| seq![byte_char(piece[i])])
}

/// The tokens of a piece of text.
pub open spec fn piece_tokens(v: VocabView, piece: Seq<u8>) -> Seq<i32> {
    let syms = merged(v, byte_symbols(piece));
    symbols_tokens(v, syms, syms.len())
}

impl Vocab {
    /// The rank of the merge of two adjacent symbols.
    fn bpe_rank(&self, a: &str, b: &str) -> (r: Option<i32>)
        ensures
            r == pair_rank(self@, a@, b@),
    {
        let mut pair = String::from_str(a);
        pair.push(' ');
        append(&mut pair, b);
        assert(pair@ =~= a@ + seq![' '] + b@);
        match self.merge_rank.get(pair.as_str()) {
            Some(r) => Some(*r),
            None => None,
        }
    }

    /// The pair of symbols to merge.
    fn find_pair(&self, syms: &Vec<String>) -> (r: Option<usize>)
        ensures
            match r {
                Some(i) => i + 1 < syms@.len() && (best_pair(
                    self@,
                    string_views(syms@),
                    syms@.len() - 1,
                ) matches Some((k, _)) && k == i),
                None => best_pair(self@, string_views(syms@), syms@.len() - 1) is None,
            },
    {
        let ghost views = string_views(syms@);
        let mut best: Option<usize> = None;
        let mut best_rank: i32 = i32::MAX;
        if syms.len() == 0 {
            return None;
        }
        let mut i: usize = 0;
        while i < syms.len() - 1
            invariant
                i <= syms@.len() - 1,
                syms@.len() > 0,
                views == string_views(syms@),
                match best {
                    Some(k) => k < i && best_pair(self@, views, i as int) == Some(
                        (k as int, best_rank),
                    ),
                    None => best_pair(self@, views, i as int) is None && best_rank == i32::MAX,
                },
            decreases syms@.len() - i,
        {
            assert(views[i as int] == syms@[i as int]@);
            assert(views[i + 1] == syms@[i + 1]@);
            match self.bpe_rank(syms[i].as_str(), syms[i + 1].as_str()) {
                Some(rank) => {
                    if rank < best_rank {
                        best_rank = rank;
                        best = Some(i);
                    }
                },
                None => {},
            }
            i = i + 1;
        }
        best
    }

    /// Merges the symbols until no pair is left to merge.
    fn merge_symbols(&self, symbols: Vec<String>) -> (r: Vec<String>)
        ensures
            string_views(r@) == merged(self@, string_views(symbols@)),
    {
        let ghost start = string_views(symbols@);
        let mut syms = symbols;
        loop
            invariant
                start == string_views(symbols@),
                merged(self@, string_views(syms@)) == merged(self@, start),
            decreases syms@.len(),
        {
            let ghost before = string_views(syms@);
            let n: usize = syms.len();
            match self.find_pair(&syms) {
                Some(i) => {
                    let mut joined = syms[i].clone();
                    append(&mut joined, syms[i + 1].as_str());
                    syms.set(i, joined);
                    syms.remove(i + 1);
                    proof {
                        let k = i as int;
                        assert(string_views(syms@) =~= before.update(k, before[k] + before[k + 1])
                            .remove(k + 1));
                    }
                },
                None => {
                    return syms;
                },
            }
        }
    }

    /// Appends the tokens of a symbol.
    fn emit_symbol(&self, sym: &str, out: &mut Vec<i32>)
        ensures
            final(out)@ == old(out)@ + symbol_tokens(self@, sym@),
    {
        match self.token_to_id.get(sym) {
            Some(id) => {
                out.push(*id);
                assert(out@ =~= old(out)@ + symbol_tokens(self@, sym@));
                return;
            },
            None => {},
        }
        let bytes = sym.as_bytes();
        let mut i: usize = 0;
        assert(out@ + byte_tokens(self@, bytes@, 0) == old(out)@ + symbol_tokens(self@, sym@));
        while i < bytes.len()
            invariant
                i <= bytes@.len(),
                out@ + byte_tokens(self@, bytes@, i as int) == old(out)@ + symbol_tokens(
                    self@,
                    sym@,
                ),
            decreases bytes@.len() - i,
        {
            let mut key = String::new();
            key.push(char_of_byte(bytes[i]));
            assert(key@ =~= seq![byte_char(bytes@[i as int])]);
            let ghost before = out@;
            let ghost rest = byte_tokens(self@, bytes@, i + 1);
            match self.token_to_id.get(key.as_str()) {
                Some(id) => {
                    out.push(*id);
                    assert(before + (seq![*id] + rest) =~= out@ + rest);
                },
                None => {},
            }
            i = i + 1;
        }
        assert(out@ + Seq::<i32>::empty() =~= out@);
    }

    /// Appends the tokens of one piece of text.
    pub fn bpe_emit_piece(&self, piece: &[u8], out: &mut Vec<i32>)
        ensures
            final(out)@ == old(out)@ + piece_tokens(self@, piece@),
    {
        let mut syms: Vec<String> = Vec::new();
        let mut i: usize = 0;
        while i < piece.len()
            invariant
                i <= piece@.len(),
                syms@.len() == i,
                forall|k: int| 0 <= k < i ==> (#[trigger] syms@[k])@ == seq![byte_char(piece@[k])],
            decreases piece@.len() - i,
        {
            let mut s = String::new();
            s.push(char_of_byte(piece[i]));
            assert(s@ =~= seq![byte_char(piece@[i as int])]);
            syms.push(s);
            i = i + 1;
        }
        assert(string_views(syms@) =~= byte_symbols(piece@));
        let syms = self.merge_symbols(syms);
        let ghost views = string_views(syms@);
        let mut k: usize = 0;
        assert(out@ =~= old(out)@ + symbols_tokens(self@, views, 0));
        while k < syms.len()
            invariant
                k <= syms@.len(),
                views == string_views(syms@),
                out@ == old(out)@ + symbols_tokens(self@, views, k as nat),
            decreases syms@.len() - k,
        {
            assert(views[k as int] == syms@[k as int]@);
            self.emit_symbol(syms[k].as_str(), out);
            k = k + 1;
            assert(out@ =~= old(out)@ + symbols_tokens(self@, views, k as nat));
        }
    }
}

// ── Splitting into pieces ────────────────────────────────────────────────

/// The kinds of ASCII bytes that the splitter tells apart.
#[derive(Debug, Clone, Copy, PartialEq, Eq, Structural)]
pub enum ByteClass {
    Digit,
    Alphabetic,
    Punctuation,
    Newline,
    Space,
}

impl ByteClass {
    pub open spec fn has(self, c: u8) -> bool {
        match self {
            ByteClass::Digit => 48 <= c <= 57,
            ByteClass::Alphabetic => 65 <= c <= 90 || 97 <= c <= 122,
            ByteClass::Punctuation => 33 <= c <= 47 || 58 <= c <= 64 || 91 <= c <= 96 || 123 <= c
                <= 126,
            ByteClass::Newline => c == 10 || c == 13,
            ByteClass::Space => c == 32 || 9 <= c <= 13,
        }
    }

    /// Whether a byte is of this kind.
    pub fn contains(self, c: u8) -> (r: bool)
        ensures
            r == self.has(c),
    {
        match self {
            ByteClass::Digit => c >= 48 && c <= 57,
            ByteClass::Alphabetic => is_ascii_alphabetic(c),
            ByteClass::Punctuation => is_ascii_punct_symbol(c),
            ByteClass::Newline => is_ascii_newline(c),
            ByteClass::Space => is_ascii_space(c),
        }
    }
}

fn is_ascii_alphabetic(c: u8) -> (r: bool)
    ensures
        r == ByteClass::Alphabetic.has(c),
{
    (c >= 65 && c <= 90) || (c >= 97 && c <= 122)
}

fn is_ascii_newline(c: u8) -> (r: bool)
    ensures
        r == ByteClass::Newline.has(c),
{
    c == 10 || c == 13
}

fn is_ascii_space(c: u8) -> (r: bool)
    ensures
        r == ByteClass::Space.has(c),
{
    c == 32 || (c >= 9 && c <= 13)
}

fn is_ascii_punct_symbol(c: u8) -> (r: bool)
    ensures
        r == ByteClass::Punctuation.has(c),
{
    (c >= 33 && c <= 47) || (c >= 58 && c <= 64) || (c >= 91 && c <= 96) || (c >= 123
        && c <= 126)
}

/// The end of the run of bytes of a kind from `pos` on.
pub open spec fn run_end(bytes: Seq<u8>, pos: int, class: ByteClass) -> int
    decreases bytes.len() - pos,
{
    if 0 <= pos < bytes.len() && class.has(bytes[pos]) {
        run_end(bytes, pos + 1, class)
    } else {
        pos
    }
}

/// Whether a character of the CJK, hiragana or katakana blocks starts at `pos`.
pub open spec fn cjk_at(bytes: Seq<u8>, pos: int) -> bool {
    let cp = decoded(bytes, pos);
    bytes[pos] >= 128 && (0x4e00 <= cp <= 0x9fa5 || 0x3040 <= cp <= 0x309f || 0x30a0 <= cp
        <= 0x30ff)
}

/// The end of the run of such characters from `pos` on.
pub open spec fn cjk_end(bytes: Seq<u8>, pos: int) -> int
    decreases bytes.len() - pos,
{
    if 0 <= pos < bytes.len() && cjk_at(bytes, pos) {
        cjk_end(bytes, pos + char_len(bytes, pos))
    } else {
        pos
    }
}

/// Whether a byte counts as part of a letter: any byte beyond ASCII does.
pub open spec fn letter(c: u8) -> bool {
    c >= 128 || ByteClass::Alphabetic.has(c)
}

/// The end of the run of letters from `pos` on.
pub open spec fn letters_end(bytes: Seq<u8>, pos: int) -> int
    decreases bytes.len() - pos,
{
    if 0 <= pos < bytes.len() && letter(bytes[pos]) {
        letters_end(bytes, pos + char_len(bytes, pos))
    } else {
        pos
    }
}

/// The place behind the last newline of `bytes[pos..end]`, or 0.
pub open spec fn last_newline_end(bytes: Seq<u8>, pos: int, end: int) -> int
    decreases end - pos,
{
    if end <= pos {
        0
    } else if ByteClass::Newline.has(bytes[end - 1]) {
        end
    } else {
        last_newline_end(bytes, pos, end - 1)
    }
}

/// The end of a piece that starts with white space: behind its last newline, where it
/// has one; else before its last byte, where a word or a symbol follows that byte.
pub open spec fn space_end(bytes: Seq<u8>, pos: int) -> int {
    let p = run_end(bytes, pos, ByteClass::Space);
    let n = last_newline_end(bytes, pos, p);
    if n > 0 {
        n
    } else if p < bytes.len() && p > pos + 1 && (letter(bytes[p]) || ByteClass::Punctuation.has(
        bytes[p],
    )) {
        p - 1
    } else {
        p
    }
}

/// The end of the piece that starts at `pos`.
pub open spec fn piece_end(bytes: Seq<u8>, pos: int) -> int {
    let c = bytes[pos];
    let more = pos + 1 < bytes.len();
    if ByteClass::Digit.has(c) {
        let e = run_end(bytes, pos, ByteClass::Digit);
        if e < pos + 3 {
            e
        } else {
            pos + 3
        }
    } else if cjk_at(bytes, pos) {
        cjk_end(bytes, pos)
    } else if ByteClass::Punctuation.has(c) && more && ByteClass::Alphabetic.has(bytes[pos + 1]) {
        run_end(bytes, pos + 1, ByteClass::Alphabetic)
    } else if letter(c) {
        letters_end(bytes, pos)
    } else if !ByteClass::Newline.has(c) && !ByteClass::Punctuation.has(c) && more && letter(
        bytes[pos + 1],
    ) {
        letters_end(bytes, pos + 1)
    } else if c == 32 && more && ByteClass::Punctuation.has(bytes[pos + 1]) {
        run_end(bytes, run_end(bytes, pos + 1, ByteClass::Punctuation), ByteClass::Newline)
    } else if ByteClass::Punctuation.has(c) {
        run_end(bytes, run_end(bytes, pos, ByteClass::Punctuation), ByteClass::Newline)
    } else if ByteClass::Space.has(c) {
        space_end(bytes, pos)
    } else {
        pos + char_len(bytes, pos)
    }
}

proof fn lemma_run_end(bytes: Seq<u8>, pos: int, class: ByteClass)
    requires
        0 <= pos <= bytes.len(),
    ensures
        pos <= run_end(bytes, pos, class) <= bytes.len(),
        pos < bytes.len() && class.has(bytes[pos]) ==> pos < run_end(bytes, pos, class),
    decreases bytes.len() - pos,
{
    if pos < bytes.len() && class.has(bytes[pos]) {
        lemma_run_end(bytes, pos + 1, class);
    }
}

proof fn lemma_cjk_end(bytes: Seq<u8>, pos: int)
    requires
        0 <= pos <= bytes.len(),
    ensures
        pos <= cjk_end(bytes, pos) <= bytes.len(),
        pos < bytes.len() && cjk_at(bytes, pos) ==> pos < cjk_end(bytes, pos),
    decreases bytes.len() - pos,
{
    if pos < bytes.len() && cjk_at(bytes, pos) {
        lemma_cjk_end(bytes, pos + char_len(bytes, pos));
    }
}

proof fn lemma_letters_end(bytes: Seq<u8>, pos: int)
    requires
        0 <= pos <= bytes.len(),
    ensures
        pos <= letters_end(bytes, pos) <= bytes.len(),
        pos < bytes.len() && letter(bytes[pos]) ==> pos < letters_end(bytes, pos),
    decreases bytes.len() - pos,
{
    if pos < bytes.len() && letter(bytes[pos]) {
        lemma_letters_end(bytes, pos + char_len(bytes, pos));
    }
}

proof fn lemma_last_newline_end(bytes: Seq<u8>, pos: int, end: int)
    ensures
        last_newline_end(bytes, pos, end) == 0 || pos < last_newline_end(bytes, pos, end) <= end,
    decreases end - pos,
{
    if end > pos && !ByteClass::Newline.has(bytes[end - 1]) {
        lemma_last_newline_end(bytes, pos, end - 1);
    }
}

/// A piece is never empty and ends within the text.
pub proof fn piece_end_advances(bytes: Seq<u8>, pos: int)
    requires
        0 <= pos < bytes.len(),
    ensures
        pos < piece_end(bytes, pos) <= bytes.len(),
{
    let c = bytes[pos];
    lemma_run_end(bytes, pos, ByteClass::Digit);
    lemma_cjk_end(bytes, pos);
    lemma_run_end(bytes, pos + 1, ByteClass::Alphabetic);
    lemma_letters_end(bytes, pos);
    lemma_letters_end(bytes, pos + 1);
    lemma_run_end(bytes, pos + 1, ByteClass::Punctuation);
    lemma_run_end(
        bytes,
        run_end(bytes, pos + 1, ByteClass::Punctuation),
        ByteClass::Newline,
    );
    lemma_run_end(bytes, pos, ByteClass::Punctuation);
    lemma_run_end(bytes, run_end(bytes, pos, ByteClass::Punctuation), ByteClass::Newline);
    lemma_run_end(bytes, pos, ByteClass::Space);
    lemma_last_newline_end(bytes, pos, run_end(bytes, pos, ByteClass::Space));
}

/// The pieces of the text from `pos` on.
pub open spec fn pieces(bytes: Seq<u8>, pos: int) -> Seq<Seq<u8>>
    decreases bytes.len() - pos,
{
    let end = piece_end(bytes, pos);
    if 0 <= pos < bytes.len() && pos < end <= bytes.len() {
        seq![bytes.subrange(pos, end)] + pieces(bytes, end)
    } else {
        Seq::empty()
    }
}

/// The tokens of the pieces, one after another.
pub open spec fn pieces_tokens(v: VocabView, ps: Seq<Seq<u8>>) -> Seq<i32>
    decreases ps.len(),
{
    if ps.len() == 0 {
        Seq::empty()
    } else {
        piece_tokens(v, ps[0]) + pieces_tokens(v, ps.drop_first())
    }
}

/// The tokens of a text.
pub open spec fn text_tokens(v: VocabView, text: Seq<char>) -> Seq<i32> {
    pieces_tokens(v, pieces(encode_utf8(text), 0))
}

/// Splitting loses nothing: the pieces of a text, joined, are the text, and none of them
/// is empty.
pub proof fn pieces_cover_text(bytes: Seq<u8>, pos: int)
    requires
        0 <= pos <= bytes.len(),
    ensures
        pieces(bytes, pos).flatten() == bytes.subrange(pos, bytes.len() as int),
        forall|i: int| 0 <= i < pieces(bytes, pos).len() ==> (#[trigger] pieces(bytes, pos)[i]).len()
            > 0,
    decreases bytes.len() - pos,
{
    if pos < bytes.len() {
        piece_end_advances(bytes, pos);
        let end = piece_end(bytes, pos);
        let rest = pieces(bytes, end);
        pieces_cover_text(bytes, end);
        let all = pieces(bytes, pos);
        assert(all.drop_first() =~= rest);
        assert(bytes.subrange(pos, end) + bytes.subrange(end, bytes.len() as int)
            =~= bytes.subrange(pos, bytes.len() as int));
        assert forall|i: int| 0 <= i < all.len() implies (#[trigger] all[i]).len() > 0 by {
            if i > 0 {
                assert(all[i] == rest[i - 1]);
            }
        }
    } else {
        assert(pieces(bytes, pos) =~= Seq::empty());
        assert(bytes.subrange(pos, bytes.len() as int) =~= Seq::empty());
    }
}

/// The end of the run of bytes of a kind.
fn scan_run(bytes: &[u8], start: usize, class: ByteClass) -> (r: usize)
    requires
        start <= bytes@.len(),
    ensures
        r == run_end(bytes@, start as int, class),
        start <= r <= bytes@.len(),
{
    let mut pos: usize = start;
    while pos < bytes.len() && class.contains(bytes[pos])
        invariant
            start <= pos <= bytes@.len(),
            run_end(bytes@, pos as int, class) == run_end(bytes@, start as int, class),
        decreases bytes@.len() - pos,
    {
        pos = pos + 1;
    }
    pos
}

fn is_cjk_hira_kata(bytes: &[u8], pos: usize) -> (r: bool)
    requires
        pos < bytes@.len(),
    ensures
        r == cjk_at(bytes@, pos as int),
{
    if bytes[pos] < 128 {
        return false;
    }
    let cp: u32 = utf8_decode_one(bytes, pos).0;
    (0x4e00 <= cp && cp <= 0x9fa5) || (0x3040 <= cp && cp <= 0x309f) || (0x30a0 <= cp && cp
        <= 0x30ff)
}

fn is_letter_like(bytes: &[u8], pos: usize) -> (r: bool)
    requires
        pos < bytes@.len(),
    ensures
        r == letter(bytes@[pos as int]),
{
    let c: u8 = bytes[pos];
    if c < 128 {
        return is_ascii_alphabetic(c);
    }
    true
}

/// The end of the run of CJK characters.
fn scan_cjk(bytes: &[u8], start: usize) -> (r: usize)
    requires
        start <= bytes@.len(),
    ensures
        r == cjk_end(bytes@, start as int),
        start <= r <= bytes@.len(),
{
    let mut pos: usize = start;
    while pos < bytes.len() && is_cjk_hira_kata(bytes, pos)
        invariant
            start <= pos <= bytes@.len(),
            cjk_end(bytes@, pos as int) == cjk_end(bytes@, start as int),
        decreases bytes@.len() - pos,
    {
        pos = next_utf8_char(bytes, pos);
    }
    pos
}

/// The end of the run of letters.
fn consume_letters(bytes: &[u8], start: usize) -> (r: usize)
    requires
        start <= bytes@.len(),
    ensures
        r == letters_end(bytes@, start as int),
        start <= r <= bytes@.len(),
{
    let mut pos: usize = start;
    while pos < bytes.len() && is_letter_like(bytes, pos)
        invariant
            start <= pos <= bytes@.len(),
            letters_end(bytes@, pos as int) == letters_end(bytes@, start as int),
        decreases bytes@.len() - pos,
    {
        pos = next_utf8_char(bytes, pos);
    }
    pos
}

/// The end of a piece that starts with white space.
fn scan_space(bytes: &[u8], pos: usize) -> (r: usize)
    requires
        pos < bytes@.len(),
    ensures
        r == space_end(bytes@, pos as int),
{
    let mut p: usize = pos;
    let mut newline_end: usize = 0;
    while p < bytes.len() && is_ascii_space(bytes[p])
        invariant
            pos <= p <= bytes@.len(),
            newline_end == last_newline_end(bytes@, pos as int, p as int),
            run_end(bytes@, p as int, ByteClass::Space) == run_end(
                bytes@,
                pos as int,
                ByteClass::Space,
            ),
        decreases bytes@.len() - p,
    {
        let c: u8 = bytes[p];
        p = p + 1;
        if is_ascii_newline(c) {
            newline_end = p;
        }
    }
    if newline_end > 0 {
        newline_end
    } else if p < bytes.len() && p - pos > 1 && (is_letter_like(bytes, p) || is_ascii_punct_symbol(
        bytes[p],
    )) {
        p - 1
    } else {
        p
    }
}

/// The end of the piece that starts at `pos`.
fn scan_piece(bytes: &[u8], pos: usize) -> (r: usize)
    requires
        pos < bytes@.len(),
    ensures
        r == piece_end(bytes@, pos as int),
        pos < r <= bytes@.len(),
{
    proof {
        piece_end_advances(bytes@, pos as int);
    }
    let n: usize = bytes.len();
    let c: u8 = bytes[pos];
    if ByteClass::Digit.contains(c) {
        let e: usize = scan_run(bytes, pos, ByteClass::Digit);
        if e - pos < 3 {
            e
        } else {
            pos + 3
        }
    } else if is_cjk_hira_kata(bytes, pos) {
        scan_cjk(bytes, pos)
    } else if is_ascii_punct_symbol(c) && n - pos > 1 && is_ascii_alphabetic(bytes[pos + 1]) {
        scan_run(bytes, pos + 1, ByteClass::Alphabetic)
    } else if is_letter_like(bytes, pos) {
        consume_letters(bytes, pos)
    } else if !is_ascii_newline(c) && !is_ascii_punct_symbol(c) && n - pos > 1 && is_letter_like(
        bytes,
        pos + 1,
    ) {
        consume_letters(bytes, pos + 1)
    } else if c == 32 && n - pos > 1 && is_ascii_punct_symbol(bytes[pos + 1]) {
        let e: usize = scan_run(bytes, pos + 1, ByteClass::Punctuation);
        scan_run(bytes, e, ByteClass::Newline)
    } else if is_ascii_punct_symbol(c) {
        let e: usize = scan_run(bytes, pos, ByteClass::Punctuation);
        scan_run(bytes, e, ByteClass::Newline)
    } else if is_ascii_space(c) {
        scan_space(bytes, pos)
    } else {
        next_utf8_char(bytes, pos)
    }
}

impl Vocab {
    /// Appends the tokens of a text.
    pub fn bpe_tokenize(&self, text: &str, out: &mut Vec<i32>)
        ensures
            final(out)@ == old(out)@ + text_tokens(self@, text@),
    {
        let bytes = text.as_bytes();
        let mut pos: usize = 0;
        assert(bytes@ == encode_utf8(text@));
        while pos < bytes.len()
            invariant
                pos <= bytes@.len(),
                bytes@ == encode_utf8(text@),
                out@ + pieces_tokens(self@, pieces(bytes@, pos as int)) == old(out)@ + text_tokens(
                    self@,
                    text@,
                ),
            decreases bytes@.len() - pos,
        {
            let end: usize = scan_piece(bytes, pos);
            let ghost before = out@;
            let ghost here = pieces(bytes@, pos as int);
            let ghost rest = pieces(bytes@, end as int);
            self.bpe_emit_piece(vstd::slice::slice_subrange(bytes, pos, end), out);
            proof {
                assert(here[0] == bytes@.subrange(pos as int, end as int));
                assert(here.drop_first() =~= rest);
                assert(before + (piece_tokens(self@, here[0]) + pieces_tokens(self@, rest)) =~= out@
                    + pieces_tokens(self@, rest));
            }
            pos = end;
        }
        assert(out@ + Seq::<i32>::empty() =~= out@);
    }
}

} // verus!

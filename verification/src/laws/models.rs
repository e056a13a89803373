//! What the settings and the vocabulary of a model are held to.
use vstd::prelude::*;
use vstd::utf8::encode_utf8;

use crate::config::{clamps_fault, config_fault, ratios_fault, setting, ConfigErrorView};
use crate::encoding::{decoded_bytes, lossy_utf8};
use crate::engine::{
    attach_error, draft_margin, draft_tokens, open_error, opened, tensor_region, EngineErrorView,
};
use crate::gguf::{parse_model, MetaView, ModelView};
use crate::single::{key, nan};
use crate::tokenizer::{
    added_count, item_scores, item_text, merge_ranks, special_id, special_token_has_its_index,
    token_ids, token_key, vocab_error, vocab_of, VocabError,
};
use crate::types::EngineOptions;
use crate::weights::{bind_fault, mtp_bind_fault, weights_of};

verus! {

/// Whether a setting of the model is a number.
pub open spec fn set_to(m: ModelView, name: Seq<char>, n: int) -> bool {
    m.get_u32("deepseek4."@ + name) matches Some(v) && v == n
}

/// Whether a setting of the model is zero or not there.
pub open spec fn zero_or_unset(m: ModelView, name: Seq<char>) -> bool {
    m.get_u32("deepseek4."@ + name) matches Some(v) ==> v == 0
}

/// Whether the bits of a single that is no NaN lie in a range of positive singles.
pub open spec fn single_between(b: u32, low: int, high: int) -> bool {
    !nan(b) && low <= key(b) <= high
}

/// Whether a setting of the model is a single in a range.
pub open spec fn set_between(m: ModelView, name: Seq<char>, low: int, high: int) -> bool {
    m.get_f32("deepseek4."@ + name) matches Some(b) && single_between(b, low, high)
}

/// Whether the model gives each layer its compression ratio: none to the first two, and
/// then 4 and 128 in turn.
pub open spec fn ratios_alternate(m: ModelView) -> bool {
    &&& m.get_array("deepseek4.attention.compress_ratios"@) matches Some(items)
    &&& items.len() >= 43
    &&& forall|i: int|
        0 <= i < 43 ==> ((#[trigger] items[i]).as_u32() matches Some(r) && r == if i < 2 {
            0int
        } else if i % 2 == 0 {
            4
        } else {
            128
        })
}

/// Whether the model gives each layer the activation clamp 10, within a millionth.
pub open spec fn clamps_are_ten(m: ModelView) -> bool {
    &&& m.get_array("deepseek4.swiglu_clamp_exp"@) matches Some(items)
    &&& items.len() >= 43
    &&& forall|i: int|
        0 <= i < 43 ==> ((#[trigger] items[i]).as_f32() matches Some(b) && single_between(
            b,
            0x4120_0000int - 10,
            0x4120_0000int + 10,
        ))
}

/// The sizes of the one model that the library runs.
pub open spec fn sizes_are_known(m: ModelView) -> bool {
    &&& set_to(m, "block_count"@, 43)
    &&& set_to(m, "embedding_length"@, 4096)
    &&& set_to(m, "vocab_size"@, 129280)
    &&& set_to(m, "attention.head_count"@, 64)
    &&& set_to(m, "attention.head_count_kv"@, 1)
    &&& set_to(m, "attention.key_length"@, 512)
    &&& set_to(m, "attention.value_length"@, 512)
    &&& set_to(m, "rope.dimension_count"@, 64)
    &&& set_to(m, "attention.q_lora_rank"@, 1024)
    &&& set_to(m, "attention.output_lora_rank"@, 1024)
    &&& set_to(m, "attention.output_group_count"@, 8)
    &&& set_to(m, "expert_count"@, 256)
    &&& set_to(m, "expert_used_count"@, 6)
    &&& set_to(m, "expert_feed_forward_length"@, 2048)
    &&& set_to(m, "expert_shared_count"@, 1)
    &&& set_to(m, "hash_layer_count"@, 3)
    &&& zero_or_unset(m, "expert_group_count"@)
    &&& zero_or_unset(m, "expert_group_used_count"@)
    &&& set_to(m, "attention.sliding_window"@, 128)
    &&& set_to(m, "attention.indexer.head_count"@, 64)
    &&& set_to(m, "attention.indexer.key_length"@, 128)
    &&& set_to(m, "attention.indexer.top_k"@, 512)
    &&& set_to(m, "hyper_connection.count"@, 4)
    &&& set_to(m, "hyper_connection.sinkhorn_iterations"@, 20)
}

/// The floating-point settings of that model, each within a millionth.
pub open spec fn floats_are_known(m: ModelView) -> bool {
    &&& set_between(m, "rope.freq_base"@, 0x461c_4000int - 10, 0x461c_4000int + 10)
    &&& set_between(m, "rope.scaling.factor"@, 0x4180_0000int - 16, 0x4180_0000int + 8)
    &&& set_between(m, "rope.scaling.yarn_beta_fast"@, 0x4200_0000int - 16, 0x4200_0000int + 8)
    &&& set_between(m, "rope.scaling.yarn_beta_slow"@, 0x3f80_0000int - 16, 0x3f80_0000int + 8)
    &&& set_between(m, "attention.compress_rope_freq_base"@, 0x481c_4000int - 10, 0x481c_4000int + 10)
    &&& set_between(m, "expert_weights_scale"@, 0x3fc0_0000int - 12, 0x3fc0_0000int + 12)
    &&& set_between(
        m,
        "attention.layer_norm_rms_epsilon"@,
        0x3586_37bdint - 1_594_243_004,
        0x3586_37bdint + 8_388_608,
    )
    &&& set_between(
        m,
        "hyper_connection.epsilon"@,
        0x3586_37bdint - 1_594_243_004,
        0x3586_37bdint + 8_388_608,
    )
}

/// A model is accepted just where its settings are those of the one model that the library
/// runs.
pub proof fn only_the_known_model_is_accepted(m: ModelView)
    ensures
        config_fault(m) is None <==> {
            &&& sizes_are_known(m)
            &&& ratios_alternate(m)
            &&& clamps_are_ten(m)
            &&& (m.get_u64("deepseek4."@ + "rope.scaling.original_context_length"@) matches Some(v)
                && v == 65536)
            &&& floats_are_known(m)
            &&& m.get_bool("deepseek4."@ + "expert_weights_norm"@) == Some(true)
        },
{
    match m.get_array("deepseek4.attention.compress_ratios"@) {
        Some(items) => {
            if items.len() >= 43 {
                lemma_ratios(items, 0);
            }
        },
        None => {},
    }
    match m.get_array("deepseek4.swiglu_clamp_exp"@) {
        Some(items) => {
            if items.len() >= 43 {
                lemma_clamps(items, 0);
            }
        },
        None => {},
    }
}

proof fn lemma_ratios(items: Seq<MetaView>, i: int)
    requires
        0 <= i <= 43 <= items.len(),
    ensures
        ratios_fault(items, i) is None <==> forall|j: int|
            i <= j < 43 ==> ((#[trigger] items[j]).as_u32() matches Some(r) && r == if j < 2 {
                0int
            } else if j % 2 == 0 {
                4
            } else {
                128
            }),
    decreases 43 - i,
{
    if i < 43 {
        lemma_ratios(items, i + 1);
        assert(items[i].as_u32() is Some || items[i].as_u32() is None);
    }
}

proof fn lemma_clamps(items: Seq<MetaView>, i: int)
    requires
        0 <= i <= 43 <= items.len(),
    ensures
        clamps_fault(items, i) is None <==> forall|j: int|
            i <= j < 43 ==> ((#[trigger] items[j]).as_f32() matches Some(b) && single_between(
                b,
                0x4120_0000int - 10,
                0x4120_0000int + 10,
            )),
    decreases 43 - i,
{
    if i < 43 {
        lemma_clamps(items, i + 1);
        assert(items[i].as_f32() is Some || items[i].as_f32() is None);
    }
}

/// A fault names the setting that is missing or not as it should be.
pub proof fn faults_name_their_setting(m: ModelView)
    ensures
        m.get_u32("deepseek4."@ + "block_count"@) is None ==> config_fault(m) == Some(
            ConfigErrorView::MissingKey { key: "deepseek4."@ + "block_count"@ },
        ),
        setting("block_count"@) == "deepseek4."@ + "block_count"@,
{
}

/// The vocabulary is that of the token table: each token stands at its index, and the
/// special tokens have the indices of their texts.
pub proof fn vocabulary_is_the_token_table(m: ModelView, items: Seq<MetaView>, i: int)
    requires
        m.get_array("tokenizer.ggml.tokens"@) == Some(items),
    ensures
        ({
            let v = vocab_of(m);
            let last = |token: Seq<char>|
                item_text(items[i]) == token && forall|j: int|
                    i < j < items.len() ==> item_text(#[trigger] items[j]) != token;
            &&& v.tokens.len() == items.len() && v.id_to_token.len() == items.len()
            &&& 0 <= i < items.len() ==> v.tokens[i] == encode_utf8(item_text(items[i]))
            &&& 0 <= i < items.len() ==> v.id_to_token[i] == lossy_utf8(
                decoded_bytes(encode_utf8(item_text(items[i])), 0),
            )
            &&& 0 <= i < items.len() <= i32::MAX ==> {
                &&& last("<｜begin▁of▁sentence｜>"@) ==> v.bos_id == i
                &&& last("<｜end▁of▁sentence｜>"@) ==> v.eos_id == i
                &&& last("<｜User｜>"@) ==> v.user_id == i
                &&& last("<｜Assistant｜>"@) ==> v.assistant_id == i
                &&& last("<think>"@) ==> v.think_start_id == i
                &&& last("</think>"@) ==> v.think_end_id == i
                &&& last("｜DSML｜"@) ==> v.dsml_id == i
            }
            &&& m.get_u32("tokenizer.ggml.padding_token_id"@) is None ==> v.pad_id == v.eos_id
            &&& m.get_u32("tokenizer.ggml.padding_token_id"@) matches Some(p) ==> (p <= i32::MAX
                ==> v.pad_id == p)
        }),
{
    if 0 <= i < items.len() <= i32::MAX {
        special_token_has_its_index(items, "<｜begin▁of▁sentence｜>"@, i);
        special_token_has_its_index(items, "<｜end▁of▁sentence｜>"@, i);
        special_token_has_its_index(items, "<｜User｜>"@, i);
        special_token_has_its_index(items, "<｜Assistant｜>"@, i);
        special_token_has_its_index(items, "<think>"@, i);
        special_token_has_its_index(items, "</think>"@, i);
        special_token_has_its_index(items, "｜DSML｜"@, i);
    }
}

/// A text is found under the ID of the last token with its key, and a merge has the rank
/// of its last place in the merge table.
pub proof fn tables_are_numbered_by_place(items: Seq<MetaView>, i: int)
    requires
        0 <= i < items.len() <= i32::MAX,
    ensures
        (forall|j: int|
            i < j < items.len() ==> token_key(item_text(#[trigger] items[j])) != token_key(
                item_text(items[i]),
            )) ==> {
            let ids = token_ids(items, items.len());
            let k = token_key(item_text(items[i]));
            ids.contains_key(k) && ids[k] == i
        },
        items[i] matches MetaView::String(s) ==> ((forall|j: int|
            i < j < items.len() ==> #[trigger] items[j] != MetaView::String(s)) ==> {
            let ranks = merge_ranks(items, items.len());
            ranks.contains_key(s) && ranks[s] == i
        }),
{
    if forall|j: int|
        i < j < items.len() ==> token_key(item_text(#[trigger] items[j])) != token_key(
            item_text(items[i]),
        ) {
        lemma_ids(items, items.len(), i);
    }
    match items[i] {
        MetaView::String(s) => {
            if forall|j: int| i < j < items.len() ==> #[trigger] items[j] != MetaView::String(s) {
                lemma_ranks(items, items.len(), i, s);
            }
        },
        _ => {},
    }
}

proof fn lemma_ids(items: Seq<MetaView>, n: nat, i: int)
    requires
        0 <= i < n <= items.len() <= i32::MAX,
        forall|j: int|
            i < j < n ==> token_key(item_text(#[trigger] items[j])) != token_key(
                item_text(items[i]),
            ),
    ensures
        token_ids(items, n).contains_key(token_key(item_text(items[i]))),
        token_ids(items, n)[token_key(item_text(items[i]))] == i,
    decreases n,
{
    if i < n - 1 {
        lemma_ids(items, (n - 1) as nat, i);
        assert(token_key(item_text(items[n - 1])) != token_key(item_text(items[i])));
    }
}

proof fn lemma_ranks(items: Seq<MetaView>, n: nat, i: int, s: Seq<char>)
    requires
        0 <= i < n <= items.len() <= i32::MAX,
        items[i] == MetaView::String(s),
        forall|j: int| i < j < n ==> #[trigger] items[j] != MetaView::String(s),
    ensures
        merge_ranks(items, n).contains_key(s),
        merge_ranks(items, n)[s] == i,
    decreases n,
{
    if i < n - 1 {
        lemma_ranks(items, (n - 1) as nat, i, s);
        assert(items[n - 1] != MetaView::String(s));
    }
}

/// The vocabulary reads the tables that the model names: tokens, which have to be there
/// and not empty, and merges, which have to be there.
pub proof fn vocabulary_needs_its_tables(m: ModelView)
    ensures
        m.get_array("tokenizer.ggml.tokens"@) is None ==> vocab_error(m) == Some(
            VocabError::NoTokens,
        ),
        m.get_array("tokenizer.ggml.tokens"@) matches Some(t) ==> {
            &&& t.len() == 0 ==> vocab_error(m) == Some(VocabError::EmptyTokens)
            &&& t.len() > 0 && m.get_array("tokenizer.ggml.merges"@) is None ==> vocab_error(m)
                == Some(VocabError::NoMerges)
            &&& vocab_of(m).token_to_id == token_ids(t, t.len())
        },
        m.get_array("tokenizer.ggml.merges"@) matches Some(t) ==> vocab_of(m).merge_rank
            == merge_ranks(t, t.len()),
        special_id(Seq::empty(), "<think>"@) == -1,
{
}

/// A model file is opened just where it can be read, has a vocabulary, is the known model
/// and has all its weights; the first of these that fails is reported.
pub proof fn model_is_opened_when_all_fits(options: EngineOptions, data: Seq<u8>)
    ensures
        parse_model(data) matches Err(e) ==> open_error(data) == Some(EngineErrorView::Model(e)),
        parse_model(data) matches Ok(m) ==> {
            &&& open_error(data) is None <==> vocab_error(m) is None && config_fault(m) is None
                && bind_fault(m) is None
            &&& vocab_error(m) matches Some(e) ==> open_error(data) == Some(
                EngineErrorView::Vocab(e),
            )
            &&& opened(options, data).model == m
            &&& opened(options, data).weights == weights_of(m)
            &&& opened(options, data).vocab == vocab_of(m)
        },
        opened(options, data).backend == options.backend,
        opened(options, data).quality == options.quality,
        opened(options, data).mtp_model is None && opened(options, data).mtp_weights is None,
        !opened(options, data).mtp_ready,
        opened(options, data).draft_tokens == draft_tokens(options.mtp_draft_tokens),
        opened(options, data).margin == draft_margin(options.mtp_margin),
        parse_model(data) matches Ok(m) ==> (attach_error(data) is None <==> mtp_bind_fault(m)
            is None),
        parse_model(data) is Err ==> attach_error(data) is Some,
{
}

/// Between one and sixteen draft tokens are used, and as many as are asked for within
/// these bounds.
pub proof fn draft_tokens_are_bounded(asked: u32)
    ensures
        1 <= draft_tokens(asked) <= 16,
        1 <= asked <= 16 ==> draft_tokens(asked) == asked,
        asked > 16 ==> draft_tokens(asked) == 16,
{
}

/// The margin of a draft is what is asked for where that is a number not below zero, and
/// else 3.
pub proof fn margin_is_not_negative(asked: u32)
    ensures
        asked <= 0x7f80_0000 ==> draft_margin(asked) == asked,
        asked > 0x8000_0000 ==> draft_margin(asked) == 0x4040_0000,
        0x7f80_0000 < asked < 0x8000_0000 ==> draft_margin(asked) == 0x4040_0000,
{
}

/// The tensor data reach from their start to the end of the file.
pub proof fn tensor_data_reach_to_the_end(m: ModelView)
    requires
        m.tensor_data_pos <= m.file_len,
    ensures
        tensor_region(m).0 == m.tensor_data_pos,
        tensor_region(m).0 + tensor_region(m).1 == m.file_len,
{
}

/// A fault is true: a key that is reported as missing has no value, and a number that is
/// reported as wrong is the one that the model has, and not the one that is expected.
pub proof fn reported_settings_are_wrong(m: ModelView)
    ensures
        config_fault(m) matches Some(ConfigErrorView::WrongNumber { name, expected, got }) ==> got
            != expected && (m.get_u32("deepseek4."@ + name) == Some(got as u32) || m.get_u64(
            "deepseek4."@ + name,
        ) == Some(got)),
        config_fault(m) matches Some(ConfigErrorView::MissingKey { key }) ==> m.get_u32(key) is None
            || m.get_u64(key) is None || m.get_f32(key) is None || m.get_bool(key) is None
            || m.get_array(key) is None,
        config_fault(m) matches Some(ConfigErrorView::WrongFloat { name, bits, wanted }) ==> bits
            != wanted,
{
    match m.get_array("deepseek4.attention.compress_ratios"@) {
        Some(items) => lemma_ratio_fault(items, 0),
        None => {},
    }
    match m.get_array("deepseek4.swiglu_clamp_exp"@) {
        Some(items) => lemma_clamp_fault(items, 0),
        None => {},
    }
}

proof fn lemma_ratio_fault(items: Seq<MetaView>, i: int)
    requires
        0 <= i <= 43,
    ensures
        ratios_fault(items, i) matches Some(e) ==> e is WrongRatio,
    decreases 43 - i,
{
    if i < 43 {
        lemma_ratio_fault(items, i + 1);
    }
}

proof fn lemma_clamp_fault(items: Seq<MetaView>, i: int)
    requires
        0 <= i <= 43,
    ensures
        clamps_fault(items, i) matches Some(e) ==> e is WrongFloat && e->bits
            != e->WrongFloat_wanted,
    decreases 43 - i,
{
    if i < 43 {
        lemma_clamp_fault(items, i + 1);
    }
}

/// An item of the table of added tokens that counts: a text or a list.
pub open spec fn counts_as_added(item: MetaView) -> bool {
    item is String || item is Array
}

/// The extra IDs are as many as the texts and lists in the table of added tokens, and more
/// of them than a token ID can tell are refused.
pub proof fn added_tokens_are_counted(m: ModelView)
    ensures
        ({
            let added = m.get_array("tokenizer.ggml.added_tokens"@);
            let n = if added is Some {
                (added->0).filter(|item: MetaView| counts_as_added(item)).len()
            } else {
                0
            };
            &&& n <= i32::MAX ==> vocab_of(m).extra_ids == n && vocab_error(m) != Some(
                VocabError::TooManyAdded,
            )
            &&& n > i32::MAX ==> vocab_error(m) is Some
            &&& vocab_of(m).added.len() == 0
        }),
{
    match m.get_array("tokenizer.ggml.added_tokens"@) {
        Some(items) => {
            lemma_counted(items, items.len());
            assert(items.take(items.len() as int) =~= items);
        },
        None => {},
    }
}

proof fn lemma_counted(items: Seq<MetaView>, n: nat)
    requires
        n <= items.len(),
    ensures
        added_count(items, n) == items.take(n as int).filter(
            |item: MetaView| counts_as_added(item),
        ).len(),
    decreases n,
{
    reveal(Seq::filter);
    if n > 0 {
        lemma_counted(items, (n - 1) as nat);
        assert(items.take(n as int).drop_last() =~= items.take(n - 1));
    }
}

/// The scores are the numbers of the score table in its order, and zeros, one for each
/// token, where there is none.
pub proof fn scores_are_the_score_table(m: ModelView, items: Seq<MetaView>, i: int)
    requires
        m.get_array("tokenizer.ggml.tokens"@) == Some(items),
    ensures
        m.get_array("tokenizer.ggml.scores"@) is None ==> vocab_of(m).scores.len() == items.len()
            && (0 <= i < items.len() ==> vocab_of(m).scores[i] == 0),
        m.get_array("tokenizer.ggml.scores"@) matches Some(table) ==> {
            &&& (forall|j: int| 0 <= j < table.len() ==> #[trigger] table[j] is Float32)
                ==> vocab_of(m).scores.len() == table.len() && (0 <= i < table.len()
                ==> MetaView::Float32(vocab_of(m).scores[i]) == table[i])
            &&& (forall|j: int|
                0 <= j < table.len() ==> #[trigger] table[j] is String || table[j] is Array)
                ==> vocab_of(m).scores.len() == 0
        },
{
    match m.get_array("tokenizer.ggml.scores"@) {
        Some(table) => {
            lemma_scores(table, table.len());
        },
        None => {},
    }
}

proof fn lemma_scores(table: Seq<MetaView>, n: nat)
    requires
        n <= table.len(),
    ensures
        (forall|j: int| 0 <= j < table.len() ==> #[trigger] table[j] is Float32) ==> {
            &&& item_scores(table, n).len() == n
            &&& forall|j: int|
                0 <= j < n ==> MetaView::Float32(#[trigger] item_scores(table, n)[j]) == table[j]
        },
        (forall|j: int|
            0 <= j < table.len() ==> #[trigger] table[j] is String || table[j] is Array)
            ==> item_scores(table, n).len() == 0,
    decreases n,
{
    if n > 0 {
        lemma_scores(table, (n - 1) as nat);
        assert(table[n - 1] == table[n - 1]);
    }
}

} // verus!

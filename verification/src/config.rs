//! The checks that the metadata of a model file describes DeepSeek V4 Flash.
use vstd::prelude::*;

use crate::gguf::{MetaView, MetadataValue, ModelGGUF, ModelView};
use crate::single::{is_nan, key, nan, order_key};
use crate::text::{append, dec, dec_u64};
use crate::types::{
    DS4_N_EMBD, DS4_N_EXPERT, DS4_N_EXPERT_SHARED, DS4_N_EXPERT_USED, DS4_N_FF_EXP,
    DS4_N_HASH_LAYER, DS4_N_HC, DS4_N_HC_SINKHORN_ITER, DS4_N_HEAD, DS4_N_HEAD_DIM, DS4_N_HEAD_KV,
    DS4_N_INDEXER_HEAD, DS4_N_INDEXER_HEAD_DIM, DS4_N_INDEXER_TOP_K, DS4_N_LAYER, DS4_N_LORA_O,
    DS4_N_LORA_Q, DS4_N_OUT_GROUP, DS4_N_ROT, DS4_N_SWA, DS4_N_VALUE_DIM, DS4_N_VOCAB,
    DS4_ROPE_ORIG_CTX,
};
use crate::weights::{compress_ratio, layer_compress_ratio};

verus! {

// ── Floating-point constants of the model, as bit patterns of singles ────

/// 1e-6
pub const DS4_RMS_EPS: u32 = 0x3586_37bd;

/// 1e-6
pub const DS4_HC_EPS: u32 = 0x3586_37bd;

/// 1.5
pub const DS4_EXPERT_WEIGHT_SCALE: u32 = 0x3fc0_0000;

/// 10
pub const DS4_SWIGLU_CLAMP_EXP: u32 = 0x4120_0000;

/// 10000
pub const DS4_ROPE_FREQ_BASE: u32 = 0x461c_4000;

/// 16
pub const DS4_ROPE_SCALE_FACTOR: u32 = 0x4180_0000;

/// 32
pub const DS4_ROPE_YARN_BETA_FAST: u32 = 0x4200_0000;

/// 1
pub const DS4_ROPE_YARN_BETA_SLOW: u32 = 0x3f80_0000;

/// 160000
pub const DS4_COMPRESS_ROPE_FREQ_BASE: u32 = 0x481c_4000;

/// How many singles below 1e-6 differ from it by no more than 1e-6: those down to
/// zero, and the negative ones that are lost in the rounding of the difference.
pub const EPS_BELOW: i64 = 1_594_243_004;

/// How many singles above 1e-6 differ from it by no more than 1e-6.
pub const EPS_ABOVE: i64 = 8_388_608;

// ── Errors ───────────────────────────────────────────────────────────────

/// Why the metadata does not describe the model.
#[derive(Debug)]
pub enum ConfigError {
    /// A required entry is missing or of another type.
    MissingKey { key: String },
    /// A number is not the one of the model.
    WrongNumber { name: String, expected: u64, got: u64 },
    /// An array has fewer items than the model has layers.
    ShortArray { key: String, len: u64 },
    /// The compression ratio of a layer is not the one of the model.
    WrongRatio { layer: u32, ratio: u32, wanted: u32 },
    /// A floating-point number is not within the tolerance; both as bit patterns.
    WrongFloat { name: String, bits: u32, wanted: u32 },
    /// The expert weights are not normalised.
    WeightsNotNormalised,
}

/// The mathematical form of `ConfigError`.
pub enum ConfigErrorView {
    MissingKey { key: Seq<char> },
    WrongNumber { name: Seq<char>, expected: u64, got: u64 },
    ShortArray { key: Seq<char>, len: u64 },
    WrongRatio { layer: u32, ratio: u32, wanted: u32 },
    WrongFloat { name: Seq<char>, bits: u32, wanted: u32 },
    WeightsNotNormalised,
}

impl View for ConfigError {
    type V = ConfigErrorView;

    open spec fn view(&self) -> ConfigErrorView {
        match *self {
            ConfigError::MissingKey { key } => ConfigErrorView::MissingKey { key: key@ },
            ConfigError::WrongNumber { name, expected, got } => ConfigErrorView::WrongNumber {
                name: name@,
                expected,
                got,
            },
            ConfigError::ShortArray { key, len } => ConfigErrorView::ShortArray { key: key@, len },
            ConfigError::WrongRatio { layer, ratio, wanted } => ConfigErrorView::WrongRatio {
                layer,
                ratio,
                wanted,
            },
            ConfigError::WrongFloat { name, bits, wanted } => ConfigErrorView::WrongFloat {
                name: name@,
                bits,
                wanted,
            },
            ConfigError::WeightsNotNormalised => ConfigErrorView::WeightsNotNormalised,
        }
    }
}

/// What is wrong, if anything is.
pub type ConfigFault = Option<ConfigErrorView>;

/// The first of two faults.
pub open spec fn first_of(a: ConfigFault, b: ConfigFault) -> ConfigFault {
    if a is Some {
        a
    } else {
        b
    }
}

/// Whether `r` reports the fault `f`, and success exactly where there is none.
pub open spec fn reports<T>(r: Result<T, ConfigError>, f: ConfigFault) -> bool {
    match r {
        Ok(_) => f is None,
        Err(e) => f == Some(e@),
    }
}

// ── Single entries ───────────────────────────────────────────────────────

/// The metadata key of the setting `name`.
pub open spec fn setting(name: Seq<char>) -> Seq<char> {
    "deepseek4."@ + name
}

fn setting_key(name: &str) -> (r: String)
    ensures
        r@ == setting(name@),
{
    let mut s = String::from_str("deepseek4.");
    append(&mut s, name);
    s
}

/// The fault that a setting has no unsigned 32-bit value.
pub open spec fn lacks_u32(m: ModelView, name: Seq<char>) -> ConfigFault {
    if m.get_u32(setting(name)) is None {
        Some(ConfigErrorView::MissingKey { key: setting(name) })
    } else {
        None
    }
}

/// The fault that a setting, which has a value, is not `expected`.
pub open spec fn differs(m: ModelView, name: Seq<char>, expected: u32) -> ConfigFault {
    let got = m.get_u32(setting(name))->0;
    if got != expected {
        Some(ConfigErrorView::WrongNumber { name, expected: expected as u64, got: got as u64 })
    } else {
        None
    }
}

/// The fault that a setting is missing or not `expected`.
pub open spec fn not_number(m: ModelView, name: Seq<char>, expected: u32) -> ConfigFault {
    first_of(lacks_u32(m, name), differs(m, name, expected))
}

/// The fault that an optional setting is there and not zero.
pub open spec fn not_zero(m: ModelView, name: Seq<char>) -> ConfigFault {
    match m.get_u32(setting(name)) {
        Some(v) => if v != 0 {
            Some(ConfigErrorView::WrongNumber { name, expected: 0, got: v as u64 })
        } else {
            None
        },
        None => None,
    }
}

fn required_u32(model: &ModelGGUF, name: &str) -> (r: Result<u32, ConfigError>)
    ensures
        reports(r, lacks_u32(model@, name@)),
        r matches Ok(v) ==> model@.get_u32(setting(name@)) == Some(v),
{
    let key = setting_key(name);
    match model.get_u32(key.as_str()) {
        Some(v) => Ok(v),
        None => Err(ConfigError::MissingKey { key }),
    }
}

fn check_number(name: &str, got: u32, expected: u32) -> (r: Result<(), ConfigError>)
    ensures
        match r {
            Ok(_) => got == expected,
            Err(e) => got != expected && e@ == (ConfigErrorView::WrongNumber {
                name: name@,
                expected: expected as u64,
                got: got as u64,
            }),
        },
{
    if got != expected {
        Err(
            ConfigError::WrongNumber {
                name: String::from_str(name),
                expected: expected as u64,
                got: got as u64,
            },
        )
    } else {
        Ok(())
    }
}

fn expect_number(model: &ModelGGUF, name: &str, expected: u32) -> (r: Result<(), ConfigError>)
    ensures
        reports(r, not_number(model@, name@, expected)),
{
    match required_u32(model, name) {
        Ok(got) => check_number(name, got, expected),
        Err(e) => Err(e),
    }
}

fn expect_zero(model: &ModelGGUF, name: &str) -> (r: Result<(), ConfigError>)
    ensures
        reports(r, not_zero(model@, name@)),
{
    let key = setting_key(name);
    match model.get_u32(key.as_str()) {
        Some(v) => check_number(name, v, 0),
        None => Ok(()),
    }
}

// ── Floating-point entries ───────────────────────────────────────────────

/// Whether the single `got` is one of the `below` next smaller or `above` next larger
/// singles of `expected`, or that number itself. The counts are chosen so that these
/// are the numbers whose difference from the expected one is at most a millionth of
/// it, or a millionth where the expected number is not above 1.
pub open spec fn near(got: u32, expected: u32, below: int, above: int) -> bool {
    !nan(got) && key(expected) - below <= key(got) <= key(expected) + above
}

/// The fault that a number is not near the expected one.
pub open spec fn not_near(
    name: Seq<char>,
    got: u32,
    expected: u32,
    below: int,
    above: int,
) -> ConfigFault {
    if near(got, expected, below, above) {
        None
    } else {
        Some(ConfigErrorView::WrongFloat { name, bits: got, wanted: expected })
    }
}

/// The fault that a floating-point setting is missing or not near the expected number.
pub open spec fn not_float(
    m: ModelView,
    name: Seq<char>,
    expected: u32,
    below: int,
    above: int,
) -> ConfigFault {
    match m.get_f32(setting(name)) {
        Some(got) => not_near(name, got, expected, below, above),
        None => Some(ConfigErrorView::MissingKey { key: setting(name) }),
    }
}

fn expect_f32(name: String, got: u32, expected: u32, below: i64, above: i64) -> (r: Result<
    (),
    ConfigError,
>)
    requires
        0 <= below <= 0x1_0000_0000,
        0 <= above <= 0x1_0000_0000,
    ensures
        reports(r, not_near(name@, got, expected, below as int, above as int)),
{
    let k: i64 = order_key(got);
    let e: i64 = order_key(expected);
    if !is_nan(got) && e - below <= k && k <= e + above {
        Ok(())
    } else {
        Err(ConfigError::WrongFloat { name, bits: got, wanted: expected })
    }
}

fn expect_float(model: &ModelGGUF, name: &str, expected: u32, below: i64, above: i64) -> (r: Result<
    (),
    ConfigError,
>)
    requires
        0 <= below <= 0x1_0000_0000,
        0 <= above <= 0x1_0000_0000,
    ensures
        reports(r, not_float(model@, name@, expected, below as int, above as int)),
{
    let key = setting_key(name);
    match model.get_f32(key.as_str()) {
        Some(got) => expect_f32(String::from_str(name), got, expected, below, above),
        None => Err(ConfigError::MissingKey { key }),
    }
}

// ── Arrays ───────────────────────────────────────────────────────────────

/// The ratio that an item of the array gives; the largest number where it gives none.
pub open spec fn ratio_item(v: MetaView) -> u32 {
    match v.as_u32() {
        Some(r) => r,
        None => u32::MAX,
    }
}

/// The first of the items `i..` whose ratio is not the one of its layer.
pub open spec fn ratios_fault(items: Seq<MetaView>, i: int) -> ConfigFault
    decreases DS4_N_LAYER - i,
{
    if i >= DS4_N_LAYER {
        None
    } else if ratio_item(items[i]) != compress_ratio(i) {
        Some(
            ConfigErrorView::WrongRatio {
                layer: i as u32,
                ratio: ratio_item(items[i]),
                wanted: compress_ratio(i),
            },
        )
    } else {
        ratios_fault(items, i + 1)
    }
}

/// What is wrong with the compression ratios.
pub open spec fn compress_ratios_fault(m: ModelView) -> ConfigFault {
    let key = "deepseek4.attention.compress_ratios"@;
    match m.get_array(key) {
        None => Some(ConfigErrorView::MissingKey { key }),
        Some(items) => if items.len() < DS4_N_LAYER {
            Some(ConfigErrorView::ShortArray { key, len: items.len() as u64 })
        } else {
            ratios_fault(items, 0)
        },
    }
}

/// Checks the compression ratio of every layer.
pub fn validate_compress_ratios(model: &ModelGGUF) -> (r: Result<(), ConfigError>)
    ensures
        reports(r, compress_ratios_fault(model@)),
{
    let key = "deepseek4.attention.compress_ratios";
    let items: &[MetadataValue] = match model.get_array(key) {
        Some(a) => a,
        None => {
            return Err(ConfigError::MissingKey { key: String::from_str(key) });
        },
    };
    if items.len() < DS4_N_LAYER as usize {
        return Err(
            ConfigError::ShortArray { key: String::from_str(key), len: items.len() as u64 },
        );
    }
    let ghost views = crate::gguf::meta_views(items@);
    let mut il: u32 = 0;
    while il < DS4_N_LAYER
        invariant
            il <= DS4_N_LAYER <= items@.len(),
            views == crate::gguf::meta_views(items@),
            compress_ratios_fault(model@) == ratios_fault(views, il as int),
        decreases DS4_N_LAYER - il,
    {
        assert(views[il as int] == items@[il as int]@);
        let got: u32 = match items[il as usize].as_u32() {
            Some(v) => v,
            None => u32::MAX,
        };
        let expected: u32 = layer_compress_ratio(il);
        if got != expected {
            return Err(ConfigError::WrongRatio { layer: il, ratio: got, wanted: expected });
        }
        il = il + 1;
    }
    Ok(())
}

/// A quiet NaN, which stands for an item that is no number.
pub const NAN_BITS: u32 = 0x7fc0_0000;

/// The bits that an item of the array gives.
pub open spec fn clamp_item(v: MetaView) -> u32 {
    match v.as_f32() {
        Some(b) => b,
        None => NAN_BITS,
    }
}

/// The name of item `i` of the clamp array.
pub open spec fn clamp_name(i: int) -> Seq<char> {
    "swiglu_clamp_exp["@ + dec(i as nat) + "]"@
}

/// The first of the items `i..` that is not near the clamp of the model.
pub open spec fn clamps_fault(items: Seq<MetaView>, i: int) -> ConfigFault
    decreases DS4_N_LAYER - i,
{
    if i >= DS4_N_LAYER {
        None
    } else {
        first_of(
            not_near(clamp_name(i), clamp_item(items[i]), DS4_SWIGLU_CLAMP_EXP, 10, 10),
            clamps_fault(items, i + 1),
        )
    }
}

/// What is wrong with the activation clamps.
pub open spec fn swiglu_clamp_fault(m: ModelView) -> ConfigFault {
    let key = "deepseek4.swiglu_clamp_exp"@;
    match m.get_array(key) {
        None => Some(ConfigErrorView::MissingKey { key }),
        Some(items) => if items.len() < DS4_N_LAYER {
            Some(ConfigErrorView::ShortArray { key, len: items.len() as u64 })
        } else {
            clamps_fault(items, 0)
        },
    }
}

/// Checks the activation clamp of every layer.
pub fn validate_swiglu_clamp(model: &ModelGGUF) -> (r: Result<(), ConfigError>)
    ensures
        reports(r, swiglu_clamp_fault(model@)),
{
    let key = "deepseek4.swiglu_clamp_exp";
    let items: &[MetadataValue] = match model.get_array(key) {
        Some(a) => a,
        None => {
            return Err(ConfigError::MissingKey { key: String::from_str(key) });
        },
    };
    if items.len() < DS4_N_LAYER as usize {
        return Err(
            ConfigError::ShortArray { key: String::from_str(key), len: items.len() as u64 },
        );
    }
    let ghost views = crate::gguf::meta_views(items@);
    let mut i: u32 = 0;
    while i < DS4_N_LAYER
        invariant
            i <= DS4_N_LAYER <= items@.len(),
            views == crate::gguf::meta_views(items@),
            swiglu_clamp_fault(model@) == clamps_fault(views, i as int),
        decreases DS4_N_LAYER - i,
    {
        assert(views[i as int] == items@[i as int]@);
        let got: u32 = match items[i as usize].as_f32() {
            Some(v) => v,
            None => NAN_BITS,
        };
        let mut name = String::from_str("swiglu_clamp_exp[");
        let index = dec_u64(i as u64);
        append(&mut name, index.as_str());
        append(&mut name, "]");
        match expect_f32(name, got, DS4_SWIGLU_CLAMP_EXP, 10, 10) {
            Ok(_) => {},
            Err(e) => {
                return Err(e);
            },
        }
        i = i + 1;
    }
    Ok(())
}

// ── The whole configuration ──────────────────────────────────────────────

/// The first of the basic sizes that is missing.
pub open spec fn sizes_missing(m: ModelView) -> ConfigFault {
    first_of(
        lacks_u32(m, "block_count"@),
    first_of(
        lacks_u32(m, "embedding_length"@),
    first_of(
        lacks_u32(m, "vocab_size"@),
    first_of(
        lacks_u32(m, "attention.head_count"@),
    first_of(
        lacks_u32(m, "attention.head_count_kv"@),
    first_of(
        lacks_u32(m, "attention.key_length"@),
    first_of(
        lacks_u32(m, "attention.value_length"@),
    first_of(
        lacks_u32(m, "rope.dimension_count"@),
    first_of(
        lacks_u32(m, "attention.q_lora_rank"@),
    first_of(
        lacks_u32(m, "attention.output_lora_rank"@),
    first_of(
        lacks_u32(m, "attention.output_group_count"@),
    first_of(
        lacks_u32(m, "expert_count"@),
    first_of(
        lacks_u32(m, "expert_used_count"@),
    first_of(
        lacks_u32(m, "expert_feed_forward_length"@),
    first_of(
        lacks_u32(m, "expert_shared_count"@),
        lacks_u32(m, "hash_layer_count"@)
    )))))))))))))))
}

/// The first of the basic sizes, all there, that is not the one of the model.
pub open spec fn sizes_differ(m: ModelView) -> ConfigFault {
    first_of(
        differs(m, "block_count"@, DS4_N_LAYER),
    first_of(
        differs(m, "embedding_length"@, DS4_N_EMBD),
    first_of(
        differs(m, "vocab_size"@, DS4_N_VOCAB),
    first_of(
        differs(m, "attention.head_count"@, DS4_N_HEAD),
    first_of(
        differs(m, "attention.key_length"@, DS4_N_HEAD_DIM),
    first_of(
        differs(m, "attention.head_count_kv"@, DS4_N_HEAD_KV),
    first_of(
        differs(m, "attention.value_length"@, DS4_N_VALUE_DIM),
    first_of(
        differs(m, "rope.dimension_count"@, DS4_N_ROT),
    first_of(
        differs(m, "attention.output_group_count"@, DS4_N_OUT_GROUP),
    first_of(
        differs(m, "attention.q_lora_rank"@, DS4_N_LORA_Q),
    first_of(
        differs(m, "attention.output_lora_rank"@, DS4_N_LORA_O),
    first_of(
        differs(m, "expert_count"@, DS4_N_EXPERT),
    first_of(
        differs(m, "expert_used_count"@, DS4_N_EXPERT_USED),
    first_of(
        differs(m, "expert_feed_forward_length"@, DS4_N_FF_EXP),
    first_of(
        differs(m, "expert_shared_count"@, DS4_N_EXPERT_SHARED),
        differs(m, "hash_layer_count"@, DS4_N_HASH_LAYER)
    )))))))))))))))
}

/// Checks that the basic sizes are all there, and then that each is the one of the model.
fn check_sizes(model: &ModelGGUF) -> (r: Result<(), ConfigError>)
    ensures
        reports(r, first_of(sizes_missing(model@), sizes_differ(model@))),
{
    let n_block_count: u32 = match required_u32(model, "block_count") {
        Ok(v) => v,
        Err(e) => {
            return Err(e);
        },
    };
    let n_embedding_length: u32 = match required_u32(model, "embedding_length") {
        Ok(v) => v,
        Err(e) => {
            return Err(e);
        },
    };
    let n_vocab_size: u32 = match required_u32(model, "vocab_size") {
        Ok(v) => v,
        Err(e) => {
            return Err(e);
        },
    };
    let n_attention_head_count: u32 = match required_u32(model, "attention.head_count") {
        Ok(v) => v,
        Err(e) => {
            return Err(e);
        },
    };
    let n_attention_head_count_kv: u32 = match required_u32(model, "attention.head_count_kv") {
        Ok(v) => v,
        Err(e) => {
            return Err(e);
        },
    };
    let n_attention_key_length: u32 = match required_u32(model, "attention.key_length") {
        Ok(v) => v,
        Err(e) => {
            return Err(e);
        },
    };
    let n_attention_value_length: u32 = match required_u32(model, "attention.value_length") {
        Ok(v) => v,
        Err(e) => {
            return Err(e);
        },
    };
    let n_rope_dimension_count: u32 = match required_u32(model, "rope.dimension_count") {
        Ok(v) => v,
        Err(e) => {
            return Err(e);
        },
    };
    let n_attention_q_lora_rank: u32 = match required_u32(model, "attention.q_lora_rank") {
        Ok(v) => v,
        Err(e) => {
            return Err(e);
        },
    };
    let n_attention_output_lora_rank: u32 = match required_u32(model, "attention.output_lora_rank") {
        Ok(v) => v,
        Err(e) => {
            return Err(e);
        },
    };
    let n_attention_output_group_count: u32 = match required_u32(model, "attention.output_group_count") {
        Ok(v) => v,
        Err(e) => {
            return Err(e);
        },
    };
    let n_expert_count: u32 = match required_u32(model, "expert_count") {
        Ok(v) => v,
        Err(e) => {
            return Err(e);
        },
    };
    let n_expert_used_count: u32 = match required_u32(model, "expert_used_count") {
        Ok(v) => v,
        Err(e) => {
            return Err(e);
        },
    };
    let n_expert_feed_forward_length: u32 = match required_u32(model, "expert_feed_forward_length") {
        Ok(v) => v,
        Err(e) => {
            return Err(e);
        },
    };
    let n_expert_shared_count: u32 = match required_u32(model, "expert_shared_count") {
        Ok(v) => v,
        Err(e) => {
            return Err(e);
        },
    };
    let n_hash_layer_count: u32 = match required_u32(model, "hash_layer_count") {
        Ok(v) => v,
        Err(e) => {
            return Err(e);
        },
    };
    match check_number("block_count", n_block_count, DS4_N_LAYER) {
        Err(e) => {
            return Err(e);
        },
        Ok(_) => {},
    }
    match check_number("embedding_length", n_embedding_length, DS4_N_EMBD) {
        Err(e) => {
            return Err(e);
        },
        Ok(_) => {},
    }
    match check_number("vocab_size", n_vocab_size, DS4_N_VOCAB) {
        Err(e) => {
            return Err(e);
        },
        Ok(_) => {},
    }
    match check_number("attention.head_count", n_attention_head_count, DS4_N_HEAD) {
        Err(e) => {
            return Err(e);
        },
        Ok(_) => {},
    }
    match check_number("attention.key_length", n_attention_key_length, DS4_N_HEAD_DIM) {
        Err(e) => {
            return Err(e);
        },
        Ok(_) => {},
    }
    match check_number("attention.head_count_kv", n_attention_head_count_kv, DS4_N_HEAD_KV) {
        Err(e) => {
            return Err(e);
        },
        Ok(_) => {},
    }
    match check_number("attention.value_length", n_attention_value_length, DS4_N_VALUE_DIM) {
        Err(e) => {
            return Err(e);
        },
        Ok(_) => {},
    }
    match check_number("rope.dimension_count", n_rope_dimension_count, DS4_N_ROT) {
        Err(e) => {
            return Err(e);
        },
        Ok(_) => {},
    }
    match check_number("attention.output_group_count", n_attention_output_group_count, DS4_N_OUT_GROUP) {
        Err(e) => {
            return Err(e);
        },
        Ok(_) => {},
    }
    match check_number("attention.q_lora_rank", n_attention_q_lora_rank, DS4_N_LORA_Q) {
        Err(e) => {
            return Err(e);
        },
        Ok(_) => {},
    }
    match check_number("attention.output_lora_rank", n_attention_output_lora_rank, DS4_N_LORA_O) {
        Err(e) => {
            return Err(e);
        },
        Ok(_) => {},
    }
    match check_number("expert_count", n_expert_count, DS4_N_EXPERT) {
        Err(e) => {
            return Err(e);
        },
        Ok(_) => {},
    }
    match check_number("expert_used_count", n_expert_used_count, DS4_N_EXPERT_USED) {
        Err(e) => {
            return Err(e);
        },
        Ok(_) => {},
    }
    match check_number("expert_feed_forward_length", n_expert_feed_forward_length, DS4_N_FF_EXP) {
        Err(e) => {
            return Err(e);
        },
        Ok(_) => {},
    }
    match check_number("expert_shared_count", n_expert_shared_count, DS4_N_EXPERT_SHARED) {
        Err(e) => {
            return Err(e);
        },
        Ok(_) => {},
    }
    check_number("hash_layer_count", n_hash_layer_count, DS4_N_HASH_LAYER)
}

/// The first indexer size that is missing, and where none is, the first one that is not
/// the one of the model.
pub open spec fn indexer_fault(m: ModelView) -> ConfigFault {
    first_of(
        lacks_u32(m, "attention.indexer.head_count"@),
        first_of(
            lacks_u32(m, "attention.indexer.key_length"@),
            first_of(
                lacks_u32(m, "attention.indexer.top_k"@),
                first_of(
                    differs(m, "attention.indexer.head_count"@, DS4_N_INDEXER_HEAD),
                    first_of(
                        differs(m, "attention.indexer.key_length"@, DS4_N_INDEXER_HEAD_DIM),
                        differs(m, "attention.indexer.top_k"@, DS4_N_INDEXER_TOP_K),
                    ),
                ),
            ),
        ),
    )
}

fn check_indexer(model: &ModelGGUF) -> (r: Result<(), ConfigError>)
    ensures
        reports(r, indexer_fault(model@)),
{
    let heads: u32 = match required_u32(model, "attention.indexer.head_count") {
        Ok(v) => v,
        Err(e) => {
            return Err(e);
        },
    };
    let head_dim: u32 = match required_u32(model, "attention.indexer.key_length") {
        Ok(v) => v,
        Err(e) => {
            return Err(e);
        },
    };
    let top_k: u32 = match required_u32(model, "attention.indexer.top_k") {
        Ok(v) => v,
        Err(e) => {
            return Err(e);
        },
    };
    match check_number("attention.indexer.head_count", heads, DS4_N_INDEXER_HEAD) {
        Err(e) => {
            return Err(e);
        },
        Ok(_) => {},
    }
    match check_number("attention.indexer.key_length", head_dim, DS4_N_INDEXER_HEAD_DIM) {
        Err(e) => {
            return Err(e);
        },
        Ok(_) => {},
    }
    check_number("attention.indexer.top_k", top_k, DS4_N_INDEXER_TOP_K)
}

/// The fault that the original context length is missing or not the one of the model.
pub open spec fn rope_context_fault(m: ModelView) -> ConfigFault {
    let name = "rope.scaling.original_context_length"@;
    match m.get_u64(setting(name)) {
        None => Some(ConfigErrorView::MissingKey { key: setting(name) }),
        Some(v) => if v != DS4_ROPE_ORIG_CTX {
            Some(ConfigErrorView::WrongNumber { name, expected: DS4_ROPE_ORIG_CTX, got: v })
        } else {
            None
        },
    }
}

fn check_rope_context(model: &ModelGGUF) -> (r: Result<(), ConfigError>)
    ensures
        reports(r, rope_context_fault(model@)),
{
    let name = "rope.scaling.original_context_length";
    let key = setting_key(name);
    match model.get_u64(key.as_str()) {
        None => Err(ConfigError::MissingKey { key }),
        Some(v) => if v != DS4_ROPE_ORIG_CTX {
            Err(
                ConfigError::WrongNumber {
                    name: String::from_str(name),
                    expected: DS4_ROPE_ORIG_CTX,
                    got: v,
                },
            )
        } else {
            Ok(())
        },
    }
}

/// The fault that the expert weights are not said to be normalised.
pub open spec fn weights_norm_fault(m: ModelView) -> ConfigFault {
    match m.get_bool(setting("expert_weights_norm"@)) {
        None => Some(ConfigErrorView::MissingKey { key: setting("expert_weights_norm"@) }),
        Some(b) => if b {
            None
        } else {
            Some(ConfigErrorView::WeightsNotNormalised)
        },
    }
}

fn check_weights_norm(model: &ModelGGUF) -> (r: Result<(), ConfigError>)
    ensures
        reports(r, weights_norm_fault(model@)),
{
    let key = setting_key("expert_weights_norm");
    match model.get_bool(key.as_str()) {
        None => Err(ConfigError::MissingKey { key }),
        Some(b) => if b {
            Ok(())
        } else {
            Err(ConfigError::WeightsNotNormalised)
        },
    }
}

/// The first floating-point setting that is missing or not near the one of the model.
pub open spec fn floats_fault(m: ModelView) -> ConfigFault {
    first_of(
        not_float(m, "rope.freq_base"@, DS4_ROPE_FREQ_BASE, 10, 10),
    first_of(
        not_float(m, "rope.scaling.factor"@, DS4_ROPE_SCALE_FACTOR, 16, 8),
    first_of(
        not_float(m, "rope.scaling.yarn_beta_fast"@, DS4_ROPE_YARN_BETA_FAST, 16, 8),
    first_of(
        not_float(m, "rope.scaling.yarn_beta_slow"@, DS4_ROPE_YARN_BETA_SLOW, 16, 8),
    first_of(
        not_float(m, "attention.compress_rope_freq_base"@, DS4_COMPRESS_ROPE_FREQ_BASE, 10, 10),
    first_of(
        not_float(m, "expert_weights_scale"@, DS4_EXPERT_WEIGHT_SCALE, 12, 12),
    first_of(
        not_float(m, "attention.layer_norm_rms_epsilon"@, DS4_RMS_EPS, EPS_BELOW as int, EPS_ABOVE as int),
        not_float(m, "hyper_connection.epsilon"@, DS4_HC_EPS, EPS_BELOW as int, EPS_ABOVE as int)
    )))))))
}

/// Checks the floating-point settings.
fn check_floats(model: &ModelGGUF) -> (r: Result<(), ConfigError>)
    ensures
        reports(r, floats_fault(model@)),
{
    match expect_float(model, "rope.freq_base", DS4_ROPE_FREQ_BASE, 10, 10) {
        Err(e) => {
            return Err(e);
        },
        Ok(_) => {},
    }
    match expect_float(model, "rope.scaling.factor", DS4_ROPE_SCALE_FACTOR, 16, 8) {
        Err(e) => {
            return Err(e);
        },
        Ok(_) => {},
    }
    match expect_float(model, "rope.scaling.yarn_beta_fast", DS4_ROPE_YARN_BETA_FAST, 16, 8) {
        Err(e) => {
            return Err(e);
        },
        Ok(_) => {},
    }
    match expect_float(model, "rope.scaling.yarn_beta_slow", DS4_ROPE_YARN_BETA_SLOW, 16, 8) {
        Err(e) => {
            return Err(e);
        },
        Ok(_) => {},
    }
    match expect_float(model, "attention.compress_rope_freq_base", DS4_COMPRESS_ROPE_FREQ_BASE, 10, 10) {
        Err(e) => {
            return Err(e);
        },
        Ok(_) => {},
    }
    match expect_float(model, "expert_weights_scale", DS4_EXPERT_WEIGHT_SCALE, 12, 12) {
        Err(e) => {
            return Err(e);
        },
        Ok(_) => {},
    }
    match expect_float(model, "attention.layer_norm_rms_epsilon", DS4_RMS_EPS, EPS_BELOW, EPS_ABOVE) {
        Err(e) => {
            return Err(e);
        },
        Ok(_) => {},
    }
    expect_float(model, "hyper_connection.epsilon", DS4_HC_EPS, EPS_BELOW, EPS_ABOVE)
}

/// The first thing in the metadata that does not fit DeepSeek V4 Flash.
pub open spec fn config_fault(m: ModelView) -> ConfigFault {
    first_of(
        first_of(sizes_missing(m), sizes_differ(m)),
    first_of(
        not_zero(m, "expert_group_count"@),
    first_of(
        not_zero(m, "expert_group_used_count"@),
    first_of(
        not_number(m, "attention.sliding_window"@, DS4_N_SWA),
    first_of(
        indexer_fault(m),
    first_of(
        not_number(m, "hyper_connection.count"@, DS4_N_HC),
    first_of(
        not_number(m, "hyper_connection.sinkhorn_iterations"@, DS4_N_HC_SINKHORN_ITER),
    first_of(
        compress_ratios_fault(m),
    first_of(
        swiglu_clamp_fault(m),
    first_of(
        rope_context_fault(m),
    first_of(
        floats_fault(m),
        weights_norm_fault(m)
    )))))))))))
}

/// Checks that the metadata describes DeepSeek V4 Flash, and reports the first thing that
/// does not fit.
pub fn config_validate_model(model: &ModelGGUF) -> (r: Result<(), ConfigError>)
    ensures
        reports(r, config_fault(model@)),
{
    match check_sizes(model) {
        Err(e) => {
            return Err(e);
        },
        Ok(_) => {},
    }
    match expect_zero(model, "expert_group_count") {
        Err(e) => {
            return Err(e);
        },
        Ok(_) => {},
    }
    match expect_zero(model, "expert_group_used_count") {
        Err(e) => {
            return Err(e);
        },
        Ok(_) => {},
    }
    match expect_number(model, "attention.sliding_window", DS4_N_SWA) {
        Err(e) => {
            return Err(e);
        },
        Ok(_) => {},
    }
    match check_indexer(model) {
        Err(e) => {
            return Err(e);
        },
        Ok(_) => {},
    }
    match expect_number(model, "hyper_connection.count", DS4_N_HC) {
        Err(e) => {
            return Err(e);
        },
        Ok(_) => {},
    }
    match expect_number(model, "hyper_connection.sinkhorn_iterations", DS4_N_HC_SINKHORN_ITER) {
        Err(e) => {
            return Err(e);
        },
        Ok(_) => {},
    }
    match validate_compress_ratios(model) {
        Err(e) => {
            return Err(e);
        },
        Ok(_) => {},
    }
    match validate_swiglu_clamp(model) {
        Err(e) => {
            return Err(e);
        },
        Ok(_) => {},
    }
    match check_rope_context(model) {
        Err(e) => {
            return Err(e);
        },
        Ok(_) => {},
    }
    match check_floats(model) {
        Err(e) => {
            return Err(e);
        },
        Ok(_) => {},
    }
    check_weights_norm(model)
}

} // verus!

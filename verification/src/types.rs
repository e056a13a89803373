//! Core types and the fixed shape of the DeepSeek V4 Flash model.
use vstd::prelude::*;

use crate::text::{lowercase, same_text, to_lowercase};

verus! {

// ── Fixed model shape ────────────────────────────────────────────────────

pub const DS4_N_LAYER: u32 = 43;

pub const DS4_N_EMBD: u32 = 4096;

pub const DS4_N_VOCAB: u32 = 129280;

pub const DS4_N_HEAD: u32 = 64;

pub const DS4_N_HEAD_KV: u32 = 1;

pub const DS4_N_HEAD_DIM: u32 = 512;

pub const DS4_N_VALUE_DIM: u32 = 512;

pub const DS4_N_ROT: u32 = 64;

pub const DS4_N_OUT_GROUP: u32 = 8;

pub const DS4_N_LORA_Q: u32 = 1024;

pub const DS4_N_LORA_O: u32 = 1024;

pub const DS4_N_EXPERT: u32 = 256;

pub const DS4_N_EXPERT_USED: u32 = 6;

pub const DS4_N_EXPERT_SHARED: u32 = 1;

pub const DS4_N_FF_EXP: u32 = 2048;

pub const DS4_N_HASH_LAYER: u32 = 3;

pub const DS4_N_SWA: u32 = 128;

pub const DS4_N_INDEXER_HEAD: u32 = 64;

pub const DS4_N_INDEXER_HEAD_DIM: u32 = 128;

pub const DS4_N_INDEXER_TOP_K: u32 = 512;

pub const DS4_N_HC: u32 = 4;

pub const DS4_N_HC_SINKHORN_ITER: u32 = 20;

pub const DS4_ROPE_ORIG_CTX: u64 = 65536;

pub const DS4_THINK_MAX_MIN_CONTEXT: u32 = 393216;

/// Elements of one K-quant block.
pub const QK_K: u32 = 256;

// ── Enums ────────────────────────────────────────────────────────────────

#[derive(Debug, Clone, Copy, PartialEq, Eq, Structural)]
pub enum Backend {
    Metal,
    Cpu,
}

impl Backend {
    /// The backend called `name`: `cpu` in any case is the CPU, everything else Metal.
    pub fn from_name(name: &str) -> (r: Self)
        ensures
            r == if lowercase(name@) == "cpu"@ { Backend::Cpu } else { Backend::Metal },
    {
        let low = to_lowercase(name);
        if same_text(low.as_str(), "cpu") {
            Backend::Cpu
        } else {
            Backend::Metal
        }
    }

    pub fn name(&self) -> (r: &'static str)
        ensures
            r@ == match *self {
                Backend::Metal => "metal"@,
                Backend::Cpu => "cpu"@,
            },
    {
        match self {
            Backend::Metal => "metal",
            Backend::Cpu => "cpu",
        }
    }
}

#[derive(Debug, Clone, Copy, PartialEq, Eq, Structural)]
pub enum ThinkMode {
    Off,
    High,
    Max,
}

impl ThinkMode {
    pub fn is_enabled(&self) -> (r: bool)
        ensures
            r == (*self != ThinkMode::Off),
    {
        !matches!(self, ThinkMode::Off)
    }

    pub fn name(&self) -> (r: &'static str)
        ensures
            r@ == match *self {
                ThinkMode::Off => "none"@,
                ThinkMode::High => "high"@,
                ThinkMode::Max => "max"@,
            },
    {
        match self {
            ThinkMode::Off => "none",
            ThinkMode::High => "high",
            ThinkMode::Max => "max",
        }
    }
}

#[derive(Debug, Clone, Copy, PartialEq, Eq, Structural)]
pub enum LogType {
    Default,
    Prefill,
    Generation,
    Kvcache,
    Tool,
    Warning,
    Timing,
    Success,
    Error,
}

// ── Tokens ───────────────────────────────────────────────────────────────

/// A sequence of token IDs. Its view is that sequence.
#[derive(Debug, Clone)]
pub struct TokenVec {
    pub v: Vec<i32>,
}

impl View for TokenVec {
    type V = Seq<i32>;

    open spec fn view(&self) -> Seq<i32> {
        self.v@
    }
}

impl TokenVec {
    pub fn new() -> (r: Self)
        ensures
            r@ == Seq::<i32>::empty(),
    {
        TokenVec { v: Vec::new() }
    }

    pub fn push(&mut self, token: i32)
        ensures
            final(self)@ == old(self)@.push(token),
    {
        self.v.push(token);
    }

    pub fn len(&self) -> (r: usize)
        ensures
            r == self@.len(),
    {
        self.v.len()
    }

    pub fn is_empty(&self) -> (r: bool)
        ensures
            r == (self@.len() == 0),
    {
        self.v.len() == 0
    }

    /// Whether the tokens of `prefix` are the first ones here.
    pub fn starts_with(&self, prefix: &TokenVec) -> (r: bool)
        ensures
            r == prefix@.is_prefix_of(self@),
    {
        let n: usize = prefix.v.len();
        if n > self.v.len() {
            return false;
        }
        let mut i: usize = 0;
        while i < n
            invariant
                i <= n == prefix@.len(),
                n <= self@.len(),
                forall|k: int| 0 <= k < i ==> self@[k] == prefix@[k],
            decreases n - i,
        {
            if self.v[i] != prefix.v[i] {
                assert(self@.subrange(0, n as int)[i as int] != prefix@[i as int]);
                return false;
            }
            i = i + 1;
        }
        assert(prefix@ =~= self@.subrange(0, n as int));
        true
    }

    /// Replaces the tokens by those of `other`.
    pub fn copy_from(&mut self, other: &TokenVec)
        ensures
            final(self)@ == other@,
    {
        self.v = copy_i32(&other.v);
    }
}

/// A copy of `v`.
pub fn copy_i32(v: &Vec<i32>) -> (r: Vec<i32>)
    ensures
        r@ == v@,
{
    let mut r: Vec<i32> = Vec::new();
    let mut i: usize = 0;
    while i < v.len()
        invariant
            i <= v@.len(),
            r@ == v@.take(i as int),
        decreases v@.len() - i,
    {
        r.push(v[i]);
        i = i + 1;
        assert(v@.take(i as int) =~= v@.take(i - 1).push(v@[i - 1]));
    }
    assert(v@.take(v@.len() as int) =~= v@);
    r
}

impl Default for TokenVec {
    fn default() -> (r: Self)
        ensures
            r@ == Seq::<i32>::empty(),
    {
        TokenVec::new()
    }
}

/// One token with the bit patterns of its logit and of its log-probability, both
/// IEEE single precision.
#[derive(Debug, Clone, Copy, PartialEq, Eq, Structural)]
pub struct TokenScore {
    pub id: i32,
    pub logit: u32,
    pub logprob: u32,
}

// ── Backend options ──────────────────────────────────────────────────────

/// The bit pattern of the single 3.0, the default acceptance margin.
pub const MTP_MARGIN_DEFAULT: u32 = 0x4040_0000;

/// Options of an engine. `mtp_margin` is the bit pattern of a single.
#[derive(Debug, Clone)]
pub struct EngineOptions {
    pub model_path: String,
    pub mtp_path: Option<String>,
    pub backend: Backend,
    pub n_threads: u32,
    pub mtp_draft_tokens: u32,
    pub mtp_margin: u32,
    pub warm_weights: bool,
    pub quality: bool,
}

impl Default for EngineOptions {
    fn default() -> (r: Self)
        ensures
            r.model_path@ == "ds4flash.gguf"@,
            r.mtp_path is None,
            r.backend == Backend::Metal,
            r.n_threads == 0,
            r.mtp_draft_tokens == 1,
            r.mtp_margin == MTP_MARGIN_DEFAULT,
            !r.warm_weights,
            !r.quality,
    {
        EngineOptions {
            model_path: String::from_str("ds4flash.gguf"),
            mtp_path: None,
            backend: Backend::Metal,
            n_threads: 0,
            mtp_draft_tokens: 1,
            mtp_margin: MTP_MARGIN_DEFAULT,
            warm_weights: false,
            quality: false,
        }
    }
}

// ── Memory report ────────────────────────────────────────────────────────

#[derive(Debug, Clone, Copy, PartialEq, Eq, Structural)]
pub struct ContextMemory {
    pub total_bytes: u64,
    pub raw_bytes: u64,
    pub compressed_bytes: u64,
    pub scratch_bytes: u64,
    pub prefill_cap: u32,
    pub raw_cap: u32,
    pub comp_cap: u32,
}

impl Default for ContextMemory {
    fn default() -> (r: Self)
        ensures
            r == (ContextMemory {
                total_bytes: 0,
                raw_bytes: 0,
                compressed_bytes: 0,
                scratch_bytes: 0,
                prefill_cap: 0,
                raw_cap: 0,
                comp_cap: 0,
            }),
    {
        ContextMemory {
            total_bytes: 0,
            raw_bytes: 0,
            compressed_bytes: 0,
            scratch_bytes: 0,
            prefill_cap: 0,
            raw_cap: 0,
            comp_cap: 0,
        }
    }
}

// ── Session rewrite result ───────────────────────────────────────────────

#[derive(Debug, Clone, Copy, PartialEq, Eq, Structural)]
pub enum SessionRewriteResult {
    Error,
    Rewritten,
    RebuildNeeded,
}

impl SessionRewriteResult {
    /// The status code of the result.
    pub fn code(&self) -> (r: i32)
        ensures
            r == match *self {
                SessionRewriteResult::Error => -1i32,
                SessionRewriteResult::Rewritten => 0i32,
                SessionRewriteResult::RebuildNeeded => 1i32,
            },
    {
        match self {
            SessionRewriteResult::Error => -1,
            SessionRewriteResult::Rewritten => 0,
            SessionRewriteResult::RebuildNeeded => 1,
        }
    }
}

// ── Reasoning prefix ─────────────────────────────────────────────────────

pub const DS4_REASONING_EFFORT_MAX_PREFIX: &'static str = "Reasoning Effort: Absolute maximum with no shortcuts permitted.\nYou MUST be very thorough in your thinking and comprehensively decompose the problem to resolve the root cause, rigorously stress-testing your logic against all potential paths, edge cases, and adversarial scenarios.\nExplicitly write out your entire deliberation process, documenting every intermediate step, considered alternative, and rejected hypothesis to ensure absolutely no assumption is left unchecked.\n\n";

/// The text that asks for the maximum reasoning effort.
pub fn think_max_prefix() -> (r: &'static str)
    ensures
        r@ == DS4_REASONING_EFFORT_MAX_PREFIX@,
{
    DS4_REASONING_EFFORT_MAX_PREFIX
}

pub fn think_max_min_context() -> (r: u32)
    ensures
        r == DS4_THINK_MAX_MIN_CONTEXT,
{
    DS4_THINK_MAX_MIN_CONTEXT
}

/// The mode in which a context of `ctx_size` tokens runs: `Max` needs a context of
/// at least `DS4_THINK_MAX_MIN_CONTEXT` and is `High` below it.
pub open spec fn mode_for_context(mode: ThinkMode, ctx_size: int) -> ThinkMode {
    if mode == ThinkMode::Max && ctx_size < DS4_THINK_MAX_MIN_CONTEXT {
        ThinkMode::High
    } else {
        mode
    }
}

pub fn think_mode_for_context(mode: ThinkMode, ctx_size: i32) -> (r: ThinkMode)
    ensures
        r == mode_for_context(mode, ctx_size as int),
{
    if mode == ThinkMode::Max && (ctx_size < 0 || (ctx_size as u32) < DS4_THINK_MAX_MIN_CONTEXT) {
        ThinkMode::High
    } else {
        mode
    }
}

// ── GGUF tensor types ────────────────────────────────────────────────────

#[derive(Debug, Clone, Copy, PartialEq, Eq, Structural)]
pub enum TensorType {
    F32,
    F16,
    Q8_0,
    Q2K,
    Q4K,
    IQ2Xxs,
    I32,
}

impl TensorType {
    /// The GGUF tag of the type.
    pub open spec fn spec_tag(self) -> u32 {
        match self {
            TensorType::F32 => 0,
            TensorType::F16 => 1,
            TensorType::Q8_0 => 8,
            TensorType::Q2K => 10,
            TensorType::Q4K => 12,
            TensorType::IQ2Xxs => 16,
            TensorType::I32 => 26,
        }
    }

    /// The type with the GGUF tag `v`.
    pub open spec fn of_tag(v: u32) -> Option<TensorType> {
        if v == 0 {
            Some(TensorType::F32)
        } else if v == 1 {
            Some(TensorType::F16)
        } else if v == 8 {
            Some(TensorType::Q8_0)
        } else if v == 10 {
            Some(TensorType::Q2K)
        } else if v == 12 {
            Some(TensorType::Q4K)
        } else if v == 16 {
            Some(TensorType::IQ2Xxs)
        } else if v == 26 {
            Some(TensorType::I32)
        } else {
            None
        }
    }

    /// The GGUF tag of the type.
    pub fn tag(&self) -> (r: u32)
        ensures
            r == self.spec_tag(),
    {
        match self {
            TensorType::F32 => 0,
            TensorType::F16 => 1,
            TensorType::Q8_0 => 8,
            TensorType::Q2K => 10,
            TensorType::Q4K => 12,
            TensorType::IQ2Xxs => 16,
            TensorType::I32 => 26,
        }
    }

    pub fn from_u32(v: u32) -> (r: Option<Self>)
        ensures
            r == TensorType::of_tag(v),
            r matches Some(t) ==> t.spec_tag() == v,
            r is None ==> forall|t: TensorType| #[trigger] t.spec_tag() != v,
    {
        match v {
            0 => Some(TensorType::F32),
            1 => Some(TensorType::F16),
            8 => Some(TensorType::Q8_0),
            10 => Some(TensorType::Q2K),
            12 => Some(TensorType::Q4K),
            16 => Some(TensorType::IQ2Xxs),
            26 => Some(TensorType::I32),
            _ => None,
        }
    }

    /// Elements of one block of the type.
    pub fn block_elems(&self) -> (r: u32)
        ensures
            r == match *self {
                TensorType::F32 | TensorType::F16 | TensorType::I32 => 1u32,
                TensorType::Q8_0 => 32u32,
                TensorType::Q2K | TensorType::Q4K | TensorType::IQ2Xxs => QK_K,
            },
    {
        match self {
            TensorType::F32 | TensorType::F16 | TensorType::I32 => 1,
            TensorType::Q8_0 => 32,
            TensorType::Q2K | TensorType::Q4K | TensorType::IQ2Xxs => QK_K,
        }
    }

    /// Bytes of one block of the type.
    pub fn block_bytes(&self) -> (r: u32)
        ensures
            r == match *self {
                TensorType::F32 => 4u32,
                TensorType::F16 => 2u32,
                TensorType::Q8_0 => 34u32,
                TensorType::Q2K => 84u32,
                TensorType::Q4K => 144u32,
                TensorType::IQ2Xxs => 66u32,
                TensorType::I32 => 4u32,
            },
    {
        match self {
            TensorType::F32 => 4,
            TensorType::F16 => 2,
            TensorType::Q8_0 => 34,
            TensorType::Q2K => 84,
            TensorType::Q4K => 144,
            TensorType::IQ2Xxs => 66,
            TensorType::I32 => 4,
        }
    }

    /// The name under which the type is shown.
    pub open spec fn spec_name(self) -> Seq<char> {
        match self {
            TensorType::F32 => "f32"@,
            TensorType::F16 => "f16"@,
            TensorType::Q8_0 => "q8_0"@,
            TensorType::Q2K => "q2_k"@,
            TensorType::Q4K => "q4_k"@,
            TensorType::IQ2Xxs => "iq2_xxs"@,
            TensorType::I32 => "i32"@,
        }
    }

    pub fn name(&self) -> (r: &'static str)
        ensures
            r@ == self.spec_name(),
    {
        match self {
            TensorType::F32 => "f32",
            TensorType::F16 => "f16",
            TensorType::Q8_0 => "q8_0",
            TensorType::Q2K => "q2_k",
            TensorType::Q4K => "q4_k",
            TensorType::IQ2Xxs => "iq2_xxs",
            TensorType::I32 => "i32",
        }
    }
}

/// The tag of a type leads back to the type.
pub proof fn tensor_tag_roundtrip(t: TensorType)
    ensures
        TensorType::of_tag(t.spec_tag()) == Some(t),
{
}

// ── Logging ──────────────────────────────────────────────────────────────

/// The terminal escape sequence with which a message of type `t` starts.
pub fn log_color_code(t: LogType) -> (r: &'static str)
    ensures
        r@ == match t {
            LogType::Prefill | LogType::Timing => "\x1b[36m"@,
            LogType::Generation | LogType::Success => "\x1b[32m"@,
            LogType::Kvcache => "\x1b[33m"@,
            LogType::Tool => "\x1b[90m"@,
            LogType::Warning => "\x1b[38;5;208m"@,
            LogType::Error => "\x1b[31m"@,
            LogType::Default => ""@,
        },
{
    match t {
        LogType::Prefill | LogType::Timing => "\x1b[36m",
        LogType::Generation | LogType::Success => "\x1b[32m",
        LogType::Kvcache => "\x1b[33m",
        LogType::Tool => "\x1b[90m",
        LogType::Warning => "\x1b[38;5;208m",
        LogType::Error => "\x1b[31m",
        LogType::Default => "",
    }
}

} // verus!

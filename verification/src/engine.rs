//! The engine: a model with its bound weights and vocabulary, and the chat format.
use vstd::prelude::*;

use crate::cache::{comp_cap, prefill_cap};
use crate::config::{config_fault, config_validate_model, ConfigError, ConfigErrorView};
use crate::gguf::{parse_model, GgufError, ModelGGUF, ModelView};
use crate::memory::{context_memory, context_memory_estimate};
use crate::metal::{graph_raw_cap, metal_graph_raw_cap_for_context};
use crate::session::{Session, SessionError};
use crate::tokenizer::{text_tokens, vocab_error, vocab_of, Vocab, VocabError, VocabView};
use crate::types::{
    Backend, ContextMemory, EngineOptions, TokenVec, DS4_N_HEAD_DIM, DS4_N_LAYER, DS4_N_SWA,
    MTP_MARGIN_DEFAULT,
};
use crate::weights::{
    bind_fault, mtp_bind_fault, mtp_of, mtp_weights_bind, weights_bind, weights_of, MtpView,
    MtpWeights, Weights, WeightsError, WeightsErrorView, WeightsView,
};

verus! {

/// Why an engine cannot be opened.
#[derive(Debug)]
pub enum EngineError {
    /// The model file cannot be read.
    Model(GgufError),
    /// The model has no usable vocabulary.
    Vocab(VocabError),
    /// The metadata does not describe the supported model.
    Config(ConfigError),
    /// The weights do not have the expected layout.
    Weights(WeightsError),
    /// The draft model file cannot be read.
    MtpModel(GgufError),
    /// The draft weights do not have the expected layout.
    MtpWeights(WeightsError),
}

/// The mathematical form of an `EngineError`.
pub enum EngineErrorView {
    Model(GgufError),
    Vocab(VocabError),
    Config(ConfigErrorView),
    Weights(WeightsErrorView),
    MtpModel(GgufError),
    MtpWeights(WeightsErrorView),
}

impl View for EngineError {
    type V = EngineErrorView;

    open spec fn view(&self) -> EngineErrorView {
        match *self {
            EngineError::Model(e) => EngineErrorView::Model(e),
            EngineError::Vocab(e) => EngineErrorView::Vocab(e),
            EngineError::Config(e) => EngineErrorView::Config(e@),
            EngineError::Weights(e) => EngineErrorView::Weights(e@),
            EngineError::MtpModel(e) => EngineErrorView::MtpModel(e),
            EngineError::MtpWeights(e) => EngineErrorView::MtpWeights(e@),
        }
    }
}

/// A model that is ready for inference.
pub struct Engine {
    /// The primary model.
    pub model: ModelGGUF,
    /// Its bound weights.
    pub weights: Weights,
    /// The draft model, where there is one.
    pub mtp_model: Option<ModelGGUF>,
    /// The bound weights of the draft model.
    pub mtp_weights: Option<MtpWeights>,
    /// The vocabulary of the primary model.
    pub vocab: Vocab,
    /// The selected backend.
    pub backend: Backend,
    /// Draft tokens for each step.
    pub mtp_draft_tokens: u32,
    /// Acceptance margin of drafts, as the bit pattern of a single.
    pub mtp_margin: u32,
    /// Whether the slower exact path is used.
    pub quality: bool,
    /// Whether the Metal backend has been initialised.
    pub metal_initialized: bool,
    /// Whether the draft model is ready.
    pub mtp_ready: bool,
}

/// The mathematical form of an engine.
#[verifier::ext_equal]
pub struct EngineView {
    pub model: ModelView,
    pub weights: WeightsView,
    pub mtp_model: Option<ModelView>,
    pub mtp_weights: Option<MtpView>,
    pub vocab: VocabView,
    pub backend: Backend,
    pub draft_tokens: u32,
    pub margin: u32,
    pub quality: bool,
    pub metal_initialized: bool,
    pub mtp_ready: bool,
}

impl View for Engine {
    type V = EngineView;

    open spec fn view(&self) -> EngineView {
        EngineView {
            model: self.model@,
            weights: self.weights@,
            mtp_model: match self.mtp_model {
                Some(m) => Some(m@),
                None => None,
            },
            mtp_weights: match self.mtp_weights {
                Some(w) => Some(w@),
                None => None,
            },
            vocab: self.vocab@,
            backend: self.backend,
            draft_tokens: self.mtp_draft_tokens,
            margin: self.mtp_margin,
            quality: self.quality,
            metal_initialized: self.metal_initialized,
            mtp_ready: self.mtp_ready,
        }
    }
}

/// The draft tokens for each step: those asked for up to 16, and one where none are.
pub open spec fn draft_tokens(asked: u32) -> u32 {
    if asked == 0 {
        1
    } else if asked > 16 {
        16
    } else {
        asked
    }
}

/// The margin that is used: the one asked for, or the default in place of a negative
/// number or none.
pub open spec fn draft_margin(asked: u32) -> u32 {
    if asked <= 0x7f80_0000 || asked == 0x8000_0000 {
        asked
    } else {
        MTP_MARGIN_DEFAULT
    }
}

/// The first thing that keeps a model file from being opened.
pub open spec fn open_error(data: Seq<u8>) -> Option<EngineErrorView> {
    match parse_model(data) {
        Err(e) => Some(EngineErrorView::Model(e)),
        Ok(m) => match vocab_error(m) {
            Some(e) => Some(EngineErrorView::Vocab(e)),
            None => match config_fault(m) {
                Some(e) => Some(EngineErrorView::Config(e)),
                None => match bind_fault(m) {
                    Some(e) => Some(EngineErrorView::Weights(e)),
                    None => None,
                },
            },
        },
    }
}

/// The engine of a model file that can be opened, before a draft model is attached.
pub open spec fn opened(options: EngineOptions, data: Seq<u8>) -> EngineView {
    let m = parse_model(data)->Ok_0;
    EngineView {
        model: m,
        weights: weights_of(m),
        mtp_model: None,
        mtp_weights: None,
        vocab: vocab_of(m),
        backend: options.backend,
        draft_tokens: draft_tokens(options.mtp_draft_tokens),
        margin: draft_margin(options.mtp_margin),
        quality: options.quality,
        metal_initialized: false,
        mtp_ready: false,
    }
}

/// The first thing that keeps a draft model file from being attached.
pub open spec fn attach_error(data: Seq<u8>) -> Option<EngineErrorView> {
    match parse_model(data) {
        Err(e) => Some(EngineErrorView::MtpModel(e)),
        Ok(m) => match mtp_bind_fault(m) {
            Some(e) => Some(EngineErrorView::MtpWeights(e)),
            None => None,
        },
    }
}

/// The bytes of the tensor data of a model: where they start and how many there are.
pub open spec fn tensor_region(m: ModelView) -> (u64, u64) {
    (
        m.tensor_data_pos,
        if m.file_len > m.tensor_data_pos {
            (m.file_len - m.tensor_data_pos) as u64
        } else {
            0
        },
    )
}

impl Engine {
    /// Opens the model file with the contents `data`: reads it, loads the vocabulary,
    /// checks the metadata and binds the weights.
    pub fn open(options: &EngineOptions, data: &[u8]) -> (r: Result<Self, EngineError>)
        requires
            data@.len() <= 0x7fff_ffff_ffff_ffff,
        ensures
            match r {
                Ok(e) => open_error(data@) is None && e@ == opened(*options, data@)
                    && e.weights.layer@.len() == DS4_N_LAYER,
                Err(e) => open_error(data@) == Some(e@),
            },
    {
        let mtp_draft_tokens: u32 = if options.mtp_draft_tokens > 0 {
            if options.mtp_draft_tokens < 16 {
                options.mtp_draft_tokens
            } else {
                16
            }
        } else {
            1
        };
        let mtp_margin: u32 = if options.mtp_margin <= 0x7f80_0000 || options.mtp_margin
            == 0x8000_0000 {
            options.mtp_margin
        } else {
            MTP_MARGIN_DEFAULT
        };
        let model = match ModelGGUF::open(data) {
            Ok(m) => m,
            Err(e) => {
                return Err(EngineError::Model(e));
            },
        };
        let vocab = match Vocab::load(&model) {
            Ok(v) => v,
            Err(e) => {
                return Err(EngineError::Vocab(e));
            },
        };
        match config_validate_model(&model) {
            Ok(_) => {},
            Err(e) => {
                return Err(EngineError::Config(e));
            },
        }
        let weights = match weights_bind(&model) {
            Ok(w) => w,
            Err(e) => {
                return Err(EngineError::Weights(e));
            },
        };
        Ok(
            Engine {
                model,
                weights,
                mtp_model: None,
                mtp_weights: None,
                vocab,
                backend: options.backend,
                mtp_draft_tokens,
                mtp_margin,
                quality: options.quality,
                metal_initialized: false,
                mtp_ready: false,
            },
        )
    }

    /// Attaches the draft model file with the contents `data`.
    pub fn attach_mtp(&mut self, data: &[u8]) -> (r: Result<(), EngineError>)
        requires
            data@.len() <= 0x7fff_ffff_ffff_ffff,
        ensures
            match r {
                Ok(_) => attach_error(data@) is None && final(self)@ == (EngineView {
                    mtp_model: Some(parse_model(data@)->Ok_0),
                    mtp_weights: Some(mtp_of(parse_model(data@)->Ok_0)),
                    mtp_ready: true,
                    ..old(self)@
                }),
                Err(e) => attach_error(data@) == Some(e@) && final(self)@ == old(self)@,
            },
    {
        let model = match ModelGGUF::open(data) {
            Ok(m) => m,
            Err(e) => {
                return Err(EngineError::MtpModel(e));
            },
        };
        let weights = match mtp_weights_bind(&model) {
            Ok(w) => w,
            Err(e) => {
                return Err(EngineError::MtpWeights(e));
            },
        };
        self.mtp_model = Some(model);
        self.mtp_weights = Some(weights);
        self.mtp_ready = true;
        Ok(())
    }

    /// The bytes of the primary model's tensor data: where they start and how many there
    /// are.
    pub fn model_region(&self) -> (r: (u64, u64))
        ensures
            r == tensor_region(self@.model),
    {
        let len: u64 = if self.model.file_len > self.model.tensor_data_pos {
            self.model.file_len - self.model.tensor_data_pos
        } else {
            0
        };
        (self.model.tensor_data_pos, len)
    }

    /// The bytes of the draft model's tensor data, where there is a draft model.
    pub fn mtp_region(&self) -> (r: Option<(u64, u64)>)
        ensures
            r == match self@.mtp_model {
                Some(m) => if self@.mtp_ready {
                    Some(tensor_region(m))
                } else {
                    None
                },
                None => None,
            },
    {
        match &self.mtp_model {
            Some(m) => {
                if !self.mtp_ready {
                    return None;
                }
                let len: u64 = if m.file_len > m.tensor_data_pos {
                    m.file_len - m.tensor_data_pos
                } else {
                    0
                };
                Some((m.tensor_data_pos, len))
            },
            None => None,
        }
    }

    /// Takes note that the Metal backend is up.
    pub fn metal_started(&mut self)
        ensures
            final(self)@ == (EngineView { metal_initialized: true, ..old(self)@ }),
    {
        self.metal_initialized = true;
    }

    /// The name of the backend.
    pub fn backend_name(&self) -> (r: &'static str)
        ensures
            r@ == match self@.backend {
                Backend::Metal => "metal"@,
                Backend::Cpu => "cpu"@,
            },
    {
        self.backend.name()
    }

    /// Bits for each weight of the routed experts: four for Q4_K, two for the others.
    pub fn routed_quant_bits(&self) -> (r: u32)
        requires
            self@.weights.layer.len() > 0,
        ensures
            r == if self@.weights.layer[0].ffn_gate_exps.tensor_type == 12 {
                4u32
            } else {
                2u32
            },
    {
        assert(self@.weights.layer[0] == self.weights.layer@[0]@);
        if self.weights.layer[0].ffn_gate_exps.tensor_type == 12 {
            4
        } else {
            2
        }
    }

    /// Whether the draft model is ready.
    pub fn has_mtp(&self) -> (r: bool)
        ensures
            r == self@.mtp_ready,
    {
        self.mtp_ready
    }

    /// Draft tokens for each step, none without a draft model.
    pub fn mtp_draft_tokens(&self) -> (r: u32)
        ensures
            r == if self@.mtp_ready {
                self@.draft_tokens
            } else {
                0
            },
    {
        if self.mtp_ready {
            self.mtp_draft_tokens
        } else {
            0
        }
    }

    /// The tokens of a text.
    pub fn tokenize(&self, text: &str) -> (r: TokenVec)
        ensures
            r@ == text_tokens(self@.vocab, text@),
    {
        let mut v: Vec<i32> = Vec::new();
        self.vocab.bpe_tokenize(text, &mut v);
        assert(v@ =~= text_tokens(self@.vocab, text@));
        TokenVec { v }
    }

    /// The token that ends a sequence.
    pub fn token_eos(&self) -> (r: i32)
        ensures
            r == self@.vocab.eos_id,
    {
        self.vocab.eos_id
    }

    /// The text of a token, where there is such a token.
    pub fn token_text(&self, token: i32) -> (r: Option<String>)
        ensures
            match r {
                Some(s) => 0 <= token < self@.vocab.id_to_token.len() && s@
                    == self@.vocab.id_to_token[token as int],
                None => !(0 <= token < self@.vocab.id_to_token.len()),
            },
    {
        self.vocab.decode(token)
    }

    /// A session of this engine.
    pub fn create_session(&self, ctx_size: u32) -> (r: Result<Session, SessionError>)
        requires
            ctx_size <= i32::MAX,
            comp_cap(ctx_size as int) * DS4_N_HEAD_DIM <= usize::MAX,
        ensures
            match r {
                Ok(s) => ctx_size > 0 && s@.wf() && s@ == crate::session::fresh(ctx_size as int),
                Err(e) => ctx_size == 0 && e == SessionError::ContextNotPositive,
            },
    {
        Session::create(self, ctx_size)
    }

    /// The raw and the prefill capacity of the device graph of a session, where the
    /// session runs on the device.
    pub fn graph_capacities(&self, ctx_size: u32) -> (r: Option<(u32, u32)>)
        ensures
            match r {
                Some(c) => self@.backend == Backend::Metal && self@.metal_initialized && c.1
                    == prefill_cap(ctx_size as int) && c.0 == graph_raw_cap(
                    ctx_size as int,
                    prefill_cap(ctx_size as int),
                ),
                None => !(self@.backend == Backend::Metal && self@.metal_initialized),
            },
    {
        if self.backend == Backend::Metal && self.metal_initialized {
            let pc: u32 = crate::cache::ds4_prefill_cap_for_prompt(ctx_size);
            proof {
                if ctx_size > DS4_N_SWA {
                    assert(ctx_size as int / pc as int == 1) by (nonlinear_arith)
                        requires
                            ctx_size == pc,
                            pc > 0,
                    ;
                }
            }
            Some((metal_graph_raw_cap_for_context(ctx_size, pc), pc))
        } else {
            None
        }
    }

    /// The memory that a context needs on a backend.
    pub fn context_memory_estimate(backend: Backend, ctx_size: i32) -> (r: ContextMemory)
        ensures
            r == context_memory(backend, ctx_size),
    {
        context_memory_estimate(backend, ctx_size)
    }
}

} // verus!

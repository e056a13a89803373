use ds4::config::{config_validate_model, validate_compress_ratios, ConfigError};
use ds4::engine::{Engine, EngineError};
use ds4::gguf::{GgufError, KvEntry, MetadataValue, ModelGGUF, TensorInfo};
use ds4::report::{context_memory_line, format_billions, format_bytes};
use ds4::tokenizer::{Vocab, VocabError};
use ds4::types::{
    Backend, EngineOptions, TensorType, ThinkMode, TokenVec, DS4_N_EMBD, DS4_N_LAYER, DS4_N_VOCAB,
};
use ds4::weights::{
    layer_compress_ratio, mtp_weights_bind, weights_bind, Weights, WeightsError,
};

// ── Files ──

struct File {
    kv: Vec<u8>,
    n_kv: u64,
    tensors: Vec<u8>,
    n_tensors: u64,
    data: Vec<u8>,
}

fn text(out: &mut Vec<u8>, s: &str) {
    out.extend_from_slice(&(s.len() as u64).to_le_bytes());
    out.extend_from_slice(s.as_bytes());
}

impl File {
    fn new() -> File {
        File { kv: vec![], n_kv: 0, tensors: vec![], n_tensors: 0, data: vec![] }
    }

    fn entry(mut self, key: &str, tag: u32, value: &[u8]) -> File {
        text(&mut self.kv, key);
        self.kv.extend_from_slice(&tag.to_le_bytes());
        self.kv.extend_from_slice(value);
        self.n_kv += 1;
        self
    }

    fn string(self, key: &str, s: &str) -> File {
        let mut v = vec![];
        text(&mut v, s);
        self.entry(key, 8, &v)
    }

    fn strings(self, key: &str, items: &[&str]) -> File {
        let mut v = vec![];
        v.extend_from_slice(&8u32.to_le_bytes());
        v.extend_from_slice(&(items.len() as u64).to_le_bytes());
        for s in items {
            text(&mut v, s);
        }
        self.entry(key, 9, &v)
    }

    fn tensor(mut self, name: &str, dims: &[u64], tag: u32, offset: u64) -> File {
        text(&mut self.tensors, name);
        self.tensors.extend_from_slice(&(dims.len() as u32).to_le_bytes());
        for d in dims {
            self.tensors.extend_from_slice(&d.to_le_bytes());
        }
        self.tensors.extend_from_slice(&tag.to_le_bytes());
        self.tensors.extend_from_slice(&offset.to_le_bytes());
        self.n_tensors += 1;
        self
    }

    fn bytes(self) -> Vec<u8> {
        let mut out = b"GGUF".to_vec();
        out.extend_from_slice(&3u32.to_le_bytes());
        out.extend_from_slice(&self.n_tensors.to_le_bytes());
        out.extend_from_slice(&self.n_kv.to_le_bytes());
        out.extend_from_slice(&self.kv);
        out.extend_from_slice(&self.tensors);
        while out.len() % 32 != 0 || out.len() < 32 {
            out.push(0);
        }
        out.extend_from_slice(&self.data);
        out
    }
}

#[test]
fn small_file() {
    let mut file = File::new()
        .entry("a.u8", 0, &[7])
        .entry("a.i8", 1, &[0xfe])
        .entry("a.u16", 2, &300u16.to_le_bytes())
        .entry("a.i16", 3, &(-300i16).to_le_bytes())
        .entry("a.u32", 4, &70000u32.to_le_bytes())
        .entry("a.i32", 5, &(-70000i32).to_le_bytes())
        .entry("a.f32", 6, &1.5f32.to_le_bytes())
        .entry("a.bool", 7, &[1])
        .string("a.text", "häh")
        .strings("a.list", &["x", "yz"])
        .entry("a.u64", 10, &(1u64 << 40).to_le_bytes())
        .entry("a.i64", 11, &(-1i64).to_le_bytes())
        .entry("a.f64", 12, &2.5f64.to_le_bytes())
        .tensor("t0", &[2, 3], 0, 0)
        .tensor("t1", &[32], 8, 32);
    file.data = (0u8..96).collect();
    let data = file.bytes();
    let m = ModelGGUF::open(&data).unwrap();
    assert_eq!(m.version, 3);
    assert_eq!(m.n_kv, 13);
    assert_eq!(m.n_tensors, 2);
    assert_eq!(m.alignment, 32);
    assert_eq!(m.file_size(), data.len() as u64);
    assert!(matches!(m.kv_value("a.u8"), Some(MetadataValue::Uint8(7))));
    assert!(matches!(m.kv_value("a.u16"), Some(MetadataValue::Uint16(300))));
    assert_eq!(m.get_u32("a.u8"), None);
    assert_eq!(m.get_u32("a.i32"), None);
    assert_eq!(m.get_u64("a.u32"), Some(70000));
    assert_eq!(m.get_u32("a.u32"), Some(70000));
    assert_eq!(m.get_f32("a.f32"), Some(1.5f32.to_bits()));
    assert_eq!(m.get_bool("a.bool"), Some(true));
    assert_eq!(m.get_string("a.text"), Some("häh"));
    assert_eq!(m.get_u64("a.u64"), Some(1 << 40));
    assert_eq!(m.get_u32("none"), None);
    assert_eq!(m.get_array("a.list").unwrap().len(), 2);
    assert!(matches!(m.kv_value("a.i8"), Some(MetadataValue::Int8(-2))));
    assert!(matches!(m.kv_value("a.i16"), Some(MetadataValue::Int16(-300))));
    assert!(matches!(m.kv_value("a.i32"), Some(MetadataValue::Int32(-70000))));
    assert!(matches!(m.kv_value("a.i64"), Some(MetadataValue::Int64(-1))));
    match m.kv_value("a.f64") {
        Some(MetadataValue::Float64(b)) => assert_eq!(*b, 2.5f64.to_bits()),
        _ => panic!("no double"),
    }
    assert_eq!(m.find_kv("a.text").unwrap().key, "a.text");
    let t0 = m.find_tensor("t0").unwrap();
    assert_eq!((t0.ndim, t0.elements, t0.bytes), (2, 6, 24));
    assert_eq!(t0.type_label(), "f32");
    assert_eq!(t0.resolved_type(), Some(TensorType::F32));
    assert_eq!(m.tensor_data(t0, &data), (0u8..24).collect::<Vec<u8>>().as_slice());
    let t1 = m.find_tensor("t1").unwrap();
    assert_eq!(t1.bytes, 34);
    assert_eq!(t1.data(&data)[0], 32);
    assert!(m.find_tensor("t2").is_none());
    let lines = m.summary();
    assert!(lines.len() > 3);
}

#[test]
fn alignment_is_read() {
    let mut file = File::new()
        .entry("general.alignment", 4, &64u32.to_le_bytes())
        .tensor("t", &[1], 0, 0);
    file.data = vec![9; 128];
    let m = ModelGGUF::open(&file.bytes()).unwrap();
    assert_eq!(m.alignment, 64);
    assert_eq!(m.tensor_data_pos % 64, 0);
}

fn fault(data: &[u8]) -> GgufError {
    match ModelGGUF::open(data) {
        Ok(_) => panic!("accepted"),
        Err(e) => e,
    }
}

#[test]
fn bad_files() {
    assert!(matches!(fault(&[0; 31]), GgufError::FileTooSmall));
    let mut data = File::new().bytes();
    data[0] = b'X';
    assert!(matches!(fault(&data), GgufError::BadMagic(0x4655_4758)));
    let mut data = File::new().bytes();
    data[4] = 2;
    assert!(matches!(fault(&data), GgufError::BadVersion(2)));
    let mut data = File::new().bytes();
    data[16] = 1;
    assert!(matches!(fault(&data), GgufError::Truncated { .. }));
    let data = File::new().entry("k", 8, &[2, 0, 0, 0, 0, 0, 0, 0, 0xff, 0xfe]).bytes();
    assert!(matches!(fault(&data), GgufError::BadString { .. }));
    let data = File::new().entry("k", 77, &[]).bytes();
    assert!(matches!(fault(&data), GgufError::UnknownValueType(77)));
    let data = File::new().entry("k", 9, &[44, 0, 0, 0, 1, 0, 0, 0, 0, 0, 0, 0]).bytes();
    assert!(matches!(fault(&data), GgufError::UnknownItemType(44)));
    let mut nested = vec![];
    for _ in 0..12 {
        nested.extend_from_slice(&9u32.to_le_bytes());
        nested.extend_from_slice(&1u64.to_le_bytes());
    }
    let data = File::new().entry("k", 9, &nested).bytes();
    assert!(matches!(fault(&data), GgufError::NestingTooDeep));
    let data = File::new().tensor("t", &[], 0, 0).bytes();
    assert!(matches!(fault(&data), GgufError::BadRank { tensor: 0, ndim: 0 }));
    let data = File::new().tensor("t", &[1 << 40, 1 << 40], 0, 0).bytes();
    assert!(matches!(fault(&data), GgufError::ElementOverflow { tensor: 0 }));
    let data = File::new().tensor("t", &[1], 0, u64::MAX - 8).bytes();
    assert!(matches!(fault(&data), GgufError::OffsetOverflow { tensor: 0 }));
    let data = File::new().tensor("t", &[64], 0, 0).bytes();
    assert!(matches!(fault(&data), GgufError::BeyondFile { tensor: 0 }));
    // A tensor of an unknown type has no bytes; its offset has to lie in the file too.
    let data = File::new().tensor("t", &[64], 255, 32).bytes();
    assert!(matches!(fault(&data), GgufError::BeyondFile { tensor: 0 }));
    let data = File::new().tensor("t", &[64], 255, 0).bytes();
    let m = ModelGGUF::open(&data).unwrap();
    assert_eq!(m.tensor_data(&m.tensors[0], &data), &[] as &[u8]);
}

// ── Vocabulary ──

fn vocab_file() -> File {
    File::new()
        .strings(
            "tokenizer.ggml.tokens",
            &[
                "a", "b", "c", "ab", "abc", "1", "2", "3", "Ġ", "Ġa", "<think>", "</think>", "!",
                "H", "i", "Hi", "<｜begin▁of▁sentence｜>", "<｜end▁of▁sentence｜>", "<｜User｜>",
                "<｜Assistant｜>", "｜DSML｜",
            ],
        )
        .strings("tokenizer.ggml.merges", &["a b", "ab c", "H i"])
}

fn vocab() -> Vocab {
    Vocab::load(&ModelGGUF::open(&vocab_file().bytes()).unwrap()).unwrap()
}

fn tokens_of(v: &Vocab, text: &str) -> Vec<i32> {
    let mut out = vec![];
    v.bpe_tokenize(text, &mut out);
    out
}

#[test]
fn vocabulary_is_loaded() {
    let v = vocab();
    assert_eq!(v.tokens.len(), 21);
    assert_eq!(v.lookup("ab"), Some(3));
    assert_eq!(v.lookup("zz"), None);
    assert_eq!(v.think_start_id, 10);
    assert_eq!(v.think_end_id, 11);
    assert_eq!(v.bos_id, 16);
    assert_eq!(v.eos_id, 17);
    assert_eq!(v.user_id, 18);
    assert_eq!(v.assistant_id, 19);
    assert_eq!(v.dsml_id, 20);
    assert_eq!(v.pad_id, v.eos_id);
    assert_eq!(v.decode(4), Some("abc".to_string()));
    assert_eq!(v.decode(8), Some(" ".to_string()));
    assert_eq!(v.decode(21), None);
    assert_eq!(v.decode(-1), None);
    assert_eq!(v.scores, vec![0; 21]);
}

#[test]
fn special_tokens_have_their_last_index() {
    let load = |names: &[&str]| {
        let f = File::new()
            .strings("tokenizer.ggml.tokens", names)
            .strings("tokenizer.ggml.merges", &[]);
        Vocab::load(&ModelGGUF::open(&f.bytes()).unwrap()).unwrap()
    };
    let v = load(&["x", "<｜User｜>", "<think>", "<｜User｜>", "y"]);
    assert_eq!(v.user_id, 3);
    assert_eq!(v.think_start_id, 2);
    for id in [v.bos_id, v.eos_id, v.assistant_id, v.think_end_id, v.dsml_id, v.pad_id] {
        assert_eq!(id, -1);
    }
    assert_eq!(v.lookup("<｜User｜>"), Some(3));
}

#[test]
fn text_is_split_and_merged() {
    let v = vocab();
    assert_eq!(tokens_of(&v, "abc"), vec![4]);
    assert_eq!(tokens_of(&v, "abab"), vec![3, 3]);
    assert_eq!(tokens_of(&v, "Hi!"), vec![15, 12]);
    assert_eq!(tokens_of(&v, "123"), vec![5, 6, 7]);
    assert_eq!(tokens_of(&v, ""), Vec::<i32>::new());
}

#[test]
fn merging_leaves_the_text() {
    let v = vocab();
    for text in ["cab", "abcabc", "Hi!", "12abab3", "HHii", "a!b"] {
        let ids = tokens_of(&v, text);
        let back: String = ids.iter().map(|&t| v.decode(t).unwrap()).collect();
        assert_eq!(back, text);
    }
}

#[test]
fn broken_tokens_decode_with_a_replacement() {
    let f = File::new()
        .strings("tokenizer.ggml.tokens", &["Ã", "Ã©"])
        .strings("tokenizer.ggml.merges", &[]);
    let v = Vocab::load(&ModelGGUF::open(&f.bytes()).unwrap()).unwrap();
    assert_eq!(v.decode(0), Some("\u{FFFD}".to_string()));
    assert_eq!(v.decode(1), Some("é".to_string()));
}

#[test]
fn bad_vocabularies() {
    let load = |f: File| Vocab::load(&ModelGGUF::open(&f.bytes()).unwrap()).err().unwrap();
    assert_eq!(load(File::new()), VocabError::NoTokens);
    assert_eq!(
        load(File::new().strings("tokenizer.ggml.tokens", &[])),
        VocabError::EmptyTokens
    );
    assert_eq!(
        load(File::new().strings("tokenizer.ggml.tokens", &["a"])),
        VocabError::NoMerges
    );
}

// ── Weights ──

fn descriptor(name: &str, tag: u32, dims: &[u64]) -> TensorInfo {
    TensorInfo {
        name: name.to_string(),
        ndim: dims.len() as u32,
        dims: dims.to_vec(),
        tensor_type: tag,
        abs_offset: 0,
        rel_offset: 0,
        elements: dims.iter().product(),
        bytes: 0,
    }
}

fn model_of(kv: Vec<KvEntry>, tensors: Vec<TensorInfo>) -> ModelGGUF {
    ModelGGUF {
        version: 3,
        n_kv: kv.len() as u64,
        n_tensors: tensors.len() as u64,
        alignment: 32,
        tensor_data_pos: 0,
        kv,
        tensors,
        file_len: 0,
    }
}

fn block(prefix: &str, plain: u32, experts: u32) -> Vec<TensorInfo> {
    let t = |n: &str, tag: u32, dims: &[u64]| {
        descriptor(&format!("{prefix}.{n}.weight"), tag, dims)
    };
    vec![
        t("hc_attn_fn", plain, &[16384, 24]),
        t("hc_attn_scale", 0, &[3]),
        t("hc_attn_base", 0, &[24]),
        t("attn_norm", 0, &[4096]),
        t("attn_q_a", 8, &[4096, 1024]),
        t("attn_q_a_norm", 0, &[1024]),
        t("attn_q_b", 8, &[1024, 32768]),
        t("attn_kv", 8, &[4096, 512]),
        t("attn_kv_a_norm", 0, &[512]),
        t("attn_sinks", 0, &[64]),
        t("attn_output_a", 8, &[4096, 8192]),
        t("attn_output_b", 8, &[8192, 4096]),
        t("hc_ffn_fn", plain, &[16384, 24]),
        t("hc_ffn_scale", 0, &[3]),
        t("hc_ffn_base", 0, &[24]),
        t("ffn_norm", 0, &[4096]),
        t("ffn_gate_inp", plain, &[4096, 256]),
        t("ffn_gate_exps", experts, &[4096, 2048, 256]),
        t("ffn_up_exps", experts, &[4096, 2048, 256]),
        t("ffn_down_exps", 10, &[2048, 4096, 256]),
        t("ffn_gate_shexp", 8, &[4096, 2048]),
        t("ffn_up_shexp", 8, &[4096, 2048]),
        t("ffn_down_shexp", 8, &[2048, 4096]),
    ]
}

fn directory() -> Vec<TensorInfo> {
    let mut v = vec![
        descriptor("token_embd.weight", 1, &[4096, 129280]),
        descriptor("output_hc_base.weight", 0, &[4]),
        descriptor("output_hc_fn.weight", 1, &[16384, 4]),
        descriptor("output_hc_scale.weight", 0, &[1]),
        descriptor("output_norm.weight", 0, &[4096]),
        descriptor("output.weight", 8, &[4096, 129280]),
    ];
    for il in 0..DS4_N_LAYER {
        let p = format!("blk.{il}");
        v.append(&mut block(&p, 1, 16));
        let ratio = layer_compress_ratio(il);
        let t = |n: &str, tag: u32, dims: &[u64]| descriptor(&format!("{p}.{n}.weight"), tag, dims);
        if ratio != 0 {
            let width = if ratio == 4 { 1024 } else { 512 };
            v.push(t("attn_compressor_ape", 1, &[width, ratio as u64]));
            v.push(t("attn_compressor_kv", 1, &[4096, width]));
            v.push(t("attn_compressor_gate", 1, &[4096, width]));
            v.push(t("attn_compressor_norm", 0, &[512]));
        }
        if ratio == 4 {
            v.push(t("indexer.attn_q_b", 1, &[1024, 8192]));
            v.push(t("indexer.proj", 1, &[4096, 64]));
            v.push(t("indexer_compressor_ape", 1, &[256, 4]));
            v.push(t("indexer_compressor_kv", 1, &[4096, 256]));
            v.push(t("indexer_compressor_gate", 1, &[4096, 256]));
            v.push(t("indexer_compressor_norm", 0, &[128]));
        }
        if il < 3 {
            v.push(t("ffn_gate_tid2eid", 26, &[6, 129280]));
        } else {
            v.push(descriptor(&format!("{p}.exp_probs_b.bias"), 0, &[256]));
        }
    }
    v
}

fn bind_with(change: &dyn Fn(&mut Vec<TensorInfo>)) -> Result<Weights, WeightsError> {
    let mut v = directory();
    change(&mut v);
    weights_bind(&model_of(vec![], v))
}

fn named<'a>(v: &'a mut Vec<TensorInfo>, name: &str) -> &'a mut TensorInfo {
    v.iter_mut().find(|t| t.name == name).unwrap()
}

#[test]
fn weights_are_bound() {
    let w = bind_with(&|_| {}).unwrap();
    assert_eq!(w.layer.len(), 43);
    assert_eq!(w.token_embd.name, "token_embd.weight");
    assert_eq!(w.layer[7].attn_q_b.name, "blk.7.attn_q_b.weight");
    assert!(w.layer[0].attn_compressor_kv.is_none());
    assert!(w.layer[2].indexer_proj.is_some());
    assert!(w.layer[3].indexer_proj.is_none());
    assert!(w.layer[3].attn_compressor_kv.is_some());
    assert!(w.layer[2].ffn_gate_tid2eid.is_some());
    assert!(w.layer[3].ffn_gate_tid2eid.is_none());
    assert!(w.layer[3].ffn_exp_probs_b.is_some());
}

#[test]
fn bad_weights() {
    match bind_with(&|v| v.retain(|t| t.name != "blk.5.attn_kv.weight")) {
        Err(WeightsError::Missing { name }) => assert_eq!(name, "blk.5.attn_kv.weight"),
        _ => panic!("bound"),
    }
    match bind_with(&|v| named(v, "output.weight").tensor_type = 1) {
        Err(WeightsError::WrongType { tensor, got, expected }) => {
            assert_eq!((tensor.as_str(), got, expected), ("output.weight", 1, 8));
        }
        _ => panic!("bound"),
    }
    match bind_with(&|v| named(v, "blk.1.attn_norm.weight").ndim = 2) {
        Err(WeightsError::WrongRank { tensor, got, expected }) => {
            assert_eq!((tensor.as_str(), got, expected), ("blk.1.attn_norm.weight", 2, 1));
        }
        _ => panic!("bound"),
    }
    match bind_with(&|v| named(v, "blk.1.attn_q_a.weight").dims[1] = 5) {
        Err(WeightsError::WrongDim { tensor, index, size, wanted }) => {
            assert_eq!(
                (tensor.as_str(), index, size, wanted),
                ("blk.1.attn_q_a.weight", 1, 5, 1024)
            );
        }
        _ => panic!("bound"),
    }
    match bind_with(&|v| named(v, "blk.4.ffn_up_exps.weight").tensor_type = 0) {
        Err(WeightsError::NotRouted { tensor, got }) => {
            assert_eq!((tensor.as_str(), got), ("blk.4.ffn_up_exps.weight", 0));
        }
        _ => panic!("bound"),
    }
    match bind_with(&|v| named(v, "blk.4.ffn_up_exps.weight").tensor_type = 10) {
        Err(WeightsError::MixedExperts { of_layer, gate, up }) => {
            assert_eq!((of_layer, gate, up), (Some(4), 16, 10));
        }
        _ => panic!("bound"),
    }
}

#[test]
fn draft_weights() {
    let t = |n: &str, tag: u32, dims: &[u64]| descriptor(&format!("mtp.0.{n}.weight"), tag, dims);
    let head = || {
        vec![
            t("e_proj", 8, &[4096, 4096]),
            t("h_proj", 8, &[4096, 4096]),
            t("enorm", 0, &[4096]),
            t("hnorm", 0, &[4096]),
            t("norm", 0, &[4096]),
            t("hc_head_base", 0, &[4]),
            t("hc_head_fn", 1, &[16384, 4]),
            t("hc_head_scale", 0, &[1]),
            descriptor("mtp.0.exp_probs_b.bias", 0, &[256]),
        ]
    };
    let mut v = head();
    v.append(&mut block("mtp.0", 0, 12));
    assert!(mtp_weights_bind(&model_of(vec![], v)).is_ok());
    let mut v = head();
    v.append(&mut block("mtp.0", 8, 12));
    match mtp_weights_bind(&model_of(vec![], v)) {
        Err(WeightsError::NotPlain { tensor, got }) => {
            assert_eq!((tensor.as_str(), got), ("mtp.0.hc_attn_fn.weight", 8));
        }
        _ => panic!("bound"),
    }
}

// ── Configuration ──

fn config() -> Vec<KvEntry> {
    let mut kv = vec![];
    let mut put = |k: &str, v: MetadataValue| {
        kv.push(KvEntry { key: format!("deepseek4.{k}"), value: v });
    };
    for (k, n) in [
        ("block_count", 43),
        ("embedding_length", 4096),
        ("vocab_size", 129280),
        ("attention.head_count", 64),
        ("attention.head_count_kv", 1),
        ("attention.key_length", 512),
        ("attention.value_length", 512),
        ("rope.dimension_count", 64),
        ("attention.q_lora_rank", 1024),
        ("attention.output_lora_rank", 1024),
        ("attention.output_group_count", 8),
        ("expert_count", 256),
        ("expert_used_count", 6),
        ("expert_feed_forward_length", 2048),
        ("expert_shared_count", 1),
        ("hash_layer_count", 3),
        ("attention.sliding_window", 128),
        ("attention.indexer.head_count", 64),
        ("attention.indexer.key_length", 128),
        ("attention.indexer.top_k", 512),
        ("hyper_connection.count", 4),
        ("hyper_connection.sinkhorn_iterations", 20),
    ] {
        put(k, MetadataValue::Uint32(n));
    }
    put(
        "attention.compress_ratios",
        MetadataValue::Array(
            (0..43).map(|il| MetadataValue::Uint32(layer_compress_ratio(il))).collect(),
        ),
    );
    put(
        "swiglu_clamp_exp",
        MetadataValue::Array(
            (0..43).map(|_| MetadataValue::Float32(10.0f32.to_bits())).collect(),
        ),
    );
    put("rope.scaling.original_context_length", MetadataValue::Uint64(65536));
    for (k, f) in [
        ("rope.freq_base", 10000.0f32),
        ("rope.scaling.factor", 16.0),
        ("rope.scaling.yarn_beta_fast", 32.0),
        ("rope.scaling.yarn_beta_slow", 1.0),
        ("attention.compress_rope_freq_base", 160000.0),
        ("expert_weights_scale", 1.5),
        ("attention.layer_norm_rms_epsilon", 1.0e-6),
        ("hyper_connection.epsilon", 1.0e-6),
    ] {
        put(k, MetadataValue::Float32(f.to_bits()));
    }
    put("expert_weights_norm", MetadataValue::Bool(true));
    kv
}

fn validate_with(key: &str, value: Option<MetadataValue>) -> Result<(), ConfigError> {
    let mut kv = config();
    let full = format!("deepseek4.{key}");
    kv.retain(|e| e.key != full);
    if let Some(v) = value {
        kv.push(KvEntry { key: full, value: v });
    }
    config_validate_model(&model_of(kv, vec![]))
}

#[test]
fn configurations() {
    assert!(config_validate_model(&model_of(config(), vec![])).is_ok());
    assert!(validate_compress_ratios(&model_of(config(), vec![])).is_ok());
    match validate_with("expert_count", None) {
        Err(ConfigError::MissingKey { key }) => assert_eq!(key, "deepseek4.expert_count"),
        _ => panic!("valid"),
    }
    match validate_with("vocab_size", Some(MetadataValue::Uint32(5))) {
        Err(ConfigError::WrongNumber { name, expected, got }) => {
            assert_eq!((name.as_str(), expected, got), ("vocab_size", DS4_N_VOCAB as u64, 5));
        }
        _ => panic!("valid"),
    }
    match validate_with("attention.compress_ratios", Some(MetadataValue::Array(vec![]))) {
        Err(ConfigError::ShortArray { len, .. }) => assert_eq!(len, 0),
        _ => panic!("valid"),
    }
    let ratios: Vec<MetadataValue> = (0..43).map(|_| MetadataValue::Uint32(4)).collect();
    match validate_with("attention.compress_ratios", Some(MetadataValue::Array(ratios))) {
        Err(ConfigError::WrongRatio { layer, ratio, wanted }) => {
            assert_eq!((layer, ratio, wanted), (0, 4, 0));
        }
        _ => panic!("valid"),
    }
    match validate_with("rope.freq_base", Some(MetadataValue::Float32(9000.0f32.to_bits()))) {
        Err(ConfigError::WrongFloat { name, bits, wanted }) => {
            assert_eq!(name, "rope.freq_base");
            assert_eq!((bits, wanted), (9000.0f32.to_bits(), 10000.0f32.to_bits()));
        }
        _ => panic!("valid"),
    }
    assert!(matches!(
        validate_with("expert_weights_norm", Some(MetadataValue::Bool(false))),
        Err(ConfigError::WeightsNotNormalised)
    ));
    assert!(validate_with("expert_group_count", Some(MetadataValue::Uint32(0))).is_ok());
    assert!(validate_with("expert_group_count", Some(MetadataValue::Uint32(1))).is_err());
}

/// The numbers around each setting are taken or refused as a comparison in floats does.
#[test]
fn tolerances_are_those_of_floats() {
    for (key, want) in [
        ("rope.freq_base", 10000.0f32),
        ("rope.scaling.factor", 16.0),
        ("rope.scaling.yarn_beta_fast", 32.0),
        ("rope.scaling.yarn_beta_slow", 1.0),
        ("attention.compress_rope_freq_base", 160000.0),
        ("expert_weights_scale", 1.5),
        ("attention.layer_norm_rms_epsilon", 1.0e-6),
        ("hyper_connection.epsilon", 1.0e-6),
    ] {
        let tol = 1.0e-6f32 * if want.abs() > 1.0 { want.abs() } else { 1.0 };
        let mut seen = [0, 0];
        for d in 0..60u32 {
            for sign in [1.0f32, -1.0] {
                let near = want + sign * tol * (d as f32) / 30.0;
                for step in [0u32, 1, 2] {
                    let b = near.to_bits() + step;
                    let got = f32::from_bits(b);
                    let ok = got.is_finite() && (got - want).abs() <= tol;
                    seen[ok as usize] += 1;
                    let r = validate_with(key, Some(MetadataValue::Float32(b)));
                    assert_eq!(r.is_ok(), ok, "{} {}", key, got);
                }
            }
        }
        assert!(seen[0] > 0 && seen[1] > 0);
        let nan = validate_with(key, Some(MetadataValue::Float32(f32::NAN.to_bits())));
        assert!(nan.is_err());
    }
}

// ── Engine ──

fn engine() -> Engine {
    let t = || descriptor("t", 0, &[1]);
    Engine {
        model: model_of(vec![], vec![]),
        weights: Weights {
            token_embd: t(),
            output_hc_base: t(),
            output_hc_fn: t(),
            output_hc_scale: t(),
            output_norm: t(),
            output: t(),
            layer: vec![],
        },
        mtp_model: None,
        mtp_weights: None,
        vocab: vocab(),
        backend: Backend::Cpu,
        mtp_draft_tokens: 1,
        mtp_margin: 0,
        quality: false,
        metal_initialized: false,
        mtp_ready: false,
    }
}

fn options() -> EngineOptions {
    EngineOptions {
        model_path: "m".to_string(),
        mtp_path: None,
        backend: Backend::Cpu,
        n_threads: 0,
        mtp_draft_tokens: 0,
        mtp_margin: 0,
        warm_weights: false,
        quality: false,
    }
}

#[test]
fn engines_refuse_bad_models() {
    assert!(matches!(Engine::open(&options(), &[0; 8]), Err(EngineError::Model(_))));
    let data = File::new().bytes();
    assert!(matches!(
        Engine::open(&options(), &data),
        Err(EngineError::Vocab(VocabError::NoTokens)) | Err(EngineError::Config(_))
    ));
    let data = vocab_file().bytes();
    assert!(matches!(Engine::open(&options(), &data), Err(EngineError::Config(_))));
}

#[test]
fn engine_tokens() {
    let e = engine();
    assert_eq!(e.backend_name(), "cpu");
    assert!(!e.has_mtp());
    assert_eq!(e.tokenize("abc!").v, vec![4, 12]);
    assert_eq!(e.token_text(4), Some("abc".to_string()));
    assert_eq!(e.token_text(99), None);
    assert_eq!(e.token_eos(), 17);
    let mut t = TokenVec::new();
    e.chat_begin(&mut t);
    assert_eq!(t.v, vec![16]);
    e.chat_append_message(&mut t, "user", "ab");
    assert_eq!(t.v, vec![16, 18, 3]);
    e.chat_append_assistant_prefix(&mut t, ThinkMode::High);
    assert_eq!(t.v, vec![16, 18, 3, 19, 10]);
    let mut t = TokenVec::new();
    e.encode_chat_prompt(Some("c"), "ab", ThinkMode::Off, &mut t);
    assert_eq!(t.v, vec![16, 2, 18, 3, 19, 11]);
    assert_eq!(e.dump_tokens(&t), "[16, 2, 18, 3, 19, 11]");
    assert_eq!(e.tokenize_rendered("ab<think>c").v, vec![3, 10, 2]);
    assert_eq!(e.tokenize_rendered("<｜User｜>ab<｜Assistant｜></think>c!").v, vec![
        18, 3, 19, 11, 2, 12
    ]);
    assert_eq!(e.tokenize_rendered("abc<｜end▁of▁sentence｜>").v, vec![4, 17]);
    assert_eq!(e.tokenize_rendered("abc!").v, e.tokenize("abc!").v);
    assert!(e.create_session(0).is_err());
    assert_eq!(e.create_session(8).unwrap().ctx(), 8);
    assert_eq!(e.graph_capacities(64), None);
}

// ── Texts ──

#[test]
fn sizes_print_as_doubles_do() {
    let gib = 1024.0 * 1024.0 * 1024.0;
    let mut n = 1u64;
    for i in 0..400u64 {
        let v = n.wrapping_mul(0x9e37_79b9_7f4a_7c15).wrapping_add(i) >> (i % 60);
        n = v | 1;
        assert_eq!(format_bytes(v), format!("{:.2} GiB", v as f64 / gib), "{}", v);
        assert_eq!(format_billions(v), format!("{:.2}", v as f64 / 1e9), "{}", v);
    }
    for v in [0, 5368709, 16106127, 5_000_000, 15_000_000, 25_000_000, u64::MAX] {
        assert_eq!(format_bytes(v), format!("{:.2} GiB", v as f64 / gib), "{}", v);
        assert_eq!(format_billions(v), format!("{:.2}", v as f64 / 1e9), "{}", v);
    }
}

#[test]
fn memory_lines() {
    for (backend, ctx) in [(Backend::Cpu, 4096), (Backend::Metal, 100000), (Backend::Cpu, -3)] {
        let m = Engine::context_memory_estimate(backend, ctx);
        assert_eq!(
            context_memory_line(backend, ctx),
            format!(
                "context buffers {:.2} MiB (ctx={}, backend={}, prefill_chunk={}, raw_kv_rows={}, \
                 compressed_kv_rows={})",
                m.total_bytes as f64 / (1024.0 * 1024.0),
                ctx,
                backend.name(),
                m.prefill_cap,
                m.raw_cap,
                m.comp_cap
            )
        );
    }
    assert_eq!(DS4_N_EMBD, 4096);
}

use ds4::cache::{
    ds4_default_comp_cap, ds4_prefill_cap_for_prompt, DecodeScratch, LayerCache, DS4_NEG_INF,
};
use ds4::draw::{draw, is_usable, nucleus, plan_sample, survivors, Plan};
use ds4::encoding::{
    byte_decode_str, byte_encode_str, encode_utf8_cp, gpt2_byte_to_codepoint,
    gpt2_codepoint_to_byte, utf8_decode_one,
};
use ds4::gguf::{align_up, tensor_nbytes, MetadataType, MetadataValue};
use ds4::kernels::{q8k_blocks, topk_desc};
use ds4::metal::{ds4_metal_tensor, MetalRuntime};
use ds4::report::format_bytes;
use ds4::sampling::{random_single, sample_argmax, sample_rng_next, top_scores};
use ds4::session::Session;
use ds4::single::{f16_to_f32, f32_to_f16};
use ds4::types::{
    TokenVec, DS4_N_EMBD, DS4_N_HC, DS4_N_HEAD_DIM, DS4_N_INDEXER_HEAD_DIM, DS4_N_VOCAB,
};
use ds4::weights::layer_compress_ratio;

fn bits(v: &[f32]) -> Vec<u32> {
    v.iter().map(|x| x.to_bits()).collect()
}

#[test]
fn test_f16_roundtrip() {
    let vals: Vec<f32> = vec![0.0, 1.0, -1.0, 0.5, -0.5, 65504.0, 1.0e-8];
    for &v in &vals {
        let h = f32_to_f16(v.to_bits());
        let back = f32::from_bits(f16_to_f32(h));
        let diff = (v - back).abs();
        let rel = diff / v.abs().max(1.0e-10);
        assert!(rel < 1.0e-3 || diff < 1.0e-5, "f16 roundtrip failed for {}", v);
    }
}

#[test]
fn test_topk_desc() {
    let scores: Vec<f32> = vec![0.1, 0.8, 0.3, 0.9, 0.2];
    let idx = topk_desc(&bits(&scores), 3);
    assert_eq!(idx.len(), 3);
    assert_eq!(idx[0], 3); // 0.9
    assert_eq!(idx[1], 1); // 0.8
    assert_eq!(idx[2], 2); // 0.3
}

#[test]
fn test_q8k_blocks() {
    assert_eq!(q8k_blocks(256), 1);
    assert_eq!(q8k_blocks(257), 2);
    assert_eq!(q8k_blocks(512), 2);
    assert_eq!(q8k_blocks(0), 0);
}

#[test]
fn test_layer_compress_ratio() {
    assert_eq!(layer_compress_ratio(0), 0);
    assert_eq!(layer_compress_ratio(1), 0);
    assert_eq!(layer_compress_ratio(2), 4);
    assert_eq!(layer_compress_ratio(3), 128);
    assert_eq!(layer_compress_ratio(4), 4);
    assert_eq!(layer_compress_ratio(5), 128);
}

#[test]
fn test_byte_encode_decode() {
    let original = "Hello, 世界!";
    let encoded = byte_encode_str(original);
    let decoded = byte_decode_str(&encoded);
    assert_eq!(original, decoded);
}

#[test]
fn test_gpt2_byte_roundtrip() {
    for b in 0u8..=255 {
        let cp = gpt2_byte_to_codepoint(b);
        let back = gpt2_codepoint_to_byte(cp);
        assert_eq!(back, Some(b), "byte {b} -> codepoint {cp} -> ?");
    }
}

#[test]
fn test_utf8_encode_decode() {
    let test_cps = [
        0x24u32, 0xa2, 0x20ac, 0x10348, 0x7f, 0x80, 0x7ff, 0x800, 0xffff, 0x10000,
    ];
    for &cp in &test_cps {
        let mut buf = Vec::new();
        encode_utf8_cp(cp, &mut buf);
        let (decoded, _) = utf8_decode_one(&buf, 0);
        assert_eq!(decoded, cp, "codepoint {cp:#x}");
    }
}

#[test]
fn test_align_up() {
    assert_eq!(align_up(0, 32), 0);
    assert_eq!(align_up(1, 32), 32);
    assert_eq!(align_up(32, 32), 32);
    assert_eq!(align_up(33, 32), 64);
    assert_eq!(align_up(0, 256), 0);
    assert_eq!(align_up(255, 256), 256);
    assert_eq!(align_up(256, 256), 256);
}

#[test]
fn test_format_bytes() {
    let s = format_bytes(1024 * 1024 * 1024);
    assert_eq!(s, "1.00 GiB");
}

#[test]
fn test_metadata_type_roundtrip() {
    for (tag, expected) in [
        (0, MetadataType::Uint8),
        (1, MetadataType::Int8),
        (4, MetadataType::Uint32),
        (6, MetadataType::Float32),
        (7, MetadataType::Bool),
        (8, MetadataType::String),
        (9, MetadataType::Array),
        (12, MetadataType::Float64),
    ] {
        assert_eq!(MetadataType::from_u32(tag), Some(expected));
        assert_eq!(expected as u32, tag);
    }
    assert_eq!(MetadataType::from_u32(99), None);
}

#[test]
fn test_scalar_size() {
    assert_eq!(MetadataType::Uint8.scalar_size(), Some(1));
    assert_eq!(MetadataType::Int8.scalar_size(), Some(1));
    assert_eq!(MetadataType::Bool.scalar_size(), Some(1));
    assert_eq!(MetadataType::Uint16.scalar_size(), Some(2));
    assert_eq!(MetadataType::Int16.scalar_size(), Some(2));
    assert_eq!(MetadataType::Uint32.scalar_size(), Some(4));
    assert_eq!(MetadataType::Int32.scalar_size(), Some(4));
    assert_eq!(MetadataType::Float32.scalar_size(), Some(4));
    assert_eq!(MetadataType::Uint64.scalar_size(), Some(8));
    assert_eq!(MetadataType::Int64.scalar_size(), Some(8));
    assert_eq!(MetadataType::Float64.scalar_size(), Some(8));
    assert_eq!(MetadataType::String.scalar_size(), None);
    assert_eq!(MetadataType::Array.scalar_size(), None);
}

#[test]
fn test_metadata_value_conversions() {
    let v = MetadataValue::Uint32(42);
    assert_eq!(v.as_u32(), Some(42));
    assert_eq!(v.as_f32(), Some(42.0f32.to_bits()));
    assert!(v.as_bool().is_none());
    assert!(v.as_string().is_none());

    let v = MetadataValue::Float32(3.14f32.to_bits());
    assert_eq!(v.as_f32(), Some(3.14f32.to_bits()));
    assert!(v.as_u32().is_none());

    let v = MetadataValue::Bool(true);
    assert_eq!(v.as_bool(), Some(true));

    let v = MetadataValue::String("hello".to_string());
    assert_eq!(v.as_string(), Some("hello"));

    let v = MetadataValue::Uint64(999);
    assert_eq!(v.as_u64(), Some(999));
}

#[test]
fn test_tensor_nbytes() {
    // F32: 1 element = 4 bytes
    assert_eq!(tensor_nbytes(0, 1), Some(4));
    // F32: 100 elements = 400 bytes
    assert_eq!(tensor_nbytes(0, 100), Some(400));
    // F16: 1 element = 2 bytes
    assert_eq!(tensor_nbytes(1, 1), Some(2));
    // Q8_0: 32 elements = 34 bytes
    assert_eq!(tensor_nbytes(8, 32), Some(34));
    // Q8_0: 33 elements = 2 blocks = 68 bytes
    assert_eq!(tensor_nbytes(8, 33), Some(68));
    // Q2_K: 256 elements = 84 bytes
    assert_eq!(tensor_nbytes(10, 256), Some(84));
    // IQ2_XXS: 256 elements = 66 bytes
    assert_eq!(tensor_nbytes(16, 256), Some(66));
    // Unknown type returns None
    assert!(tensor_nbytes(255, 10).is_none());
}

#[test]
fn test_metadata_value_display() {
    assert_eq!(MetadataValue::Uint32(42).display(), "42");
    assert_eq!(MetadataValue::Bool(true).display(), "true");
    assert_eq!(MetadataValue::String("test".into()).display(), "\"test\"");
    assert_eq!(
        MetadataValue::Array(vec![MetadataValue::Uint32(1), MetadataValue::Uint32(2)]).display(),
        "[1, 2]"
    );
}

#[test]
fn metadata_floats_are_displayed() {
    for x in [1.5f32, 0.000001, -0.0, 1e30, f32::INFINITY, 0.1, 3.0] {
        assert_eq!(MetadataValue::Float32(x.to_bits()).display(), format!("{}", x));
    }
    for x in [1.5f64, 1e-300, -2.0, 0.1] {
        assert_eq!(MetadataValue::Float64(x.to_bits()).display(), format!("{}", x));
    }
    let mixed = vec![MetadataValue::Float32(0.5f32.to_bits()), MetadataValue::Int8(-3)];
    assert_eq!(MetadataValue::Array(mixed).display(), "[0.5, -3]");
    assert_eq!(MetadataValue::Float32(f32::NAN.to_bits()).display(), "NaN");
}

#[test]
fn test_metal_not_initialized_by_default() {
    assert!(!MetalRuntime::new().is_initialized());
}

#[test]
fn test_metal_tensor_zero_sized() {
    // Verify the opaque type has zero size (it's a ZST).
    assert_eq!(std::mem::size_of::<ds4_metal_tensor>(), 0);
}

#[test]
fn test_sample_argmax() {
    let logits = vec![1.0, 5.0, 3.0, 2.0, 4.0];
    assert_eq!(sample_argmax(&bits(&logits)), 1);
}

#[test]
fn test_sample_argmax_tie() {
    let logits = vec![3.0, 1.0, 3.0];
    let result = sample_argmax(&bits(&logits));
    assert!(result == 0 || result == 2);
    assert_eq!(result, 0);
}

#[test]
fn test_sample_argmax_empty() {
    let logits: Vec<f32> = vec![];
    assert_eq!(sample_argmax(&bits(&logits)), 0);
}

#[test]
fn test_sample_argmax_all_neg_inf() {
    let logits = vec![DS4_NEG_INF, DS4_NEG_INF, DS4_NEG_INF];
    // First element is argmax even though it's -inf
    assert_eq!(sample_argmax(&logits), 0);
    assert_eq!(f32::from_bits(DS4_NEG_INF), -1.0e30);
}

/// Draws a token with the arithmetic in floats.
fn sample(logits: &[f32], temperature: f32, top_k: i32, top_p: f32, min_p: f32, rng: &mut u64) -> i32 {
    let plan = plan_sample(
        &bits(logits),
        temperature.to_bits(),
        top_k,
        top_p.to_bits(),
        min_p.to_bits(),
    );
    match plan {
        Plan::Token(t) => t,
        Plan::All { ids, best, top, min_p } => {
            let top = f32::from_bits(top);
            let p: Vec<f32> =
                ids.iter().map(|&i| ((logits[i as usize] - top) / temperature).exp()).collect();
            let places = survivors(&bits(&p), min_p);
            let mut sums = Vec::new();
            let mut sum = 0.0f32;
            for &k in &places {
                sum += p[k];
                sums.push(sum.to_bits());
            }
            if !is_usable(sum.to_bits()) {
                return best;
            }
            let r = f32::from_bits(random_single(sample_rng_next(rng))) * sum;
            match draw(&sums, r.to_bits()) {
                Some(k) => ids[places[k]],
                None => best,
            }
        }
        Plan::Ranked { ids, top, top_p, min_p } => {
            let top = f32::from_bits(top);
            let p: Vec<f32> =
                ids.iter().map(|&i| ((logits[i as usize] - top) / temperature).exp()).collect();
            let total: f32 = p.iter().sum();
            if !is_usable(total.to_bits()) {
                return ids[0];
            }
            let least = (p[0] / total) * f32::from_bits(min_p);
            let mut sums = Vec::new();
            let mut shares = Vec::new();
            let mut reached = Vec::new();
            let mut sum = 0.0f32;
            for &x in &p {
                sum += x;
                sums.push(sum);
                shares.push(x / total);
                reached.push(sum / total);
            }
            let n = nucleus(&bits(&shares), &bits(&reached), least.to_bits(), top_p);
            let r = f32::from_bits(random_single(sample_rng_next(rng))) * sums[n - 1];
            match draw(&bits(&sums[..n]), r.to_bits()) {
                Some(k) => ids[k],
                None => ids[n - 1],
            }
        }
    }
}

#[test]
fn test_sample_temperature_zero_is_argmax() {
    let logits = vec![1.0, 5.0, 3.0, 2.0, 4.0];
    let mut rng = 42;
    let result = sample(&logits, 0.0, 0, 1.0, 0.0, &mut rng);
    assert_eq!(result, 1);
    assert_eq!(rng, 42);
}

#[test]
fn test_sample_full_vocab_returns_valid() {
    let logits = vec![0.0, 10.0, 0.0]; // middle is strongly preferred
    let mut rng = 12345;
    let result = sample(&logits, 1.0, 0, 1.0, 0.0, &mut rng);
    assert_eq!(result, 1);
}

#[test]
fn sampling_paths_draw_the_preferred_token() {
    let logits = vec![0.0, 10.0, f32::NAN, 0.0];
    for (top_k, top_p) in [(0, 0.5), (3, 1.0), (1, 0.9), (0, 0.0), (2000, 0.9)] {
        let mut rng = 7;
        assert_eq!(sample(&logits, 1.0, top_k, top_p, 0.05, &mut rng), 1);
    }
}

#[test]
fn sampling_plans() {
    let logits = bits(&[1.0, f32::INFINITY, 3.0, 3.0, f32::NAN, 2.0]);
    let one = 1.0f32.to_bits();
    match plan_sample(&logits, one, 0, one, 0.1f32.to_bits()) {
        Plan::All { ids, best, top, min_p } => {
            assert_eq!(ids, vec![0, 2, 3, 5]);
            assert_eq!(best, 2);
            assert_eq!(top, 3.0f32.to_bits());
            assert_eq!(min_p, 0.1f32.to_bits());
        }
        _ => panic!("not all"),
    }
    match plan_sample(&logits, one, 2, 0.5f32.to_bits(), (-1.0f32).to_bits()) {
        Plan::Ranked { ids, top, top_p, min_p } => {
            assert_eq!(ids, vec![2, 3]);
            assert_eq!(top, 3.0f32.to_bits());
            assert_eq!(top_p, 0.5f32.to_bits());
            assert_eq!(min_p, 0);
        }
        _ => panic!("not ranked"),
    }
    // No finite logit: the largest one wins.
    match plan_sample(&bits(&[f32::NAN, f32::INFINITY]), one, 4, one, 0) {
        Plan::Token(t) => assert_eq!(t, 1),
        _ => panic!("not settled"),
    }
    // Logits below what stands for minus infinity.
    match plan_sample(&bits(&[-2.0e30, -3.0e30]), one, 0, one, 0) {
        Plan::All { best, top, .. } => {
            assert_eq!(best, 0);
            assert_eq!(top, DS4_NEG_INF);
        }
        _ => panic!("not all"),
    }
}

#[test]
fn nucleus_counts() {
    let shares = bits(&[0.5, 0.3, 0.15, 0.05]);
    let reached = bits(&[0.5, 0.8, 0.95, 1.0]);
    assert_eq!(nucleus(&shares, &reached, 0, 0.8f32.to_bits()), 2);
    assert_eq!(nucleus(&shares, &reached, 0, 1.0f32.to_bits()), 4);
    assert_eq!(nucleus(&shares, &reached, 0.2f32.to_bits(), 1.0f32.to_bits()), 2);
    assert_eq!(nucleus(&shares, &reached, 0.9f32.to_bits(), 1.0f32.to_bits()), 1);
    assert_eq!(survivors(&shares, 0.15f32.to_bits()), vec![0, 1, 2]);
    assert_eq!(draw(&reached, 0.6f32.to_bits()), Some(1));
    assert_eq!(draw(&reached, 0.5f32.to_bits()), Some(0));
    assert_eq!(draw(&reached, 2.0f32.to_bits()), None);
    assert!(!is_usable(0) && !is_usable(f32::INFINITY.to_bits()) && is_usable(1.0f32.to_bits()));
}

#[test]
fn test_top_logprobs() {
    let logits = vec![0.0, 1.0, 2.0, 3.0];
    let results = top_scores(&bits(&logits), 2);
    assert_eq!(results.len(), 2);
    // Highest logits are at index 3 (logit=3.0) and index 2 (logit=2.0)
    assert_eq!(results[0], 3);
    assert_eq!(results[1], 2);
    // The higher of the two has the greater probability.
    assert!(logits[results[0] as usize] > logits[results[1] as usize]);
}

fn tokens(v: &[i32]) -> TokenVec {
    TokenVec { v: v.to_vec() }
}

#[test]
fn test_rewind() {
    let mut session = Session::new(64).unwrap();
    let mut progress = Vec::new();
    session.sync(&tokens(&[1, 2, 3, 4, 5]), &mut progress).unwrap();
    assert_eq!(session.pos(), 5);
    session.rewind(3);
    assert_eq!(session.pos(), 3);
    assert_eq!(session.tokens().v, vec![1, 2, 3]);
    // Beyond the checkpoint nothing changes.
    session.rewind(10);
    assert_eq!(session.pos(), 3);
    session.rewind(-1);
    assert_eq!(session.pos(), 0);
}

#[test]
fn test_decode_scratch_allocation() {
    let scratch = DecodeScratch::new();
    assert_eq!(scratch.logits.len(), DS4_N_VOCAB as usize);
    assert_eq!(scratch.hc.len(), (DS4_N_HC * DS4_N_EMBD) as usize);
}

#[test]
fn test_layer_cache_allocation() {
    let dense = LayerCache::new(0, 128, 10);
    assert_eq!(dense.raw_kv.len(), 128 * DS4_N_HEAD_DIM as usize);
    assert!(dense.attn_comp_kv.is_empty());

    let attn_only = LayerCache::new(128, 128, 10);
    assert_eq!(attn_only.attn_comp_kv.len(), 10 * DS4_N_HEAD_DIM as usize);
    assert!(attn_only.index_comp_kv.is_empty());

    let indexed = LayerCache::new(4, 128, 10);
    assert!(!indexed.attn_comp_kv.is_empty());
    assert!(!indexed.index_comp_kv.is_empty());
    assert_eq!(indexed.index_comp_kv.len(), 10 * DS4_N_INDEXER_HEAD_DIM as usize);
}

#[test]
fn test_payload_bytes_zero_for_invalid() {
    let session = Session::new(16).unwrap();
    assert_eq!(session.payload_bytes(), 0);
    assert!(session.save_payload().is_err());
}

#[test]
fn test_common_prefix() {
    let mut session = Session::new(64).unwrap();
    let mut progress = Vec::new();
    session.sync(&tokens(&[1, 2, 3, 4, 5]), &mut progress).unwrap();
    let i = session.common_prefix(&tokens(&[1, 2, 3, 7, 8]));
    assert_eq!(i, 3);
}

#[test]
fn test_ds4_default_comp_cap() {
    let cap = ds4_default_comp_cap(4096);
    // min ratio is 4 (layer 2), so 4096/4 + 2 = 1026
    assert_eq!(cap, 1026);
}

#[test]
fn test_ds4_prefill_cap_for_prompt() {
    assert_eq!(ds4_prefill_cap_for_prompt(0), 1);
    assert!(ds4_prefill_cap_for_prompt(64) >= 32);
}

#[test]
fn test_rng_next() {
    let mut state = 0;
    let v1 = sample_rng_next(&mut state);
    assert_ne!(v1, 0);
    let v2 = sample_rng_next(&mut state);
    assert_ne!(v2, v1);
}

use ds4::bytes::{push_u32, u16_le, u32_le, u64_le};
use ds4::eight::{dsv4_e4m3fn_dequant, dsv4_e4m3fn_value};
use ds4::encoding::{byte_decode_bytes, byte_encode_bytes, next_utf8_char, utf8_decode_one};
use ds4::engine::Engine;
use ds4::kernels::{
    block_iq2_xxs, block_q2_K, iq2_block_sum, q2_block_sums, q8_0_row_dots, q8_block, saturate_i8,
    topk_desc, IQ2XXS_GRID,
};
use ds4::metal::{ck, metal_graph_raw_cap_for_context, MetalError, MetalGraph, MetalRuntime};
use ds4::sampling::{random_single, sample_rng_next, select_top_k, top_scores};
use ds4::single::{
    f16_round_inplace, f16_to_f32, f32_to_f16, is_finite, is_greater, is_nan, single_from_f64_bits, single_from_i32,
    single_from_u32, single_from_wide,
};
use ds4::text::{dec_i64, dec_u64, find_bytes, hex_u64, sub_text, trim};
use ds4::types::{
    log_color_code, think_mode_for_context, Backend, LogType, TensorType, ThinkMode, TokenVec,
};

struct Rng(u64);

impl Rng {
    fn next(&mut self) -> u64 {
        sample_rng_next(&mut self.0)
    }
}

#[test]
fn singles_compare_as_floats() {
    let mut r = Rng(1);
    let mut v: Vec<f32> = vec![
        0.0, -0.0, 1.0, -1.0, f32::INFINITY, f32::NEG_INFINITY, f32::NAN, 1e-45, -1e-45, f32::MAX,
    ];
    for _ in 0..200 {
        v.push(f32::from_bits(r.next() as u32));
    }
    for &a in &v {
        assert_eq!(is_nan(a.to_bits()), a.is_nan());
        assert_eq!(is_finite(a.to_bits()), a.is_finite());
        for &b in &v {
            assert_eq!(is_greater(a.to_bits(), b.to_bits()), a > b, "{} {}", a, b);
        }
    }
}

#[test]
fn numbers_convert_as_floats() {
    let mut r = Rng(2);
    for i in 0..4000u64 {
        let x = r.next() >> (i % 64);
        assert_eq!(single_from_u32(x as u32), (x as u32 as f32).to_bits());
        assert_eq!(single_from_i32(x as i32), (x as i32 as f32).to_bits());
        assert_eq!(single_from_wide(x as u128), (x as f32).to_bits());
        let d = f64::from_bits(r.next());
        if !d.is_nan() {
            assert_eq!(single_from_f64_bits(d.to_bits()), (d as f32).to_bits(), "{}", d);
        }
        let near = (x as f64) * 1e-30 / 3.0;
        assert_eq!(single_from_f64_bits(near.to_bits()), (near as f32).to_bits(), "{}", near);
    }
    for v in [i32::MIN, i32::MAX, -1, 0, 1, 16777217, -16777217, 33554435] {
        assert_eq!(single_from_i32(v), (v as f32).to_bits());
    }
}

/// The value of a half.
fn half(h: u16) -> f64 {
    let sign = if h >> 15 == 1 { -1.0 } else { 1.0 };
    let e = ((h >> 10) & 31) as i32;
    let m = (h & 1023) as f64;
    if e == 0 {
        sign * m * (2.0f64).powi(-24)
    } else {
        sign * (1.0 + m / 1024.0) * (2.0f64).powi(e - 15)
    }
}

#[test]
fn halves_convert() {
    for h in 0..=u16::MAX {
        let f = f32::from_bits(f16_to_f32(h));
        if (h >> 10) & 31 != 31 {
            assert_eq!(f as f64, half(h), "{:x}", h);
            assert_eq!(f32_to_f16(f.to_bits()), h, "{:x}", h);
        } else if h & 1023 == 0 {
            assert!(f.is_infinite());
        } else {
            assert!(f.is_nan());
        }
    }
}

#[test]
fn random_singles_are_fractions() {
    let mut r = Rng(3);
    for _ in 0..2000 {
        let x = r.next();
        let want = ((x >> 40) & 0xffffff) as f32 / 16777216.0;
        assert_eq!(random_single(x), want.to_bits());
        assert!(f32::from_bits(random_single(x)) < 1.0);
    }
    assert_eq!(random_single(0), 0);
    assert_eq!(random_single(1 << 40), (1.0f32 / 16777216.0).to_bits());
}

#[test]
fn random_states_are_never_zero() {
    let mut state = 0u64;
    for _ in 0..1000 {
        sample_rng_next(&mut state);
        assert_ne!(state, 0);
    }
    let mut a = 0u64;
    let mut b = 0x9e37_79b9_7f4a_7c15u64;
    assert_eq!(sample_rng_next(&mut a), sample_rng_next(&mut b));
}

#[test]
fn candidates_are_ordered() {
    let mut r = Rng(4);
    for round in 0..50usize {
        let v: Vec<f32> = (0..40)
            .map(|i| {
                if (i + round) % 11 == 0 {
                    f32::NAN
                } else {
                    (r.next() % 20) as f32 - 10.0
                }
            })
            .collect();
        let bits: Vec<u32> = v.iter().map(|x| x.to_bits()).collect();
        let mut want: Vec<usize> = (0..v.len()).filter(|&i| v[i].is_finite()).collect();
        want.sort_by(|&a, &b| v[b].partial_cmp(&v[a]).unwrap());
        let k = round % 45;
        let ids: Vec<usize> = select_top_k(&bits, k).iter().map(|&i| i as usize).collect();
        let first: Vec<usize> = want.iter().cloned().take(k).collect();
        assert_eq!(ids, first);
        // The heap keeps the same logits.
        let top = top_scores(&bits, k as i32);
        let a: Vec<f32> = top.iter().map(|&i| v[i as usize]).collect();
        let b: Vec<f32> = first.iter().map(|&i| v[i]).collect();
        assert_eq!(a, b);
    }
    assert!(top_scores(&[1, 2], -3).is_empty());
    assert_eq!(topk_desc(&[1, 2], 4), vec![1, 0, usize::MAX, usize::MAX]);
}

#[test]
fn heap_order_of_equal_scores() {
    let one = 1.0f32.to_bits();
    let two = 2.0f32.to_bits();
    assert_eq!(top_scores(&[one, one, one], 2), vec![0, 1]);
    // The root leaves, and what takes its place sinks.
    assert_eq!(top_scores(&[one, one, two], 2), vec![2, 1]);
    assert_eq!(top_scores(&[two, one, one, two], 3), vec![0, 3, 2]);
}

// ── Blocks ──

fn activations(r: &mut Rng) -> [i8; 256] {
    let mut qs = [0i8; 256];
    for q in qs.iter_mut() {
        *q = r.next() as i8;
    }
    qs
}

#[test]
fn two_bit_blocks() {
    let mut r = Rng(5);
    for _ in 0..20 {
        let mut x = block_q2_K { scales: [0; 16], qs: [0; 64], d: 0, dmin: 0 };
        for s in x.scales.iter_mut() {
            *s = r.next() as u8;
        }
        for q in x.qs.iter_mut() {
            *q = r.next() as u8;
        }
        let y = q8_block(0, activations(&mut r));
        let mut sum = 0i32;
        for e in 0..256usize {
            let q = (x.qs[e / 128 * 32 + e % 32] >> (2 * (e % 128 / 32))) & 3;
            sum += (x.scales[e / 16] & 15) as i32 * q as i32 * y.qs[e] as i32;
        }
        let mut mins = 0i32;
        for j in 0..16usize {
            let s: i32 = y.qs[16 * j..16 * j + 16].iter().map(|&q| q as i32).sum();
            assert_eq!(y.bsums[j] as i32, s);
            mins += (x.scales[j] >> 4) as i32 * s;
        }
        assert_eq!(q2_block_sums(&x, &y), (sum, mins));
    }
}

#[test]
fn grid_blocks() {
    let mut r = Rng(6);
    for _ in 0..20 {
        let mut x = block_iq2_xxs { d: 0, qs: [0; 32] };
        for q in x.qs.iter_mut() {
            *q = r.next() as u16;
        }
        let y = q8_block(0, activations(&mut r));
        let mut sum = 0i32;
        for b in 0..8usize {
            let w = &x.qs[4 * b..4 * b + 4];
            let idx = w[0] as u32 | (w[1] as u32) << 16;
            let meta = w[2] as u32 | (w[3] as u32) << 16;
            let scale = 2 * (meta >> 28) as i32 + 1;
            let mut part = 0i32;
            for g in 0..4usize {
                let bytes = IQ2XXS_GRID[(idx >> (8 * g)) as usize & 255].to_le_bytes();
                let seven = (meta >> (7 * g)) & 127;
                // The eighth sign makes the number of signs even.
                let signs = seven | (seven.count_ones() & 1) << 7;
                for j in 0..8usize {
                    let v = bytes[j] as i32 * y.qs[32 * b + 8 * g + j] as i32;
                    part += if signs >> j & 1 == 1 { -v } else { v };
                }
            }
            sum += scale * part;
        }
        assert_eq!(iq2_block_sum(&x, &y), sum);
    }
}

#[test]
fn eight_bit_rows() {
    let mut r = Rng(7);
    let row: Vec<u8> = (0..34 * 3).map(|_| r.next() as u8).collect();
    let xq: Vec<i8> = (0..96).map(|_| r.next() as i8).collect();
    for n in [0u64, 1, 32, 33, 70, 96] {
        let dots = q8_0_row_dots(&row, &xq, n);
        assert_eq!(dots.len() as u64, (n + 31) / 32);
        for (b, &(scale, dot)) in dots.iter().enumerate() {
            assert_eq!(scale, u16::from_le_bytes([row[34 * b], row[34 * b + 1]]));
            let count = (n as usize - 32 * b).min(32);
            let want: i32 = (0..count)
                .map(|j| row[34 * b + 2 + j] as i8 as i32 * xq[32 * b + j] as i32)
                .sum();
            assert_eq!(dot, want);
        }
    }
    assert_eq!((saturate_i8(300), saturate_i8(-300), saturate_i8(-5)), (127, -128, -5));
}

// ── Bytes and texts ──

#[test]
fn little_endian_numbers() {
    let data = [1u8, 2, 3, 4, 5, 6, 7, 8, 9];
    assert_eq!(u16_le(&data, 1), 0x0302);
    assert_eq!(u32_le(&data, 1), 0x0504_0302);
    assert_eq!(u64_le(&data, 1), 0x0908_0706_0504_0302);
    let mut out = vec![9];
    push_u32(&mut out, 0x0102_0304);
    assert_eq!(out, vec![9, 4, 3, 2, 1]);
}

#[test]
fn texts() {
    for n in [0u64, 9, 10, 255, 256, u64::MAX] {
        assert_eq!(dec_u64(n), n.to_string());
        assert_eq!(hex_u64(n), format!("{:x}", n));
    }
    for n in [0i64, -1, i64::MIN, i64::MAX] {
        assert_eq!(dec_i64(n), n.to_string());
    }
    for s in ["", " a ", "\u{a0}x\u{2003}", "\t\n", "a b", "\u{85}é\u{3000}"] {
        assert_eq!(trim(s), s.trim(), "{:?}", s);
    }
    assert_eq!(find_bytes(b"abcabc", b"ca", 0), Some(2));
    assert_eq!(find_bytes(b"abc", b"x", 0), None);
    assert_eq!(sub_text("aéb", 1, 3), "é");
}

#[test]
fn byte_texts() {
    let all: Vec<u8> = (0..=255).collect();
    assert_eq!(byte_decode_bytes(&byte_encode_bytes(&all)), all);
    let s = "aé€😀".as_bytes();
    let mut at = 0;
    let mut cps = vec![];
    while at < s.len() {
        cps.push(utf8_decode_one(s, at).0);
        at = next_utf8_char(s, at);
    }
    assert_eq!(cps, vec![0x61, 0xe9, 0x20ac, 0x1f600]);
}

// ── Types ──

#[test]
fn small_types() {
    assert_eq!(Backend::from_name("cpu"), Backend::Cpu);
    assert_eq!(Backend::from_name("anything"), Backend::Metal);
    assert_eq!(Backend::Metal.name(), "metal");
    assert!(!ThinkMode::Off.is_enabled());
    assert_eq!(ThinkMode::Max.name(), "max");
    assert_eq!(think_mode_for_context(ThinkMode::Max, 393215), ThinkMode::High);
    assert_eq!(think_mode_for_context(ThinkMode::Max, 393216), ThinkMode::Max);
    for ctx in [i32::MIN, -1, 0] {
        assert_eq!(think_mode_for_context(ThinkMode::Max, ctx), ThinkMode::High);
    }
    assert_eq!(think_mode_for_context(ThinkMode::Off, -1), ThinkMode::Off);
    for t in [TensorType::F32, TensorType::F16, TensorType::Q8_0, TensorType::Q2K] {
        assert_eq!(TensorType::from_u32(t.tag()), Some(t));
    }
    assert_eq!(TensorType::Q8_0.block_elems(), 32);
    assert_eq!(TensorType::Q8_0.block_bytes(), 34);
    assert!(log_color_code(LogType::Success).starts_with('\x1b') || log_color_code(LogType::Success).is_empty());
    let mut a = TokenVec::new();
    assert!(a.is_empty());
    a.push(1);
    a.push(2);
    let b = TokenVec { v: vec![1] };
    assert!(a.starts_with(&b) && !b.starts_with(&a));
    let mut c = TokenVec::new();
    c.copy_from(&a);
    assert_eq!(c.v, a.v);
    assert_eq!(c.len(), 2);
}

#[test]
fn metal_results() {
    assert!(ck(0).is_ok());
    assert!(matches!(ck(-4), Err(MetalError::Code(-4))));
    let mut m = MetalRuntime::new();
    assert!(m.init_returned(0).is_err());
    assert!(!m.is_initialized());
    assert!(m.init_returned(1).is_ok());
    assert!(m.is_initialized());
    assert!(m.cleanup());
    assert!(!m.cleanup());
}

#[test]
fn graphs() {
    assert_eq!(metal_graph_raw_cap_for_context(0, 1), 1);
    assert_eq!(metal_graph_raw_cap_for_context(100, 1), 100);
    assert_eq!(metal_graph_raw_cap_for_context(4096, 1024), 512);
    let g = MetalGraph::allocate(128, 4096, 64, false, false);
    assert_eq!(g.raw_cap, 128);
    assert_eq!(g.comp_cap, 1026);
    assert_eq!(g.layer_raw_cache.len(), 43);
    assert_eq!(g.layer_raw_cache[0], Some(128 * 512 * 4));
    assert_eq!(g.indexer_scores, Some(1026 * 64 * 4));
    let first = g.cur_hc;
    let mut other = MetalGraph::allocate(128, 4096, 64, false, false);
    other.hc_pre = Some(1);
    other.hc_post = Some(2);
    other.hc_comb = Some(3);
    let all = other.release();
    assert!([1, 2, 3].iter().all(|n| all.iter().filter(|m| *m == n).count() == 1));
    let sizes = g.release();
    assert_eq!(all.len(), sizes.len() + 3);
    assert_eq!(Some(sizes[0]), first);
    assert!(sizes.len() > 43);
    assert!(sizes.iter().all(|&n| n > 0));
}

#[test]
fn memory_estimates() {
    let m = Engine::context_memory_estimate(Backend::Cpu, 256);
    assert_eq!(m.total_bytes, m.raw_bytes + m.compressed_bytes + m.scratch_bytes);
    assert_eq!(m.raw_cap, 256);
    let n = Engine::context_memory_estimate(Backend::Metal, 8192);
    assert!(n.total_bytes > m.total_bytes);
    assert_eq!(n.prefill_cap, 2048 + (8192 - 2048) / 8);
}

#[test]
fn random_states_stay_apart() {
    let step = |mut x: u64| {
        let out = sample_rng_next(&mut x);
        (x, out)
    };
    assert_eq!(step(0), step(0x9e37_79b9_7f4a_7c15));
    let apart: Vec<(u64, u64)> = (1..=500u64).map(step).collect();
    for i in 0..500 {
        assert!(apart[i].0 != 0 && apart[i].1 != 0);
        for j in 0..i {
            assert!(apart[i].0 != apart[j].0 && apart[i].1 != apart[j].1);
        }
    }
}

// ── Eight-bit floats ──

/// The value of a code by its exponent and fraction.
fn e4m3(code: usize) -> f32 {
    let exp = (code >> 3) & 15;
    let fraction = (code & 7) as f32;
    if exp == 0 {
        fraction / 512.0
    } else {
        (1.0 + fraction / 8.0) * 2f32.powi(exp as i32 - 7)
    }
}

#[test]
fn e4m3_values() {
    for code in 0..300usize {
        assert_eq!(dsv4_e4m3fn_value(code), e4m3(code).to_bits(), "{}", code);
    }
    assert_eq!(dsv4_e4m3fn_value(1), 0.001953125f32.to_bits());
    assert_eq!(dsv4_e4m3fn_value(8), 0.015625f32.to_bits());
    assert_eq!(dsv4_e4m3fn_value(126), 448f32.to_bits());
}

#[test]
fn e4m3_numbers_come_back() {
    for code in 0..=126usize {
        let b = dsv4_e4m3fn_value(code);
        assert_eq!(dsv4_e4m3fn_dequant(b), b);
    }
}

#[test]
fn e4m3_rounds_to_the_nearest() {
    let back = |x: f32| f32::from_bits(dsv4_e4m3fn_dequant(x.to_bits()));
    assert_eq!(back(1000.0), 448.0);
    assert_eq!(back(f32::NEG_INFINITY), -448.0);
    assert_eq!(back(f32::NAN), 448.0);
    assert_eq!(back(-0.0).to_bits(), 0);
    assert_eq!(back(-1e-9).to_bits(), 0x8000_0000);
    // Ties go to the even code.
    assert_eq!(back(1.0625), 1.0);
    assert_eq!(back(1.1875), 1.25);
    assert_eq!(back(0.0009765625), 0.0);
    assert_eq!(back(0.0029296875), 0.00390625);
    let mut r = Rng(7);
    for i in 0..4000u32 {
        let e = 100 + i % 40;
        let x = f32::from_bits((e << 23) | (r.next() as u32 & 0x7f_ffff));
        let best = (0..=126usize).map(|c| (f64::from(e4m3(c)) - f64::from(x)).abs());
        let least = best.fold(f64::INFINITY, f64::min);
        assert_eq!((f64::from(back(x)) - f64::from(x)).abs(), least, "{}", x);
        assert_eq!(back(-x), -back(x));
    }
}

#[test]
fn halves_are_rounded_once() {
    let mut r = Rng(11);
    let mut x: Vec<u32> = (0..2000).map(|_| r.next() as u32).collect();
    x.extend([1.0f32, -0.1, 65520.0, 1e-8, f32::NAN, 0.333].map(|f| f.to_bits()));
    let first = x.clone();
    f16_round_inplace(&mut x);
    assert_eq!(f32::from_bits(x[2000]), 1.0);
    assert_eq!(f32::from_bits(x[2001]), -0.099975586);
    assert_eq!(f32::from_bits(x[2002]), f32::INFINITY);
    assert_eq!(f32::from_bits(x[2003]), 0.0);
    assert_eq!(f32::from_bits(x[2005]), 0.33300781);
    for (a, b) in first.iter().zip(&x) {
        assert_eq!(f16_to_f32(f32_to_f16(*a)), *b);
    }
    let once = x.clone();
    f16_round_inplace(&mut x);
    assert_eq!(x, once);
}

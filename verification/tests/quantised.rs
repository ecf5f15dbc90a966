//! Quantised matrix products with the machine's arithmetic.

use half::f16;
use pictor_kernels::arith::Arith;
use pictor_kernels::blocks::{half_bits_to_single, BlockQ1_0G128, BlockTQ2_0_g128};
use pictor_kernels::fp8::{BlockFP8E4M3, BlockFP8E5M2};
use pictor_kernels::simd_avx2::{
    bits_to_signs_avx2, decode_2bytes_avx2_to_f32x8, dequant_1bit_g128_avx2,
    dequant_tq2_0_g128_avx2, gemm_1bit_g128_avx2, gemm_1bit_g128_avx2_prefetch,
    gemm_tq2_0_g128_avx2, gemv_1bit_g128_avx2, gemv_1bit_g128_avx2_prefetch, gemv_tq2_0_g128_avx2,
    gemv_tq2_0_g128_avx2_prefetch,
};
use pictor_kernels::simd_fp8_avx2::{
    dequant_fp8_e4m3_avx2, dequant_fp8_e5m2_avx2, gemm_fp8_e4m3_avx2, gemm_fp8_e5m2_avx2,
    gemv_fp8_e4m3_avx2, gemv_fp8_e5m2_avx2,
};
use pictor_kernels::simd_fp8_avx512::{
    dequant_fp8_e4m3_avx512, dequant_fp8_e5m2_avx512, gemm_fp8_e4m3_avx512, gemm_fp8_e5m2_avx512,
    gemv_fp8_e4m3_avx512, gemv_fp8_e5m2_avx512,
};
use pictor_kernels::simd_fp8_neon::{
    dequant_fp8_e4m3_neon, dequant_fp8_e5m2_neon, gemm_fp8_e4m3_neon, gemm_fp8_e5m2_neon,
    gemv_fp8_e4m3_neon, gemv_fp8_e5m2_neon,
};
use pictor_kernels::KernelError;

/// Arithmetic of the machine's single-precision numbers.
struct Native;

fn f(bits: u32) -> f32 {
    f32::from_bits(bits)
}

impl Arith for Native {
    fn sum(&self, a: u32, b: u32) -> u32 {
        (f(a) + f(b)).to_bits()
    }

    fn difference(&self, a: u32, b: u32) -> u32 {
        (f(a) - f(b)).to_bits()
    }

    fn product(&self, a: u32, b: u32) -> u32 {
        (f(a) * f(b)).to_bits()
    }

    fn quotient(&self, a: u32, b: u32) -> u32 {
        (f(a) / f(b)).to_bits()
    }

    fn fused(&self, a: u32, b: u32, c: u32) -> u32 {
        f(a).mul_add(f(b), f(c)).to_bits()
    }

    fn larger(&self, a: u32, b: u32) -> u32 {
        f(a).max(f(b)).to_bits()
    }

    fn vector_larger(&self, a: u32, b: u32) -> u32 {
        if f(a).is_nan() || f(b).is_nan() {
            f32::NAN.to_bits()
        } else {
            f(a).max(f(b)).to_bits()
        }
    }

    fn exponential(&self, a: u32) -> u32 {
        f(a).exp().to_bits()
    }

    fn square_root(&self, a: u32) -> u32 {
        f(a).sqrt().to_bits()
    }

    fn reciprocal_estimate(&self, a: u32) -> u32 {
        (1.0 / f(a)).to_bits() & 0xffff_8000
    }

    fn reciprocal_step(&self, a: u32, b: u32) -> u32 {
        let product = f(a) * f(b);
        if product.is_nan() && !f(a).is_nan() && !f(b).is_nan() {
            2.0f32.to_bits()
        } else {
            (2.0 - product).to_bits()
        }
    }

    fn greater(&self, a: u32, b: u32) -> bool {
        f(a) > f(b)
    }

    fn of_count(&self, n: usize) -> u32 {
        (n as f32).to_bits()
    }
}

fn bits(v: &[f32]) -> Vec<u32> {
    v.iter().map(|x| x.to_bits()).collect()
}

fn floats(v: &[u32]) -> Vec<f32> {
    v.iter().map(|x| f32::from_bits(*x)).collect()
}

fn make_block(scale: f32, bits: [u8; 16]) -> BlockQ1_0G128 {
    BlockQ1_0G128 { d: f16::from_f32(scale).to_bits(), qs: bits }
}

fn make_ternary_block(scale: f32, qs: [u8; 32]) -> BlockTQ2_0_g128 {
    BlockTQ2_0_g128 { qs, d: f16::from_f32(scale).to_bits() }
}

fn scale_of(d: u16) -> f32 {
    f16::from_bits(d).to_f32()
}

fn one_bit_weight(b: &BlockQ1_0G128, j: usize) -> f32 {
    if (b.qs[j / 8] >> (j % 8)) & 1 == 1 {
        scale_of(b.d)
    } else {
        -scale_of(b.d)
    }
}

fn ternary_digit(code: u8, reserved: f32) -> f32 {
    match code {
        0 => -1.0,
        1 => 0.0,
        2 => 1.0,
        _ => reserved,
    }
}

fn ternary_weight(b: &BlockTQ2_0_g128, j: usize, reserved: f32) -> f32 {
    ternary_digit((b.qs[j / 4] >> (2 * (j % 4))) & 3, reserved) * scale_of(b.d)
}

fn reference_gemv(blocks: &[BlockQ1_0G128], input: &[f32], n_rows: usize, k: usize) -> Vec<f32> {
    let per_row = k / 128;
    (0..n_rows)
        .map(|r| (0..k).map(|j| one_bit_weight(&blocks[r * per_row + j / 128], j % 128) * input[j]).sum())
        .collect()
}

fn reference_ternary(
    blocks: &[BlockTQ2_0_g128],
    input: &[f32],
    n_rows: usize,
    k: usize,
    reserved: f32,
) -> Vec<f32> {
    let per_row = k / 128;
    (0..n_rows)
        .map(|r| {
            (0..k)
                .map(|j| ternary_weight(&blocks[r * per_row + j / 128], j % 128, reserved) * input[j])
                .sum()
        })
        .collect()
}

#[test]
fn avx2_dequant_all_positive() {
    let block = make_block(2.0, [0xFF; 16]);
    let mut output = vec![0u32; 128];
    dequant_1bit_g128_avx2(&[block], &mut output).expect("avx2 dequant should succeed");
    for v in floats(&output) {
        assert!((v - 2.0).abs() < 0.01, "expected 2.0, got {v}");
    }
}

#[test]
fn avx2_dequant_all_negative() {
    let block = make_block(3.0, [0x00; 16]);
    let mut output = vec![0u32; 128];
    dequant_1bit_g128_avx2(&[block], &mut output).expect("avx2 dequant should succeed");
    for v in floats(&output) {
        assert!((v + 3.0).abs() < 0.01, "expected -3.0, got {v}");
    }
}

#[test]
fn avx2_dequant_matches_reference() {
    let block = make_block(1.5, [0xAA; 16]);
    let mut output = vec![0u32; 128];
    dequant_1bit_g128_avx2(&[block], &mut output).expect("avx2 dequant should succeed");
    let out_avx = floats(&output);
    for i in 0..128 {
        let out_ref = one_bit_weight(&block, i);
        assert!((out_ref - out_avx[i]).abs() < 0.01, "mismatch at {i}: ref={out_ref}, avx2={}", out_avx[i]);
    }
}

#[test]
fn avx2_gemv_identity_like() {
    let blocks = vec![make_block(1.0, [0xFF; 16])];
    let input: Vec<f32> = (0..128).map(|i| i as f32).collect();
    let mut output = vec![0u32; 1];
    gemv_1bit_g128_avx2(&Native, &blocks, &bits(&input), &mut output, 1, 128)
        .expect("avx2 gemv should succeed");
    let expected: f32 = (0..128).map(|i| i as f32).sum();
    let got = floats(&output)[0];
    assert!((got - expected).abs() < 1.0, "expected ~{expected}, got {got}");
}

#[test]
fn avx2_gemv_matches_reference() {
    let n_rows = 4;
    let k = 256;
    let blocks_per_row = k / 128;
    let mut blocks = Vec::new();
    for row in 0..n_rows {
        for bi in 0..blocks_per_row {
            let qs = [row as u8 * 37 + bi as u8 * 13; 16];
            blocks.push(make_block(0.5 + row as f32 * 0.1, qs));
        }
    }
    let input: Vec<f32> = (0..k).map(|i| (i as f32 * 0.01) - 1.28).collect();
    let out_ref = reference_gemv(&blocks, &input, n_rows, k);
    let mut plain = vec![0u32; n_rows];
    gemv_1bit_g128_avx2(&Native, &blocks, &bits(&input), &mut plain, n_rows, k)
        .expect("avx2 gemv should succeed");
    let mut paired = vec![0u32; n_rows];
    gemv_1bit_g128_avx2_prefetch(&Native, &blocks, &bits(&input), &mut paired, n_rows, k)
        .expect("avx2 prefetch gemv should succeed");
    for i in 0..n_rows {
        for out_avx in [floats(&plain)[i], floats(&paired)[i]] {
            assert!((out_ref[i] - out_avx).abs() < 0.1, "row {i}: ref={}, avx2={out_avx}", out_ref[i]);
        }
    }
}

#[test]
fn avx2_gemm_matches_reference() {
    let m = 2;
    let n_rows = 3;
    let k = 128;
    let blocks_per_row = k / 128;
    let mut blocks = Vec::new();
    for ni in 0..n_rows {
        for bi in 0..blocks_per_row {
            let qs = [(ni as u8 * 17 + bi as u8 * 7) | 0x55; 16];
            blocks.push(make_block(1.0 + ni as f32 * 0.2, qs));
        }
    }
    let input: Vec<f32> = (0..m * k).map(|i| (i as f32 * 0.005) - 0.32).collect();
    let mut out_ref = Vec::new();
    for mi in 0..m {
        out_ref.extend(reference_gemv(&blocks, &input[mi * k..(mi + 1) * k], n_rows, k));
    }
    let mut plain = vec![0u32; m * n_rows];
    gemm_1bit_g128_avx2(&Native, &blocks, &bits(&input), &mut plain, m, n_rows, k)
        .expect("avx2 gemm should succeed");
    let mut paired = vec![0u32; m * n_rows];
    gemm_1bit_g128_avx2_prefetch(&Native, &blocks, &bits(&input), &mut paired, m, n_rows, k)
        .expect("avx2 prefetch gemm should succeed");
    for i in 0..(m * n_rows) {
        for out_avx in [floats(&plain)[i], floats(&paired)[i]] {
            assert!((out_ref[i] - out_avx).abs() < 0.5, "idx {i}: ref={}, avx2={out_avx}", out_ref[i]);
        }
    }
}

#[test]
fn ternary_gemv_avx2_matches_scalar() {
    let blocks = vec![make_ternary_block(1.0, [0xAA; 32]), make_ternary_block(1.0, [0xAA; 32])];
    let input = vec![1.0_f32; 128];
    let out_ref = reference_ternary(&blocks, &input, 2, 128, 1.0);
    let mut out = vec![0u32; 2];
    gemv_tq2_0_g128_avx2(&Native, &blocks, &bits(&input), &mut out, 2, 128)
        .expect("avx2 ternary gemv should succeed");
    let out_avx = floats(&out);
    for i in 0..2 {
        assert!((out_avx[i] - out_ref[i]).abs() < 1e-4, "row {i}: avx2={}, ref={}", out_avx[i], out_ref[i]);
    }
    assert_eq!(out_avx, vec![128.0, 128.0]);
}

#[test]
fn ternary_gemv_avx2_sign_canary() {
    let blocks = vec![make_ternary_block(1.0, [0x46; 32])];
    let input = vec![1.0_f32; 128];
    let mut output = bits(&[99.0]);
    gemv_tq2_0_g128_avx2(&Native, &blocks, &bits(&input), &mut output, 1, 128)
        .expect("avx2 ternary gemv sign canary should succeed");
    let got = floats(&output)[0];
    assert!(got.abs() < 1e-4, "sign canary: expected 0.0, got {got}");
}

#[test]
fn ternary_gemv_avx2_all_negative() {
    let blocks = vec![make_ternary_block(1.0, [0x00; 32]), make_ternary_block(1.0, [0x00; 32])];
    let input = vec![1.0_f32; 128];
    let mut output = vec![0u32; 2];
    gemv_tq2_0_g128_avx2(&Native, &blocks, &bits(&input), &mut output, 2, 128)
        .expect("avx2 ternary all-negative gemv should succeed");
    for (i, val) in floats(&output).into_iter().enumerate() {
        assert!((val + 128.0).abs() < 1e-4, "row {i}: expected -128.0, got {val}");
    }
}

#[test]
fn gemv_tq2_0_g128_avx2_prefetch_matches_reference() {
    let n_rows = 64;
    let k = 128;
    let blocks_per_row = k / 128;
    let mut blocks = Vec::with_capacity(n_rows * blocks_per_row);
    for row in 0..n_rows {
        for bi in 0..blocks_per_row {
            let mut qs = [0u8; 32];
            for (i, byte) in qs.iter_mut().enumerate() {
                *byte = ((row * 17 + bi * 29 + i * 11) & 0xFF) as u8;
            }
            blocks.push(make_ternary_block(0.25 + row as f32 * 0.01, qs));
        }
    }
    let input: Vec<f32> = (0..k).map(|i| ((i * 7 % 23) as f32 * 0.125) - 1.5).collect();
    let out_ref = reference_ternary(&blocks, &input, n_rows, k, 0.0);
    let mut out = vec![0u32; n_rows];
    gemv_tq2_0_g128_avx2_prefetch(&Native, &blocks, &bits(&input), &mut out, n_rows, k)
        .expect("avx2 prefetch ternary gemv should succeed");
    let mse = out_ref
        .iter()
        .zip(&floats(&out))
        .map(|(lhs, rhs)| {
            let diff = lhs - rhs;
            diff * diff
        })
        .sum::<f32>()
        / n_rows as f32;
    assert!(mse < 1e-6, "expected MSE < 1e-6, got {mse}");
}

#[test]
fn ternary_gemm_is_gemv_per_vector() {
    let n_rows = 3;
    let k = 256;
    let m = 3;
    let blocks: Vec<BlockTQ2_0_g128> = (0..n_rows * 2)
        .map(|b| make_ternary_block(0.5 + b as f32, [(b * 41 + 6) as u8; 32]))
        .collect();
    let input: Vec<f32> = (0..m * k).map(|i| (i % 13) as f32 - 6.0).collect();
    let mut whole = vec![0u32; m * n_rows];
    gemm_tq2_0_g128_avx2(&Native, &blocks, &bits(&input), &mut whole, m, n_rows, k).expect("gemm");
    for v in 0..m {
        let mut one = vec![0u32; n_rows];
        gemv_tq2_0_g128_avx2(&Native, &blocks, &bits(&input[v * k..(v + 1) * k]), &mut one, n_rows, k)
            .expect("gemv");
        assert_eq!(&whole[v * n_rows..(v + 1) * n_rows], &one[..]);
    }
}

#[test]
fn odd_block_count_is_multiplied_in_full() {
    let k = 384;
    let blocks: Vec<BlockQ1_0G128> = (0..3).map(|b| make_block(1.0 + b as f32, [0xFF; 16])).collect();
    let input = vec![1.0f32; k];
    let mut out = vec![0u32; 2];
    out[1] = 5.0f32.to_bits();
    gemv_1bit_g128_avx2_prefetch(&Native, &blocks, &bits(&input), &mut out, 1, k).expect("gemv");
    assert_eq!(floats(&out), vec![768.0, 5.0]);
}

#[test]
fn reserved_code_is_one_or_zero() {
    let blocks = vec![make_ternary_block(1.0, [0xFF; 32])];
    let input = vec![1.0f32; 128];
    let mut plain = vec![0u32; 1];
    gemv_tq2_0_g128_avx2(&Native, &blocks, &bits(&input), &mut plain, 1, 128).expect("gemv");
    let mut paired = vec![0u32; 1];
    gemv_tq2_0_g128_avx2_prefetch(&Native, &blocks, &bits(&input), &mut paired, 1, 128).expect("gemv");
    assert_eq!(floats(&plain), vec![128.0]);
    assert_eq!(floats(&paired), vec![0.0]);
}

#[test]
fn signs_and_codes_are_decoded_lowest_first() {
    assert_eq!(floats(&bits_to_signs_avx2(0b0000_0101)), vec![1.0, -1.0, 1.0, -1.0, -1.0, -1.0, -1.0, -1.0]);
    assert_eq!(
        floats(&decode_2bytes_avx2_to_f32x8(0b11_10_01_00, 0b00_01_10_11, false)),
        vec![-1.0, 0.0, 1.0, 1.0, 1.0, 1.0, 0.0, -1.0],
    );
    assert_eq!(
        floats(&decode_2bytes_avx2_to_f32x8(0b11_10_01_00, 0b00_01_10_11, true)),
        vec![-1.0, 0.0, 1.0, 0.0, 0.0, 1.0, 0.0, -1.0],
    );
}

#[test]
fn ternary_dequant_of_every_code() {
    let block = make_ternary_block(2.0, [0b11_10_01_00; 32]);
    let mut out = vec![7u32; 130];
    dequant_tq2_0_g128_avx2(&[block], &mut out).expect("dequant");
    let v = floats(&out[..128]);
    for g in 0..32 {
        assert_eq!(&v[g * 4..g * 4 + 4], &[-2.0, 0.0, 2.0, 2.0]);
    }
    assert_eq!(&out[128..], &[7, 7]);
}

#[test]
fn one_bit_errors_come_in_order() {
    let blocks = vec![make_block(1.0, [0; 16])];
    let mut out = vec![0u32; 1];
    assert_eq!(
        gemv_1bit_g128_avx2(&Native, &blocks, &[], &mut out, 9, 100),
        Err(KernelError::NotBlockAligned { count: 100, block_size: 128 }),
    );
    assert_eq!(
        gemv_1bit_g128_avx2(&Native, &blocks, &[0; 4], &mut out, 9, 128),
        Err(KernelError::DimensionMismatch { expected: 128, got: 4 }),
    );
    assert_eq!(
        gemv_1bit_g128_avx2(&Native, &blocks, &[0; 128], &mut out, 9, 128),
        Err(KernelError::BufferTooSmall { needed: 9, available: 1 }),
    );
    let mut wide = vec![0u32; 9];
    assert_eq!(
        gemv_1bit_g128_avx2(&Native, &blocks, &[0; 128], &mut wide, 9, 128),
        Err(KernelError::BufferTooSmall { needed: 9, available: 1 }),
    );
    assert_eq!(
        gemm_1bit_g128_avx2(&Native, &blocks, &[0; 128], &mut wide, 2, 1, 128),
        Err(KernelError::DimensionMismatch { expected: 256, got: 128 }),
    );
    assert_eq!(
        dequant_1bit_g128_avx2(&blocks, &mut wide),
        Err(KernelError::BufferTooSmall { needed: 128, available: 9 }),
    );
}

#[test]
fn every_half_converts_as_the_half_crate_says() {
    for h in 0..=u16::MAX {
        let want = f16::from_bits(h).to_f32();
        let got = f32::from_bits(half_bits_to_single(h));
        if want.is_nan() {
            assert!(got.is_nan(), "{h:#06x}");
        } else {
            assert_eq!(want.to_bits(), got.to_bits(), "{h:#06x}");
        }
    }
}

fn table() -> [u32; 256] {
    let mut t = [0u32; 256];
    for (i, e) in t.iter_mut().enumerate() {
        *e = ((i as f32) - 128.0).to_bits();
    }
    t
}

fn fp8_rows(n_rows: usize, per_row: usize) -> Vec<([u8; 32], u16)> {
    (0..n_rows * per_row)
        .map(|b| {
            let mut qs = [0u8; 32];
            for (j, q) in qs.iter_mut().enumerate() {
                *q = ((b * 31 + j * 7) & 0xff) as u8;
            }
            (qs, f16::from_f32(0.25 + b as f32 * 0.5).to_bits())
        })
        .collect()
}

#[test]
fn fp8_products_match_a_plain_sum_in_every_instruction_set() {
    let (n_rows, k, batch) = (3usize, 64usize, 2usize);
    let raw = fp8_rows(n_rows, k / 32);
    let e4: Vec<BlockFP8E4M3> = raw.iter().map(|(qs, d)| BlockFP8E4M3 { qs: *qs, d: *d }).collect();
    let e5: Vec<BlockFP8E5M2> = raw.iter().map(|(qs, d)| BlockFP8E5M2 { qs: *qs, d: *d }).collect();
    let lut = table();
    let input: Vec<f32> = (0..batch * k).map(|i| (i % 9) as f32 * 0.5 - 2.0).collect();
    let x = bits(&input);
    let mut want = Vec::new();
    for v in 0..batch {
        for r in 0..n_rows {
            let mut acc = 0.0f64;
            for j in 0..k {
                let (qs, d) = &raw[r * (k / 32) + j / 32];
                acc += (scale_of(*d) * f32::from_bits(lut[qs[j % 32] as usize])) as f64 * input[v * k + j] as f64;
            }
            want.push(acc as f32);
        }
    }
    let near = |got: &[u32], want: &[f32]| {
        for (g, w) in floats(got).iter().zip(want) {
            assert!((g - w).abs() <= 1e-3 * (1.0 + w.abs()), "{g} vs {w}");
        }
    };
    let mut one = vec![0u32; n_rows];
    gemv_fp8_e4m3_avx2(&Native, &lut, &e4, &x[..k], &mut one, n_rows, k).expect("gemv");
    near(&one, &want[..n_rows]);
    gemv_fp8_e4m3_avx512(&Native, &lut, &e4, &x[..k], &mut one, n_rows, k).expect("gemv");
    near(&one, &want[..n_rows]);
    gemv_fp8_e4m3_neon(&Native, &lut, &e4, &x[..k], &mut one, n_rows, k).expect("gemv");
    near(&one, &want[..n_rows]);
    gemv_fp8_e5m2_avx2(&Native, &lut, &e5, &x[..k], &mut one, n_rows, k).expect("gemv");
    near(&one, &want[..n_rows]);
    gemv_fp8_e5m2_avx512(&Native, &lut, &e5, &x[..k], &mut one, n_rows, k).expect("gemv");
    near(&one, &want[..n_rows]);
    gemv_fp8_e5m2_neon(&Native, &lut, &e5, &x[..k], &mut one, n_rows, k).expect("gemv");
    near(&one, &want[..n_rows]);
    let mut all = vec![0u32; batch * n_rows];
    gemm_fp8_e4m3_avx2(&Native, &lut, &e4, &x, &mut all, n_rows, k, batch).expect("gemm");
    near(&all, &want);
    gemm_fp8_e4m3_avx512(&Native, &lut, &e4, &x, &mut all, n_rows, k, batch).expect("gemm");
    near(&all, &want);
    gemm_fp8_e4m3_neon(&Native, &lut, &e4, &x, &mut all, n_rows, k, batch).expect("gemm");
    near(&all, &want);
    gemm_fp8_e5m2_avx2(&Native, &lut, &e5, &x, &mut all, n_rows, k, batch).expect("gemm");
    near(&all, &want);
    gemm_fp8_e5m2_avx512(&Native, &lut, &e5, &x, &mut all, n_rows, k, batch).expect("gemm");
    near(&all, &want);
    gemm_fp8_e5m2_neon(&Native, &lut, &e5, &x, &mut all, n_rows, k, batch).expect("gemm");
    near(&all, &want);
    assert_eq!(&all[..n_rows], &one[..]);
}

#[test]
fn fp8_dequantises_alike_in_every_instruction_set() {
    let raw = fp8_rows(1, 2);
    let e4: Vec<BlockFP8E4M3> = raw.iter().map(|(qs, d)| BlockFP8E4M3 { qs: *qs, d: *d }).collect();
    let e5: Vec<BlockFP8E5M2> = raw.iter().map(|(qs, d)| BlockFP8E5M2 { qs: *qs, d: *d }).collect();
    let lut = table();
    let want: Vec<f32> = (0..64)
        .map(|p| scale_of(raw[p / 32].1) * f32::from_bits(lut[raw[p / 32].0[p % 32] as usize]))
        .collect();
    let mut out = vec![0u32; 64];
    dequant_fp8_e4m3_avx2(&Native, &lut, &e4, &mut out).expect("dequant");
    assert_eq!(floats(&out), want);
    dequant_fp8_e4m3_avx512(&Native, &lut, &e4, &mut out).expect("dequant");
    assert_eq!(floats(&out), want);
    dequant_fp8_e4m3_neon(&Native, &lut, &e4, &mut out).expect("dequant");
    assert_eq!(floats(&out), want);
    dequant_fp8_e5m2_avx2(&Native, &lut, &e5, &mut out).expect("dequant");
    assert_eq!(floats(&out), want);
    dequant_fp8_e5m2_avx512(&Native, &lut, &e5, &mut out).expect("dequant");
    assert_eq!(floats(&out), want);
    dequant_fp8_e5m2_neon(&Native, &lut, &e5, &mut out).expect("dequant");
    assert_eq!(floats(&out), want);
    assert_eq!(
        dequant_fp8_e5m2_neon(&Native, &lut, &e5, &mut out[..40]),
        Err(KernelError::BufferTooSmall { needed: 64, available: 40 }),
    );
}

#[test]
fn fp8_missing_blocks_are_a_dimension_mismatch() {
    let e4: Vec<BlockFP8E4M3> = vec![BlockFP8E4M3 { qs: [0; 32], d: 0 }];
    let lut = table();
    let mut out = vec![0u32; 4];
    assert_eq!(
        gemv_fp8_e4m3_avx2(&Native, &lut, &e4, &[0; 64], &mut out, 2, 64),
        Err(KernelError::DimensionMismatch { expected: 4, got: 1 }),
    );
    assert_eq!(
        gemm_fp8_e4m3_avx2(&Native, &lut, &e4, &[0; 64], &mut out, 2, 32, 2),
        Err(KernelError::DimensionMismatch { expected: 2, got: 1 }),
    );
    assert_eq!(
        gemm_fp8_e4m3_avx2(&Native, &lut, &e4, &[0; 64], &mut out, 5, 32, 2),
        Err(KernelError::BufferTooSmall { needed: 10, available: 4 }),
    );
    assert_eq!(
        gemv_fp8_e4m3_avx2(&Native, &lut, &e4, &[0; 64], &mut out, 1, 33),
        Err(KernelError::NotBlockAligned { count: 33, block_size: 32 }),
    );
}

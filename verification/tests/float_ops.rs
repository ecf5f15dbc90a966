//! Float operations with the machine's arithmetic, in every instruction set.

use pictor_kernels::arith::{attention_scale, Arith};
use pictor_kernels::simd_float_ops::{
    rms_norm_simd, rope_apply_simd, silu_scalar_elem, silu_simd, softmax_simd, swiglu_simd, Isa,
};

const EPS: f32 = 1e-5;

const ALL: [Isa; 3] = [Isa::Neon, Isa::Avx2, Isa::Scalar];

/// Arithmetic of the machine's single-precision numbers.
struct Native;

fn f(bits: u32) -> f32 {
    f32::from_bits(bits)
}

impl Arith for Native {
    fn sum(&self, a: u32, b: u32) -> u32 {
        (f(a) + f(b)).to_bits()
    }

    fn difference(&self, a: u32, b: u32) -> u32 {
        (f(a) - f(b)).to_bits()
    }

    fn product(&self, a: u32, b: u32) -> u32 {
        (f(a) * f(b)).to_bits()
    }

    fn quotient(&self, a: u32, b: u32) -> u32 {
        (f(a) / f(b)).to_bits()
    }

    fn fused(&self, a: u32, b: u32, c: u32) -> u32 {
        f(a).mul_add(f(b), f(c)).to_bits()
    }

    fn larger(&self, a: u32, b: u32) -> u32 {
        f(a).max(f(b)).to_bits()
    }

    fn vector_larger(&self, a: u32, b: u32) -> u32 {
        if f(a).is_nan() || f(b).is_nan() {
            f32::NAN.to_bits()
        } else {
            f(a).max(f(b)).to_bits()
        }
    }

    fn exponential(&self, a: u32) -> u32 {
        f(a).exp().to_bits()
    }

    fn square_root(&self, a: u32) -> u32 {
        f(a).sqrt().to_bits()
    }

    fn reciprocal_estimate(&self, a: u32) -> u32 {
        (1.0 / f(a)).to_bits() & 0xffff_8000
    }

    fn reciprocal_step(&self, a: u32, b: u32) -> u32 {
        let product = f(a) * f(b);
        if product.is_nan() && !f(a).is_nan() && !f(b).is_nan() {
            2.0f32.to_bits()
        } else {
            (2.0 - product).to_bits()
        }
    }

    fn greater(&self, a: u32, b: u32) -> bool {
        f(a) > f(b)
    }

    fn of_count(&self, n: usize) -> u32 {
        (n as f32).to_bits()
    }
}

fn bits(v: &[f32]) -> Vec<u32> {
    v.iter().map(|x| x.to_bits()).collect()
}

fn floats(v: &[u32]) -> Vec<f32> {
    v.iter().map(|x| f32::from_bits(*x)).collect()
}

fn assert_close(a: &[f32], b: &[f32], tol: f32, label: &str) {
    assert_eq!(a.len(), b.len(), "{label}: length mismatch");
    for (i, (&x, &y)) in a.iter().zip(b.iter()).enumerate() {
        assert!((x - y).abs() < tol, "{label} mismatch at [{i}]: {x} vs {y}");
    }
}

fn softmax(isa: Isa, values: &[f32]) -> Vec<f32> {
    let mut v = bits(values);
    softmax_simd(&Native, isa, &mut v);
    floats(&v)
}

fn rms_norm(isa: Isa, input: &[f32], weight: &[f32], eps: f32) -> Vec<f32> {
    let mut out = vec![0u32; input.len()];
    rms_norm_simd(&Native, isa, &bits(input), &bits(weight), &mut out, eps.to_bits());
    floats(&out)
}

fn silu(isa: Isa, input: &[f32]) -> Vec<f32> {
    let mut out = vec![0u32; input.len()];
    silu_simd(&Native, isa, &bits(input), &mut out);
    floats(&out)
}

fn swiglu(isa: Isa, gate: &[f32], up: &[f32]) -> Vec<f32> {
    let mut out = vec![0u32; gate.len()];
    swiglu_simd(&Native, isa, &bits(gate), &bits(up), &mut out);
    floats(&out)
}

fn rope(isa: Isa, input: &[f32], cos: &[f32], sin: &[f32]) -> Vec<f32> {
    let mut out = vec![0u32; input.len()];
    rope_apply_simd(&Native, isa, &bits(input), &mut out, &bits(cos), &bits(sin));
    floats(&out)
}

fn silu_one(x: f32) -> f32 {
    f32::from_bits(silu_scalar_elem(&Native, x.to_bits()))
}

#[test]
fn softmax_basic() {
    for isa in ALL {
        let vals = softmax(isa, &[1.0, 2.0, 3.0, 4.0]);
        let sum: f32 = vals.iter().sum();
        assert!((sum - 1.0).abs() < EPS, "softmax sum={sum}");
        for w in vals.windows(2) {
            assert!(w[0] <= w[1]);
        }
    }
}

#[test]
fn softmax_matches_scalar() {
    let input = vec![0.5, -1.0, 2.3, 0.0, -0.7, 1.1, 3.0, -2.0, 0.3, 1.5];
    let scalar_out = softmax(Isa::Scalar, &input);
    for isa in ALL {
        assert_close(&softmax(isa, &input), &scalar_out, 1e-4, "softmax");
    }
}

#[test]
fn softmax_empty() {
    for isa in ALL {
        let vals = softmax(isa, &[]);
        assert!(vals.is_empty());
    }
}

#[test]
fn softmax_single() {
    for isa in ALL {
        let vals = softmax(isa, &[42.0]);
        assert!((vals[0] - 1.0).abs() < EPS);
    }
}

#[test]
fn softmax_large_values() {
    for isa in ALL {
        let vals = softmax(isa, &[1000.0, 1001.0, 1002.0]);
        let sum: f32 = vals.iter().sum();
        assert!((sum - 1.0).abs() < EPS, "softmax sum with large vals={sum}");
    }
}

#[test]
fn rms_norm_basic() {
    let input = vec![1.0, 2.0, 3.0, 4.0];
    let weight = vec![1.0; 4];
    let rms = (30.0f32 / 4.0).sqrt();
    for isa in ALL {
        let output = rms_norm(isa, &input, &weight, 1e-6);
        for i in 0..4 {
            let expected = input[i] / rms;
            assert!((output[i] - expected).abs() < 1e-4, "rms_norm [{i}]: {} vs {expected}", output[i]);
        }
    }
}

#[test]
fn rms_norm_matches_scalar() {
    let input: Vec<f32> = (0..17).map(|i| (i as f32 - 8.0) * 0.3).collect();
    let weight: Vec<f32> = (0..17).map(|i| 0.5 + i as f32 * 0.1).collect();
    let scalar_out = rms_norm(Isa::Scalar, &input, &weight, 1e-5);
    for isa in ALL {
        assert_close(&rms_norm(isa, &input, &weight, 1e-5), &scalar_out, 1e-4, "rms_norm");
    }
}

#[test]
fn silu_basic() {
    for isa in ALL {
        let output = silu(isa, &[0.0, 1.0, -1.0, 2.0]);
        assert!((output[0]).abs() < EPS);
        assert!((output[1] - 0.7311).abs() < 0.001);
    }
}

#[test]
fn silu_matches_scalar() {
    let input: Vec<f32> = (0..19).map(|i| (i as f32 - 9.0) * 0.5).collect();
    let scalar_out = silu(Isa::Scalar, &input);
    for isa in ALL {
        assert_close(&silu(isa, &input), &scalar_out, 1e-4, "silu");
    }
}

#[test]
fn swiglu_basic() {
    for isa in ALL {
        let output = swiglu(isa, &[1.0, 0.0, -1.0], &[2.0, 3.0, 4.0]);
        assert!((output[0] - silu_one(1.0) * 2.0).abs() < EPS);
        assert!((output[1]).abs() < EPS);
        assert!((output[2] - silu_one(-1.0) * 4.0).abs() < EPS);
    }
}

#[test]
fn swiglu_matches_scalar() {
    let gate: Vec<f32> = (0..20).map(|i| (i as f32 - 10.0) * 0.3).collect();
    let up: Vec<f32> = (0..20).map(|i| 1.0 + i as f32 * 0.1).collect();
    let scalar_out = swiglu(Isa::Scalar, &gate, &up);
    for isa in ALL {
        assert_close(&swiglu(isa, &gate, &up), &scalar_out, 1e-4, "swiglu");
    }
}

#[test]
fn rope_identity_at_zero_angle() {
    let input = vec![1.0, 2.0, 3.0, 4.0];
    for isa in ALL {
        let output = rope(isa, &input, &[1.0, 1.0], &[0.0, 0.0]);
        assert_close(&output, &input, EPS, "rope identity");
    }
}

#[test]
fn rope_preserves_norm() {
    let input = vec![1.0, 0.0, 0.5, -0.5, 0.0, 1.0, -0.5, 0.5];
    let half = input.len() / 2;
    let cos_t: Vec<f32> = (0..half).map(|i| (i as f32 * 0.3).cos()).collect();
    let sin_t: Vec<f32> = (0..half).map(|i| (i as f32 * 0.3).sin()).collect();
    for isa in ALL {
        let output = rope(isa, &input, &cos_t, &sin_t);
        let in_norm: f32 = input.iter().map(|x| x * x).sum::<f32>().sqrt();
        let out_norm: f32 = output.iter().map(|x| x * x).sum::<f32>().sqrt();
        assert!((in_norm - out_norm).abs() < 1e-4, "rope norm: {in_norm} vs {out_norm}");
    }
}

#[test]
fn negated_sines_undo_the_rotation() {
    let input: Vec<f32> = (0..22).map(|i| (i as f32 - 8.0) * 0.1).collect();
    let cos_t: Vec<f32> = (0..11).map(|i| (i as f32 * 0.7).cos()).collect();
    let sin_t: Vec<f32> = (0..11).map(|i| (i as f32 * 0.7).sin()).collect();
    let back: Vec<f32> = sin_t.iter().map(|s| -s).collect();
    for isa in ALL {
        let there = rope(isa, &input, &cos_t, &sin_t);
        assert_close(&rope(isa, &there, &cos_t, &back), &input, 1e-4, "rope undone");
    }
}

#[test]
fn rope_matches_scalar() {
    let input: Vec<f32> = (0..16).map(|i| (i as f32 - 8.0) * 0.2).collect();
    let half = 8;
    let cos_t: Vec<f32> = (0..half).map(|i| (i as f32 * 0.5).cos()).collect();
    let sin_t: Vec<f32> = (0..half).map(|i| (i as f32 * 0.5).sin()).collect();
    let scalar_out = rope(Isa::Scalar, &input, &cos_t, &sin_t);
    for isa in ALL {
        assert_close(&rope(isa, &input, &cos_t, &sin_t), &scalar_out, 1e-4, "rope");
    }
}

#[test]
fn softmax_all_same() {
    for isa in ALL {
        for v in softmax(isa, &[1.0; 8]) {
            assert!((v - 0.125).abs() < EPS);
        }
    }
}

#[test]
fn rms_norm_zero_input() {
    for isa in ALL {
        for v in rms_norm(isa, &[0.0; 4], &[1.0; 4], 1e-6) {
            assert!(v.abs() < 1e-2, "rms_norm zero input gave {v}");
        }
    }
}

#[test]
fn silu_negative_large() {
    for isa in ALL {
        for v in silu(isa, &[-100.0; 4]) {
            assert!(v.abs() < 1e-3, "silu(-100) = {v}");
        }
    }
}

#[test]
fn swiglu_odd_length() {
    let gate = vec![1.0, 2.0, 3.0, 4.0, 5.0];
    let up = vec![1.0; 5];
    let scalar_out = swiglu(Isa::Scalar, &gate, &up);
    for isa in ALL {
        assert_close(&swiglu(isa, &gate, &up), &scalar_out, 1e-4, "swiglu odd");
    }
}

#[test]
fn rope_small_dim() {
    for isa in ALL {
        let output = rope(isa, &[1.0, 2.0], &[0.5], &[0.866]);
        let expected_0 = 1.0 * 0.5 - 2.0 * 0.866;
        let expected_1 = 1.0 * 0.866 + 2.0 * 0.5;
        assert!((output[0] - expected_0).abs() < 1e-3);
        assert!((output[1] - expected_1).abs() < 1e-3);
    }
}

#[test]
fn instruction_set_is_selected() {
    assert_eq!(Isa::select(true, false, false), Isa::Neon);
    assert_eq!(Isa::select(false, true, true), Isa::Avx2);
    assert_eq!(Isa::select(false, true, false), Isa::Scalar);
    assert_eq!(Isa::select(false, false, true), Isa::Scalar);
}

#[test]
fn softmax_of_two_equal_numbers_is_a_half_each() {
    for isa in ALL {
        assert_eq!(softmax(isa, &[3.0, 3.0]), vec![0.5, 0.5]);
    }
}

#[test]
fn elements_past_the_input_stay() {
    let mut out = bits(&[9.0; 6]);
    silu_simd(&Native, Isa::Avx2, &bits(&[0.0; 3]), &mut out);
    assert_eq!(floats(&out), vec![0.0, 0.0, 0.0, 9.0, 9.0, 9.0]);
}

#[test]
fn odd_head_keeps_its_last_element() {
    let mut out = bits(&[7.0; 3]);
    rope_apply_simd(
        &Native,
        Isa::Scalar,
        &bits(&[1.0, 2.0, 3.0]),
        &mut out,
        &bits(&[0.0]),
        &bits(&[1.0]),
    );
    assert_eq!(floats(&out), vec![-2.0, 1.0, 7.0]);
}

#[test]
fn attention_scale_of_sixty_four_is_an_eighth() {
    assert_eq!(f32::from_bits(attention_scale(&Native, 64)), 0.125);
}

//! Quantised weight blocks and the numbers that they stand for.
//!
//! Single-precision numbers are held as their bits.

use vstd::arithmetic::power2;
use vstd::prelude::*;

verus! {

/// Weights per 1-bit block.
pub const QK1_0_G128: usize = 128;

/// Weights per ternary block.
pub const QK_TQ2_0_G128: usize = 128;

/// Weights per 8-bit float block.
pub const QK_FP8: usize = 32;

/// A block of 128 one-bit weights: each is the scale or its negative.
#[derive(Debug, Clone, Copy, PartialEq, Eq)]
pub struct BlockQ1_0G128 {
    /// Half-precision scale, as bits.
    pub d: u16,
    /// Signs, one bit each; a set bit is positive.
    pub qs: [u8; 16],
}

/// A block of 128 ternary weights: each is the scale, zero or the scale's
/// negative.
#[derive(Debug, Clone, Copy, PartialEq, Eq)]
#[allow(non_camel_case_types)]
pub struct BlockTQ2_0_g128 {
    /// Codes, two bits each.
    pub qs: [u8; 32],
    /// Half-precision scale, as bits.
    pub d: u16,
}

/// Position of the highest set bit.
pub open spec fn top_bit(m: nat) -> nat
    decreases m,
{
    if m < 2 {
        0
    } else {
        1 + top_bit(m / 2)
    }
}

/// Magnitude bits of the single-precision number that equals a half-precision
/// number with exponent field `e` and mantissa field `m`. A NaN keeps its
/// payload and becomes quiet.
pub open spec fn single_magnitude(e: nat, m: nat) -> nat {
    if e == 31 {
        if m == 0 {
            0x7f80_0000
        } else if m < 512 {
            0x7f80_0000 + (m + 512) * 8192
        } else {
            0x7f80_0000 + m * 8192
        }
    } else if e > 0 {
        (e + 112) * 8388608 + m * 8192
    } else if m == 0 {
        0
    } else {
        let p = top_bit(m);
        (p + 103) * 8388608 + ((m - power2::pow2(p)) * power2::pow2((23 - p) as nat)) as nat
    }
}

/// The single-precision number, as bits, that equals a half-precision number,
/// given as bits.
pub open spec fn half_to_single(bits: u16) -> u32 {
    (bits as nat / 32768 * 0x8000_0000 + single_magnitude(
        bits as nat / 1024 % 32,
        bits as nat % 1024,
    )) as u32
}

/// Magnitude of a finite half-precision number, in units of `2^-24`.
pub open spec fn half_value(bits: u16) -> nat {
    let e = bits as nat / 1024 % 32;
    let m = bits as nat % 1024;
    if e == 0 {
        m
    } else {
        (1024 + m) * power2::pow2((e - 1) as nat)
    }
}

/// Magnitude of a finite single-precision number, in units of `2^-149`.
pub open spec fn single_value(bits: u32) -> nat {
    let e = bits as nat / 8388608 % 256;
    let m = bits as nat % 8388608;
    if e == 0 {
        m
    } else {
        (8388608 + m) * power2::pow2((e - 1) as nat)
    }
}

/// The top bit of a positive number is its largest power of two.
proof fn lemma_top_bit(m: nat)
    requires
        m > 0,
    ensures
        power2::pow2(top_bit(m)) <= m < 2 * power2::pow2(top_bit(m)),
    decreases m,
{
    power2::lemma2_to64();
    if m >= 2 {
        lemma_top_bit(m / 2);
        power2::lemma_pow2_unfold(top_bit(m));
    }
}

/// A ten-bit mantissa's top bit is one of ten, and shifting it there yields
/// twenty-three bits below the leading one.
proof fn lemma_subnormal(m: nat)
    requires
        0 < m < 1024,
    ensures
        top_bit(m) < 10,
        power2::pow2(top_bit(m)) <= m,
        (m - power2::pow2(top_bit(m))) * power2::pow2((23 - top_bit(m)) as nat) < 8388608,
        8388608 + (m - power2::pow2(top_bit(m))) * power2::pow2((23 - top_bit(m)) as nat) == m * power2::pow2(
            (23 - top_bit(m)) as nat,
        ),
{
    let p = top_bit(m);
    lemma_top_bit(m);
    power2::lemma2_to64();
    if p >= 10 {
        if p > 10 {
            power2::lemma_pow2_strictly_increases(10, p);
        }
    }
    let q = (23 - p) as nat;
    power2::lemma_pow2_adds(p, q);
    let (a, b) = (power2::pow2(p) as int, power2::pow2(q) as int);
    power2::lemma_pow2_pos(q);
    let mi = m as int;
    assert((mi - a) * b == mi * b - a * b) by (nonlinear_arith);
    assert((mi - a) * b < a * b) by (nonlinear_arith)
        requires
            mi - a < a,
            b > 0,
    ;
}

/// Converts a half-precision number to the single-precision number that
/// equals it, both as bits.
pub fn half_bits_to_single(bits: u16) -> (r: u32)
    ensures
        r == half_to_single(bits),
{
    let sign: u32 = (bits / 32768) as u32;
    let e: u32 = (bits / 1024 % 32) as u32;
    let m: u32 = (bits % 1024) as u32;
    let magnitude: u32 = if e == 31 {
        if m == 0 {
            0x7f80_0000
        } else if m < 512 {
            0x7f80_0000 + (m + 512) * 8192
        } else {
            0x7f80_0000 + m * 8192
        }
    } else if e > 0 {
        (e + 112) * 8388608 + m * 8192
    } else if m == 0 {
        0
    } else {
        let mut p: u32 = 0;
        let mut x: u32 = m;
        let mut power: u32 = 1;
        let mut rest: u32 = 8388608;
        proof {
            power2::lemma2_to64();
            lemma_subnormal(m as nat);
        }
        while x >= 2
            invariant
                0 < m < 1024,
                0 < x <= m,
                p <= 9,
                p + top_bit(x as nat) == top_bit(m as nat),
                top_bit(m as nat) < 10,
                power == power2::pow2(p as nat),
                rest == power2::pow2((23 - p) as nat),
                power <= 512,
            decreases x,
        {
            proof {
                power2::lemma_pow2_unfold((p + 1) as nat);
                power2::lemma_pow2_unfold((23 - p) as nat);
                if p + 1 < 9 {
                    power2::lemma_pow2_strictly_increases((p + 1) as nat, 9);
                }
                power2::lemma2_to64();
            }
            x = x / 2;
            p = p + 1;
            power = power * 2;
            rest = rest / 2;
        }
        proof {
            lemma_subnormal(m as nat);
        }
        (p + 103) * 8388608 + (m - power) * rest
    };
    sign * 0x8000_0000 + magnitude
}

/// Conversion is lossless: the single-precision number has the sign and the
/// exact value of a finite half-precision number.
pub proof fn law_half_conversion_is_lossless(bits: u16)
    requires
        bits as nat / 1024 % 32 < 31,
    ensures
        half_to_single(bits) as nat / 0x8000_0000 == bits as nat / 32768,
        half_to_single(bits) as nat / 8388608 % 256 < 255,
        single_value(half_to_single(bits)) == half_value(bits) * power2::pow2(125),
{
    let e = bits as nat / 1024 % 32;
    let m = bits as nat % 1024;
    let r = half_to_single(bits);
    power2::lemma2_to64();
    if e > 0 {
        let k = (e + 111) as nat;
        assert(single_value(r) == (8388608 + m * 8192) * power2::pow2(k));
        power2::lemma_pow2_adds((e - 1) as nat, 125);
        power2::lemma_pow2_adds(13, k);
        let (a, b, c, d) = (power2::pow2((e - 1) as nat) as int, power2::pow2(125) as int, power2::pow2(13) as int, power2::pow2(k) as int);
        let n = (1024 + m) as int;
        assert((n * c) * d == n * (c * d) && (n * a) * b == n * (a * b)) by (nonlinear_arith);
    } else if m > 0 {
        let p = top_bit(m);
        lemma_subnormal(m);
        let q = (23 - p) as nat;
        let k = (p + 102) as nat;
        assert(single_value(r) == (m * power2::pow2(q)) * power2::pow2(k));
        power2::lemma_pow2_adds(q, k);
        let (a, b) = (power2::pow2(q) as int, power2::pow2(k) as int);
        let n = m as int;
        assert((n * a) * b == n * (a * b)) by (nonlinear_arith);
    } else {
        let b = power2::pow2(125);
        assert(m * b == 0) by (nonlinear_arith)
            requires
                m == 0,
        ;
    }
}

/// The bits of a single-precision sign.
pub const SIGN_BIT: u32 = 0x8000_0000;

/// The bits of single-precision infinity: all exponent bits.
pub const EXPONENT_BITS: u32 = 0x7f80_0000;

/// A single-precision quiet NaN.
pub const NAN_BITS: u32 = 0x7fc0_0000;

/// A number times minus one.
pub open spec fn negated(x: u32) -> u32 {
    x ^ SIGN_BIT
}

/// A number times zero: a zero of the number's sign, or NaN where the number
/// is not finite.
pub open spec fn times_zero(x: u32) -> u32 {
    if x & EXPONENT_BITS == EXPONENT_BITS {
        NAN_BITS
    } else {
        x & SIGN_BIT
    }
}

/// A number times minus one, zero or one.
pub open spec fn times_trit(x: u32, t: int) -> u32 {
    if t < 0 {
        negated(x)
    } else if t == 0 {
        times_zero(x)
    } else {
        x
    }
}

/// Bit `j` of packed signs, lowest bit first.
pub open spec fn sign_bit(qs: Seq<u8>, j: int) -> bool {
    (qs[j / 8] >> ((j % 8) as u8)) & 1 == 1
}

/// Code `j` of packed two-bit codes, lowest bits first.
pub open spec fn code(qs: Seq<u8>, j: int) -> u8 {
    (qs[j / 4] >> ((2 * (j % 4)) as u8)) & 3
}

/// The ternary digit of a code: `(code >> 1) - (1 - min(code, 1))`.
pub open spec fn code_trit(c: u8) -> int {
    if c == 0 {
        -1
    } else if c == 1 {
        0
    } else {
        1
    }
}

/// The ternary digit of a code, with the reserved code read as zero.
pub open spec fn code_trit_reserved(c: u8) -> int {
    if c == 3 {
        0
    } else {
        code_trit(c)
    }
}

impl BlockQ1_0G128 {
    /// Weight `j` of the block.
    pub open spec fn weight(self, j: int) -> u32 {
        if sign_bit(self.qs@, j) {
            half_to_single(self.d)
        } else {
            negated(half_to_single(self.d))
        }
    }
}

impl BlockTQ2_0_g128 {
    /// Weight `j` of the block.
    pub open spec fn weight(self, j: int) -> u32 {
        times_trit(half_to_single(self.d), code_trit(code(self.qs@, j)))
    }
}

/// Whether sign `j` of packed signs is positive.
pub fn is_positive(qs: &[u8], j: usize) -> (r: bool)
    requires
        j / 8 < qs@.len(),
    ensures
        r == sign_bit(qs@, j as int),
{
    let shift: u8 = (j % 8) as u8;
    (qs[j / 8] >> shift) & 1 == 1
}

/// Code `j` of packed two-bit codes.
pub fn code_at(qs: &[u8], j: usize) -> (c: u8)
    requires
        j / 4 < qs@.len(),
    ensures
        c == code(qs@, j as int),
        c < 4,
{
    let shift: u8 = (2 * (j % 4)) as u8;
    let b: u8 = qs[j / 4];
    assert((b >> shift) & 3 < 4) by (bit_vector);
    (b >> shift) & 3
}

/// The ternary digit of a code.
pub fn trit_of(c: u8) -> (t: i8)
    ensures
        t == code_trit(c),
{
    if c == 0 {
        -1
    } else if c == 1 {
        0
    } else {
        1
    }
}

/// The ternary digit of a code, with the reserved code read as zero.
pub fn trit_of_reserved(c: u8) -> (t: i8)
    ensures
        t == code_trit_reserved(c),
{
    if c == 3 {
        0
    } else {
        trit_of(c)
    }
}

/// A number, as bits, times minus one, zero or one.
pub fn mul_trit(x: u32, t: i8) -> (r: u32)
    ensures
        r == times_trit(x, t as int),
{
    if t < 0 {
        x ^ SIGN_BIT
    } else if t == 0 {
        if x & EXPONENT_BITS == EXPONENT_BITS {
            NAN_BITS
        } else {
            x & SIGN_BIT
        }
    } else {
        x
    }
}

/// Negating twice gives the number back, and negation flips the sign bit and
/// nothing else.
pub proof fn law_negation_is_involutive(x: u32)
    ensures
        negated(negated(x)) == x,
        negated(x) & 0x7fff_ffff == x & 0x7fff_ffff,
        negated(x) != x,
{
    assert((x ^ 0x8000_0000) ^ 0x8000_0000 == x && (x ^ 0x8000_0000) & 0x7fff_ffff == x
        & 0x7fff_ffff && x ^ 0x8000_0000 != x) by (bit_vector);
}

} // verus!

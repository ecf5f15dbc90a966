//! Float operations of transformer inference: softmax, RMS normalisation, SiLU,
//! SwiGLU and rotary embeddings.
//!
//! Numbers are held as their bits and an [`Arith`] says what arithmetic makes
//! of them. The instruction sets differ in how many lanes they take at a time
//! and in which operations they use; each result fixes every operation and its
//! order.

use vstd::prelude::*;

use crate::arith;
use crate::arith::{
    do_difference, do_exponential, do_fused, do_greater, do_larger, do_of_count, do_product,
    do_quotient, do_reciprocal_estimate, do_reciprocal_step, do_square_root, do_sum,
    do_vector_larger, hsum_avx2, Arith, NEG_INFINITY_BITS, ONE_BITS,
};
use crate::blocks;
use crate::blocks::SIGN_BIT;

verus! {

/// Instruction set that an operation is carried out with.
#[derive(Debug, Clone, Copy, PartialEq, Eq, Structural)]
pub enum Isa {
    /// ARM, four lanes.
    Neon,
    /// x86, eight lanes with fused multiply-add.
    Avx2,
    /// One number at a time.
    Scalar,
}

impl Isa {
    /// Lanes that are taken at a time; zero where there are none.
    pub open spec fn lanes(self) -> int {
        match self {
            Isa::Neon => 4,
            Isa::Avx2 => 8,
            Isa::Scalar => 0,
        }
    }

    /// How many of `n` elements are taken in lanes; the others follow one by
    /// one.
    pub open spec fn vectorised(self, n: int) -> int {
        match self {
            Isa::Neon => n / 4 * 4,
            Isa::Avx2 => n / 8 * 8,
            Isa::Scalar => 0,
        }
    }

    /// Number of elements that are taken in lanes.
    fn vectorised_len(self, n: usize) -> (m: usize)
        ensures
            m == self.vectorised(n as int),
            m <= n,
    {
        match self {
            Isa::Neon => n / 4 * 4,
            Isa::Avx2 => n / 8 * 8,
            Isa::Scalar => 0,
        }
    }

    /// The instruction set that runs on a machine: NEON where it is ARM, AVX2
    /// where an x86 machine has it with fused multiply-add.
    pub fn select(is_aarch64: bool, has_avx2: bool, has_fma: bool) -> (isa: Self)
        ensures
            isa == (if is_aarch64 {
                Isa::Neon
            } else if has_avx2 && has_fma {
                Isa::Avx2
            } else {
                Isa::Scalar
            }),
    {
        if is_aarch64 {
            Isa::Neon
        } else if has_avx2 && has_fma {
            Isa::Avx2
        } else {
            Isa::Scalar
        }
    }
}

fn negate(x: u32) -> (r: u32)
    ensures
        r == blocks::negated(x),
{
    x ^ SIGN_BIT
}

// SiLU and SwiGLU.
/// `x / (1 + exp(-x))` of one number on its own.
pub open spec fn silu_scalar_of<T: Arith>(t: &T, x: u32) -> u32 {
    arith::quotient(t, x, arith::sum(t, ONE_BITS, arith::exponential(t, blocks::negated(x))))
}

/// `x / (1 + exp(-x))` in a lane: ARM refines a reciprocal estimate twice, x86
/// divides.
pub open spec fn silu_lane_of<T: Arith>(t: &T, isa: Isa, x: u32) -> u32 {
    match isa {
        Isa::Neon => {
            let d = arith::sum(t, ONE_BITS, arith::exponential(t, blocks::negated(x)));
            let r0 = arith::reciprocal_estimate(t, d);
            let r1 = arith::product(t, arith::reciprocal_step(t, d, r0), r0);
            let r2 = arith::product(t, arith::reciprocal_step(t, d, r1), r1);
            arith::product(t, x, r2)
        },
        _ => {
            let d = arith::sum(t, ONE_BITS, arith::exponential(t, arith::difference(t, 0, x)));
            arith::product(t, x, arith::quotient(t, ONE_BITS, d))
        },
    }
}

/// SiLU of element `i` of `n`.
pub open spec fn silu_at<T: Arith>(t: &T, isa: Isa, n: int, i: int, x: u32) -> u32 {
    if i < isa.vectorised(n) {
        silu_lane_of(t, isa, x)
    } else {
        silu_scalar_of(t, x)
    }
}

/// `x / (1 + exp(-x))`.
pub fn silu_scalar_elem<T: Arith>(t: &T, x: u32) -> (r: u32)
    requires
        arith::deterministic(t),
    ensures
        r == silu_scalar_of(t, x),
{
    let e: u32 = do_exponential(t, negate(x));
    let d: u32 = do_sum(t, ONE_BITS, e);
    do_quotient(t, x, d)
}

fn silu_lane<T: Arith>(t: &T, isa: Isa, x: u32) -> (r: u32)
    requires
        arith::deterministic(t),
    ensures
        r == silu_lane_of(t, isa, x),
{
    match isa {
        Isa::Neon => {
            let e: u32 = do_exponential(t, negate(x));
            let d: u32 = do_sum(t, ONE_BITS, e);
            let r0: u32 = do_reciprocal_estimate(t, d);
            let s0: u32 = do_reciprocal_step(t, d, r0);
            let r1: u32 = do_product(t, s0, r0);
            let s1: u32 = do_reciprocal_step(t, d, r1);
            let r2: u32 = do_product(t, s1, r1);
            do_product(t, x, r2)
        },
        _ => {
            let minus: u32 = do_difference(t, 0, x);
            let e: u32 = do_exponential(t, minus);
            let d: u32 = do_sum(t, ONE_BITS, e);
            let q: u32 = do_quotient(t, ONE_BITS, d);
            do_product(t, x, q)
        },
    }
}

/// Output of SiLU: elements past the input stay as they are.
pub open spec fn silu_output<T: Arith>(
    t: &T,
    isa: Isa,
    input: Seq<u32>,
    before: Seq<u32>,
) -> Seq<u32> {
    Seq::new(
        before.len(),
        |i: int|
            if i < input.len() {
                silu_at(t, isa, input.len() as int, i, input[i])
            } else {
                before[i]
            },
    )
}

/// Element-wise SiLU. Elements of the output past the input stay as they are.
pub fn silu_simd<T: Arith>(t: &T, isa: Isa, input: &[u32], output: &mut [u32])
    requires
        arith::deterministic(t),
        input@.len() <= old(output)@.len(),
    ensures
        final(output)@ == silu_output(t, isa, input@, old(output)@),
{
    let ghost before = output@;
    let n: usize = input.len();
    let m: usize = isa.vectorised_len(n);
    let mut i: usize = 0;
    while i < n
        invariant
            arith::deterministic(t),
            n == input@.len(),
            m == isa.vectorised(n as int),
            n <= before.len(),
            output@.len() == before.len(),
            i <= n,
            forall|q: int|
                0 <= q < before.len() ==> #[trigger] output@[q] == (if q < i {
                    silu_at(t, isa, n as int, q, input@[q])
                } else {
                    before[q]
                }),
        decreases n - i,
    {
        let r: u32 = if i < m {
            silu_lane(t, isa, input[i])
        } else {
            silu_scalar_elem(t, input[i])
        };
        output[i] = r;
        i += 1;
    }
    assert(output@ =~= silu_output(t, isa, input@, before));
}

/// SwiGLU of element `i` of `n`.
pub open spec fn swiglu_at<T: Arith>(
    t: &T,
    isa: Isa,
    n: int,
    i: int,
    gate: u32,
    up: u32,
) -> u32 {
    arith::product(t, silu_at(t, isa, n, i, gate), up)
}

/// Output of SwiGLU: elements past the operands stay as they are.
pub open spec fn swiglu_output<T: Arith>(
    t: &T,
    isa: Isa,
    gate: Seq<u32>,
    up: Seq<u32>,
    before: Seq<u32>,
) -> Seq<u32> {
    Seq::new(
        before.len(),
        |i: int|
            if i < gate.len() {
                swiglu_at(t, isa, gate.len() as int, i, gate[i], up[i])
            } else {
                before[i]
            },
    )
}

/// SwiGLU: SiLU of the first operand times the second, element by element.
pub fn swiglu_simd<T: Arith>(t: &T, isa: Isa, gate: &[u32], up: &[u32], output: &mut [u32])
    requires
        arith::deterministic(t),
        gate@.len() == up@.len(),
        gate@.len() <= old(output)@.len(),
    ensures
        final(output)@ == swiglu_output(t, isa, gate@, up@, old(output)@),
{
    let ghost before = output@;
    let n: usize = gate.len();
    let m: usize = isa.vectorised_len(n);
    let mut i: usize = 0;
    while i < n
        invariant
            arith::deterministic(t),
            n == gate@.len(),
            n == up@.len(),
            m == isa.vectorised(n as int),
            n <= before.len(),
            output@.len() == before.len(),
            i <= n,
            forall|q: int|
                0 <= q < before.len() ==> #[trigger] output@[q] == (if q < i {
                    arith::product(t, silu_at(t, isa, n as int, q, gate@[q]), up@[q])
                } else {
                    before[q]
                }),
        decreases n - i,
    {
        let s: u32 = if i < m {
            silu_lane(t, isa, gate[i])
        } else {
            silu_scalar_elem(t, gate[i])
        };
        let r: u32 = do_product(t, s, up[i]);
        output[i] = r;
        i += 1;
    }
    assert(output@ =~= swiglu_output(t, isa, gate@, up@, before));
}

// Rotary embeddings.
/// First rotated number of a pair.
pub open spec fn rope_low<T: Arith>(
    t: &T,
    isa: Isa,
    in_lane: bool,
    x0: u32,
    x1: u32,
    c: u32,
    s: u32,
) -> u32 {
    if in_lane && isa is Avx2 {
        arith::fused(t, blocks::negated(x1), s, arith::product(t, x0, c))
    } else {
        arith::difference(t, arith::product(t, x0, c), arith::product(t, x1, s))
    }
}

/// Second rotated number of a pair.
pub open spec fn rope_high<T: Arith>(
    t: &T,
    isa: Isa,
    in_lane: bool,
    x0: u32,
    x1: u32,
    c: u32,
    s: u32,
) -> u32 {
    if in_lane && isa is Avx2 {
        arith::fused(t, x0, s, arith::product(t, x1, c))
    } else if in_lane && isa is Neon {
        arith::sum(t, arith::product(t, x1, c), arith::product(t, x0, s))
    } else {
        arith::sum(t, arith::product(t, x0, s), arith::product(t, x1, c))
    }
}

/// Output of a rotation: the halves of the input are the two numbers of each
/// pair.
pub open spec fn rotated<T: Arith>(
    t: &T,
    isa: Isa,
    input: Seq<u32>,
    cos: Seq<u32>,
    sin: Seq<u32>,
    before: Seq<u32>,
) -> Seq<u32> {
    let half = (input.len() / 2) as int;
    Seq::new(
        before.len(),
        |p: int|
            if p < half {
                rope_low(
                    t,
                    isa,
                    p < isa.vectorised(half),
                    input[p],
                    input[half + p],
                    cos[p],
                    sin[p],
                )
            } else if p < 2 * half {
                let i = p - half;
                rope_high(
                    t,
                    isa,
                    i < isa.vectorised(half),
                    input[i],
                    input[half + i],
                    cos[i],
                    sin[i],
                )
            } else {
                before[p]
            },
    )
}

/// Rotates the pairs of a head's vector by angles with the given cosines and
/// sines.
pub fn rope_apply_simd<T: Arith>(
    t: &T,
    isa: Isa,
    input: &[u32],
    output: &mut [u32],
    cos_table: &[u32],
    sin_table: &[u32],
)
    requires
        arith::deterministic(t),
        cos_table@.len() == input@.len() / 2,
        sin_table@.len() == input@.len() / 2,
        input@.len() <= old(output)@.len(),
    ensures
        final(output)@ == rotated(t, isa, input@, cos_table@, sin_table@, old(output)@),
{
    let ghost before = output@;
    let half: usize = input.len() / 2;
    let m: usize = isa.vectorised_len(half);
    let ghost goal = rotated(t, isa, input@, cos_table@, sin_table@, before);
    let mut i: usize = 0;
    while i < half
        invariant
            arith::deterministic(t),
            half == input@.len() / 2,
            half == cos_table@.len(),
            half == sin_table@.len(),
            2 * half <= input@.len() <= usize::MAX,
            2 * half <= before.len(),
            m == isa.vectorised(half as int),
            goal == rotated(t, isa, input@, cos_table@, sin_table@, before),
            output@.len() == before.len(),
            i <= half,
            forall|q: int|
                0 <= q < before.len() ==> #[trigger] output@[q] == (if q < i || half <= q < half
                    + i {
                    goal[q]
                } else {
                    before[q]
                }),
        decreases half - i,
    {
        let x0: u32 = input[i];
        let x1: u32 = input[half + i];
        let c: u32 = cos_table[i];
        let s: u32 = sin_table[i];
        let x0c: u32 = do_product(t, x0, c);
        let x1c: u32 = do_product(t, x1, c);
        let low: u32;
        let high: u32;
        if i < m && isa == Isa::Avx2 {
            low = do_fused(t, negate(x1), s, x0c);
            high = do_fused(t, x0, s, x1c);
        } else {
            let x1s: u32 = do_product(t, x1, s);
            let x0s: u32 = do_product(t, x0, s);
            low = do_difference(t, x0c, x1s);
            high = if i < m && isa == Isa::Neon {
                do_sum(t, x1c, x0s)
            } else {
                do_sum(t, x0s, x1c)
            };
        }
        output[i] = low;
        output[half + i] = high;
        i += 1;
    }
    assert(output@ =~= goal);
}

/// Sum of four lanes: neighbours, then the two halves.
pub open spec fn sum4<T: Arith>(t: &T, v: Seq<u32>) -> u32 {
    arith::sum(t, arith::sum(t, v[0], v[1]), arith::sum(t, v[2], v[3]))
}

/// Lane `l` after `n` rounds of `w` elements: each square is added with one
/// rounding.
pub open spec fn lane_squares<T: Arith>(t: &T, xs: Seq<u32>, w: int, l: int, n: nat) -> u32
    decreases n,
{
    if n == 0 {
        0
    } else {
        let x = xs[(n - 1) * w + l];
        let acc = lane_squares(t, xs, w, l, (n - 1) as nat);
        arith::fused(t, x, x, acc)
    }
}

/// `start` and then the elements from `from` to `to`: each is squared, rounded and
/// added.
pub open spec fn tail_squares<T: Arith>(t: &T, xs: Seq<u32>, start: u32, from: int, to: int) -> u32
    decreases to - from,
{
    if to <= from {
        start
    } else {
        let x = xs[to - 1];
        let acc = tail_squares(t, xs, start, from, to - 1);
        arith::sum(t, acc, arith::product(t, x, x))
    }
}

fn lane_of_squares<T: Arith>(t: &T, xs: &[u32], w: usize, l: usize) -> (r: u32)
    requires
        arith::deterministic(t),
        w == 4 || w == 8,
        l < w,
    ensures
        r == lane_squares(t, xs@, w as int, l as int, (xs@.len() / w as nat) as nat),
{
    let n: usize = xs.len();
    let rounds: usize = n / w;
    let mut acc: u32 = 0;
    let mut i: usize = 0;
    while i < rounds
        invariant
            arith::deterministic(t),
            n == xs@.len(),
            w == 4 || w == 8,
            rounds == n / w,
            l < w,
            i <= rounds,
            acc == lane_squares(t, xs@, w as int, l as int, i as nat),
        decreases rounds - i,
    {
        assert(i * w + l < n) by {
            if w == 4 {
                assert(i * w == 4 * i);
            } else {
                assert(i * w == 8 * i);
            }
        }
        let x: u32 = xs[i * w + l];
        acc = do_fused(t, x, x, acc);
        i += 1;
    }
    acc
}

fn tail_of_squares<T: Arith>(t: &T, xs: &[u32], start: u32, from: usize) -> (r: u32)
    requires
        arith::deterministic(t),
        from <= xs@.len(),
    ensures
        r == tail_squares(t, xs@, start, from as int, xs@.len() as int),
{
    let n: usize = xs.len();
    let mut acc: u32 = start;
    let mut i: usize = from;
    while i < n
        invariant
            arith::deterministic(t),
            n == xs@.len(),
            from <= i <= n,
            acc == tail_squares(t, xs@, start, from as int, i as int),
        decreases n - i,
    {
        let x: u32 = xs[i];
        let sq: u32 = do_product(t, x, x);
        acc = do_sum(t, acc, sq);
        i += 1;
    }
    acc
}

/// Lane `l` after `n` rounds of `w` elements: the elements are added.
pub open spec fn lane_sums<T: Arith>(t: &T, xs: Seq<u32>, w: int, l: int, n: nat) -> u32
    decreases n,
{
    if n == 0 {
        0
    } else {
        let x = xs[(n - 1) * w + l];
        let acc = lane_sums(t, xs, w, l, (n - 1) as nat);
        arith::sum(t, acc, x)
    }
}

/// `acc` and then the elements from `from` to `to`: the elements are added.
pub open spec fn tail_sums<T: Arith>(t: &T, xs: Seq<u32>, start: u32, from: int, to: int) -> u32
    decreases to - from,
{
    if to <= from {
        start
    } else {
        let x = xs[to - 1];
        let acc = tail_sums(t, xs, start, from, to - 1);
        arith::sum(t, acc, x)
    }
}

fn lane_of_sums<T: Arith>(t: &T, xs: &[u32], w: usize, l: usize) -> (r: u32)
    requires
        arith::deterministic(t),
        w == 4 || w == 8,
        l < w,
    ensures
        r == lane_sums(t, xs@, w as int, l as int, (xs@.len() / w as nat) as nat),
{
    let n: usize = xs.len();
    let rounds: usize = n / w;
    let mut acc: u32 = 0;
    let mut i: usize = 0;
    while i < rounds
        invariant
            arith::deterministic(t),
            n == xs@.len(),
            w == 4 || w == 8,
            rounds == n / w,
            l < w,
            i <= rounds,
            acc == lane_sums(t, xs@, w as int, l as int, i as nat),
        decreases rounds - i,
    {
        assert(i * w + l < n) by {
            if w == 4 {
                assert(i * w == 4 * i);
            } else {
                assert(i * w == 8 * i);
            }
        }
        let x: u32 = xs[i * w + l];
        acc = do_sum(t, acc, x);
        i += 1;
    }
    acc
}

fn tail_of_sums<T: Arith>(t: &T, xs: &[u32], start: u32, from: usize) -> (r: u32)
    requires
        arith::deterministic(t),
        from <= xs@.len(),
    ensures
        r == tail_sums(t, xs@, start, from as int, xs@.len() as int),
{
    let n: usize = xs.len();
    let mut acc: u32 = start;
    let mut i: usize = from;
    while i < n
        invariant
            arith::deterministic(t),
            n == xs@.len(),
            from <= i <= n,
            acc == tail_sums(t, xs@, start, from as int, i as int),
        decreases n - i,
    {
        let x: u32 = xs[i];
        acc = do_sum(t, acc, x);
        i += 1;
    }
    acc
}

/// The larger of two numbers in a lane. On x86 the second where they do not
/// compare.
pub open spec fn lane_larger<T: Arith>(t: &T, isa: Isa, a: u32, b: u32) -> u32 {
    if isa is Neon {
        arith::vector_larger(t, a, b)
    } else if arith::greater(t, a, b) {
        a
    } else {
        b
    }
}

fn do_lane_larger<T: Arith>(t: &T, isa: Isa, a: u32, b: u32) -> (r: u32)
    requires
        arith::deterministic(t),
    ensures
        r == lane_larger(t, isa, a, b),
{
    if isa == Isa::Neon {
        do_vector_larger(t, a, b)
    } else if do_greater(t, a, b) {
        a
    } else {
        b
    }
}

/// Lane `l` after `n` rounds of `w` elements: the larger number stays.
pub open spec fn lane_maxima<T: Arith>(t: &T, isa: Isa, xs: Seq<u32>, w: int, l: int, n: nat) -> u32
    decreases n,
{
    if n == 0 {
        NEG_INFINITY_BITS
    } else {
        let x = xs[(n - 1) * w + l];
        let acc = lane_maxima(t, isa, xs, w, l, (n - 1) as nat);
        lane_larger(t, isa, acc, x)
    }
}

/// `acc` and then the elements from `from` to `to`: the larger number stays.
pub open spec fn tail_maxima<T: Arith>(t: &T, xs: Seq<u32>, start: u32, from: int, to: int) -> u32
    decreases to - from,
{
    if to <= from {
        start
    } else {
        let x = xs[to - 1];
        let acc = tail_maxima(t, xs, start, from, to - 1);
        if arith::greater(t, x, acc) {
            x
        } else {
            acc
        }
    }
}

fn lane_of_maxima<T: Arith>(t: &T, isa: Isa, xs: &[u32], w: usize, l: usize) -> (r: u32)
    requires
        arith::deterministic(t),
        w == 4 || w == 8,
        l < w,
    ensures
        r == lane_maxima(t, isa, xs@, w as int, l as int, (xs@.len() / w as nat) as nat),
{
    let n: usize = xs.len();
    let rounds: usize = n / w;
    let mut acc: u32 = NEG_INFINITY_BITS;
    let mut i: usize = 0;
    while i < rounds
        invariant
            arith::deterministic(t),
            n == xs@.len(),
            w == 4 || w == 8,
            rounds == n / w,
            l < w,
            i <= rounds,
            acc == lane_maxima(t, isa, xs@, w as int, l as int, i as nat),
        decreases rounds - i,
    {
        assert(i * w + l < n) by {
            if w == 4 {
                assert(i * w == 4 * i);
            } else {
                assert(i * w == 8 * i);
            }
        }
        let x: u32 = xs[i * w + l];
        acc = do_lane_larger(t, isa, acc, x);
        i += 1;
    }
    acc
}

fn tail_of_maxima<T: Arith>(t: &T, xs: &[u32], start: u32, from: usize) -> (r: u32)
    requires
        arith::deterministic(t),
        from <= xs@.len(),
    ensures
        r == tail_maxima(t, xs@, start, from as int, xs@.len() as int),
{
    let n: usize = xs.len();
    let mut acc: u32 = start;
    let mut i: usize = from;
    while i < n
        invariant
            arith::deterministic(t),
            n == xs@.len(),
            from <= i <= n,
            acc == tail_maxima(t, xs@, start, from as int, i as int),
        decreases n - i,
    {
        let x: u32 = xs[i];
        if do_greater(t, x, acc) {
            acc = x;
        }
        i += 1;
    }
    acc
}

/// Sum of squares of the elements: the lanes, their horizontal sum, then what is left.
pub open spec fn total_squares<T: Arith>(t: &T, isa: Isa, xs: Seq<u32>) -> u32 {
    let n = xs.len() as int;
    let start = match isa {
        Isa::Neon if n >= 4 => sum4(
            t,
            Seq::new(4, |l: int| lane_squares(t, xs, 4, l, (n / 4) as nat)),
        ),
        Isa::Avx2 if n >= 8 => arith::sum8(
            t,
            Seq::new(8, |l: int| lane_squares(t, xs, 8, l, (n / 8) as nat)),
        ),
        _ => 0,
    };
    tail_squares(t, xs, start, isa.vectorised(n), n)
}

fn total_of_squares<T: Arith>(t: &T, isa: Isa, xs: &[u32]) -> (r: u32)
    requires
        arith::deterministic(t),
    ensures
        r == total_squares(t, isa, xs@),
{
    let n: usize = xs.len();
    let start: u32 = if isa == Isa::Neon && n >= 4 {
        let a: u32 = lane_of_squares(t, xs, 4, 0);
        let b: u32 = lane_of_squares(t, xs, 4, 1);
        let c: u32 = lane_of_squares(t, xs, 4, 2);
        let d: u32 = lane_of_squares(t, xs, 4, 3);
        let low: u32 = do_sum(t, a, b);
        let high: u32 = do_sum(t, c, d);
        do_sum(t, low, high)
    } else if isa == Isa::Avx2 && n >= 8 {
        let mut lanes: Vec<u32> = Vec::with_capacity(8);
        let mut l: usize = 0;
        while l < 8
            invariant
                arith::deterministic(t),
                n == xs@.len(),
                l <= 8,
                lanes@ == Seq::new(
                    l as nat,
                    |q: int| lane_squares(t, xs@, 8, q, (n / 8) as nat),
                ),
            decreases 8 - l,
        {
            let v: u32 = lane_of_squares(t, xs, 8, l);
            lanes.push(v);
            l += 1;
            assert(lanes@ =~= Seq::new(
                l as nat,
                |q: int| lane_squares(t, xs@, 8, q, (n / 8) as nat),
            ));
        }
        hsum_avx2(t, lanes.as_slice())
    } else {
        0
    };
    let from: usize = isa.vectorised_len(n);
    tail_of_squares(t, xs, start, from)
}

/// Sum of the elements: the lanes, their horizontal sum, then what is left.
pub open spec fn total_sums<T: Arith>(t: &T, isa: Isa, xs: Seq<u32>) -> u32 {
    let n = xs.len() as int;
    let start = match isa {
        Isa::Neon if n >= 4 => sum4(
            t,
            Seq::new(4, |l: int| lane_sums(t, xs, 4, l, (n / 4) as nat)),
        ),
        Isa::Avx2 if n >= 8 => arith::sum8(
            t,
            Seq::new(8, |l: int| lane_sums(t, xs, 8, l, (n / 8) as nat)),
        ),
        _ => 0,
    };
    tail_sums(t, xs, start, isa.vectorised(n), n)
}

fn total_of_sums<T: Arith>(t: &T, isa: Isa, xs: &[u32]) -> (r: u32)
    requires
        arith::deterministic(t),
    ensures
        r == total_sums(t, isa, xs@),
{
    let n: usize = xs.len();
    let start: u32 = if isa == Isa::Neon && n >= 4 {
        let a: u32 = lane_of_sums(t, xs, 4, 0);
        let b: u32 = lane_of_sums(t, xs, 4, 1);
        let c: u32 = lane_of_sums(t, xs, 4, 2);
        let d: u32 = lane_of_sums(t, xs, 4, 3);
        let low: u32 = do_sum(t, a, b);
        let high: u32 = do_sum(t, c, d);
        do_sum(t, low, high)
    } else if isa == Isa::Avx2 && n >= 8 {
        let mut lanes: Vec<u32> = Vec::with_capacity(8);
        let mut l: usize = 0;
        while l < 8
            invariant
                arith::deterministic(t),
                n == xs@.len(),
                l <= 8,
                lanes@ == Seq::new(
                    l as nat,
                    |q: int| lane_sums(t, xs@, 8, q, (n / 8) as nat),
                ),
            decreases 8 - l,
        {
            let v: u32 = lane_of_sums(t, xs, 8, l);
            lanes.push(v);
            l += 1;
            assert(lanes@ =~= Seq::new(
                l as nat,
                |q: int| lane_sums(t, xs@, 8, q, (n / 8) as nat),
            ));
        }
        hsum_avx2(t, lanes.as_slice())
    } else {
        0
    };
    let from: usize = isa.vectorised_len(n);
    tail_of_sums(t, xs, start, from)
}

/// Reciprocal root mean square of the elements.
pub open spec fn inverse_rms<T: Arith>(t: &T, isa: Isa, xs: Seq<u32>, eps: u32) -> u32 {
    arith::quotient(
        t,
        ONE_BITS,
        arith::square_root(
            t,
            arith::sum(
                t,
                arith::quotient(
                    t,
                    total_squares(t, isa, xs),
                    arith::of_count(t, xs.len() as usize),
                ),
                eps,
            ),
        ),
    )
}

/// Normalised element `i` of `n`: in a lane the input is scaled first, outside
/// it is weighted first.
pub open spec fn normed_at<T: Arith>(
    t: &T,
    isa: Isa,
    n: int,
    i: int,
    x: u32,
    w: u32,
    scale: u32,
) -> u32 {
    if i < isa.vectorised(n) {
        arith::product(t, w, arith::product(t, x, scale))
    } else {
        arith::product(t, arith::product(t, w, x), scale)
    }
}

/// Output of RMS normalisation: elements past the input stay as they are.
pub open spec fn rms_output<T: Arith>(
    t: &T,
    isa: Isa,
    input: Seq<u32>,
    weight: Seq<u32>,
    before: Seq<u32>,
    eps: u32,
) -> Seq<u32> {
    Seq::new(
        before.len(),
        |i: int|
            if i < input.len() {
                normed_at(
                    t,
                    isa,
                    input.len() as int,
                    i,
                    input[i],
                    weight[i],
                    inverse_rms(t, isa, input, eps),
                )
            } else {
                before[i]
            },
    )
}

/// RMS normalisation: each element over the root mean square of all, times its
/// weight. `eps` is added under the root.
pub fn rms_norm_simd<T: Arith>(
    t: &T,
    isa: Isa,
    input: &[u32],
    weight: &[u32],
    output: &mut [u32],
    eps: u32,
)
    requires
        arith::deterministic(t),
        input@.len() == weight@.len(),
        input@.len() <= old(output)@.len(),
    ensures
        final(output)@ == rms_output(t, isa, input@, weight@, old(output)@, eps),
{
    let ghost before = output@;
    let n: usize = input.len();
    let squares: u32 = total_of_squares(t, isa, input);
    let count: u32 = do_of_count(t, n);
    let mean: u32 = do_quotient(t, squares, count);
    let padded: u32 = do_sum(t, mean, eps);
    let rms: u32 = do_square_root(t, padded);
    let scale: u32 = do_quotient(t, ONE_BITS, rms);
    assert(scale == inverse_rms(t, isa, input@, eps));
    let m: usize = isa.vectorised_len(n);
    let mut i: usize = 0;
    while i < n
        invariant
            arith::deterministic(t),
            n == input@.len(),
            n == weight@.len(),
            m == isa.vectorised(n as int),
            n <= before.len(),
            output@.len() == before.len(),
            i <= n,
            forall|q: int|
                0 <= q < before.len() ==> #[trigger] output@[q] == (if q < i {
                    normed_at(t, isa, n as int, q, input@[q], weight@[q], scale)
                } else {
                    before[q]
                }),
        decreases n - i,
    {
        let r: u32 = if i < m {
            let normed: u32 = do_product(t, input[i], scale);
            do_product(t, weight[i], normed)
        } else {
            let weighted: u32 = do_product(t, weight[i], input[i]);
            do_product(t, weighted, scale)
        };
        output[i] = r;
        i += 1;
    }
    assert(output@ =~= rms_output(t, isa, input@, weight@, before, eps));
}

/// Largest of the first `n` elements, one by one.
pub open spec fn scalar_maximum<T: Arith>(t: &T, xs: Seq<u32>, n: nat) -> u32
    decreases n,
{
    if n == 0 {
        NEG_INFINITY_BITS
    } else {
        arith::larger(t, scalar_maximum(t, xs, (n - 1) as nat), xs[n - 1])
    }
}

/// Largest element: the lanes, the largest of them, then what is left.
pub open spec fn maximum<T: Arith>(t: &T, isa: Isa, xs: Seq<u32>) -> u32 {
    let n = xs.len() as int;
    if isa is Scalar {
        scalar_maximum(t, xs, xs.len())
    } else if isa is Neon && n >= 4 {
        let v = Seq::new(4, |l: int| lane_maxima(t, isa, xs, 4, l, (n / 4) as nat));
        let top = lane_larger(
            t,
            isa,
            lane_larger(t, isa, v[0], v[1]),
            lane_larger(t, isa, v[2], v[3]),
        );
        tail_maxima(t, xs, top, isa.vectorised(n), n)
    } else if isa is Avx2 && n >= 8 {
        let v = Seq::new(8, |l: int| lane_maxima(t, isa, xs, 8, l, (n / 8) as nat));
        let m = Seq::new(4, |l: int| lane_larger(t, isa, v[l], v[l + 4]));
        let top = lane_larger(
            t,
            isa,
            lane_larger(t, isa, m[0], m[2]),
            lane_larger(t, isa, m[1], m[3]),
        );
        tail_maxima(t, xs, top, isa.vectorised(n), n)
    } else {
        tail_maxima(t, xs, NEG_INFINITY_BITS, 0, n)
    }
}

fn lane_pair_max<T: Arith>(t: &T, xs: &[u32], l: usize) -> (r: u32)
    requires
        arith::deterministic(t),
        l < 4,
    ensures
        r == lane_larger(
            t,
            Isa::Avx2,
            lane_maxima(t, Isa::Avx2, xs@, 8, l as int, xs@.len() / 8),
            lane_maxima(t, Isa::Avx2, xs@, 8, l + 4, xs@.len() / 8),
        ),
{
    let low: u32 = lane_of_maxima(t, Isa::Avx2, xs, 8, l);
    let high: u32 = lane_of_maxima(t, Isa::Avx2, xs, 8, l + 4);
    do_lane_larger(t, Isa::Avx2, low, high)
}

fn maximum_of<T: Arith>(t: &T, isa: Isa, xs: &[u32]) -> (r: u32)
    requires
        arith::deterministic(t),
    ensures
        r == maximum(t, isa, xs@),
{
    let n: usize = xs.len();
    if isa == Isa::Scalar {
        let mut acc: u32 = NEG_INFINITY_BITS;
        let mut i: usize = 0;
        while i < n
            invariant
                arith::deterministic(t),
                n == xs@.len(),
                i <= n,
                acc == scalar_maximum(t, xs@, i as nat),
            decreases n - i,
        {
            acc = do_larger(t, acc, xs[i]);
            i += 1;
        }
        acc
    } else if isa == Isa::Neon && n >= 4 {
        let a: u32 = lane_of_maxima(t, isa, xs, 4, 0);
        let b: u32 = lane_of_maxima(t, isa, xs, 4, 1);
        let c: u32 = lane_of_maxima(t, isa, xs, 4, 2);
        let d: u32 = lane_of_maxima(t, isa, xs, 4, 3);
        let low: u32 = do_lane_larger(t, isa, a, b);
        let high: u32 = do_lane_larger(t, isa, c, d);
        let top: u32 = do_lane_larger(t, isa, low, high);
        let from: usize = isa.vectorised_len(n);
        tail_of_maxima(t, xs, top, from)
    } else if isa == Isa::Avx2 && n >= 8 {
        let a: u32 = lane_pair_max(t, xs, 0);
        let b: u32 = lane_pair_max(t, xs, 1);
        let c: u32 = lane_pair_max(t, xs, 2);
        let d: u32 = lane_pair_max(t, xs, 3);
        let low: u32 = do_lane_larger(t, isa, a, c);
        let high: u32 = do_lane_larger(t, isa, b, d);
        let top: u32 = do_lane_larger(t, isa, low, high);
        let from: usize = isa.vectorised_len(n);
        tail_of_maxima(t, xs, top, from)
    } else {
        tail_of_maxima(t, xs, NEG_INFINITY_BITS, 0)
    }
}

/// Exponentials of the elements less their maximum.
pub open spec fn shifted_exponentials<T: Arith>(t: &T, isa: Isa, xs: Seq<u32>) -> Seq<u32> {
    Seq::new(
        xs.len(),
        |i: int| arith::exponential(t, arith::difference(t, xs[i], maximum(t, isa, xs))),
    )
}

/// Softmax: the exponentials over their sum, where that is positive.
pub open spec fn softmax<T: Arith>(t: &T, isa: Isa, xs: Seq<u32>) -> Seq<u32> {
    let es = shifted_exponentials(t, isa, xs);
    let total = total_sums(t, isa, es);
    if arith::greater(t, total, 0) {
        Seq::new(
            xs.len(),
            |i: int| arith::product(t, es[i], arith::quotient(t, ONE_BITS, total)),
        )
    } else {
        es
    }
}

/// Softmax in place.
pub fn softmax_simd<T: Arith>(t: &T, isa: Isa, values: &mut [u32])
    requires
        arith::deterministic(t),
    ensures
        final(values)@ == softmax(t, isa, old(values)@),
{
    let ghost before = values@;
    let n: usize = values.len();
    if n == 0 {
        assert(before =~= softmax(t, isa, before));
        return ;
    }
    let top: u32 = maximum_of(t, isa, values);
    let ghost es = shifted_exponentials(t, isa, before);
    let mut i: usize = 0;
    while i < n
        invariant
            arith::deterministic(t),
            n == before.len(),
            top == maximum(t, isa, before),
            es == shifted_exponentials(t, isa, before),
            values@.len() == n,
            i <= n,
            forall|q: int|
                0 <= q < n ==> #[trigger] values@[q] == (if q < i {
                    es[q]
                } else {
                    before[q]
                }),
        decreases n - i,
    {
        let v: u32 = values[i];
        let shifted: u32 = do_difference(t, v, top);
        let e: u32 = do_exponential(t, shifted);
        values[i] = e;
        i += 1;
    }
    assert(values@ =~= es);
    let total: u32 = total_of_sums(t, isa, values);
    if do_greater(t, total, 0) {
        let scale: u32 = do_quotient(t, ONE_BITS, total);
        let mut j: usize = 0;
        while j < n
            invariant
                arith::deterministic(t),
                n == es.len(),
                values@.len() == n,
                j <= n,
                forall|q: int|
                    0 <= q < n ==> #[trigger] values@[q] == (if q < j {
                        arith::product(t, es[q], scale)
                    } else {
                        es[q]
                    }),
            decreases n - j,
        {
            let v: u32 = values[j];
            let r: u32 = do_product(t, v, scale);
            values[j] = r;
            j += 1;
        }
    }
    assert(values@ =~= softmax(t, isa, before));
}

/// The first elements of an operation on lanes and the rest one by one make up
/// all elements.
pub proof fn law_lanes_and_rest_are_all(isa: Isa, n: int)
    requires
        n >= 0,
    ensures
        0 <= isa.vectorised(n) <= n,
        isa.lanes() > 0 ==> n - isa.vectorised(n) < isa.lanes(),
        isa.lanes() > 0 ==> isa.vectorised(n) % isa.lanes() == 0,
        isa.lanes() == 0 ==> isa.vectorised(n) == 0,
{
}

/// Softmax gives equal numbers equal shares, wherever they stand, and keeps the
/// number of elements.
pub proof fn law_softmax_shares_equally<T: Arith>(
    t: &T,
    isa: Isa,
    xs: Seq<u32>,
    i: int,
    j: int,
)
    requires
        0 <= i < xs.len(),
        0 <= j < xs.len(),
        xs[i] == xs[j],
    ensures
        softmax(t, isa, xs).len() == xs.len(),
        softmax(t, isa, xs)[i] == softmax(t, isa, xs)[j],
{
}

/// The operations that rotate one pair do not round: with every number standing
/// for `value` of its bits in parts of `scale`, each product, sum, difference and
/// fused operation of that rotation is that of the values.
pub open spec fn rotates_exactly<T: Arith>(
    t: &T,
    value: spec_fn(u32) -> int,
    scale: int,
    isa: Isa,
    in_lane: bool,
    x0: u32,
    x1: u32,
    c: u32,
    s: u32,
) -> bool {
    let (a, b) = (value(x0), value(x1));
    let (x0c, x1c) = (arith::product(t, x0, c), arith::product(t, x1, c));
    let (x0s, x1s) = (arith::product(t, x0, s), arith::product(t, x1, s));
    let low = value(rope_low(t, isa, in_lane, x0, x1, c, s));
    let high = value(rope_high(t, isa, in_lane, x0, x1, c, s));
    &&& value(x0c) * scale == a * value(c)
    &&& value(x1c) * scale == b * value(c)
    &&& if in_lane && isa is Avx2 {
        &&& value(blocks::negated(x1)) == -b
        &&& low * scale == value(blocks::negated(x1)) * value(s) + value(x0c) * scale
        &&& high * scale == a * value(s) + value(x1c) * scale
    } else {
        &&& value(x0s) * scale == a * value(s)
        &&& value(x1s) * scale == b * value(s)
        &&& low == value(x0c) - value(x1s)
        &&& high == value(x0s) + value(x1c)
    }
}

/// What a pair's rotation comes to where it does not round.
proof fn lemma_pair_rotates<T: Arith>(
    t: &T,
    value: spec_fn(u32) -> int,
    scale: int,
    isa: Isa,
    in_lane: bool,
    x0: u32,
    x1: u32,
    c: u32,
    s: u32,
)
    requires
        rotates_exactly(t, value, scale, isa, in_lane, x0, x1, c, s),
    ensures
        value(rope_low(t, isa, in_lane, x0, x1, c, s)) * scale == value(x0) * value(c) - value(x1)
            * value(s),
        value(rope_high(t, isa, in_lane, x0, x1, c, s)) * scale == value(x0) * value(s) + value(x1)
            * value(c),
{
    let (a, b, d) = (value(x1), value(s), scale);
    assert((-a) * b == -(a * b)) by (nonlinear_arith);
    let (p, q) = (value(arith::product(t, x0, c)), value(arith::product(t, x1, s)));
    assert((p - q) * d == p * d - q * d) by (nonlinear_arith);
    let (u, v) = (value(arith::product(t, x0, s)), value(arith::product(t, x1, c)));
    assert((u + v) * d == u * d + v * d) by (nonlinear_arith);
}

/// Factors of two products may change places.
proof fn lemma_products_swap(a: int, b: int, c: int, d: int)
    ensures
        (a * b) * (c * d) == (a * c) * (b * d),
        (a * b) * (c * d) == (a * d) * (c * b),
{
    assert((a * b) * (c * d) == (a * c) * (b * d)) by (nonlinear_arith);
    assert((a * b) * (c * d) == (a * d) * (c * b)) by (nonlinear_arith);
}

/// Twice a rotation, in numbers: `p` and `q` come of `a` and `b`, and `y` and `z` of
/// `p` and `q` with the sine negated.
proof fn lemma_rotated_back(d: int, a: int, b: int, c: int, s: int, p: int, q: int, y: int, z: int)
    requires
        p * d == a * c - b * s,
        q * d == a * s + b * c,
        y * d == p * c - q * (-s),
        z * d == p * (-s) + q * c,
    ensures
        (p * p + q * q) * (d * d) == (c * c + s * s) * (a * a + b * b),
        y * (d * d) == (c * c + s * s) * a,
        z * (d * d) == (c * c + s * s) * b,
{
    let (pd, qd) = (p * d, q * d);
    let (ac, bs, sa, bc) = (a * c, b * s, a * s, b * c);
    assert(pd * pd == ac * ac - 2 * (ac * bs) + bs * bs) by (nonlinear_arith)
        requires
            pd == ac - bs,
    ;
    assert(qd * qd == sa * sa + 2 * (sa * bc) + bc * bc) by (nonlinear_arith)
        requires
            qd == sa + bc,
    ;
    lemma_products_swap(a, c, b, s);
    lemma_products_swap(a, c, a, c);
    lemma_products_swap(b, s, b, s);
    lemma_products_swap(a, s, a, s);
    lemma_products_swap(b, c, b, c);
    let (aa, bb, cc, ss) = (a * a, b * b, c * c, s * s);
    assert((cc + ss) * (aa + bb) == aa * cc + bb * ss + aa * ss + bb * cc) by (nonlinear_arith);
    assert(pd * pd + qd * qd == (p * p + q * q) * (d * d)) by (nonlinear_arith)
        requires
            pd == p * d,
            qd == q * d,
    ;
    assert((p * c - q * (-s)) * d == pd * c + qd * s) by (nonlinear_arith)
        requires
            pd == p * d,
            qd == q * d,
    ;
    assert((p * (-s) + q * c) * d == qd * c - pd * s) by (nonlinear_arith)
        requires
            pd == p * d,
            qd == q * d,
    ;
    assert(pd * c + qd * s == (cc + ss) * a) by (nonlinear_arith)
        requires
            pd == a * c - b * s,
            qd == a * s + b * c,
            cc == c * c,
            ss == s * s,
    ;
    assert(qd * c - pd * s == (cc + ss) * b) by (nonlinear_arith)
        requires
            pd == a * c - b * s,
            qd == a * s + b * c,
            cc == c * c,
            ss == s * s,
    ;
    assert((y * d) * d == y * (d * d) && (z * d) * d == z * (d * d)) by (nonlinear_arith);
}

/// A rotation multiplies a pair's squared length by the squares of its cosine and
/// sine, and the rotation with negated sines multiplies both numbers of it by the
/// same: where the squares add up to one, the length is kept and the second
/// rotation undoes the first. This holds of a pair whose two rotations do not
/// round.
pub proof fn law_negated_sines_undo_rotation<T: Arith>(
    t: &T,
    value: spec_fn(u32) -> int,
    scale: int,
    isa: Isa,
    x: Seq<u32>,
    cos: Seq<u32>,
    sin: Seq<u32>,
    back: Seq<u32>,
    y_before: Seq<u32>,
    z_before: Seq<u32>,
    i: int,
)
    requires
        scale > 0,
        x.len() % 2 == 0,
        cos.len() == x.len() / 2,
        sin.len() == x.len() / 2,
        back.len() == x.len() / 2,
        y_before.len() == x.len(),
        z_before.len() == x.len(),
        0 <= i < x.len() / 2,
        value(back[i]) == -value(sin[i]),
        ({
            let half = (x.len() / 2) as int;
            let lane = i < isa.vectorised(half);
            let y = rotated(t, isa, x, cos, sin, y_before);
            &&& rotates_exactly(t, value, scale, isa, lane, x[i], x[half + i], cos[i], sin[i])
            &&& rotates_exactly(t, value, scale, isa, lane, y[i], y[half + i], cos[i], back[i])
        }),
    ensures
        ({
            let half = (x.len() / 2) as int;
            let y = rotated(t, isa, x, cos, sin, y_before);
            let z = rotated(t, isa, y, cos, back, z_before);
            let (a, b) = (value(x[i]), value(x[half + i]));
            let (p, q) = (value(y[i]), value(y[half + i]));
            let unit = value(cos[i]) * value(cos[i]) + value(sin[i]) * value(sin[i]);
            &&& (p * p + q * q) * (scale * scale) == unit * (a * a + b * b)
            &&& value(z[i]) * (scale * scale) == unit * a
            &&& value(z[half + i]) * (scale * scale) == unit * b
            &&& unit == scale * scale ==> {
                &&& p * p + q * q == a * a + b * b
                &&& value(z[i]) == a
                &&& value(z[half + i]) == b
            }
        }),
{
    let half = (x.len() / 2) as int;
    let y = rotated(t, isa, x, cos, sin, y_before);
    let z = rotated(t, isa, y, cos, back, z_before);
    let lane = i < isa.vectorised(half);
    lemma_pair_rotates(t, value, scale, isa, lane, x[i], x[half + i], cos[i], sin[i]);
    lemma_pair_rotates(t, value, scale, isa, lane, y[i], y[half + i], cos[i], back[i]);
    let (a, b, c, s) = (value(x[i]), value(x[half + i]), value(cos[i]), value(sin[i]));
    let (p, q) = (value(y[i]), value(y[half + i]));
    let (u, v) = (value(z[i]), value(z[half + i]));
    lemma_rotated_back(scale, a, b, c, s, p, q, u, v);
    let unit = c * c + s * s;
    let dd = scale * scale;
    if unit == dd {
        assert(dd > 0) by (nonlinear_arith)
            requires
                dd == scale * scale,
                scale > 0,
        ;
        let (n, m) = (p * p + q * q, a * a + b * b);
        assert(n == m && u == a && v == b) by (nonlinear_arith)
            requires
                n * dd == dd * m,
                u * dd == dd * a,
                v * dd == dd * b,
                dd > 0,
        ;
    }
}

} // verus!

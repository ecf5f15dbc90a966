//! Single-precision arithmetic, as the numeric kernels use it.
//!
//! The kernels hold numbers as their bits. What an operation makes of the bits
//! is up to an [`Arith`]; the functions of this module of the same names as its
//! methods stand for the outcomes.

use vstd::prelude::*;

verus! {

/// Single-precision operations on the bits of their operands.
pub trait Arith {
    /// Sum of two numbers.
    fn sum(&self, a: u32, b: u32) -> u32;

    /// First number less the second.
    fn difference(&self, a: u32, b: u32) -> u32;

    /// Product of two numbers.
    fn product(&self, a: u32, b: u32) -> u32;

    /// First number over the second.
    fn quotient(&self, a: u32, b: u32) -> u32;

    /// First times second plus third, rounded once.
    fn fused(&self, a: u32, b: u32, c: u32) -> u32;

    /// The larger number; where one is not a number, the other.
    fn larger(&self, a: u32, b: u32) -> u32;

    /// The larger number; where one is not a number, not a number.
    fn vector_larger(&self, a: u32, b: u32) -> u32;

    /// Natural exponential.
    fn exponential(&self, a: u32) -> u32;

    /// Square root.
    fn square_root(&self, a: u32) -> u32;

    /// A first estimate of the reciprocal.
    fn reciprocal_estimate(&self, a: u32) -> u32;

    /// Two less the product, the factor that refines a reciprocal estimate; two
    /// where zero meets infinity.
    fn reciprocal_step(&self, a: u32, b: u32) -> u32;

    /// The first number is greater than the second.
    fn greater(&self, a: u32, b: u32) -> bool;

    /// The number nearest to a count.
    fn of_count(&self, n: usize) -> u32;
}

/// Outcome of [`Arith::sum`].
pub open spec fn sum<T: Arith>(t: &T, a: u32, b: u32) -> u32 {
    choose|r: u32| call_ensures(T::sum, (t, a, b), r)
}

/// Outcome of [`Arith::difference`].
pub open spec fn difference<T: Arith>(t: &T, a: u32, b: u32) -> u32 {
    choose|r: u32| call_ensures(T::difference, (t, a, b), r)
}

/// Outcome of [`Arith::product`].
pub open spec fn product<T: Arith>(t: &T, a: u32, b: u32) -> u32 {
    choose|r: u32| call_ensures(T::product, (t, a, b), r)
}

/// Outcome of [`Arith::quotient`].
pub open spec fn quotient<T: Arith>(t: &T, a: u32, b: u32) -> u32 {
    choose|r: u32| call_ensures(T::quotient, (t, a, b), r)
}

/// Outcome of [`Arith::fused`].
pub open spec fn fused<T: Arith>(t: &T, a: u32, b: u32, c: u32) -> u32 {
    choose|r: u32| call_ensures(T::fused, (t, a, b, c), r)
}

/// Outcome of [`Arith::larger`].
pub open spec fn larger<T: Arith>(t: &T, a: u32, b: u32) -> u32 {
    choose|r: u32| call_ensures(T::larger, (t, a, b), r)
}

/// Outcome of [`Arith::vector_larger`].
pub open spec fn vector_larger<T: Arith>(t: &T, a: u32, b: u32) -> u32 {
    choose|r: u32| call_ensures(T::vector_larger, (t, a, b), r)
}

/// Outcome of [`Arith::exponential`].
pub open spec fn exponential<T: Arith>(t: &T, a: u32) -> u32 {
    choose|r: u32| call_ensures(T::exponential, (t, a), r)
}

/// Outcome of [`Arith::square_root`].
pub open spec fn square_root<T: Arith>(t: &T, a: u32) -> u32 {
    choose|r: u32| call_ensures(T::square_root, (t, a), r)
}

/// Outcome of [`Arith::reciprocal_estimate`].
pub open spec fn reciprocal_estimate<T: Arith>(t: &T, a: u32) -> u32 {
    choose|r: u32| call_ensures(T::reciprocal_estimate, (t, a), r)
}

/// Outcome of [`Arith::reciprocal_step`].
pub open spec fn reciprocal_step<T: Arith>(t: &T, a: u32, b: u32) -> u32 {
    choose|r: u32| call_ensures(T::reciprocal_step, (t, a, b), r)
}

/// Outcome of [`Arith::greater`].
pub open spec fn greater<T: Arith>(t: &T, a: u32, b: u32) -> bool {
    choose|r: bool| call_ensures(T::greater, (t, a, b), r)
}

/// Outcome of [`Arith::of_count`].
pub open spec fn of_count<T: Arith>(t: &T, n: usize) -> u32 {
    choose|r: u32| call_ensures(T::of_count, (t, n), r)
}

/// Every operation has one outcome for its operands.
pub open spec fn deterministic<T: Arith>(t: &T) -> bool {
    &&& forall|a: u32, b: u32, r: u32, s: u32|
        #![trigger
            call_ensures(T::sum, (t, a, b), r),
            call_ensures(T::sum, (t, a, b), s)
        ]
        call_ensures(T::sum, (t, a, b), r) && call_ensures(T::sum, (t, a, b), s)
            ==> r == s
    &&& forall|a: u32, b: u32, r: u32, s: u32|
        #![trigger
            call_ensures(T::difference, (t, a, b), r),
            call_ensures(T::difference, (t, a, b), s)
        ]
        call_ensures(T::difference, (t, a, b), r) && call_ensures(T::difference, (t, a, b), s)
            ==> r == s
    &&& forall|a: u32, b: u32, r: u32, s: u32|
        #![trigger
            call_ensures(T::product, (t, a, b), r),
            call_ensures(T::product, (t, a, b), s)
        ]
        call_ensures(T::product, (t, a, b), r) && call_ensures(T::product, (t, a, b), s)
            ==> r == s
    &&& forall|a: u32, b: u32, r: u32, s: u32|
        #![trigger
            call_ensures(T::quotient, (t, a, b), r),
            call_ensures(T::quotient, (t, a, b), s)
        ]
        call_ensures(T::quotient, (t, a, b), r) && call_ensures(T::quotient, (t, a, b), s)
            ==> r == s
    &&& forall|a: u32, b: u32, c: u32, r: u32, s: u32|
        #![trigger
            call_ensures(T::fused, (t, a, b, c), r),
            call_ensures(T::fused, (t, a, b, c), s)
        ]
        call_ensures(T::fused, (t, a, b, c), r) && call_ensures(T::fused, (t, a, b, c), s)
            ==> r == s
    &&& forall|a: u32, b: u32, r: u32, s: u32|
        #![trigger
            call_ensures(T::larger, (t, a, b), r),
            call_ensures(T::larger, (t, a, b), s)
        ]
        call_ensures(T::larger, (t, a, b), r) && call_ensures(T::larger, (t, a, b), s)
            ==> r == s
    &&& forall|a: u32, b: u32, r: u32, s: u32|
        #![trigger
            call_ensures(T::vector_larger, (t, a, b), r),
            call_ensures(T::vector_larger, (t, a, b), s)
        ]
        call_ensures(T::vector_larger, (t, a, b), r) && call_ensures(T::vector_larger, (t, a, b), s)
            ==> r == s
    &&& forall|a: u32, r: u32, s: u32|
        #![trigger
            call_ensures(T::exponential, (t, a), r),
            call_ensures(T::exponential, (t, a), s)
        ]
        call_ensures(T::exponential, (t, a), r) && call_ensures(T::exponential, (t, a), s)
            ==> r == s
    &&& forall|a: u32, r: u32, s: u32|
        #![trigger
            call_ensures(T::square_root, (t, a), r),
            call_ensures(T::square_root, (t, a), s)
        ]
        call_ensures(T::square_root, (t, a), r) && call_ensures(T::square_root, (t, a), s)
            ==> r == s
    &&& forall|a: u32, r: u32, s: u32|
        #![trigger
            call_ensures(T::reciprocal_estimate, (t, a), r),
            call_ensures(T::reciprocal_estimate, (t, a), s)
        ]
        call_ensures(T::reciprocal_estimate, (t, a), r) && call_ensures(T::reciprocal_estimate, (t, a), s)
            ==> r == s
    &&& forall|a: u32, b: u32, r: u32, s: u32|
        #![trigger
            call_ensures(T::reciprocal_step, (t, a, b), r),
            call_ensures(T::reciprocal_step, (t, a, b), s)
        ]
        call_ensures(T::reciprocal_step, (t, a, b), r) && call_ensures(T::reciprocal_step, (t, a, b), s)
            ==> r == s
    &&& forall|a: u32, b: u32, r: bool, s: bool|
        #![trigger
            call_ensures(T::greater, (t, a, b), r),
            call_ensures(T::greater, (t, a, b), s)
        ]
        call_ensures(T::greater, (t, a, b), r) && call_ensures(T::greater, (t, a, b), s)
            ==> r == s
    &&& forall|n: usize, r: u32, s: u32|
        #![trigger
            call_ensures(T::of_count, (t, n), r),
            call_ensures(T::of_count, (t, n), s)
        ]
        call_ensures(T::of_count, (t, n), r) && call_ensures(T::of_count, (t, n), s)
            ==> r == s
}

/// Sums may be regrouped and reordered, zero adds nothing, and a fused operation
/// is a product and a sum. Rounding arithmetic is not like that: what holds where
/// this does, holds of rounding arithmetic up to reassociation.
#[verifier::opaque]
pub open spec fn reassociates<T: Arith>(t: &T) -> bool {
    &&& forall|a: u32, b: u32| #[trigger] sum(t, a, b) == sum(t, b, a)
    &&& forall|a: u32, b: u32, c: u32| #[trigger]
        sum(t, sum(t, a, b), c) == sum(t, a, sum(t, b, c))
    &&& forall|a: u32| #[trigger] sum(t, a, 0) == a
    &&& forall|a: u32, b: u32, c: u32| #[trigger]
        fused(t, a, b, c) == sum(t, product(t, a, b), c)
}

/// Two numbers may be added in either order.
pub proof fn lemma_commutes<T: Arith>(t: &T, a: u32, b: u32)
    requires
        reassociates(t),
    ensures
        sum(t, a, b) == sum(t, b, a),
{
    reveal(reassociates);
}

/// Three numbers may be added in either grouping.
pub proof fn lemma_regroups<T: Arith>(t: &T, a: u32, b: u32, c: u32)
    requires
        reassociates(t),
    ensures
        sum(t, sum(t, a, b), c) == sum(t, a, sum(t, b, c)),
{
    reveal(reassociates);
}

/// Zero adds nothing.
pub proof fn lemma_zero_adds_nothing<T: Arith>(t: &T, a: u32)
    requires
        reassociates(t),
    ensures
        sum(t, a, 0) == a,
        sum(t, 0, a) == a,
{
    reveal(reassociates);
    assert(sum(t, 0, a) == sum(t, a, 0));
}

/// A fused operation is a product and a sum.
pub proof fn lemma_fused_is_two<T: Arith>(t: &T, a: u32, b: u32, c: u32)
    requires
        reassociates(t),
    ensures
        fused(t, a, b, c) == sum(t, product(t, a, b), c),
{
    reveal(reassociates);
}

pub(crate) fn do_sum<T: Arith>(t: &T, a: u32, b: u32) -> (r: u32)
    requires
        deterministic(t),
    ensures
        r == sum(t, a, b),
{
    t.sum(a, b)
}

pub(crate) fn do_difference<T: Arith>(t: &T, a: u32, b: u32) -> (r: u32)
    requires
        deterministic(t),
    ensures
        r == difference(t, a, b),
{
    t.difference(a, b)
}

pub(crate) fn do_product<T: Arith>(t: &T, a: u32, b: u32) -> (r: u32)
    requires
        deterministic(t),
    ensures
        r == product(t, a, b),
{
    t.product(a, b)
}

pub(crate) fn do_quotient<T: Arith>(t: &T, a: u32, b: u32) -> (r: u32)
    requires
        deterministic(t),
    ensures
        r == quotient(t, a, b),
{
    t.quotient(a, b)
}

pub(crate) fn do_fused<T: Arith>(t: &T, a: u32, b: u32, c: u32) -> (r: u32)
    requires
        deterministic(t),
    ensures
        r == fused(t, a, b, c),
{
    t.fused(a, b, c)
}

pub(crate) fn do_larger<T: Arith>(t: &T, a: u32, b: u32) -> (r: u32)
    requires
        deterministic(t),
    ensures
        r == larger(t, a, b),
{
    t.larger(a, b)
}

pub(crate) fn do_vector_larger<T: Arith>(t: &T, a: u32, b: u32) -> (r: u32)
    requires
        deterministic(t),
    ensures
        r == vector_larger(t, a, b),
{
    t.vector_larger(a, b)
}

pub(crate) fn do_exponential<T: Arith>(t: &T, a: u32) -> (r: u32)
    requires
        deterministic(t),
    ensures
        r == exponential(t, a),
{
    t.exponential(a)
}

pub(crate) fn do_square_root<T: Arith>(t: &T, a: u32) -> (r: u32)
    requires
        deterministic(t),
    ensures
        r == square_root(t, a),
{
    t.square_root(a)
}

pub(crate) fn do_reciprocal_estimate<T: Arith>(t: &T, a: u32) -> (r: u32)
    requires
        deterministic(t),
    ensures
        r == reciprocal_estimate(t, a),
{
    t.reciprocal_estimate(a)
}

pub(crate) fn do_reciprocal_step<T: Arith>(t: &T, a: u32, b: u32) -> (r: u32)
    requires
        deterministic(t),
    ensures
        r == reciprocal_step(t, a, b),
{
    t.reciprocal_step(a, b)
}

pub(crate) fn do_greater<T: Arith>(t: &T, a: u32, b: u32) -> (r: bool)
    requires
        deterministic(t),
    ensures
        r == greater(t, a, b),
{
    t.greater(a, b)
}

pub(crate) fn do_of_count<T: Arith>(t: &T, n: usize) -> (r: u32)
    requires
        deterministic(t),
    ensures
        r == of_count(t, n),
{
    t.of_count(n)
}

/// The number one.
pub const ONE_BITS: u32 = 0x3f80_0000;

/// The number minus one.
pub const MINUS_ONE_BITS: u32 = 0xbf80_0000;

/// Negative infinity.
pub const NEG_INFINITY_BITS: u32 = 0xff80_0000;

/// A ternary digit as a number.
pub open spec fn trit_bits(t: int) -> u32 {
    if t < 0 {
        MINUS_ONE_BITS
    } else if t == 0 {
        0
    } else {
        ONE_BITS
    }
}

pub(crate) fn bits_of_trit(t: i8) -> (b: u32)
    ensures
        b == trit_bits(t as int),
{
    if t < 0 {
        MINUS_ONE_BITS
    } else if t == 0 {
        0
    } else {
        ONE_BITS
    }
}

/// Sum of eight lanes, in the order of the horizontal addition: lanes four
/// apart, then neighbours, then the two halves.
pub open spec fn sum8<T: Arith>(t: &T, v: Seq<u32>) -> u32 {
    sum(
        t,
        sum(t, sum(t, v[0], v[4]), sum(t, v[1], v[5])),
        sum(t, sum(t, v[2], v[6]), sum(t, v[3], v[7])),
    )
}

/// Horizontal sum of eight lanes.
pub fn hsum_avx2<T: Arith>(t: &T, v: &[u32]) -> (r: u32)
    requires
        deterministic(t),
        v@.len() == 8,
    ensures
        r == sum8(t, v@),
{
    let s0: u32 = do_sum(t, v[0], v[4]);
    let s1: u32 = do_sum(t, v[1], v[5]);
    let s2: u32 = do_sum(t, v[2], v[6]);
    let s3: u32 = do_sum(t, v[3], v[7]);
    let low: u32 = do_sum(t, s0, s1);
    let high: u32 = do_sum(t, s2, s3);
    do_sum(t, low, high)
}

/// `width` zeros.
pub(crate) fn zero_lanes(width: usize) -> (v: Vec<u32>)
    ensures
        v@ == Seq::new(width as nat, |i: int| 0u32),
{
    let mut v: Vec<u32> = Vec::with_capacity(width);
    let mut i: usize = 0;
    while i < width
        invariant
            i <= width,
            v@ == Seq::new(i as nat, |j: int| 0u32),
        decreases width - i,
    {
        v.push(0);
        i += 1;
        assert(v@ =~= Seq::new(i as nat, |j: int| 0u32));
    }
    v
}

/// One over the square root of a head's size, by which attention scores are
/// scaled.
pub fn attention_scale<T: Arith>(t: &T, head_dim: usize) -> (r: u32)
    requires
        deterministic(t),
    ensures
        r == quotient(t, ONE_BITS, square_root(t, of_count(t, head_dim))),
{
    let n: u32 = do_of_count(t, head_dim);
    let root: u32 = do_square_root(t, n);
    do_quotient(t, ONE_BITS, root)
}

} // verus!

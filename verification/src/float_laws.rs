//! What the float operations compute, where arithmetic does not round.

use vstd::prelude::*;

use crate::algebra;
use crate::arith;
use crate::arith::{Arith, NEG_INFINITY_BITS, ONE_BITS};
use crate::gpu_backend::cpu;
use crate::product_laws;
use crate::simd_float_ops;
use crate::simd_float_ops::Isa;

verus! {

/// One over a number times that number is one.
pub open spec fn invertible<T: Arith>(t: &T, d: u32) -> bool {
    arith::product(t, arith::quotient(t, ONE_BITS, d), d) == ONE_BITS
}

/// A quotient is the product with one over the divisor.
pub open spec fn divides<T: Arith>(t: &T, a: u32, d: u32) -> bool {
    arith::quotient(t, a, d) == arith::product(t, a, arith::quotient(t, ONE_BITS, d))
}

/// Exponentials turn differences into quotients.
pub open spec fn exponential_law<T: Arith>(t: &T) -> bool {
    forall|a: u32, b: u32|
        arith::product(
            t,
            arith::exponential(t, #[trigger] arith::difference(t, a, b)),
            arith::exponential(t, b),
        ) == arith::exponential(t, a)
}

/// Numbers are ordered: comparison is a strict order in which any two numbers that
/// differ compare, negative infinity is least, and the larger of two is the one
/// that compares greater.
pub open spec fn ordered<T: Arith>(t: &T) -> bool {
    &&& forall|a: u32| !arith::greater(t, a, a)
    &&& forall|a: u32, b: u32, c: u32|
        #![trigger arith::greater(t, a, b), arith::greater(t, b, c)]
        arith::greater(t, a, b) && arith::greater(t, b, c) ==> arith::greater(t, a, c)
    &&& forall|a: u32, b: u32| a != b ==> #[trigger] arith::greater(t, a, b) || arith::greater(t, b, a)
    &&& forall|a: u32| !arith::greater(t, NEG_INFINITY_BITS, a)
    &&& forall|a: u32, b: u32| #[trigger]
        arith::larger(t, a, b) == if arith::greater(t, a, b) {
            a
        } else {
            b
        }
    &&& forall|a: u32, b: u32| #[trigger]
        arith::vector_larger(t, a, b) == if arith::greater(t, a, b) {
            a
        } else {
            b
        }
}

// Sums over lanes.
proof fn lemma_lane_sums<T: Arith>(t: &T, xs: Seq<u32>, w: int, l: int, n: nat)
    ensures
        simd_float_ops::lane_sums(t, xs, w, l, n) == algebra::lane_total(
            t,
            |i: int| xs[i],
            w,
            l,
            n,
        ),
    decreases n,
{
    if n > 0 {
        lemma_lane_sums(t, xs, w, l, (n - 1) as nat);
    }
}

proof fn lemma_lane_squares<T: Arith>(t: &T, xs: Seq<u32>, w: int, l: int, n: nat)
    requires
        arith::reassociates(t),
    ensures
        simd_float_ops::lane_squares(t, xs, w, l, n) == algebra::lane_total(
            t,
            |i: int| arith::product(t, xs[i], xs[i]),
            w,
            l,
            n,
        ),
    decreases n,
{
    if n > 0 {
        let c = (n - 1) as nat;
        lemma_lane_squares(t, xs, w, l, c);
        let x = xs[c * w + l];
        let acc = simd_float_ops::lane_squares(t, xs, w, l, c);
        arith::lemma_fused_is_two(t, x, x, acc);
        arith::lemma_commutes(t, arith::product(t, x, x), acc);
    }
}

proof fn lemma_tail_sums<T: Arith>(t: &T, xs: Seq<u32>, start: u32, from: nat, to: nat)
    requires
        from <= to,
        start == algebra::total(t, |i: int| xs[i], from),
    ensures
        simd_float_ops::tail_sums(t, xs, start, from as int, to as int) == algebra::total(
            t,
            |i: int| xs[i],
            to,
        ),
    decreases to - from,
{
    if from < to {
        lemma_tail_sums(t, xs, start, from, (to - 1) as nat);
    }
}

proof fn lemma_tail_squares<T: Arith>(t: &T, xs: Seq<u32>, start: u32, from: nat, to: nat)
    requires
        from <= to,
        start == algebra::total(t, |i: int| arith::product(t, xs[i], xs[i]), from),
    ensures
        simd_float_ops::tail_squares(t, xs, start, from as int, to as int) == algebra::total(
            t,
            |i: int| arith::product(t, xs[i], xs[i]),
            to,
        ),
    decreases to - from,
{
    if from < to {
        lemma_tail_squares(t, xs, start, from, (to - 1) as nat);
    }
}

/// However the instruction set adds up, it adds up all elements.
pub proof fn law_sum_is_of_all<T: Arith>(t: &T, isa: Isa, xs: Seq<u32>)
    requires
        arith::reassociates(t),
    ensures
        simd_float_ops::total_sums(t, isa, xs) == algebra::total(t, |i: int| xs[i], xs.len()),
{
    let f = |i: int| xs[i];
    let n = xs.len();
    if isa is Neon && n >= 4 {
        let v = Seq::new(4, |l: int| simd_float_ops::lane_sums(t, xs, 4, l, n / 4));
        let lanes = |l: int| algebra::lane_total(t, f, 4, l, n / 4);
        algebra::lemma_lanes(t, f, 4, n / 4);
        assert forall|l: int| 0 <= l < 4 implies #[trigger] lanes(l) == v[l] by {
            lemma_lane_sums(t, xs, 4, l, n / 4);
        }
        algebra::lemma_same_terms(t, lanes, |l: int| v[l], 4);
        algebra::lemma_four(t, |l: int| v[l]);
        lemma_tail_sums(t, xs, simd_float_ops::sum4(t, v), n / 4 * 4, n);
    } else if isa is Avx2 && n >= 8 {
        let v = Seq::new(8, |l: int| simd_float_ops::lane_sums(t, xs, 8, l, n / 8));
        let lanes = |l: int| algebra::lane_total(t, f, 8, l, n / 8);
        algebra::lemma_lanes(t, f, 8, n / 8);
        assert forall|l: int| 0 <= l < 8 implies #[trigger] lanes(l) == v[l] by {
            lemma_lane_sums(t, xs, 8, l, n / 8);
        }
        algebra::lemma_same_terms(t, lanes, |l: int| v[l], 8);
        algebra::lemma_sum8(t, v);
        lemma_tail_sums(t, xs, arith::sum8(t, v), n / 8 * 8, n);
    } else {
        assert(isa.vectorised(n as int) == 0);
        lemma_tail_sums(t, xs, 0, 0, n);
    }
}

/// However the instruction set adds squares up, it adds up those of all elements.
pub proof fn law_square_sum_is_of_all<T: Arith>(t: &T, isa: Isa, xs: Seq<u32>)
    requires
        arith::reassociates(t),
    ensures
        simd_float_ops::total_squares(t, isa, xs) == algebra::total(
            t,
            |i: int| arith::product(t, xs[i], xs[i]),
            xs.len(),
        ),
{
    let f = |i: int| arith::product(t, xs[i], xs[i]);
    let n = xs.len();
    if isa is Neon && n >= 4 {
        let v = Seq::new(4, |l: int| simd_float_ops::lane_squares(t, xs, 4, l, n / 4));
        let lanes = |l: int| algebra::lane_total(t, f, 4, l, n / 4);
        algebra::lemma_lanes(t, f, 4, n / 4);
        assert forall|l: int| 0 <= l < 4 implies #[trigger] lanes(l) == v[l] by {
            lemma_lane_squares(t, xs, 4, l, n / 4);
        }
        algebra::lemma_same_terms(t, lanes, |l: int| v[l], 4);
        algebra::lemma_four(t, |l: int| v[l]);
        lemma_tail_squares(t, xs, simd_float_ops::sum4(t, v), n / 4 * 4, n);
    } else if isa is Avx2 && n >= 8 {
        let v = Seq::new(8, |l: int| simd_float_ops::lane_squares(t, xs, 8, l, n / 8));
        let lanes = |l: int| algebra::lane_total(t, f, 8, l, n / 8);
        algebra::lemma_lanes(t, f, 8, n / 8);
        assert forall|l: int| 0 <= l < 8 implies #[trigger] lanes(l) == v[l] by {
            lemma_lane_squares(t, xs, 8, l, n / 8);
        }
        algebra::lemma_same_terms(t, lanes, |l: int| v[l], 8);
        algebra::lemma_sum8(t, v);
        lemma_tail_squares(t, xs, arith::sum8(t, v), n / 8 * 8, n);
    } else {
        assert(isa.vectorised(n as int) == 0);
        lemma_tail_squares(t, xs, 0, 0, n);
    }
}

// Softmax.
/// `(a r) (b e) == (b r) (a e)`.
proof fn lemma_cross<T: Arith>(t: &T, a: u32, b: u32, r: u32, e: u32)
    requires
        algebra::ring(t),
    ensures
        arith::product(t, arith::product(t, a, r), arith::product(t, b, e)) == arith::product(
            t,
            arith::product(t, b, r),
            arith::product(t, a, e),
        ),
{
    let (ar, br) = (arith::product(t, a, r), arith::product(t, b, r));
    algebra::lemma_group(t, ar, b, e);
    algebra::lemma_group(t, br, a, e);
    algebra::lemma_group(t, a, r, b);
    algebra::lemma_group(t, b, r, a);
    algebra::lemma_swap(t, r, b);
    algebra::lemma_swap(t, r, a);
    algebra::lemma_group(t, a, b, r);
    algebra::lemma_group(t, b, a, r);
    algebra::lemma_swap(t, a, b);
}

/// The shares of two elements stand to one another as their exponentials, on every
/// instruction set, where arithmetic does not round.
pub proof fn law_softmax_shares_go_by_exponentials<T: Arith>(
    t: &T,
    isa: Isa,
    xs: Seq<u32>,
    i: int,
    j: int,
)
    requires
        algebra::ring(t),
        exponential_law(t),
        0 <= i < xs.len(),
        0 <= j < xs.len(),
    ensures
        arith::product(t, simd_float_ops::softmax(t, isa, xs)[i], arith::exponential(t, xs[j]))
            == arith::product(
            t,
            simd_float_ops::softmax(t, isa, xs)[j],
            arith::exponential(t, xs[i]),
        ),
{
    let es = simd_float_ops::shifted_exponentials(t, isa, xs);
    let m = simd_float_ops::maximum(t, isa, xs);
    let e = arith::exponential(t, m);
    assert(arith::product(t, es[i], e) == arith::exponential(t, xs[i])) by {
        assert(es[i] == arith::exponential(t, arith::difference(t, xs[i], m)));
    }
    assert(arith::product(t, es[j], e) == arith::exponential(t, xs[j])) by {
        assert(es[j] == arith::exponential(t, arith::difference(t, xs[j], m)));
    }
    let sum = simd_float_ops::total_sums(t, isa, es);
    let r = if arith::greater(t, sum, 0) {
        arith::quotient(t, ONE_BITS, sum)
    } else {
        ONE_BITS
    };
    algebra::lemma_units(t, es[i]);
    algebra::lemma_units(t, es[j]);
    lemma_cross(t, es[i], es[j], r, e);
}

/// Numbers times the exponential of `m` are the exponentials of the elements.
pub open spec fn are_shifted_exponentials<T: Arith>(
    t: &T,
    out: Seq<u32>,
    xs: Seq<u32>,
    m: u32,
) -> bool {
    forall|i: int|
        0 <= i < xs.len() ==> arith::product(t, #[trigger] out[i], arith::exponential(t, m))
            == arith::exponential(t, xs[i])
}

/// The shares add up to one, where positive numbers have a reciprocal. Where no sum
/// of exponentials is positive, the exponentials less a number stay as they are.
pub proof fn law_softmax_shares_add_up_to_one<T: Arith>(t: &T, isa: Isa, xs: Seq<u32>)
    requires
        algebra::ring(t),
        exponential_law(t),
        forall|d: u32| arith::greater(t, d, 0) ==> #[trigger] invertible(t, d),
    ensures
        ({
            let out = simd_float_ops::softmax(t, isa, xs);
            let sum = algebra::total(t, |i: int| out[i], xs.len());
            &&& out.len() == xs.len()
            &&& sum == ONE_BITS || (!arith::greater(t, sum, 0) && exists|m: u32| #[trigger]
                are_shifted_exponentials(t, out, xs, m))
        }),
{
    algebra::lemma_ring_reassociates(t);
    let es = simd_float_ops::shifted_exponentials(t, isa, xs);
    let out = simd_float_ops::softmax(t, isa, xs);
    let n = xs.len();
    let sum = simd_float_ops::total_sums(t, isa, es);
    law_sum_is_of_all(t, isa, es);
    if arith::greater(t, sum, 0) {
        let r = arith::quotient(t, ONE_BITS, sum);
        let f = |i: int| es[i];
        algebra::lemma_scaled_total(t, r, f, n);
        let scaled = |i: int| arith::product(t, r, f(i));
        let shares = |i: int| out[i];
        assert forall|i: int| 0 <= i < n implies #[trigger] scaled(i) == shares(i) by {
            algebra::lemma_swap(t, r, es[i]);
        }
        algebra::lemma_same_terms(t, scaled, shares, n);
        assert(invertible(t, sum));
    } else {
        let m = simd_float_ops::maximum(t, isa, xs);
        algebra::lemma_same_terms(t, |i: int| es[i], |i: int| out[i], n);
        assert forall|i: int| 0 <= i < n implies arith::product(
            t,
            #[trigger] out[i],
            arith::exponential(t, m),
        ) == arith::exponential(t, xs[i]) by {
            assert(es[i] == arith::exponential(t, arith::difference(t, xs[i], m)));
        }
        assert(are_shifted_exponentials(t, out, xs, m));
    }
}

/// A number is one of the elements, and none is greater.
pub open spec fn is_maximum<T: Arith>(t: &T, xs: Seq<u32>, m: u32) -> bool {
    &&& exists|i: int| 0 <= i < xs.len() && #[trigger] xs[i] == m
    &&& forall|i: int| 0 <= i < xs.len() ==> !arith::greater(t, #[trigger] xs[i], m)
}

/// A number bounds the elements that a set picks: none is greater, and it is one of
/// them or negative infinity.
spec fn bounds<T: Arith>(t: &T, xs: Seq<u32>, picks: spec_fn(int) -> bool, m: u32) -> bool {
    &&& m == NEG_INFINITY_BITS || exists|i: int|
        0 <= i < xs.len() && picks(i) && #[trigger] xs[i] == m
    &&& forall|i: int| 0 <= i < xs.len() && picks(i) ==> !arith::greater(t, #[trigger] xs[i], m)
}

proof fn lemma_bounds_join<T: Arith>(
    t: &T,
    xs: Seq<u32>,
    p: spec_fn(int) -> bool,
    q: spec_fn(int) -> bool,
    both: spec_fn(int) -> bool,
    a: u32,
    b: u32,
    m: u32,
)
    requires
        ordered(t),
        bounds(t, xs, p, a),
        bounds(t, xs, q, b),
        forall|i: int| 0 <= i < xs.len() ==> #[trigger] both(i) == (p(i) || q(i)),
        m == a || m == b,
        !arith::greater(t, a, m),
        !arith::greater(t, b, m),
    ensures
        bounds(t, xs, both, m),
{
    if m != NEG_INFINITY_BITS {
        if m == a {
            let i = choose|i: int| 0 <= i < xs.len() && p(i) && #[trigger] xs[i] == a;
            assert(both(i) && xs[i] == m);
        } else {
            let i = choose|i: int| 0 <= i < xs.len() && q(i) && #[trigger] xs[i] == b;
            assert(both(i) && xs[i] == m);
        }
    }
    assert forall|i: int| 0 <= i < xs.len() && both(i) implies !arith::greater(
        t,
        #[trigger] xs[i],
        m,
    ) by {
        assert(both(i) == (p(i) || q(i)));
        if p(i) {
            if m != a && arith::greater(t, xs[i], m) {
                assert(arith::greater(t, m, a));
                assert(arith::greater(t, xs[i], a));
            }
        } else {
            if m != b && arith::greater(t, xs[i], m) {
                assert(arith::greater(t, m, b));
                assert(arith::greater(t, xs[i], b));
            }
        }
    }
}

proof fn lemma_one_bound<T: Arith>(t: &T, xs: Seq<u32>, p: spec_fn(int) -> bool, i: int)
    requires
        ordered(t),
        0 <= i < xs.len(),
        forall|k: int| 0 <= k < xs.len() ==> #[trigger] p(k) == (k == i),
    ensures
        bounds(t, xs, p, xs[i]),
{
    assert(p(i));
    assert forall|k: int| 0 <= k < xs.len() && p(k) implies !arith::greater(
        t,
        #[trigger] xs[k],
        xs[i],
    ) by {
        assert(p(k) == (k == i));
    }
}

proof fn lemma_tail_maxima<T: Arith>(t: &T, xs: Seq<u32>, start: u32, from: int, to: int)
    requires
        ordered(t),
        0 <= from <= to <= xs.len(),
        bounds(t, xs, |i: int| i < from, start),
    ensures
        bounds(t, xs, |i: int| i < to, simd_float_ops::tail_maxima(t, xs, start, from, to)),
    decreases to - from,
{
    if from < to {
        lemma_tail_maxima(t, xs, start, from, to - 1);
        let acc = simd_float_ops::tail_maxima(t, xs, start, from, to - 1);
        let m = simd_float_ops::tail_maxima(t, xs, start, from, to);
        let x = xs[to - 1];
        lemma_one_bound(t, xs, |i: int| i == to - 1, to - 1);
        assert(!arith::greater(t, acc, m) && !arith::greater(t, x, m)) by {
            if arith::greater(t, x, acc) {
                if arith::greater(t, acc, x) {
                    assert(arith::greater(t, x, x));
                }
            }
        }
        lemma_bounds_join(
            t,
            xs,
            |i: int| i < to - 1,
            |i: int| i == to - 1,
            |i: int| i < to,
            acc,
            x,
            m,
        );
    }
}

proof fn lemma_scalar_maximum<T: Arith>(t: &T, xs: Seq<u32>, n: nat)
    requires
        ordered(t),
        n <= xs.len(),
    ensures
        bounds(t, xs, |i: int| i < n, simd_float_ops::scalar_maximum(t, xs, n)),
    decreases n,
{
    if n > 0 {
        let k = (n - 1) as nat;
        lemma_scalar_maximum(t, xs, k);
        let acc = simd_float_ops::scalar_maximum(t, xs, k);
        let x = xs[n - 1];
        let m = simd_float_ops::scalar_maximum(t, xs, n);
        lemma_one_bound(t, xs, |i: int| i == n - 1, n - 1);
        lemma_larger(t, acc, x);
        lemma_bounds_join(t, xs, |i: int| i < k, |i: int| i == n - 1, |i: int| i < n, acc, x, m);
    }
}

/// The larger of two is one of them, and neither is greater.
proof fn lemma_larger<T: Arith>(t: &T, a: u32, b: u32)
    requires
        ordered(t),
    ensures
        ({
            let m = arith::larger(t, a, b);
            &&& m == a || m == b
            &&& !arith::greater(t, a, m)
            &&& !arith::greater(t, b, m)
        }),
        forall|isa: Isa| #[trigger]
            simd_float_ops::lane_larger(t, isa, a, b) == arith::larger(t, a, b),
{
    if arith::greater(t, a, b) && arith::greater(t, b, a) {
        assert(arith::greater(t, a, a));
    }
}

proof fn lemma_lane_maxima<T: Arith>(t: &T, isa: Isa, xs: Seq<u32>, w: int, l: int, n: nat)
    requires
        ordered(t),
        w == 4 || w == 8,
        0 <= l < w,
        n * w <= xs.len(),
    ensures
        bounds(
            t,
            xs,
            |i: int| i < n * w && i % w == l,
            simd_float_ops::lane_maxima(t, isa, xs, w, l, n),
        ),
    decreases n,
{
    let here = |i: int| i < n * w && i % w == l;
    if n == 0 {
        assert(n * w == 0) by (nonlinear_arith)
            requires
                n == 0,
        ;
    } else {
        let k = (n - 1) as nat;
        assert(k * w == n * w - w && k * w >= 0) by (nonlinear_arith)
            requires
                k == n - 1,
                n > 0,
                w > 0,
        ;
        lemma_lane_maxima(t, isa, xs, w, l, k);
        let at = k * w + l;
        let acc = simd_float_ops::lane_maxima(t, isa, xs, w, l, k);
        let m = simd_float_ops::lane_maxima(t, isa, xs, w, l, n);
        let before = |i: int| i < k * w && i % w == l;
        let last = |i: int| i == at;
        lemma_one_bound(t, xs, last, at);
        lemma_larger(t, acc, xs[at]);
        assert forall|i: int| 0 <= i < xs.len() implies #[trigger] here(i) == (before(i) || last(
            i,
        )) by {
            if w == 4 {
                assert(k * w == 4 * k && n * w == 4 * n);
            } else {
                assert(k * w == 8 * k && n * w == 8 * n);
            }
        }
        lemma_bounds_join(t, xs, before, last, here, acc, xs[at], m);
    }
}

proof fn lemma_lanes_join<T: Arith>(
    t: &T,
    isa: Isa,
    xs: Seq<u32>,
    p: spec_fn(int) -> bool,
    q: spec_fn(int) -> bool,
    both: spec_fn(int) -> bool,
    a: u32,
    b: u32,
)
    requires
        ordered(t),
        bounds(t, xs, p, a),
        bounds(t, xs, q, b),
        forall|i: int| 0 <= i < xs.len() ==> #[trigger] both(i) == (p(i) || q(i)),
    ensures
        bounds(t, xs, both, simd_float_ops::lane_larger(t, isa, a, b)),
{
    lemma_larger(t, a, b);
    lemma_bounds_join(t, xs, p, q, both, a, b, simd_float_ops::lane_larger(t, isa, a, b));
}

proof fn lemma_four_lanes<T: Arith>(t: &T, isa: Isa, xs: Seq<u32>, n: nat)
    requires
        ordered(t),
        n * 4 <= xs.len(),
    ensures
        ({
            let v = Seq::new(4, |l: int| simd_float_ops::lane_maxima(t, isa, xs, 4, l, n));
            bounds(
                t,
                xs,
                |i: int| i < n * 4,
                simd_float_ops::lane_larger(
                    t,
                    isa,
                    simd_float_ops::lane_larger(t, isa, v[0], v[1]),
                    simd_float_ops::lane_larger(t, isa, v[2], v[3]),
                ),
            )
        }),
{
    let v = Seq::new(4, |l: int| simd_float_ops::lane_maxima(t, isa, xs, 4, l, n));
    let lane = |l: int| |i: int| i < n * 4 && i % 4 == l;
    lemma_lane_maxima(t, isa, xs, 4, 0, n);
    lemma_lane_maxima(t, isa, xs, 4, 1, n);
    lemma_lane_maxima(t, isa, xs, 4, 2, n);
    lemma_lane_maxima(t, isa, xs, 4, 3, n);
    let low = |i: int| i < n * 4 && i % 4 < 2;
    let high = |i: int| i < n * 4 && i % 4 >= 2;
    lemma_lanes_join(
        t,
        isa,
        xs,
        |i: int| i < n * 4 && i % 4 == 0,
        |i: int| i < n * 4 && i % 4 == 1,
        low,
        v[0],
        v[1],
    );
    lemma_lanes_join(
        t,
        isa,
        xs,
        |i: int| i < n * 4 && i % 4 == 2,
        |i: int| i < n * 4 && i % 4 == 3,
        high,
        v[2],
        v[3],
    );
    lemma_lanes_join(
        t,
        isa,
        xs,
        low,
        high,
        |i: int| i < n * 4,
        simd_float_ops::lane_larger(t, isa, v[0], v[1]),
        simd_float_ops::lane_larger(t, isa, v[2], v[3]),
    );
}

proof fn lemma_eight_lanes<T: Arith>(t: &T, isa: Isa, xs: Seq<u32>, n: nat)
    requires
        ordered(t),
        n * 8 <= xs.len(),
    ensures
        ({
            let v = Seq::new(8, |l: int| simd_float_ops::lane_maxima(t, isa, xs, 8, l, n));
            let m = Seq::new(4, |l: int| simd_float_ops::lane_larger(t, isa, v[l], v[l + 4]));
            bounds(
                t,
                xs,
                |i: int| i < n * 8,
                simd_float_ops::lane_larger(
                    t,
                    isa,
                    simd_float_ops::lane_larger(t, isa, m[0], m[2]),
                    simd_float_ops::lane_larger(t, isa, m[1], m[3]),
                ),
            )
        }),
{
    let v = Seq::new(8, |l: int| simd_float_ops::lane_maxima(t, isa, xs, 8, l, n));
    let m = Seq::new(4, |l: int| simd_float_ops::lane_larger(t, isa, v[l], v[l + 4]));
    lemma_lane_pair(t, isa, xs, n, 0);
    lemma_lane_pair(t, isa, xs, n, 1);
    lemma_lane_pair(t, isa, xs, n, 2);
    lemma_lane_pair(t, isa, xs, n, 3);
    let even = |i: int| i < n * 8 && i % 4 % 2 == 0;
    let odd = |i: int| i < n * 8 && i % 4 % 2 == 1;
    lemma_lanes_join(
        t,
        isa,
        xs,
        |i: int| i < n * 8 && i % 4 == 0,
        |i: int| i < n * 8 && i % 4 == 2,
        even,
        m[0],
        m[2],
    );
    lemma_lanes_join(
        t,
        isa,
        xs,
        |i: int| i < n * 8 && i % 4 == 1,
        |i: int| i < n * 8 && i % 4 == 3,
        odd,
        m[1],
        m[3],
    );
    lemma_lanes_join(
        t,
        isa,
        xs,
        even,
        odd,
        |i: int| i < n * 8,
        simd_float_ops::lane_larger(t, isa, m[0], m[2]),
        simd_float_ops::lane_larger(t, isa, m[1], m[3]),
    );
}

proof fn lemma_lane_pair<T: Arith>(t: &T, isa: Isa, xs: Seq<u32>, n: nat, l: int)
    requires
        ordered(t),
        n * 8 <= xs.len(),
        0 <= l < 4,
    ensures
        bounds(
            t,
            xs,
            |i: int| i < n * 8 && i % 4 == l,
            simd_float_ops::lane_larger(
                t,
                isa,
                simd_float_ops::lane_maxima(t, isa, xs, 8, l, n),
                simd_float_ops::lane_maxima(t, isa, xs, 8, l + 4, n),
            ),
        ),
{
    lemma_lane_maxima(t, isa, xs, 8, l, n);
    lemma_lane_maxima(t, isa, xs, 8, l + 4, n);
    lemma_lanes_join(
        t,
        isa,
        xs,
        |i: int| i < n * 8 && i % 8 == l,
        |i: int| i < n * 8 && i % 8 == l + 4,
        |i: int| i < n * 8 && i % 4 == l,
        simd_float_ops::lane_maxima(t, isa, xs, 8, l, n),
        simd_float_ops::lane_maxima(t, isa, xs, 8, l + 4, n),
    );
}

/// What softmax takes off its elements is their maximum, so that no exponential is
/// of a positive number.
pub proof fn law_softmax_takes_off_the_maximum<T: Arith>(t: &T, isa: Isa, xs: Seq<u32>)
    requires
        ordered(t),
        xs.len() > 0,
    ensures
        is_maximum(t, xs, simd_float_ops::maximum(t, isa, xs)),
{
    let n = xs.len() as int;
    let m = simd_float_ops::maximum(t, isa, xs);
    let none = |i: int| i < 0;
    assert(bounds(t, xs, none, NEG_INFINITY_BITS));
    if isa is Scalar {
        lemma_scalar_maximum(t, xs, xs.len());
    } else if isa is Neon && n >= 4 {
        lemma_four_lanes(t, isa, xs, xs.len() / 4);
        let v = Seq::new(4, |l: int| simd_float_ops::lane_maxima(t, isa, xs, 4, l, xs.len() / 4));
        let top = simd_float_ops::lane_larger(
            t,
            isa,
            simd_float_ops::lane_larger(t, isa, v[0], v[1]),
            simd_float_ops::lane_larger(t, isa, v[2], v[3]),
        );
        lemma_tail_maxima(t, xs, top, n / 4 * 4, n);
    } else if isa is Avx2 && n >= 8 {
        lemma_eight_lanes(t, isa, xs, xs.len() / 8);
        let v = Seq::new(8, |l: int| simd_float_ops::lane_maxima(t, isa, xs, 8, l, xs.len() / 8));
        let p = Seq::new(4, |l: int| simd_float_ops::lane_larger(t, isa, v[l], v[l + 4]));
        let top = simd_float_ops::lane_larger(
            t,
            isa,
            simd_float_ops::lane_larger(t, isa, p[0], p[2]),
            simd_float_ops::lane_larger(t, isa, p[1], p[3]),
        );
        lemma_tail_maxima(t, xs, top, n / 8 * 8, n);
    } else {
        lemma_tail_maxima(t, xs, NEG_INFINITY_BITS, 0, n);
    }
    let all = |i: int| i < n;
    assert(bounds(t, xs, all, m));
    if m == NEG_INFINITY_BITS {
        assert(all(0) && !arith::greater(t, xs[0], m));
        assert(!arith::greater(t, m, xs[0]));
        assert(xs[0] == m);
    }
}

/// Exponentials of the differences to `m`, times `r`.
pub open spec fn are_scaled_exponentials<T: Arith>(
    t: &T,
    out: Seq<u32>,
    xs: Seq<u32>,
    m: u32,
    r: u32,
) -> bool {
    &&& out.len() == xs.len()
    &&& forall|i: int|
        0 <= i < xs.len() ==> #[trigger] out[i] == arith::product(
            t,
            arith::exponential(t, arith::difference(t, xs[i], m)),
            r,
        )
}

/// Exponentials of the differences to `m`.
pub open spec fn are_exponentials<T: Arith>(t: &T, out: Seq<u32>, xs: Seq<u32>, m: u32) -> bool {
    &&& out.len() == xs.len()
    &&& forall|i: int|
        0 <= i < xs.len() ==> #[trigger] out[i] == arith::exponential(
            t,
            arith::difference(t, xs[i], m),
        )
}

/// Exponentials of the differences to `m`, over `d`.
pub open spec fn are_divided_exponentials<T: Arith>(
    t: &T,
    out: Seq<u32>,
    xs: Seq<u32>,
    m: u32,
    d: u32,
) -> bool {
    &&& out.len() == xs.len()
    &&& forall|i: int|
        0 <= i < xs.len() ==> #[trigger] out[i] == arith::quotient(
            t,
            arith::exponential(t, arith::difference(t, xs[i], m)),
            d,
        )
}

/// Softmax takes the exponentials of the differences to the maximum, and scales them all
/// alike, or not at all.
pub proof fn law_softmax_of_the_differences_to_the_maximum<T: Arith>(t: &T, isa: Isa, xs: Seq<u32>)
    requires
        ordered(t),
        xs.len() > 0,
    ensures
        exists|m: u32, r: u32|
            #![trigger are_scaled_exponentials(t, simd_float_ops::softmax(t, isa, xs), xs, m, r)]
            {
                let out = simd_float_ops::softmax(t, isa, xs);
                &&& is_maximum(t, xs, m)
                &&& are_scaled_exponentials(t, out, xs, m, r) || are_exponentials(t, out, xs, m)
            },
{
    law_softmax_takes_off_the_maximum(t, isa, xs);
    let m = simd_float_ops::maximum(t, isa, xs);
    let out = simd_float_ops::softmax(t, isa, xs);
    let total = simd_float_ops::total_sums(
        t,
        isa,
        simd_float_ops::shifted_exponentials(t, isa, xs),
    );
    let r = arith::quotient(t, ONE_BITS, total);
    assert(are_scaled_exponentials(t, out, xs, m, r) || are_exponentials(t, out, xs, m));
}

/// The processor's softmax, in the same way: the exponentials of the differences to the
/// maximum, over a number that is the same for all, or equal shares.
pub proof fn law_processor_softmax_of_the_differences<T: Arith>(t: &T, xs: Seq<u32>, size: usize)
    requires
        ordered(t),
        xs.len() == size,
        size > 0,
    ensures
        cpu::softmax_shares(t, xs, size) == Seq::new(
            size as nat,
            |i: int| arith::quotient(t, ONE_BITS, arith::of_count(t, size)),
        ) || exists|m: u32, d: u32|
            #![trigger are_divided_exponentials(t, cpu::softmax_shares(t, xs, size), xs, m, d)]
            is_maximum(t, xs, m) && are_divided_exponentials(
                t,
                cpu::softmax_shares(t, xs, size),
                xs,
                m,
                d,
            ),
{
    law_softmax_takes_off_the_maximum(t, Isa::Scalar, xs);
    let m = simd_float_ops::scalar_maximum(t, xs, xs.len());
    let es = cpu::exponentials(t, xs);
    let d = simd_float_ops::tail_sums(t, es, 0, 0, es.len() as int);
    let out = cpu::softmax_shares(t, xs, size);
    if !cpu::is_zero(d) {
        assert(are_divided_exponentials(t, out, xs, m, d));
    }
}

// RMS normalisation.
/// Each output times the root of the mean of squares is the weighted input, on every
/// instruction set, where arithmetic does not round.
pub proof fn law_rms_norm<T: Arith>(
    t: &T,
    isa: Isa,
    xs: Seq<u32>,
    weights: Seq<u32>,
    before: Seq<u32>,
    eps: u32,
    i: int,
)
    requires
        algebra::ring(t),
        0 <= i < xs.len(),
        weights.len() == xs.len(),
        xs.len() <= usize::MAX,
        xs.len() <= before.len(),
        invertible(
            t,
            arith::square_root(
                t,
                arith::sum(
                    t,
                    arith::quotient(
                        t,
                        algebra::total(t, |j: int| arith::product(t, xs[j], xs[j]), xs.len()),
                        arith::of_count(t, xs.len() as usize),
                    ),
                    eps,
                ),
            ),
        ),
    ensures
        ({
            let root = arith::square_root(
                t,
                arith::sum(
                    t,
                    arith::quotient(
                        t,
                        algebra::total(t, |j: int| arith::product(t, xs[j], xs[j]), xs.len()),
                        arith::of_count(t, xs.len() as usize),
                    ),
                    eps,
                ),
            );
            let out = simd_float_ops::rms_output(t, isa, xs, weights, before, eps);
            arith::product(t, out[i], root) == arith::product(t, weights[i], xs[i])
        }),
{
    algebra::lemma_ring_reassociates(t);
    law_square_sum_is_of_all(t, isa, xs);
    let scale = simd_float_ops::inverse_rms(t, isa, xs, eps);
    let root = arith::square_root(
        t,
        arith::sum(
            t,
            arith::quotient(
                t,
                algebra::total(t, |j: int| arith::product(t, xs[j], xs[j]), xs.len()),
                arith::of_count(t, xs.len() as usize),
            ),
            eps,
        ),
    );
    let (x, w) = (xs[i], weights[i]);
    let wx = arith::product(t, w, x);
    algebra::lemma_group(t, w, x, scale);
    algebra::lemma_group(t, wx, scale, root);
    algebra::lemma_units(t, wx);
}

// SiLU and SwiGLU.
/// One step that refines a reciprocal squares its error: with `e == 1 - d r`, and `s`
/// two less `d r`, `1 - d (s r)` is `e e`.
proof fn lemma_refined<T: Arith>(t: &T, d: u32, r: u32, e: u32, s: u32)
    requires
        algebra::ring(t),
        arith::sum(t, e, arith::product(t, d, r)) == ONE_BITS,
        arith::sum(t, s, arith::product(t, d, r)) == arith::sum(t, ONE_BITS, ONE_BITS),
    ensures
        arith::sum(
            t,
            arith::product(t, e, e),
            arith::product(t, d, arith::product(t, s, r)),
        ) == ONE_BITS,
{
    algebra::lemma_ring_reassociates(t);
    let p = arith::product(t, d, r);
    let ep = arith::product(t, e, p);
    let ee = arith::product(t, e, e);
    arith::lemma_regroups(t, ONE_BITS, e, p);
    algebra::lemma_cancel(t, s, arith::sum(t, ONE_BITS, e), p);
    // d (s r) == s p == p + e p
    algebra::lemma_group(t, d, s, r);
    algebra::lemma_swap(t, d, s);
    algebra::lemma_group(t, s, d, r);
    algebra::lemma_swap(t, s, p);
    algebra::lemma_distribute(t, p, ONE_BITS, e);
    algebra::lemma_units(t, p);
    algebra::lemma_swap(t, p, e);
    // e e + (p + e p) == p + e (e + p)
    arith::lemma_commutes(t, p, ep);
    arith::lemma_regroups(t, ee, ep, p);
    algebra::lemma_distribute(t, e, e, p);
    algebra::lemma_units(t, e);
}

/// Factors `x` and `y` of two products with `d`.
proof fn lemma_move_factor<T: Arith>(t: &T, x: u32, r: u32, d: u32)
    requires
        algebra::ring(t),
    ensures
        arith::product(t, arith::product(t, x, r), d) == arith::product(
            t,
            x,
            arith::product(t, d, r),
        ),
{
    algebra::lemma_group(t, x, r, d);
    algebra::lemma_swap(t, r, d);
}

/// What one plus the exponential of minus `x` is on an instruction set, where the
/// sign bit, or a difference from zero, negates.
pub open spec fn logistic_divisor<T: Arith>(t: &T, x: u32) -> u32 {
    arith::sum(t, ONE_BITS, arith::exponential(t, x ^ 0x8000_0000))
}

/// How far a first estimate of a reciprocal is off.
pub open spec fn estimate_error<T: Arith>(t: &T, d: u32) -> u32 {
    arith::difference(t, ONE_BITS, arith::product(t, d, arith::reciprocal_estimate(t, d)))
}

/// SiLU times one plus the exponential of minus `x` is `x`, where arithmetic does not
/// round. In ARM's lanes, where the reciprocal is refined from an estimate, what is
/// missing is `x` times the fourth power of the estimate's error.
pub proof fn law_silu<T: Arith>(t: &T, isa: Isa, xs: Seq<u32>, before: Seq<u32>, i: int)
    requires
        algebra::ring(t),
        0 <= i < xs.len() <= before.len(),
        invertible(t, logistic_divisor(t, xs[i])),
        divides(t, xs[i], logistic_divisor(t, xs[i])),
        arith::difference(t, 0, xs[i]) == xs[i] ^ 0x8000_0000,
        forall|a: u32, b: u32| #[trigger]
            arith::sum(t, arith::reciprocal_step(t, a, b), arith::product(t, a, b)) == arith::sum(
                t,
                ONE_BITS,
                ONE_BITS,
            ),
    ensures
        ({
            let x = xs[i];
            let d = logistic_divisor(t, x);
            let out = arith::product(t, simd_float_ops::silu_output(t, isa, xs, before)[i], d);
            let e = estimate_error(t, d);
            let ee = arith::product(t, e, e);
            if isa is Neon && i < xs.len() / 4 * 4 {
                arith::sum(t, arith::product(t, x, arith::product(t, ee, ee)), out) == x
            } else {
                out == x
            }
        }),
{
    lemma_silu(t, isa, xs.len() as int, i, xs[i]);
}

proof fn lemma_silu<T: Arith>(t: &T, isa: Isa, n: int, i: int, x: u32)
    requires
        algebra::ring(t),
        invertible(t, logistic_divisor(t, x)),
        divides(t, x, logistic_divisor(t, x)),
        arith::difference(t, 0, x) == x ^ 0x8000_0000,
        forall|a: u32, b: u32| #[trigger]
            arith::sum(t, arith::reciprocal_step(t, a, b), arith::product(t, a, b)) == arith::sum(
                t,
                ONE_BITS,
                ONE_BITS,
            ),
    ensures
        ({
            let d = logistic_divisor(t, x);
            let out = arith::product(t, simd_float_ops::silu_at(t, isa, n, i, x), d);
            let e = estimate_error(t, d);
            let ee = arith::product(t, e, e);
            if isa is Neon && i < n / 4 * 4 {
                arith::sum(t, arith::product(t, x, arith::product(t, ee, ee)), out) == x
            } else {
                out == x
            }
        }),
{
    algebra::lemma_ring_reassociates(t);
    let d = logistic_divisor(t, x);
    let q = arith::quotient(t, ONE_BITS, d);
    algebra::lemma_group(t, x, q, d);
    algebra::lemma_units(t, x);
    if isa is Neon && i < n / 4 * 4 {
        let r0 = arith::reciprocal_estimate(t, d);
        let s0 = arith::reciprocal_step(t, d, r0);
        let r1 = arith::product(t, s0, r0);
        let s1 = arith::reciprocal_step(t, d, r1);
        let r2 = arith::product(t, s1, r1);
        let e = estimate_error(t, d);
        let ee = arith::product(t, e, e);
        algebra::lemma_difference(t, ONE_BITS, arith::product(t, d, r0));
        lemma_refined(t, d, r0, e, s0);
        lemma_refined(t, d, r1, ee, s1);
        lemma_move_factor(t, x, r2, d);
        algebra::lemma_distribute(t, x, arith::product(t, ee, ee), arith::product(t, d, r2));
    }
}

/// SwiGLU times one plus the exponential of the minus gate is gate times up, where
/// arithmetic does not round; in ARM's lanes up to the fourth power of the estimate's
/// error.
pub proof fn law_swiglu<T: Arith>(
    t: &T,
    isa: Isa,
    gate: Seq<u32>,
    up: Seq<u32>,
    before: Seq<u32>,
    i: int,
)
    requires
        algebra::ring(t),
        0 <= i < gate.len() <= before.len(),
        up.len() == gate.len(),
        invertible(t, logistic_divisor(t, gate[i])),
        divides(t, gate[i], logistic_divisor(t, gate[i])),
        arith::difference(t, 0, gate[i]) == gate[i] ^ 0x8000_0000,
        forall|a: u32, b: u32| #[trigger]
            arith::sum(t, arith::reciprocal_step(t, a, b), arith::product(t, a, b)) == arith::sum(
                t,
                ONE_BITS,
                ONE_BITS,
            ),
    ensures
        ({
            let (x, y) = (gate[i], up[i]);
            let d = logistic_divisor(t, x);
            let out = arith::product(
                t,
                simd_float_ops::swiglu_output(t, isa, gate, up, before)[i],
                d,
            );
            let e = estimate_error(t, d);
            let ee = arith::product(t, e, e);
            if isa is Neon && i < gate.len() / 4 * 4 {
                arith::sum(
                    t,
                    arith::product(t, y, arith::product(t, x, arith::product(t, ee, ee))),
                    out,
                ) == arith::product(t, x, y)
            } else {
                out == arith::product(t, x, y)
            }
        }),
{
    let (x, y) = (gate[i], up[i]);
    let n = gate.len() as int;
    lemma_silu(t, isa, n, i, x);
    let s = simd_float_ops::silu_at(t, isa, n, i, x);
    let d = logistic_divisor(t, x);
    let e = estimate_error(t, d);
    let ee = arith::product(t, e, e);
    let rest = arith::product(t, x, arith::product(t, ee, ee));
    let sd = arith::product(t, s, d);
    algebra::lemma_group(t, s, y, d);
    algebra::lemma_swap(t, y, d);
    algebra::lemma_group(t, s, d, y);
    algebra::lemma_swap(t, sd, y);
    algebra::lemma_distribute(t, y, rest, sd);
    algebra::lemma_swap(t, y, x);
}

// Rotary embeddings.
/// Each pair is turned by its angle: with `x0` and `x1` the numbers of a pair, one from
/// each half of the input, the first becomes `x0 cos - x1 sin` and the second
/// `x0 sin + x1 cos`. This holds on every instruction set, where arithmetic does not
/// round and flipping the sign of `x1` negates it.
pub proof fn law_rope_turns_pairs<T: Arith>(
    t: &T,
    isa: Isa,
    x: Seq<u32>,
    cos: Seq<u32>,
    sin: Seq<u32>,
    before: Seq<u32>,
    i: int,
)
    requires
        algebra::ring(t),
        x.len() % 2 == 0,
        before.len() >= x.len(),
        0 <= i < x.len() / 2,
        arith::sum(t, x[x.len() / 2 + i] ^ 0x8000_0000, x[x.len() / 2 + i]) == 0,
    ensures
        ({
            let half = (x.len() / 2) as int;
            let y = simd_float_ops::rotated(t, isa, x, cos, sin, before);
            let (x0, x1) = (x[i], x[half + i]);
            &&& arith::sum(t, y[i], arith::product(t, x1, sin[i])) == arith::product(t, x0, cos[i])
            &&& y[half + i] == arith::sum(
                t,
                arith::product(t, x0, sin[i]),
                arith::product(t, x1, cos[i]),
            )
        }),
{
    algebra::lemma_ring_reassociates(t);
    let half = (x.len() / 2) as int;
    let (x0, x1, c, s) = (x[i], x[half + i], cos[i], sin[i]);
    let minus = x1 ^ 0x8000_0000;
    let (x0c, x1c) = (arith::product(t, x0, c), arith::product(t, x1, c));
    let (x0s, x1s) = (arith::product(t, x0, s), arith::product(t, x1, s));
    arith::lemma_fused_is_two(t, minus, s, x0c);
    arith::lemma_fused_is_two(t, x0, s, x1c);
    arith::lemma_commutes(t, x1c, x0s);
    algebra::lemma_difference(t, x0c, x1s);
    // (-x1 s + x0 c) + x1 s == x0 c
    let ms = arith::product(t, minus, s);
    arith::lemma_commutes(t, ms, x0c);
    arith::lemma_regroups(t, x0c, ms, x1s);
    algebra::lemma_swap(t, minus, s);
    algebra::lemma_swap(t, x1, s);
    algebra::lemma_distribute(t, s, minus, x1);
    algebra::lemma_units(t, s);
    arith::lemma_zero_adds_nothing(t, x0c);
}

// The processor's backend.
/// Element `r` of a matrix-vector product is the sum of row `r` times the vector.
pub proof fn law_matvec<T: Arith>(t: &T, a: Seq<u32>, x: Seq<u32>, m: usize, k: usize, r: int)
    requires
        0 <= r < m,
        m * k <= a.len(),
    ensures
        cpu::matvec_product(t, a, x, m, k)[r] == algebra::total(
            t,
            |j: int| arith::product(t, a[r * k + j], x[j]),
            k as nat,
        ),
{
    let w = a.subrange(r * k, r * k + k);
    assert(0 <= r * k && r * k + k <= m * k) by (nonlinear_arith)
        requires
            0 <= r < m,
            k >= 0,
    ;
    product_laws::lemma_dot(t, w, x, k as nat);
    algebra::lemma_same_terms(
        t,
        |j: int| arith::product(t, w[j], x[j]),
        |j: int| arith::product(t, a[r * k + j], x[j]),
        k as nat,
    );
}

/// The processor's softmax shares out by exponentials: the shares of two elements
/// stand to one another as their exponentials, and they add up to one, or are one
/// over the count where all exponentials add up to zero.
pub proof fn law_processor_softmax<T: Arith>(t: &T, xs: Seq<u32>, size: usize, i: int, j: int)
    requires
        algebra::ring(t),
        exponential_law(t),
        0 < size,
        xs.len() == size,
        0 <= i < size,
        0 <= j < size,
        forall|a: u32, d: u32| #[trigger] divides(t, a, d),
    ensures
        ({
            let out = cpu::softmax_shares(t, xs, size);
            let sum = algebra::total(t, |k: int| out[k], size as nat);
            &&& out.len() == size
            &&& arith::product(t, out[i], arith::exponential(t, xs[j])) == arith::product(
                t,
                out[j],
                arith::exponential(t, xs[i]),
            ) || out[i] == out[j] && out[i] == arith::quotient(
                t,
                ONE_BITS,
                arith::of_count(t, size),
            )
            &&& (forall|d: u32| d != 0 && d != 0x8000_0000 ==> #[trigger] invertible(t, d)) ==> sum
                == ONE_BITS || out[i] == arith::quotient(t, ONE_BITS, arith::of_count(t, size))
        }),
{
    algebra::lemma_ring_reassociates(t);
    let es = cpu::exponentials(t, xs);
    let out = cpu::softmax_shares(t, xs, size);
    let m = simd_float_ops::scalar_maximum(t, xs, xs.len());
    let e = arith::exponential(t, m);
    assert(es[i] == arith::exponential(t, arith::difference(t, xs[i], m)));
    assert(es[j] == arith::exponential(t, arith::difference(t, xs[j], m)));
    let total = simd_float_ops::tail_sums(t, es, 0, 0, es.len() as int);
    lemma_tail_sums(t, es, 0, 0, es.len());
    if !cpu::is_zero(total) {
        let r = arith::quotient(t, ONE_BITS, total);
        assert(divides(t, es[i], total) && divides(t, es[j], total));
        lemma_cross(t, es[i], es[j], r, e);
        if forall|d: u32| d != 0 && d != 0x8000_0000 ==> #[trigger] invertible(t, d) {
            let f = |k: int| es[k];
            algebra::lemma_scaled_total(t, r, f, es.len());
            let scaled = |k: int| arith::product(t, r, f(k));
            let shares = |k: int| out[k];
            assert forall|k: int| 0 <= k < es.len() implies #[trigger] scaled(k) == shares(k) by {
                assert(divides(t, es[k], total));
                algebra::lemma_swap(t, r, es[k]);
            }
            algebra::lemma_same_terms(t, scaled, shares, es.len());
            assert(invertible(t, total));
        }
    }
}

/// The attention scale, squared, is one over the head's size.
pub proof fn law_attention_scale<T: Arith>(t: &T, head_dim: usize, r: u32)
    requires
        algebra::ring(t),
        call_ensures(arith::attention_scale::<T>, (t, head_dim), r),
        ({
            let n = arith::of_count(t, head_dim);
            let root = arith::square_root(t, n);
            &&& arith::product(t, root, root) == n
            &&& invertible(t, root)
        }),
    ensures
        arith::product(t, arith::product(t, r, r), arith::of_count(t, head_dim)) == ONE_BITS,
{
    let n = arith::of_count(t, head_dim);
    let root = arith::square_root(t, n);
    // (r r) (root root) == (r root) (r root)
    lemma_cross(t, r, root, r, root);
    algebra::lemma_swap(t, root, r);
    algebra::lemma_units(t, ONE_BITS);
}

} // verus!

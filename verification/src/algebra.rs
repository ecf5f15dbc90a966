//! Sums and products of many numbers, where arithmetic does not round.

use vstd::prelude::*;

use crate::arith;
use crate::arith::{Arith, ONE_BITS};

verus! {

/// Arithmetic is that of a commutative ring: sums and products may be regrouped and
/// reordered, products distribute over sums, one and zero are neutral, and adding
/// undoes a difference. Rounding arithmetic is like that up to rounding.
#[verifier::opaque]
pub open spec fn ring<T: Arith>(t: &T) -> bool {
    &&& arith::reassociates(t)
    &&& forall|a: u32, b: u32| #[trigger] arith::product(t, a, b) == arith::product(t, b, a)
    &&& forall|a: u32, b: u32, c: u32| #[trigger]
        arith::product(t, arith::product(t, a, b), c) == arith::product(
            t,
            a,
            arith::product(t, b, c),
        )
    &&& forall|a: u32, b: u32, c: u32| #[trigger]
        arith::product(t, a, arith::sum(t, b, c)) == arith::sum(
            t,
            arith::product(t, a, b),
            arith::product(t, a, c),
        )
    &&& forall|a: u32| #[trigger] arith::product(t, a, ONE_BITS) == a
    &&& forall|a: u32| #[trigger] arith::product(t, a, 0) == 0
    &&& forall|a: u32, b: u32| #[trigger] arith::sum(t, arith::difference(t, a, b), b) == a
}

/// A ring's sums may be regrouped.
pub proof fn lemma_ring_reassociates<T: Arith>(t: &T)
    requires
        ring(t),
    ensures
        arith::reassociates(t),
{
    reveal(ring);
}

/// Factors may change places.
pub proof fn lemma_swap<T: Arith>(t: &T, a: u32, b: u32)
    requires
        ring(t),
    ensures
        arith::product(t, a, b) == arith::product(t, b, a),
{
    reveal(ring);
}

/// Factors may be regrouped.
pub proof fn lemma_group<T: Arith>(t: &T, a: u32, b: u32, c: u32)
    requires
        ring(t),
    ensures
        arith::product(t, arith::product(t, a, b), c) == arith::product(
            t,
            a,
            arith::product(t, b, c),
        ),
{
    reveal(ring);
}

/// A factor may be applied to each term.
pub proof fn lemma_distribute<T: Arith>(t: &T, a: u32, b: u32, c: u32)
    requires
        ring(t),
    ensures
        arith::product(t, a, arith::sum(t, b, c)) == arith::sum(
            t,
            arith::product(t, a, b),
            arith::product(t, a, c),
        ),
{
    reveal(ring);
}

/// One and zero as factors.
pub proof fn lemma_units<T: Arith>(t: &T, a: u32)
    requires
        ring(t),
    ensures
        arith::product(t, a, ONE_BITS) == a,
        arith::product(t, ONE_BITS, a) == a,
        arith::product(t, a, 0) == 0,
        arith::product(t, 0, a) == 0,
{
    reveal(ring);
    lemma_swap(t, a, ONE_BITS);
    lemma_swap(t, a, 0);
}

/// Adding what was taken away.
pub proof fn lemma_difference<T: Arith>(t: &T, a: u32, b: u32)
    requires
        ring(t),
    ensures
        arith::sum(t, arith::difference(t, a, b), b) == a,
{
    reveal(ring);
}

/// What is added on both sides may be left out.
pub proof fn lemma_cancel<T: Arith>(t: &T, a: u32, b: u32, c: u32)
    requires
        ring(t),
        arith::sum(t, a, c) == arith::sum(t, b, c),
    ensures
        a == b,
{
    lemma_ring_reassociates(t);
    let minus = arith::difference(t, 0, c);
    lemma_difference(t, 0, c);
    arith::lemma_regroups(t, a, c, minus);
    arith::lemma_regroups(t, b, c, minus);
    arith::lemma_commutes(t, c, minus);
    arith::lemma_zero_adds_nothing(t, a);
    arith::lemma_zero_adds_nothing(t, b);
}

/// Two pairs may be added up across.
pub proof fn lemma_interchange<T: Arith>(t: &T, a: u32, b: u32, c: u32, d: u32)
    requires
        arith::reassociates(t),
    ensures
        arith::sum(t, arith::sum(t, a, b), arith::sum(t, c, d)) == arith::sum(
            t,
            arith::sum(t, a, c),
            arith::sum(t, b, d),
        ),
{
    arith::lemma_regroups(t, a, b, arith::sum(t, c, d));
    arith::lemma_regroups(t, b, c, d);
    arith::lemma_commutes(t, b, c);
    arith::lemma_regroups(t, c, b, d);
    arith::lemma_regroups(t, a, c, arith::sum(t, b, d));
}

/// The first `n` terms, added up.
pub open spec fn total<T: Arith>(t: &T, f: spec_fn(int) -> u32, n: nat) -> u32
    decreases n,
{
    if n == 0 {
        0
    } else {
        arith::sum(t, total(t, f, (n - 1) as nat), f(n - 1))
    }
}

/// Equal terms have equal totals.
pub proof fn lemma_same_terms<T: Arith>(
    t: &T,
    f: spec_fn(int) -> u32,
    g: spec_fn(int) -> u32,
    n: nat,
)
    requires
        forall|i: int| 0 <= i < n ==> #[trigger] f(i) == g(i),
    ensures
        total(t, f, n) == total(t, g, n),
    decreases n,
{
    if n > 0 {
        lemma_same_terms(t, f, g, (n - 1) as nat);
    }
}

/// The total of two parts is that of the whole.
pub proof fn lemma_split<T: Arith>(t: &T, f: spec_fn(int) -> u32, m: nat, n: nat)
    requires
        arith::reassociates(t),
    ensures
        total(t, f, m + n) == arith::sum(t, total(t, f, m), total(t, |i: int| f(m + i), n)),
    decreases n,
{
    let g = |i: int| f(m + i);
    if n == 0 {
        arith::lemma_zero_adds_nothing(t, total(t, f, m));
    } else {
        let k = (n - 1) as nat;
        lemma_split(t, f, m, k);
        arith::lemma_regroups(t, total(t, f, m), total(t, g, k), g(k as int));
    }
}

/// The total of sums is the sum of totals.
pub proof fn lemma_total_of_sums<T: Arith>(
    t: &T,
    f: spec_fn(int) -> u32,
    g: spec_fn(int) -> u32,
    n: nat,
)
    requires
        arith::reassociates(t),
    ensures
        total(t, |i: int| arith::sum(t, f(i), g(i)), n) == arith::sum(
            t,
            total(t, f, n),
            total(t, g, n),
        ),
    decreases n,
{
    if n == 0 {
        arith::lemma_zero_adds_nothing(t, 0);
    } else {
        let k = (n - 1) as nat;
        lemma_total_of_sums(t, f, g, k);
        lemma_interchange(t, total(t, f, k), total(t, g, k), f(k as int), g(k as int));
    }
}

/// A factor may be applied to each term of a total.
pub proof fn lemma_scaled_total<T: Arith>(t: &T, c: u32, f: spec_fn(int) -> u32, n: nat)
    requires
        ring(t),
    ensures
        arith::product(t, c, total(t, f, n)) == total(
            t,
            |i: int| arith::product(t, c, f(i)),
            n,
        ),
    decreases n,
{
    if n == 0 {
        lemma_units(t, c);
    } else {
        let k = (n - 1) as nat;
        lemma_scaled_total(t, c, f, k);
        lemma_distribute(t, c, total(t, f, k), f(k as int));
    }
}

/// The terms of lane `l` of `w`, `rounds` of them.
pub open spec fn lane_total<T: Arith>(
    t: &T,
    f: spec_fn(int) -> u32,
    w: int,
    l: int,
    rounds: nat,
) -> u32 {
    total(t, |c: int| f(c * w + l), rounds)
}

/// The lanes together have all terms.
pub proof fn lemma_lanes<T: Arith>(t: &T, f: spec_fn(int) -> u32, w: nat, rounds: nat)
    requires
        arith::reassociates(t),
    ensures
        total(t, |l: int| lane_total(t, f, w as int, l, rounds), w) == total(t, f, rounds * w),
    decreases rounds,
{
    let lanes = |l: int| lane_total(t, f, w as int, l, rounds);
    if rounds == 0 {
        assert(rounds * w == 0) by (nonlinear_arith)
            requires
                rounds == 0,
        ;
        lemma_zeros(t, lanes, w);
    } else {
        let r = (rounds - 1) as nat;
        lemma_lanes(t, f, w, r);
        let before = |l: int| lane_total(t, f, w as int, l, r);
        let last = |l: int| f(r * w + l);
        lemma_total_of_sums(t, before, last, w);
        let both = |l: int| arith::sum(t, before(l), last(l));
        assert forall|l: int| 0 <= l < w implies #[trigger] lanes(l) == both(l) by {}
        lemma_same_terms(t, lanes, both, w);
        lemma_split(t, f, r * w, w);
        assert((r + 1) * w == r * w + w) by (nonlinear_arith);
        lemma_same_terms(t, last, |i: int| f((r * w) as nat + i), w);
    }
}

/// Nothing but zeros adds up to zero.
pub proof fn lemma_zeros<T: Arith>(t: &T, f: spec_fn(int) -> u32, n: nat)
    requires
        arith::reassociates(t),
        forall|i: int| 0 <= i < n ==> #[trigger] f(i) == 0,
    ensures
        total(t, f, n) == 0,
    decreases n,
{
    if n > 0 {
        lemma_zeros(t, f, (n - 1) as nat);
        arith::lemma_zero_adds_nothing(t, 0);
    }
}

/// Even and odd terms together have all terms.
pub proof fn lemma_even_and_odd<T: Arith>(t: &T, f: spec_fn(int) -> u32, n: nat)
    requires
        arith::reassociates(t),
    ensures
        arith::sum(
            t,
            total(t, |c: int| f(2 * c), n),
            total(t, |c: int| f(2 * c + 1), n),
        ) == total(t, f, 2 * n),
    decreases n,
{
    let (even, odd) = (|c: int| f(2 * c), |c: int| f(2 * c + 1));
    if n == 0 {
        arith::lemma_zero_adds_nothing(t, 0);
    } else {
        let k = (n - 1) as nat;
        lemma_even_and_odd(t, f, k);
        let (a, b) = (total(t, even, k), total(t, odd, k));
        lemma_interchange(t, a, even(k as int), b, odd(k as int));
        arith::lemma_regroups(t, total(t, f, 2 * k), f(2 * k as int), f(2 * k as int + 1));
        reveal_with_fuel(total, 3);
        assert(2 * n == 2 * k + 2);
    }
}

/// Four terms by neighbours.
pub proof fn lemma_four<T: Arith>(t: &T, f: spec_fn(int) -> u32)
    requires
        arith::reassociates(t),
    ensures
        total(t, f, 4) == arith::sum(
            t,
            arith::sum(t, f(0), f(1)),
            arith::sum(t, f(2), f(3)),
        ),
{
    reveal_with_fuel(total, 5);
    arith::lemma_zero_adds_nothing(t, f(0));
    arith::lemma_regroups(t, arith::sum(t, f(0), f(1)), f(2), f(3));
}

/// Eight terms by neighbours.
pub proof fn lemma_eight<T: Arith>(t: &T, f: spec_fn(int) -> u32)
    requires
        arith::reassociates(t),
    ensures
        total(t, f, 8) == arith::sum(
            t,
            arith::sum(t, arith::sum(t, f(0), f(1)), arith::sum(t, f(2), f(3))),
            arith::sum(t, arith::sum(t, f(4), f(5)), arith::sum(t, f(6), f(7))),
        ),
{
    lemma_split(t, f, 4, 4);
    lemma_four(t, f);
    lemma_four(t, |i: int| f(4 + i));
}

/// The horizontal sum of eight lanes is their total.
pub proof fn lemma_sum8<T: Arith>(t: &T, v: Seq<u32>)
    requires
        arith::reassociates(t),
    ensures
        arith::sum8(t, v) == total(t, |l: int| v[l], 8),
{
    lemma_eight(t, |l: int| v[l]);
    lemma_interchange(t, v[0], v[4], v[1], v[5]);
    lemma_interchange(t, v[2], v[6], v[3], v[7]);
    lemma_interchange(
        t,
        arith::sum(t, v[0], v[1]),
        arith::sum(t, v[4], v[5]),
        arith::sum(t, v[2], v[3]),
        arith::sum(t, v[6], v[7]),
    );
}

} // verus!

//! What the quantised matrix products compute, where arithmetic does not round.

use vstd::arithmetic::power2;
use vstd::prelude::*;

use crate::algebra;
use crate::arith;
use crate::arith::{Arith, MINUS_ONE_BITS, ONE_BITS};
use crate::blocks;
use crate::blocks::{BlockQ1_0G128, BlockTQ2_0_g128};
use crate::fp8;
use crate::fp8::{ByteBlock, Lanes};
use crate::gpu_backend::cpu;
use crate::simd_avx2;

verus! {

/// Bit `s` of a byte.
pub proof fn lemma_bit(x: u8, s: u8)
    requires
        s < 8,
    ensures
        (x >> s) & 1 == (x as nat / power2::pow2(s as nat)) % 2,
{
    power2::lemma2_to64();
    assert((x >> 0u8) & 1 == (x / 1) % 2 && (x >> 1u8) & 1 == (x / 2) % 2 && (x >> 2u8) & 1 == (x
        / 4) % 2 && (x >> 3u8) & 1 == (x / 8) % 2 && (x >> 4u8) & 1 == (x / 16) % 2 && (x >> 5u8)
        & 1 == (x / 32) % 2 && (x >> 6u8) & 1 == (x / 64) % 2 && (x >> 7u8) & 1 == (x / 128) % 2)
        by (bit_vector);
    if s == 0 {
    } else if s == 1 {
    } else if s == 2 {
    } else if s == 3 {
    } else if s == 4 {
    } else if s == 5 {
    } else if s == 6 {
    }
}

/// Two bits of a byte.
pub proof fn lemma_two_bits(x: u8, s: u8)
    requires
        s == 0 || s == 2 || s == 4 || s == 6,
    ensures
        (x >> s) & 3 == (x as nat / power2::pow2(s as nat)) % 4,
{
    power2::lemma2_to64();
    assert((x >> 0u8) & 3 == (x / 1) % 4 && (x >> 2u8) & 3 == (x / 4) % 4 && (x >> 4u8) & 3 == (x
        / 16) % 4 && (x >> 6u8) & 3 == (x / 64) % 4) by (bit_vector);
    if s == 0 {
    } else if s == 2 {
    } else if s == 4 {
    }
}

/// Weight `j` of a 1-bit block is the scale where bit `j % 8` of byte `j / 8`,
/// counted from the lowest, is one, and the negated scale where it is zero.
pub proof fn law_one_bit_weight(b: BlockQ1_0G128, j: int)
    requires
        0 <= j < 128,
    ensures
        b.weight(j) == (if (b.qs@[j / 8] as nat / power2::pow2((j % 8) as nat)) % 2 == 1 {
            blocks::half_to_single(b.d)
        } else {
            blocks::half_to_single(b.d) ^ 0x8000_0000
        }),
{
    lemma_bit(b.qs@[j / 8], (j % 8) as u8);
}

/// Weight `j` of a ternary block goes by the two bits from bit `2 (j % 4)` of byte
/// `j / 4` on: zero is the negated scale, one a zero, and the others the scale. A
/// zero has the scale's sign where the scale is finite.
pub proof fn law_ternary_weight(b: BlockTQ2_0_g128, j: int)
    requires
        0 <= j < 128,
    ensures
        ({
            let code = (b.qs@[j / 4] as nat / power2::pow2((2 * (j % 4)) as nat)) % 4;
            let scale = blocks::half_to_single(b.d);
            &&& code == 0 ==> b.weight(j) == scale ^ 0x8000_0000
            &&& code == 1 && (scale & 0x7f80_0000) != 0x7f80_0000 ==> b.weight(j) == scale
                & 0x8000_0000
            &&& code == 1 && (scale & 0x7f80_0000) == 0x7f80_0000 ==> b.weight(j) == 0x7fc0_0000
            &&& code >= 2 ==> b.weight(j) == scale
        }),
{
    lemma_two_bits(b.qs@[j / 4], (2 * (j % 4)) as u8);
}

/// Infinities and what is not a number convert to their like, with the sign.
pub proof fn law_half_specials(bits: u16)
    requires
        bits as nat / 1024 % 32 == 31,
    ensures
        blocks::half_to_single(bits) as nat / 0x8000_0000 == bits as nat / 32768,
        blocks::half_to_single(bits) as nat / 8388608 % 256 == 255,
        blocks::half_to_single(bits) as nat % 8388608 == 0 <==> bits as nat % 1024 == 0,
{
}

/// A row's weight times its input, the sign first.
spec fn one_bit_term<T: Arith>(t: &T, row: Seq<BlockQ1_0G128>, input: Seq<u32>, j: int) -> u32 {
    arith::product(
        t,
        blocks::half_to_single(row[j / 128].d),
        arith::product(t, simd_avx2::sign_number(row[j / 128].qs@, j % 128), input[j]),
    )
}

proof fn lemma_one_bit_lane<T: Arith>(
    t: &T,
    row: Seq<BlockQ1_0G128>,
    input: Seq<u32>,
    l: int,
    n: nat,
)
    requires
        arith::reassociates(t),
        0 <= l < 8,
    ensures
        simd_avx2::lane_1bit(t, row, input, 0, 1, l, n) == algebra::lane_total(
            t,
            |j: int| one_bit_term(t, row, input, j),
            8,
            l,
            n,
        ),
    decreases n,
{
    if n > 0 {
        let c = n - 1;
        lemma_one_bit_lane(t, row, input, l, c as nat);
        let e = c * 8 + l;
        let b = 0 + 1 * (c / 16);
        let j = (c % 16) * 8 + l;
        assert(e / 128 == b && e % 128 == j && b * 128 + j == e);
        let before = simd_avx2::lane_1bit(t, row, input, 0, 1, l, c as nat);
        let signed = arith::product(t, simd_avx2::sign_number(row[b].qs@, j), input[e]);
        let scale = blocks::half_to_single(row[b].d);
        arith::lemma_fused_is_two(t, scale, signed, before);
        arith::lemma_commutes(t, arith::product(t, scale, signed), before);
    }
}

proof fn lemma_one_bit_row<T: Arith>(t: &T, row: Seq<BlockQ1_0G128>, input: Seq<u32>)
    requires
        arith::reassociates(t),
    ensures
        simd_avx2::row_1bit(t, row, input, false) == algebra::total(
            t,
            |j: int| one_bit_term(t, row, input, j),
            128 * row.len(),
        ),
{
    let f = |j: int| one_bit_term(t, row, input, j);
    let n = row.len();
    let v = Seq::new(8, |l: int| simd_avx2::lane_1bit(t, row, input, 0, 1, l, 16 * n));
    assert(simd_avx2::row_1bit(t, row, input, false) == arith::sum8(t, v));
    algebra::lemma_sum8(t, v);
    algebra::lemma_lanes(t, f, 8, 16 * n);
    let lanes = |l: int| algebra::lane_total(t, f, 8, l, 16 * n);
    assert forall|l: int| 0 <= l < 8 implies #[trigger] lanes(l) == v[l] by {
        lemma_one_bit_lane(t, row, input, l, 16 * n);
    }
    algebra::lemma_same_terms(t, lanes, |l: int| v[l], 8);
    assert(16 * n * 8 == 128 * n);
}

/// Minus one times a number is the number with its sign flipped.
pub open spec fn negates<T: Arith>(t: &T, x: u32) -> bool {
    arith::product(t, x, MINUS_ONE_BITS) == x ^ 0x8000_0000
}

/// Row and vector of an element of a product.
proof fn lemma_element(m: usize, n_rows: usize, k: usize, vector: int, row: int)
    requires
        0 <= vector < m,
        0 <= row < n_rows,
    ensures
        ({
            let i = vector * n_rows + row;
            &&& 0 <= i < m * n_rows
            &&& i / n_rows as int == vector
            &&& i % n_rows as int == row
            &&& 0 <= vector * k
            &&& vector * k + k <= m * k
            &&& 0 <= row * (k / 128)
            &&& row * (k / 128) + k / 128 <= n_rows * (k / 128)
            &&& 0 <= row * (k / 32)
            &&& row * (k / 32) + k / 32 <= n_rows * (k / 32)
        }),
{
    let i = vector * n_rows + row;
    vstd::arithmetic::div_mod::lemma_fundamental_div_mod_converse(i, n_rows as int, vector, row);
    assert(0 <= i < m * n_rows) by (nonlinear_arith)
        requires
            i == vector * n_rows + row,
            0 <= vector < m,
            0 <= row < n_rows,
    ;
    assert(0 <= vector * k && vector * k + k <= m * k) by (nonlinear_arith)
        requires
            0 <= vector < m,
            k >= 0,
    ;
    let w = (k / 128) as int;
    let u = (k / 32) as int;
    assert(0 <= row * w && row * w + w <= n_rows * w && 0 <= row * u && row * u + u <= n_rows * u)
        by (nonlinear_arith)
        requires
            0 <= row,
            row + 1 <= n_rows,
            w >= 0,
            u >= 0,
    ;
}

/// Every element of a 1-bit product is the sum, over the columns, of the dequantised
/// weight times the input: weight `j` of row `r` is weight `j % 128` of the row's
/// block `j / 128`, and input `j` of vector `v` stands at `v k + j`. This holds of
/// the plain and the prefetching product alike, where arithmetic does not round.
pub proof fn law_one_bit_product<T: Arith>(
    t: &T,
    blocks: Seq<BlockQ1_0G128>,
    input: Seq<u32>,
    before: Seq<u32>,
    m: usize,
    n_rows: usize,
    k: usize,
    paired: bool,
    vector: int,
    row: int,
)
    requires
        algebra::ring(t),
        0 <= vector < m,
        0 <= row < n_rows,
        k % 128 == 0,
        n_rows * (k / 128) <= blocks.len() <= usize::MAX,
        m * k <= input.len() <= usize::MAX,
        m * n_rows <= before.len(),
        forall|b: int|
            row * (k / 128) <= b < row * (k / 128) + k / 128 ==> negates(
                t,
                blocks::half_to_single((#[trigger] blocks[b]).d),
            ),
    ensures
        simd_avx2::output_1bit(t, blocks, input, before, m, n_rows, k, paired)[vector * n_rows
            + row] == algebra::total(
            t,
            |j: int|
                arith::product(
                    t,
                    blocks[row * (k / 128) + j / 128].weight(j % 128),
                    input[vector * k + j],
                ),
            k as nat,
        ),
{
    algebra::lemma_ring_reassociates(t);
    simd_avx2::law_prefetch_only_regroups(t, blocks, input, before, m, n_rows, k);
    lemma_element(m, n_rows, k, vector, row);
    let i = vector * n_rows + row;
    let first = row * (k / 128);
    let base = vector * k;
    let c = simd_avx2::cell(i, n_rows, k);
    assert(c.first == first && c.base == base && c.count == k / 128);
    let (r, x) = (c.row(blocks), c.vector(input));
    lemma_one_bit_row(t, r, x);
    let f = |j: int| one_bit_term(t, r, x, j);
    let goal = |j: int|
        arith::product(t, blocks[first + j / 128].weight(j % 128), input[base + j]);
    assert forall|j: int| 0 <= j < k implies #[trigger] f(j) == goal(j) by {
        let b = blocks[first + j / 128];
        assert(r[j / 128] == b && x[j] == input[base + j]);
        let scale = blocks::half_to_single(b.d);
        let sign = simd_avx2::sign_number(b.qs@, j % 128);
        algebra::lemma_group(t, scale, sign, x[j]);
        algebra::lemma_units(t, scale);
    }
    algebra::lemma_same_terms(t, f, goal, k as nat);
    assert(128 * r.len() == k);
}

/// A ternary block's digit times its input.
spec fn ternary_term<T: Arith>(
    t: &T,
    block: BlockTQ2_0_g128,
    input: Seq<u32>,
    reserved_zero: bool,
    j: int,
) -> u32 {
    arith::product(t, simd_avx2::code_number(block.qs@, j, reserved_zero), input[j])
}

proof fn lemma_ternary_lane<T: Arith>(
    t: &T,
    block: BlockTQ2_0_g128,
    input: Seq<u32>,
    reserved_zero: bool,
    start: int,
    stride: int,
    l: int,
    n: nat,
)
    requires
        arith::reassociates(t),
    ensures
        simd_avx2::lane_ternary(t, block, input, reserved_zero, start, stride, l, n)
            == algebra::total(
            t,
            |c: int| ternary_term(t, block, input, reserved_zero, (start + stride * c) * 8 + l),
            n,
        ),
    decreases n,
{
    if n > 0 {
        let c = (n - 1) as nat;
        lemma_ternary_lane(t, block, input, reserved_zero, start, stride, l, c);
        let j = (start + stride * c) * 8 + l;
        let before = simd_avx2::lane_ternary(
            t,
            block,
            input,
            reserved_zero,
            start,
            stride,
            l,
            c,
        );
        let digit = simd_avx2::code_number(block.qs@, j, reserved_zero);
        arith::lemma_fused_is_two(t, digit, input[j], before);
        arith::lemma_commutes(t, arith::product(t, digit, input[j]), before);
    }
}

proof fn lemma_ternary_block<T: Arith>(
    t: &T,
    block: BlockTQ2_0_g128,
    input: Seq<u32>,
    paired: bool,
)
    requires
        algebra::ring(t),
    ensures
        simd_avx2::block_ternary(t, block, input, paired) == algebra::total(
            t,
            |j: int|
                arith::product(
                    t,
                    blocks::half_to_single(block.d),
                    ternary_term(t, block, input, paired, j),
                ),
            128,
        ),
{
    algebra::lemma_ring_reassociates(t);
    let scale = blocks::half_to_single(block.d);
    let f = |j: int| ternary_term(t, block, input, paired, j);
    let v = Seq::new(
        8,
        |l: int|
            if paired {
                arith::sum(
                    t,
                    simd_avx2::lane_ternary(t, block, input, true, 0, 2, l, 8),
                    simd_avx2::lane_ternary(t, block, input, true, 1, 2, l, 8),
                )
            } else {
                simd_avx2::lane_ternary(t, block, input, false, 0, 1, l, 16)
            },
    );
    assert(simd_avx2::block_ternary(t, block, input, paired) == arith::product(
        t,
        scale,
        arith::sum8(t, v),
    ));
    algebra::lemma_sum8(t, v);
    algebra::lemma_lanes(t, f, 8, 16);
    let lanes = |l: int| algebra::lane_total(t, f, 8, l, 16);
    assert forall|l: int| 0 <= l < 8 implies #[trigger] lanes(l) == v[l] by {
        let g = |c: int| f(c * 8 + l);
        if paired {
            lemma_ternary_lane(t, block, input, true, 0, 2, l, 8);
            lemma_ternary_lane(t, block, input, true, 1, 2, l, 8);
            algebra::lemma_even_and_odd(t, g, 8);
            algebra::lemma_same_terms(
                t,
                |c: int| g(2 * c),
                |c: int| ternary_term(t, block, input, true, (0 + 2 * c) * 8 + l),
                8,
            );
            algebra::lemma_same_terms(
                t,
                |c: int| g(2 * c + 1),
                |c: int| ternary_term(t, block, input, true, (1 + 2 * c) * 8 + l),
                8,
            );
        } else {
            lemma_ternary_lane(t, block, input, false, 0, 1, l, 16);
            algebra::lemma_same_terms(
                t,
                g,
                |c: int| ternary_term(t, block, input, false, (0 + 1 * c) * 8 + l),
                16,
            );
        }
    }
    algebra::lemma_same_terms(t, lanes, |l: int| v[l], 8);
    algebra::lemma_scaled_total(t, scale, f, 128);
    algebra::lemma_same_terms(
        t,
        |j: int| arith::product(t, scale, f(j)),
        |j: int| arith::product(t, scale, ternary_term(t, block, input, paired, j)),
        128,
    );
}

proof fn lemma_ternary_row<T: Arith>(
    t: &T,
    row: Seq<BlockTQ2_0_g128>,
    input: Seq<u32>,
    paired: bool,
    f: spec_fn(int) -> u32,
    n: nat,
)
    requires
        algebra::ring(t),
        n <= row.len(),
        input.len() == row.len() * 128,
        forall|b: int, j: int|
            0 <= b < n && 0 <= j < 128 ==> #[trigger] f(b * 128 + j) == arith::product(
                t,
                blocks::half_to_single(row[b].d),
                ternary_term(t, row[b], input.subrange(b * 128, b * 128 + 128), paired, j),
            ),
    ensures
        simd_avx2::row_ternary(t, row, input, paired, n) == algebra::total(t, f, n * 128),
    decreases n,
{
    algebra::lemma_ring_reassociates(t);
    if n > 0 {
        let b = (n - 1) as nat;
        lemma_ternary_row(t, row, input, paired, f, b);
        let x = input.subrange(b as int * 128, b as int * 128 + 128);
        lemma_ternary_block(t, row[b as int], x, paired);
        algebra::lemma_split(t, f, b * 128, 128);
        let own = |j: int|
            arith::product(
                t,
                blocks::half_to_single(row[b as int].d),
                ternary_term(t, row[b as int], x, paired, j),
            );
        let part = |j: int| f((b * 128) as nat + j);
        assert forall|j: int| 0 <= j < 128 implies #[trigger] own(j) == part(j) by {
            assert(f(b * 128 + j) == own(j));
        }
        algebra::lemma_same_terms(t, own, part, 128);
    }
}

/// Every element of a ternary product is the sum, over the columns, of the
/// dequantised weight times the input, where arithmetic does not round. This holds
/// of the plain product, and of the prefetching one where no code is the reserved
/// one. Where a block has a zero weight, its scale is no negative number.
pub proof fn law_ternary_product<T: Arith>(
    t: &T,
    blocks: Seq<BlockTQ2_0_g128>,
    input: Seq<u32>,
    before: Seq<u32>,
    m: usize,
    n_rows: usize,
    k: usize,
    paired: bool,
    vector: int,
    row: int,
)
    requires
        algebra::ring(t),
        0 <= vector < m,
        0 <= row < n_rows,
        k % 128 == 0,
        n_rows * (k / 128) <= blocks.len() <= usize::MAX,
        m * k <= input.len() <= usize::MAX,
        m * n_rows <= before.len(),
        forall|b: int|
            row * (k / 128) <= b < row * (k / 128) + k / 128 ==> negates(
                t,
                blocks::half_to_single((#[trigger] blocks[b]).d),
            ),
        forall|b: int, j: int|
            row * (k / 128) <= b < row * (k / 128) + k / 128 && 0 <= j < 128 && blocks::code(
                (#[trigger] blocks[b]).qs@,
                j,
            ) == 1 ==> #[trigger] blocks[b].weight(j) == 0,
        paired ==> forall|b: int, j: int|
            row * (k / 128) <= b < row * (k / 128) + k / 128 && 0 <= j < 128 ==> #[trigger]
                blocks::code((#[trigger] blocks[b]).qs@, j) != 3,
    ensures
        simd_avx2::output_ternary(t, blocks, input, before, m, n_rows, k, paired)[vector * n_rows
            + row] == algebra::total(
            t,
            |j: int|
                arith::product(
                    t,
                    blocks[row * (k / 128) + j / 128].weight(j % 128),
                    input[vector * k + j],
                ),
            k as nat,
        ),
{
    lemma_element(m, n_rows, k, vector, row);
    let i = vector * n_rows + row;
    let first = row * (k / 128);
    let base = vector * k;
    let c = simd_avx2::cell(i, n_rows, k);
    assert(c.first == first && c.base == base && c.count == k / 128);
    let (r, x) = (c.row(blocks), c.vector(input));
    let goal = |j: int|
        arith::product(t, blocks[first + j / 128].weight(j % 128), input[base + j]);
    assert forall|b: int, j: int| 0 <= b < r.len() && 0 <= j < 128 implies #[trigger] goal(
        b * 128 + j,
    ) == arith::product(
        t,
        blocks::half_to_single(r[b].d),
        ternary_term(t, r[b], x.subrange(b * 128, b * 128 + 128), paired, j),
    ) by {
        let block = blocks[first + b];
        assert((b * 128 + j) / 128 == b && (b * 128 + j) % 128 == j);
        assert(r[b] == block);
        let own = x.subrange(b * 128, b * 128 + 128);
        assert(own[j] == input[base + (b * 128 + j)]);
        let scale = blocks::half_to_single(block.d);
        let digit = simd_avx2::code_number(block.qs@, j, paired);
        algebra::lemma_group(t, scale, digit, own[j]);
        algebra::lemma_units(t, scale);
        let code = blocks::code(block.qs@, j);
        let weight = block.weight(j);
        assert(arith::product(t, scale, digit) == weight);
    }
    lemma_ternary_row(t, r, x, paired, goal, r.len());
    assert(r.len() * 128 == k);
}

/// The digit of a ternary weight: two bits of a byte, where zero is minus one, one is zero,
/// and two is one. The reserved three is one, or zero in the prefetching product.
pub open spec fn digit(b: BlockTQ2_0_g128, j: int, paired: bool) -> u32 {
    let code = (b.qs@[j / 4] as nat / power2::pow2((2 * (j % 4)) as nat)) % 4;
    if code == 0 {
        MINUS_ONE_BITS
    } else if code == 1 || code == 3 && paired {
        0
    } else {
        ONE_BITS
    }
}

/// Every element of a ternary product is the sum, over the columns, of the block's scale
/// times the weight's digit times the input, where arithmetic does not round.
pub proof fn law_ternary_product_by_digits<T: Arith>(
    t: &T,
    blocks: Seq<BlockTQ2_0_g128>,
    input: Seq<u32>,
    before: Seq<u32>,
    m: usize,
    n_rows: usize,
    k: usize,
    paired: bool,
    vector: int,
    row: int,
)
    requires
        algebra::ring(t),
        0 <= vector < m,
        0 <= row < n_rows,
        k % 128 == 0,
        n_rows * (k / 128) <= blocks.len() <= usize::MAX,
        m * k <= input.len() <= usize::MAX,
        m * n_rows <= before.len(),
    ensures
        simd_avx2::output_ternary(t, blocks, input, before, m, n_rows, k, paired)[vector * n_rows
            + row] == algebra::total(
            t,
            |j: int|
                {
                    let b = blocks[row * (k / 128) + j / 128];
                    arith::product(
                        t,
                        blocks::half_to_single(b.d),
                        arith::product(t, digit(b, j % 128, paired), input[vector * k + j]),
                    )
                },
            k as nat,
        ),
{
    lemma_element(m, n_rows, k, vector, row);
    let i = vector * n_rows + row;
    let first = row * (k / 128);
    let base = vector * k;
    let c = simd_avx2::cell(i, n_rows, k);
    assert(c.first == first && c.base == base && c.count == k / 128);
    let (r, x) = (c.row(blocks), c.vector(input));
    let goal = |j: int|
        {
            let b = blocks[row * (k / 128) + j / 128];
            arith::product(
                t,
                blocks::half_to_single(b.d),
                arith::product(t, digit(b, j % 128, paired), input[vector * k + j]),
            )
        };
    assert forall|b: int, j: int| 0 <= b < r.len() && 0 <= j < 128 implies #[trigger] goal(
        b * 128 + j,
    ) == arith::product(
        t,
        blocks::half_to_single(r[b].d),
        ternary_term(t, r[b], x.subrange(b * 128, b * 128 + 128), paired, j),
    ) by {
        let block = blocks[first + b];
        assert((b * 128 + j) / 128 == b && (b * 128 + j) % 128 == j);
        assert(r[b] == block);
        let own = x.subrange(b * 128, b * 128 + 128);
        assert(own[j] == input[base + (b * 128 + j)]);
        lemma_two_bits(block.qs@[j / 4], (2 * (j % 4)) as u8);
        assert(simd_avx2::code_number(block.qs@, j, paired) == digit(block, j, paired));
    }
    lemma_ternary_row(t, r, x, paired, goal, r.len());
    assert(r.len() * 128 == k);
}

/// The plain and the prefetching ternary product are equal where no code is the
/// reserved one and arithmetic does not round.
pub proof fn law_ternary_prefetch_only_regroups<T: Arith>(
    t: &T,
    blocks: Seq<BlockTQ2_0_g128>,
    input: Seq<u32>,
    before: Seq<u32>,
    m: usize,
    n_rows: usize,
    k: usize,
)
    requires
        algebra::ring(t),
        k % 128 == 0,
        n_rows * (k / 128) <= blocks.len() <= usize::MAX,
        m * k <= input.len() <= usize::MAX,
        m * n_rows <= before.len(),
        forall|b: int, j: int|
            0 <= b < n_rows * (k / 128) && 0 <= j < 128 ==> #[trigger] blocks::code(
                (#[trigger] blocks[b]).qs@,
                j,
            ) != 3,
    ensures
        simd_avx2::output_ternary(t, blocks, input, before, m, n_rows, k, true)
            == simd_avx2::output_ternary(t, blocks, input, before, m, n_rows, k, false),
{
    let paired = simd_avx2::output_ternary(t, blocks, input, before, m, n_rows, k, true);
    let plain = simd_avx2::output_ternary(t, blocks, input, before, m, n_rows, k, false);
    assert forall|i: int| 0 <= i < before.len() implies #[trigger] paired[i] == plain[i] by {
        if i < m * n_rows {
            let c = simd_avx2::cell(i, n_rows, k);
            simd_avx2::lemma_cell_inside(i, m, n_rows, k, blocks.len(), input.len());
            vstd::arithmetic::div_mod::lemma_mod_bound(i, n_rows as int);
            lemma_element(
                1,
                n_rows,
                k,
                0,
                i % n_rows as int,
            );
            let (r, x) = (c.row(blocks), c.vector(input));
            let f = |e: int|
                arith::product(
                    t,
                    blocks::half_to_single(r[e / 128].d),
                    ternary_term(
                        t,
                        r[e / 128],
                        x.subrange(e / 128 * 128, e / 128 * 128 + 128),
                        false,
                        e % 128,
                    ),
                );
            assert forall|b: int, j: int| 0 <= b < r.len() && 0 <= j < 128 implies #[trigger] f(
                b * 128 + j,
            ) == arith::product(
                t,
                blocks::half_to_single(r[b].d),
                ternary_term(t, r[b], x.subrange(b * 128, b * 128 + 128), true, j),
            ) && f(b * 128 + j) == arith::product(
                t,
                blocks::half_to_single(r[b].d),
                ternary_term(t, r[b], x.subrange(b * 128, b * 128 + 128), false, j),
            ) by {
                assert((b * 128 + j) / 128 == b && (b * 128 + j) % 128 == j);
                assert(r[b] == blocks[c.first + b]);
                assert(blocks::code(blocks[c.first + b].qs@, j) != 3);
            }
            lemma_ternary_row(t, r, x, true, f, r.len());
            lemma_ternary_row(t, r, x, false, f, r.len());
        }
    }
    assert(paired =~= plain);
}

proof fn lemma_fp8_lane<T: Arith, B: ByteBlock>(
    t: &T,
    lut: Seq<u32>,
    row: Seq<B>,
    input: Seq<u32>,
    w: int,
    l: int,
    n: nat,
)
    requires
        arith::reassociates(t),
    ensures
        fp8::lane(t, lut, row, input, w, l, n) == algebra::lane_total(
            t,
            |e: int| arith::product(t, fp8::weight(t, lut, row[e / 32], e % 32), input[e]),
            w,
            l,
            n,
        ),
    decreases n,
{
    if n > 0 {
        let c = (n - 1) as nat;
        lemma_fp8_lane(t, lut, row, input, w, l, c);
        let e = c * w + l;
        let before = fp8::lane(t, lut, row, input, w, l, c);
        let weight = fp8::weight(t, lut, row[e / 32], e % 32);
        arith::lemma_fused_is_two(t, weight, input[e], before);
        arith::lemma_commutes(t, arith::product(t, weight, input[e]), before);
    }
}

proof fn lemma_halves8<T: Arith>(t: &T, v: Seq<u32>)
    requires
        arith::reassociates(t),
    ensures
        fp8::halves8(t, v) == algebra::total(t, |l: int| v[l], 8),
{
    algebra::lemma_sum8(t, v);
    let (a, b) = (arith::sum(t, v[0], v[4]), arith::sum(t, v[1], v[5]));
    let (c, d) = (arith::sum(t, v[2], v[6]), arith::sum(t, v[3], v[7]));
    algebra::lemma_interchange(t, a, b, c, d);
}

proof fn lemma_fp8_lanes<T: Arith>(t: &T, lanes: Lanes, v: Seq<u32>)
    requires
        arith::reassociates(t),
    ensures
        fp8::lane_total(t, lanes, v) == algebra::total(t, |l: int| v[l], lanes.width() as nat),
{
    let f = |l: int| v[l];
    match lanes {
        Lanes::Neon => {
            algebra::lemma_four(t, f);
        },
        Lanes::Avx2 => {
            lemma_halves8(t, v);
        },
        Lanes::Avx512 => {
            let half = Seq::new(8, |i: int| arith::sum(t, v[i], v[i + 8]));
            lemma_halves8(t, half);
            let (low, high) = (|l: int| v[l], |l: int| f(8 + l));
            algebra::lemma_total_of_sums(t, low, high, 8);
            algebra::lemma_same_terms(
                t,
                |l: int| half[l],
                |l: int| arith::sum(t, low(l), high(l)),
                8,
            );
            algebra::lemma_split(t, f, 8, 8);
        },
    }
}

proof fn lemma_rounds(n: nat, w: nat)
    requires
        w == 4 || w == 8 || w == 16,
    ensures
        (n * 32 / w) as nat * w == n * 32,
{
    if w == 4 {
        assert(n * 32 / 4 == n * 8);
    } else if w == 8 {
        assert(n * 32 / 8 == n * 4);
    } else {
        assert(n * 32 / 16 == n * 2);
    }
}

proof fn lemma_fp8_row<T: Arith, B: ByteBlock>(
    t: &T,
    lut: Seq<u32>,
    row: Seq<B>,
    input: Seq<u32>,
    lanes: Lanes,
)
    requires
        arith::reassociates(t),
    ensures
        fp8::row_product(t, lut, row, input, lanes) == algebra::total(
            t,
            |e: int| arith::product(t, fp8::weight(t, lut, row[e / 32], e % 32), input[e]),
            row.len() * 32,
        ),
{
    let w = lanes.width() as nat;
    let f = |e: int| arith::product(t, fp8::weight(t, lut, row[e / 32], e % 32), input[e]);
    let rounds = (row.len() * 32 / w) as nat;
    lemma_rounds(row.len(), w);
    let v = Seq::new(w, |l: int| fp8::lane(t, lut, row, input, w as int, l, rounds));
    assert(fp8::row_product(t, lut, row, input, lanes) == fp8::lane_total(t, lanes, v));
    lemma_fp8_lanes(t, lanes, v);
    algebra::lemma_lanes(t, f, w, rounds);
    let by_lane = |l: int| algebra::lane_total(t, f, w as int, l, rounds);
    assert forall|l: int| 0 <= l < w implies #[trigger] by_lane(l) == v[l] by {
        lemma_fp8_lane(t, lut, row, input, w as int, l, rounds);
    }
    algebra::lemma_same_terms(t, by_lane, |l: int| v[l], w);
}

/// Every element of an 8-bit float product is the sum, over the columns, of the
/// block's scale times the table's number for the weight's byte, times the input:
/// byte `j` of row `r` is byte `j % 32` of the row's block `j / 32`. This holds on
/// every instruction set, where arithmetic does not round.
pub proof fn law_fp8_product<T: Arith, B: ByteBlock>(
    t: &T,
    lut: Seq<u32>,
    blocks: Seq<B>,
    input: Seq<u32>,
    before: Seq<u32>,
    n_rows: usize,
    k: usize,
    batch: usize,
    lanes: Lanes,
    vector: int,
    row: int,
)
    requires
        arith::reassociates(t),
        0 <= vector < batch,
        0 <= row < n_rows,
        k % 32 == 0,
        n_rows * (k / 32) <= blocks.len(),
        batch * k <= input.len(),
        batch * n_rows <= before.len(),
    ensures
        fp8::products(t, lut, blocks, input, before, n_rows, k, batch, lanes)[vector * n_rows
            + row] == algebra::total(
            t,
            |j: int|
                {
                    let b = blocks[row * (k / 32) + j / 32];
                    arith::product(
                        t,
                        arith::product(
                            t,
                            blocks::half_to_single(b.scale()),
                            lut[b.bytes()[j % 32] as int],
                        ),
                        input[vector * k + j],
                    )
                },
            k as nat,
        ),
{
    lemma_element(batch, n_rows, k, vector, row);
    let i = vector * n_rows + row;
    let first = row * (k / 32);
    let base = vector * k;
    let r = fp8::row_at(blocks, i, n_rows, k);
    let x = fp8::vector_at(input, i, n_rows, k);
    let f = |e: int| arith::product(t, fp8::weight(t, lut, r[e / 32], e % 32), x[e]);
    assert(r.len() * 32 == k);
    lemma_fp8_row(t, lut, r, x, lanes);
    let goal = |j: int|
        {
            let b = blocks[first + j / 32];
            arith::product(
                t,
                arith::product(
                    t,
                    blocks::half_to_single(b.scale()),
                    lut[b.bytes()[j % 32] as int],
                ),
                input[base + j],
            )
        };
    assert forall|j: int| 0 <= j < k implies #[trigger] f(j) == goal(j) by {
        assert(r[j / 32] == blocks[first + j / 32]);
        assert(x[j] == input[base + j]);
    }
    algebra::lemma_same_terms(t, f, goal, k as nat);
}

/// The block that 18 bytes encode: the scale, lower byte first, then the signs.
pub open spec fn encodes(bytes: Seq<u8>, b: BlockQ1_0G128) -> bool {
    &&& bytes.len() == 18
    &&& b.d as int == bytes[0] as int + 256 * bytes[1] as int
    &&& forall|i: int| 0 <= i < 16 ==> #[trigger] b.qs@[i] == bytes[2 + i]
}

/// A weight of a raw block is that of the block that its bytes encode.
pub proof fn law_raw_weight_is_the_blocks<T: Arith>(
    t: &T,
    bytes: Seq<u8>,
    b: BlockQ1_0G128,
    j: int,
)
    requires
        0 <= j < 128,
        encodes(bytes, b),
        arith::product(t, blocks::half_to_single(b.d), ONE_BITS) == blocks::half_to_single(b.d),
        negates(t, blocks::half_to_single(b.d)),
    ensures
        cpu::raw_weight(t, bytes, j) == b.weight(j),
{
    assert(cpu::raw_scale(bytes) == b.d);
    assert(bytes.subrange(2, 18)[j / 8] == b.qs@[j / 8]);
}

/// The fallback's product over raw blocks is the sum, over the columns, of the
/// encoded block's dequantised weight times the input, added up in order.
pub proof fn law_raw_product<T: Arith>(
    t: &T,
    bytes: Seq<u8>,
    blocks: Seq<BlockQ1_0G128>,
    input: Seq<u32>,
    row: int,
    k: usize,
)
    requires
        k % 128 == 0,
        0 <= row,
        (row + 1) * (k / 128) <= blocks.len(),
        bytes.len() >= blocks.len() * 18,
        forall|b: int|
            0 <= b < blocks.len() ==> encodes(
                bytes.subrange(b * 18, b * 18 + 18),
                #[trigger] blocks[b],
            ) && negates(t, blocks::half_to_single(blocks[b].d)) && arith::product(
                t,
                blocks::half_to_single(blocks[b].d),
                ONE_BITS,
            ) == blocks::half_to_single(blocks[b].d),
    ensures
        cpu::dot(t, cpu::raw_row(t, bytes, row, k), input, k as nat) == algebra::total(
            t,
            |j: int|
                arith::product(t, blocks[row * (k / 128) + j / 128].weight(j % 128), input[j]),
            k as nat,
        ),
{
    let w = cpu::raw_row(t, bytes, row, k);
    lemma_dot(t, w, input, k as nat);
    let per_row = (k / 128) as int;
    assert(0 <= row * per_row && row * per_row + per_row == (row + 1) * per_row)
        by (nonlinear_arith)
        requires
            0 <= row,
            0 <= per_row,
    ;
    let f = |j: int| arith::product(t, w[j], input[j]);
    let goal = |j: int|
        arith::product(t, blocks[row * (k / 128) + j / 128].weight(j % 128), input[j]);
    assert forall|j: int| 0 <= j < k implies #[trigger] f(j) == goal(j) by {
        let b = row * (k / 128) + j / 128;
        assert(j / 128 < per_row);
        law_raw_weight_is_the_blocks(t, bytes.subrange(b * 18, b * 18 + 18), blocks[b], j % 128);
    }
    algebra::lemma_same_terms(t, f, goal, k as nat);
}

/// A scalar product is the total of the products.
pub proof fn lemma_dot<T: Arith>(t: &T, w: Seq<u32>, x: Seq<u32>, n: nat)
    ensures
        cpu::dot(t, w, x, n) == algebra::total(t, |j: int| arith::product(t, w[j], x[j]), n),
    decreases n,
{
    if n > 0 {
        lemma_dot(t, w, x, (n - 1) as nat);
    }
}

/// The fallback agrees with the kernels: over the bytes that encode a matrix, its
/// product is the 1-bit product of that matrix, where arithmetic does not round.
pub proof fn law_fallback_agrees_with_the_kernels<T: Arith>(
    t: &T,
    bytes: Seq<u8>,
    blocks: Seq<BlockQ1_0G128>,
    input: Seq<u32>,
    before: Seq<u32>,
    n_rows: usize,
    k: usize,
    paired: bool,
    row: int,
)
    requires
        algebra::ring(t),
        k % 128 == 0,
        0 <= row < n_rows,
        n_rows * (k / 128) <= blocks.len() <= usize::MAX,
        bytes.len() >= blocks.len() * 18,
        input.len() == k,
        n_rows <= before.len(),
        forall|b: int|
            0 <= b < blocks.len() ==> encodes(
                bytes.subrange(b * 18, b * 18 + 18),
                #[trigger] blocks[b],
            ) && negates(t, blocks::half_to_single(blocks[b].d)),
    ensures
        cpu::dot(t, cpu::raw_row(t, bytes, row, k), input, k as nat) == simd_avx2::output_1bit(
            t,
            blocks,
            input,
            before,
            1,
            n_rows,
            k,
            paired,
        )[row],
{
    assert forall|b: int| 0 <= b < blocks.len() implies encodes(
        bytes.subrange(b * 18, b * 18 + 18),
        #[trigger] blocks[b],
    ) && negates(t, blocks::half_to_single(blocks[b].d)) && arith::product(
        t,
        blocks::half_to_single(blocks[b].d),
        ONE_BITS,
    ) == blocks::half_to_single(blocks[b].d) by {
        algebra::lemma_units(t, blocks::half_to_single(blocks[b].d));
    }
    lemma_element(1, n_rows, k, 0, row);
    let per_row = (k / 128) as int;
    assert((row + 1) * per_row == row * per_row + per_row) by (nonlinear_arith);
    law_raw_product(t, bytes, blocks, input, row, k);
    law_one_bit_product(t, blocks, input, before, 1, n_rows, k, paired, 0, row);
    algebra::lemma_same_terms(
        t,
        |j: int| arith::product(t, blocks[row * (k / 128) + j / 128].weight(j % 128), input[j]),
        |j: int|
            arith::product(
                t,
                blocks[row * (k / 128) + j / 128].weight(j % 128),
                input[0 * k + j],
            ),
        k as nat,
    );
}

} // verus!

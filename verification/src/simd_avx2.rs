//! 1-bit and ternary kernels of the AVX2 tier: dequantisation and matrix
//! products in eight lanes.
//!
//! Single-precision numbers are held as their bits, and an [`Arith`] says what
//! arithmetic makes of them. Each result fixes every operation and its order.

use vstd::prelude::*;

use crate::arith;
use crate::arith::{
    bits_of_trit, do_fused, do_product, do_sum, hsum_avx2, zero_lanes, Arith, MINUS_ONE_BITS,
    ONE_BITS,
};
use crate::blocks;
use crate::blocks::{
    code_at, half_bits_to_single, is_positive, mul_trit, trit_of, trit_of_reserved, BlockQ1_0G128,
    BlockTQ2_0_g128, QK1_0_G128, QK_TQ2_0_G128, SIGN_BIT,
};
use crate::checks;
use crate::checks::{validate_gemm, validate_gemv};
use crate::error::{KernelError, KernelResult};

verus! {

/// What is wrong with a dequantisation: the output is too short.
pub open spec fn dequant_fault(n_blocks: nat, output_len: nat) -> Option<KernelError> {
    if output_len < n_blocks * 128 {
        Some(
            KernelError::BufferTooSmall {
                needed: (n_blocks * 128) as usize,
                available: output_len as usize,
            },
        )
    } else {
        None
    }
}

/// Dequantises 1-bit blocks: weight `j` of block `i` goes to element
/// `128 i + j`; elements past the last block stay as they are.
pub fn dequant_1bit_g128_avx2(blocks: &[BlockQ1_0G128], output: &mut [u32]) -> (r: KernelResult<()>)
    requires
        blocks@.len() * 128 <= usize::MAX,
    ensures
        r == (match dequant_fault(blocks@.len(), old(output)@.len()) {
            Some(e) => Err::<(), KernelError>(e),
            None => Ok(()),
        }),
        final(output)@.len() == old(output)@.len(),
        r is Err ==> final(output)@ == old(output)@,
        r is Ok ==> forall|p: int|
            0 <= p < final(output)@.len() ==> #[trigger] final(output)@[p] == (if p < blocks@.len()
                * 128 {
                blocks@[p / 128].weight(p % 128)
            } else {
                old(output)@[p]
            }),
{
    let expected_len: usize = blocks.len() * QK1_0_G128;
    if output.len() < expected_len {
        return Err(
            KernelError::BufferTooSmall { needed: expected_len, available: output.len() },
        );
    }
    let ghost before = output@;
    let n: usize = blocks.len();
    let mut i: usize = 0;
    while i < n
        invariant
            n == blocks@.len(),
            n * 128 <= before.len(),
            output@.len() == before.len(),
            i <= n,
            n * 128 <= usize::MAX,
            forall|p: int|
                0 <= p < before.len() ==> #[trigger] output@[p] == (if p < i * 128 {
                    blocks@[p / 128].weight(p % 128)
                } else {
                    before[p]
                }),
        decreases n - i,
    {
        let block = blocks[i];
        let scale: u32 = half_bits_to_single(block.d);
        let base: usize = i * QK1_0_G128;
        let mut j: usize = 0;
        while j < QK1_0_G128
            invariant
                i < n,
                n == blocks@.len(),
                n * 128 <= before.len(),
                output@.len() == before.len(),
                base == i * 128,
                j <= 128,
                block == blocks@[i as int],
                scale == blocks::half_to_single(block.d),
                n * 128 <= usize::MAX,
                forall|p: int|
                    0 <= p < before.len() ==> #[trigger] output@[p] == (if p < base + j {
                        blocks@[p / 128].weight(p % 128)
                    } else {
                        before[p]
                    }),
            decreases 128 - j,
        {
            let positive = is_positive(block.qs.as_slice(), j);
            output[base + j] = if positive {
                scale
            } else {
                scale ^ SIGN_BIT
            };
            j += 1;
        }
        i += 1;
    }
    Ok(())
}

/// Dequantises ternary blocks: weight `j` of block `i` goes to element
/// `128 i + j`; elements past the last block stay as they are.
pub fn dequant_tq2_0_g128_avx2(blocks: &[BlockTQ2_0_g128], output: &mut [u32]) -> (r: KernelResult<
    (),
>)
    requires
        blocks@.len() * 128 <= usize::MAX,
    ensures
        r == (match dequant_fault(blocks@.len(), old(output)@.len()) {
            Some(e) => Err::<(), KernelError>(e),
            None => Ok(()),
        }),
        final(output)@.len() == old(output)@.len(),
        r is Err ==> final(output)@ == old(output)@,
        r is Ok ==> forall|p: int|
            0 <= p < final(output)@.len() ==> #[trigger] final(output)@[p] == (if p < blocks@.len()
                * 128 {
                blocks@[p / 128].weight(p % 128)
            } else {
                old(output)@[p]
            }),
{
    let needed: usize = blocks.len() * QK_TQ2_0_G128;
    if output.len() < needed {
        return Err(KernelError::BufferTooSmall { needed, available: output.len() });
    }
    let ghost before = output@;
    let n: usize = blocks.len();
    let mut i: usize = 0;
    while i < n
        invariant
            n == blocks@.len(),
            n * 128 <= before.len(),
            output@.len() == before.len(),
            i <= n,
            n * 128 <= usize::MAX,
            forall|p: int|
                0 <= p < before.len() ==> #[trigger] output@[p] == (if p < i * 128 {
                    blocks@[p / 128].weight(p % 128)
                } else {
                    before[p]
                }),
        decreases n - i,
    {
        let block = blocks[i];
        let scale: u32 = half_bits_to_single(block.d);
        let base: usize = i * QK_TQ2_0_G128;
        let mut j: usize = 0;
        while j < QK_TQ2_0_G128
            invariant
                i < n,
                n == blocks@.len(),
                n * 128 <= before.len(),
                output@.len() == before.len(),
                base == i * 128,
                j <= 128,
                block == blocks@[i as int],
                scale == blocks::half_to_single(block.d),
                n * 128 <= usize::MAX,
                forall|p: int|
                    0 <= p < before.len() ==> #[trigger] output@[p] == (if p < base + j {
                        blocks@[p / 128].weight(p % 128)
                    } else {
                        before[p]
                    }),
            decreases 128 - j,
        {
            let t: i8 = trit_of(code_at(block.qs.as_slice(), j));
            output[base + j] = mul_trit(scale, t);
            j += 1;
        }
        i += 1;
    }
    Ok(())
}

/// A weight's sign as a number, plus or minus one.
pub open spec fn sign_number(qs: Seq<u8>, j: int) -> u32 {
    if blocks::sign_bit(qs, j) {
        ONE_BITS
    } else {
        MINUS_ONE_BITS
    }
}

fn sign_of(qs: &[u8], j: usize) -> (s: u32)
    requires
        j / 8 < qs@.len(),
    ensures
        s == sign_number(qs@, j as int),
{
    if is_positive(qs, j) {
        ONE_BITS
    } else {
        MINUS_ONE_BITS
    }
}

/// Signs of eight weights as numbers, lowest bit first.
pub fn bits_to_signs_avx2(bits: u8) -> (r: [u32; 8])
    ensures
        forall|l: int| 0 <= l < 8 ==> #[trigger] r@[l] == sign_number(seq![bits], l),
{
    let byte: [u8; 1] = [bits];
    let qs = byte.as_slice();
    assert(qs@ =~= seq![bits]);
    [
        sign_of(qs, 0),
        sign_of(qs, 1),
        sign_of(qs, 2),
        sign_of(qs, 3),
        sign_of(qs, 4),
        sign_of(qs, 5),
        sign_of(qs, 6),
        sign_of(qs, 7),
    ]
}

/// A code's ternary digit as a number; the reserved code is plus one, or zero
/// where `reserved_zero`.
pub open spec fn code_number(qs: Seq<u8>, j: int, reserved_zero: bool) -> u32 {
    arith::trit_bits(
        if reserved_zero {
            blocks::code_trit_reserved(blocks::code(qs, j))
        } else {
            blocks::code_trit(blocks::code(qs, j))
        },
    )
}

fn number_of_code(qs: &[u8], j: usize, reserved_zero: bool) -> (b: u32)
    requires
        j / 4 < qs@.len(),
    ensures
        b == code_number(qs@, j as int, reserved_zero),
{
    let c: u8 = code_at(qs, j);
    bits_of_trit(
        if reserved_zero {
            trit_of_reserved(c)
        } else {
            trit_of(c)
        },
    )
}

/// Ternary digits of the eight codes in two bytes as numbers, lowest first.
pub fn decode_2bytes_avx2_to_f32x8(b0: u8, b1: u8, reserved_zero: bool) -> (r: [u32; 8])
    ensures
        forall|l: int|
            0 <= l < 8 ==> #[trigger] r@[l] == code_number(seq![b0, b1], l, reserved_zero),
{
    let bytes: [u8; 2] = [b0, b1];
    let qs = bytes.as_slice();
    assert(qs@ =~= seq![b0, b1]);
    [
        number_of_code(qs, 0, reserved_zero),
        number_of_code(qs, 1, reserved_zero),
        number_of_code(qs, 2, reserved_zero),
        number_of_code(qs, 3, reserved_zero),
        number_of_code(qs, 4, reserved_zero),
        number_of_code(qs, 5, reserved_zero),
        number_of_code(qs, 6, reserved_zero),
        number_of_code(qs, 7, reserved_zero),
    ]
}

/// Lane `l` of a 1-bit accumulator after `n` chunks of eight weights. The
/// accumulator takes every `stride`-th block of the row from `start` on; each
/// weight's sign times its input, times the scale, is added with one rounding.
pub open spec fn lane_1bit<T: Arith>(
    t: &T,
    row: Seq<BlockQ1_0G128>,
    input: Seq<u32>,
    start: int,
    stride: int,
    l: int,
    n: nat,
) -> u32
    decreases n,
{
    if n == 0 {
        0
    } else {
        let c = n - 1;
        let b = start + stride * (c / 16);
        let j = (c % 16) * 8 + l;
        arith::fused(
            t,
            blocks::half_to_single(row[b].d),
            arith::product(t, sign_number(row[b].qs@, j), input[b * 128 + j]),
            lane_1bit(t, row, input, start, stride, l, c as nat),
        )
    }
}

/// Product of a 1-bit row and an input vector. With `paired`, even and odd
/// blocks have accumulators of their own, added lane by lane at the end.
pub open spec fn row_1bit<T: Arith>(
    t: &T,
    row: Seq<BlockQ1_0G128>,
    input: Seq<u32>,
    paired: bool,
) -> u32 {
    let n = row.len();
    arith::sum8(
        t,
        Seq::new(
            8,
            |l: int|
                if paired {
                    arith::sum(
                        t,
                        lane_1bit(t, row, input, 0, 2, l, 16 * ((n + 1) / 2)),
                        lane_1bit(t, row, input, 1, 2, l, 16 * (n / 2)),
                    )
                } else {
                    lane_1bit(t, row, input, 0, 1, l, 16 * n)
                },
        ),
    )
}

/// Where a row of blocks and an input vector lie in their buffers.
#[derive(Debug, Clone, Copy, PartialEq, Eq, Structural)]
pub struct RowAt {
    /// First block of the row.
    pub first: usize,
    /// Blocks of the row.
    pub count: usize,
    /// First element of the vector.
    pub base: usize,
}

impl RowAt {
    /// Row and vector lie inside buffers of these lengths.
    pub open spec fn inside(self, n_blocks: nat, input_len: nat) -> bool {
        &&& self.first + self.count <= n_blocks
        &&& self.base + self.count * 128 <= input_len
        &&& n_blocks <= usize::MAX
        &&& input_len <= usize::MAX
    }

    /// The row's blocks.
    pub open spec fn row<B>(self, blocks: Seq<B>) -> Seq<B> {
        blocks.subrange(self.first as int, self.first + self.count)
    }

    /// The vector's elements.
    pub open spec fn vector(self, input: Seq<u32>) -> Seq<u32> {
        input.subrange(self.base as int, self.base + self.count * 128)
    }
}

fn lanes_1bit<T: Arith>(
    t: &T,
    blocks: &[BlockQ1_0G128],
    input: &[u32],
    at: RowAt,
    start: usize,
    stride: usize,
    n: usize,
) -> (v: Vec<u32>)
    requires
        arith::deterministic(t),
        at.inside(blocks@.len(), input@.len()),
        stride == 1 || stride == 2,
        start + stride * n <= at.count + 1,
        n == 0 || start + stride * (n - 1) < at.count,
    ensures
        v@.len() == 8,
        forall|l: int|
            0 <= l < 8 ==> #[trigger] v@[l] == lane_1bit(
                t,
                at.row(blocks@),
                at.vector(input@),
                start as int,
                stride as int,
                l,
                16 * n as nat,
            ),
{
    let ghost row = at.row(blocks@);
    let ghost vector = at.vector(input@);
    let mut v: Vec<u32> = zero_lanes(8);
    let mut i: usize = 0;
    let mut b: usize = start;
    while i < n
        invariant
            arith::deterministic(t),
            at.inside(blocks@.len(), input@.len()),
            row == at.row(blocks@),
            vector == at.vector(input@),
            stride == 1 || stride == 2,
            n == 0 || start + stride * (n - 1) < at.count,
            start + stride * n <= at.count + 1,
            i <= n,
            b == start + stride * i,
            v@.len() == 8,
            forall|l: int|
                0 <= l < 8 ==> #[trigger] v@[l] == lane_1bit(
                    t,
                    row,
                    vector,
                    start as int,
                    stride as int,
                    l,
                    16 * i as nat,
                ),
        decreases n - i,
    {
        assert(b < at.count) by {
            assert(stride * i <= stride * (n - 1)) by (nonlinear_arith)
                requires
                    i <= n - 1,
                    stride >= 0,
            ;
        }
        assert(stride * (i + 1) == stride * i + stride) by (nonlinear_arith);
        assert(stride * (i + 1) <= stride * n) by (nonlinear_arith)
            requires
                i + 1 <= n,
                stride >= 0,
        ;
        let block = blocks[at.first + b];
        assert(block == row[b as int]);
        let scale: u32 = half_bits_to_single(block.d);
        let mut chunk: usize = 0;
        while chunk < 16
            invariant
                arith::deterministic(t),
                at.inside(blocks@.len(), input@.len()),
                row == at.row(blocks@),
                vector == at.vector(input@),
                b < at.count,
                b == start + stride * i,
                block == row[b as int],
                scale == blocks::half_to_single(block.d),
                chunk <= 16,
                v@.len() == 8,
                forall|l: int|
                    0 <= l < 8 ==> #[trigger] v@[l] == lane_1bit(
                        t,
                        row,
                        vector,
                        start as int,
                        stride as int,
                        l,
                        (16 * i + chunk) as nat,
                    ),
            decreases 16 - chunk,
        {
            let ghost c: int = 16 * i + chunk;
            assert(c / 16 == i && c % 16 == chunk);
            let ghost done = v@;
            let signs = bits_to_signs_avx2(block.qs[chunk]);
            let mut l: usize = 0;
            while l < 8
                invariant
                    arith::deterministic(t),
                    at.inside(blocks@.len(), input@.len()),
                    row == at.row(blocks@),
                    vector == at.vector(input@),
                    b < at.count,
                    b == start + stride * i,
                    block == row[b as int],
                    scale == blocks::half_to_single(block.d),
                    chunk < 16,
                    c == 16 * i + chunk,
                    c / 16 == i,
                    c % 16 == chunk,
                    l <= 8,
                    v@.len() == 8,
                    done.len() == 8,
                    forall|q: int|
                        0 <= q < 8 ==> #[trigger] signs@[q] == sign_number(
                            seq![block.qs@[chunk as int]],
                            q,
                        ),
                    forall|q: int|
                        0 <= q < 8 ==> #[trigger] done[q] == lane_1bit(
                            t,
                            row,
                            vector,
                            start as int,
                            stride as int,
                            q,
                            c as nat,
                        ),
                    forall|q: int| l <= q < 8 ==> #[trigger] v@[q] == done[q],
                    forall|q: int|
                        0 <= q < l ==> #[trigger] v@[q] == lane_1bit(
                            t,
                            row,
                            vector,
                            start as int,
                            stride as int,
                            q,
                            (c + 1) as nat,
                        ),
                decreases 8 - l,
            {
                let at_input: usize = at.base + b * 128 + chunk * 8 + l;
                let x: u32 = input[at_input];
                assert(x == vector[b * 128 + (chunk * 8 + l)]);
                assert(signs@[l as int] == sign_number(block.qs@, chunk * 8 + l)) by {
                    assert((chunk * 8 + l) / 8 == chunk && (chunk * 8 + l) % 8 == l);
                    assert(l / 8 == 0 && l % 8 == l);
                }
                let signed: u32 = do_product(t, signs[l], x);
                let prior: u32 = v[l];
                assert(prior == done[l as int]);
                let next: u32 = do_fused(t, scale, signed, prior);
                v.set(l, next);
                l += 1;
            }
            chunk += 1;
        }
        i += 1;
        b += stride;
    }
    v
}

fn row_dot_1bit<T: Arith>(
    t: &T,
    blocks: &[BlockQ1_0G128],
    input: &[u32],
    at: RowAt,
    paired: bool,
) -> (r: u32)
    requires
        arith::deterministic(t),
        at.inside(blocks@.len(), input@.len()),
    ensures
        r == row_1bit(t, at.row(blocks@), at.vector(input@), paired),
{
    let ghost row = at.row(blocks@);
    let ghost vector = at.vector(input@);
    if paired {
        let mut acc0: Vec<u32> = lanes_1bit(t, blocks, input, at, 0, 2, (at.count + 1) / 2);
        let acc1: Vec<u32> = lanes_1bit(t, blocks, input, at, 1, 2, at.count / 2);
        let ghost first = acc0@;
        let mut l: usize = 0;
        while l < 8
            invariant
                arith::deterministic(t),
                l <= 8,
                acc0@.len() == 8,
                acc1@.len() == 8,
                first.len() == 8,
                forall|q: int| l <= q < 8 ==> #[trigger] acc0@[q] == first[q],
                forall|q: int|
                    0 <= q < l ==> #[trigger] acc0@[q] == arith::sum(t, first[q], acc1@[q]),
            decreases 8 - l,
        {
            let both: u32 = do_sum(t, acc0[l], acc1[l]);
            acc0.set(l, both);
            l += 1;
        }
        assert(acc0@ =~= Seq::new(
            8,
            |l: int|
                arith::sum(
                    t,
                    lane_1bit(t, row, vector, 0, 2, l, 16 * ((at.count as nat + 1) / 2)),
                    lane_1bit(t, row, vector, 1, 2, l, 16 * (at.count as nat / 2)),
                ),
        ));
        assert(acc0@ =~= Seq::new(
            8,
            |l: int|
                if paired {
                    arith::sum(
                        t,
                        lane_1bit(t, row, vector, 0, 2, l, 16 * ((row.len() + 1) / 2)),
                        lane_1bit(t, row, vector, 1, 2, l, 16 * (row.len() / 2)),
                    )
                } else {
                    lane_1bit(t, row, vector, 0, 1, l, 16 * row.len())
                },
        ));
        hsum_avx2(t, acc0.as_slice())
    } else {
        let acc: Vec<u32> = lanes_1bit(t, blocks, input, at, 0, 1, at.count);
        assert(acc@ =~= Seq::new(
            8,
            |l: int|
                if paired {
                    arith::sum(
                        t,
                        lane_1bit(t, row, vector, 0, 2, l, 16 * ((row.len() + 1) / 2)),
                        lane_1bit(t, row, vector, 1, 2, l, 16 * (row.len() / 2)),
                    )
                } else {
                    lane_1bit(t, row, vector, 0, 1, l, 16 * row.len())
                },
        ));
        hsum_avx2(t, acc.as_slice())
    }
}

/// Lane `l` of a ternary block's accumulator after `n` chunks of eight
/// weights: every `stride`-th chunk of the block from `start` on.
pub open spec fn lane_ternary<T: Arith>(
    t: &T,
    block: BlockTQ2_0_g128,
    input: Seq<u32>,
    reserved_zero: bool,
    start: int,
    stride: int,
    l: int,
    n: nat,
) -> u32
    decreases n,
{
    if n == 0 {
        0
    } else {
        let j = (start + stride * (n - 1)) * 8 + l;
        arith::fused(
            t,
            code_number(block.qs@, j, reserved_zero),
            input[j],
            lane_ternary(t, block, input, reserved_zero, start, stride, l, (n - 1) as nat),
        )
    }
}

/// Product of a ternary block and its input. With `paired`, even and odd chunks
/// have accumulators of their own and the reserved code counts as zero.
pub open spec fn block_ternary<T: Arith>(
    t: &T,
    block: BlockTQ2_0_g128,
    input: Seq<u32>,
    paired: bool,
) -> u32 {
    arith::product(
        t,
        blocks::half_to_single(block.d),
        arith::sum8(
            t,
            Seq::new(
                8,
                |l: int|
                    if paired {
                        arith::sum(
                            t,
                            lane_ternary(t, block, input, true, 0, 2, l, 8),
                            lane_ternary(t, block, input, true, 1, 2, l, 8),
                        )
                    } else {
                        lane_ternary(t, block, input, false, 0, 1, l, 16)
                    },
            ),
        ),
    )
}

/// Product of the first `n` blocks of a ternary row and an input vector.
pub open spec fn row_ternary<T: Arith>(
    t: &T,
    row: Seq<BlockTQ2_0_g128>,
    input: Seq<u32>,
    paired: bool,
    n: nat,
) -> u32
    decreases n,
{
    if n == 0 {
        0
    } else {
        let b = n - 1;
        arith::sum(
            t,
            row_ternary(t, row, input, paired, b as nat),
            block_ternary(t, row[b], input.subrange(b * 128, b * 128 + 128), paired),
        )
    }
}

fn lanes_ternary<T: Arith>(
    t: &T,
    block: &BlockTQ2_0_g128,
    input: &[u32],
    base: usize,
    reserved_zero: bool,
    start: usize,
    stride: usize,
    n: usize,
) -> (v: Vec<u32>)
    requires
        arith::deterministic(t),
        base + 128 <= input@.len() <= usize::MAX,
        stride == 1 || stride == 2,
        n <= 16,
        start + stride * n <= 17,
        n == 0 || start + stride * (n - 1) < 16,
    ensures
        v@.len() == 8,
        forall|l: int|
            0 <= l < 8 ==> #[trigger] v@[l] == lane_ternary(
                t,
                *block,
                input@.subrange(base as int, base + 128),
                reserved_zero,
                start as int,
                stride as int,
                l,
                n as nat,
            ),
{
    let ghost vector = input@.subrange(base as int, base + 128);
    let mut v: Vec<u32> = zero_lanes(8);
    let mut i: usize = 0;
    let mut chunk: usize = start;
    while i < n
        invariant
            arith::deterministic(t),
            base + 128 <= input@.len() <= usize::MAX,
            vector == input@.subrange(base as int, base + 128),
            stride == 1 || stride == 2,
            n <= 16,
            n == 0 || start + stride * (n - 1) < 16,
            i <= n,
            chunk == start + stride * i,
            v@.len() == 8,
            forall|l: int|
                0 <= l < 8 ==> #[trigger] v@[l] == lane_ternary(
                    t,
                    *block,
                    vector,
                    reserved_zero,
                    start as int,
                    stride as int,
                    l,
                    i as nat,
                ),
        decreases n - i,
    {
        assert(chunk < 16 && chunk + stride == start + stride * (i + 1)) by {
            if stride == 1 {
                assert(stride * i == i && stride * (n - 1) == n - 1 && stride * (i + 1) == i + 1);
            } else {
                assert(stride * i == 2 * i && stride * (n - 1) == 2 * (n - 1) && stride * (i + 1)
                    == 2 * (i + 1));
            }
        }
        let ghost done = v@;
        let codes = decode_2bytes_avx2_to_f32x8(
            block.qs[chunk * 2],
            block.qs[chunk * 2 + 1],
            reserved_zero,
        );
        let mut l: usize = 0;
        while l < 8
            invariant
                arith::deterministic(t),
                base + 128 <= input@.len() <= usize::MAX,
                vector == input@.subrange(base as int, base + 128),
                chunk < 16,
                chunk == start + stride * i,
                l <= 8,
                v@.len() == 8,
                done.len() == 8,
                forall|q: int|
                    0 <= q < 8 ==> #[trigger] codes@[q] == code_number(
                        seq![block.qs@[chunk * 2], block.qs@[chunk * 2 + 1]],
                        q,
                        reserved_zero,
                    ),
                forall|q: int|
                    0 <= q < 8 ==> #[trigger] done[q] == lane_ternary(
                        t,
                        *block,
                        vector,
                        reserved_zero,
                        start as int,
                        stride as int,
                        q,
                        i as nat,
                    ),
                forall|q: int| l <= q < 8 ==> #[trigger] v@[q] == done[q],
                forall|q: int|
                    0 <= q < l ==> #[trigger] v@[q] == lane_ternary(
                        t,
                        *block,
                        vector,
                        reserved_zero,
                        start as int,
                        stride as int,
                        q,
                        (i + 1) as nat,
                    ),
            decreases 8 - l,
        {
            let x: u32 = input[base + chunk * 8 + l];
            assert(x == vector[chunk * 8 + l]);
            assert(codes@[l as int] == code_number(block.qs@, chunk * 8 + l, reserved_zero)) by {
                assert((chunk * 8 + l) / 4 == chunk * 2 + l / 4);
                assert((chunk * 8 + l) % 4 == l % 4);
            }
            let prior: u32 = v[l];
            assert(prior == done[l as int]);
            let next: u32 = do_fused(t, codes[l], x, prior);
            v.set(l, next);
            l += 1;
        }
        i += 1;
        chunk += stride;
    }
    v
}

fn block_dot_ternary<T: Arith>(
    t: &T,
    block: &BlockTQ2_0_g128,
    input: &[u32],
    base: usize,
    paired: bool,
) -> (r: u32)
    requires
        arith::deterministic(t),
        base + 128 <= input@.len() <= usize::MAX,
    ensures
        r == block_ternary(t, *block, input@.subrange(base as int, base + 128), paired),
{
    let ghost vector = input@.subrange(base as int, base + 128);
    let scale: u32 = half_bits_to_single(block.d);
    let lanes: Vec<u32> = if paired {
        let mut acc0: Vec<u32> = lanes_ternary(t, block, input, base, true, 0, 2, 8);
        let acc1: Vec<u32> = lanes_ternary(t, block, input, base, true, 1, 2, 8);
        let ghost first = acc0@;
        let mut l: usize = 0;
        while l < 8
            invariant
                arith::deterministic(t),
                l <= 8,
                acc0@.len() == 8,
                acc1@.len() == 8,
                first.len() == 8,
                forall|q: int| l <= q < 8 ==> #[trigger] acc0@[q] == first[q],
                forall|q: int|
                    0 <= q < l ==> #[trigger] acc0@[q] == arith::sum(t, first[q], acc1@[q]),
            decreases 8 - l,
        {
            let both: u32 = do_sum(t, acc0[l], acc1[l]);
            acc0.set(l, both);
            l += 1;
        }
        acc0
    } else {
        lanes_ternary(t, block, input, base, false, 0, 1, 16)
    };
    assert(lanes@ =~= Seq::new(
        8,
        |l: int|
            if paired {
                arith::sum(
                    t,
                    lane_ternary(t, *block, vector, true, 0, 2, l, 8),
                    lane_ternary(t, *block, vector, true, 1, 2, l, 8),
                )
            } else {
                lane_ternary(t, *block, vector, false, 0, 1, l, 16)
            },
    ));
    let total: u32 = hsum_avx2(t, lanes.as_slice());
    do_product(t, scale, total)
}

fn row_dot_ternary<T: Arith>(
    t: &T,
    blocks: &[BlockTQ2_0_g128],
    input: &[u32],
    at: RowAt,
    paired: bool,
) -> (r: u32)
    requires
        arith::deterministic(t),
        at.inside(blocks@.len(), input@.len()),
    ensures
        r == row_ternary(
            t,
            at.row(blocks@),
            at.vector(input@),
            paired,
            at.count as nat,
        ),
{
    let ghost row = at.row(blocks@);
    let ghost vector = at.vector(input@);
    let mut r: u32 = 0;
    let mut b: usize = 0;
    while b < at.count
        invariant
            arith::deterministic(t),
            at.inside(blocks@.len(), input@.len()),
            row == at.row(blocks@),
            vector == at.vector(input@),
            b <= at.count,
            r == row_ternary(t, row, vector, paired, b as nat),
        decreases at.count - b,
    {
        let base: usize = at.base + b * QK_TQ2_0_G128;
        let block = &blocks[at.first + b];
        assert(*block == row[b as int]);
        assert(input@.subrange(base as int, base + 128) =~= vector.subrange(
            b * 128,
            b * 128 + 128,
        ));
        let part: u32 = block_dot_ternary(t, block, input, base, paired);
        r = do_sum(t, r, part);
        b += 1;
    }
    r
}

/// Row and vector of output element `i`: elements of one vector lie together,
/// a row each.
pub open spec fn cell(i: int, n_rows: usize, k: usize) -> RowAt {
    RowAt {
        first: ((i % n_rows as int) * (k / 128)) as usize,
        count: k / 128,
        base: ((i / n_rows as int) * k) as usize,
    }
}

/// Element `i` of a product lies inside its buffers.
pub proof fn lemma_cell_inside(
    i: int,
    m: usize,
    n_rows: usize,
    k: usize,
    n_blocks: nat,
    input_len: nat,
)
    requires
        0 <= i < m * n_rows,
        k % 128 == 0,
        n_rows * (k / 128) <= n_blocks <= usize::MAX,
        m * k <= input_len <= usize::MAX,
    ensures
        n_rows > 0,
        cell(i, n_rows, k).inside(n_blocks, input_len),
        cell(i, n_rows, k).first == (i % n_rows as int) * (k / 128),
        cell(i, n_rows, k).base == (i / n_rows as int) * k,
        cell(i, n_rows, k).count * 128 == k,
{
    assert(n_rows > 0) by (nonlinear_arith)
        requires
            0 <= i < m * n_rows,
    ;
    let r = i % n_rows as int;
    let v = i / n_rows as int;
    let w = (k / 128) as int;
    assert(0 <= v < m) by (nonlinear_arith)
        requires
            v == i / n_rows as int,
            0 <= i < m * n_rows,
            n_rows > 0,
    ;
    assert(0 <= r * w && r * w + w <= n_rows * w) by (nonlinear_arith)
        requires
            0 <= r < n_rows,
            w >= 0,
    ;
    assert(0 <= v * k && v * k + k <= m * k) by (nonlinear_arith)
        requires
            0 <= v < m,
            k >= 0,
    ;
}

/// Output of a 1-bit product with `m` vectors: the first `m * n_rows` elements
/// are products of a row and a vector, the others stay as they are.
pub open spec fn output_1bit<T: Arith>(
    t: &T,
    blocks: Seq<BlockQ1_0G128>,
    input: Seq<u32>,
    before: Seq<u32>,
    m: usize,
    n_rows: usize,
    k: usize,
    paired: bool,
) -> Seq<u32> {
    Seq::new(
        before.len(),
        |i: int|
            if i < m * n_rows {
                let c = cell(i, n_rows, k);
                row_1bit(t, c.row(blocks), c.vector(input), paired)
            } else {
                before[i]
            },
    )
}

fn product_1bit<T: Arith>(
    t: &T,
    blocks: &[BlockQ1_0G128],
    input: &[u32],
    output: &mut [u32],
    m: usize,
    n_rows: usize,
    k: usize,
    paired: bool,
)
    requires
        arith::deterministic(t),
        k % 128 == 0,
        n_rows * (k / 128) <= blocks@.len(),
        m * k <= input@.len(),
        m * n_rows <= old(output)@.len(),
    ensures
        final(output)@ == output_1bit(
            t,
            blocks@,
            input@,
            old(output)@,
            m,
            n_rows,
            k,
            paired,
        ),
{
    let ghost before = output@;
    let n_blocks: usize = blocks.len();
    let input_len: usize = input.len();
    let len: usize = output.len();
    let total: usize = m * n_rows;
    let blocks_per_row: usize = k / 128;
    let mut i: usize = 0;
    while i < total
        invariant
            arith::deterministic(t),
            k % 128 == 0,
            blocks_per_row == k / 128,
            n_blocks == blocks@.len(),
            input_len == input@.len(),
            n_rows * (k / 128) <= n_blocks,
            m * k <= input_len,
            total == m * n_rows,
            total <= len,
            len == before.len(),
            output@.len() == len,
            i <= total,
            forall|q: int|
                0 <= q < len ==> #[trigger] output@[q] == (if q < i {
                    output_1bit(t, blocks@, input@, before, m, n_rows, k, paired)[q]
                } else {
                    before[q]
                }),
        decreases total - i,
    {
        proof {
            lemma_cell_inside(i as int, m, n_rows, k, n_blocks as nat, input_len as nat);
        }
        let at = RowAt {
            first: (i % n_rows) * blocks_per_row,
            count: blocks_per_row,
            base: (i / n_rows) * k,
        };
        let r: u32 = row_dot_1bit(t, blocks, input, at, paired);
        output[i] = r;
        i += 1;
    }
    assert(output@ =~= output_1bit(t, blocks@, input@, before, m, n_rows, k, paired));
}

/// Output of a ternary product with `m` vectors: the first `m * n_rows` elements
/// are products of a row and a vector, the others stay as they are.
pub open spec fn output_ternary<T: Arith>(
    t: &T,
    blocks: Seq<BlockTQ2_0_g128>,
    input: Seq<u32>,
    before: Seq<u32>,
    m: usize,
    n_rows: usize,
    k: usize,
    paired: bool,
) -> Seq<u32> {
    Seq::new(
        before.len(),
        |i: int|
            if i < m * n_rows {
                let c = cell(i, n_rows, k);
                row_ternary(t, c.row(blocks), c.vector(input), paired, c.count as nat)
            } else {
                before[i]
            },
    )
}

fn product_ternary<T: Arith>(
    t: &T,
    blocks: &[BlockTQ2_0_g128],
    input: &[u32],
    output: &mut [u32],
    m: usize,
    n_rows: usize,
    k: usize,
    paired: bool,
)
    requires
        arith::deterministic(t),
        k % 128 == 0,
        n_rows * (k / 128) <= blocks@.len(),
        m * k <= input@.len(),
        m * n_rows <= old(output)@.len(),
    ensures
        final(output)@ == output_ternary(
            t,
            blocks@,
            input@,
            old(output)@,
            m,
            n_rows,
            k,
            paired,
        ),
{
    let ghost before = output@;
    let n_blocks: usize = blocks.len();
    let input_len: usize = input.len();
    let len: usize = output.len();
    let total: usize = m * n_rows;
    let blocks_per_row: usize = k / 128;
    let mut i: usize = 0;
    while i < total
        invariant
            arith::deterministic(t),
            k % 128 == 0,
            blocks_per_row == k / 128,
            n_blocks == blocks@.len(),
            input_len == input@.len(),
            n_rows * (k / 128) <= n_blocks,
            m * k <= input_len,
            total == m * n_rows,
            total <= len,
            len == before.len(),
            output@.len() == len,
            i <= total,
            forall|q: int|
                0 <= q < len ==> #[trigger] output@[q] == (if q < i {
                    output_ternary(t, blocks@, input@, before, m, n_rows, k, paired)[q]
                } else {
                    before[q]
                }),
        decreases total - i,
    {
        proof {
            lemma_cell_inside(i as int, m, n_rows, k, n_blocks as nat, input_len as nat);
        }
        let at = RowAt {
            first: (i % n_rows) * blocks_per_row,
            count: blocks_per_row,
            base: (i / n_rows) * k,
        };
        let r: u32 = row_dot_ternary(t, blocks, input, at, paired);
        output[i] = r;
        i += 1;
    }
    assert(output@ =~= output_ternary(t, blocks@, input@, before, m, n_rows, k, paired));
}

/// 1-bit matrix-vector product with one accumulator per row.
pub fn gemv_1bit_g128_avx2<T: Arith>(
    t: &T,
    blocks: &[BlockQ1_0G128],
    input: &[u32],
    output: &mut [u32],
    n_rows: usize,
    k: usize,
) -> (r: KernelResult<()>)
    requires
        arith::deterministic(t),
        checks::gemv_fits(input@.len(), old(output)@.len(), n_rows, k, 128),
    ensures
        match checks::gemv_fault(
            blocks@.len(),
            input@.len(),
            old(output)@.len(),
            n_rows,
            k,
            128,
        ) {
            Some(e) => r == Err::<(), KernelError>(e) && final(output)@ == old(output)@,
            None => r == Ok::<(), KernelError>(()) && final(output)@ == output_1bit(
                t,
                blocks@,
                input@,
                old(output)@,
                1,
                n_rows,
                k,
                false,
            ),
        },
{
    let output_len: usize = output.len();
    validate_gemv(blocks.len(), input.len(), output_len, n_rows, k, 128)?;
    product_1bit(t, blocks, input, output, 1, n_rows, k, false);
    Ok(())
}

/// 1-bit product with `m` vectors, one accumulator per row.
pub fn gemm_1bit_g128_avx2<T: Arith>(
    t: &T,
    blocks: &[BlockQ1_0G128],
    input: &[u32],
    output: &mut [u32],
    m: usize,
    n_rows: usize,
    k: usize,
) -> (r: KernelResult<()>)
    requires
        arith::deterministic(t),
        checks::gemm_fits(input@.len(), old(output)@.len(), m, n_rows, k, 128),
    ensures
        match checks::gemm_fault(
            blocks@.len(),
            input@.len(),
            old(output)@.len(),
            m,
            n_rows,
            k,
            128,
        ) {
            Some(e) => r == Err::<(), KernelError>(e) && final(output)@ == old(output)@,
            None => r == Ok::<(), KernelError>(()) && final(output)@ == output_1bit(
                t,
                blocks@,
                input@,
                old(output)@,
                m,
                n_rows,
                k,
                false,
            ),
        },
{
    let output_len: usize = output.len();
    validate_gemm(blocks.len(), input.len(), output_len, m, n_rows, k, 128)?;
    product_1bit(t, blocks, input, output, m, n_rows, k, false);
    Ok(())
}

/// 1-bit matrix-vector product that takes two blocks at a time, each with an
/// accumulator of its own.
pub fn gemv_1bit_g128_avx2_prefetch<T: Arith>(
    t: &T,
    blocks: &[BlockQ1_0G128],
    input: &[u32],
    output: &mut [u32],
    n_rows: usize,
    k: usize,
) -> (r: KernelResult<()>)
    requires
        arith::deterministic(t),
        checks::gemv_fits(input@.len(), old(output)@.len(), n_rows, k, 128),
    ensures
        match checks::gemv_fault(
            blocks@.len(),
            input@.len(),
            old(output)@.len(),
            n_rows,
            k,
            128,
        ) {
            Some(e) => r == Err::<(), KernelError>(e) && final(output)@ == old(output)@,
            None => r == Ok::<(), KernelError>(()) && final(output)@ == output_1bit(
                t,
                blocks@,
                input@,
                old(output)@,
                1,
                n_rows,
                k,
                true,
            ),
        },
{
    let output_len: usize = output.len();
    validate_gemv(blocks.len(), input.len(), output_len, n_rows, k, 128)?;
    product_1bit(t, blocks, input, output, 1, n_rows, k, true);
    Ok(())
}

/// 1-bit product with `m` vectors that takes two blocks at a time, each with an
/// accumulator of its own.
pub fn gemm_1bit_g128_avx2_prefetch<T: Arith>(
    t: &T,
    blocks: &[BlockQ1_0G128],
    input: &[u32],
    output: &mut [u32],
    m: usize,
    n_rows: usize,
    k: usize,
) -> (r: KernelResult<()>)
    requires
        arith::deterministic(t),
        checks::gemm_fits(input@.len(), old(output)@.len(), m, n_rows, k, 128),
    ensures
        match checks::gemm_fault(
            blocks@.len(),
            input@.len(),
            old(output)@.len(),
            m,
            n_rows,
            k,
            128,
        ) {
            Some(e) => r == Err::<(), KernelError>(e) && final(output)@ == old(output)@,
            None => r == Ok::<(), KernelError>(()) && final(output)@ == output_1bit(
                t,
                blocks@,
                input@,
                old(output)@,
                m,
                n_rows,
                k,
                true,
            ),
        },
{
    let output_len: usize = output.len();
    validate_gemm(blocks.len(), input.len(), output_len, m, n_rows, k, 128)?;
    product_1bit(t, blocks, input, output, m, n_rows, k, true);
    Ok(())
}

/// Ternary matrix-vector product with one accumulator per block.
pub fn gemv_tq2_0_g128_avx2<T: Arith>(
    t: &T,
    blocks: &[BlockTQ2_0_g128],
    input: &[u32],
    output: &mut [u32],
    n_rows: usize,
    k: usize,
) -> (r: KernelResult<()>)
    requires
        arith::deterministic(t),
        checks::gemv_fits(input@.len(), old(output)@.len(), n_rows, k, 128),
    ensures
        match checks::gemv_fault(
            blocks@.len(),
            input@.len(),
            old(output)@.len(),
            n_rows,
            k,
            128,
        ) {
            Some(e) => r == Err::<(), KernelError>(e) && final(output)@ == old(output)@,
            None => r == Ok::<(), KernelError>(()) && final(output)@ == output_ternary(
                t,
                blocks@,
                input@,
                old(output)@,
                1,
                n_rows,
                k,
                false,
            ),
        },
{
    let output_len: usize = output.len();
    validate_gemv(blocks.len(), input.len(), output_len, n_rows, k, 128)?;
    product_ternary(t, blocks, input, output, 1, n_rows, k, false);
    Ok(())
}

/// Ternary matrix-vector product that takes four bytes at a time, with two
/// accumulators per block. The reserved code counts as zero.
pub fn gemv_tq2_0_g128_avx2_prefetch<T: Arith>(
    t: &T,
    blocks: &[BlockTQ2_0_g128],
    input: &[u32],
    output: &mut [u32],
    n_rows: usize,
    k: usize,
) -> (r: KernelResult<()>)
    requires
        arith::deterministic(t),
        checks::gemv_fits(input@.len(), old(output)@.len(), n_rows, k, 128),
    ensures
        match checks::gemv_fault(
            blocks@.len(),
            input@.len(),
            old(output)@.len(),
            n_rows,
            k,
            128,
        ) {
            Some(e) => r == Err::<(), KernelError>(e) && final(output)@ == old(output)@,
            None => r == Ok::<(), KernelError>(()) && final(output)@ == output_ternary(
                t,
                blocks@,
                input@,
                old(output)@,
                1,
                n_rows,
                k,
                true,
            ),
        },
{
    let output_len: usize = output.len();
    validate_gemv(blocks.len(), input.len(), output_len, n_rows, k, 128)?;
    product_ternary(t, blocks, input, output, 1, n_rows, k, true);
    Ok(())
}

/// Ternary product with `m` vectors, one accumulator per block.
pub fn gemm_tq2_0_g128_avx2<T: Arith>(
    t: &T,
    blocks: &[BlockTQ2_0_g128],
    input: &[u32],
    output: &mut [u32],
    m: usize,
    n_rows: usize,
    k: usize,
) -> (r: KernelResult<()>)
    requires
        arith::deterministic(t),
        checks::gemm_fits(input@.len(), old(output)@.len(), m, n_rows, k, 128),
    ensures
        match checks::gemm_fault(
            blocks@.len(),
            input@.len(),
            old(output)@.len(),
            m,
            n_rows,
            k,
            128,
        ) {
            Some(e) => r == Err::<(), KernelError>(e) && final(output)@ == old(output)@,
            None => r == Ok::<(), KernelError>(()) && final(output)@ == output_ternary(
                t,
                blocks@,
                input@,
                old(output)@,
                m,
                n_rows,
                k,
                false,
            ),
        },
{
    let output_len: usize = output.len();
    validate_gemm(blocks.len(), input.len(), output_len, m, n_rows, k, 128)?;
    product_ternary(t, blocks, input, output, m, n_rows, k, false);
    Ok(())
}

/// A 1-bit product with many vectors is, vector by vector, the matrix-vector
/// product.
pub proof fn law_1bit_product_is_per_vector<T: Arith>(
    t: &T,
    blocks: Seq<BlockQ1_0G128>,
    input: Seq<u32>,
    before: Seq<u32>,
    alone: Seq<u32>,
    m: usize,
    n_rows: usize,
    k: usize,
    paired: bool,
    vector: int,
    row: int,
)
    requires
        0 <= vector < m,
        0 <= row < n_rows,
        k % 128 == 0,
        n_rows * (k / 128) <= blocks.len() <= usize::MAX,
        m * k <= input.len() <= usize::MAX,
        m * n_rows <= before.len(),
        n_rows <= alone.len(),
    ensures
        output_1bit(t, blocks, input, before, m, n_rows, k, paired)[vector * n_rows + row]
            == output_1bit(
            t,
            blocks,
            input.subrange(vector * k, vector * k + k),
            alone,
            1,
            n_rows,
            k,
            paired,
        )[row],
{
    let i = vector * n_rows + row;
    assert(0 <= i < m * n_rows && i / n_rows as int == vector && i % n_rows as int == row) by {
        vstd::arithmetic::div_mod::lemma_fundamental_div_mod_converse(
            i,
            n_rows as int,
            vector,
            row,
        );
        assert(0 <= i < m * n_rows) by (nonlinear_arith)
            requires
                i == vector * n_rows + row,
                0 <= vector < m,
                0 <= row < n_rows,
        ;
    }
    assert(row / n_rows as int == 0 && row % n_rows as int == row) by {
        vstd::arithmetic::div_mod::lemma_fundamental_div_mod_converse(row, n_rows as int, 0, row);
    }
    assert(0 <= vector * k && vector * k + k <= m * k) by (nonlinear_arith)
        requires
            0 <= vector < m,
            k >= 0,
    ;
    let own = input.subrange(vector * k, vector * k + k);
    lemma_cell_inside(i, m, n_rows, k, blocks.len(), input.len());
    lemma_cell_inside(row, 1, n_rows, k, blocks.len(), own.len());
    assert(cell(row, n_rows, k).vector(own) =~= cell(i, n_rows, k).vector(input));
}

/// A ternary product with many vectors is, vector by vector, the matrix-vector
/// product.
pub proof fn law_ternary_product_is_per_vector<T: Arith>(
    t: &T,
    blocks: Seq<BlockTQ2_0_g128>,
    input: Seq<u32>,
    before: Seq<u32>,
    alone: Seq<u32>,
    m: usize,
    n_rows: usize,
    k: usize,
    paired: bool,
    vector: int,
    row: int,
)
    requires
        0 <= vector < m,
        0 <= row < n_rows,
        k % 128 == 0,
        n_rows * (k / 128) <= blocks.len() <= usize::MAX,
        m * k <= input.len() <= usize::MAX,
        m * n_rows <= before.len(),
        n_rows <= alone.len(),
    ensures
        output_ternary(t, blocks, input, before, m, n_rows, k, paired)[vector * n_rows + row]
            == output_ternary(
            t,
            blocks,
            input.subrange(vector * k, vector * k + k),
            alone,
            1,
            n_rows,
            k,
            paired,
        )[row],
{
    let i = vector * n_rows + row;
    assert(0 <= i < m * n_rows && i / n_rows as int == vector && i % n_rows as int == row) by {
        vstd::arithmetic::div_mod::lemma_fundamental_div_mod_converse(
            i,
            n_rows as int,
            vector,
            row,
        );
        assert(0 <= i < m * n_rows) by (nonlinear_arith)
            requires
                i == vector * n_rows + row,
                0 <= vector < m,
                0 <= row < n_rows,
        ;
    }
    assert(row / n_rows as int == 0 && row % n_rows as int == row) by {
        vstd::arithmetic::div_mod::lemma_fundamental_div_mod_converse(row, n_rows as int, 0, row);
    }
    assert(0 <= vector * k && vector * k + k <= m * k) by (nonlinear_arith)
        requires
            0 <= vector < m,
            k >= 0,
    ;
    let own = input.subrange(vector * k, vector * k + k);
    lemma_cell_inside(i, m, n_rows, k, blocks.len(), input.len());
    lemma_cell_inside(row, 1, n_rows, k, blocks.len(), own.len());
    assert(cell(row, n_rows, k).vector(own) =~= cell(i, n_rows, k).vector(input));
}

/// A dequantised 1-bit weight has the magnitude of its scale.
pub proof fn law_one_bit_weights_have_one_magnitude(b: BlockQ1_0G128, i: int, j: int)
    ensures
        b.weight(i) & 0x7fff_ffff == b.weight(j) & 0x7fff_ffff,
{
    blocks::law_negation_is_involutive(blocks::half_to_single(b.d));
}

/// Where no code is the reserved one, both ways to read codes agree.
pub proof fn law_reserved_code_alone_differs(qs: Seq<u8>, j: int)
    ensures
        blocks::code(qs, j) != 3 <==> code_number(qs, j, true) == code_number(qs, j, false),
{
}

/// Lane `l` of the first `c` chunks of one block, added up on their own.
pub open spec fn block_lane<T: Arith>(
    t: &T,
    block: BlockQ1_0G128,
    input: Seq<u32>,
    b: int,
    l: int,
    c: nat,
) -> u32
    decreases c,
{
    if c == 0 {
        0
    } else {
        let j = (c - 1) * 8 + l;
        arith::sum(
            t,
            arith::product(
                t,
                blocks::half_to_single(block.d),
                arith::product(t, sign_number(block.qs@, j), input[b * 128 + j]),
            ),
            block_lane(t, block, input, b, l, (c - 1) as nat),
        )
    }
}

/// A lane after some chunks of its next block is that block's part and what the
/// lane held, where sums may be regrouped.
proof fn lemma_lane_splits<T: Arith>(
    t: &T,
    row: Seq<BlockQ1_0G128>,
    input: Seq<u32>,
    start: int,
    stride: int,
    l: int,
    i: nat,
    c: nat,
)
    requires
        arith::reassociates(t),
        c <= 16,
    ensures
        ({
            let b = start + stride * i;
            lane_1bit(t, row, input, start, stride, l, 16 * i + c) == arith::sum(
                t,
                block_lane(t, row[b], input, b, l, c),
                lane_1bit(t, row, input, start, stride, l, 16 * i),
            )
        }),
    decreases c,
{
    let b = start + stride * i;
    let before = lane_1bit(t, row, input, start, stride, l, 16 * i);
    if c == 0 {
        arith::lemma_zero_adds_nothing(t, before);
    } else {
        let d = (c - 1) as nat;
        lemma_lane_splits(t, row, input, start, stride, l, i, d);
        let n = (16 * i + d) as int;
        assert(n / 16 == i && n % 16 == d);
        let j = d * 8 + l;
        let x = arith::product(
            t,
            blocks::half_to_single(row[b].d),
            arith::product(t, sign_number(row[b].qs@, j), input[b * 128 + j]),
        );
        let part = block_lane(t, row[b], input, b, l, d);
        let scale = blocks::half_to_single(row[b].d);
        let signed = arith::product(t, sign_number(row[b].qs@, j), input[b * 128 + j]);
        let held = lane_1bit(t, row, input, start, stride, l, n as nat);
        arith::lemma_fused_is_two(t, scale, signed, held);
        arith::lemma_regroups(t, x, part, before);
    }
}

/// A lane after its next block is that block's part and what the lane held, where
/// sums may be regrouped.
proof fn lemma_next_block<T: Arith>(
    t: &T,
    row: Seq<BlockQ1_0G128>,
    input: Seq<u32>,
    start: int,
    stride: int,
    l: int,
    i: nat,
)
    requires
        arith::reassociates(t),
    ensures
        lane_after(t, row, input, start, stride, l, i + 1) == arith::sum(
            t,
            block_part(t, row, input, start + stride * i, l),
            lane_after(t, row, input, start, stride, l, i),
        ),
{
    reveal(lane_after);
    reveal(block_part);
    lemma_lane_splits(t, row, input, start, stride, l, i, 16);
    assert(16 * (i + 1) == 16 * i + 16);
}

/// Lane `l` of an accumulator after `i` blocks.
#[verifier::opaque]
spec fn lane_after<T: Arith>(
    t: &T,
    row: Seq<BlockQ1_0G128>,
    input: Seq<u32>,
    start: int,
    stride: int,
    l: int,
    i: nat,
) -> u32 {
    lane_1bit(t, row, input, start, stride, l, 16 * i)
}

/// Lane `l` of block `b`, added up on its own.
#[verifier::opaque]
spec fn block_part<T: Arith>(
    t: &T,
    row: Seq<BlockQ1_0G128>,
    input: Seq<u32>,
    b: int,
    l: int,
) -> u32 {
    block_lane(t, row[b], input, b, l, 16)
}

/// Two accumulators for even and odd blocks add up to the one for all, where
/// sums may be regrouped.
proof fn lemma_paired_lanes<T: Arith>(
    t: &T,
    row: Seq<BlockQ1_0G128>,
    input: Seq<u32>,
    l: int,
    n: nat,
)
    requires
        arith::reassociates(t),
    ensures
        arith::sum(
            t,
            lane_after(t, row, input, 0, 2, l, (n + 1) / 2),
            lane_after(t, row, input, 1, 2, l, n / 2),
        ) == lane_after(t, row, input, 0, 1, l, n),
    decreases n,
{
    if n == 0 {
        reveal(lane_after);
        arith::lemma_zero_adds_nothing(t, 0);
    } else {
        let m = (n - 1) as nat;
        let i = (m / 2) as nat;
        lemma_paired_lanes(t, row, input, l, m);
        let even = lane_after(t, row, input, 0, 2, l, (m + 1) / 2);
        let odd = lane_after(t, row, input, 1, 2, l, m / 2);
        let part = block_part(t, row, input, m as int, l);
        lemma_next_block(t, row, input, 0, 1, l, m);
        if m % 2 == 0 {
            lemma_next_block(t, row, input, 0, 2, l, i);
            assert((m + 1) / 2 == i && (n + 1) / 2 == i + 1 && n / 2 == m / 2 && 2 * i == m);
            arith::lemma_regroups(t, part, even, odd);
        } else {
            lemma_next_block(t, row, input, 1, 2, l, i);
            assert((n + 1) / 2 == (m + 1) / 2 && n / 2 == i + 1 && 1 + 2 * i == m);
            arith::lemma_commutes(t, even, arith::sum(t, part, odd));
            arith::lemma_regroups(t, part, odd, even);
            arith::lemma_commutes(t, odd, even);
        }
    }
}

/// The prefetching product is the plain one: it leaves the same elements alone,
/// and its sums are those of the plain one in another grouping. Their faults are
/// one and the same function of the arguments.
pub proof fn law_prefetch_only_regroups<T: Arith>(
    t: &T,
    blocks: Seq<BlockQ1_0G128>,
    input: Seq<u32>,
    before: Seq<u32>,
    m: usize,
    n_rows: usize,
    k: usize,
)
    ensures
        ({
            let plain = output_1bit(t, blocks, input, before, m, n_rows, k, false);
            let paired = output_1bit(t, blocks, input, before, m, n_rows, k, true);
            &&& plain.len() == paired.len()
            &&& forall|i: int|
                m * n_rows <= i < before.len() ==> #[trigger] paired[i] == plain[i] && plain[i]
                    == before[i]
            &&& arith::reassociates(t) ==> paired == plain
        }),
{
    let plain = output_1bit(t, blocks, input, before, m, n_rows, k, false);
    let paired = output_1bit(t, blocks, input, before, m, n_rows, k, true);
    assert forall|i: int| m * n_rows <= i < before.len() implies #[trigger] paired[i] == plain[i]
        && plain[i] == before[i] by {
        assert(0 <= m * n_rows) by (nonlinear_arith);
    }
    if arith::reassociates(t) {
        assert forall|i: int| 0 <= i < before.len() implies paired[i] == plain[i] by {
            if i < m * n_rows {
                let c = cell(i, n_rows, k);
                let row = c.row(blocks);
                let vector = c.vector(input);
                let n = row.len();
                let one = Seq::new(8, |l: int| lane_1bit(t, row, vector, 0, 1, l, 16 * n));
                let two = Seq::new(
                    8,
                    |l: int|
                        arith::sum(
                            t,
                            lane_1bit(t, row, vector, 0, 2, l, 16 * ((n + 1) / 2)),
                            lane_1bit(t, row, vector, 1, 2, l, 16 * (n / 2)),
                        ),
                );
                assert forall|l: int| 0 <= l < 8 implies one[l] == two[l] by {
                    reveal(lane_after);
                    lemma_paired_lanes(t, row, vector, l, n);
                }
                assert(one =~= two);
                assert(row_1bit(t, row, vector, false) == arith::sum8(t, one));
                assert(row_1bit(t, row, vector, true) == arith::sum8(t, two));
            }
        }
        assert(paired =~= plain);
    }
}

} // verus!

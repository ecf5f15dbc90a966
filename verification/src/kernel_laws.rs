//! What the CPU kernels accept, and where their results go.

use vstd::arithmetic::power2;
use vstd::prelude::*;

use crate::algebra;
use crate::arith;
use crate::arith::{Arith, MINUS_ONE_BITS, ONE_BITS};
use crate::blocks;
use crate::blocks::{BlockQ1_0G128, BlockTQ2_0_g128};
use crate::checks;
use crate::error::{KernelError, KernelResult};
use crate::fp8;
use crate::fp8::{ByteBlock, Lanes};
use crate::product_laws;
use crate::simd_avx2;
use crate::simd_float_ops;
use crate::simd_float_ops::Isa;

verus! {

// Dequantisation.
/// 1-bit blocks are dequantised exactly where the output holds all weights. Weight `j` of
/// block `b` goes to element `128 b + j`: the scale where its bit is one, else the scale
/// with its sign flipped. Anything else stays.
pub proof fn law_dequantised_one_bit(
    blocks: &[BlockQ1_0G128],
    output: &mut [u32],
    r: KernelResult<()>,
)
    requires
        blocks@.len() * 128 <= usize::MAX,
        call_ensures(simd_avx2::dequant_1bit_g128_avx2, (blocks, output), r),
    ensures
        r is Ok <==> old(output)@.len() >= 128 * blocks@.len(),
        r matches Err(e) ==> e == (KernelError::BufferTooSmall {
            needed: (128 * blocks@.len()) as usize,
            available: old(output)@.len() as usize,
        }) && final(output)@ == old(output)@,
        final(output)@.len() == old(output)@.len(),
        r is Ok ==> forall|b: int, j: int|
            0 <= b < blocks@.len() && 0 <= j < 128 ==> {
                let scale = blocks::half_to_single(blocks@[b].d);
                #[trigger] final(output)@[128 * b + j] == (if (blocks@[b].qs@[j / 8] as nat
                    / power2::pow2((j % 8) as nat)) % 2 == 1 {
                    scale
                } else {
                    scale ^ 0x8000_0000
                })
            },
        forall|p: int|
            128 * blocks@.len() <= p < old(output)@.len() ==> #[trigger] final(output)@[p] == old(output)@[p],
{
    assert forall|b: int, j: int|
        r is Ok && 0 <= b < blocks@.len() && 0 <= j < 128 implies #[trigger] final(output)@[128 * b
        + j] == blocks@[b].weight(j) && (128 * b + j) / 128 == b && (128 * b + j) % 128 == j by {
        assert((128 * b + j) / 128 == b && (128 * b + j) % 128 == j);
    }
    assert forall|b: int, j: int| 0 <= b < blocks@.len() && 0 <= j < 128 implies #[trigger] blocks@[
        b].weight(j) == (if (blocks@[b].qs@[j / 8] as nat / power2::pow2((j % 8) as nat)) % 2 == 1 {
        blocks::half_to_single(blocks@[b].d)
    } else {
        blocks::half_to_single(blocks@[b].d) ^ 0x8000_0000
    }) by {
        product_laws::law_one_bit_weight(blocks@[b], j);
    }
}

/// Ternary blocks are dequantised exactly where the output holds all weights. Weight `j`
/// of block `b` goes to element `128 b + j`: by its two bits, zero is the scale with its
/// sign flipped, one a zero with the scale's sign where the scale is finite, and the
/// others the scale. Anything else stays.
pub proof fn law_dequantised_ternary(
    blocks: &[BlockTQ2_0_g128],
    output: &mut [u32],
    r: KernelResult<()>,
)
    requires
        blocks@.len() * 128 <= usize::MAX,
        call_ensures(simd_avx2::dequant_tq2_0_g128_avx2, (blocks, output), r),
    ensures
        r is Ok <==> old(output)@.len() >= 128 * blocks@.len(),
        r matches Err(e) ==> e == (KernelError::BufferTooSmall {
            needed: (128 * blocks@.len()) as usize,
            available: old(output)@.len() as usize,
        }) && final(output)@ == old(output)@,
        final(output)@.len() == old(output)@.len(),
        r is Ok ==> forall|b: int, j: int|
            0 <= b < blocks@.len() && 0 <= j < 128 ==> {
                let scale = blocks::half_to_single(blocks@[b].d);
                let code = (blocks@[b].qs@[j / 4] as nat / power2::pow2((2 * (j % 4)) as nat)) % 4;
                let w = #[trigger] final(output)@[128 * b + j];
                &&& code == 0 ==> w == scale ^ 0x8000_0000
                &&& code == 1 && (scale & 0x7f80_0000) != 0x7f80_0000 ==> w == scale & 0x8000_0000
                &&& code >= 2 ==> w == scale
            },
        forall|p: int|
            128 * blocks@.len() <= p < old(output)@.len() ==> #[trigger] final(output)@[p] == old(output)@[p],
{
    assert forall|b: int, j: int|
        r is Ok && 0 <= b < blocks@.len() && 0 <= j < 128 implies #[trigger] final(output)@[128 * b
        + j] == blocks@[b].weight(j) by {
        assert((128 * b + j) / 128 == b && (128 * b + j) % 128 == j);
    }
    assert forall|b: int, j: int| 0 <= b < blocks@.len() && 0 <= j < 128 implies {
        let scale = blocks::half_to_single(blocks@[b].d);
        let code = (blocks@[b].qs@[j / 4] as nat / power2::pow2((2 * (j % 4)) as nat)) % 4;
        let w = #[trigger] blocks@[b].weight(j);
        &&& code == 0 ==> w == scale ^ 0x8000_0000
        &&& code == 1 && (scale & 0x7f80_0000) != 0x7f80_0000 ==> w == scale & 0x8000_0000
        &&& code >= 2 ==> w == scale
    } by {
        product_laws::law_ternary_weight(blocks@[b], j);
    }
}

/// Lane `l` of unpacked signs is one where bit `l` is one, else minus one.
pub proof fn law_unpacked_signs(bits: u8, r: [u32; 8], l: int)
    requires
        0 <= l < 8,
        call_ensures(simd_avx2::bits_to_signs_avx2, (bits,), r),
    ensures
        r@[l] == (if (bits as nat / power2::pow2(l as nat)) % 2 == 1 {
            ONE_BITS
        } else {
            MINUS_ONE_BITS
        }),
{
    product_laws::lemma_bit(bits, l as u8);
}

/// Lane `l` of unpacked codes goes by the two bits from bit `2 (l % 4)` of byte `l / 4`
/// on: zero is minus one, one is zero, two is one, and the reserved three is one, or zero
/// where that is asked for.
pub proof fn law_unpacked_codes(b0: u8, b1: u8, reserved_zero: bool, r: [u32; 8], l: int)
    requires
        0 <= l < 8,
        call_ensures(simd_avx2::decode_2bytes_avx2_to_f32x8, (b0, b1, reserved_zero), r),
    ensures
        ({
            let byte = if l < 4 {
                b0
            } else {
                b1
            };
            let code = (byte as nat / power2::pow2((2 * (l % 4)) as nat)) % 4;
            r@[l] == (if code == 0 {
                MINUS_ONE_BITS
            } else if code == 1 || code == 3 && reserved_zero {
                0
            } else {
                ONE_BITS
            })
        }),
{
    let byte = if l < 4 {
        b0
    } else {
        b1
    };
    assert(seq![b0, b1][l / 4] == byte);
    product_laws::lemma_two_bits(byte, (2 * (l % 4)) as u8);
}

/// Blocks of 8-bit floats are dequantised exactly where the output holds all weights.
/// Weight `j` of block `b` goes to element `32 b + j`: the table's number for its byte,
/// times the scale. Anything else stays.
pub proof fn law_dequantised_bytes<T: Arith, B: ByteBlock>(
    t: &T,
    lut: Seq<u32>,
    blocks: Seq<B>,
    before: Seq<u32>,
)
    requires
        blocks.len() * 32 <= usize::MAX,
        before.len() <= usize::MAX,
    ensures
        fp8::dequant_fault(blocks.len(), before.len()) == (if before.len() >= 32 * blocks.len() {
            None
        } else {
            Some(
                KernelError::BufferTooSmall {
                    needed: (32 * blocks.len()) as usize,
                    available: before.len() as usize,
                },
            )
        }),
        before.len() >= 32 * blocks.len() ==> {
            let out = fp8::dequantised(t, lut, blocks, before);
            &&& out.len() == before.len()
            &&& forall|b: int, j: int|
                0 <= b < blocks.len() && 0 <= j < 32 ==> #[trigger] out[32 * b + j]
                    == arith::product(
                    t,
                    blocks::half_to_single(blocks[b].scale()),
                    lut[blocks[b].bytes()[j] as int],
                )
            &&& forall|p: int|
                32 * blocks.len() <= p < before.len() ==> #[trigger] out[p] == before[p]
        },
{
    let out = fp8::dequantised(t, lut, blocks, before);
    assert forall|b: int, j: int|
        before.len() >= 32 * blocks.len() && 0 <= b < blocks.len() && 0 <= j < 32 implies #[trigger]
        out[32 * b + j] == arith::product(
        t,
        blocks::half_to_single(blocks[b].scale()),
        lut[blocks[b].bytes()[j] as int],
    ) by {
        assert((32 * b + j) / 32 == b && (32 * b + j) % 32 == j);
    }
}

// Products.
/// A product of `n_rows` rows of `k` weights with `m` vectors can be made of these
/// operands.
pub open spec fn operands_suffice(
    n_blocks: nat,
    input_len: nat,
    output_len: nat,
    m: int,
    n_rows: int,
    k: int,
    qk: int,
) -> bool {
    &&& k % qk == 0
    &&& input_len >= m * k
    &&& output_len >= m * n_rows
    &&& n_blocks >= n_rows * (k / qk)
}

/// The error says what is missing, and how much of it there is.
pub open spec fn names_the_shortage(
    e: KernelError,
    n_blocks: nat,
    input_len: nat,
    output_len: nat,
    m: int,
    n_rows: int,
    k: int,
    qk: int,
) -> bool {
    match e {
        KernelError::NotBlockAligned { count, block_size } => count == k && block_size == qk && k
            % qk != 0,
        KernelError::DimensionMismatch { expected, got } => got < expected && (expected == m * k
            && got == input_len || expected == n_rows * (k / qk) && got == n_blocks),
        KernelError::BufferTooSmall { needed, available } => available < needed && (needed == m
            * n_rows && available == output_len || needed == n_rows * (k / qk) && available
            == n_blocks),
    }
}

/// Arguments of products are accepted exactly where the operands suffice, and an error
/// names what is missing.
pub proof fn law_product_checks(
    n_blocks: nat,
    input_len: nat,
    output_len: nat,
    m: usize,
    n_rows: usize,
    k: usize,
    qk: usize,
)
    requires
        qk > 0,
        n_blocks <= usize::MAX,
        input_len <= usize::MAX,
        output_len <= usize::MAX,
        m * k <= usize::MAX,
        m * n_rows <= usize::MAX,
        n_rows * (k / qk) <= usize::MAX,
    ensures
        ({
            let (n, w, q) = (n_rows as int, k as int, qk as int);
            let one = checks::gemv_fault(n_blocks, input_len, output_len, n_rows, k, qk);
            let many = checks::gemm_fault(n_blocks, input_len, output_len, m, n_rows, k, qk);
            let byte_one = fp8::gemv_fault(n_blocks, input_len, output_len, n_rows, k, qk);
            let byte_many = fp8::gemm_fault(n_blocks, input_len, output_len, n_rows, k, m, qk);
            let of_one = operands_suffice(n_blocks, input_len, output_len, 1, n, w, q);
            let of_many = operands_suffice(n_blocks, input_len, output_len, m as int, n, w, q);
            &&& one is None <==> of_one
            &&& byte_one is None <==> of_one
            &&& many is None <==> of_many
            &&& byte_many is None <==> of_many
            &&& one matches Some(e) ==> names_the_shortage(
                e,
                n_blocks,
                input_len,
                output_len,
                1,
                n,
                w,
                q,
            )
            &&& byte_one matches Some(e) ==> names_the_shortage(
                e,
                n_blocks,
                input_len,
                output_len,
                1,
                n,
                w,
                q,
            )
            &&& many matches Some(e) ==> names_the_shortage(
                e,
                n_blocks,
                input_len,
                output_len,
                m as int,
                n,
                w,
                q,
            )
            &&& byte_many matches Some(e) ==> names_the_shortage(
                e,
                n_blocks,
                input_len,
                output_len,
                m as int,
                n,
                w,
                q,
            )
        }),
{
}

/// The 1-bit kernels: with operands that suffice, element `vector * n_rows + row` of the
/// output is the sum of the row's weights times the vector's numbers, where arithmetic
/// does not round, and elements past the product stay. Else nothing changes.
pub proof fn law_one_bit_kernels<T: Arith>(
    t: &T,
    blocks: &[BlockQ1_0G128],
    input: &[u32],
    output: &mut [u32],
    m: usize,
    n_rows: usize,
    k: usize,
    r: KernelResult<()>,
)
    requires
        call_ensures(
            simd_avx2::gemm_1bit_g128_avx2::<T>,
            (t, blocks, input, output, m, n_rows, k),
            r,
        ) || call_ensures(
            simd_avx2::gemm_1bit_g128_avx2_prefetch::<T>,
            (t, blocks, input, output, m, n_rows, k),
            r,
        ) || m == 1 && call_ensures(
            simd_avx2::gemv_1bit_g128_avx2::<T>,
            (t, blocks, input, output, n_rows, k),
            r,
        ) || m == 1 && call_ensures(
            simd_avx2::gemv_1bit_g128_avx2_prefetch::<T>,
            (t, blocks, input, output, n_rows, k),
            r,
        ),
        blocks@.len() <= usize::MAX,
        input@.len() <= usize::MAX,
    ensures
        r is Ok <==> operands_suffice(
            blocks@.len(),
            input@.len(),
            old(output)@.len(),
            m as int,
            n_rows as int,
            k as int,
            128,
        ),
        r is Err ==> final(output)@ == old(output)@,
        final(output)@.len() == old(output)@.len(),
        forall|p: int|
            m * n_rows <= p < old(output)@.len() ==> #[trigger] final(output)@[p] == old(output)@[p],
        r is Ok && algebra::ring(t) && (forall|b: int|
            0 <= b < blocks@.len() ==> product_laws::negates(
                t,
                blocks::half_to_single((#[trigger] blocks@[b]).d),
            )) ==> forall|v: int, row: int|
            0 <= v < m && 0 <= row < n_rows ==> #[trigger] final(output)@[v * n_rows + row]
                == algebra::total(
                t,
                |j: int|
                    arith::product(
                        t,
                        blocks@[row * (k / 128) + j / 128].weight(j % 128),
                        input@[v * k + j],
                    ),
                k as nat,
            ),
{
    assert(m == 1 ==> m * k == k && m * n_rows == n_rows) by (nonlinear_arith);
    if r is Ok && algebra::ring(t) && (forall|b: int|
        0 <= b < blocks@.len() ==> product_laws::negates(
            t,
            blocks::half_to_single((#[trigger] blocks@[b]).d),
        )) {
        assert forall|v: int, row: int| 0 <= v < m && 0 <= row < n_rows implies
            #[trigger] final(output)@[v * n_rows + row] == algebra::total(
            t,
            |j: int|
                arith::product(
                    t,
                    blocks@[row * (k / 128) + j / 128].weight(j % 128),
                    input@[v * k + j],
                ),
            k as nat,
        ) by {
            let q = (k / 128) as int;
            assert(0 <= row * q && row * q + q <= n_rows * q) by (nonlinear_arith)
                requires
                    0 <= row,
                    row + 1 <= n_rows,
                    q >= 0,
            ;
            product_laws::law_one_bit_product(
                t,
                blocks@,
                input@,
                old(output)@,
                m,
                n_rows,
                k,
                false,
                v,
                row,
            );
            product_laws::law_one_bit_product(
                t,
                blocks@,
                input@,
                old(output)@,
                m,
                n_rows,
                k,
                true,
                v,
                row,
            );
        }
    }
}

/// The scale negates, code one is a zero, and the reserved code does not occur.
pub open spec fn is_plain<T: Arith>(t: &T, b: BlockTQ2_0_g128) -> bool {
    &&& product_laws::negates(t, blocks::half_to_single(b.d))
    &&& forall|j: int|
        0 <= j < 128 ==> {
            let code = #[trigger] blocks::code(b.qs@, j);
            code != 3 && (code == 1 ==> b.weight(j) == 0)
        }
}

/// The ternary kernels, in the same way, on blocks without the reserved code.
pub proof fn law_ternary_kernels<T: Arith>(
    t: &T,
    blocks: &[BlockTQ2_0_g128],
    input: &[u32],
    output: &mut [u32],
    m: usize,
    n_rows: usize,
    k: usize,
    r: KernelResult<()>,
)
    requires
        call_ensures(
            simd_avx2::gemm_tq2_0_g128_avx2::<T>,
            (t, blocks, input, output, m, n_rows, k),
            r,
        ) || m == 1 && call_ensures(
            simd_avx2::gemv_tq2_0_g128_avx2::<T>,
            (t, blocks, input, output, n_rows, k),
            r,
        ) || m == 1 && call_ensures(
            simd_avx2::gemv_tq2_0_g128_avx2_prefetch::<T>,
            (t, blocks, input, output, n_rows, k),
            r,
        ),
        blocks@.len() <= usize::MAX,
        input@.len() <= usize::MAX,
    ensures
        r is Ok <==> operands_suffice(
            blocks@.len(),
            input@.len(),
            old(output)@.len(),
            m as int,
            n_rows as int,
            k as int,
            128,
        ),
        r is Err ==> final(output)@ == old(output)@,
        final(output)@.len() == old(output)@.len(),
        forall|p: int|
            m * n_rows <= p < old(output)@.len() ==> #[trigger] final(output)@[p] == old(output)@[p],
        r is Ok && algebra::ring(t) && (forall|b: int|
            0 <= b < blocks@.len() ==> is_plain(t, #[trigger] blocks@[b])) ==> forall|
            v: int,
            row: int,
        |
            0 <= v < m && 0 <= row < n_rows ==> #[trigger] final(output)@[v * n_rows + row]
                == algebra::total(
                t,
                |j: int|
                    arith::product(
                        t,
                        blocks@[row * (k / 128) + j / 128].weight(j % 128),
                        input@[v * k + j],
                    ),
                k as nat,
            ),
{
    assert(m == 1 ==> m * k == k && m * n_rows == n_rows) by (nonlinear_arith);
    if r is Ok && algebra::ring(t) && (forall|b: int|
        0 <= b < blocks@.len() ==> is_plain(t, #[trigger] blocks@[b])) {
        assert forall|v: int, row: int| 0 <= v < m && 0 <= row < n_rows implies
            #[trigger] final(output)@[v * n_rows + row] == algebra::total(
            t,
            |j: int|
                arith::product(
                    t,
                    blocks@[row * (k / 128) + j / 128].weight(j % 128),
                    input@[v * k + j],
                ),
            k as nat,
        ) by {
            let q = (k / 128) as int;
            assert(0 <= row * q && row * q + q <= n_rows * q) by (nonlinear_arith)
                requires
                    0 <= row,
                    row + 1 <= n_rows,
                    q >= 0,
            ;
            assert forall|b: int, j: int|
                row * q <= b < row * q + q && 0 <= j < 128 implies #[trigger] blocks::code(
                (#[trigger] blocks@[b]).qs@,
                j,
            ) != 3 && (blocks::code(blocks@[b].qs@, j) == 1 ==> blocks@[b].weight(j) == 0) by {
                assert(is_plain(t, blocks@[b]));
            }
            product_laws::law_ternary_product(
                t,
                blocks@,
                input@,
                old(output)@,
                m,
                n_rows,
                k,
                false,
                v,
                row,
            );
            product_laws::law_ternary_product(
                t,
                blocks@,
                input@,
                old(output)@,
                m,
                n_rows,
                k,
                true,
                v,
                row,
            );
        }
    }
}

/// The kernels on 8-bit floats, in the same way, in lanes of any width.
pub proof fn law_byte_kernels<T: Arith, B: ByteBlock>(
    t: &T,
    lut: Seq<u32>,
    blocks: Seq<B>,
    input: Seq<u32>,
    before: Seq<u32>,
    n_rows: usize,
    k: usize,
    batch: usize,
    lanes: Lanes,
)
    ensures
        ({
            let (r, out) = fp8::gemm_outcome(
                t,
                lut,
                blocks,
                input,
                before,
                n_rows,
                k,
                batch,
                lanes,
            );
            &&& r is Ok <==> operands_suffice(
                blocks.len(),
                input.len(),
                before.len(),
                batch as int,
                n_rows as int,
                k as int,
                32,
            )
            &&& r is Err ==> out == before
            &&& out.len() == before.len()
            &&& forall|p: int| batch * n_rows <= p < before.len() ==> #[trigger] out[p] == before[p]
            &&& r is Ok && arith::reassociates(t) ==> forall|v: int, row: int|
                0 <= v < batch && 0 <= row < n_rows ==> #[trigger] out[v * n_rows + row]
                    == algebra::total(
                    t,
                    |j: int|
                        {
                            let b = blocks[row * (k / 32) + j / 32];
                            arith::product(
                                t,
                                arith::product(
                                    t,
                                    blocks::half_to_single(b.scale()),
                                    lut[b.bytes()[j % 32] as int],
                                ),
                                input[v * k + j],
                            )
                        },
                    k as nat,
                )
            &&& batch == 1 ==> fp8::gemv_outcome(t, lut, blocks, input, before, n_rows, k, lanes).1
                == out
        }),
{
    assert(batch == 1 ==> batch * k == k && batch * n_rows == n_rows) by (nonlinear_arith);
    let (r, out) = fp8::gemm_outcome(t, lut, blocks, input, before, n_rows, k, batch, lanes);
    if r is Ok && arith::reassociates(t) {
        assert forall|v: int, row: int| 0 <= v < batch && 0 <= row < n_rows implies #[trigger] out[v
            * n_rows + row] == algebra::total(
            t,
            |j: int|
                {
                    let b = blocks[row * (k / 32) + j / 32];
                    arith::product(
                        t,
                        arith::product(
                            t,
                            blocks::half_to_single(b.scale()),
                            lut[b.bytes()[j % 32] as int],
                        ),
                        input[v * k + j],
                    )
                },
            k as nat,
        ) by {
            product_laws::law_fp8_product(
                t,
                lut,
                blocks,
                input,
                before,
                n_rows,
                k,
                batch,
                lanes,
                v,
                row,
            );
        }
    }
}

// Element-wise kernels.
/// Element-wise kernels write as many elements as their input has, and the others stay;
/// rotary embeddings write whole pairs.
pub proof fn law_element_kernels_leave_the_rest<T: Arith>(
    t: &T,
    isa: Isa,
    input: &[u32],
    second: &[u32],
    third: &[u32],
    output: &mut [u32],
    eps: u32,
)
    requires
        call_ensures(simd_float_ops::silu_simd::<T>, (t, isa, input, output), ()) || call_ensures(
            simd_float_ops::swiglu_simd::<T>,
            (t, isa, input, second, output),
            (),
        ) || call_ensures(
            simd_float_ops::rms_norm_simd::<T>,
            (t, isa, input, second, output, eps),
            (),
        ) || call_ensures(
            simd_float_ops::rope_apply_simd::<T>,
            (t, isa, input, output, second, third),
            (),
        ),
    ensures
        final(output)@.len() == old(output)@.len(),
        forall|p: int|
            input@.len() <= p < old(output)@.len() ==> #[trigger] final(output)@[p] == old(output)@[p],
{
}

/// Softmax keeps the count, and leaves nothing as nothing.
pub proof fn law_softmax_keeps_the_count<T: Arith>(t: &T, isa: Isa, values: &mut [u32])
    requires
        call_ensures(simd_float_ops::softmax_simd::<T>, (t, isa, values), ()),
    ensures
        final(values)@.len() == old(values)@.len(),
{
}

} // verus!

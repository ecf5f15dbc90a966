//! 8-bit float kernels in eight x86 lanes.

use vstd::prelude::*;

use crate::arith;
use crate::arith::Arith;
use crate::checks;
use crate::error::{KernelError, KernelResult};
use crate::fp8;
use crate::fp8::{BlockFP8E4M3, BlockFP8E5M2, Lanes};

verus! {

/// Dequantises blocks with four exponent bits. `lut` holds the number of each byte.
pub fn dequant_fp8_e4m3_avx2<T: Arith>(
    t: &T,
    lut: &[u32; 256],
    blocks: &[BlockFP8E4M3],
    output: &mut [u32],
) -> (r: KernelResult<()>)
    requires
        arith::deterministic(t),
        blocks@.len() * 32 <= usize::MAX,
    ensures
        r == (match fp8::dequant_fault(blocks@.len(), old(output)@.len()) {
            Some(e) => Err::<(), KernelError>(e),
            None => Ok(()),
        }),
        final(output)@ == (if r is Err {
            old(output)@
        } else {
            fp8::dequantised(t, lut@, blocks@, old(output)@)
        }),
{
    fp8::dequant(t, lut, blocks, output)
}

/// Matrix-vector product of blocks with four exponent bits.
pub fn gemv_fp8_e4m3_avx2<T: Arith>(
    t: &T,
    lut: &[u32; 256],
    blocks: &[BlockFP8E4M3],
    input: &[u32],
    output: &mut [u32],
    n_rows: usize,
    k: usize,
) -> (r: KernelResult<()>)
    requires
        arith::deterministic(t),
        checks::gemv_fits(input@.len(), old(output)@.len(), n_rows, k, 32),
    ensures
        (r, final(output)@) == fp8::gemv_outcome(
            t,
            lut@,
            blocks@,
            input@,
            old(output)@,
            n_rows,
            k,
            Lanes::Avx2,
        ),
{
    fp8::gemv(t, lut, blocks, input, output, n_rows, k, Lanes::Avx2)
}

/// Product of blocks with four exponent bits and `batch` vectors.
pub fn gemm_fp8_e4m3_avx2<T: Arith>(
    t: &T,
    lut: &[u32; 256],
    blocks: &[BlockFP8E4M3],
    inputs: &[u32],
    outputs: &mut [u32],
    n_rows: usize,
    k: usize,
    batch: usize,
) -> (r: KernelResult<()>)
    requires
        arith::deterministic(t),
        checks::gemm_fits(inputs@.len(), old(outputs)@.len(), batch, n_rows, k, 32),
    ensures
        (r, final(outputs)@) == fp8::gemm_outcome(
            t,
            lut@,
            blocks@,
            inputs@,
            old(outputs)@,
            n_rows,
            k,
            batch,
            Lanes::Avx2,
        ),
{
    fp8::gemm(t, lut, blocks, inputs, outputs, n_rows, k, batch, Lanes::Avx2)
}

/// Dequantises blocks with five exponent bits. `lut` holds the number of each byte.
pub fn dequant_fp8_e5m2_avx2<T: Arith>(
    t: &T,
    lut: &[u32; 256],
    blocks: &[BlockFP8E5M2],
    output: &mut [u32],
) -> (r: KernelResult<()>)
    requires
        arith::deterministic(t),
        blocks@.len() * 32 <= usize::MAX,
    ensures
        r == (match fp8::dequant_fault(blocks@.len(), old(output)@.len()) {
            Some(e) => Err::<(), KernelError>(e),
            None => Ok(()),
        }),
        final(output)@ == (if r is Err {
            old(output)@
        } else {
            fp8::dequantised(t, lut@, blocks@, old(output)@)
        }),
{
    fp8::dequant(t, lut, blocks, output)
}

/// Matrix-vector product of blocks with five exponent bits.
pub fn gemv_fp8_e5m2_avx2<T: Arith>(
    t: &T,
    lut: &[u32; 256],
    blocks: &[BlockFP8E5M2],
    input: &[u32],
    output: &mut [u32],
    n_rows: usize,
    k: usize,
) -> (r: KernelResult<()>)
    requires
        arith::deterministic(t),
        checks::gemv_fits(input@.len(), old(output)@.len(), n_rows, k, 32),
    ensures
        (r, final(output)@) == fp8::gemv_outcome(
            t,
            lut@,
            blocks@,
            input@,
            old(output)@,
            n_rows,
            k,
            Lanes::Avx2,
        ),
{
    fp8::gemv(t, lut, blocks, input, output, n_rows, k, Lanes::Avx2)
}

/// Product of blocks with five exponent bits and `batch` vectors.
pub fn gemm_fp8_e5m2_avx2<T: Arith>(
    t: &T,
    lut: &[u32; 256],
    blocks: &[BlockFP8E5M2],
    inputs: &[u32],
    outputs: &mut [u32],
    n_rows: usize,
    k: usize,
    batch: usize,
) -> (r: KernelResult<()>)
    requires
        arith::deterministic(t),
        checks::gemm_fits(inputs@.len(), old(outputs)@.len(), batch, n_rows, k, 32),
    ensures
        (r, final(outputs)@) == fp8::gemm_outcome(
            t,
            lut@,
            blocks@,
            inputs@,
            old(outputs)@,
            n_rows,
            k,
            batch,
            Lanes::Avx2,
        ),
{
    fp8::gemm(t, lut, blocks, inputs, outputs, n_rows, k, batch, Lanes::Avx2)
}

} // verus!

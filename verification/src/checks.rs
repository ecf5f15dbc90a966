//! Argument checks that the CPU kernels share.

use vstd::prelude::*;

use crate::error::{KernelError, KernelResult};

verus! {

/// What is wrong with the arguments of a matrix-vector product over blocks of
/// `qk` weights, in order of the checks. Too few blocks are a short buffer.
pub open spec fn gemv_fault(
    n_blocks: nat,
    input_len: nat,
    output_len: nat,
    n_rows: usize,
    k: usize,
    qk: usize,
) -> Option<KernelError> {
    let expected_blocks = n_rows * (k / qk);
    if k % qk != 0 {
        Some(KernelError::NotBlockAligned { count: k, block_size: qk })
    } else if input_len < k {
        Some(KernelError::DimensionMismatch { expected: k, got: input_len as usize })
    } else if output_len < n_rows {
        Some(KernelError::BufferTooSmall { needed: n_rows, available: output_len as usize })
    } else if n_blocks < expected_blocks {
        Some(
            KernelError::BufferTooSmall {
                needed: expected_blocks as usize,
                available: n_blocks as usize,
            },
        )
    } else {
        None
    }
}

/// The block count, computed once the operands have passed, fits.
pub open spec fn gemv_fits(
    input_len: nat,
    output_len: nat,
    n_rows: usize,
    k: usize,
    qk: usize,
) -> bool {
    k % qk == 0 && input_len >= k && output_len >= n_rows ==> n_rows * (k / qk) <= usize::MAX
}

/// What is wrong with the arguments of a product with `m` vectors.
pub open spec fn gemm_fault(
    n_blocks: nat,
    input_len: nat,
    output_len: nat,
    m: usize,
    n_rows: usize,
    k: usize,
    qk: usize,
) -> Option<KernelError> {
    let expected_blocks = n_rows * (k / qk);
    if k % qk != 0 {
        Some(KernelError::NotBlockAligned { count: k, block_size: qk })
    } else if input_len < m * k {
        Some(
            KernelError::DimensionMismatch { expected: (m * k) as usize, got: input_len as usize },
        )
    } else if output_len < m * n_rows {
        Some(
            KernelError::BufferTooSmall {
                needed: (m * n_rows) as usize,
                available: output_len as usize,
            },
        )
    } else if n_blocks < expected_blocks {
        Some(
            KernelError::BufferTooSmall {
                needed: expected_blocks as usize,
                available: n_blocks as usize,
            },
        )
    } else {
        None
    }
}

/// The products, each computed once the checks before it have passed, fit.
pub open spec fn gemm_fits(
    input_len: nat,
    output_len: nat,
    m: usize,
    n_rows: usize,
    k: usize,
    qk: usize,
) -> bool {
    k % qk == 0 ==> {
        &&& m * k <= usize::MAX
        &&& input_len >= m * k ==> {
            &&& m * n_rows <= usize::MAX
            &&& output_len >= m * n_rows ==> n_rows * (k / qk) <= usize::MAX
        }
    }
}

/// Checks the arguments of a matrix-vector product and returns the blocks per
/// row.
pub fn validate_gemv(
    n_blocks: usize,
    input_len: usize,
    output_len: usize,
    n_rows: usize,
    k: usize,
    qk: usize,
) -> (r: KernelResult<usize>)
    requires
        qk > 0,
        gemv_fits(input_len as nat, output_len as nat, n_rows, k, qk),
    ensures
        r == (match gemv_fault(n_blocks as nat, input_len as nat, output_len as nat, n_rows, k, qk) {
            Some(e) => Err::<usize, KernelError>(e),
            None => Ok(k / qk),
        }),
{
    if k % qk != 0 {
        return Err(KernelError::NotBlockAligned { count: k, block_size: qk });
    }
    if input_len < k {
        return Err(KernelError::DimensionMismatch { expected: k, got: input_len });
    }
    if output_len < n_rows {
        return Err(KernelError::BufferTooSmall { needed: n_rows, available: output_len });
    }
    let blocks_per_row: usize = k / qk;
    let expected_blocks: usize = n_rows * blocks_per_row;
    if n_blocks < expected_blocks {
        return Err(KernelError::BufferTooSmall { needed: expected_blocks, available: n_blocks });
    }
    Ok(blocks_per_row)
}

/// Checks the arguments of a product with `m` vectors and returns the blocks
/// per row.
pub fn validate_gemm(
    n_blocks: usize,
    input_len: usize,
    output_len: usize,
    m: usize,
    n_rows: usize,
    k: usize,
    qk: usize,
) -> (r: KernelResult<usize>)
    requires
        qk > 0,
        gemm_fits(input_len as nat, output_len as nat, m, n_rows, k, qk),
    ensures
        r == (match gemm_fault(
            n_blocks as nat,
            input_len as nat,
            output_len as nat,
            m,
            n_rows,
            k,
            qk,
        ) {
            Some(e) => Err::<usize, KernelError>(e),
            None => Ok(k / qk),
        }),
{
    if k % qk != 0 {
        return Err(KernelError::NotBlockAligned { count: k, block_size: qk });
    }
    let input_need: usize = m * k;
    if input_len < input_need {
        return Err(KernelError::DimensionMismatch { expected: input_need, got: input_len });
    }
    let output_need: usize = m * n_rows;
    if output_len < output_need {
        return Err(KernelError::BufferTooSmall { needed: output_need, available: output_len });
    }
    let blocks_per_row: usize = k / qk;
    let expected_blocks: usize = n_rows * blocks_per_row;
    if n_blocks < expected_blocks {
        return Err(KernelError::BufferTooSmall { needed: expected_blocks, available: n_blocks });
    }
    Ok(blocks_per_row)
}

} // verus!

//! Errors of the CPU kernels.

use vstd::prelude::*;

verus! {

/// Why a CPU kernel refused its arguments.
#[derive(Debug, Clone, Copy, PartialEq, Eq, Structural)]
pub enum KernelError {
    /// An element count is not a whole number of weight blocks.
    NotBlockAligned {
        /// Elements given.
        count: usize,
        /// Elements per block.
        block_size: usize,
    },
    /// A buffer holds fewer elements than the kernel touches.
    BufferTooSmall {
        /// Elements needed.
        needed: usize,
        /// Elements given.
        available: usize,
    },
    /// An operand's length does not fit the stated dimensions.
    DimensionMismatch {
        /// Length the dimensions call for.
        expected: usize,
        /// Length given.
        got: usize,
    },
}

/// Result of a CPU kernel.
pub type KernelResult<T> = Result<T, KernelError>;

} // verus!

//! Allocation rules, launch geometry and the decode FFN's buffer set.

use vstd::prelude::*;

use crate::gpu_backend::metal_graph::device::{Action, Buf, FfnBuf, Storage};
use crate::gpu_backend::metal_graph::error;
use crate::gpu_backend::metal_graph::error::{MetalFault, MetalGraphError};

verus! {

/// `ceil(n / divisor)`, at least one.
pub open spec fn threadgroups(n: int, divisor: int) -> int {
    if n <= 0 {
        1
    } else {
        (n - 1) / divisor + 1
    }
}

/// Threadgroup count that covers `n` elements: `ceil(n / divisor)`, at least
/// one.
pub fn div_ceil(n: usize, divisor: usize) -> (r: usize)
    requires
        divisor > 0,
    ensures
        r == threadgroups(n as int, divisor as int),
        r >= 1,
        r * divisor >= n,
        r > 1 ==> (r - 1) * divisor < n,
{
    if n == 0 {
        return 1;
    }
    let q: usize = (n - 1) / divisor;
    proof {
        assert(q * divisor <= n - 1 && n - 1 < q * divisor + divisor && q < n) by (nonlinear_arith)
            requires
                q == (n - 1) / divisor as int,
                divisor > 0,
                n > 0,
        ;
        assert((q + 1) * divisor == q * divisor + divisor) by (nonlinear_arith);
    }
    q + 1
}

/// Allocating a buffer of no bytes is an error.
pub open spec fn alloc_fault(byte_len: u64) -> Option<MetalFault> {
    if byte_len == 0 {
        Some(MetalFault::BufferCreationFailed)
    } else {
        None
    }
}

/// Appends an allocation to a plan, or refuses it because it has no bytes.
pub fn alloc_buf(plan: &mut Vec<Action>, buf: Buf, bytes: u64, storage: Storage) -> (r: Result<
    (),
    MetalGraphError,
>)
    ensures
        error::reports(r, alloc_fault(bytes)),
        r is Ok ==> final(plan)@ == old(plan)@.push(Action::Alloc { buf, bytes, storage }),
        r is Err ==> final(plan)@ == old(plan)@,
{
    if bytes == 0 {
        return Err(MetalGraphError::BufferCreationFailed);
    }
    plan.push(Action::Alloc { buf, bytes, storage });
    Ok(())
}

/// The decode FFN's buffer set: the dimensions that it was allocated for.
#[derive(Debug, Clone, Copy, PartialEq, Eq, Structural)]
pub struct MetalBuffers {
    /// Hidden dimension.
    pub hidden_size: usize,
    /// Intermediate dimension.
    pub intermediate_size: usize,
}

impl MetalBuffers {
    /// Neither vector's byte size overflows.
    pub open spec fn sizes_fit(self) -> bool {
        self.hidden_size * 4 <= usize::MAX && self.intermediate_size * 4 <= usize::MAX
    }

    /// The set cannot be allocated when one of its buffers has no bytes.
    pub open spec fn fault(self) -> Option<MetalFault> {
        if self.hidden_size == 0 || self.intermediate_size == 0 {
            Some(MetalFault::BufferCreationFailed)
        } else {
            None
        }
    }

    /// The allocations of the set: what the host touches is shared, the rest
    /// is private to the device.
    pub open spec fn allocs(self) -> Seq<Action> {
        let h = (self.hidden_size * 4) as u64;
        let inter = (self.intermediate_size * 4) as u64;
        seq![
            Action::Alloc { buf: Buf::Ffn(FfnBuf::Hidden), bytes: h, storage: Storage::Shared },
            Action::Alloc { buf: Buf::Ffn(FfnBuf::AttnOut), bytes: h, storage: Storage::Shared },
            Action::Alloc { buf: Buf::Ffn(FfnBuf::NormWeight), bytes: h, storage: Storage::Shared },
            Action::Alloc { buf: Buf::Ffn(FfnBuf::Proj), bytes: h, storage: Storage::Private },
            Action::Alloc { buf: Buf::Ffn(FfnBuf::Normed), bytes: h, storage: Storage::Private },
            Action::Alloc { buf: Buf::Ffn(FfnBuf::Swiglu), bytes: inter, storage: Storage::Private },
            Action::Alloc { buf: Buf::Ffn(FfnBuf::Down), bytes: h, storage: Storage::Private },
        ]
    }

    /// Appends the allocations of a set for the given dimensions to a plan.
    pub fn allocate(plan: &mut Vec<Action>, hidden_size: usize, intermediate_size: usize) -> (r:
        Result<Self, MetalGraphError>)
        requires
            (MetalBuffers { hidden_size, intermediate_size }).sizes_fit(),
        ensures
            error::reports(r, (MetalBuffers { hidden_size, intermediate_size }).fault()),
            r matches Ok(set) ==> set == (MetalBuffers { hidden_size, intermediate_size })
                && final(plan)@ == old(plan)@ + set.allocs(),
    {
        let h: u64 = (hidden_size * 4) as u64;
        let inter: u64 = (intermediate_size * 4) as u64;
        let set = MetalBuffers { hidden_size, intermediate_size };
        alloc_buf(plan, Buf::Ffn(FfnBuf::Hidden), h, Storage::Shared)?;
        alloc_buf(plan, Buf::Ffn(FfnBuf::AttnOut), h, Storage::Shared)?;
        alloc_buf(plan, Buf::Ffn(FfnBuf::NormWeight), h, Storage::Shared)?;
        alloc_buf(plan, Buf::Ffn(FfnBuf::Proj), h, Storage::Private)?;
        alloc_buf(plan, Buf::Ffn(FfnBuf::Normed), h, Storage::Private)?;
        alloc_buf(plan, Buf::Ffn(FfnBuf::Swiglu), inter, Storage::Private)?;
        alloc_buf(plan, Buf::Ffn(FfnBuf::Down), h, Storage::Private)?;
        assert(plan@ =~= old(plan)@ + set.allocs());
        Ok(set)
    }

    /// Whether the set has the requested dimensions.
    pub fn matches(&self, hidden_size: usize, intermediate_size: usize) -> (r: bool)
        ensures
            r == (*self == MetalBuffers { hidden_size, intermediate_size }),
    {
        self.hidden_size == hidden_size && self.intermediate_size == intermediate_size
    }
}

} // verus!

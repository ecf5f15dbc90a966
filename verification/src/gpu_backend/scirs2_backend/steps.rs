//! Device work as data: what an operation uploads, launches and reads back.

use vstd::prelude::*;

verus! {

/// Host data that an operation is called with.
#[derive(Debug, Clone, Copy, PartialEq, Eq, Structural)]
pub enum HostArg {
    /// Raw weight blocks.
    Blocks,
    /// The input vector or matrix.
    Input,
    /// The second operand.
    Weight,
    /// The hidden state.
    Hidden,
    /// The output of attention.
    AttnOut,
    /// Weights of the normalisation.
    NormWeight,
}

/// Buffer of the feed-forward phase that is kept between calls.
#[derive(Debug, Clone, Copy, PartialEq, Eq, Structural)]
pub enum PhaseBuf {
    /// Hidden state.
    Hidden,
    /// Output of attention.
    AttnOut,
    /// Weights of the normalisation.
    NormWeight,
    /// Output of the attention projection.
    AttnProj,
    /// Normalised hidden state.
    Normed,
    /// Gate and up projections.
    GateUp,
    /// Gated activation.
    Swiglu,
    /// Down projection.
    Down,
}

/// Where data lies on the device.
#[derive(Debug, Clone, Copy, PartialEq, Eq, Structural)]
pub enum Slot {
    /// Resident weights with this handle.
    Resident(u64),
    /// Weight blocks of this call.
    Blocks,
    /// First operand of this call.
    First,
    /// Second operand of this call.
    Second,
    /// Intermediate result of this call.
    Middle,
    /// Result of this call.
    Fresh,
    /// Input buffer that is kept between calls.
    PoolInput,
    /// Output buffer that is kept between calls.
    PoolOutput,
    /// Buffer of the feed-forward phase.
    Phase(PhaseBuf),
}

/// Kernels of the backend.
#[derive(Debug, Clone, Copy, PartialEq, Eq, Structural)]
pub enum Kernel {
    /// Matrix-vector product.
    Matvec,
    /// The larger of a number and zero.
    Relu,
    /// Softmax.
    Softmax,
    /// RMS normalisation.
    Rmsnorm,
    /// SiLU.
    Silu,
    /// 1-bit matrix-vector product.
    Q1Gemv,
    /// 1-bit matrix product.
    Q1Gemm,
    /// Ternary matrix-vector product.
    Tq2Gemv,
    /// Gated activation.
    Swiglu,
    /// Sum into the first operand.
    ResidualAdd,
    /// Weighted RMS normalisation.
    RmsnormWeighted,
}

/// A kernel launch with its buffers, sizes and workgroups.
#[derive(Debug, Clone, Copy, PartialEq, Eq, Structural)]
pub struct Launch {
    /// The kernel.
    pub kernel: Kernel,
    /// Buffer `x`.
    pub x: Slot,
    /// Buffer `y`.
    pub y: Option<Slot>,
    /// Buffer `result`.
    pub result: Option<Slot>,
    /// Number `n`.
    pub n: u32,
    /// Number `m`.
    pub m: Option<u32>,
    /// Number `k`.
    pub k: Option<u32>,
    /// Number `alpha`, as bits.
    pub alpha: Option<u32>,
    /// Workgroups along the first axis.
    pub groups_x: u32,
    /// Workgroups along the second axis.
    pub groups_y: u32,
}

/// A step of device work.
#[derive(Debug, Clone, Copy, PartialEq, Eq, Structural)]
pub enum DeviceStep {
    /// Create a buffer of this many elements.
    Create {
        /// The buffer.
        slot: Slot,
        /// Its elements.
        len: usize,
    },
    /// Create a buffer that holds host data.
    Upload {
        /// The buffer.
        slot: Slot,
        /// The data.
        from: HostArg,
    },
    /// Copy host data to the start of a buffer.
    CopyIn {
        /// The buffer.
        slot: Slot,
        /// The data.
        from: HostArg,
    },
    /// Launch a kernel.
    Run(Launch),
    /// Copy the first elements of a buffer to the host.
    Read {
        /// The buffer.
        slot: Slot,
        /// Elements to copy.
        count: usize,
    },
}

/// Workgroups of 256 threads that cover `n` elements.
pub fn workgroups_1d(n: usize) -> (g: u32)
    requires
        n <= 256 * u32::MAX,
    ensures
        g == (n + 255) / 256,
{
    let whole: usize = n / 256;
    if n % 256 == 0 {
        whole as u32
    } else {
        (whole + 1) as u32
    }
}

/// Workgroups of eight rows that cover `n_rows` rows.
pub fn workgroups_simd(n_rows: usize) -> (g: u32)
    requires
        n_rows <= 8 * u32::MAX,
    ensures
        g == (n_rows + 7) / 8,
{
    let whole: usize = n_rows / 8;
    if n_rows % 8 == 0 {
        whole as u32
    } else {
        (whole + 1) as u32
    }
}

/// Workgroups cover every element, and one fewer would not.
pub proof fn law_workgroups_cover(n: int, size: int)
    requires
        n >= 0,
        size > 0,
    ensures
        (n + size - 1) / size * size >= n,
        n > 0 ==> ((n + size - 1) / size - 1) * size < n,
{
    let g = (n + size - 1) / size;
    assert(g * size >= n && (n > 0 ==> (g - 1) * size < n)) by (nonlinear_arith)
        requires
            g == (n + size - 1) / size,
            n >= 0,
            size > 0,
    ;
}

/// A buffer that is kept between calls and grows on demand.
#[derive(Debug, Clone, Copy, PartialEq, Eq, Structural)]
pub struct IoBuffer {
    /// Elements that it holds.
    pub capacity: usize,
    /// It has been created.
    pub present: bool,
}

impl IoBuffer {
    /// No buffer yet.
    pub open spec fn none() -> Self {
        IoBuffer { capacity: 0, present: false }
    }

    /// The buffer can be used as it is.
    pub open spec fn serves(self, required: usize) -> bool {
        self.capacity >= required && self.present
    }

    /// Elements of a new buffer: what is required, at least twice the old
    /// ones and at least 16384.
    pub open spec fn grown(self, required: usize) -> usize {
        let doubled = if 2 * self.capacity > usize::MAX {
            usize::MAX as int
        } else {
            2 * self.capacity
        };
        let most = if required > doubled {
            required as int
        } else {
            doubled
        };
        (if most > 16384 {
            most
        } else {
            16384
        }) as usize
    }

    /// The buffer after `required` elements were asked of it.
    pub open spec fn after(self, required: usize) -> Self {
        if self.serves(required) {
            self
        } else {
            IoBuffer { capacity: self.grown(required), present: true }
        }
    }

    /// Device work to have a buffer of `required` elements.
    pub open spec fn steps(self, slot: Slot, required: usize) -> Seq<DeviceStep> {
        if self.serves(required) {
            seq![]
        } else {
            seq![DeviceStep::Create { slot, len: self.grown(required) }]
        }
    }

    /// Has a buffer of at least `required` elements, with the device work that
    /// this takes added to `plan`.
    pub fn acquire(&mut self, plan: &mut Vec<DeviceStep>, slot: Slot, required: usize)
        ensures
            *final(self) == old(self).after(required),
            final(plan)@ == old(plan)@ + old(self).steps(slot, required),
    {
        if self.capacity >= required && self.present {
            assert(plan@ =~= plan@ + self.steps(slot, required));
            return ;
        }
        let doubled: usize = match self.capacity.checked_mul(2) {
            Some(d) => d,
            None => usize::MAX,
        };
        let most: usize = if required > doubled {
            required
        } else {
            doubled
        };
        let len: usize = if most > 16384 {
            most
        } else {
            16384
        };
        self.capacity = len;
        self.present = true;
        plan.push(DeviceStep::Create { slot, len });
    }
}

/// A kept buffer never shrinks, is large enough for what was asked, and needs no
/// work when the same is asked again.
pub proof fn law_kept_buffer_serves(b: IoBuffer, slot: Slot, required: usize)
    ensures
        b.after(required).capacity >= b.capacity,
        b.after(required).serves(required),
        b.after(required).after(required) == b.after(required),
        b.after(required).steps(slot, required).len() == 0,
{
}

} // verus!

//! Device work of the backend's single operations.

use vstd::prelude::*;

use crate::arith;
use crate::arith::Arith;
use crate::gpu_backend::backend::GpuWeightHandle;
use crate::gpu_backend::cpu;
use crate::gpu_backend::cpu::{check_matvec, check_softmax, matvec_cpu, relu_cpu, softmax_cpu};
use crate::gpu_backend::error;
use crate::gpu_backend::error::{invalid_argument, GpuError, GpuFault};
use crate::gpu_backend::launch::DeviceBuffer;
use crate::gpu_backend::scirs2_backend::backend;
use crate::gpu_backend::scirs2_backend::backend::{DeviceState, Kernels, Scirs2Backend};
use crate::gpu_backend::scirs2_backend::steps::{
    workgroups_1d, workgroups_simd, DeviceStep, HostArg, Kernel, Launch, Slot,
};
use crate::gpu_backend::scirs2_backend::weights;
use crate::text;
use crate::text::Msg;

verus! {

/// Arguments were refused: the error is that fault and nothing changed.
pub open spec fn refused(
    before: Scirs2Backend,
    after: Scirs2Backend,
    r: Result<Vec<DeviceStep>, GpuError>,
    fault: GpuFault,
) -> bool {
    error::reports(r, Some(fault)) && after == before
}

/// Kernels were asked for: where they are missing the error is that fault and
/// the device is as it was, else the device work is that plan.
pub open spec fn planned(
    before: Scirs2Backend,
    after: Scirs2Backend,
    r: Result<Vec<DeviceStep>, GpuError>,
    fault: Option<GpuFault>,
    plan: Seq<DeviceStep>,
    state: DeviceState,
) -> bool {
    match fault {
        Some(f) => error::reports(r, Some(f)) && after.state == before.state,
        None => r is Ok && r->Ok_0@ == plan && after.state == state,
    }
}

/// Only the general kernels and the device's state may differ.
pub open spec fn used_base(before: Scirs2Backend, after: Scirs2Backend) -> bool {
    &&& after == (Scirs2Backend {
        kernels: Kernels { base: after.kernels.base, ..before.kernels },
        state: after.state,
        ..before
    })
    &&& backend::tried_base(before, after)
}

/// Only the 1-bit kernels and the device's state may differ.
pub open spec fn used_q1(before: Scirs2Backend, after: Scirs2Backend) -> bool {
    &&& after == (Scirs2Backend {
        kernels: Kernels { q1: after.kernels.q1, ..before.kernels },
        state: after.state,
        ..before
    })
    &&& backend::tried_q1(before, after)
}

/// Only the ternary kernels and the device's state may differ.
pub open spec fn used_tq2(before: Scirs2Backend, after: Scirs2Backend) -> bool {
    &&& after == (Scirs2Backend {
        kernels: Kernels { tq2: after.kernels.tq2, ..before.kernels },
        state: after.state,
        ..before
    })
    &&& backend::tried_tq2(before, after)
}

/// What is wrong with the number of columns.
pub open spec fn columns_fault(k: usize) -> Option<GpuFault> {
    if k == 0 || k % 128 != 0 {
        Some(
            GpuFault::InvalidArgument(
                "k="@ + text::dec(k as nat) + " must be a positive multiple of 128"@,
            ),
        )
    } else {
        None
    }
}

fn check_columns(k: usize) -> (r: Result<(), GpuError>)
    ensures
        error::reports(r, columns_fault(k)),
{
    if k == 0 || k % 128 != 0 {
        return Err(
            invalid_argument(Msg::new("k=").num(k).lit(" must be a positive multiple of 128")),
        );
    }
    Ok(())
}

/// What is wrong with the length of an input vector.
pub open spec fn input_fault(input_len: usize, k: usize) -> Option<GpuFault> {
    if input_len != k {
        Some(
            GpuFault::InvalidArgument(
                "input.len()="@ + text::dec(input_len as nat) + " != k="@ + text::dec(k as nat),
            ),
        )
    } else {
        None
    }
}

fn check_input(input_len: usize, k: usize) -> (r: Result<(), GpuError>)
    ensures
        error::reports(r, input_fault(input_len, k)),
{
    if input_len != k {
        return Err(
            invalid_argument(Msg::new("input.len()=").num(input_len).lit(" != k=").num(k)),
        );
    }
    Ok(())
}

/// What is wrong with the arguments of a 1-bit matrix-vector product.
pub open spec fn gemv_fault(
    bytes_len: usize,
    input_len: usize,
    n_rows: usize,
    k: usize,
) -> Option<GpuFault> {
    let expected = n_rows * (k / 128) * 18;
    if columns_fault(k) is Some {
        columns_fault(k)
    } else if bytes_len < expected {
        Some(
            GpuFault::InvalidArgument(
                "block_bytes.len()="@ + text::dec(bytes_len as nat) + " < expected "@ + text::dec(
                    expected as nat,
                ) + " (n_rows="@ + text::dec(n_rows as nat) + ", blocks_per_row="@ + text::dec(
                    (k / 128) as nat,
                ) + ")"@,
            ),
        )
    } else {
        input_fault(input_len, k)
    }
}

/// What is wrong with the arguments of a 1-bit product with `m` vectors.
pub open spec fn gemm_fault(
    bytes_len: usize,
    input_len: usize,
    m: usize,
    n_rows: usize,
    k: usize,
) -> Option<GpuFault> {
    let expected = n_rows * (k / 128) * 18;
    if columns_fault(k) is Some {
        columns_fault(k)
    } else if bytes_len < expected {
        Some(
            GpuFault::InvalidArgument(
                "block_bytes.len()="@ + text::dec(bytes_len as nat) + " < expected "@ + text::dec(
                    expected as nat,
                ),
            ),
        )
    } else if input_len != m * k {
        Some(
            GpuFault::InvalidArgument(
                "input.len()="@ + text::dec(input_len as nat) + " != m*k="@ + text::dec(
                    (m * k) as nat,
                ),
            ),
        )
    } else {
        None
    }
}

/// A launch with operands `x`, `y` and a result, over `n` rows and `k` columns.
pub open spec fn product_launch(
    kernel: Kernel,
    x: Slot,
    y: Slot,
    result: Slot,
    n: usize,
    k: usize,
    groups: int,
) -> Launch {
    Launch {
        kernel,
        x,
        y: Some(y),
        result: Some(result),
        n: n as u32,
        m: None,
        k: Some(k as u32),
        alpha: None,
        groups_x: groups as u32,
        groups_y: 1,
    }
}

/// A launch from operand to result over `n` elements.
pub open spec fn element_launch(kernel: Kernel, x: Slot, result: Slot, n: usize) -> Launch {
    Launch {
        kernel,
        x,
        y: None,
        result: Some(result),
        n: n as u32,
        m: None,
        k: None,
        alpha: None,
        groups_x: ((n + 255) / 256) as u32,
        groups_y: 1,
    }
}

/// Device work of a 1-bit matrix-vector product.
pub open spec fn gemv_plan(state: DeviceState, n_rows: usize, k: usize) -> Seq<DeviceStep> {
    seq![DeviceStep::Upload { slot: Slot::Blocks, from: HostArg::Blocks }] + state.input.steps(
        Slot::PoolInput,
        k,
    ) + seq![DeviceStep::CopyIn { slot: Slot::PoolInput, from: HostArg::Input }]
        + state.output.steps(Slot::PoolOutput, n_rows) + seq![
        DeviceStep::Run(
            product_launch(
                Kernel::Q1Gemv,
                Slot::Blocks,
                Slot::PoolInput,
                Slot::PoolOutput,
                n_rows,
                k,
                (n_rows + 255) / 256,
            ),
        ),
        DeviceStep::Read { slot: Slot::PoolOutput, count: n_rows },
    ]
}

/// Device work of a 1-bit product with `m` vectors.
pub open spec fn gemm_plan(state: DeviceState, m: usize, n_rows: usize, k: usize) -> Seq<
    DeviceStep,
> {
    seq![DeviceStep::Upload { slot: Slot::Blocks, from: HostArg::Blocks }] + state.input.steps(
        Slot::PoolInput,
        (m * k) as usize,
    ) + seq![DeviceStep::CopyIn { slot: Slot::PoolInput, from: HostArg::Input }]
        + state.output.steps(Slot::PoolOutput, (m * n_rows) as usize) + seq![
        DeviceStep::Run(
            Launch {
                kernel: Kernel::Q1Gemm,
                x: Slot::Blocks,
                y: Some(Slot::PoolInput),
                result: Some(Slot::PoolOutput),
                n: n_rows as u32,
                m: Some(m as u32),
                k: Some(k as u32),
                alpha: None,
                groups_x: ((n_rows + 255) / 256) as u32,
                groups_y: ((m + 255) / 256) as u32,
            },
        ),
        DeviceStep::Read { slot: Slot::PoolOutput, count: (m * n_rows) as usize },
    ]
}

/// Device work of a matrix-vector product with resident weights.
pub open spec fn cached_plan(
    kernel: Kernel,
    handle: GpuWeightHandle,
    n_rows: usize,
    k: usize,
    groups: int,
) -> Seq<DeviceStep> {
    seq![
        DeviceStep::Upload { slot: Slot::First, from: HostArg::Input },
        DeviceStep::Create { slot: Slot::Fresh, len: n_rows },
        DeviceStep::Run(
            product_launch(
                kernel,
                Slot::Resident(handle.0),
                Slot::First,
                Slot::Fresh,
                n_rows,
                k,
                groups,
            ),
        ),
        DeviceStep::Read { slot: Slot::Fresh, count: n_rows },
    ]
}

/// Device work of an operation on `n` elements.
pub open spec fn element_plan(kernel: Kernel, n: usize) -> Seq<DeviceStep> {
    seq![
        DeviceStep::Upload { slot: Slot::First, from: HostArg::Input },
        DeviceStep::Create { slot: Slot::Fresh, len: n },
        DeviceStep::Run(element_launch(kernel, Slot::First, Slot::Fresh, n)),
        DeviceStep::Read { slot: Slot::Fresh, count: n },
    ]
}

/// What is wrong with the arguments of a normalisation.
pub open spec fn rmsnorm_fault(input_len: usize, weight_len: usize) -> Option<GpuFault> {
    if weight_len != input_len {
        Some(
            GpuFault::InvalidArgument(
                "weight.len()="@ + text::dec(weight_len as nat) + " != input.len()="@ + text::dec(
                    input_len as nat,
                ),
            ),
        )
    } else {
        None
    }
}

/// Device work of a normalisation.
pub open spec fn rmsnorm_plan(n: usize, eps: u32) -> Seq<DeviceStep> {
    seq![
        DeviceStep::Upload { slot: Slot::First, from: HostArg::Input },
        DeviceStep::Upload { slot: Slot::Second, from: HostArg::Weight },
        DeviceStep::Create { slot: Slot::Fresh, len: n },
        DeviceStep::Run(
            Launch {
                kernel: Kernel::Rmsnorm,
                x: Slot::First,
                y: Some(Slot::Second),
                result: Some(Slot::Fresh),
                n: n as u32,
                m: None,
                k: None,
                alpha: Some(eps),
                groups_x: ((n + 255) / 256) as u32,
                groups_y: 1,
            },
        ),
        DeviceStep::Read { slot: Slot::Fresh, count: n },
    ]
}

/// Device work of a matrix-vector product on buffers.
pub open spec fn matvec_plan(m: usize, k: usize) -> Seq<DeviceStep> {
    seq![
        DeviceStep::Upload { slot: Slot::First, from: HostArg::Input },
        DeviceStep::Upload { slot: Slot::Second, from: HostArg::Weight },
        DeviceStep::Create { slot: Slot::Fresh, len: m },
        DeviceStep::Run(
            product_launch(
                Kernel::Matvec,
                Slot::First,
                Slot::Second,
                Slot::Fresh,
                m,
                k,
                (m + 255) / 256,
            ),
        ),
        DeviceStep::Read { slot: Slot::Fresh, count: m },
    ]
}

/// An operation's outcome: device work to do, or a result that the processor
/// has computed.
#[derive(Debug)]
pub enum Work {
    /// Device work whose last step reads the result.
    Device(Vec<DeviceStep>),
    /// The result.
    Host(DeviceBuffer),
}

impl Scirs2Backend {
    /// 1-bit matrix-vector product over raw blocks of 18 bytes.
    pub fn gemv_q1_g128(&mut self, bytes_len: usize, input_len: usize, n_rows: usize, k: usize)
        -> (r: Result<Vec<DeviceStep>, GpuError>)
        requires
            columns_fault(k) is None ==> n_rows * (k / 128) * 18 <= usize::MAX,
            gemv_fault(bytes_len, input_len, n_rows, k) is None ==> n_rows <= 256 * u32::MAX,
        ensures
            match gemv_fault(bytes_len, input_len, n_rows, k) {
                Some(f) => refused(*old(self), *final(self), r, f),
                None => used_q1(*old(self), *final(self)) && planned(
                    *old(self),
                    *final(self),
                    r,
                    backend::launch_fault(final(self).kernels.q1),
                    gemv_plan(old(self).state, n_rows, k),
                    (DeviceState {
                        input: old(self).state.input.after(k),
                        output: old(self).state.output.after(n_rows),
                        ..old(self).state
                    }),
                ),
            },
    {
        check_columns(k)?;
        let blocks_per_row: usize = k / 128;
        proof {
            assert(n_rows * blocks_per_row <= n_rows * blocks_per_row * 18) by (nonlinear_arith);
        }
        let expected: usize = n_rows * blocks_per_row * 18;
        if bytes_len < expected {
            return Err(
                invalid_argument(
                    Msg::new("block_bytes.len()=").num(bytes_len).lit(" < expected ").num(
                        expected,
                    ).lit(" (n_rows=").num(n_rows).lit(", blocks_per_row=").num(
                        blocks_per_row,
                    ).lit(")"),
                ),
            );
        }
        check_input(input_len, k)?;
        self.get_q1_kernels()?;
        let ghost state = self.state;
        let mut plan: Vec<DeviceStep> = Vec::new();
        plan.push(DeviceStep::Upload { slot: Slot::Blocks, from: HostArg::Blocks });
        self.state.input.acquire(&mut plan, Slot::PoolInput, k);
        plan.push(DeviceStep::CopyIn { slot: Slot::PoolInput, from: HostArg::Input });
        self.state.output.acquire(&mut plan, Slot::PoolOutput, n_rows);
        let groups: u32 = workgroups_1d(n_rows);
        plan.push(
            DeviceStep::Run(
                Launch {
                    kernel: Kernel::Q1Gemv,
                    x: Slot::Blocks,
                    y: Some(Slot::PoolInput),
                    result: Some(Slot::PoolOutput),
                    n: n_rows as u32,
                    m: None,
                    k: Some(k as u32),
                    alpha: None,
                    groups_x: groups,
                    groups_y: 1,
                },
            ),
        );
        plan.push(DeviceStep::Read { slot: Slot::PoolOutput, count: n_rows });
        assert(plan@ =~= gemv_plan(state, n_rows, k));
        Ok(plan)
    }

    /// 1-bit product with `m` vectors over raw blocks of 18 bytes.
    pub fn gemm_q1_g128(
        &mut self,
        bytes_len: usize,
        input_len: usize,
        m: usize,
        n_rows: usize,
        k: usize,
    ) -> (r: Result<Vec<DeviceStep>, GpuError>)
        requires
            columns_fault(k) is None ==> n_rows * (k / 128) * 18 <= usize::MAX,
            columns_fault(k) is None && bytes_len >= n_rows * (k / 128) * 18 ==> m * k <= usize::MAX,
            gemm_fault(bytes_len, input_len, m, n_rows, k) is None ==> {
                &&& m * n_rows <= usize::MAX
                &&& m <= 256 * u32::MAX
                &&& n_rows <= 256 * u32::MAX
            },
        ensures
            match gemm_fault(bytes_len, input_len, m, n_rows, k) {
                Some(f) => refused(*old(self), *final(self), r, f),
                None => used_q1(*old(self), *final(self)) && planned(
                    *old(self),
                    *final(self),
                    r,
                    backend::launch_fault(final(self).kernels.q1),
                    gemm_plan(old(self).state, m, n_rows, k),
                    (DeviceState {
                        input: old(self).state.input.after((m * k) as usize),
                        output: old(self).state.output.after((m * n_rows) as usize),
                        ..old(self).state
                    }),
                ),
            },
    {
        check_columns(k)?;
        let blocks_per_row: usize = k / 128;
        proof {
            assert(n_rows * blocks_per_row <= n_rows * blocks_per_row * 18) by (nonlinear_arith);
        }
        let expected: usize = n_rows * blocks_per_row * 18;
        if bytes_len < expected {
            return Err(
                invalid_argument(
                    Msg::new("block_bytes.len()=").num(bytes_len).lit(" < expected ").num(expected),
                ),
            );
        }
        if input_len != m * k {
            return Err(
                invalid_argument(Msg::new("input.len()=").num(input_len).lit(" != m*k=").num(m * k)),
            );
        }
        self.get_q1_kernels()?;
        let ghost state = self.state;
        let out_elems: usize = m * n_rows;
        let mut plan: Vec<DeviceStep> = Vec::new();
        plan.push(DeviceStep::Upload { slot: Slot::Blocks, from: HostArg::Blocks });
        self.state.input.acquire(&mut plan, Slot::PoolInput, input_len);
        plan.push(DeviceStep::CopyIn { slot: Slot::PoolInput, from: HostArg::Input });
        self.state.output.acquire(&mut plan, Slot::PoolOutput, out_elems);
        let groups_x: u32 = workgroups_1d(n_rows);
        let groups_y: u32 = workgroups_1d(m);
        plan.push(
            DeviceStep::Run(
                Launch {
                    kernel: Kernel::Q1Gemm,
                    x: Slot::Blocks,
                    y: Some(Slot::PoolInput),
                    result: Some(Slot::PoolOutput),
                    n: n_rows as u32,
                    m: Some(m as u32),
                    k: Some(k as u32),
                    alpha: None,
                    groups_x,
                    groups_y,
                },
            ),
        );
        plan.push(DeviceStep::Read { slot: Slot::PoolOutput, count: out_elems });
        assert(plan@ =~= gemm_plan(state, m, n_rows, k));
        Ok(plan)
    }

    /// RMS normalisation with weights.
    pub fn rmsnorm(&mut self, input_len: usize, weight_len: usize, eps: u32) -> (r: Result<
        Vec<DeviceStep>,
        GpuError,
    >)
        requires
            rmsnorm_fault(input_len, weight_len) is None ==> input_len <= 256 * u32::MAX,
        ensures
            match rmsnorm_fault(input_len, weight_len) {
                Some(f) => refused(*old(self), *final(self), r, f),
                None => used_base(*old(self), *final(self)) && planned(
                    *old(self),
                    *final(self),
                    r,
                    backend::launch_fault(final(self).kernels.base),
                    rmsnorm_plan(input_len, eps),
                    old(self).state,
                ),
            },
    {
        if weight_len != input_len {
            return Err(
                invalid_argument(
                    Msg::new("weight.len()=").num(weight_len).lit(" != input.len()=").num(input_len),
                ),
            );
        }
        self.get_kernels()?;
        let mut plan: Vec<DeviceStep> = Vec::new();
        plan.push(DeviceStep::Upload { slot: Slot::First, from: HostArg::Input });
        plan.push(DeviceStep::Upload { slot: Slot::Second, from: HostArg::Weight });
        plan.push(DeviceStep::Create { slot: Slot::Fresh, len: input_len });
        let groups: u32 = workgroups_1d(input_len);
        plan.push(
            DeviceStep::Run(
                Launch {
                    kernel: Kernel::Rmsnorm,
                    x: Slot::First,
                    y: Some(Slot::Second),
                    result: Some(Slot::Fresh),
                    n: input_len as u32,
                    m: None,
                    k: None,
                    alpha: Some(eps),
                    groups_x: groups,
                    groups_y: 1,
                },
            ),
        );
        plan.push(DeviceStep::Read { slot: Slot::Fresh, count: input_len });
        assert(plan@ =~= rmsnorm_plan(input_len, eps));
        Ok(plan)
    }

    fn element_steps(kernel: Kernel, n: usize) -> (plan: Vec<DeviceStep>)
        requires
            n <= 256 * u32::MAX,
        ensures
            plan@ == element_plan(kernel, n),
    {
        let mut plan: Vec<DeviceStep> = Vec::new();
        plan.push(DeviceStep::Upload { slot: Slot::First, from: HostArg::Input });
        plan.push(DeviceStep::Create { slot: Slot::Fresh, len: n });
        let groups: u32 = workgroups_1d(n);
        plan.push(
            DeviceStep::Run(
                Launch {
                    kernel,
                    x: Slot::First,
                    y: None,
                    result: Some(Slot::Fresh),
                    n: n as u32,
                    m: None,
                    k: None,
                    alpha: None,
                    groups_x: groups,
                    groups_y: 1,
                },
            ),
        );
        plan.push(DeviceStep::Read { slot: Slot::Fresh, count: n });
        assert(plan@ =~= element_plan(kernel, n));
        plan
    }

    /// Element-wise SiLU on the device.
    pub fn silu(&mut self, n: usize) -> (r: Result<Vec<DeviceStep>, GpuError>)
        requires
            n <= 256 * u32::MAX,
        ensures
            used_base(*old(self), *final(self)),
            planned(
                *old(self),
                *final(self),
                r,
                backend::launch_fault(final(self).kernels.base),
                element_plan(Kernel::Silu, n),
                old(self).state,
            ),
    {
        self.get_kernels()?;
        Ok(Self::element_steps(Kernel::Silu, n))
    }

    /// The larger of each number and zero, on the device.
    pub fn relu_gpu(&mut self, n: usize) -> (r: Result<Vec<DeviceStep>, GpuError>)
        requires
            n <= 256 * u32::MAX,
        ensures
            used_base(*old(self), *final(self)),
            planned(
                *old(self),
                *final(self),
                r,
                backend::launch_fault(final(self).kernels.base),
                element_plan(Kernel::Relu, n),
                old(self).state,
            ),
    {
        self.get_kernels()?;
        Ok(Self::element_steps(Kernel::Relu, n))
    }

    /// Softmax on the device.
    pub fn softmax_gpu(&mut self, n: usize) -> (r: Result<Vec<DeviceStep>, GpuError>)
        requires
            n <= 256 * u32::MAX,
        ensures
            used_base(*old(self), *final(self)),
            planned(
                *old(self),
                *final(self),
                r,
                backend::launch_fault(final(self).kernels.base),
                element_plan(Kernel::Softmax, n),
                old(self).state,
            ),
    {
        self.get_kernels()?;
        Ok(Self::element_steps(Kernel::Softmax, n))
    }

    /// Matrix-vector product on the device.
    pub fn matvec_gpu(&mut self, m: usize, k: usize) -> (r: Result<Vec<DeviceStep>, GpuError>)
        requires
            m <= 256 * u32::MAX,
        ensures
            used_base(*old(self), *final(self)),
            planned(
                *old(self),
                *final(self),
                r,
                backend::launch_fault(final(self).kernels.base),
                matvec_plan(m, k),
                old(self).state,
            ),
    {
        self.get_kernels()?;
        let mut plan: Vec<DeviceStep> = Vec::new();
        plan.push(DeviceStep::Upload { slot: Slot::First, from: HostArg::Input });
        plan.push(DeviceStep::Upload { slot: Slot::Second, from: HostArg::Weight });
        plan.push(DeviceStep::Create { slot: Slot::Fresh, len: m });
        let groups: u32 = workgroups_1d(m);
        plan.push(
            DeviceStep::Run(
                Launch {
                    kernel: Kernel::Matvec,
                    x: Slot::First,
                    y: Some(Slot::Second),
                    result: Some(Slot::Fresh),
                    n: m as u32,
                    m: None,
                    k: Some(k as u32),
                    alpha: None,
                    groups_x: groups,
                    groups_y: 1,
                },
            ),
        );
        plan.push(DeviceStep::Read { slot: Slot::Fresh, count: m });
        assert(plan@ =~= matvec_plan(m, k));
        Ok(plan)
    }

    /// Multiplies a row-major `[m, k]` matrix and a vector: on the device, or on
    /// the processor where the kernels are missing.
    pub fn matvec<T: Arith>(
        &mut self,
        t: &T,
        a: &DeviceBuffer,
        x: &DeviceBuffer,
        m: usize,
        k: usize,
        device_id: usize,
    ) -> (r: Result<Work, GpuError>)
        requires
            arith::deterministic(t),
            m * k <= usize::MAX,
            cpu::matvec_fault(a.size, x.size, m, k) is None ==> a.size <= a.data@.len() && x.size
                <= x.data@.len(),
            cpu::matvec_fault(a.size, x.size, m, k) is None ==> m <= 256 * u32::MAX,
        ensures
            error::reports(r, cpu::matvec_fault(a.size, x.size, m, k)),
            r is Err ==> *final(self) == *old(self),
            r is Ok ==> used_base(*old(self), *final(self)) && final(self).state == old(self).state,
            r matches Ok(w) ==> match backend::launch_fault(final(self).kernels.base) {
                None => w is Device && w->Device_0@ == matvec_plan(m, k),
                Some(_) => w is Host && w->Host_0.holds(
                    cpu::matvec_product(t, a.data@, x.data@, m, k),
                    device_id,
                ),
            },
    {
        check_matvec(a.size, x.size, m, k)?;
        match self.matvec_gpu(m, k) {
            Ok(plan) => Ok(Work::Device(plan)),
            Err(_) => Ok(Work::Host(matvec_cpu(t, a, x, m, k, device_id))),
        }
    }

    /// The larger of each number and zero: on the device, or on the processor
    /// where the kernels are missing.
    pub fn relu<T: Arith>(&mut self, t: &T, x: &DeviceBuffer, device_id: usize) -> (r: Result<
        Work,
        GpuError,
    >)
        requires
            arith::deterministic(t),
            x.size <= 256 * u32::MAX,
        ensures
            used_base(*old(self), *final(self)),
            final(self).state == old(self).state,
            r matches Ok(w) && match backend::launch_fault(final(self).kernels.base) {
                None => w is Device && w->Device_0@ == element_plan(Kernel::Relu, x.size),
                Some(_) => w is Host && w->Host_0.holds(
                    x.data@.map_values(|v: u32| arith::larger(t, v, 0)),
                    device_id,
                ),
            },
    {
        match self.relu_gpu(x.size) {
            Ok(plan) => Ok(Work::Device(plan)),
            Err(_) => Ok(Work::Host(relu_cpu(t, x, device_id))),
        }
    }

    /// Softmax of all `size` elements of a buffer: on the device, or on the
    /// processor where the kernels are missing. Of no elements it is empty.
    pub fn softmax<T: Arith>(&mut self, t: &T, x: &DeviceBuffer, size: usize, device_id: usize)
        -> (r: Result<Work, GpuError>)
        requires
            arith::deterministic(t),
            cpu::softmax_fault(x.size, size) is None ==> size <= 256 * u32::MAX,
        ensures
            error::reports(r, cpu::softmax_fault(x.size, size)),
            r is Err || size == 0 ==> *final(self) == *old(self),
            r is Ok && size > 0 ==> used_base(*old(self), *final(self)) && final(self).state
                == old(self).state,
            r matches Ok(w) ==> if size == 0 {
                w is Host && w->Host_0.holds(Seq::empty(), device_id)
            } else {
                match backend::launch_fault(final(self).kernels.base) {
                    None => w is Device && w->Device_0@ == element_plan(Kernel::Softmax, size),
                    Some(_) => w is Host && w->Host_0.holds(
                        cpu::softmax_shares(t, x.data@, size),
                        device_id,
                    ),
                }
            },
    {
        check_softmax(x.size, size)?;
        if size == 0 {
            let b = DeviceBuffer::new(0, device_id);
            assert(b.data@ =~= Seq::empty());
            return Ok(Work::Host(b));
        }
        match self.softmax_gpu(size) {
            Ok(plan) => Ok(Work::Device(plan)),
            Err(_) => Ok(Work::Host(softmax_cpu(t, x, size, device_id))),
        }
    }

    /// 1-bit matrix-vector product with resident weights.
    pub fn gemv_q1_g128_cached(&mut self, handle: GpuWeightHandle, input_len: usize, n_rows: usize, k: usize)
        -> (r: Result<Vec<DeviceStep>, GpuError>)
        requires
            gemv_q1_g128_cached_fault(old(self).state, handle, input_len, k) is None ==> n_rows
                <= 256 * u32::MAX,
        ensures
            match gemv_q1_g128_cached_fault(old(self).state, handle, input_len, k) {
                Some(f) => refused(*old(self), *final(self), r, f),
                None => used_q1(*old(self), *final(self)) && planned(
                    *old(self),
                    *final(self),
                    r,
                    backend::launch_fault(final(self).kernels.q1),
                    cached_plan(Kernel::Q1Gemv, handle, n_rows, k, (n_rows + 255) / 256),
                    old(self).state,
                ),
            },
    {
        check_columns(k)?;
        check_input(input_len, k)?;
        self.get_cached_weight(handle)?;
        self.get_q1_kernels()?;
        let mut plan: Vec<DeviceStep> = Vec::new();
        plan.push(DeviceStep::Upload { slot: Slot::First, from: HostArg::Input });
        plan.push(DeviceStep::Create { slot: Slot::Fresh, len: n_rows });
        let groups: u32 = workgroups_1d(n_rows);
        plan.push(
            DeviceStep::Run(
                Launch {
                    kernel: Kernel::Q1Gemv,
                    x: Slot::Resident(handle.0),
                    y: Some(Slot::First),
                    result: Some(Slot::Fresh),
                    n: n_rows as u32,
                    m: None,
                    k: Some(k as u32),
                    alpha: None,
                    groups_x: groups,
                    groups_y: 1,
                },
            ),
        );
        plan.push(DeviceStep::Read { slot: Slot::Fresh, count: n_rows });
        assert(plan@ =~= cached_plan(Kernel::Q1Gemv, handle, n_rows, k, (n_rows + 255) / 256));
        Ok(plan)
    }

    /// Ternary matrix-vector product with resident weights.
    pub fn gemv_tq2_g128_cached(&mut self, handle: GpuWeightHandle, input_len: usize, n_rows: usize, k: usize)
        -> (r: Result<Vec<DeviceStep>, GpuError>)
        requires
            gemv_tq2_g128_cached_fault(old(self).state, handle, input_len, k) is None ==> n_rows
                <= 8 * u32::MAX,
        ensures
            match gemv_tq2_g128_cached_fault(old(self).state, handle, input_len, k) {
                Some(f) => refused(*old(self), *final(self), r, f),
                None => used_tq2(*old(self), *final(self)) && planned(
                    *old(self),
                    *final(self),
                    r,
                    backend::launch_fault(final(self).kernels.tq2),
                    cached_plan(Kernel::Tq2Gemv, handle, n_rows, k, (n_rows + 7) / 8),
                    old(self).state,
                ),
            },
    {
        check_columns(k)?;
        check_input(input_len, k)?;
        self.get_cached_ternary_weight(handle)?;
        self.get_tq2_kernels()?;
        let mut plan: Vec<DeviceStep> = Vec::new();
        plan.push(DeviceStep::Upload { slot: Slot::First, from: HostArg::Input });
        plan.push(DeviceStep::Create { slot: Slot::Fresh, len: n_rows });
        let groups: u32 = workgroups_simd(n_rows);
        plan.push(
            DeviceStep::Run(
                Launch {
                    kernel: Kernel::Tq2Gemv,
                    x: Slot::Resident(handle.0),
                    y: Some(Slot::First),
                    result: Some(Slot::Fresh),
                    n: n_rows as u32,
                    m: None,
                    k: Some(k as u32),
                    alpha: None,
                    groups_x: groups,
                    groups_y: 1,
                },
            ),
        );
        plan.push(DeviceStep::Read { slot: Slot::Fresh, count: n_rows });
        assert(plan@ =~= cached_plan(Kernel::Tq2Gemv, handle, n_rows, k, (n_rows + 7) / 8));
        Ok(plan)
    }
}

/// What is wrong with the arguments of a 1-bit product with resident weights.
pub open spec fn gemv_q1_g128_cached_fault(
    state: DeviceState,
    handle: GpuWeightHandle,
    input_len: usize,
    k: usize,
) -> Option<GpuFault> {
    if columns_fault(k) is Some {
        columns_fault(k)
    } else if input_fault(input_len, k) is Some {
        input_fault(input_len, k)
    } else {
        weights::handle_fault(state, handle)
    }
}

/// What is wrong with the arguments of a ternary product with resident weights.
pub open spec fn gemv_tq2_g128_cached_fault(
    state: DeviceState,
    handle: GpuWeightHandle,
    input_len: usize,
    k: usize,
) -> Option<GpuFault> {
    if columns_fault(k) is Some {
        columns_fault(k)
    } else if input_fault(input_len, k) is Some {
        input_fault(input_len, k)
    } else {
        weights::ternary_handle_fault(state, handle)
    }
}

/// A 1-bit product that is asked for again with the same sizes creates no
/// buffer that is kept.
pub proof fn law_repeated_gemv_creates_nothing(state: DeviceState, n_rows: usize, k: usize)
    ensures
        ({
            let after = DeviceState {
                input: state.input.after(k),
                output: state.output.after(n_rows),
                ..state
            };
            forall|i: int|
                0 <= i < gemv_plan(after, n_rows, k).len() ==> !(#[trigger] gemv_plan(
                    after,
                    n_rows,
                    k,
                )[i] is Create)
        }),
{
}

} // verus!

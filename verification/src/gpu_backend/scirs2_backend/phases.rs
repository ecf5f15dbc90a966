//! Device work of a transformer layer's phases, submitted as one sequence.

use vstd::prelude::*;

use crate::gpu_backend::backend::{GpuWeightHandle, QkvVectors};
use crate::gpu_backend::error;
use crate::gpu_backend::error::{GpuError, GpuFault};
use crate::gpu_backend::scirs2_backend::backend;
use crate::gpu_backend::scirs2_backend::backend::{
    DeviceState, Kernels, PhaseSizes, Scirs2Backend,
};
use crate::gpu_backend::scirs2_backend::operations;
use crate::gpu_backend::scirs2_backend::steps::{
    workgroups_1d, workgroups_simd, DeviceStep, HostArg, Kernel, Launch, PhaseBuf, Slot,
};
use crate::gpu_backend::scirs2_backend::weights;

verus! {

/// The first of two faults.
pub open spec fn first_fault(a: Option<GpuFault>, b: Option<GpuFault>) -> Option<GpuFault> {
    if a is Some {
        a
    } else {
        b
    }
}

/// What keeps a layer's kernels from running: those that did not compile.
pub open spec fn kernels_fault(kernels: Kernels) -> Option<GpuFault> {
    first_fault(backend::launch_fault(kernels.q1), backend::helper_fault(kernels.helper))
}

/// Only the 1-bit and layer kernels and the device's state may differ; layer
/// kernels are tried once the 1-bit ones are there.
pub open spec fn used_layer(before: Scirs2Backend, after: Scirs2Backend) -> bool {
    &&& after == (Scirs2Backend {
        kernels: Kernels {
            q1: after.kernels.q1,
            helper: after.kernels.helper,
            ..before.kernels
        },
        state: after.state,
        ..before
    })
    &&& backend::tried_q1(before, after)
    &&& if backend::launch_fault(after.kernels.q1) is Some {
        after.kernels.helper == before.kernels.helper
    } else {
        backend::tried_helper(before, after)
    }
}

/// A launch of the 1-bit matrix-vector product with resident weights, eight
/// rows to a workgroup.
pub open spec fn gemv_launch(
    handle: GpuWeightHandle,
    y: Slot,
    result: Slot,
    n: int,
    k: usize,
) -> DeviceStep {
    DeviceStep::Run(
        operations::product_launch(
            Kernel::Q1Gemv,
            Slot::Resident(handle.0),
            y,
            result,
            n as usize,
            k,
            (n + 7) / 8,
        ),
    )
}

fn gemv_step(handle: GpuWeightHandle, y: Slot, result: Slot, n: usize, k: usize) -> (s: DeviceStep)
    requires
        n <= 8 * u32::MAX,
    ensures
        s == gemv_launch(handle, y, result, n as int, k),
{
    let groups: u32 = workgroups_simd(n);
    DeviceStep::Run(
        Launch {
            kernel: Kernel::Q1Gemv,
            x: Slot::Resident(handle.0),
            y: Some(y),
            result: Some(result),
            n: n as u32,
            m: None,
            k: Some(k as u32),
            alpha: None,
            groups_x: groups,
            groups_y: 1,
        },
    )
}

/// A launch of the weighted normalisation.
pub open spec fn norm_launch(x: Slot, y: Slot, result: Slot, h: usize, eps: u32) -> DeviceStep {
    DeviceStep::Run(
        Launch {
            kernel: Kernel::RmsnormWeighted,
            x,
            y: Some(y),
            result: Some(result),
            n: h as u32,
            m: None,
            k: None,
            alpha: Some(eps),
            groups_x: ((h + 255) / 256) as u32,
            groups_y: 1,
        },
    )
}

fn norm_step(x: Slot, y: Slot, result: Slot, h: usize, eps: u32) -> (s: DeviceStep)
    requires
        h <= 256 * u32::MAX,
    ensures
        s == norm_launch(x, y, result, h, eps),
{
    let groups: u32 = workgroups_1d(h);
    DeviceStep::Run(
        Launch {
            kernel: Kernel::RmsnormWeighted,
            x,
            y: Some(y),
            result: Some(result),
            n: h as u32,
            m: None,
            k: None,
            alpha: Some(eps),
            groups_x: groups,
            groups_y: 1,
        },
    )
}

/// A launch that adds one buffer of the phase to the hidden state.
pub open spec fn residual_launch(y: PhaseBuf, h: usize) -> DeviceStep {
    DeviceStep::Run(
        Launch {
            kernel: Kernel::ResidualAdd,
            x: Slot::Phase(PhaseBuf::Hidden),
            y: Some(Slot::Phase(y)),
            result: None,
            n: h as u32,
            m: None,
            k: None,
            alpha: None,
            groups_x: ((h + 255) / 256) as u32,
            groups_y: 1,
        },
    )
}

fn residual_step(y: PhaseBuf, h: usize) -> (s: DeviceStep)
    requires
        h <= 256 * u32::MAX,
    ensures
        s == residual_launch(y, h),
{
    let groups: u32 = workgroups_1d(h);
    DeviceStep::Run(
        Launch {
            kernel: Kernel::ResidualAdd,
            x: Slot::Phase(PhaseBuf::Hidden),
            y: Some(Slot::Phase(y)),
            result: None,
            n: h as u32,
            m: None,
            k: None,
            alpha: None,
            groups_x: groups,
            groups_y: 1,
        },
    )
}

/// Device work ahead of attention: normalise the hidden state, then project it
/// to queries, keys and values.
pub open spec fn attn_plan(
    eps: u32,
    qkv: GpuWeightHandle,
    q_rows: usize,
    k_rows: usize,
    h: usize,
) -> Seq<DeviceStep> {
    let rows = q_rows + k_rows + k_rows;
    seq![
        DeviceStep::Upload { slot: Slot::First, from: HostArg::Hidden },
        DeviceStep::Upload { slot: Slot::Second, from: HostArg::NormWeight },
        DeviceStep::Create { slot: Slot::Middle, len: h },
        DeviceStep::Create { slot: Slot::Fresh, len: rows as usize },
        norm_launch(Slot::First, Slot::Second, Slot::Middle, h, eps),
        gemv_launch(qkv, Slot::Middle, Slot::Fresh, rows, h),
        DeviceStep::Read { slot: Slot::Fresh, count: rows as usize },
    ]
}

/// Device work to have the feed-forward phase's buffers: they are created once.
pub open spec fn phase_steps(phase: Option<PhaseSizes>, sizes: PhaseSizes) -> Seq<DeviceStep> {
    if phase is Some {
        seq![]
    } else {
        seq![
            DeviceStep::Create { slot: Slot::Phase(PhaseBuf::Hidden), len: sizes.h },
            DeviceStep::Create { slot: Slot::Phase(PhaseBuf::AttnOut), len: sizes.attn_out },
            DeviceStep::Create { slot: Slot::Phase(PhaseBuf::NormWeight), len: sizes.h },
            DeviceStep::Create { slot: Slot::Phase(PhaseBuf::AttnProj), len: sizes.h },
            DeviceStep::Create { slot: Slot::Phase(PhaseBuf::Normed), len: sizes.h },
            DeviceStep::Create {
                slot: Slot::Phase(PhaseBuf::GateUp),
                len: (sizes.intermediate * 2) as usize,
            },
            DeviceStep::Create { slot: Slot::Phase(PhaseBuf::Swiglu), len: sizes.intermediate },
            DeviceStep::Create { slot: Slot::Phase(PhaseBuf::Down), len: sizes.h },
        ]
    }
}

/// Weights of the feed-forward phase.
#[derive(Debug, Clone, Copy, PartialEq, Eq, Structural)]
pub struct FfnWeights {
    /// Attention projection.
    pub attn_proj: GpuWeightHandle,
    /// Gate and up projections.
    pub gate_up: GpuWeightHandle,
    /// Down projection.
    pub down: GpuWeightHandle,
}

/// Inputs of the feed-forward phase.
pub open spec fn ffn_inputs() -> Seq<DeviceStep> {
    seq![
        DeviceStep::CopyIn { slot: Slot::Phase(PhaseBuf::Hidden), from: HostArg::Hidden },
        DeviceStep::CopyIn { slot: Slot::Phase(PhaseBuf::AttnOut), from: HostArg::AttnOut },
        DeviceStep::CopyIn { slot: Slot::Phase(PhaseBuf::NormWeight), from: HostArg::NormWeight },
    ]
}

/// Launches of the feed-forward phase, and reading as much of the hidden state
/// back as the host holds.
pub open spec fn ffn_launches(
    eps: u32,
    w: FfnWeights,
    sizes: PhaseSizes,
    hidden_len: usize,
) -> Seq<DeviceStep> {
    let h = sizes.h;
    let inter = sizes.intermediate;
    seq![
        gemv_launch(
            w.attn_proj,
            Slot::Phase(PhaseBuf::AttnOut),
            Slot::Phase(PhaseBuf::AttnProj),
            h as int,
            sizes.attn_out,
        ),
        residual_launch(PhaseBuf::AttnProj, h),
        norm_launch(
            Slot::Phase(PhaseBuf::Hidden),
            Slot::Phase(PhaseBuf::NormWeight),
            Slot::Phase(PhaseBuf::Normed),
            h,
            eps,
        ),
        gemv_launch(
            w.gate_up,
            Slot::Phase(PhaseBuf::Normed),
            Slot::Phase(PhaseBuf::GateUp),
            inter * 2,
            h,
        ),
        DeviceStep::Run(
            operations::element_launch(
                Kernel::Swiglu,
                Slot::Phase(PhaseBuf::GateUp),
                Slot::Phase(PhaseBuf::Swiglu),
                inter,
            ),
        ),
        gemv_launch(
            w.down,
            Slot::Phase(PhaseBuf::Swiglu),
            Slot::Phase(PhaseBuf::Down),
            h as int,
            inter,
        ),
        residual_launch(PhaseBuf::Down, h),
        DeviceStep::Read { slot: Slot::Phase(PhaseBuf::Hidden), count: hidden_len },
    ]
}

/// Device work of the feed-forward phase.
pub open spec fn ffn_plan(
    phase: Option<PhaseSizes>,
    eps: u32,
    w: FfnWeights,
    sizes: PhaseSizes,
    hidden_len: usize,
) -> Seq<DeviceStep> {
    phase_steps(phase, sizes) + ffn_inputs() + ffn_launches(eps, w, sizes, hidden_len)
}

/// What is wrong with the weights of the feed-forward phase.
pub open spec fn ffn_weights_fault(state: DeviceState, w: FfnWeights) -> Option<GpuFault> {
    first_fault(
        weights::handle_fault(state, w.attn_proj),
        first_fault(
            weights::handle_fault(state, w.gate_up),
            weights::handle_fault(state, w.down),
        ),
    )
}

impl Scirs2Backend {
    /// Compiles the 1-bit kernels, then the layer kernels.
    fn layer_kernels(&mut self) -> (r: Result<(), GpuError>)
        ensures
            used_layer(*old(self), *final(self)),
            final(self).state == old(self).state,
            error::reports(r, kernels_fault(final(self).kernels)),
    {
        self.get_q1_kernels()?;
        self.get_helper_kernels()
    }

    /// Normalisation and projections ahead of attention, in one sequence.
    pub fn batch_attn_phase(
        &mut self,
        norm_eps: u32,
        qkv_handle: GpuWeightHandle,
        q_rows: usize,
        k_rows: usize,
        h: usize,
    ) -> (r: Result<Vec<DeviceStep>, GpuError>)
        requires
            q_rows + k_rows + k_rows <= usize::MAX,
            q_rows + k_rows + k_rows <= 8 * u32::MAX,
            h <= 256 * u32::MAX,
        ensures
            used_layer(*old(self), *final(self)),
            operations::planned(
                *old(self),
                *final(self),
                r,
                first_fault(
                    kernels_fault(final(self).kernels),
                    weights::handle_fault(old(self).state, qkv_handle),
                ),
                attn_plan(norm_eps, qkv_handle, q_rows, k_rows, h),
                old(self).state,
            ),
    {
        self.layer_kernels()?;
        self.get_cached_weight(qkv_handle)?;
        let total_rows: usize = q_rows + k_rows + k_rows;
        let mut plan: Vec<DeviceStep> = Vec::new();
        plan.push(DeviceStep::Upload { slot: Slot::First, from: HostArg::Hidden });
        plan.push(DeviceStep::Upload { slot: Slot::Second, from: HostArg::NormWeight });
        plan.push(DeviceStep::Create { slot: Slot::Middle, len: h });
        plan.push(DeviceStep::Create { slot: Slot::Fresh, len: total_rows });
        plan.push(norm_step(Slot::First, Slot::Second, Slot::Middle, h, norm_eps));
        plan.push(gemv_step(qkv_handle, Slot::Middle, Slot::Fresh, total_rows, h));
        plan.push(DeviceStep::Read { slot: Slot::Fresh, count: total_rows });
        assert(plan@ =~= attn_plan(norm_eps, qkv_handle, q_rows, k_rows, h));
        Ok(plan)
    }

    /// Has the feed-forward phase's buffers, which are created on first use and
    /// then kept as they are.
    fn get_or_init_pipeline_buffers(&mut self, plan: &mut Vec<DeviceStep>, sizes: PhaseSizes)
        requires
            sizes.intermediate * 2 <= usize::MAX,
        ensures
            final(plan)@ == old(plan)@ + phase_steps(old(self).state.phase, sizes),
            *final(self) == (Scirs2Backend {
                state: DeviceState {
                    phase: Some(
                        match old(self).state.phase {
                            Some(kept) => kept,
                            None => sizes,
                        },
                    ),
                    ..old(self).state
                },
                ..*old(self)
            }),
    {
        let ghost before = plan@;
        if self.state.phase.is_none() {
            plan.push(DeviceStep::Create { slot: Slot::Phase(PhaseBuf::Hidden), len: sizes.h });
            plan.push(
                DeviceStep::Create { slot: Slot::Phase(PhaseBuf::AttnOut), len: sizes.attn_out },
            );
            plan.push(DeviceStep::Create { slot: Slot::Phase(PhaseBuf::NormWeight), len: sizes.h });
            plan.push(DeviceStep::Create { slot: Slot::Phase(PhaseBuf::AttnProj), len: sizes.h });
            plan.push(DeviceStep::Create { slot: Slot::Phase(PhaseBuf::Normed), len: sizes.h });
            plan.push(
                DeviceStep::Create {
                    slot: Slot::Phase(PhaseBuf::GateUp),
                    len: sizes.intermediate * 2,
                },
            );
            plan.push(
                DeviceStep::Create { slot: Slot::Phase(PhaseBuf::Swiglu), len: sizes.intermediate },
            );
            plan.push(DeviceStep::Create { slot: Slot::Phase(PhaseBuf::Down), len: sizes.h });
            self.state.phase = Some(sizes);
        }
        assert(plan@ =~= before + phase_steps(old(self).state.phase, sizes));
    }

    /// The whole feed-forward phase in one sequence: attention projection and
    /// residual, normalisation, gated projections, and the second residual. The
    /// host holds `hidden_len` elements of the hidden state.
    pub fn batch_ffn_phase(
        &mut self,
        norm_eps: u32,
        w: FfnWeights,
        sizes: PhaseSizes,
        hidden_len: usize,
    ) -> (r: Result<Vec<DeviceStep>, GpuError>)
        requires
            sizes.h <= 8 * u32::MAX,
            sizes.intermediate * 2 <= usize::MAX,
            sizes.intermediate * 2 <= 8 * u32::MAX,
        ensures
            used_layer(*old(self), *final(self)),
            operations::planned(
                *old(self),
                *final(self),
                r,
                first_fault(
                    kernels_fault(final(self).kernels),
                    ffn_weights_fault(old(self).state, w),
                ),
                ffn_plan(old(self).state.phase, norm_eps, w, sizes, hidden_len),
                (DeviceState {
                    phase: Some(
                        match old(self).state.phase {
                            Some(kept) => kept,
                            None => sizes,
                        },
                    ),
                    ..old(self).state
                }),
            ),
    {
        self.layer_kernels()?;
        self.get_cached_weight(w.attn_proj)?;
        self.get_cached_weight(w.gate_up)?;
        self.get_cached_weight(w.down)?;
        let ghost phase = self.state.phase;
        let mut plan: Vec<DeviceStep> = Vec::new();
        self.get_or_init_pipeline_buffers(&mut plan, sizes);
        let h: usize = sizes.h;
        let inter: usize = sizes.intermediate;
        plan.push(
            DeviceStep::CopyIn { slot: Slot::Phase(PhaseBuf::Hidden), from: HostArg::Hidden },
        );
        plan.push(
            DeviceStep::CopyIn { slot: Slot::Phase(PhaseBuf::AttnOut), from: HostArg::AttnOut },
        );
        plan.push(
            DeviceStep::CopyIn {
                slot: Slot::Phase(PhaseBuf::NormWeight),
                from: HostArg::NormWeight,
            },
        );
        plan.push(
            gemv_step(
                w.attn_proj,
                Slot::Phase(PhaseBuf::AttnOut),
                Slot::Phase(PhaseBuf::AttnProj),
                h,
                sizes.attn_out,
            ),
        );
        plan.push(residual_step(PhaseBuf::AttnProj, h));
        plan.push(
            norm_step(
                Slot::Phase(PhaseBuf::Hidden),
                Slot::Phase(PhaseBuf::NormWeight),
                Slot::Phase(PhaseBuf::Normed),
                h,
                norm_eps,
            ),
        );
        plan.push(
            gemv_step(
                w.gate_up,
                Slot::Phase(PhaseBuf::Normed),
                Slot::Phase(PhaseBuf::GateUp),
                inter * 2,
                h,
            ),
        );
        let groups: u32 = workgroups_1d(inter);
        plan.push(
            DeviceStep::Run(
                Launch {
                    kernel: Kernel::Swiglu,
                    x: Slot::Phase(PhaseBuf::GateUp),
                    y: None,
                    result: Some(Slot::Phase(PhaseBuf::Swiglu)),
                    n: inter as u32,
                    m: None,
                    k: None,
                    alpha: None,
                    groups_x: groups,
                    groups_y: 1,
                },
            ),
        );
        plan.push(
            gemv_step(
                w.down,
                Slot::Phase(PhaseBuf::Swiglu),
                Slot::Phase(PhaseBuf::Down),
                h,
                inter,
            ),
        );
        plan.push(residual_step(PhaseBuf::Down, h));
        plan.push(DeviceStep::Read { slot: Slot::Phase(PhaseBuf::Hidden), count: hidden_len });
        assert(plan@ =~= ffn_plan(phase, norm_eps, w, sizes, hidden_len));
        Ok(plan)
    }
}

/// Parts the joint projection into queries, keys and values.
pub fn split_qkv(data: &[u32], q_rows: usize, k_rows: usize) -> (r: QkvVectors)
    requires
        data@.len() == q_rows + k_rows + k_rows,
    ensures
        r.0@ == data@.subrange(0, q_rows as int),
        r.1@ == data@.subrange(q_rows as int, q_rows + k_rows),
        r.2@ == data@.subrange(q_rows + k_rows, q_rows + k_rows + k_rows),
        r.0@ + r.1@ + r.2@ == data@,
{
    let len: usize = data.len();
    let mut q: Vec<u32> = Vec::with_capacity(q_rows);
    q.extend_from_slice(vstd::slice::slice_subrange(data, 0, q_rows));
    let mut k: Vec<u32> = Vec::with_capacity(k_rows);
    k.extend_from_slice(vstd::slice::slice_subrange(data, q_rows, q_rows + k_rows));
    let mut v: Vec<u32> = Vec::with_capacity(k_rows);
    v.extend_from_slice(vstd::slice::slice_subrange(data, q_rows + k_rows, len));
    assert(q@ =~= data@.subrange(0, q_rows as int));
    assert(k@ =~= data@.subrange(q_rows as int, q_rows + k_rows));
    assert(v@ =~= data@.subrange(q_rows + k_rows, q_rows + k_rows + k_rows));
    assert(q@ + k@ + v@ =~= data@);
    (q, k, v)
}

/// What a caller that can do without batching gets of a batched phase: its
/// result, or nothing where it failed.
pub fn batched<R>(r: Result<R, GpuError>) -> (o: Result<Option<R>, GpuError>)
    ensures
        o == Ok::<Option<R>, GpuError>(
            match r {
                Ok(v) => Some(v),
                Err(_) => None,
            },
        ),
{
    match r {
        Ok(v) => Ok(Some(v)),
        Err(_) => Ok(None),
    }
}

/// The feed-forward phase's buffers are created by the first call alone.
pub proof fn law_phase_buffers_are_created_once(sizes: PhaseSizes, later: PhaseSizes)
    ensures
        phase_steps(None, sizes).len() == 8,
        phase_steps(Some(sizes), later).len() == 0,
{
}

/// Every launch of the feed-forward phase reads what the host or an earlier
/// launch wrote: the projection's input, the hidden state and the norm weights
/// are copied in, and each intermediate is a result before it is an operand.
pub proof fn law_ffn_launches_in_order(
    eps: u32,
    w: FfnWeights,
    sizes: PhaseSizes,
    hidden_len: usize,
)
    ensures
        ({
            let l = ffn_launches(eps, w, sizes, hidden_len);
            &&& l[0]->Run_0.result == Some(Slot::Phase(PhaseBuf::AttnProj))
            &&& l[1]->Run_0.y == l[0]->Run_0.result
            &&& l[2]->Run_0.x == l[1]->Run_0.x
            &&& l[3]->Run_0.y == l[2]->Run_0.result
            &&& Some(l[4]->Run_0.x) == l[3]->Run_0.result
            &&& l[5]->Run_0.y == l[4]->Run_0.result
            &&& l[6]->Run_0.y == l[5]->Run_0.result
            &&& l[6]->Run_0.x == l[7]->Read_slot
        }),
{
}

} // verus!

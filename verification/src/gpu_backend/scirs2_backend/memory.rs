//! Buffers that device work touches: each is on the device before it is used.

use vstd::prelude::*;

use crate::gpu_backend::backend::GpuWeightHandle;
use crate::gpu_backend::scirs2_backend::backend::{DeviceState, PhaseSizes};
use crate::gpu_backend::scirs2_backend::operations;
use crate::gpu_backend::scirs2_backend::phases;
use crate::gpu_backend::scirs2_backend::phases::FfnWeights;
use crate::gpu_backend::scirs2_backend::steps::{DeviceStep, Kernel, PhaseBuf, Slot};

verus! {

/// The state says that the buffer is on the device.
pub open spec fn vouched(state: DeviceState, slot: Slot) -> bool {
    match slot {
        Slot::Resident(id) => state.weights@.contains_key(id),
        Slot::PoolInput => state.input.present,
        Slot::PoolOutput => state.output.present,
        Slot::Phase(_) => state.phase is Some,
        _ => false,
    }
}

/// The step puts the buffer on the device.
pub open spec fn creates(step: DeviceStep, slot: Slot) -> bool {
    match step {
        DeviceStep::Create { slot: s, .. } => s == slot,
        DeviceStep::Upload { slot: s, .. } => s == slot,
        _ => false,
    }
}

/// The step reads or writes the buffer, which has to be on the device.
pub open spec fn touches(step: DeviceStep, slot: Slot) -> bool {
    match step {
        DeviceStep::CopyIn { slot: s, .. } => s == slot,
        DeviceStep::Run(l) => l.x == slot || l.y == Some(slot) || l.result == Some(slot),
        DeviceStep::Read { slot: s, .. } => s == slot,
        _ => false,
    }
}

/// The buffer is on the device after the first `n` steps.
pub open spec fn present(state: DeviceState, plan: Seq<DeviceStep>, n: int, slot: Slot) -> bool {
    vouched(state, slot) || exists|j: int|
        0 <= j < n && j < plan.len() && creates(#[trigger] plan[j], slot)
}

/// Every step touches only buffers that are on the device by then.
pub open spec fn closed(state: DeviceState, plan: Seq<DeviceStep>) -> bool {
    forall|i: int, slot: Slot|
        0 <= i < plan.len() && #[trigger] touches(plan[i], slot) ==> present(state, plan, i, slot)
}

/// What the later state vouches for is on the device after the whole plan.
pub open spec fn kept(state: DeviceState, plan: Seq<DeviceStep>, later: DeviceState) -> bool {
    forall|slot: Slot| #[trigger]
        vouched(later, slot) ==> present(state, plan, plan.len() as int, slot)
}

/// Products over raw blocks touch only buffers that are on the device, and what
/// is kept is there afterwards.
pub proof fn law_gemv_buffers_are_there(state: DeviceState, n_rows: usize, k: usize)
    ensures
        closed(state, operations::gemv_plan(state, n_rows, k)),
        kept(
            state,
            operations::gemv_plan(state, n_rows, k),
            DeviceState {
                input: state.input.after(k),
                output: state.output.after(n_rows),
                ..state
            },
        ),
{
    let plan = operations::gemv_plan(state, n_rows, k);
    lemma_pooled_plan(state, plan, k, n_rows);
}

/// Products with several vectors touch only buffers that are on the device, and
/// what is kept is there afterwards.
pub proof fn law_gemm_buffers_are_there(state: DeviceState, m: usize, n_rows: usize, k: usize)
    ensures
        closed(state, operations::gemm_plan(state, m, n_rows, k)),
        kept(
            state,
            operations::gemm_plan(state, m, n_rows, k),
            DeviceState {
                input: state.input.after((m * k) as usize),
                output: state.output.after((m * n_rows) as usize),
                ..state
            },
        ),
{
    let plan = operations::gemm_plan(state, m, n_rows, k);
    lemma_pooled_plan(state, plan, (m * k) as usize, (m * n_rows) as usize);
}

/// Work through the kept input and output touches only what is there.
proof fn lemma_pooled_plan(state: DeviceState, plan: Seq<DeviceStep>, ins: usize, outs: usize)
    requires
        plan.len() >= 4,
        plan[0] is Upload && plan[0]->Upload_slot == Slot::Blocks,
        ({
            let a = state.input.steps(Slot::PoolInput, ins);
            let b = state.output.steps(Slot::PoolOutput, outs);
            let run = (2 + a.len() + b.len()) as int;
            &&& plan.len() == 4 + a.len() + b.len()
            &&& a.len() > 0 ==> plan[1] == a[0]
            &&& plan[1 + a.len() as int] is CopyIn
            &&& plan[1 + a.len() as int]->CopyIn_slot == Slot::PoolInput
            &&& b.len() > 0 ==> plan[2 + a.len() as int] == b[0]
            &&& plan[run] matches DeviceStep::Run(l) && l.x == Slot::Blocks && l.y == Some(
                Slot::PoolInput,
            ) && l.result == Some(Slot::PoolOutput)
            &&& plan[run + 1] is Read
            &&& plan[run + 1]->Read_slot == Slot::PoolOutput
        }),
    ensures
        closed(state, plan),
        kept(
            state,
            plan,
            DeviceState {
                input: state.input.after(ins),
                output: state.output.after(outs),
                ..state
            },
        ),
{
    let a = state.input.steps(Slot::PoolInput, ins);
    let b = state.output.steps(Slot::PoolOutput, outs);
    let run = (2 + a.len() + b.len()) as int;
    assert(creates(plan[0], Slot::Blocks));
    if a.len() > 0 {
        assert(creates(plan[1], Slot::PoolInput));
    }
    if b.len() > 0 {
        assert(creates(plan[2 + a.len() as int], Slot::PoolOutput));
    }
    assert forall|i: int, slot: Slot|
        0 <= i < plan.len() && #[trigger] touches(plan[i], slot) implies present(
        state,
        plan,
        i,
        slot,
    ) by {
        if i == 1 + a.len() {
            assert(slot == Slot::PoolInput);
        } else if i == run {
            assert(slot == Slot::Blocks || slot == Slot::PoolInput || slot == Slot::PoolOutput);
        } else if i == run + 1 {
            assert(slot == Slot::PoolOutput);
        }
    }
}

/// Work on buffers of its own touches only what is there, given that resident
/// weights are.
pub proof fn law_fresh_buffers_are_there(
    state: DeviceState,
    kernel: Kernel,
    handle: GpuWeightHandle,
    n: usize,
    k: usize,
    groups: int,
    eps: u32,
)
    ensures
        state.weights@.contains_key(handle.0) ==> closed(
            state,
            operations::cached_plan(kernel, handle, n, k, groups),
        ),
        closed(state, operations::element_plan(kernel, n)),
        closed(state, operations::rmsnorm_plan(n, eps)),
        closed(state, operations::matvec_plan(n, k)),
{
    let cached = operations::cached_plan(kernel, handle, n, k, groups);
    assert(creates(cached[0], Slot::First) && creates(cached[1], Slot::Fresh));
    let element = operations::element_plan(kernel, n);
    assert(creates(element[0], Slot::First) && creates(element[1], Slot::Fresh));
    let norm = operations::rmsnorm_plan(n, eps);
    assert(creates(norm[0], Slot::First) && creates(norm[1], Slot::Second) && creates(
        norm[2],
        Slot::Fresh,
    ));
    let matvec = operations::matvec_plan(n, k);
    assert(creates(matvec[0], Slot::First) && creates(matvec[1], Slot::Second) && creates(
        matvec[2],
        Slot::Fresh,
    ));
}

/// The work ahead of attention touches only buffers that are on the device.
pub proof fn law_attn_buffers_are_there(
    state: DeviceState,
    eps: u32,
    qkv: GpuWeightHandle,
    q_rows: usize,
    k_rows: usize,
    h: usize,
)
    requires
        state.weights@.contains_key(qkv.0),
    ensures
        closed(state, phases::attn_plan(eps, qkv, q_rows, k_rows, h)),
{
    let plan = phases::attn_plan(eps, qkv, q_rows, k_rows, h);
    assert(creates(plan[0], Slot::First));
    assert(creates(plan[1], Slot::Second));
    assert(creates(plan[2], Slot::Middle));
    assert(creates(plan[3], Slot::Fresh));
}

/// The feed-forward phase touches only buffers that are on the device, and its
/// buffers are there afterwards.
pub proof fn law_ffn_buffers_are_there(
    state: DeviceState,
    eps: u32,
    w: FfnWeights,
    sizes: PhaseSizes,
    hidden_len: usize,
)
    requires
        state.weights@.contains_key(w.attn_proj.0),
        state.weights@.contains_key(w.gate_up.0),
        state.weights@.contains_key(w.down.0),
    ensures
        closed(state, phases::ffn_plan(state.phase, eps, w, sizes, hidden_len)),
        kept(
            state,
            phases::ffn_plan(state.phase, eps, w, sizes, hidden_len),
            DeviceState { phase: Some(sizes), ..state },
        ),
{
    let plan = phases::ffn_plan(state.phase, eps, w, sizes, hidden_len);
    let head = phases::phase_steps(state.phase, sizes);
    assert forall|b: PhaseBuf, n: int|
        head.len() <= n implies #[trigger] present(state, plan, n, Slot::Phase(b)) by {
        if state.phase is None {
            let j = lemma_phase_buffer(state.phase, sizes, b);
            assert(plan[j] == head[j]);
            assert(creates(plan[j], Slot::Phase(b)));
        }
    }
    assert forall|i: int, slot: Slot|
        0 <= i < plan.len() && #[trigger] touches(plan[i], slot) implies present(
        state,
        plan,
        i,
        slot,
    ) by {
        if i < head.len() {
            assert(plan[i] == head[i]);
        } else {
            assert(plan[i] == (phases::ffn_inputs() + phases::ffn_launches(eps, w, sizes, hidden_len))[i
                - head.len()]);
            assert(slot is Phase || vouched(state, slot));
        }
    }
    assert forall|slot: Slot| #[trigger]
        vouched(DeviceState { phase: Some(sizes), ..state }, slot) implies present(
        state,
        plan,
        plan.len() as int,
        slot,
    ) by {
        if slot is Phase {
            assert(present(state, plan, plan.len() as int, Slot::Phase(slot->Phase_0)));
        }
    }
}

/// Every buffer of the phase is created where none is there.
proof fn lemma_phase_buffer(
    phase: Option<PhaseSizes>,
    sizes: PhaseSizes,
    b: PhaseBuf,
) -> (j: int)
    requires
        phase is None,
    ensures
        0 <= j < phases::phase_steps(phase, sizes).len(),
        creates(phases::phase_steps(phase, sizes)[j], Slot::Phase(b)),
{
    match b {
        PhaseBuf::Hidden => 0,
        PhaseBuf::AttnOut => 1,
        PhaseBuf::NormWeight => 2,
        PhaseBuf::AttnProj => 3,
        PhaseBuf::Normed => 4,
        PhaseBuf::GateUp => 5,
        PhaseBuf::Swiglu => 6,
        PhaseBuf::Down => 7,
    }
}

} // verus!

//! Where buffers live: what the host touches is visible to it. And how many a pool has had.

use vstd::prelude::*;

use crate::gpu_backend::metal_graph::attention;
use crate::gpu_backend::metal_graph::attention::AttnArgs;
use crate::gpu_backend::metal_graph::device::{Action, Buf, Resident, Step};
use crate::gpu_backend::metal_graph::error::MetalWeightHandle;
use crate::gpu_backend::metal_graph::ffn::FfnArgs;
use crate::gpu_backend::metal_graph::gemm;
use crate::gpu_backend::metal_graph::graph::Residency;
use crate::gpu_backend::metal_graph::vae;
use crate::gpu_backend::metal_graph::vae::ConvGeometry;
use crate::gpu_backend::metal_prefill::forward;
use crate::gpu_backend::metal_prefill::types::PrefillArgs;

verus! {

/// Buffers that no host data goes to or comes from.
pub open spec fn stays_on_device(buf: Buf) -> bool {
    match buf {
        Buf::Ffn(b) => !(b is Hidden || b is AttnOut || b is NormWeight),
        Buf::Prefill(b) => !(b is Hidden || b is Cos || b is Sin),
        Buf::Scratch(b) => b is Patches,
        Buf::KCache => true,
        Buf::VCache => true,
        _ => false,
    }
}

/// Buffers are private to the device exactly where they stay there, and the host writes and
/// reads no other than those that do not.
pub open spec fn in_its_place(a: Action) -> bool {
    match a {
        Action::Alloc { buf, storage, .. } => storage is Private <==> stays_on_device(buf),
        Action::Upload { buf, .. } => !stays_on_device(buf),
        Action::Download { buf, .. } => !stays_on_device(buf),
        _ => true,
    }
}

/// All actions of a plan.
pub open spec fn all_in_place(plan: Seq<Action>) -> bool {
    forall|i: int| 0 <= i < plan.len() ==> in_its_place(#[trigger] plan[i])
}

/// Buffers of products are where the host can reach them.
pub proof fn law_product_buffers_in_place(
    resident: Residency,
    step: Step,
    input_len: usize,
    output_len: usize,
    n_rows: usize,
)
    ensures
        all_in_place(gemm::gemv_plan(step, input_len, n_rows)),
        all_in_place(gemm::gemm_plan(resident, step, input_len, output_len)),
{
}

/// Buffers of the FFN phase: what the host hands over or reads is shared, the rest is not.
pub proof fn law_ffn_buffers_in_place(resident: Residency, a: FfnArgs)
    ensures
        all_in_place(a.plan(resident)),
{
}

/// Buffers of group norm, SiLU, upsampling and attention.
pub proof fn law_element_buffers_in_place(
    resident: Residency,
    x_len: usize,
    y_len: usize,
    c: usize,
    h: usize,
    w: usize,
    eps: u32,
    a: AttnArgs,
)
    ensures
        all_in_place(vae::groupnorm_plan(x_len, c, h, w, eps)),
        all_in_place(vae::silu_plan(x_len)),
        all_in_place(vae::upsample_plan(x_len, y_len, c, h, w)),
        all_in_place(attention::flash_plan(a)),
        all_in_place(attention::pooled_plan(resident, a)),
{
}

proof fn lemma_tiles_in_place(g: ConvGeometry, weight: MetalWeightHandle, n: nat)
    ensures
        all_in_place(g.tiles(weight, n)),
    decreases n,
{
    if n > 0 {
        lemma_tiles_in_place(g, weight, (n - 1) as nat);
        let before = g.tiles(weight, (n - 1) as nat);
        let last = g.tile(weight, n - 1);
        assert forall|i: int| 0 <= i < (before + last).len() implies in_its_place(
            #[trigger] (before + last)[i],
        ) by {
            if i < before.len() {
                assert((before + last)[i] == before[i]);
            } else {
                assert((before + last)[i] == last[i - before.len()]);
            }
        }
    }
}

/// Buffers of convolutions.
pub proof fn law_convolution_buffers_in_place(
    g: ConvGeometry,
    weight: MetalWeightHandle,
    input_len: usize,
)
    ensures
        all_in_place(g.implicit_plan(weight, input_len)),
        all_in_place(g.im2col_plan(weight, input_len)),
{
    let n = g.tile_count() as nat;
    lemma_tiles_in_place(g, weight, n);
    let tiles = g.tiles(weight, n);
    let plan = g.im2col_plan(weight, input_len);
    assert forall|i: int| 0 <= i < plan.len() implies in_its_place(#[trigger] plan[i]) by {
        if 4 <= i < 4 + tiles.len() {
            assert(plan[i] == tiles[i - 4]);
        }
    }
}

/// Buffers of a forward pass: hidden states and RoPE tables come from the host, logits and
/// tokens go to it, and the rest stays on the device.
pub proof fn law_pass_buffers_in_place(resident: Residency, a: PrefillArgs, bytes: u64)
    ensures
        all_in_place(a.prologue(resident)),
        all_in_place(forward::grow_logits(resident, bytes)),
        all_in_place(forward::grow_token_ids(resident, bytes)),
{
    let allocs = a.set().allocs();
    let plan = a.prologue(resident);
    assert(all_in_place(allocs));
    assert forall|i: int| 0 <= i < plan.len() implies in_its_place(#[trigger] plan[i]) by {
        if a.needs_set(resident) && i < allocs.len() {
            assert(plan[i] == allocs[i]);
        }
    }
}

/// Allocations in a plan.
pub open spec fn allocations(plan: Seq<Action>) -> nat
    decreases plan.len(),
{
    if plan.len() == 0 {
        0
    } else {
        allocations(plan.drop_last()) + if plan.last() is Alloc {
            1nat
        } else {
            0nat
        }
    }
}

proof fn lemma_last(resident: Residency, plan: Seq<Action>, a: Action)
    ensures
        resident.after(plan.push(a)) == match a {
            Action::Keep(r) => resident.after(plan).with(r),
            _ => resident.after(plan),
        },
        allocations(plan.push(a)) == allocations(plan) + if a is Alloc {
            1nat
        } else {
            0nat
        },
{
    assert(plan.push(a).drop_last() =~= plan);
}

/// What is resident, and how much has been allocated, after an allocation and its record.
proof fn lemma_recorded(
    resident: Residency,
    before: Seq<Action>,
    a: Action,
    r: Resident,
)
    requires
        a is Alloc,
    ensures
        resident.after(before + seq![a, Action::Keep(r)]) == resident.after(before).with(r),
        allocations(before + seq![a, Action::Keep(r)]) == allocations(before) + 1,
{
    assert(before + seq![a, Action::Keep(r)] =~= before.push(a).push(Action::Keep(r)));
    lemma_last(resident, before, a);
    lemma_last(resident, before.push(a), Action::Keep(r));
}

/// Growing the GEMM pool counts as many buffers as it allocates, and leaves everything but
/// the pool and its count as it was.
pub proof fn law_gemm_pool_counts_its_buffers(
    resident: Residency,
    input_bytes: usize,
    output_bytes: usize,
)
    ensures
        ({
            let plan = gemm::grow_gemm_pool(resident, input_bytes, output_bytes);
            let after = resident.after(plan);
            after == (Residency {
                gemm_io_pool: after.gemm_io_pool,
                gemm_pool_allocs: resident.gemm_pool_allocs.wrapping_add(allocations(plan) as u64),
                ..resident
            })
        }),
{
    let plan = gemm::grow_gemm_pool(resident, input_bytes, output_bytes);
    let none: Seq<Action> = seq![];
    assert(resident.after(none) == resident && allocations(none) == 0);
    match resident.gemm_io_pool {
        None => {
            lemma_last(resident, none, plan[0]);
            let first = none.push(plan[0]);
            assert(plan =~= first + seq![plan[1], plan[2]]);
            lemma_recorded(resident, first, plan[1], plan[2]->Keep_0);
        },
        Some(p) => {
            let a = if p.input_cap_bytes < input_bytes {
                none + seq![plan[0], plan[1]]
            } else {
                none
            };
            let n = a.len() as int;
            if p.input_cap_bytes < input_bytes {
                lemma_recorded(resident, none, plan[0], plan[1]->Keep_0);
            }
            if p.output_cap_bytes < output_bytes {
                assert(plan =~= a + seq![plan[n], plan[n + 1]]);
                lemma_recorded(resident, a, plan[n], plan[n + 1]->Keep_0);
            } else {
                assert(plan =~= a);
            }
        },
    }
}

/// The three inputs of attention, and their record.
proof fn lemma_inputs_recorded(resident: Residency, plan: Seq<Action>)
    requires
        plan.len() >= 4,
        plan[0] is Alloc,
        plan[1] is Alloc,
        plan[2] is Alloc,
        plan[3] is Keep,
    ensures
        resident.after(plan.take(4)) == resident.with(plan[3]->Keep_0),
        allocations(plan.take(4)) == 3,
{
    let none: Seq<Action> = seq![];
    let q = none.push(plan[0]);
    let k = q.push(plan[1]);
    lemma_last(resident, none, plan[0]);
    lemma_last(resident, q, plan[1]);
    lemma_recorded(resident, k, plan[2], plan[3]->Keep_0);
    assert(plan.take(4) =~= k + seq![plan[2], plan[3]]);
    assert(resident.after(none) == resident && allocations(none) == 0);
}

/// So does growing the attention pool.
pub proof fn law_attention_pool_counts_its_buffers(
    resident: Residency,
    qkv_bytes: usize,
    out_bytes: usize,
)
    ensures
        ({
            let plan = attention::grow_joint_attn_pool(resident, qkv_bytes, out_bytes);
            let after = resident.after(plan);
            after == (Residency {
                joint_attn_pool: after.joint_attn_pool,
                joint_attn_pool_allocs: resident.joint_attn_pool_allocs.wrapping_add(
                    allocations(plan) as u64,
                ),
                ..resident
            })
        }),
{
    let plan = attention::grow_joint_attn_pool(resident, qkv_bytes, out_bytes);
    let none: Seq<Action> = seq![];
    assert(resident.after(none) == resident && allocations(none) == 0);
    match resident.joint_attn_pool {
        None => {
            let q = none.push(plan[0]);
            let k = q.push(plan[1]);
            let v = k.push(plan[2]);
            lemma_last(resident, none, plan[0]);
            lemma_last(resident, q, plan[1]);
            lemma_last(resident, k, plan[2]);
            assert(plan =~= v + seq![plan[3], plan[4]]);
            lemma_recorded(resident, v, plan[3], plan[4]->Keep_0);
        },
        Some(p) => {
            if p.qkv_cap_bytes < qkv_bytes {
                lemma_inputs_recorded(resident, plan);
                let a = plan.take(4);
                if p.out_cap_bytes < out_bytes {
                    assert(plan =~= a + seq![plan[4], plan[5]]);
                    lemma_recorded(resident, a, plan[4], plan[5]->Keep_0);
                } else {
                    assert(plan =~= a);
                }
            } else if p.out_cap_bytes < out_bytes {
                assert(plan =~= none + seq![plan[0], plan[1]]);
                lemma_recorded(resident, none, plan[0], plan[1]->Keep_0);
            } else {
                assert(plan =~= none);
            }
        },
    }
}

} // verus!

//! Memory that plans touch: every buffer is there, and large enough, before it
//! is used.

use vstd::prelude::*;

use crate::gpu_backend::metal_graph::attention;
use crate::gpu_backend::metal_graph::attention::{AttnArgs, AttnCaps};
use crate::gpu_backend::metal_graph::buffers::MetalBuffers;
use crate::gpu_backend::metal_graph::device::{
    Action, Buf, FfnBuf, Resident, ScratchBuf, Step,
};
use crate::gpu_backend::metal_graph::error::MetalWeightHandle;
use crate::gpu_backend::metal_graph::ffn::FfnArgs;
use crate::gpu_backend::metal_graph::gemm;
use crate::gpu_backend::metal_graph::graph::Residency;
use crate::gpu_backend::metal_graph::laws;
use crate::gpu_backend::metal_graph::vae;
use crate::gpu_backend::metal_graph::vae::ConvGeometry;

verus! {

/// Buffers on the device, with their bytes.
pub type Memory = Map<Buf, int>;

/// Buffers that a launch reads or writes.
pub open spec fn uses(step: Step) -> Seq<Buf> {
    match step {
        Step::GemvQ1 { weight, input, output, .. } => seq![weight, input, output],
        Step::GemvTq2 { weight, input, output, .. } => seq![weight, input, output],
        Step::GemvTq2At { weight, input, output, .. } => seq![weight, input, output],
        Step::GemmQ1V7 { weight, input, output, .. } => seq![weight, input, output],
        Step::GemmQ1V7Residual { weight, input, output, residual, .. } => seq![
            weight,
            input,
            output,
            residual,
        ],
        Step::GemmTq2V7 { weight, input, output, .. } => seq![weight, input, output],
        Step::GemmTq2V10 { weight, input, output, .. } => seq![weight, input, output],
        Step::GemmF32 { weight, input, output, .. } => seq![weight, input, output],
        Step::RmsNorm { input, weight, output, .. } => seq![input, weight, output],
        Step::RmsNormAt { input, weight, output, .. } => seq![input, weight, output],
        Step::BatchedRmsNorm { input, weight, output, .. } => seq![input, weight, output],
        Step::ResidualAdd { target, addend, .. } => seq![target, addend],
        Step::FusedGateUpSwiglu { weight, input, output, .. } => seq![weight, input, output],
        Step::FusedGateUpSwigluGemm { weight, input, output, .. } => seq![weight, input, output],
        Step::BatchedSwiglu { input, output, .. } => seq![input, output],
        Step::FusedQkNorm { query, key, q_out, k_out, q_weight, k_weight, .. } => seq![
            query,
            key,
            q_out,
            k_out,
            q_weight,
            k_weight,
        ],
        Step::FusedQkRope { query, key, q_out, k_out, cos, sin, .. } => seq![
            query,
            key,
            q_out,
            k_out,
            cos,
            sin,
        ],
        Step::FusedKvStore { key, value, k_cache, v_cache, .. } => seq![
            key,
            value,
            k_cache,
            v_cache,
        ],
        Step::AttentionScores { query, k_cache, scores, .. } => seq![query, k_cache, scores],
        Step::BatchedSoftmax { scores, .. } => seq![scores],
        Step::WeightedSum { scores, v_cache, output, .. } => seq![scores, v_cache, output],
        Step::Argmax { logits, token, .. } => seq![logits, token],
        Step::ArgmaxAt { logits, token, .. } => seq![logits, token],
        Step::Im2col { input, patches, .. } => seq![input, patches],
        Step::Conv2dImplicit { weight, input, output, .. } => seq![weight, input, output],
        Step::GroupNorm { x, weight, bias, .. } => seq![x, weight, bias],
        Step::Silu { x, .. } => seq![x],
        Step::UpsampleNearest { input, output, .. } => seq![input, output],
        Step::JointAttentionFlash { query, key, value, out, .. } => seq![query, key, value, out],
    }
}

/// The buffer can be launched with: it is a weight, or on the device.
pub open spec fn there(m: Memory, buf: Buf) -> bool {
    buf is Weight || m.contains_key(buf)
}

/// The buffer is on the device and holds so many numbers.
pub open spec fn holds(m: Memory, buf: Buf, floats: int) -> bool {
    m.contains_key(buf) && floats * 4 <= m[buf]
}

/// The action touches only memory that is there.
pub open spec fn allowed(m: Memory, a: Action) -> bool {
    match a {
        Action::Upload { buf, floats } => holds(m, buf, floats as int),
        Action::Dispatch(step) => forall|i: int|
            0 <= i < uses(step).len() ==> there(m, #[trigger] uses(step)[i]),
        Action::Download { buf, floats } => holds(m, buf, floats as int),
        Action::ReadToken => holds(m, Buf::TokenId, 1),
        Action::ReadTokens { count } => holds(m, Buf::TokenId, count as int),
        _ => true,
    }
}

/// The memory after an action.
pub open spec fn held(m: Memory, a: Action) -> Memory {
    match a {
        Action::Alloc { buf, bytes, .. } => m.insert(buf, bytes as int),
        Action::AcquireKv { n_layers, nkv, max_seq, head_dim } => {
            let bytes = n_layers * nkv * max_seq * head_dim * 4;
            m.insert(Buf::KCache, bytes).insert(Buf::VCache, bytes)
        },
        _ => m,
    }
}

/// The memory after the first `n` actions of a plan.
pub open spec fn after(m: Memory, plan: Seq<Action>, n: nat) -> Memory
    decreases n,
{
    if n == 0 {
        m
    } else {
        held(after(m, plan, (n - 1) as nat), plan[n - 1])
    }
}

/// Every action of the plan touches only memory that is there by then.
pub open spec fn runs(m: Memory, plan: Seq<Action>) -> bool {
    forall|i: int| 0 <= i < plan.len() ==> allowed(after(m, plan, i as nat), #[trigger] plan[i])
}

impl MetalBuffers {
    /// Bytes of one of the set's buffers.
    pub open spec fn bytes(self, buf: FfnBuf) -> int {
        if buf is Swiglu {
            self.intermediate_size * 4
        } else {
            self.hidden_size * 4
        }
    }
}

/// Bytes of a buffer that residency vouches for.
pub open spec fn resident_bytes(s: Residency, buf: Buf) -> Option<int> {
    match buf {
        Buf::Ffn(b) => match s.buffers {
            Some(set) => Some(set.bytes(b)),
            None => None,
        },
        Buf::Prefill(b) => match s.prefill_buffers {
            Some(set) => Some(set.bytes(b)),
            None => None,
        },
        Buf::Logits => match s.logits_bytes {
            Some(n) => Some(n as int),
            None => None,
        },
        Buf::TokenId => match s.token_id_bytes {
            Some(n) => Some(n as int),
            None => None,
        },
        Buf::GemmInput => match s.gemm_io_pool {
            Some(p) => Some(p.input_cap_bytes as int),
            None => None,
        },
        Buf::GemmOutput => match s.gemm_io_pool {
            Some(p) => Some(p.output_cap_bytes as int),
            None => None,
        },
        Buf::AttnQ | Buf::AttnK | Buf::AttnV => match s.joint_attn_pool {
            Some(p) => Some(p.qkv_cap_bytes as int),
            None => None,
        },
        Buf::AttnOut => match s.joint_attn_pool {
            Some(p) => Some(p.out_cap_bytes as int),
            None => None,
        },
        _ => None,
    }
}

/// What residency vouches for is on the device.
pub open spec fn covers(m: Memory, s: Residency) -> bool {
    forall|b: Buf| (#[trigger] resident_bytes(s, b)) is Some ==> m.contains_key(b)
        && resident_bytes(s, b)->0 <= m[b]
}

/// The plan touches only memory that is there, and what residency vouches for
/// afterwards is on the device.
pub open spec fn safe(m: Memory, s: Residency, plan: Seq<Action>) -> bool {
    runs(m, plan) && covers(after(m, plan, plan.len()), s.after(plan))
}

/// Nothing is vouched for at first.
pub proof fn law_nothing_is_covered(m: Memory)
    ensures
        covers(m, Residency::none()),
{
}

/// Memory depends only on the actions so far.
pub proof fn lemma_after_prefix(m: Memory, a: Seq<Action>, b: Seq<Action>, n: nat)
    requires
        n <= a.len(),
        n <= b.len(),
        forall|i: int| 0 <= i < n ==> a[i] == b[i],
    ensures
        after(m, a, n) == after(m, b, n),
    decreases n,
{
    if n > 0 {
        lemma_after_prefix(m, a, b, (n - 1) as nat);
    }
}

/// Memory after a plan and the start of the next.
pub proof fn lemma_after_concat(m: Memory, a: Seq<Action>, b: Seq<Action>, n: nat)
    requires
        n <= b.len(),
    ensures
        after(m, a + b, a.len() + n) == after(after(m, a, a.len()), b, n),
    decreases n,
{
    if n == 0 {
        lemma_after_prefix(m, a + b, a, a.len());
    } else {
        lemma_after_concat(m, a, b, (n - 1) as nat);
        assert((a + b)[a.len() + n - 1] == b[n - 1]);
    }
}

/// Two plans that are safe one after the other are safe as one.
pub proof fn law_safe_plans_compose(m: Memory, s: Residency, a: Seq<Action>, b: Seq<Action>)
    requires
        safe(m, s, a),
        safe(after(m, a, a.len()), s.after(a), b),
    ensures
        safe(m, s, a + b),
{
    let plan = a + b;
    assert forall|i: int| 0 <= i < plan.len() implies allowed(
        after(m, plan, i as nat),
        #[trigger] plan[i],
    ) by {
        if i < a.len() {
            lemma_after_prefix(m, plan, a, i as nat);
            assert(plan[i] == a[i]);
        } else {
            lemma_after_concat(m, a, b, (i - a.len()) as nat);
            assert(plan[i] == b[i - a.len()]);
        }
    }
    lemma_after_concat(m, a, b, b.len());
    laws::law_plans_compose(s, a, b);
}

/// The plan allocates only for itself.
pub open spec fn scratch_only(plan: Seq<Action>) -> bool {
    forall|i: int|
        0 <= i < plan.len() ==> match #[trigger] plan[i] {
            Action::Alloc { buf, .. } => buf is Scratch,
            _ => true,
        }
}

/// A plan that keeps nothing and allocates only for itself leaves residency
/// covered.
proof fn lemma_scratch_covers(m: Memory, s: Residency, plan: Seq<Action>, n: nat)
    requires
        covers(m, s),
        scratch_only(plan),
        n <= plan.len(),
    ensures
        covers(after(m, plan, n), s),
    decreases n,
{
    if n > 0 {
        lemma_scratch_covers(m, s, plan, (n - 1) as nat);
        let before = after(m, plan, (n - 1) as nat);
        let now = after(m, plan, n);
        assert(now == held(before, plan[n - 1]));
        assert forall|b: Buf| (#[trigger] resident_bytes(s, b)) is Some implies now.contains_key(b)
            && resident_bytes(s, b)->0 <= now[b] by {
            assert(before.contains_key(b));
        }
    }
}

/// A plan that runs, keeps nothing and allocates only for itself is safe.
proof fn lemma_scratch_safe(m: Memory, s: Residency, plan: Seq<Action>)
    requires
        covers(m, s),
        scratch_only(plan),
        laws::keeps_nothing(plan),
        runs(m, plan),
    ensures
        safe(m, s, plan),
{
    lemma_scratch_covers(m, s, plan, plan.len());
    laws::law_no_keep_no_change(s, plan);
}

/// A matrix-vector product touches only memory that is there.
pub proof fn law_gemv_is_safe(
    m: Memory,
    s: Residency,
    step: Step,
    input_len: usize,
    output_len: usize,
    n_rows: usize,
    k: usize,
)
    requires
        covers(m, s),
        gemm::gemv_fault(input_len, output_len, n_rows, k) is None,
        input_len * 4 <= usize::MAX,
        output_len * 4 <= usize::MAX,
        forall|i: int|
            0 <= i < uses(step).len() ==> (#[trigger] uses(step)[i]) is Weight || uses(step)[i]
                == Buf::Scratch(ScratchBuf::Input) || uses(step)[i] == Buf::Scratch(
                ScratchBuf::Output,
            ),
    ensures
        safe(m, s, gemm::gemv_plan(step, input_len, n_rows)),
{
    let plan = gemm::gemv_plan(step, input_len, n_rows);
    reveal_with_fuel(after, 7);
    assert(runs(m, plan));
    lemma_scratch_safe(m, s, plan);
}

/// Allocations that are then kept: they run, and are resident afterwards.
pub proof fn lemma_allocs_then_keep(m: Memory, s: Residency, allocs: Seq<Action>, r: Resident)
    requires
        forall|i: int| 0 <= i < allocs.len() ==> (#[trigger] allocs[i]) is Alloc,
    ensures
        ({
            let plan = allocs.push(Action::Keep(r));
            &&& runs(m, plan)
            &&& s.after(plan) == s.with(r)
            &&& after(m, plan, plan.len()) == after(m, allocs, allocs.len())
        }),
{
    let plan = allocs.push(Action::Keep(r));
    laws::law_keep_at_end(s, allocs, r);
    lemma_after_prefix(m, plan, allocs, allocs.len());
    assert forall|i: int| 0 <= i < plan.len() implies allowed(
        after(m, plan, i as nat),
        #[trigger] plan[i],
    ) by {
        if i < allocs.len() {
            assert(plan[i] == allocs[i]);
        }
    }
}

/// Residency stays covered where what it vouches for has been allocated or was
/// there already.
pub proof fn lemma_covers_grown(m: Memory, s: Residency, now: Memory, t: Residency)
    requires
        covers(m, s),
        forall|b: Buf| (#[trigger] resident_bytes(t, b)) is Some ==> {
            ||| now.contains_key(b) && resident_bytes(t, b)->0 <= now[b]
            ||| resident_bytes(s, b) == resident_bytes(t, b) && now.contains_key(b)
                == m.contains_key(b) && now[b] == m[b]
        },
    ensures
        covers(now, t),
{
    assert forall|b: Buf| (#[trigger] resident_bytes(t, b)) is Some implies now.contains_key(b)
        && resident_bytes(t, b)->0 <= now[b] by {
        if resident_bytes(s, b) is Some {
            assert(m.contains_key(b));
        }
    }
}

/// Growing the GEMM pool is safe and makes room.
proof fn lemma_gemm_pool_is_safe(m: Memory, s: Residency, input_bytes: usize, output_bytes: usize)
    requires
        covers(m, s),
    ensures
        ({
            let plan = gemm::grow_gemm_pool(s, input_bytes, output_bytes);
            let now = after(m, plan, plan.len());
            &&& safe(m, s, plan)
            &&& now.contains_key(Buf::GemmInput) && input_bytes <= now[Buf::GemmInput]
            &&& now.contains_key(Buf::GemmOutput) && output_bytes <= now[Buf::GemmOutput]
        }),
{
    let plan = gemm::grow_gemm_pool(s, input_bytes, output_bytes);
    gemm::law_gemm_pool_grows_only(s, input_bytes, output_bytes);
    reveal_with_fuel(after, 4);
    match s.gemm_io_pool {
        None => {
            let allocs = seq![plan[0], plan[1]];
            let kept = Resident::GemmPool { input_bytes, output_bytes };
            assert(plan =~= allocs.push(Action::Keep(kept)));
            lemma_allocs_then_keep(m, s, allocs, kept);
            lemma_covers_grown(m, s, after(m, plan, plan.len()), s.after(plan));
        },
        Some(p) => {
            let a = if p.input_cap_bytes < input_bytes {
                plan.take(2)
            } else {
                seq![]
            };
            let b = plan.skip(a.len() as int);
            assert(plan =~= a + b);
            assert(resident_bytes(s, Buf::GemmInput) is Some);
            assert(resident_bytes(s, Buf::GemmOutput) is Some);
            if p.input_cap_bytes < input_bytes {
                let kept = Resident::GemmInput { bytes: input_bytes };
                assert(a =~= seq![plan[0]].push(Action::Keep(kept)));
                lemma_allocs_then_keep(m, s, seq![plan[0]], kept);
                lemma_covers_grown(m, s, after(m, a, a.len()), s.after(a));
            }
            assert(safe(m, s, a));
            let mid = after(m, a, a.len());
            let t = s.after(a);
            assert(resident_bytes(t, Buf::GemmInput) is Some);
            assert(resident_bytes(t, Buf::GemmOutput) is Some);
            if p.output_cap_bytes < output_bytes {
                let kept = Resident::GemmOutput { bytes: output_bytes };
                assert(b =~= seq![b[0]].push(Action::Keep(kept)));
                lemma_allocs_then_keep(mid, t, seq![b[0]], kept);
                lemma_covers_grown(mid, t, after(mid, b, b.len()), t.after(b));
            } else {
                assert(b =~= seq![]);
            }
            assert(safe(mid, t, b));
            law_safe_plans_compose(m, s, a, b);
            lemma_after_concat(m, a, b, b.len());
        },
    }
}

/// A batched product through the pool touches only memory that is there.
pub proof fn law_gemm_is_safe(
    m: Memory,
    s: Residency,
    step: Step,
    input_len: usize,
    output_len: usize,
)
    requires
        covers(m, s),
        input_len * 4 <= usize::MAX,
        output_len * 4 <= usize::MAX,
        forall|i: int|
            0 <= i < uses(step).len() ==> (#[trigger] uses(step)[i]) is Weight || uses(step)[i]
                == Buf::GemmInput || uses(step)[i] == Buf::GemmOutput,
    ensures
        safe(m, s, gemm::gemm_plan(s, step, input_len, output_len)),
{
    if input_len > 0 && output_len > 0 {
        let a = gemm::grow_gemm_pool(s, (input_len * 4) as usize, (output_len * 4) as usize);
        let b = seq![
            Action::Upload { buf: Buf::GemmInput, floats: input_len },
            Action::Dispatch(step),
            Action::Commit,
            Action::Download { buf: Buf::GemmOutput, floats: output_len },
        ];
        lemma_gemm_pool_is_safe(m, s, (input_len * 4) as usize, (output_len * 4) as usize);
        let mid = after(m, a, a.len());
        reveal_with_fuel(after, 5);
        assert(runs(mid, b));
        lemma_scratch_safe(mid, s.after(a), b);
        law_safe_plans_compose(m, s, a, b);
        assert(gemm::gemm_plan(s, step, input_len, output_len) == a + b);
    } else {
        reveal_with_fuel(after, 1);
        assert(gemm::gemm_plan(s, step, input_len, output_len) =~= seq![]);
    }
}

/// Allocating the attention inputs makes them large enough and touches nothing
/// else.
proof fn lemma_attn_inputs(m: Memory, bytes: usize, allocs: Seq<Action>)
    requires
        allocs == seq![
            attention::shared(Buf::AttnQ, bytes as int),
            attention::shared(Buf::AttnK, bytes as int),
            attention::shared(Buf::AttnV, bytes as int),
        ],
    ensures
        after(m, allocs, 3) == m.insert(Buf::AttnQ, bytes as int).insert(
            Buf::AttnK,
            bytes as int,
        ).insert(Buf::AttnV, bytes as int),
{
    assert(after(m, allocs, 0) == m);
    assert(after(m, allocs, 1) == m.insert(Buf::AttnQ, bytes as int));
    assert(after(m, allocs, 2) == m.insert(Buf::AttnQ, bytes as int).insert(
        Buf::AttnK,
        bytes as int,
    ));
}

/// What the attention pool vouches for is there.
proof fn lemma_attn_pool_is_there(m: Memory, s: Residency)
    requires
        covers(m, s),
        s.joint_attn_pool is Some,
    ensures
        m.contains_key(Buf::AttnQ) && s.joint_attn_pool->0.qkv_cap_bytes <= m[Buf::AttnQ],
        m.contains_key(Buf::AttnK) && s.joint_attn_pool->0.qkv_cap_bytes <= m[Buf::AttnK],
        m.contains_key(Buf::AttnV) && s.joint_attn_pool->0.qkv_cap_bytes <= m[Buf::AttnV],
        m.contains_key(Buf::AttnOut) && s.joint_attn_pool->0.out_cap_bytes <= m[Buf::AttnOut],
{
    assert(resident_bytes(s, Buf::AttnQ) is Some);
    assert(resident_bytes(s, Buf::AttnK) is Some);
    assert(resident_bytes(s, Buf::AttnV) is Some);
    assert(resident_bytes(s, Buf::AttnOut) is Some);
}

/// Growing the attention inputs is safe.
proof fn lemma_attn_inputs_are_safe(m: Memory, s: Residency, bytes: usize, plan: Seq<Action>)
    requires
        covers(m, s),
        s.joint_attn_pool is Some,
        plan == (if s.joint_attn_pool->0.qkv_cap_bytes < bytes {
            seq![
                attention::shared(Buf::AttnQ, bytes as int),
                attention::shared(Buf::AttnK, bytes as int),
                attention::shared(Buf::AttnV, bytes as int),
                Action::Keep(Resident::AttnQkv { bytes }),
            ]
        } else {
            seq![]
        }),
    ensures
        safe(m, s, plan),
        s.after(plan).joint_attn_pool matches Some(p) && p.qkv_cap_bytes >= bytes
            && p.out_cap_bytes == s.joint_attn_pool->0.out_cap_bytes,
{
    if s.joint_attn_pool->0.qkv_cap_bytes < bytes {
        let kept = Resident::AttnQkv { bytes };
        let allocs = seq![
            attention::shared(Buf::AttnQ, bytes as int),
            attention::shared(Buf::AttnK, bytes as int),
            attention::shared(Buf::AttnV, bytes as int),
        ];
        assert(plan =~= allocs.push(Action::Keep(kept)));
        lemma_allocs_then_keep(m, s, allocs, kept);
        lemma_attn_inputs(m, bytes, allocs);
        lemma_covers_grown(m, s, after(m, plan, plan.len()), s.after(plan));
    }
}

/// Growing the attention output is safe.
proof fn lemma_attn_output_is_safe(m: Memory, s: Residency, bytes: usize, plan: Seq<Action>)
    requires
        covers(m, s),
        s.joint_attn_pool is Some,
        plan == (if s.joint_attn_pool->0.out_cap_bytes < bytes {
            seq![
                attention::shared(Buf::AttnOut, bytes as int),
                Action::Keep(Resident::AttnOut { bytes }),
            ]
        } else {
            seq![]
        }),
    ensures
        safe(m, s, plan),
        s.after(plan).joint_attn_pool matches Some(p) && p.out_cap_bytes >= bytes
            && p.qkv_cap_bytes == s.joint_attn_pool->0.qkv_cap_bytes,
{
    if s.joint_attn_pool->0.out_cap_bytes < bytes {
        let kept = Resident::AttnOut { bytes };
        let allocs = seq![attention::shared(Buf::AttnOut, bytes as int)];
        assert(plan =~= allocs.push(Action::Keep(kept)));
        lemma_allocs_then_keep(m, s, allocs, kept);
        assert(after(m, allocs, 0) == m);
        assert(after(m, allocs, 1) == m.insert(Buf::AttnOut, bytes as int));
        lemma_covers_grown(m, s, after(m, plan, plan.len()), s.after(plan));
    }
}

/// Growing the attention pool is safe and makes room.
proof fn lemma_attn_pool_is_safe(m: Memory, s: Residency, qkv_bytes: usize, out_bytes: usize)
    requires
        covers(m, s),
    ensures
        ({
            let plan = attention::grow_joint_attn_pool(s, qkv_bytes, out_bytes);
            let now = after(m, plan, plan.len());
            &&& safe(m, s, plan)
            &&& now.contains_key(Buf::AttnQ) && qkv_bytes <= now[Buf::AttnQ]
            &&& now.contains_key(Buf::AttnK) && qkv_bytes <= now[Buf::AttnK]
            &&& now.contains_key(Buf::AttnV) && qkv_bytes <= now[Buf::AttnV]
            &&& now.contains_key(Buf::AttnOut) && out_bytes <= now[Buf::AttnOut]
        }),
{
    let plan = attention::grow_joint_attn_pool(s, qkv_bytes, out_bytes);
    match s.joint_attn_pool {
        None => {
            let inputs = seq![plan[0], plan[1], plan[2]];
            let allocs = inputs.push(plan[3]);
            let kept = Resident::AttnPool { qkv_bytes, out_bytes };
            assert(plan =~= allocs.push(Action::Keep(kept)));
            lemma_allocs_then_keep(m, s, allocs, kept);
            lemma_attn_inputs(m, qkv_bytes, inputs);
            lemma_after_prefix(m, allocs, inputs, 3);
            assert(after(m, allocs, 4) == held(after(m, allocs, 3), allocs[3]));
            lemma_covers_grown(m, s, after(m, plan, plan.len()), s.after(plan));
        },
        Some(p) => {
            let a = if p.qkv_cap_bytes < qkv_bytes {
                plan.take(4)
            } else {
                seq![]
            };
            let b = plan.skip(a.len() as int);
            assert(plan =~= a + b);
            if p.qkv_cap_bytes < qkv_bytes {
                assert(a =~= seq![plan[0], plan[1], plan[2], plan[3]]);
            }
            lemma_attn_inputs_are_safe(m, s, qkv_bytes, a);
            let t = s.after(a);
            if p.out_cap_bytes < out_bytes {
                assert(b =~= seq![b[0], b[1]]);
            } else {
                assert(b =~= seq![]);
            }
            lemma_attn_output_is_safe(after(m, a, a.len()), t, out_bytes, b);
            law_safe_plans_compose(m, s, a, b);
            laws::law_plans_compose(s, a, b);
        },
    }
    lemma_attn_pool_is_there(after(m, plan, plan.len()), s.after(plan));
}

/// Attention through buffers of its own touches only memory that is there.
pub proof fn law_attention_is_safe(m: Memory, s: Residency, a: AttnArgs)
    requires
        covers(m, s),
        0 <= a.need() * 4 <= usize::MAX,
    ensures
        safe(m, s, attention::flash_plan(a)),
{
    let plan = attention::flash_plan(a);
    let allocs = plan.take(4);
    let rest = plan.skip(4);
    assert(plan =~= allocs + rest);
    assert(plan.len() == 10);
    reveal_with_fuel(after, 5);
    assert(runs(m, allocs));
    lemma_scratch_safe(m, s, allocs);
    let now = after(m, allocs, 4);
    lemma_still_runs(now, s.after(allocs), rest);
    law_safe_plans_compose(m, s, allocs, rest);
}

/// Attention through the pool touches only memory that is there, whether in one
/// plan or in its parts.
pub proof fn law_pooled_attention_is_safe(m: Memory, s: Residency, a: AttnArgs)
    requires
        covers(m, s),
        0 <= a.need() * 4 <= usize::MAX,
    ensures
        safe(m, s, attention::prepare_plan(s, a)),
        safe(m, s, attention::pooled_plan(s, a)),
{
    let bytes = (a.need() * 4) as usize;
    let grow = attention::grow_joint_attn_pool(s, bytes, bytes);
    let up = attention::upload_qkv(Buf::AttnQ, Buf::AttnK, Buf::AttnV, a.need() as usize);
    let rest = seq![
        Action::Dispatch(attention::pooled_step(a.num_heads, a.seq, a.head_dim)),
        Action::Commit,
        Action::Download { buf: Buf::AttnOut, floats: a.need() as usize },
    ];
    lemma_attn_pool_is_safe(m, s, bytes, bytes);
    let mid = after(m, grow, grow.len());
    reveal_with_fuel(after, 4);
    assert(runs(mid, up));
    lemma_scratch_safe(mid, s.after(grow), up);
    law_safe_plans_compose(m, s, grow, up);
    let prepared = grow + up;
    lemma_after_concat(m, grow, up, up.len());
    let ready = after(m, prepared, prepared.len());
    assert(ready == mid);
    assert(runs(ready, rest));
    lemma_scratch_safe(ready, s.after(prepared), rest);
    law_safe_plans_compose(m, s, prepared, rest);
}

/// A launch or a download on the resident attention operands touches only memory
/// that is there.
pub proof fn law_resident_attention_is_safe(
    m: Memory,
    s: Residency,
    caps: AttnCaps,
    num_heads: usize,
    seq: usize,
    head_dim: usize,
    out_len: usize,
)
    requires
        covers(m, s),
    ensures
        attention::resident_fault(s, caps, num_heads, seq, head_dim) is None ==> safe(
            m,
            s,
            seq![
                Action::Dispatch(attention::pooled_step(num_heads, seq, head_dim)),
                Action::Commit,
            ],
        ),
        attention::download_fault(s, out_len) is None ==> safe(
            m,
            s,
            seq![Action::Download { buf: Buf::AttnOut, floats: out_len }],
        ),
{
    reveal_with_fuel(after, 3);
    if s.joint_attn_pool is Some {
        assert(resident_bytes(s, Buf::AttnQ) is Some);
        assert(resident_bytes(s, Buf::AttnK) is Some);
        assert(resident_bytes(s, Buf::AttnV) is Some);
        assert(resident_bytes(s, Buf::AttnOut) is Some);
        let launch = seq![
            Action::Dispatch(attention::pooled_step(num_heads, seq, head_dim)),
            Action::Commit,
        ];
        assert(runs(m, launch));
        lemma_scratch_safe(m, s, launch);
        let download = seq![Action::Download { buf: Buf::AttnOut, floats: out_len }];
        if attention::download_fault(s, out_len) is None {
            assert(runs(m, download));
            lemma_scratch_safe(m, s, download);
        }
    }
}

/// SiLU of a plane touches only memory that is there.
pub proof fn law_silu_is_safe(m: Memory, s: Residency, x_len: usize)
    requires
        covers(m, s),
        x_len * 4 <= usize::MAX,
    ensures
        safe(m, s, vae::silu_plan(x_len)),
{
    let plan = vae::silu_plan(x_len);
    reveal_with_fuel(after, 6);
    assert(runs(m, plan));
    lemma_scratch_safe(m, s, plan);
}

/// A group norm touches only memory that is there.
pub proof fn law_groupnorm_is_safe(
    m: Memory,
    s: Residency,
    x_len: usize,
    channels: usize,
    hw: usize,
    num_groups: usize,
    eps: u32,
)
    requires
        covers(m, s),
        x_len * 4 <= usize::MAX,
        vae::groupnorm_fault(x_len, channels, channels, channels, hw, num_groups) is None,
    ensures
        safe(m, s, vae::groupnorm_plan(x_len, channels, hw, num_groups, eps)),
{
    let plan = vae::groupnorm_plan(x_len, channels, hw, num_groups, eps);
    if x_len > 0 {
        assert(channels <= x_len) by (nonlinear_arith)
            requires
                x_len == channels * hw,
                x_len > 0,
                channels >= 0,
                hw >= 0,
        ;
        let allocs = plan.take(3);
        let rest = plan.skip(3);
        assert(plan =~= allocs + rest);
        reveal_with_fuel(after, 4);
        assert(runs(m, allocs));
        lemma_scratch_safe(m, s, allocs);
        let now = after(m, allocs, 3);
        lemma_still_runs(now, s.after(allocs), rest);
        law_safe_plans_compose(m, s, allocs, rest);
    } else {
        assert(plan =~= seq![]);
        assert(safe(m, s, plan));
    }
}

/// An upsampling touches only memory that is there.
pub proof fn law_upsampling_is_safe(
    m: Memory,
    s: Residency,
    input_len: usize,
    output_len: usize,
    c: usize,
    h: usize,
    w: usize,
)
    requires
        covers(m, s),
        vae::upsample_fault(input_len, output_len, c, h, w) is None,
        output_len * 4 <= usize::MAX,
    ensures
        safe(m, s, vae::upsample_plan(input_len, output_len, c, h, w)),
{
    let plan = vae::upsample_plan(input_len, output_len, c, h, w);
    reveal_with_fuel(after, 7);
    assert(runs(m, plan));
    lemma_scratch_safe(m, s, plan);
}

/// A launch of the decode FFN uses weights and the FFN's buffers.
proof fn lemma_ffn_launch_is_allowed(m: Memory, args: FfnArgs, i: int)
    requires
        0 <= i < 6,
        forall|b: FfnBuf| #[trigger] m.contains_key(Buf::Ffn(b)),
    ensures
        allowed(m, Action::Dispatch(args.steps()[i])),
{
    let step = args.steps()[i];
    assert forall|j: int| 0 <= j < uses(step).len() implies there(m, #[trigger] uses(step)[j]) by {
        assert(uses(step)[j] is Weight || uses(step)[j] is Ffn);
        if uses(step)[j] is Ffn {
            assert(m.contains_key(Buf::Ffn(uses(step)[j]->Ffn_0)));
        }
    }
}

/// The decode FFN touches only memory that is there, and leaves its buffers
/// resident.
pub proof fn law_ffn_is_safe(m: Memory, s: Residency, args: FfnArgs)
    requires
        covers(m, s),
        args.fault(s) is None,
        args.needs_set(s) ==> args.set().sizes_fit(),
    ensures
        safe(m, s, args.plan(s)),
{
    let a = args.acquire(s);
    let h = args.hidden_size;
    let uploads = seq![
        Action::Upload { buf: Buf::Ffn(FfnBuf::Hidden), floats: h },
        Action::Upload { buf: Buf::Ffn(FfnBuf::AttnOut), floats: h },
        Action::Upload { buf: Buf::Ffn(FfnBuf::NormWeight), floats: h },
    ];
    let launches = args.steps().map_values(|s: Step| Action::Dispatch(s));
    let rest = seq![
        Action::Commit,
        Action::Download { buf: Buf::Ffn(FfnBuf::Hidden), floats: h },
    ];
    reveal_with_fuel(after, 9);
    if args.needs_set(s) {
        lemma_allocs_then_keep(m, s, args.set().allocs(), Resident::Ffn(args.set()));
        lemma_covers_grown(m, s, after(m, a, a.len()), s.after(a));
    }
    let mid = after(m, a, a.len());
    let t = s.after(a);
    assert(t.buffers == Some(args.set()));
    assert(covers(mid, t));
    assert forall|b: FfnBuf| #[trigger] mid.contains_key(Buf::Ffn(b)) && args.set().bytes(b)
        <= mid[Buf::Ffn(b)] by {
        assert(resident_bytes(t, Buf::Ffn(b)) is Some);
    }
    let tail = uploads + launches + rest;
    assert(args.plan(s) =~= a + tail);
    assert forall|i: int| 0 <= i < tail.len() implies allowed(mid, #[trigger] tail[i]) && !(tail[i]
        is Alloc) && !(tail[i] is AcquireKv) && !(tail[i] is Keep) by {
        if i < 3 {
            assert(tail[i] == uploads[i]);
            assert(mid.contains_key(Buf::Ffn(FfnBuf::Hidden)));
            assert(mid.contains_key(Buf::Ffn(FfnBuf::AttnOut)));
            assert(mid.contains_key(Buf::Ffn(FfnBuf::NormWeight)));
        } else if i < 9 {
            assert(tail[i] == launches[i - 3]);
            assert(tail[i] == Action::Dispatch(args.steps()[i - 3]));
            lemma_ffn_launch_is_allowed(mid, args, i - 3);
        } else {
            assert(tail[i] == rest[i - 9]);
            assert(mid.contains_key(Buf::Ffn(FfnBuf::Hidden)));
        }
    }
    lemma_still_runs(mid, t, tail);
    law_safe_plans_compose(m, s, a, tail);
}

/// The plan changes no memory.
pub open spec fn still(plan: Seq<Action>) -> bool {
    forall|i: int|
        0 <= i < plan.len() ==> !((#[trigger] plan[i]) is Alloc) && !(plan[i] is AcquireKv)
}

/// Memory stays as it is.
proof fn lemma_still(m: Memory, plan: Seq<Action>, n: nat)
    requires
        still(plan),
        n <= plan.len(),
    ensures
        after(m, plan, n) == m,
    decreases n,
{
    if n > 0 {
        lemma_still(m, plan, (n - 1) as nat);
    }
}

/// A plan that changes no memory, keeps nothing, and touches only what is there
/// at first, is safe.
pub proof fn lemma_still_runs(m: Memory, s: Residency, plan: Seq<Action>)
    requires
        covers(m, s),
        still(plan),
        laws::keeps_nothing(plan),
        forall|i: int| 0 <= i < plan.len() ==> allowed(m, #[trigger] plan[i]),
    ensures
        safe(m, s, plan),
        after(m, plan, plan.len()) == m,
{
    lemma_still(m, plan, plan.len());
    assert forall|i: int| 0 <= i < plan.len() implies allowed(
        after(m, plan, i as nat),
        #[trigger] plan[i],
    ) by {
        lemma_still(m, plan, i as nat);
    }
    lemma_scratch_safe(m, s, plan);
}

/// A convolution that gathers its patches on the fly touches only memory that is
/// there.
pub proof fn law_implicit_convolution_is_safe(
    m: Memory,
    s: Residency,
    weight: MetalWeightHandle,
    input_len: usize,
    g: ConvGeometry,
)
    requires
        covers(m, s),
        g.wf(),
        input_len * 4 <= usize::MAX,
    ensures
        safe(m, s, g.implicit_plan(weight, input_len)),
{
    let plan = g.implicit_plan(weight, input_len);
    assert(0 <= g.c_out * g.spatial <= usize::MAX) by (nonlinear_arith)
        requires
            g.c_out * g.spatial * 4 <= usize::MAX,
            g.c_out >= 0,
            g.spatial >= 0,
    ;
    reveal_with_fuel(after, 8);
    assert(runs(m, plan));
    lemma_scratch_safe(m, s, plan);
}

/// The tiles of a convolution touch only the input, one tile of patches and one
/// tile of output.
proof fn lemma_tiles_are_allowed(m: Memory, weight: MetalWeightHandle, g: ConvGeometry, n: nat)
    requires
        g.wf(),
        n <= g.tile_count(),
        m.contains_key(Buf::Scratch(ScratchBuf::Input)),
        m.contains_key(Buf::Scratch(ScratchBuf::Patches)),
        holds(m, Buf::Scratch(ScratchBuf::Output), g.tile_rows() * g.c_out),
    ensures
        still(g.tiles(weight, n)),
        laws::keeps_nothing(g.tiles(weight, n)),
        forall|i: int|
            0 <= i < g.tiles(weight, n).len() ==> allowed(m, #[trigger] g.tiles(weight, n)[i]),
    decreases n,
{
    if n > 0 {
        lemma_tiles_are_allowed(m, weight, g, (n - 1) as nat);
        let before = g.tiles(weight, (n - 1) as nat);
        let tile = g.tile(weight, n - 1);
        let all = g.tiles(weight, n);
        vae::lemma_tile_rows(g);
        vae::lemma_tile_bounds(g, n - 1);
        let rows = g.tile_len(n - 1);
        assert(0 <= rows * g.c_out <= g.tile_rows() * g.c_out && g.tile_rows() * g.c_out
            <= g.c_out * g.spatial) by (nonlinear_arith)
            requires
                0 <= rows <= g.tile_rows(),
                g.tile_rows() <= g.spatial,
                g.c_out >= 0,
        ;
        assert(all == before + tile);
        assert forall|i: int| 0 <= i < all.len() implies allowed(m, #[trigger] all[i]) && !(all[i]
            is Alloc) && !(all[i] is AcquireKv) && !(all[i] is Keep) by {
            if i < before.len() {
                assert(all[i] == before[i]);
            } else {
                assert(all[i] == tile[i - before.len()]);
            }
        }
    }
}

/// A convolution that materialises its patches touches only memory that is
/// there.
pub proof fn law_tiled_convolution_is_safe(
    m: Memory,
    s: Residency,
    weight: MetalWeightHandle,
    input_len: usize,
    g: ConvGeometry,
)
    requires
        covers(m, s),
        g.wf(),
        input_len * 4 <= usize::MAX,
    ensures
        safe(m, s, g.im2col_plan(weight, input_len)),
{
    let plan = g.im2col_plan(weight, input_len);
    let tiles = g.tiles(weight, g.tile_count() as nat);
    let head = plan.take(4);
    let bias = seq![Action::AddBias { channels: g.c_out, spatial: g.spatial }];
    let rest = tiles + bias;
    vae::lemma_tile_rows(g);
    assert(0 <= g.tile_rows() * g.c_out * 4 <= usize::MAX) by (nonlinear_arith)
        requires
            1 <= g.tile_rows() <= g.spatial,
            g.c_out * g.spatial * 4 <= usize::MAX,
            g.c_out >= 0,
    ;
    assert(plan =~= head + rest);
    reveal_with_fuel(after, 5);
    assert(runs(m, head));
    lemma_scratch_safe(m, s, head);
    let now = after(m, head, 4);
    assert(g.tile_count() >= 0) by (nonlinear_arith)
        requires
            g.tile_count() == (g.spatial - 1) / g.tile_rows() + 1,
            g.spatial > 0,
            g.tile_rows() >= 1,
    ;
    lemma_tiles_are_allowed(now, weight, g, g.tile_count() as nat);
    assert forall|i: int| 0 <= i < rest.len() implies allowed(now, #[trigger] rest[i]) && !(rest[i]
        is Alloc) && !(rest[i] is AcquireKv) && !(rest[i] is Keep) by {
        if i < tiles.len() {
            assert(rest[i] == tiles[i]);
        } else {
            assert(rest[i] == bias[0]);
        }
    }
    lemma_still_runs(now, s.after(head), rest);
    law_safe_plans_compose(m, s, head, rest);
}

} // verus!

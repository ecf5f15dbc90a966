//! Memory that the batch prefill touches.

use vstd::prelude::*;

use crate::gpu_backend::metal_graph::device::{Action, Buf, PrefillBuf, Resident, Step};
use crate::gpu_backend::metal_graph::graph::Residency;
use crate::gpu_backend::metal_graph::laws;
use crate::gpu_backend::metal_graph::memory;
use crate::gpu_backend::metal_graph::memory::Memory;
use crate::gpu_backend::metal_prefill::forward;
use crate::gpu_backend::metal_prefill::functions;
use crate::gpu_backend::metal_prefill::types::{
    LayerConfig, LayerWeightRefs, PrefillArgs, PrefillBuffers,
};

verus! {

/// The prefill's buffers and the KV cache are on the device.
pub open spec fn ready(m: Memory) -> bool {
    &&& forall|b: PrefillBuf| #[trigger] m.contains_key(Buf::Prefill(b))
    &&& m.contains_key(Buf::KCache)
    &&& m.contains_key(Buf::VCache)
}

/// Plans never take a buffer away.
proof fn lemma_buffers_stay(m: Memory, plan: Seq<Action>, n: nat, b: Buf)
    requires
        m.contains_key(b),
        n <= plan.len(),
    ensures
        memory::after(m, plan, n).contains_key(b),
    decreases n,
{
    if n > 0 {
        lemma_buffers_stay(m, plan, (n - 1) as nat, b);
    }
}

/// What is ready stays ready.
proof fn lemma_stays_ready(m: Memory, plan: Seq<Action>, n: nat)
    requires
        ready(m),
        n <= plan.len(),
    ensures
        ready(memory::after(m, plan, n)),
{
    let now = memory::after(m, plan, n);
    assert forall|b: PrefillBuf| #[trigger] now.contains_key(Buf::Prefill(b)) by {
        assert(m.contains_key(Buf::Prefill(b)));
        lemma_buffers_stay(m, plan, n, Buf::Prefill(b));
    }
    lemma_buffers_stay(m, plan, n, Buf::KCache);
    lemma_buffers_stay(m, plan, n, Buf::VCache);
}

/// A launch on weights, prefill buffers and the KV cache.
pub open spec fn on_prefill(step: Step) -> bool {
    forall|i: int|
        0 <= i < memory::uses(step).len() ==> {
            let b = #[trigger] memory::uses(step)[i];
            b is Weight || b is Prefill || b is KCache || b is VCache
        }
}

/// Such a launch touches only what is ready.
proof fn lemma_on_prefill_is_allowed(m: Memory, step: Step)
    requires
        ready(m),
        on_prefill(step),
    ensures
        memory::allowed(m, Action::Dispatch(step)),
{
    assert forall|i: int| 0 <= i < memory::uses(step).len() implies memory::there(
        m,
        #[trigger] memory::uses(step)[i],
    ) by {
        let b = memory::uses(step)[i];
        if b is Prefill {
            assert(m.contains_key(Buf::Prefill(b->Prefill_0)));
        }
    }
}

/// The plan only launches on weights, prefill buffers and the KV cache.
pub open spec fn launches_on_prefill(plan: Seq<Action>) -> bool {
    forall|i: int|
        0 <= i < plan.len() ==> match #[trigger] plan[i] {
            Action::Dispatch(step) => on_prefill(step),
            _ => false,
        }
}

/// Such a plan is safe where everything is ready.
proof fn lemma_launches_are_safe(m: Memory, s: Residency, plan: Seq<Action>)
    requires
        ready(m),
        memory::covers(m, s),
        launches_on_prefill(plan),
    ensures
        memory::safe(m, s, plan),
        memory::after(m, plan, plan.len()) == m,
{
    assert forall|i: int| 0 <= i < plan.len() implies memory::allowed(m, #[trigger] plan[i])
        && plan[i] is Dispatch by {
        let step = plan[i]->Dispatch_0;
        assert(on_prefill(step));
        lemma_on_prefill_is_allowed(m, step);
    }
    memory::lemma_still_runs(m, s, plan);
}

/// Attention launches on prefill buffers and the KV cache.
proof fn lemma_tokens_launch(
    w: LayerWeightRefs,
    layer: usize,
    n: nat,
    pos_start: int,
    c: LayerConfig,
)
    ensures
        launches_on_prefill(functions::tokens_attention(w, layer, n, pos_start, c)),
    decreases n,
{
    if n > 0 {
        lemma_tokens_launch(w, layer, (n - 1) as nat, pos_start, c);
        let head = functions::tokens_attention(w, layer, (n - 1) as nat, pos_start, c);
        let token = functions::token_attention(w, layer, n - 1, pos_start, c);
        let whole = functions::tokens_attention(w, layer, n, pos_start, c);
        assert forall|i: int| 0 <= i < whole.len() implies match #[trigger] whole[i] {
            Action::Dispatch(step) => on_prefill(step),
            _ => false,
        } by {
            if i < head.len() {
                assert(whole[i] == head[i]);
            } else {
                assert(whole[i] == token[i - head.len()]);
            }
        }
    }
}

/// A layer launches on prefill buffers and the KV cache.
proof fn lemma_layer_launches(w: LayerWeightRefs, layer: usize, a: PrefillArgs, ternary: bool)
    ensures
        launches_on_prefill(
            if ternary {
                functions::layer_prefill_ternary(w, layer, a.batch_size, a.pos_start, a.config)
            } else {
                functions::layer_prefill(w, layer, a.batch_size, a.pos_start, a.config)
            },
        ),
{
    let tokens = functions::tokens_attention(
        w,
        layer,
        a.batch_size as nat,
        a.pos_start as int,
        a.config,
    );
    lemma_tokens_launch(w, layer, a.batch_size as nat, a.pos_start as int, a.config);
    let plan = if ternary {
        functions::layer_prefill_ternary(w, layer, a.batch_size, a.pos_start, a.config)
    } else {
        functions::layer_prefill(w, layer, a.batch_size, a.pos_start, a.config)
    };
    assert forall|i: int| 0 <= i < plan.len() implies match #[trigger] plan[i] {
        Action::Dispatch(step) => on_prefill(step),
        _ => false,
    } by {
        if 2 <= i < 2 + tokens.len() {
            assert(plan[i] == tokens[i - 2]);
        }
    }
}

/// The layers launch on prefill buffers and the KV cache.
proof fn lemma_layers_launch(
    weights: Seq<LayerWeightRefs>,
    n: nat,
    a: PrefillArgs,
    ternary: bool,
)
    ensures
        launches_on_prefill(forward::layers_prefill(weights, n, a, ternary)),
    decreases n,
{
    if n > 0 {
        let i = (n - 1) as nat;
        lemma_layers_launch(weights, i, a, ternary);
        lemma_layer_launches(weights[i as int], i as usize, a, ternary);
        let head = forward::layers_prefill(weights, i, a, ternary);
        let whole = forward::layers_prefill(weights, n, a, ternary);
        assert forall|j: int| 0 <= j < whole.len() implies match #[trigger] whole[j] {
            Action::Dispatch(step) => on_prefill(step),
            _ => false,
        } by {
            if j < head.len() {
                assert(whole[j] == head[j]);
            }
        }
    }
}

/// No length in the set overflows once it is known to have no empty buffer.
proof fn lemma_lens_fit(set: PrefillBuffers, i: int)
    requires
        set.sizes_fit(),
        set.fault() is None,
        0 <= i < set.lens().len(),
    ensures
        0 < set.lens()[i].1,
        set.lens()[i].1 * 4 <= usize::MAX,
        set.lens()[i].1 * 4 == set.bytes(set.lens()[i].0),
{
    let b = set.batch_size as int;
    let h = set.hidden_size as int;
    let q = set.nq * set.head_dim;
    let kv = set.nkv * set.head_dim;
    let inter = set.intermediate_size as int;
    let half = set.head_dim as int / 2;
    let ghost lens = set.lens();
    assert(lens[0].1 != 0 && lens[3].1 != 0 && lens[4].1 != 0 && lens[7].1 != 0);
    assert(lens[2].1 != 0 && lens[10].1 != 0 && lens[11].1 != 0);
    assert(q >= 0 && kv >= 0 && b * h >= 0 && b * q >= 0 && set.nq * set.max_seq >= 0 && b * half
        >= 0 && b * inter >= 0) by (nonlinear_arith)
        requires
            q == set.nq * set.head_dim,
            kv == set.nkv * set.head_dim,
            b >= 0,
            h >= 0,
            inter >= 0,
            half >= 0,
            set.nq >= 0,
            set.nkv >= 0,
            set.head_dim >= 0,
            set.max_seq >= 0,
            set.nq * set.head_dim >= 0 ==> b * (set.nq * set.head_dim) >= 0,
    ;
    assert(2 * set.nkv * set.head_dim == 2 * kv) by (nonlinear_arith)
        requires
            kv == set.nkv * set.head_dim,
    ;
    let d = set.qkv_dim();
    assert(d == q + 2 * kv);
    assert(inter > 0 && set.nkv > 0) by (nonlinear_arith)
        requires
            b * inter != 0,
            set.nkv * set.head_dim != 0,
            inter >= 0,
            set.nkv >= 0,
    ;
    assert(b > 0) by (nonlinear_arith)
        requires
            b * h != 0,
            b >= 0,
    ;
    assert(b * q <= b * d && q <= b * q && kv <= b * d && d <= b * d) by (nonlinear_arith)
        requires
            b > 0,
            0 <= q <= d,
            0 <= kv <= d,
    ;
    assert(b * (2 * inter) == 2 * (b * inter)) by (nonlinear_arith);
    assert(half <= q) by (nonlinear_arith)
        requires
            q == set.nq * set.head_dim,
            half == set.head_dim as int / 2,
            q != 0,
            set.nq >= 0,
            set.head_dim >= 0,
    ;
    assert(b * half <= b * q) by (nonlinear_arith)
        requires
            b > 0,
            half <= q,
    ;
}

/// Once `n` buffers of the set have been allocated, they have their bytes, and
/// all others are as they were.
proof fn lemma_set_is_allocated(m: Memory, set: PrefillBuffers, n: nat)
    requires
        set.sizes_fit(),
        set.fault() is None,
        n <= 13,
    ensures
        forall|i: int|
            0 <= i < n ==> memory::after(m, set.allocs(), n).contains_key(
                Buf::Prefill((#[trigger] set.lens()[i]).0),
            ),
        forall|i: int|
            0 <= i < n ==> memory::after(m, set.allocs(), n)[Buf::Prefill(
                (#[trigger] set.lens()[i]).0,
            )] == set.bytes(set.lens()[i].0),
        forall|b: Buf|
            !(b is Prefill) ==> memory::after(m, set.allocs(), n).contains_key(b)
                == #[trigger] m.contains_key(b),
        forall|b: Buf|
            !(b is Prefill) ==> memory::after(m, set.allocs(), n)[b] == #[trigger] m[b],
    decreases n,
{
    if n > 0 {
        let k = (n - 1) as nat;
        lemma_set_is_allocated(m, set, k);
        lemma_lens_fit(set, k as int);
        let lens = set.lens();
        let before = memory::after(m, set.allocs(), k);
        let now = memory::after(m, set.allocs(), n);
        let last = Buf::Prefill(lens[k as int].0);
        assert(now == before.insert(last, set.bytes(lens[k as int].0)));
        assert forall|i: int| 0 <= i < n implies now.contains_key(
            Buf::Prefill((#[trigger] set.lens()[i]).0),
        ) && now[Buf::Prefill(set.lens()[i].0)] == set.bytes(set.lens()[i].0) by {
            if i < k {
                assert(lens[i].0 != lens[k as int].0);
            }
        }
    }
}

/// Every prefill buffer is in the set.
proof fn lemma_set_is_complete(set: PrefillBuffers, b: PrefillBuf) -> (i: int)
    ensures
        0 <= i < 13,
        set.lens()[i].0 == b,
{
    match b {
        PrefillBuf::Hidden => 0,
        PrefillBuf::Normed => 1,
        PrefillBuf::Qkv => 2,
        PrefillBuf::AttnOut => 3,
        PrefillBuf::Swiglu => 4,
        PrefillBuf::GateUp => 5,
        PrefillBuf::QNormed => 6,
        PrefillBuf::KNormed => 7,
        PrefillBuf::QRope => 8,
        PrefillBuf::KRope => 9,
        PrefillBuf::Scores => 10,
        PrefillBuf::Cos => 11,
        PrefillBuf::Sin => 12,
    }
}

/// Allocating the set is safe and makes it resident.
proof fn lemma_set_is_safe(m: Memory, s: Residency, set: PrefillBuffers)
    requires
        memory::covers(m, s),
        set.sizes_fit(),
        set.fault() is None,
    ensures
        ({
            let plan = set.allocs().push(Action::Keep(Resident::Prefill(set)));
            &&& memory::safe(m, s, plan)
            &&& s.after(plan) == s.with(Resident::Prefill(set))
        }),
{
    let allocs = set.allocs();
    let kept = Resident::Prefill(set);
    let plan = allocs.push(Action::Keep(kept));
    memory::lemma_allocs_then_keep(m, s, allocs, kept);
    lemma_set_is_allocated(m, set, 13);
    let now = memory::after(m, plan, plan.len());
    let t = s.after(plan);
    assert forall|b: Buf| (#[trigger] memory::resident_bytes(t, b)) is Some implies {
        ||| now.contains_key(b) && memory::resident_bytes(t, b)->0 <= now[b]
        ||| memory::resident_bytes(s, b) == memory::resident_bytes(t, b) && now.contains_key(b)
            == m.contains_key(b) && now[b] == m[b]
    } by {
        if b is Prefill {
            let i = lemma_set_is_complete(set, b->Prefill_0);
            assert(Buf::Prefill(set.lens()[i].0) == b);
        }
    }
    memory::lemma_covers_grown(m, s, now, t);
}

/// The prologue is safe, and everything is ready after it.
proof fn lemma_prologue_is_safe(m: Memory, s: Residency, a: PrefillArgs)
    requires
        memory::covers(m, s),
        a.needs_set(s) ==> a.set().sizes_fit() && a.set().fault() is None,
        a.hidden_need() <= usize::MAX,
        a.rope_need() <= usize::MAX,
    ensures
        ({
            let plan = a.prologue(s);
            &&& memory::safe(m, s, plan)
            &&& ready(memory::after(m, plan, plan.len()))
            &&& s.after(plan) == (if a.needs_set(s) {
                s.with(Resident::Prefill(a.set()))
            } else {
                s
            })
        }),
{
    let set = a.set();
    let plan = a.prologue(s);
    let head = if a.needs_set(s) {
        set.allocs().push(Action::Keep(Resident::Prefill(set)))
    } else {
        seq![]
    };
    let at = head.len() as int;
    let rest = seq![plan[at], plan[at + 1], plan[at + 2], plan[at + 3]];
    assert(plan =~= head + rest);
    if a.needs_set(s) {
        lemma_set_is_safe(m, s, set);
    }
    let mid = memory::after(m, head, head.len());
    let t = s.after(head);
    assert(t.prefill_buffers == Some(set));
    let kv = memory::held(mid, rest[0]);
    assert forall|b: PrefillBuf| #[trigger] kv.contains_key(Buf::Prefill(b)) && set.bytes(b)
        <= kv[Buf::Prefill(b)] by {
        assert(memory::resident_bytes(t, Buf::Prefill(b)) is Some);
    }
    assert(a.hidden_need() >= 0 && a.rope_need() >= 0) by (nonlinear_arith)
        requires
            a.hidden_need() == a.batch_size * a.config.hidden_size,
            a.rope_need() == a.batch_size * (a.config.head_dim / 2),
    ;
    assert(kv.contains_key(Buf::Prefill(PrefillBuf::Hidden)));
    assert(kv.contains_key(Buf::Prefill(PrefillBuf::Cos)));
    assert(kv.contains_key(Buf::Prefill(PrefillBuf::Sin)));
    assert(memory::after(mid, rest, 0) == mid);
    assert(memory::after(mid, rest, 1) == kv);
    assert(memory::after(mid, rest, 2) == kv);
    assert(memory::after(mid, rest, 3) == kv);
    assert(memory::after(mid, rest, 4) == kv);
    assert(memory::runs(mid, rest));
    laws::law_no_keep_no_change(t, rest);
    assert forall|b: Buf| (#[trigger] memory::resident_bytes(t, b)) is Some implies {
        ||| kv.contains_key(b) && memory::resident_bytes(t, b)->0 <= kv[b]
        ||| memory::resident_bytes(t, b) == memory::resident_bytes(t, b) && kv.contains_key(b)
            == mid.contains_key(b) && kv[b] == mid[b]
    } by {
    }
    memory::lemma_covers_grown(mid, t, kv, t);
    memory::law_safe_plans_compose(m, s, head, rest);
    memory::lemma_after_concat(m, head, rest, 4);
    laws::law_plans_compose(s, head, rest);
}

/// Growing the logits is safe and makes room.
proof fn lemma_logits_are_safe(m: Memory, s: Residency, needed: u64)
    requires
        memory::covers(m, s),
    ensures
        ({
            let plan = forward::grow_logits(s, needed);
            let now = memory::after(m, plan, plan.len());
            &&& memory::safe(m, s, plan)
            &&& now.contains_key(Buf::Logits) && needed <= now[Buf::Logits]
            &&& s.after(plan) == (Residency { logits_bytes: s.after(plan).logits_bytes, ..s })
        }),
{
    let plan = forward::grow_logits(s, needed);
    if s.logits_bytes is None || s.logits_bytes->0 < needed {
        let kept = Resident::Logits { byte_len: needed };
        let allocs = seq![plan[0]];
        assert(plan =~= allocs.push(Action::Keep(kept)));
        memory::lemma_allocs_then_keep(m, s, allocs, kept);
        assert(memory::after(m, allocs, 0) == m);
        assert(memory::after(m, allocs, 1) == m.insert(Buf::Logits, needed as int));
        memory::lemma_covers_grown(
            m,
            s,
            memory::after(m, plan, plan.len()),
            s.after(plan),
        );
    } else {
        assert(plan =~= seq![]);
        assert(memory::resident_bytes(s, Buf::Logits) is Some);
    }
}

/// Growing the token ids is safe and makes room.
proof fn lemma_token_ids_are_safe(m: Memory, s: Residency, needed: u64)
    requires
        memory::covers(m, s),
    ensures
        ({
            let plan = forward::grow_token_ids(s, needed);
            let now = memory::after(m, plan, plan.len());
            &&& memory::safe(m, s, plan)
            &&& now.contains_key(Buf::TokenId) && needed <= now[Buf::TokenId]
            &&& m.contains_key(Buf::Logits) ==> now.contains_key(Buf::Logits)
        }),
{
    let plan = forward::grow_token_ids(s, needed);
    if s.token_id_bytes is None || s.token_id_bytes->0 < needed {
        let kept = Resident::TokenId { byte_len: needed };
        let allocs = seq![plan[0]];
        assert(plan =~= allocs.push(Action::Keep(kept)));
        memory::lemma_allocs_then_keep(m, s, allocs, kept);
        assert(memory::after(m, allocs, 0) == m);
        assert(memory::after(m, allocs, 1) == m.insert(Buf::TokenId, needed as int));
        memory::lemma_covers_grown(
            m,
            s,
            memory::after(m, plan, plan.len()),
            s.after(plan),
        );
    } else {
        assert(plan =~= seq![]);
        assert(memory::resident_bytes(s, Buf::TokenId) is Some);
    }
}

/// The final norm and room for the logits: safe, and what is there after them.
proof fn lemma_norm_and_logits(m: Memory, s: Residency, norm: Seq<Action>, needed: u64) -> (r: (
    Memory,
    Residency,
))
    requires
        ready(m),
        memory::covers(m, s),
        launches_on_prefill(norm),
    ensures
        ({
            let plan = norm + forward::grow_logits(s, needed);
            &&& memory::safe(m, s, plan)
            &&& r.0 == memory::after(m, plan, plan.len())
            &&& r.1 == s.after(plan)
            &&& ready(r.0)
            &&& memory::covers(r.0, r.1)
            &&& r.0.contains_key(Buf::Logits) && needed <= r.0[Buf::Logits]
            &&& r.1.token_id_bytes == s.token_id_bytes
        }),
{
    let logits = forward::grow_logits(s, needed);
    let plan = norm + logits;
    lemma_launches_are_safe(m, s, norm);
    laws::law_no_keep_no_change(s, norm);
    lemma_logits_are_safe(m, s, needed);
    memory::law_safe_plans_compose(m, s, norm, logits);
    memory::lemma_after_concat(m, norm, logits, logits.len());
    laws::law_plans_compose(s, norm, logits);
    lemma_stays_ready(m, plan, plan.len());
    (memory::after(m, plan, plan.len()), s.after(plan))
}

/// The tail after the layers is safe, for the last token.
proof fn lemma_last_token_tail_is_safe(
    m: Memory,
    s: Residency,
    a: PrefillArgs,
    ternary: bool,
    want_logits: bool,
    want_token: bool,
)
    requires
        ready(m),
        memory::covers(m, s),
        a.has_head() ==> a.lm_head_out_features * 4 <= usize::MAX,
    ensures
        memory::safe(m, s, a.last_token_tail(s, ternary, want_logits, want_token)),
{
    let plan = a.last_token_tail(s, ternary, want_logits, want_token);
    if !a.has_head() {
        memory::lemma_still_runs(m, s, plan);
        return ;
    }
    let needed = (a.lm_head_out_features * 4) as u64;
    let norm = seq![a.last_token_norm()];
    let first = norm + forward::grow_logits(s, needed);
    let (m1, s1) = lemma_norm_and_logits(m, s, norm, needed);
    let head = seq![a.last_token_head(ternary)];
    let step = head[0]->Dispatch_0;
    assert(m1.contains_key(Buf::Prefill(PrefillBuf::Normed)));
    assert(memory::allowed(m1, head[0]));
    memory::lemma_still_runs(m1, s1, head);
    memory::law_safe_plans_compose(m, s, first, head);
    let second = first + head;
    memory::lemma_after_concat(m, first, head, head.len());
    laws::law_plans_compose(s, first, head);
    laws::law_no_keep_no_change(s1, head);
    if want_token {
        let ids = forward::grow_token_ids(s, 4);
        assert(ids == forward::grow_token_ids(s1, 4));
        lemma_token_ids_are_safe(m1, s1, 4);
        memory::law_safe_plans_compose(m, s, second, ids);
        let third = second + ids;
        memory::lemma_after_concat(m, second, ids, ids.len());
        let m2 = memory::after(m, third, third.len());
        let rest = seq![
            Action::Dispatch(
                Step::Argmax {
                    logits: Buf::Logits,
                    token: Buf::TokenId,
                    n: a.lm_head_out_features as u32,
                },
            ),
            Action::Commit,
            Action::ReadToken,
        ];
        memory::lemma_still_runs(m2, s.after(third), rest);
        memory::law_safe_plans_compose(m, s, third, rest);
        assert(plan =~= third + rest);
    } else {
        let rest = if want_logits {
            seq![
                Action::Commit,
                Action::Download { buf: Buf::Logits, floats: a.lm_head_out_features },
            ]
        } else {
            seq![Action::Commit]
        };
        memory::lemma_still_runs(m1, s1, rest);
        memory::law_safe_plans_compose(m, s, second, rest);
        assert(plan =~= second + rest);
    }
}

/// A forward pass over a batch touches only memory that is there, and leaves its
/// buffers resident.
pub proof fn law_prefill_is_safe(
    m: Memory,
    s: Residency,
    weights: Seq<LayerWeightRefs>,
    a: PrefillArgs,
    ternary: bool,
    want_logits: bool,
    want_token: bool,
)
    requires
        memory::covers(m, s),
        a.no_overflow(s, weights.len(), 1, ternary),
        a.fault(s, weights.len()) is None,
    ensures
        memory::safe(
            m,
            s,
            a.prologue(s) + forward::layers_prefill(weights, a.n_layers as nat, a, ternary)
                + a.last_token_tail(s, ternary, want_logits, want_token),
        ),
{
    let tail = a.last_token_tail(s, ternary, want_logits, want_token);
    let (m1, s1) = lemma_layers_are_safe(m, s, weights, a, ternary);
    assert(tail == a.last_token_tail(s1, ternary, want_logits, want_token));
    lemma_last_token_tail_is_safe(m1, s1, a, ternary, want_logits, want_token);
    let body = a.prologue(s) + forward::layers_prefill(weights, a.n_layers as nat, a, ternary);
    memory::law_safe_plans_compose(m, s, body, tail);
}

/// The prologue and the layers are safe; what is there after them.
proof fn lemma_layers_are_safe(
    m: Memory,
    s: Residency,
    weights: Seq<LayerWeightRefs>,
    a: PrefillArgs,
    ternary: bool,
) -> (r: (Memory, Residency))
    requires
        memory::covers(m, s),
        a.fault(s, weights.len()) is None,
        a.needs_set(s) ==> a.set().sizes_fit(),
    ensures
        ({
            let body = a.prologue(s) + forward::layers_prefill(
                weights,
                a.n_layers as nat,
                a,
                ternary,
            );
            &&& memory::safe(m, s, body)
            &&& r.0 == memory::after(m, body, body.len())
            &&& r.1 == s.after(body)
            &&& ready(r.0)
            &&& memory::covers(r.0, r.1)
            &&& r.1.logits_bytes == s.logits_bytes
            &&& r.1.token_id_bytes == s.token_id_bytes
        }),
{
    let pro = a.prologue(s);
    let layers = forward::layers_prefill(weights, a.n_layers as nat, a, ternary);
    lemma_prologue_is_safe(m, s, a);
    let m1 = memory::after(m, pro, pro.len());
    let s1 = s.after(pro);
    lemma_layers_launch(weights, a.n_layers as nat, a, ternary);
    lemma_launches_are_safe(m1, s1, layers);
    memory::law_safe_plans_compose(m, s, pro, layers);
    memory::lemma_after_concat(m, pro, layers, layers.len());
    laws::law_plans_compose(s, pro, layers);
    laws::law_no_keep_no_change(s1, layers);
    (m1, s1)
}

/// The LM head launches of the verify tail.
pub open spec fn head_launches(a: PrefillArgs, ternary: bool) -> Seq<Action> {
    if ternary {
        Seq::new(a.batch_size as nat, |col: int| a.column_head(col))
    } else {
        seq![
            Action::Dispatch(
                Step::GemmQ1V7 {
                    weight: functions::weight_buf(a.lm_head_w->0),
                    input: Buf::Prefill(PrefillBuf::Normed),
                    output: Buf::Logits,
                    n_rows: a.lm_head_out_features as u32,
                    k: a.config.hidden_size as u32,
                    batch: a.batch_size as u32,
                },
            ),
        ]
    }
}

/// The LM head launches are safe.
proof fn lemma_heads_are_safe(m: Memory, s: Residency, a: PrefillArgs, ternary: bool)
    requires
        ready(m),
        memory::covers(m, s),
        m.contains_key(Buf::Logits),
    ensures
        memory::safe(m, s, head_launches(a, ternary)),
        memory::after(m, head_launches(a, ternary), head_launches(a, ternary).len()) == m,
        s.after(head_launches(a, ternary)) == s,
{
    let heads = head_launches(a, ternary);
    assert(m.contains_key(Buf::Prefill(PrefillBuf::Normed)));
    assert forall|i: int| 0 <= i < heads.len() implies memory::allowed(m, #[trigger] heads[i])
        && heads[i] is Dispatch by {
        if ternary {
            assert(heads[i] == a.column_head(i));
        }
    }
    memory::lemma_still_runs(m, s, heads);
    laws::law_no_keep_no_change(s, heads);
}

/// The picks of the verify tail are safe.
proof fn lemma_picks_are_safe(m: Memory, s: Residency, a: PrefillArgs, rest: Seq<Action>)
    requires
        memory::covers(m, s),
        m.contains_key(Buf::Logits),
        memory::holds(m, Buf::TokenId, a.batch_size as int),
        rest == Seq::new(a.batch_size as nat, |col: int| a.column_argmax(col)) + seq![
            Action::Commit,
            Action::ReadTokens { count: a.batch_size },
        ],
    ensures
        memory::safe(m, s, rest),
{
    assert forall|i: int| 0 <= i < rest.len() implies memory::allowed(m, #[trigger] rest[i])
        && !(rest[i] is Alloc) && !(rest[i] is AcquireKv) && !(rest[i] is Keep) by {
        if i < a.batch_size {
            assert(rest[i] == a.column_argmax(i));
        }
    }
    memory::lemma_still_runs(m, s, rest);
}

/// The tail after the layers is safe, for every token.
proof fn lemma_verify_tail_is_safe(m: Memory, s: Residency, a: PrefillArgs, ternary: bool)
    requires
        ready(m),
        memory::covers(m, s),
        a.has_head() ==> a.batch_size * a.lm_head_out_features * 4 <= usize::MAX,
    ensures
        memory::safe(m, s, a.verify_tail(s, ternary)),
{
    let plan = a.verify_tail(s, ternary);
    if !a.has_head() {
        memory::lemma_still_runs(m, s, plan);
        return ;
    }
    let b = a.batch_size as int;
    let lm = a.lm_head_out_features as int;
    assert(0 <= b * 4 <= b * lm * 4) by (nonlinear_arith)
        requires
            b >= 0,
            lm > 0,
    ;
    let needed = (b * lm * 4) as u64;
    let norm = seq![plan[0]];
    let first = norm + forward::grow_logits(s, needed);
    let (m1, s1) = lemma_norm_and_logits(m, s, norm, needed);
    let heads = head_launches(a, ternary);
    lemma_heads_are_safe(m1, s1, a, ternary);
    memory::law_safe_plans_compose(m, s, first, heads);
    let second = first + heads;
    memory::lemma_after_concat(m, first, heads, heads.len());
    laws::law_plans_compose(s, first, heads);
    let ids = forward::grow_token_ids(s, (b * 4) as u64);
    assert(ids == forward::grow_token_ids(s1, (b * 4) as u64));
    lemma_token_ids_are_safe(m1, s1, (b * 4) as u64);
    memory::law_safe_plans_compose(m, s, second, ids);
    let third = second + ids;
    memory::lemma_after_concat(m, second, ids, ids.len());
    let m2 = memory::after(m, third, third.len());
    let rest = Seq::new(a.batch_size as nat, |col: int| a.column_argmax(col)) + seq![
        Action::Commit,
        Action::ReadTokens { count: a.batch_size },
    ];
    lemma_picks_are_safe(m2, s.after(third), a, rest);
    memory::law_safe_plans_compose(m, s, third, rest);
    assert(plan =~= third + rest);
}

/// A forward pass over a batch that reads every position's greedy token touches
/// only memory that is there, and leaves its buffers resident.
pub proof fn law_verifying_prefill_is_safe(
    m: Memory,
    s: Residency,
    weights: Seq<LayerWeightRefs>,
    a: PrefillArgs,
    ternary: bool,
)
    requires
        memory::covers(m, s),
        a.no_overflow(s, weights.len(), a.batch_size as int, ternary),
        a.fault(s, weights.len()) is None,
    ensures
        memory::safe(
            m,
            s,
            a.prologue(s) + forward::layers_prefill(weights, a.n_layers as nat, a, ternary)
                + a.verify_tail(s, ternary),
        ),
{
    let tail = a.verify_tail(s, ternary);
    let (m1, s1) = lemma_layers_are_safe(m, s, weights, a, ternary);
    assert(tail == a.verify_tail(s1, ternary));
    lemma_verify_tail_is_safe(m1, s1, a, ternary);
    let body = a.prologue(s) + forward::layers_prefill(weights, a.n_layers as nat, a, ternary);
    memory::law_safe_plans_compose(m, s, body, tail);
}

} // verus!

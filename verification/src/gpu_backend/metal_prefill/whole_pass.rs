//! What a whole forward pass computes, given what its kernels compute of vectors.

use vstd::prelude::*;

use crate::gpu_backend::metal_graph::device::{Action, Buf, PrefillBuf, Step};
use crate::gpu_backend::metal_graph::graph::Residency;
use crate::gpu_backend::metal_graph::memory_model;
use crate::gpu_backend::metal_graph::memory_model::{
    normalised, rows_times, DeviceMemory, VectorKernels,
};
use crate::gpu_backend::metal_prefill::causal;
use crate::gpu_backend::metal_prefill::forward;
use crate::gpu_backend::metal_prefill::functions::weight_buf;
use crate::gpu_backend::metal_prefill::pass;
use crate::gpu_backend::metal_prefill::pass::LayerRun;
use crate::gpu_backend::metal_prefill::types::{LayerWeightRefs, PrefillArgs};

verus! {

/// A pass over a batch of tokens: its kernels, arguments and weights, what the host
/// uploads, what new buffers hold, and the memory that it starts from.
pub struct PassRun {
    /// What kernels compute.
    pub k: VectorKernels,
    /// Arguments.
    pub a: PrefillArgs,
    /// Weights of the layers.
    pub weights: Seq<LayerWeightRefs>,
    /// Whether the weights are ternary.
    pub ternary: bool,
    /// What the host uploads.
    pub operands: spec_fn(Buf, int) -> u32,
    /// What new buffers hold.
    pub junk: spec_fn(Buf, int) -> u32,
    /// What is resident.
    pub resident: Residency,
    /// The memory before the pass.
    pub s: DeviceMemory,
}

impl PassRun {
    /// The memory after a plan.
    pub open spec fn after(self, s: DeviceMemory, plan: Seq<Action>) -> DeviceMemory {
        memory_model::after_plan(self.k, self.operands, self.junk, s, plan)
    }

    /// The memory when the operands are there.
    pub open spec fn begun(self) -> DeviceMemory {
        self.after(self.s, self.a.prologue(self.resident))
    }

    /// The memory before layer `i`.
    pub open spec fn before_layer(self, i: nat) -> DeviceMemory {
        self.after(self.begun(), forward::layers_prefill(self.weights, i, self.a, self.ternary))
    }

    /// Layer `i`, from the memory before it.
    pub open spec fn layer(self, i: nat) -> LayerRun {
        LayerRun {
            k: self.k,
            c: self.a.config,
            w: self.weights[i as int],
            layer: i as usize,
            batch: self.a.batch_size,
            pos_start: self.a.pos_start,
            ternary: self.ternary,
            s: self.before_layer(i),
        }
    }

    /// Sizes fit, and there is a weight for every layer.
    pub open spec fn wf(self) -> bool {
        &&& self.a.n_layers == self.weights.len()
        &&& self.layer(0).wf()
        &&& self.a.lm_head_out_features <= u32::MAX
        &&& self.a.batch_size * self.a.lm_head_out_features * 4 <= usize::MAX
        &&& self.a.batch_size * self.a.config.hidden_size * 4 <= usize::MAX
        &&& self.a.rope_need() <= usize::MAX
        &&& self.a.batch_size > 0
    }

    /// Hidden state of token `t` in a memory.
    pub open spec fn hidden(self, s: DeviceMemory, t: int) -> Seq<u32> {
        let h = self.a.config.hidden_size as int;
        s.vector(Buf::Prefill(PrefillBuf::Hidden), t * h, h)
    }

    /// Logits of token `t`: the LM head's rows times its hidden state behind all layers,
    /// normalised.
    pub open spec fn logits(self, t: int) -> Seq<u32> {
        let s = self.before_layer(self.weights.len());
        let h = self.a.config.hidden_size as int;
        rows_times(
            self.k,
            self.ternary,
            weight_buf(self.a.lm_head_w->0),
            0,
            self.a.lm_head_out_features as int,
            normalised(
                self.k,
                s.vector(weight_buf(self.a.final_norm_w->0), 0, h),
                self.a.final_norm_eps,
                self.hidden(s, t),
            ),
        )
    }
}

/// Buffers other than these, and the cache, are the same.
spec fn changes_only(x: DeviceMemory, y: DeviceMemory, changed: spec_fn(Buf) -> bool) -> bool {
    &&& y.cache == x.cache
    &&& forall|b: Buf, i: int| !changed(b) ==> #[trigger] (y.at)(b, i) == (x.at)(b, i)
}

/// Allocations change the buffers that they make and nothing else.
proof fn lemma_allocations(
    r: PassRun,
    s: DeviceMemory,
    plan: Seq<Action>,
    changed: spec_fn(Buf) -> bool,
    n: nat,
)
    requires
        n <= plan.len(),
        forall|i: int|
            0 <= i < plan.len() ==> match #[trigger] plan[i] {
                Action::Alloc { buf, .. } => changed(buf),
                Action::Keep(_) => true,
                _ => false,
            },
    ensures
        changes_only(
            s,
            memory_model::after_some(r.k, r.operands, r.junk, s, plan, n),
            changed,
        ),
    decreases n,
{
    if n > 0 {
        lemma_allocations(r, s, plan, changed, (n - 1) as nat);
        assert(match plan[n - 1] {
            Action::Alloc { buf, .. } => changed(buf),
            Action::Keep(_) => true,
            _ => false,
        });
    }
}

/// When the layers start, hidden states, cosines and sines are those that the host
/// handed over, and weights and cache are as they were.
pub proof fn law_pass_starts_from_the_operands(r: PassRun)
    requires
        r.wf(),
    ensures
        ({
            let m = r.begun();
            &&& forall|i: int|
                0 <= i < r.a.batch_size * r.a.config.hidden_size ==> #[trigger] (m.at)(
                    Buf::Prefill(PrefillBuf::Hidden),
                    i,
                ) == (r.operands)(Buf::Prefill(PrefillBuf::Hidden), i)
            &&& forall|i: int|
                0 <= i < r.a.batch_size * (r.a.config.head_dim / 2) ==> #[trigger] (m.at)(
                    Buf::Prefill(PrefillBuf::Cos),
                    i,
                ) == (r.operands)(Buf::Prefill(PrefillBuf::Cos), i)
            &&& forall|i: int|
                0 <= i < r.a.batch_size * (r.a.config.head_dim / 2) ==> #[trigger] (m.at)(
                    Buf::Prefill(PrefillBuf::Sin),
                    i,
                ) == (r.operands)(Buf::Prefill(PrefillBuf::Sin), i)
            &&& forall|b: u64, i: int| #[trigger]
                (m.at)(Buf::Weight(b), i) == (r.s.at)(Buf::Weight(b), i)
            &&& m.cache == r.s.cache
        }),
{
    let plan = r.a.prologue(r.resident);
    let made = if r.a.needs_set(r.resident) {
        r.a.set().allocs().push(
            Action::Keep(
                crate::gpu_backend::metal_graph::device::Resident::Prefill(r.a.set()),
            ),
        )
    } else {
        seq![]
    };
    let uploads = plan.skip(plan.len() - 4);
    assert(plan =~= made + uploads);
    let changed = |b: Buf| b is Prefill;
    assert forall|i: int| 0 <= i < made.len() implies match #[trigger] made[i] {
        Action::Alloc { buf, .. } => changed(buf),
        Action::Keep(_) => true,
        _ => false,
    } by {}
    lemma_allocations(r, r.s, made, changed, made.len());
    memory_model::lemma_in_turn(r.k, r.operands, r.junk, r.s, made, uploads);
    reveal_with_fuel(memory_model::after_some, 5);
}

proof fn lemma_layer_runs(r: PassRun, i: nat)
    requires
        r.wf(),
        i < r.weights.len(),
    ensures
        r.layer(i).wf(),
        r.before_layer(i + 1) == r.after(
            r.before_layer(i),
            causal::layer_plan(
                r.weights[i as int],
                i as usize,
                r.a.batch_size,
                r.a.pos_start,
                r.a.config,
                r.ternary,
            ),
        ),
{
    memory_model::lemma_in_turn(
        r.k,
        r.operands,
        r.junk,
        r.begun(),
        forward::layers_prefill(r.weights, i, r.a, r.ternary),
        causal::layer_plan(
            r.weights[i as int],
            i as usize,
            r.a.batch_size,
            r.a.pos_start,
            r.a.config,
            r.ternary,
        ),
    );
}

/// The layers run in order, each with its own weights and cache, on the hidden states
/// that the one before it left.
pub proof fn law_layers_run_in_order(r: PassRun, i: nat)
    requires
        r.wf(),
        i < r.weights.len(),
    ensures
        r.layer(i).w == r.weights[i as int],
        r.layer(i).layer == i,
        forall|t: int|
            0 <= t < r.a.batch_size ==> #[trigger] r.hidden(r.before_layer(i + 1), t) == r.layer(
                i,
            ).output(t),
        forall|buf: Buf, l: int, g: int, p: int, d: int| #[trigger]
            (r.before_layer(i + 1).cache)(buf, l, g, p, d) == r.layer(i).cache_after(
                r.a.batch_size as int,
                buf,
                l,
                g,
                p,
                d,
            ),
{
    lemma_layer_runs(r, i);
    pass::law_layer_prefill(r.layer(i), r.operands, r.junk);
    let l = r.layer(i);
    let h = l.c.hidden_size as int;
    let y = r.before_layer(i + 1);
    assert(y == memory_model::after_plan(
        l.k,
        r.operands,
        r.junk,
        l.s,
        causal::layer_plan(l.w, l.layer, l.batch, l.pos_start, l.c, l.ternary),
    ));
    assert forall|t: int| 0 <= t < r.a.batch_size implies #[trigger] r.hidden(y, t) == r.layer(
        i,
    ).output(t) by {
        assert(y.vector(Buf::Prefill(PrefillBuf::Hidden), t * h, h) == l.output(t));
    }
}

/// A plan of one action.
proof fn lemma_one(r: PassRun, s: DeviceMemory, a: Action)
    ensures
        r.after(s, seq![a]) == memory_model::after_action(r.k, r.operands, r.junk, s, a),
{
    reveal_with_fuel(memory_model::after_some, 2);
}

proof fn lemma_two(r: PassRun, s: DeviceMemory, a: Action, b: Action)
    ensures
        r.after(s, seq![a, b]) == memory_model::after_action(
            r.k,
            r.operands,
            r.junk,
            memory_model::after_action(r.k, r.operands, r.junk, s, a),
            b,
        ),
{
    reveal_with_fuel(memory_model::after_some, 3);
}

/// What precedes the tail.
spec fn to_the_tail(r: PassRun) -> Seq<Action> {
    r.a.prologue(r.resident) + forward::layers_prefill(
        r.weights,
        r.weights.len(),
        r.a,
        r.ternary,
    )
}

proof fn lemma_tail(r: PassRun, tail: Seq<Action>)
    ensures
        r.after(r.s, to_the_tail(r) + tail) == r.after(r.before_layer(r.weights.len()), tail),
{
    let pro = r.a.prologue(r.resident);
    let layers = forward::layers_prefill(r.weights, r.weights.len(), r.a, r.ternary);
    memory_model::lemma_in_turn(r.k, r.operands, r.junk, r.s, pro + layers, tail);
    memory_model::lemma_in_turn(r.k, r.operands, r.junk, r.s, pro, layers);
}

/// The last token's hidden state, normalised.
proof fn lemma_last_norm(r: PassRun, x: DeviceMemory)
    requires
        r.wf(),
        r.a.has_head(),
    ensures
        ({
            let h = r.a.config.hidden_size as int;
            r.after(x, seq![r.a.last_token_norm()]).vector(
                Buf::Prefill(PrefillBuf::Normed),
                0,
                h,
            ) == normalised(
                r.k,
                x.vector(weight_buf(r.a.final_norm_w->0), 0, h),
                r.a.final_norm_eps,
                r.hidden(x, r.a.batch_size - 1),
            )
        }),
{
    lemma_one(r, x, r.a.last_token_norm());
    let h = r.a.config.hidden_size as int;
    let last = r.a.batch_size - 1;
    let from = last * h;
    assert(last * h * 4 == 4 * (last * h) && 0 <= last * h && last * h <= r.a.batch_size * h)
        by (nonlinear_arith)
        requires
            0 <= last <= r.a.batch_size,
            h >= 0,
    ;
    assert(((last * h * 4) as u64) as int / 4 == from);
    memory_model::lemma_norm_row(
        r.k,
        x,
        weight_buf(r.a.final_norm_w->0),
        r.a.final_norm_eps,
        Buf::Prefill(PrefillBuf::Hidden),
        from,
        Buf::Prefill(PrefillBuf::Normed),
        h,
        1,
        0,
    );
    assert(from + 0 * h == from && 0 * h == 0);
}

/// The last token's logits.
proof fn lemma_last_head(r: PassRun, x: DeviceMemory)
    requires
        r.wf(),
        r.a.has_head(),
    ensures
        ({
            let h = r.a.config.hidden_size as int;
            let lm = r.a.lm_head_out_features as int;
            r.after(x, seq![r.a.last_token_head(r.ternary)]).vector(Buf::Logits, 0, lm)
                == rows_times(
                r.k,
                r.ternary,
                weight_buf(r.a.lm_head_w->0),
                0,
                lm,
                x.vector(Buf::Prefill(PrefillBuf::Normed), 0, h),
            )
        }),
{
    lemma_one(r, x, r.a.last_token_head(r.ternary));
    let h = r.a.config.hidden_size as int;
    let lm = r.a.lm_head_out_features as int;
    memory_model::lemma_product_row(
        r.k,
        x,
        r.ternary,
        weight_buf(r.a.lm_head_w->0),
        Buf::Prefill(PrefillBuf::Normed),
        0,
        Buf::Logits,
        0,
        lm,
        h,
        1,
        0,
    );
    assert(0 + 0 * lm == 0 && 0 + 0 * h == 0);
}

proof fn lemma_last_logits(r: PassRun)
    requires
        r.wf(),
        r.a.has_head(),
    ensures
        ({
            let lm = r.a.lm_head_out_features;
            let plan = seq![r.a.last_token_norm()] + forward::grow_logits(
                r.resident,
                (lm * 4) as u64,
            ) + seq![r.a.last_token_head(r.ternary)];
            r.after(r.before_layer(r.weights.len()), plan).vector(Buf::Logits, 0, lm as int)
                == r.logits(r.a.batch_size - 1)
        }),
{
    let x = r.before_layer(r.weights.len());
    let h = r.a.config.hidden_size as int;
    let lm = r.a.lm_head_out_features;
    let normed = Buf::Prefill(PrefillBuf::Normed);
    let norm = seq![r.a.last_token_norm()];
    let grow = forward::grow_logits(r.resident, (lm * 4) as u64);
    let head = seq![r.a.last_token_head(r.ternary)];
    memory_model::lemma_in_turn(r.k, r.operands, r.junk, x, norm + grow, head);
    memory_model::lemma_in_turn(r.k, r.operands, r.junk, x, norm, grow);
    let s1 = r.after(x, norm);
    let s2 = r.after(s1, grow);
    lemma_last_norm(r, x);
    lemma_allocations(r, s1, grow, |b: Buf| b == Buf::Logits, grow.len());
    assert(s2.vector(normed, 0, h) =~= s1.vector(normed, 0, h));
    lemma_last_head(r, s2);
}

/// What is read back of the logits.
proof fn lemma_last_read(r: PassRun, s: DeviceMemory, logits: Seq<u32>, want_token: bool)
    requires
        r.wf(),
        s.vector(Buf::Logits, 0, r.a.lm_head_out_features as int) == logits,
    ensures
        ({
            let lm = r.a.lm_head_out_features;
            let plan = if want_token {
                forward::grow_token_ids(r.resident, 4) + seq![
                    Action::Dispatch(
                        Step::Argmax { logits: Buf::Logits, token: Buf::TokenId, n: lm as u32 },
                    ),
                    Action::Commit,
                    Action::ReadToken,
                ]
            } else {
                seq![Action::Commit, Action::Download { buf: Buf::Logits, floats: lm }]
            };
            r.after(s, plan).read == if want_token {
                seq![(r.k.largest)(logits)]
            } else {
                logits
            }
        }),
{
    let lm = r.a.lm_head_out_features;
    if want_token {
        let ids = forward::grow_token_ids(r.resident, 4);
        let pick = seq![
            Action::Dispatch(
                Step::Argmax { logits: Buf::Logits, token: Buf::TokenId, n: lm as u32 },
            ),
        ];
        let end = seq![Action::Commit, Action::ReadToken];
        memory_model::lemma_in_turn(r.k, r.operands, r.junk, s, ids + pick, end);
        memory_model::lemma_in_turn(r.k, r.operands, r.junk, s, ids, pick);
        assert(ids + seq![pick[0], Action::Commit, Action::ReadToken] =~= ids + pick + end);
        let s1 = r.after(s, ids);
        lemma_allocations(r, s, ids, |b: Buf| b == Buf::TokenId, ids.len());
        assert(s1.vector(Buf::Logits, 0, lm as int) =~= logits);
        lemma_one(r, s1, pick[0]);
        let s2 = r.after(s1, pick);
        lemma_two(r, s2, Action::Commit, Action::ReadToken);
        assert(r.after(s2, end).read =~= seq![(r.k.largest)(logits)]);
    } else {
        lemma_two(r, s, Action::Commit, Action::Download { buf: Buf::Logits, floats: lm });
    }
}

/// The whole pass, when the last token's logits or greedy token are wanted: what is
/// read back is its logits, or the index of the largest of them.
pub proof fn law_last_token(r: PassRun, want_logits: bool, want_token: bool)
    requires
        r.wf(),
        r.a.has_head(),
    ensures
        ({
            let plan = r.a.prologue(r.resident) + forward::layers_prefill(
                r.weights,
                r.weights.len(),
                r.a,
                r.ternary,
            ) + r.a.last_token_tail(r.resident, r.ternary, want_logits, want_token);
            let read = r.after(r.s, plan).read;
            let logits = r.logits(r.a.batch_size - 1);
            &&& want_token ==> read == seq![(r.k.largest)(logits)]
            &&& !want_token && want_logits ==> read == logits
        }),
{
    let tail = r.a.last_token_tail(r.resident, r.ternary, want_logits, want_token);
    lemma_tail(r, tail);
    let x = r.before_layer(r.weights.len());
    let lm = r.a.lm_head_out_features;
    let first = seq![r.a.last_token_norm()] + forward::grow_logits(
        r.resident,
        (lm * 4) as u64,
    ) + seq![r.a.last_token_head(r.ternary)];
    let rest = tail.skip(first.len() as int);
    assert(tail =~= first + rest);
    memory_model::lemma_in_turn(r.k, r.operands, r.junk, x, first, rest);
    lemma_last_logits(r);
    let logits = r.logits(r.a.batch_size - 1);
    if want_token {
        assert(rest =~= forward::grow_token_ids(r.resident, 4) + seq![
            Action::Dispatch(
                Step::Argmax { logits: Buf::Logits, token: Buf::TokenId, n: lm as u32 },
            ),
            Action::Commit,
            Action::ReadToken,
        ]);
        lemma_last_read(r, r.after(x, first), logits, true);
    } else if want_logits {
        assert(rest =~= seq![Action::Commit, Action::Download { buf: Buf::Logits, floats: lm }]);
        lemma_last_read(r, r.after(x, first), logits, false);
    }
}

/// Ternary heads of the first `n` columns.
proof fn lemma_column_heads(r: PassRun, s: DeviceMemory, n: nat)
    requires
        r.wf(),
        r.a.has_head(),
        n <= r.a.batch_size,
    ensures
        ({
            let y = memory_model::after_some(
                r.k,
                r.operands,
                r.junk,
                s,
                Seq::new(r.a.batch_size as nat, |col: int| r.a.column_head(col)),
                n,
            );
            let lm = r.a.lm_head_out_features as int;
            let h = r.a.config.hidden_size as int;
            &&& changes_only(s, y, |b: Buf| b == Buf::Logits)
            &&& y.read == s.read
            &&& forall|t: int|
                0 <= t < n ==> #[trigger] y.vector(Buf::Logits, t * lm, lm) == rows_times(
                    r.k,
                    true,
                    weight_buf(r.a.lm_head_w->0),
                    0,
                    lm,
                    s.vector(Buf::Prefill(PrefillBuf::Normed), t * h, h),
                )
        }),
    decreases n,
{
    if n > 0 {
        let c = n - 1;
        lemma_column_heads(r, s, c as nat);
        let plan = Seq::new(r.a.batch_size as nat, |col: int| r.a.column_head(col));
        let x = memory_model::after_some(r.k, r.operands, r.junk, s, plan, c as nat);
        let y = memory_model::after_some(r.k, r.operands, r.junk, s, plan, n);
        let lm = r.a.lm_head_out_features as int;
        let h = r.a.config.hidden_size as int;
        let b = r.a.batch_size as int;
        let normed = Buf::Prefill(PrefillBuf::Normed);
        let w = weight_buf(r.a.lm_head_w->0);
        assert(0 <= c * lm && c * lm <= b * lm && 0 <= c * h && c * h <= b * h && c * lm * 4 == 4
            * (c * lm) && c * h * 4 == 4 * (c * h)) by (nonlinear_arith)
            requires
                0 <= c <= b,
                lm >= 0,
                h >= 0,
        ;
        assert(y == memory_model::product_launched(
            r.k,
            x,
            true,
            w,
            normed,
            c * h,
            Buf::Logits,
            c * lm,
            lm,
            h,
            1,
        ));
        memory_model::lemma_product_row(
            r.k,
            x,
            true,
            w,
            normed,
            c * h,
            Buf::Logits,
            c * lm,
            lm,
            h,
            1,
            0,
        );
        assert(c * h + 0 * h == c * h && c * lm + 0 * lm == c * lm);
        assert(x.vector(normed, c * h, h) =~= s.vector(normed, c * h, h));
        assert forall|t: int| 0 <= t < n implies #[trigger] y.vector(Buf::Logits, t * lm, lm)
            == rows_times(r.k, true, w, 0, lm, s.vector(normed, t * h, h)) by {
            if t < c {
                assert(t * lm + lm <= c * lm) by (nonlinear_arith)
                    requires
                        t + 1 <= c,
                        lm >= 0,
                ;
                assert(x.vector(Buf::Logits, t * lm, lm) == rows_times(
                    r.k,
                    true,
                    w,
                    0,
                    lm,
                    s.vector(normed, t * h, h),
                ));
                assert(y.vector(Buf::Logits, t * lm, lm) =~= x.vector(Buf::Logits, t * lm, lm));
            }
        }
    }
}

/// Greedy tokens of the first `n` columns.
proof fn lemma_column_tokens(r: PassRun, s: DeviceMemory, n: nat)
    requires
        r.wf(),
        n <= r.a.batch_size,
    ensures
        ({
            let y = memory_model::after_some(
                r.k,
                r.operands,
                r.junk,
                s,
                Seq::new(r.a.batch_size as nat, |col: int| r.a.column_argmax(col)),
                n,
            );
            let lm = r.a.lm_head_out_features as int;
            &&& changes_only(s, y, |b: Buf| b == Buf::TokenId)
            &&& forall|t: int|
                0 <= t < n ==> #[trigger] (y.at)(Buf::TokenId, t) == (r.k.largest)(
                    s.vector(Buf::Logits, t * lm, lm),
                )
        }),
    decreases n,
{
    if n > 0 {
        let c = n - 1;
        lemma_column_tokens(r, s, c as nat);
        let plan = Seq::new(r.a.batch_size as nat, |col: int| r.a.column_argmax(col));
        let x = memory_model::after_some(r.k, r.operands, r.junk, s, plan, c as nat);
        let lm = r.a.lm_head_out_features as int;
        let b = r.a.batch_size as int;
        assert(0 <= c * lm && c * lm <= b * lm && c * lm * 4 == 4 * (c * lm)) by (nonlinear_arith)
            requires
                0 <= c <= b,
                lm >= 0,
        ;
        assert(b <= b * lm || lm == 0) by (nonlinear_arith)
            requires
                b >= 0,
                lm >= 0,
        ;
        assert(x.vector(Buf::Logits, c * lm, lm) =~= s.vector(Buf::Logits, c * lm, lm));
        assert(((c * lm * 4) as u64) as int / 4 == c * lm);
        assert(((c * 4) as u64) as int / 4 == c);
    }
}

/// The whole batch's hidden states, normalised, where the logits buffer has been
/// enlarged.
proof fn lemma_every_norm(r: PassRun, x: DeviceMemory, t: int)
    requires
        r.wf(),
        r.a.has_head(),
        0 <= t < r.a.batch_size,
    ensures
        ({
            let (h, b) = (r.a.config.hidden_size as int, r.a.batch_size as int);
            let lm = r.a.lm_head_out_features;
            let s = r.after(
                r.after(x, seq![r.a.verify_tail(r.resident, r.ternary)[0]]),
                forward::grow_logits(r.resident, (b * lm * 4) as u64),
            );
            s.vector(Buf::Prefill(PrefillBuf::Normed), t * h, h) == normalised(
                r.k,
                x.vector(weight_buf(r.a.final_norm_w->0), 0, h),
                r.a.final_norm_eps,
                r.hidden(x, t),
            )
        }),
{
    let (h, b) = (r.a.config.hidden_size as int, r.a.batch_size as int);
    let normed = Buf::Prefill(PrefillBuf::Normed);
    let norm = r.a.verify_tail(r.resident, r.ternary)[0];
    let grow = forward::grow_logits(
        r.resident,
        (b * r.a.lm_head_out_features * 4) as u64,
    );
    lemma_one(r, x, norm);
    let s1 = r.after(x, seq![norm]);
    let s2 = r.after(s1, grow);
    memory_model::lemma_norm_row(
        r.k,
        x,
        weight_buf(r.a.final_norm_w->0),
        r.a.final_norm_eps,
        Buf::Prefill(PrefillBuf::Hidden),
        0,
        normed,
        h,
        b,
        t,
    );
    assert(0 + t * h == t * h);
    lemma_allocations(r, s1, grow, |c: Buf| c == Buf::Logits, grow.len());
    assert(s2.vector(normed, t * h, h) =~= s1.vector(normed, t * h, h));
}

/// The LM head of every token.
spec fn every_head(r: PassRun) -> Seq<Action> {
    if r.ternary {
        Seq::new(r.a.batch_size as nat, |col: int| r.a.column_head(col))
    } else {
        seq![
            Action::Dispatch(
                Step::GemmQ1V7 {
                    weight: weight_buf(r.a.lm_head_w->0),
                    input: Buf::Prefill(PrefillBuf::Normed),
                    output: Buf::Logits,
                    n_rows: r.a.lm_head_out_features as u32,
                    k: r.a.config.hidden_size as u32,
                    batch: r.a.batch_size as u32,
                },
            ),
        ]
    }
}

proof fn lemma_every_head(r: PassRun, s: DeviceMemory, t: int)
    requires
        r.wf(),
        r.a.has_head(),
        0 <= t < r.a.batch_size,
    ensures
        ({
            let h = r.a.config.hidden_size as int;
            let lm = r.a.lm_head_out_features as int;
            r.after(s, every_head(r)).vector(Buf::Logits, t * lm, lm) == rows_times(
                r.k,
                r.ternary,
                weight_buf(r.a.lm_head_w->0),
                0,
                lm,
                s.vector(Buf::Prefill(PrefillBuf::Normed), t * h, h),
            )
        }),
{
    let (h, b) = (r.a.config.hidden_size as int, r.a.batch_size as int);
    let lm = r.a.lm_head_out_features as int;
    if r.ternary {
        lemma_column_heads(r, s, b as nat);
    } else {
        lemma_one(r, s, every_head(r)[0]);
        assert(every_head(r) =~= seq![every_head(r)[0]]);
        memory_model::lemma_product_row(
            r.k,
            s,
            false,
            weight_buf(r.a.lm_head_w->0),
            Buf::Prefill(PrefillBuf::Normed),
            0,
            Buf::Logits,
            0,
            lm,
            h,
            b,
            t,
        );
        assert(0 + t * h == t * h && 0 + t * lm == t * lm);
    }
}

/// The whole pass, when every token's greedy token is wanted: what is read back is,
/// token by token, the index of the largest of its logits.
pub proof fn law_every_token(r: PassRun)
    requires
        r.wf(),
        r.a.has_head(),
    ensures
        ({
            let plan = r.a.prologue(r.resident) + forward::layers_prefill(
                r.weights,
                r.weights.len(),
                r.a,
                r.ternary,
            ) + r.a.verify_tail(r.resident, r.ternary);
            r.after(r.s, plan).read == Seq::new(
                r.a.batch_size as nat,
                |t: int| (r.k.largest)(r.logits(t)),
            )
        }),
{
    let tail = r.a.verify_tail(r.resident, r.ternary);
    lemma_tail(r, tail);
    let x = r.before_layer(r.weights.len());
    let b = r.a.batch_size as int;
    let lm = r.a.lm_head_out_features as int;
    let norm = seq![tail[0]];
    let grow = forward::grow_logits(r.resident, (b * lm * 4) as u64);
    let heads = every_head(r);
    let ids = forward::grow_token_ids(r.resident, (b * 4) as u64);
    let picks = Seq::new(b as nat, |col: int| r.a.column_argmax(col));
    let end = seq![Action::Commit, Action::ReadTokens { count: r.a.batch_size }];
    assert(tail =~= norm + grow + heads + ids + picks + end);
    memory_model::lemma_in_turn(
        r.k,
        r.operands,
        r.junk,
        x,
        norm + grow + heads + ids + picks,
        end,
    );
    memory_model::lemma_in_turn(r.k, r.operands, r.junk, x, norm + grow + heads + ids, picks);
    memory_model::lemma_in_turn(r.k, r.operands, r.junk, x, norm + grow + heads, ids);
    memory_model::lemma_in_turn(r.k, r.operands, r.junk, x, norm + grow, heads);
    memory_model::lemma_in_turn(r.k, r.operands, r.junk, x, norm, grow);
    let s2 = r.after(r.after(x, norm), grow);
    let s3 = r.after(s2, heads);
    let s4 = r.after(s3, ids);
    let s5 = r.after(s4, picks);
    lemma_allocations(r, s3, ids, |c: Buf| c == Buf::TokenId, ids.len());
    lemma_column_tokens(r, s4, b as nat);
    lemma_two(r, s5, end[0], end[1]);
    assert(end =~= seq![end[0], end[1]]);
    let goal = Seq::new(b as nat, |t: int| (r.k.largest)(r.logits(t)));
    assert forall|t: int| 0 <= t < b implies #[trigger] (s5.at)(Buf::TokenId, t) == goal[t] by {
        lemma_every_norm(r, x, t);
        lemma_every_head(r, s2, t);
        assert(s4.vector(Buf::Logits, t * lm, lm) =~= s3.vector(Buf::Logits, t * lm, lm));
    }
    assert(r.after(s5, end).read =~= goal);
}

} // verus!

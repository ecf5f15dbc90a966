//! Extents of a pass's launches, and the cache's shape as its launches see it.

use vstd::prelude::*;

use crate::gpu_backend::metal_graph::buffers;
use crate::gpu_backend::metal_graph::device::{Action, Extent, Step};
use crate::gpu_backend::metal_graph::graph::Residency;
use crate::gpu_backend::metal_prefill::causal;
use crate::gpu_backend::metal_prefill::functions;
use crate::gpu_backend::metal_prefill::types::{LayerConfig, LayerWeightRefs, PrefillArgs};

verus! {

/// A grid row has a thread for each of `n` elements, `each` to a threadgroup, and no
/// threadgroup without one but where there is no element.
pub open spec fn row_covers(groups: int, each: int, n: int) -> bool {
    &&& groups >= 1
    &&& groups * each >= n
    &&& groups > 1 ==> (groups - 1) * each < n
}

/// One threadgroup deep and flat.
pub open spec fn is_line(threads: Extent, x: u64) -> bool {
    threads == Extent { x, y: 1, z: 1 }
}

/// The launch's extents cover what it computes: RoPE has a row for every query and key
/// head and a thread for every pair; softmax has a threadgroup for every head; the
/// weighted sum has a row for every head and a thread for every number; ternary products
/// have a threadgroup for every eight rows; norm and maximum have one threadgroup.
pub open spec fn covers(step: Step) -> bool {
    match step {
        Step::FusedQkRope { nq, nkv, half_dim, grid, threads, .. } => {
            &&& grid.y == nq + nkv && grid.z == 1
            &&& is_line(threads, 64)
            &&& row_covers(grid.x as int, threads.x as int, half_dim as int)
        },
        Step::BatchedSoftmax { nq, grid, threads, .. } => is_line(grid, nq as u64) && is_line(
            threads,
            256,
        ),
        Step::WeightedSum { nq, head_dim, grid, threads, .. } => {
            &&& grid.y == nq && grid.z == 1
            &&& is_line(threads, 64)
            &&& row_covers(grid.x as int, threads.x as int, head_dim as int)
        },
        Step::GemvTq2At { n_rows, grid, threads, .. } => {
            &&& grid.y == 1 && grid.z == 1
            &&& is_line(threads, 256)
            &&& row_covers(grid.x as int, 8, n_rows as int)
        },
        Step::RmsNormAt { grid, threads, .. } => is_line(grid, 1) && is_line(threads, 256),
        Step::ArgmaxAt { grid, threads, .. } => is_line(grid, 1) && is_line(threads, 1024),
        _ => true,
    }
}

/// The launch takes the cache to have so many heads and positions.
pub open spec fn sees_cache(step: Step, heads: int, positions: int) -> bool {
    match step {
        Step::FusedKvStore { nkv, max_seq, .. } => nkv == heads && max_seq == positions,
        Step::AttentionScores { nkv, max_seq, .. } => nkv == heads && max_seq == positions,
        Step::BatchedSoftmax { max_seq, .. } => max_seq == positions,
        Step::WeightedSum { nkv, max_seq, .. } => nkv == heads && max_seq == positions,
        _ => true,
    }
}

/// A launch with extents that cover what it computes, and the cache's shape.
pub open spec fn well_launched(a: Action, c: LayerConfig) -> bool {
    match a {
        Action::Dispatch(step) => covers(step) && sees_cache(
            step,
            c.n_kv_heads as int,
            c.max_seq_len as int,
        ),
        _ => true,
    }
}

proof fn lemma_threadgroups(n: int, each: int)
    requires
        n >= 0,
        each > 0,
    ensures
        row_covers(buffers::threadgroups(n, each), each, n),
        buffers::threadgroups(n, each) <= n + 1,
{
    if n > 0 {
        let q = (n - 1) / each;
        assert(q >= 0 && q <= n - 1 && q * each <= n - 1 && n - 1 < q * each + each && (q + 1)
            * each == q * each + each) by (nonlinear_arith)
            requires
                q == (n - 1) / each,
                each > 0,
                n > 0,
        ;
    } else {
        assert(1 * each >= n) by (nonlinear_arith)
            requires
                each > 0,
                n <= 0,
        ;
    }
}

proof fn lemma_token_launches(w: LayerWeightRefs, layer: usize, t: int, pos_start: int, c: LayerConfig)
    requires
        c.n_q_heads + c.n_kv_heads <= u32::MAX,
        c.head_dim <= u32::MAX,
        c.max_seq_len <= u32::MAX,
    ensures
        forall|i: int|
            0 <= i < functions::token_attention(w, layer, t, pos_start, c).len()
                ==> well_launched(
                #[trigger] functions::token_attention(w, layer, t, pos_start, c)[i],
                c,
            ),
{
    lemma_threadgroups(c.head_dim as int / 2, 64);
    lemma_threadgroups(c.head_dim as int, 64);
}

proof fn lemma_tokens_launches(
    w: LayerWeightRefs,
    layer: usize,
    n: nat,
    pos_start: int,
    c: LayerConfig,
)
    requires
        c.n_q_heads + c.n_kv_heads <= u32::MAX,
        c.head_dim <= u32::MAX,
        c.max_seq_len <= u32::MAX,
    ensures
        forall|i: int|
            0 <= i < functions::tokens_attention(w, layer, n, pos_start, c).len()
                ==> well_launched(
                #[trigger] functions::tokens_attention(w, layer, n, pos_start, c)[i],
                c,
            ),
    decreases n,
{
    if n > 0 {
        lemma_tokens_launches(w, layer, (n - 1) as nat, pos_start, c);
        lemma_token_launches(w, layer, n - 1, pos_start, c);
        let before = functions::tokens_attention(w, layer, (n - 1) as nat, pos_start, c);
        let last = functions::token_attention(w, layer, n - 1, pos_start, c);
        let all = functions::tokens_attention(w, layer, n, pos_start, c);
        assert forall|i: int| 0 <= i < all.len() implies well_launched(#[trigger] all[i], c) by {
            if i < before.len() {
                assert(all[i] == before[i]);
            } else {
                assert(all[i] == last[i - before.len()]);
            }
        }
    }
}

/// Every launch of a layer covers what it computes and sees the cache in its shape.
pub proof fn law_layer_launches_cover(
    w: LayerWeightRefs,
    layer: usize,
    batch: usize,
    pos_start: usize,
    c: LayerConfig,
    ternary: bool,
)
    requires
        c.n_q_heads + c.n_kv_heads <= u32::MAX,
        c.head_dim <= u32::MAX,
        c.max_seq_len <= u32::MAX,
    ensures
        forall|i: int|
            0 <= i < causal::layer_plan(w, layer, batch, pos_start, c, ternary).len()
                ==> well_launched(
                #[trigger] causal::layer_plan(w, layer, batch, pos_start, c, ternary)[i],
                c,
            ),
{
    lemma_tokens_launches(w, layer, batch as nat, pos_start as int, c);
    let all = causal::layer_plan(w, layer, batch, pos_start, c, ternary);
    let tokens = functions::tokens_attention(w, layer, batch as nat, pos_start as int, c);
    assert forall|i: int| 0 <= i < all.len() implies well_launched(#[trigger] all[i], c) by {
        if 2 <= i < 2 + tokens.len() {
            assert(all[i] == tokens[i - 2]);
        }
    }
}

/// Norm, ternary head and maximum of a column cover what they compute.
pub proof fn law_head_launches_cover(a: PrefillArgs, col: int)
    requires
        a.lm_head_out_features <= u32::MAX,
    ensures
        well_launched(a.last_token_norm(), a.config),
        well_launched(a.column_head(col), a.config),
        well_launched(a.column_argmax(col), a.config),
{
    lemma_threadgroups(a.lm_head_out_features as int, 8);
}

/// The cache that a pass acquires has a place for every layer, KV head, position and number
/// of a head.
pub proof fn law_cache_has_the_passes_shape(a: PrefillArgs, resident: Residency)
    ensures
        exists|i: int|
            0 <= i < a.prologue(resident).len() && #[trigger] a.prologue(resident)[i]
                == (Action::AcquireKv {
                n_layers: a.n_layers,
                nkv: a.config.n_kv_heads,
                max_seq: a.config.max_seq_len,
                head_dim: a.config.head_dim,
            }),
{
    let plan = a.prologue(resident);
    assert(plan[plan.len() - 4] is AcquireKv);
}

} // verus!

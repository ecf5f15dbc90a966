//! Launches are committed before the host reads what they made.

use vstd::prelude::*;

use crate::gpu_backend::metal_graph::attention;
use crate::gpu_backend::metal_graph::attention::AttnArgs;
use crate::gpu_backend::metal_graph::device::{Action, Step};
use crate::gpu_backend::metal_graph::error::MetalWeightHandle;
use crate::gpu_backend::metal_graph::ffn::FfnArgs;
use crate::gpu_backend::metal_graph::gemm;
use crate::gpu_backend::metal_graph::graph::Residency;
use crate::gpu_backend::metal_graph::vae;
use crate::gpu_backend::metal_graph::vae::ConvGeometry;
use crate::gpu_backend::metal_prefill::types::PrefillArgs;

verus! {

/// The host reads.
pub open spec fn is_read(a: Action) -> bool {
    a is Download || a is ReadToken || a is ReadTokens
}

/// Every read comes straight after a commit.
pub open spec fn reads_follow_commits(plan: Seq<Action>) -> bool {
    forall|i: int| 0 <= i < plan.len() && is_read(#[trigger] plan[i]) ==> i > 0 && plan[i - 1]
        is Commit
}

/// There is a commit at `c`, and no launch behind it.
pub open spec fn committed_at(plan: Seq<Action>, c: int) -> bool {
    &&& 0 <= c < plan.len()
    &&& plan[c] is Commit
    &&& forall|i: int| c < i < plan.len() ==> !(#[trigger] plan[i] is Dispatch)
}

/// Products, and the FFN phase.
pub proof fn law_products_commit_before_reading(
    resident: Residency,
    step: Step,
    input_len: usize,
    output_len: usize,
    n_rows: usize,
    a: FfnArgs,
)
    requires
        input_len > 0,
        output_len > 0,
    ensures
        ({
            let one = gemm::gemv_plan(step, input_len, n_rows);
            let many = gemm::gemm_plan(resident, step, input_len, output_len);
            let ffn = a.plan(resident);
            &&& reads_follow_commits(one) && committed_at(one, one.len() - 2)
            &&& reads_follow_commits(many) && committed_at(many, many.len() - 2)
            &&& reads_follow_commits(ffn) && committed_at(ffn, ffn.len() - 2)
        }),
{
}

/// Group norm, SiLU, upsampling and attention.
pub proof fn law_elements_commit_before_reading(
    resident: Residency,
    x_len: usize,
    y_len: usize,
    c: usize,
    h: usize,
    w: usize,
    eps: u32,
    a: AttnArgs,
)
    requires
        x_len > 0,
    ensures
        ({
            let norm = vae::groupnorm_plan(x_len, c, h, w, eps);
            let silu = vae::silu_plan(x_len);
            let up = vae::upsample_plan(x_len, y_len, c, h, w);
            let alone = attention::flash_plan(a);
            let pooled = attention::pooled_plan(resident, a);
            &&& reads_follow_commits(norm) && committed_at(norm, norm.len() - 2)
            &&& reads_follow_commits(silu) && committed_at(silu, silu.len() - 2)
            &&& reads_follow_commits(up) && committed_at(up, up.len() - 2)
            &&& reads_follow_commits(alone) && committed_at(alone, alone.len() - 2)
            &&& reads_follow_commits(pooled) && committed_at(pooled, pooled.len() - 2)
        }),
{
}

proof fn lemma_tiles_in_order(g: ConvGeometry, weight: MetalWeightHandle, n: nat)
    ensures
        reads_follow_commits(g.tiles(weight, n)),
        g.tiles(weight, n).len() == 5 * n,
        n > 0 ==> committed_at(g.tiles(weight, n), 5 * n - 3),
    decreases n,
{
    if n > 0 {
        lemma_tiles_in_order(g, weight, (n - 1) as nat);
        let before = g.tiles(weight, (n - 1) as nat);
        let last = g.tile(weight, n - 1);
        let all = before + last;
        assert forall|i: int| 0 <= i < all.len() && is_read(#[trigger] all[i]) implies i > 0 && all[
            i - 1] is Commit by {
            if i < before.len() {
                assert(all[i] == before[i] && all[i - 1] == before[i - 1]);
            } else {
                assert(all[i] == last[i - before.len()]);
            }
        }
        assert(all[5 * n - 3] == last[2]);
        assert(all[5 * n - 2] == last[3] && all[5 * n - 1] == last[4]);
    }
}

/// Convolutions.
pub proof fn law_convolutions_commit_before_reading(
    g: ConvGeometry,
    weight: MetalWeightHandle,
    input_len: usize,
)
    requires
        g.wf(),
    ensures
        ({
            let on_the_fly = g.implicit_plan(weight, input_len);
            let tiled = g.im2col_plan(weight, input_len);
            &&& reads_follow_commits(on_the_fly) && committed_at(
                on_the_fly,
                on_the_fly.len() - 3,
            )
            &&& reads_follow_commits(tiled) && committed_at(tiled, tiled.len() - 4)
        }),
{
    vae::lemma_tile_rows(g);
    let n = g.tile_count() as nat;
    lemma_tiles_in_order(g, weight, n);
    let tiles = g.tiles(weight, n);
    let plan = g.im2col_plan(weight, input_len);
    assert forall|i: int| 0 <= i < plan.len() && is_read(#[trigger] plan[i]) implies i > 0 && plan[i
        - 1] is Commit by {
        if 4 <= i < 4 + tiles.len() {
            assert(plan[i] == tiles[i - 4]);
            assert(plan[i - 1] == tiles[i - 5]);
        }
    }
    let c = plan.len() - 4;
    assert(plan[c] == tiles[5 * n - 3]);
    assert(plan[c + 1] == tiles[5 * n - 2] && plan[c + 2] == tiles[5 * n - 1]);
}

/// The tail of a forward pass.
pub proof fn law_passes_commit_before_reading(
    resident: Residency,
    a: PrefillArgs,
    ternary: bool,
    want_logits: bool,
    want_token: bool,
)
    ensures
        ({
            let last = a.last_token_tail(resident, ternary, want_logits, want_token);
            let reads = a.has_head() && (want_logits || want_token);
            &&& reads_follow_commits(last)
            &&& committed_at(
                last,
                last.len() - if reads {
                    2int
                } else {
                    1int
                },
            )
        }),
        ({
            let every = a.verify_tail(resident, ternary);
            &&& reads_follow_commits(every)
            &&& committed_at(
                every,
                every.len() - if a.has_head() {
                    2int
                } else {
                    1int
                },
            )
        }),
{
}

} // verus!

//! What the planned passes read back.

use vstd::prelude::*;

use crate::gpu_backend::metal_graph::device::Action;
use crate::gpu_backend::metal_graph::error::MetalGraphError;
use crate::gpu_backend::metal_graph::graph::{MetalGraph, Residency};
use crate::gpu_backend::metal_prefill::functions_2;
use crate::gpu_backend::metal_prefill::functions_2::{FullForwardLayerParams, HeadParams};
use crate::gpu_backend::metal_prefill::types::{LayerWeightRefs, PrefillArgs};
use crate::gpu_backend::metal_prefill::whole_pass;
use crate::gpu_backend::metal_prefill::whole_pass::PassRun;

verus! {

/// The lengths of a pass's operands are accepted exactly where there are numbers for every
/// token and weights for every layer.
pub proof fn law_pass_accepts(resident: Residency, a: PrefillArgs, n_weights: nat)
    requires
        resident.prefill_buffers == Some(a.set()),
    ensures
        a.fault(resident, n_weights) is None <==> {
            &&& a.hidden_len >= a.batch_size * a.config.hidden_size
            &&& a.cos_len >= a.batch_size * (a.config.head_dim / 2)
            &&& a.sin_len >= a.batch_size * (a.config.head_dim / 2)
            &&& n_weights == a.n_layers
        },
{
}

/// A pass that is planned reads back the last token's greedy token where it is wanted,
/// and else its logits where they are.
pub proof fn law_pass_reads_the_last_token(
    g: &MetalGraph,
    weights: &[LayerWeightRefs],
    args: &PrefillArgs,
    want_logits: bool,
    want_token: bool,
    r: Result<Vec<Action>, MetalGraphError>,
    run: PassRun,
)
    requires
        run.wf(),
        run.a == *args,
        run.weights == weights@,
        run.resident == g.resident,
        args.has_head(),
        r is Ok,
        if run.ternary {
            call_ensures(
                MetalGraph::encode_full_forward_prefill_ternary,
                (g, weights, args, want_logits, want_token),
                r,
            )
        } else {
            call_ensures(
                MetalGraph::encode_full_forward_prefill,
                (g, weights, args, want_logits, want_token),
                r,
            )
        },
    ensures
        ({
            let read = run.after(run.s, r->Ok_0@).read;
            let logits = run.logits(args.batch_size - 1);
            &&& want_token ==> read == seq![(run.k.largest)(logits)]
            &&& !want_token && want_logits ==> read == logits
        }),
{
    whole_pass::law_last_token(run, want_logits, want_token);
}

/// A verifying pass that is planned reads back every token's greedy token.
pub proof fn law_pass_reads_every_token(
    g: &MetalGraph,
    weights: &[LayerWeightRefs],
    args: &PrefillArgs,
    r: Result<Vec<Action>, MetalGraphError>,
    run: PassRun,
)
    requires
        run.wf(),
        run.a == *args,
        run.weights == weights@,
        run.resident == g.resident,
        args.has_head(),
        r is Ok,
        if run.ternary {
            call_ensures(
                MetalGraph::encode_full_forward_prefill_verify_ternary,
                (g, weights, args),
                r,
            )
        } else {
            call_ensures(
                MetalGraph::encode_full_forward_prefill_verify,
                (g, weights, args),
                r,
            )
        },
    ensures
        run.after(run.s, r->Ok_0@).read == Seq::new(
            args.batch_size as nat,
            |t: int| (run.k.largest)(run.logits(t)),
        ),
{
    whole_pass::law_every_token(run);
}

/// The pass that an entry point plans: with the model's weights, as they were fetched.
pub open spec fn is_pass_of(
    run: PassRun,
    before: MetalGraph,
    params: Seq<FullForwardLayerParams>,
    head: HeadParams,
    args: PrefillArgs,
) -> bool {
    let fetched = functions_2::model_fetched(before.weights@, params, head, run.ternary).1;
    &&& run.wf()
    &&& run.resident == before.resident
    &&& run.a.has_head()
    &&& fetched matches Ok(m) && run.weights == m.layers && run.a == (PrefillArgs {
        final_norm_w: m.final_norm_w,
        lm_head_w: m.lm_head_w,
        ..args
    })
}

/// An entry point refuses a wrong number of layers and a missing device, and keeps what is
/// resident. What it plans is the pass with the model's weights: it reads back the last
/// token's greedy token where it is wanted, and else its logits where they are.
pub proof fn law_entry_point_reads_the_last_token(
    graph: &mut MetalGraph,
    available: Result<(), MetalGraphError>,
    params: &[FullForwardLayerParams<'_>],
    head: &HeadParams<'_>,
    args: &PrefillArgs,
    want_logits: bool,
    want_token: bool,
    r: Result<Vec<Action>, MetalGraphError>,
    run: PassRun,
)
    requires
        if run.ternary {
            call_ensures(
                functions_2::try_metal_full_forward_prefill_ternary,
                (graph, available, params, head, args, want_logits, want_token),
                r,
            )
        } else {
            call_ensures(
                functions_2::try_metal_full_forward_prefill,
                (graph, available, params, head, args, want_logits, want_token),
                r,
            )
        },
    ensures
        final(graph).resident == old(graph).resident,
        r is Ok ==> params@.len() == args.n_layers && available is Ok,
        r is Ok && is_pass_of(run, *old(graph), params@, *head, *args) ==> {
            let read = run.after(run.s, r->Ok_0@).read;
            let logits = run.logits(args.batch_size - 1);
            &&& want_token ==> read == seq![(run.k.largest)(logits)]
            &&& !want_token && want_logits ==> read == logits
        },
{
    if is_pass_of(run, *old(graph), params@, *head, *args) {
        whole_pass::law_last_token(run, want_logits, want_token);
    }
}

/// A verifying entry point, in the same way, reads back every token's greedy token.
pub proof fn law_entry_point_reads_every_token(
    graph: &mut MetalGraph,
    available: Result<(), MetalGraphError>,
    params: &[FullForwardLayerParams<'_>],
    head: &HeadParams<'_>,
    args: &PrefillArgs,
    r: Result<Vec<Action>, MetalGraphError>,
    run: PassRun,
)
    requires
        if run.ternary {
            call_ensures(
                functions_2::try_metal_full_forward_prefill_verify_ternary,
                (graph, available, params, head, args),
                r,
            )
        } else {
            call_ensures(
                functions_2::try_metal_full_forward_prefill_verify,
                (graph, available, params, head, args),
                r,
            )
        },
    ensures
        final(graph).resident == old(graph).resident,
        r is Ok ==> params@.len() == args.n_layers && available is Ok,
        r is Ok && is_pass_of(run, *old(graph), params@, *head, *args) ==> run.after(
            run.s,
            r->Ok_0@,
        ).read == Seq::new(args.batch_size as nat, |t: int| (run.k.largest)(run.logits(t))),
{
    if is_pass_of(run, *old(graph), params@, *head, *args) {
        whole_pass::law_every_token(run);
    }
}

} // verus!

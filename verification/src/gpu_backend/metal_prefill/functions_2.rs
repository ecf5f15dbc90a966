//! Entry points of the batch prefill: fetch all weights, then plan the pass.

use vstd::prelude::*;

use crate::gpu_backend::metal_graph::device::Action;
use crate::gpu_backend::metal_graph::error::{
    encoding_failed, MetalFault, MetalGraphError, MetalWeightHandle,
};
use crate::gpu_backend::metal_graph::graph::MetalGraph;
use crate::gpu_backend::metal_graph::weights;
use crate::gpu_backend::metal_graph::weights::{WeightContent, Weights};
use crate::gpu_backend::metal_prefill::forward;
use crate::gpu_backend::metal_prefill::types::{LayerWeightRefs, PrefillArgs};
use crate::text;
use crate::text::Msg;

verus! {

/// Weights of one layer on the host, each with the key of its resident copy.
/// Norms are bits of single-precision numbers, projections packed blocks.
#[derive(Debug, Clone, Copy)]
pub struct FullForwardLayerParams<'a> {
    /// Key of the RMSNorm before attention.
    pub attn_norm_handle: u64,
    /// RMSNorm before attention.
    pub attn_norm_bits: &'a [u32],
    /// Key of the query norm.
    pub q_norm_handle: u64,
    /// Query norm.
    pub q_norm_bits: &'a [u32],
    /// Key of the key norm.
    pub k_norm_handle: u64,
    /// Key norm.
    pub k_norm_bits: &'a [u32],
    /// Key of the RMSNorm before the MLP.
    pub ffn_norm_handle: u64,
    /// RMSNorm before the MLP.
    pub ffn_norm_bits: &'a [u32],
    /// Key of the fused Q, K and V projection.
    pub fused_qkv_handle: u64,
    /// Fused Q, K and V projection.
    pub fused_qkv_bytes: &'a [u8],
    /// Key of the attention output projection.
    pub attn_proj_handle: u64,
    /// Attention output projection.
    pub attn_proj_bytes: &'a [u8],
    /// Key of the fused gate and up projection.
    pub gate_up_handle: u64,
    /// Gate projection.
    pub gate_bytes: &'a [u8],
    /// Up projection.
    pub up_bytes: &'a [u8],
    /// Key of the down projection.
    pub down_handle: u64,
    /// Down projection.
    pub down_bytes: &'a [u8],
}

/// Packed projection blocks, regrouped.
pub open spec fn projection(bytes: Seq<u8>, ternary: bool) -> Result<WeightContent, MetalFault> {
    if ternary {
        weights::tq2_weight(bytes)
    } else {
        weights::q1_weight(bytes)
    }
}

impl<'a> FullForwardLayerParams<'a> {
    /// The norms' byte sizes fit.
    pub open spec fn fits(self) -> bool {
        &&& self.attn_norm_bits@.len() * 4 <= usize::MAX
        &&& self.q_norm_bits@.len() * 4 <= usize::MAX
        &&& self.k_norm_bits@.len() * 4 <= usize::MAX
        &&& self.ffn_norm_bits@.len() * 4 <= usize::MAX
    }

    /// The layer's weights, fetched one after the other: the four norms, then
    /// the projections, with gate and up as one weight.
    pub open spec fn fetched(self, s: Weights, ternary: bool) -> (
        Weights,
        Result<LayerWeightRefs, MetalFault>,
    ) {
        let (s, attn_norm) = s.fetch(
            self.attn_norm_handle,
            weights::f32_weight(self.attn_norm_bits@),
        );
        match attn_norm {
            Err(f) => (s, Err(f)),
            Ok(attn_norm) => {
                let (s, q_norm) = s.fetch(
                    self.q_norm_handle,
                    weights::f32_weight(self.q_norm_bits@),
                );
                match q_norm {
                    Err(f) => (s, Err(f)),
                    Ok(q_norm) => {
                        let (s, k_norm) = s.fetch(
                            self.k_norm_handle,
                            weights::f32_weight(self.k_norm_bits@),
                        );
                        match k_norm {
                            Err(f) => (s, Err(f)),
                            Ok(k_norm) => {
                                let (s, ffn_norm) = s.fetch(
                                    self.ffn_norm_handle,
                                    weights::f32_weight(self.ffn_norm_bits@),
                                );
                                match ffn_norm {
                                    Err(f) => (s, Err(f)),
                                    Ok(ffn_norm) => {
                                        let (s, projections) = self.projections(s, ternary);
                                        match projections {
                                            Err(f) => (s, Err(f)),
                                            Ok((qkv, output_proj, gate_up, down)) => (
                                                s,
                                                Ok(
                                                    LayerWeightRefs {
                                                        attn_norm,
                                                        qkv,
                                                        q_norm,
                                                        k_norm,
                                                        output_proj,
                                                        ffn_norm,
                                                        gate_up,
                                                        down,
                                                    },
                                                ),
                                            ),
                                        }
                                    },
                                }
                            },
                        }
                    },
                }
            },
        }
    }

    /// The layer's projections, fetched one after the other.
    pub open spec fn projections(self, s: Weights, ternary: bool) -> (
        Weights,
        Result<
            (MetalWeightHandle, MetalWeightHandle, MetalWeightHandle, MetalWeightHandle),
            MetalFault,
        >,
    ) {
        let (s, qkv) = s.fetch(self.fused_qkv_handle, projection(self.fused_qkv_bytes@, ternary));
        match qkv {
            Err(f) => (s, Err(f)),
            Ok(qkv) => {
                let (s, output_proj) = s.fetch(
                    self.attn_proj_handle,
                    projection(self.attn_proj_bytes@, ternary),
                );
                match output_proj {
                    Err(f) => (s, Err(f)),
                    Ok(output_proj) => {
                        let (s, gate_up) = s.fetch(
                            self.gate_up_handle,
                            projection(self.gate_bytes@ + self.up_bytes@, ternary),
                        );
                        match gate_up {
                            Err(f) => (s, Err(f)),
                            Ok(gate_up) => {
                                let (s, down) = s.fetch(
                                    self.down_handle,
                                    projection(self.down_bytes@, ternary),
                                );
                                match down {
                                    Err(f) => (s, Err(f)),
                                    Ok(down) => (s, Ok((qkv, output_proj, gate_up, down))),
                                }
                            },
                        }
                    },
                }
            },
        }
    }
}

/// The weights of the first `n` layers, fetched in order.
pub open spec fn layers_fetched(
    s: Weights,
    params: Seq<FullForwardLayerParams>,
    n: nat,
    ternary: bool,
) -> (Weights, Result<Seq<LayerWeightRefs>, MetalFault>)
    decreases n,
{
    if n == 0 {
        (s, Ok(seq![]))
    } else {
        let (s, before) = layers_fetched(s, params, (n - 1) as nat, ternary);
        match before {
            Err(f) => (s, Err(f)),
            Ok(refs) => {
                let (s, last) = params[n - 1].fetched(s, ternary);
                match last {
                    Err(f) => (s, Err(f)),
                    Ok(w) => (s, Ok(refs.push(w))),
                }
            },
        }
    }
}

/// A weight of the output head, fetched where both key and data are given.
pub open spec fn head_fetched(
    s: Weights,
    key: Option<u64>,
    data: Option<Result<WeightContent, MetalFault>>,
) -> (Weights, Result<Option<MetalWeightHandle>, MetalFault>) {
    match (key, data) {
        (Some(k), Some(d)) => {
            let (s, r) = s.fetch(k, d);
            match r {
                Err(f) => (s, Err(f)),
                Ok(h) => (s, Ok(Some(h))),
            }
        },
        _ => (s, Ok(None)),
    }
}

/// The output head's weights on the host: a key and data for each, all
/// optional.
#[derive(Debug, Clone, Copy)]
pub struct HeadParams<'a> {
    /// Key of the final norm.
    pub final_norm_handle: Option<u64>,
    /// Final norm, as bits of single-precision numbers.
    pub final_norm_bits: Option<&'a [u32]>,
    /// Key of the LM head.
    pub lm_head_handle: Option<u64>,
    /// LM head, as packed blocks.
    pub lm_head_bytes: Option<&'a [u8]>,
}

impl<'a> HeadParams<'a> {
    /// The final norm's contents.
    pub open spec fn norm_data(self) -> Option<Result<WeightContent, MetalFault>> {
        match self.final_norm_bits {
            Some(b) => Some(weights::f32_weight(b@)),
            None => None,
        }
    }

    /// The LM head's contents.
    pub open spec fn lm_data(self, ternary: bool) -> Option<Result<WeightContent, MetalFault>> {
        match self.lm_head_bytes {
            Some(b) => Some(projection(b@, ternary)),
            None => None,
        }
    }

    /// The final norm's byte size fits.
    pub open spec fn fits(self) -> bool {
        self.final_norm_bits matches Some(b) ==> b@.len() * 4 <= usize::MAX
    }
}

/// All weights of a pass.
pub struct FetchedModel {
    /// Layer weights.
    pub layers: Seq<LayerWeightRefs>,
    /// Final norm.
    pub final_norm_w: Option<MetalWeightHandle>,
    /// LM head.
    pub lm_head_w: Option<MetalWeightHandle>,
}

/// All weights of a pass, fetched in order: the layers, the final norm, the LM
/// head.
pub open spec fn model_fetched(
    s: Weights,
    params: Seq<FullForwardLayerParams>,
    head: HeadParams,
    ternary: bool,
) -> (Weights, Result<FetchedModel, MetalFault>) {
    let (s, layers) = layers_fetched(s, params, params.len(), ternary);
    match layers {
        Err(f) => (s, Err(f)),
        Ok(layers) => {
            let (s, norm) = head_fetched(s, head.final_norm_handle, head.norm_data());
            match norm {
                Err(f) => (s, Err(f)),
                Ok(final_norm_w) => {
                    let (s, lm) = head_fetched(s, head.lm_head_handle, head.lm_data(ternary));
                    match lm {
                        Err(f) => (s, Err(f)),
                        Ok(lm_head_w) => (s, Ok(FetchedModel { layers, final_norm_w, lm_head_w })),
                    }
                },
            }
        },
    }
}

/// Arguments of a pass with the head's weights filled in.
pub open spec fn with_head(
    args: PrefillArgs,
    final_norm_w: Option<MetalWeightHandle>,
    lm_head_w: Option<MetalWeightHandle>,
) -> PrefillArgs {
    PrefillArgs { final_norm_w, lm_head_w, ..args }
}

/// The length check that precedes everything else.
pub open spec fn params_fault(n_layers: usize, n_params: nat) -> Option<MetalFault> {
    if n_params != n_layers {
        Some(
            MetalFault::EncodingFailed(
                "layer_params length mismatch: need "@ + text::dec(n_layers as nat) + ", got "@
                    + text::dec(n_params),
            ),
        )
    } else {
        None
    }
}

/// What a pass may be asked: no size overflows whichever head weights are
/// found, and there are buffer numbers left.
pub open spec fn pass_fits(
    graph: MetalGraph,
    params: Seq<FullForwardLayerParams>,
    head: HeadParams,
    args: PrefillArgs,
    columns: int,
    ternary: bool,
) -> bool {
    &&& graph.weights.next_buffer + 8 * params.len() + 2 < u64::MAX
    &&& forall|i: int| 0 <= i < params.len() ==> (#[trigger] params[i]).fits()
    &&& head.fits()
    &&& forall|f: Option<MetalWeightHandle>, l: Option<MetalWeightHandle>|
        (f is Some ==> head.final_norm_handle is Some && head.final_norm_bits is Some) && (l is Some
            ==> head.lm_head_handle is Some && head.lm_head_bytes is Some)
            ==> #[trigger] with_head(args, f, l).no_overflow(
            graph.resident,
            params.len(),
            columns,
            ternary,
        )
}

/// What an entry point does: refuse a wrong number of layers, then report a
/// missing device, then fetch all weights, and then plan the pass, whose plan
/// is `tail` after prologue and layers.
pub open spec fn entry_point(
    before: MetalGraph,
    after: MetalGraph,
    available: Result<(), MetalGraphError>,
    params: Seq<FullForwardLayerParams>,
    head: HeadParams,
    args: PrefillArgs,
    ternary: bool,
    tail: spec_fn(PrefillArgs) -> Seq<Action>,
    r: Result<Vec<Action>, MetalGraphError>,
) -> bool {
    &&& after.resident == before.resident
    &&& match params_fault(args.n_layers, params.len()) {
        Some(f) => (r matches Err(e) && e@ == f) && after.weights@ == before.weights@,
        None => match available {
            Err(d) => r == Err::<Vec<Action>, MetalGraphError>(d) && after.weights@
                == before.weights@,
            Ok(_) => {
                let (s, model) = model_fetched(before.weights@, params, head, ternary);
                &&& after.weights@ == s
                &&& match model {
                    Err(f) => r matches Err(e) && e@ == f,
                    Ok(m) => {
                        let a = with_head(args, m.final_norm_w, m.lm_head_w);
                        match a.fault(before.resident, m.layers.len()) {
                            Some(f) => r matches Err(e) && e@ == f,
                            None => r matches Ok(plan) && plan@ == a.prologue(before.resident)
                                + forward::layers_prefill(
                                m.layers,
                                a.n_layers as nat,
                                a,
                                ternary,
                            ) + tail(a),
                        }
                    },
                }
            },
        },
    }
}

/// Gate and up blocks as one weight.
fn fused(gate: &[u8], up: &[u8]) -> (v: Vec<u8>)
    ensures
        v@ == gate@ + up@,
{
    let mut v: Vec<u8> = Vec::new();
    v.extend_from_slice(gate);
    v.extend_from_slice(up);
    assert(v@ =~= gate@ + up@);
    v
}

impl MetalGraph {
    /// The weight under `key`, queued from packed blocks where there is none.
    fn fetch_projection(&mut self, key: u64, bytes: &[u8], ternary: bool) -> (r: Result<
        MetalWeightHandle,
        MetalGraphError,
    >)
        requires
            old(self).weights.next_buffer < u64::MAX,
        ensures
            (final(self).weights@, weights::outcome(r)) == old(self).weights@.fetch(
                key,
                projection(bytes@, ternary),
            ),
            final(self).resident == old(self).resident,
            final(self).weights.next_buffer <= old(self).weights.next_buffer + 1,
    {
        if ternary {
            self.get_or_upload_tq2_weight_soa(key, bytes)
        } else {
            self.get_or_upload_q1_weight_soa(key, bytes)
        }
    }

    /// The weight under `key`, queued from gate and up blocks where there is
    /// none.
    fn fetch_gate_up(&mut self, key: u64, gate: &[u8], up: &[u8], ternary: bool) -> (r: Result<
        MetalWeightHandle,
        MetalGraphError,
    >)
        requires
            old(self).weights.next_buffer < u64::MAX,
        ensures
            (final(self).weights@, weights::outcome(r)) == old(self).weights@.fetch(
                key,
                projection(gate@ + up@, ternary),
            ),
            final(self).resident == old(self).resident,
            final(self).weights.next_buffer <= old(self).weights.next_buffer + 1,
    {
        let data_fn = || -> (v: Vec<u8>)
            ensures
                v@ == gate@ + up@,
            { fused(gate, up) };
        if ternary {
            self.get_or_upload_tq2_weight_soa_lazy(key, data_fn)
        } else {
            self.get_or_upload_q1_weight_soa_lazy(key, data_fn)
        }
    }

    /// Fetches the weights of one layer.
    fn fetch_layer(&mut self, lp: &FullForwardLayerParams<'_>, ternary: bool) -> (r: Result<
        LayerWeightRefs,
        MetalGraphError,
    >)
        requires
            old(self).weights.next_buffer + 8 < u64::MAX,
            lp.fits(),
        ensures
            (final(self).weights@, weights::outcome(r)) == lp.fetched(old(self).weights@, ternary),
            final(self).resident == old(self).resident,
            final(self).weights.next_buffer <= old(self).weights.next_buffer + 8,
    {
        let attn_norm = self.get_or_upload_f32_weight(lp.attn_norm_handle, lp.attn_norm_bits)?;
        let q_norm = self.get_or_upload_f32_weight(lp.q_norm_handle, lp.q_norm_bits)?;
        let k_norm = self.get_or_upload_f32_weight(lp.k_norm_handle, lp.k_norm_bits)?;
        let ffn_norm = self.get_or_upload_f32_weight(lp.ffn_norm_handle, lp.ffn_norm_bits)?;
        let qkv = self.fetch_projection(lp.fused_qkv_handle, lp.fused_qkv_bytes, ternary)?;
        let output_proj = self.fetch_projection(lp.attn_proj_handle, lp.attn_proj_bytes, ternary)?;
        let gate_up = self.fetch_gate_up(
            lp.gate_up_handle,
            lp.gate_bytes,
            lp.up_bytes,
            ternary,
        )?;
        let down = self.fetch_projection(lp.down_handle, lp.down_bytes, ternary)?;
        Ok(
            LayerWeightRefs {
                attn_norm,
                qkv,
                q_norm,
                k_norm,
                output_proj,
                ffn_norm,
                gate_up,
                down,
            },
        )
    }

    /// Fetches the weights of all layers, then of the head.
    fn fetch_model(
        &mut self,
        layer_params: &[FullForwardLayerParams<'_>],
        head: &HeadParams<'_>,
        ternary: bool,
    ) -> (r: Result<
        (Vec<LayerWeightRefs>, Option<MetalWeightHandle>, Option<MetalWeightHandle>),
        MetalGraphError,
    >)
        requires
            old(self).weights.next_buffer + 8 * layer_params@.len() + 2 < u64::MAX,
            forall|i: int| 0 <= i < layer_params@.len() ==> (#[trigger] layer_params@[i]).fits(),
            head.fits(),
        ensures
            final(self).resident == old(self).resident,
            ({
                let (s, model) = model_fetched(
                    old(self).weights@,
                    layer_params@,
                    *head,
                    ternary,
                );
                &&& final(self).weights@ == s
                &&& match r {
                    Err(e) => model == Err::<FetchedModel, MetalFault>(e@),
                    Ok((layers, norm, lm)) => model == Ok::<FetchedModel, MetalFault>(
                        FetchedModel {
                            layers: layers@,
                            final_norm_w: norm,
                            lm_head_w: lm,
                        },
                    ),
                }
            }),
            r matches Ok((layers, norm, lm)) ==> layers@.len() == layer_params@.len() && (norm
                is Some ==> head.final_norm_handle is Some && head.final_norm_bits is Some) && (lm
                is Some ==> head.lm_head_handle is Some && head.lm_head_bytes is Some),
    {
        let ghost start = self.weights@;
        let ghost first = self.weights.next_buffer as int;
        let n: usize = layer_params.len();
        let mut layers: Vec<LayerWeightRefs> = Vec::with_capacity(n);
        let mut i: usize = 0;
        assert(layers@ =~= seq![]);
        while i < n
            invariant
                n == layer_params@.len(),
                i <= n,
                layers@.len() == i,
                start == old(self).weights@,
                self.resident == old(self).resident,
                first + 8 * n + 2 < u64::MAX,
                self.weights.next_buffer <= first + 8 * i,
                forall|j: int| 0 <= j < n ==> (#[trigger] layer_params@[j]).fits(),
                layers_fetched(start, layer_params@, i as nat, ternary) == (self.weights@, Ok::<
                    Seq<LayerWeightRefs>,
                    MetalFault,
                >(layers@)),
            decreases n - i,
        {
            match self.fetch_layer(&layer_params[i], ternary) {
                Ok(w) => {
                    layers.push(w);
                },
                Err(e) => {
                    proof {
                        lemma_layers_stop(start, layer_params@, i as nat + 1, n as nat, ternary);
                    }
                    return Err(e);
                },
            }
            i += 1;
        }
        let final_norm_w = match (head.final_norm_handle, head.final_norm_bits) {
            (Some(handle), Some(bits)) => Some(self.get_or_upload_f32_weight(handle, bits)?),
            _ => None,
        };
        let lm_head_w = match (head.lm_head_handle, head.lm_head_bytes) {
            (Some(handle), Some(bytes)) => Some(self.fetch_projection(handle, bytes, ternary)?),
            _ => None,
        };
        Ok((layers, final_norm_w, lm_head_w))
    }
}

/// Once a layer's weights cannot be fetched, no later layer is tried.
proof fn lemma_layers_stop(
    s: Weights,
    params: Seq<FullForwardLayerParams>,
    failed: nat,
    n: nat,
    ternary: bool,
)
    requires
        failed <= n,
        layers_fetched(s, params, failed, ternary).1 is Err,
    ensures
        layers_fetched(s, params, n, ternary) == layers_fetched(s, params, failed, ternary),
    decreases n - failed,
{
    if failed < n {
        lemma_layers_stop(s, params, failed, (n - 1) as nat, ternary);
    }
}

/// The error of a wrong number of layers.
fn params_mismatch(n_layers: usize, n_params: usize) -> (e: MetalGraphError)
    ensures
        n_params != n_layers ==> params_fault(n_layers, n_params as nat) == Some(e@),
{
    encoding_failed(
        Msg::new("layer_params length mismatch: need ").num(n_layers).lit(", got ").num(n_params),
    )
}

/// Plans a batch prefill with 1-bit weights: fetches all weights, runs all
/// layers, and reads back the last token's logits or greedy token.
///
/// `available` says whether a device was found.
pub fn try_metal_full_forward_prefill(
    graph: &mut MetalGraph,
    available: Result<(), MetalGraphError>,
    layer_params: &[FullForwardLayerParams<'_>],
    head: &HeadParams<'_>,
    args: &PrefillArgs,
    want_logits: bool,
    want_token: bool,
) -> (r: Result<Vec<Action>, MetalGraphError>)
    requires
        pass_fits(*old(graph), layer_params@, *head, *args, 1, false),
    ensures
        entry_point(
            *old(graph),
            *final(graph),
            available,
            layer_params@,
            *head,
            *args,
            false,
            |a: PrefillArgs|
                a.last_token_tail(old(graph).resident, false, want_logits, want_token),
            r,
        ),
{
    if layer_params.len() != args.n_layers {
        return Err(params_mismatch(args.n_layers, layer_params.len()));
    }
    if let Err(e) = available {
        return Err(e);
    }
    let (layers, final_norm_w, lm_head_w) = graph.fetch_model(layer_params, head, false)?;
    let full = PrefillArgs { final_norm_w, lm_head_w, ..*args };
    assert(full == with_head(*args, final_norm_w, lm_head_w));
    graph.encode_full_forward_prefill(layers.as_slice(), &full, want_logits, want_token)
}

/// Plans a batch prefill with 1-bit weights whose every position's greedy
/// token is read back.
pub fn try_metal_full_forward_prefill_verify(
    graph: &mut MetalGraph,
    available: Result<(), MetalGraphError>,
    layer_params: &[FullForwardLayerParams<'_>],
    head: &HeadParams<'_>,
    args: &PrefillArgs,
) -> (r: Result<Vec<Action>, MetalGraphError>)
    requires
        pass_fits(*old(graph), layer_params@, *head, *args, args.batch_size as int, false),
    ensures
        entry_point(
            *old(graph),
            *final(graph),
            available,
            layer_params@,
            *head,
            *args,
            false,
            |a: PrefillArgs| a.verify_tail(old(graph).resident, false),
            r,
        ),
{
    if layer_params.len() != args.n_layers {
        return Err(params_mismatch(args.n_layers, layer_params.len()));
    }
    if let Err(e) = available {
        return Err(e);
    }
    let (layers, final_norm_w, lm_head_w) = graph.fetch_model(layer_params, head, false)?;
    let full = PrefillArgs { final_norm_w, lm_head_w, ..*args };
    assert(full == with_head(*args, final_norm_w, lm_head_w));
    graph.encode_full_forward_prefill_verify(layers.as_slice(), &full)
}

/// Plans a batch prefill with ternary weights: fetches all weights, runs all
/// layers, and reads back the last token's logits or greedy token.
pub fn try_metal_full_forward_prefill_ternary(
    graph: &mut MetalGraph,
    available: Result<(), MetalGraphError>,
    layer_params: &[FullForwardLayerParams<'_>],
    head: &HeadParams<'_>,
    args: &PrefillArgs,
    want_logits: bool,
    want_token: bool,
) -> (r: Result<Vec<Action>, MetalGraphError>)
    requires
        pass_fits(*old(graph), layer_params@, *head, *args, 1, true),
    ensures
        entry_point(
            *old(graph),
            *final(graph),
            available,
            layer_params@,
            *head,
            *args,
            true,
            |a: PrefillArgs| a.last_token_tail(old(graph).resident, true, want_logits, want_token),
            r,
        ),
{
    if layer_params.len() != args.n_layers {
        return Err(params_mismatch(args.n_layers, layer_params.len()));
    }
    if let Err(e) = available {
        return Err(e);
    }
    let (layers, final_norm_w, lm_head_w) = graph.fetch_model(layer_params, head, true)?;
    let full = PrefillArgs { final_norm_w, lm_head_w, ..*args };
    assert(full == with_head(*args, final_norm_w, lm_head_w));
    graph.encode_full_forward_prefill_ternary(layers.as_slice(), &full, want_logits, want_token)
}

/// Plans a batch prefill with ternary weights whose every position's greedy
/// token is read back.
pub fn try_metal_full_forward_prefill_verify_ternary(
    graph: &mut MetalGraph,
    available: Result<(), MetalGraphError>,
    layer_params: &[FullForwardLayerParams<'_>],
    head: &HeadParams<'_>,
    args: &PrefillArgs,
) -> (r: Result<Vec<Action>, MetalGraphError>)
    requires
        pass_fits(*old(graph), layer_params@, *head, *args, args.batch_size as int, true),
    ensures
        entry_point(
            *old(graph),
            *final(graph),
            available,
            layer_params@,
            *head,
            *args,
            true,
            |a: PrefillArgs| a.verify_tail(old(graph).resident, true),
            r,
        ),
{
    if layer_params.len() != args.n_layers {
        return Err(params_mismatch(args.n_layers, layer_params.len()));
    }
    if let Err(e) = available {
        return Err(e);
    }
    let (layers, final_norm_w, lm_head_w) = graph.fetch_model(layer_params, head, true)?;
    let full = PrefillArgs { final_norm_w, lm_head_w, ..*args };
    assert(full == with_head(*args, final_norm_w, lm_head_w));
    graph.encode_full_forward_prefill_verify_ternary(layers.as_slice(), &full)
}

} // verus!

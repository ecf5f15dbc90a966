//! What fetched weights hold.

use vstd::prelude::*;

use crate::gpu_backend::metal_graph::error::{MetalFault, MetalWeightHandle};
use crate::gpu_backend::metal_graph::reformat;
use crate::gpu_backend::metal_graph::weights;
use crate::gpu_backend::metal_graph::weights::{WeightContent, Weights};
use crate::gpu_backend::metal_prefill::functions_2;
use crate::gpu_backend::metal_prefill::functions_2::{FullForwardLayerParams, HeadParams};
use crate::gpu_backend::metal_prefill::types::LayerWeightRefs;

verus! {

/// A buffer with these numbers waits to be uploaded.
pub open spec fn holds_numbers(s: Weights, w: MetalWeightHandle, bits: Seq<u32>) -> bool {
    &&& w.byte_len == 4 * bits.len()
    &&& s.pending.contains((w.buffer, WeightContent::Floats(bits)))
}

/// A buffer with these blocks, regrouped, waits to be uploaded.
pub open spec fn holds_blocks(
    s: Weights,
    w: MetalWeightHandle,
    blocks: Seq<u8>,
    ternary: bool,
) -> bool {
    &&& w.byte_len == blocks.len()
    &&& exists|soa: Seq<u8>|
        #[trigger] reformat::is_regrouped(blocks, soa, ternary) && s.pending.contains(
            (w.buffer, WeightContent::Bytes(soa)),
        )
}

/// What waits stays, and keys keep their weights.
spec fn extends(s: Weights, later: Weights) -> bool {
    &&& s.pending.len() <= later.pending.len()
    &&& forall|i: int| 0 <= i < s.pending.len() ==> #[trigger] later.pending[i] == s.pending[i]
    &&& forall|k: u64| #[trigger] s.cache.contains_key(k) ==> later.cache.contains_key(k)
        && later.cache[k] == s.cache[k]
}

proof fn lemma_keeps_numbers(s: Weights, later: Weights, w: MetalWeightHandle, bits: Seq<u32>)
    requires
        extends(s, later),
        holds_numbers(s, w, bits),
    ensures
        holds_numbers(later, w, bits),
{
    let x = (w.buffer, WeightContent::Floats(bits));
    let i = choose|i: int| 0 <= i < s.pending.len() && s.pending[i] == x;
    assert(later.pending[i] == x);
}

proof fn lemma_keeps_blocks(
    s: Weights,
    later: Weights,
    w: MetalWeightHandle,
    blocks: Seq<u8>,
    ternary: bool,
)
    requires
        extends(s, later),
        holds_blocks(s, w, blocks, ternary),
    ensures
        holds_blocks(later, w, blocks, ternary),
{
    let soa = choose|soa: Seq<u8>|
        #[trigger] reformat::is_regrouped(blocks, soa, ternary) && s.pending.contains(
            (w.buffer, WeightContent::Bytes(soa)),
        );
    let x = (w.buffer, WeightContent::Bytes(soa));
    let i = choose|i: int| 0 <= i < s.pending.len() && s.pending[i] == x;
    assert(later.pending[i] == x);
}

/// A fetch under a free key queues what it is given.
proof fn lemma_fetch(
    s: Weights,
    key: u64,
    data: Result<WeightContent, MetalFault>,
)
    ensures
        ({
            let (after, r) = s.fetch(key, data);
            &&& extends(s, after)
            &&& s.cache.contains_key(key) ==> r == Ok::<MetalWeightHandle, MetalFault>(s.cache[key])
            &&& forall|k: u64|
                k != key && !s.cache.contains_key(k) ==> !#[trigger] after.cache.contains_key(k)
            &&& !s.cache.contains_key(key) && r is Ok ==> data is Ok && after.pending.contains(
                (r->Ok_0.buffer, data->Ok_0),
            ) && r->Ok_0.byte_len == data->Ok_0.byte_len() as usize
        }),
{
    let (after, r) = s.fetch(key, data);
    if !s.cache.contains_key(key) && data is Ok {
        assert(after.pending[s.pending.len() as int] == (r->Ok_0.buffer, data->Ok_0));
    }
}

proof fn lemma_fetch_numbers(s: Weights, key: u64, bits: Seq<u32>)
    requires
        bits.len() * 4 <= usize::MAX,
    ensures
        ({
            let (after, r) = s.fetch(
                key,
                weights::f32_weight(bits),
            );
            !s.cache.contains_key(key) && r is Ok ==> holds_numbers(after, r->Ok_0, bits)
        }),
{
    lemma_fetch(s, key, weights::f32_weight(bits));
}

proof fn lemma_fetch_blocks(s: Weights, key: u64, blocks: Seq<u8>, ternary: bool)
    requires
        blocks.len() <= usize::MAX,
    ensures
        ({
            let (after, r) = s.fetch(key, functions_2::projection(blocks, ternary));
            !s.cache.contains_key(key) && r is Ok ==> holds_blocks(after, r->Ok_0, blocks, ternary)
        }),
{
    let data = functions_2::projection(blocks, ternary);
    lemma_fetch(s, key, data);
    if data is Ok {
        reformat::lemma_regrouped(blocks, ternary);
        let soa = data->Ok_0->Bytes_0;
        assert(data->Ok_0 == WeightContent::Bytes(soa));
    }
}

/// The keys of a layer's weights, in the order of [`LayerWeightRefs`].
pub open spec fn layer_keys(p: FullForwardLayerParams) -> Seq<u64> {
    seq![
        p.attn_norm_handle,
        p.fused_qkv_handle,
        p.q_norm_handle,
        p.k_norm_handle,
        p.attn_proj_handle,
        p.ffn_norm_handle,
        p.gate_up_handle,
        p.down_handle,
    ]
}

/// A layer's weights, in the same order.
pub open spec fn layer_handles(w: LayerWeightRefs) -> Seq<MetalWeightHandle> {
    seq![
        w.attn_norm,
        w.qkv,
        w.q_norm,
        w.k_norm,
        w.output_proj,
        w.ffn_norm,
        w.gate_up,
        w.down,
    ]
}

/// Where none of a layer's weights is resident and no key serves two of them, fetching
/// queues each weight's own data: norms as they are, projections regrouped, and gate and
/// up as one weight, gate first.
#[verifier::spinoff_prover]
#[verifier::rlimit(40)]
pub proof fn law_layer_weights_hold_the_data(p: FullForwardLayerParams, s: Weights, ternary: bool)
    requires
        p.fits(),
        p.fused_qkv_bytes@.len() <= usize::MAX,
        p.attn_proj_bytes@.len() <= usize::MAX,
        p.gate_bytes@.len() + p.up_bytes@.len() <= usize::MAX,
        p.down_bytes@.len() <= usize::MAX,
        forall|i: int|
            0 <= i < 8 ==> !s.cache.contains_key(#[trigger] layer_keys(p)[i]),
        forall|i: int, j: int|
            0 <= i < j < 8 ==> #[trigger] layer_keys(p)[i] != #[trigger] layer_keys(p)[j],
        p.fetched(s, ternary).1 is Ok,
    ensures
        ({
            let after = p.fetched(s, ternary).0;
            let w = p.fetched(s, ternary).1->Ok_0;
            &&& holds_numbers(after, w.attn_norm, p.attn_norm_bits@)
            &&& holds_numbers(after, w.q_norm, p.q_norm_bits@)
            &&& holds_numbers(after, w.k_norm, p.k_norm_bits@)
            &&& holds_numbers(after, w.ffn_norm, p.ffn_norm_bits@)
            &&& holds_blocks(after, w.qkv, p.fused_qkv_bytes@, ternary)
            &&& holds_blocks(after, w.output_proj, p.attn_proj_bytes@, ternary)
            &&& holds_blocks(after, w.gate_up, p.gate_bytes@ + p.up_bytes@, ternary)
            &&& holds_blocks(after, w.down, p.down_bytes@, ternary)
        }),
{
    let keys = layer_keys(p);
    let (k0, k1, k2, k3) = (keys[0], keys[1], keys[2], keys[3]);
    let (k4, k5, k6, k7) = (keys[4], keys[5], keys[6], keys[7]);
    let d0 = weights::f32_weight(p.attn_norm_bits@);
    let d2 = weights::f32_weight(p.q_norm_bits@);
    let d3 = weights::f32_weight(p.k_norm_bits@);
    let d5 = weights::f32_weight(p.ffn_norm_bits@);
    let d1 = functions_2::projection(p.fused_qkv_bytes@, ternary);
    let d4 = functions_2::projection(p.attn_proj_bytes@, ternary);
    let d6 = functions_2::projection(p.gate_bytes@ + p.up_bytes@, ternary);
    let d7 = functions_2::projection(p.down_bytes@, ternary);
    let s1 = s.fetch(k0, d0).0;
    let s2 = s1.fetch(k2, d2).0;
    let s3 = s2.fetch(k3, d3).0;
    let s4 = s3.fetch(k5, d5).0;
    let s5 = s4.fetch(k1, d1).0;
    let s6 = s5.fetch(k4, d4).0;
    let s7 = s6.fetch(k6, d6).0;
    let s8 = s7.fetch(k7, d7).0;
    lemma_fetch(s, k0, d0);
    lemma_fetch(s1, k2, d2);
    lemma_fetch(s2, k3, d3);
    lemma_fetch(s3, k5, d5);
    lemma_fetch(s4, k1, d1);
    lemma_fetch(s5, k4, d4);
    lemma_fetch(s6, k6, d6);
    lemma_fetch(s7, k7, d7);
    lemma_fetch_numbers(s, k0, p.attn_norm_bits@);
    lemma_fetch_numbers(s1, k2, p.q_norm_bits@);
    lemma_fetch_numbers(s2, k3, p.k_norm_bits@);
    lemma_fetch_numbers(s3, k5, p.ffn_norm_bits@);
    lemma_fetch_blocks(s4, k1, p.fused_qkv_bytes@, ternary);
    lemma_fetch_blocks(s5, k4, p.attn_proj_bytes@, ternary);
    lemma_fetch_blocks(s6, k6, p.gate_bytes@ + p.up_bytes@, ternary);
    lemma_fetch_blocks(s7, k7, p.down_bytes@, ternary);
    assert(p.fetched(s, ternary).0 == s8);
    let w = p.fetched(s, ternary).1->Ok_0;
    lemma_keeps_numbers(s1, s8, w.attn_norm, p.attn_norm_bits@);
    lemma_keeps_numbers(s2, s8, w.q_norm, p.q_norm_bits@);
    lemma_keeps_numbers(s3, s8, w.k_norm, p.k_norm_bits@);
    lemma_keeps_numbers(s4, s8, w.ffn_norm, p.ffn_norm_bits@);
    lemma_keeps_blocks(s5, s8, w.qkv, p.fused_qkv_bytes@, ternary);
    lemma_keeps_blocks(s6, s8, w.output_proj, p.attn_proj_bytes@, ternary);
    lemma_keeps_blocks(s7, s8, w.gate_up, p.gate_bytes@ + p.up_bytes@, ternary);
}

/// A fetch under a resident key hands out the resident weight, also after other fetches.
proof fn lemma_resident(
    s: Weights,
    later: Weights,
    key: u64,
    data: Result<WeightContent, MetalFault>,
)
    requires
        extends(s, later),
    ensures
        s.cache.contains_key(key) ==> later.fetch(key, data).1 == Ok::<
            MetalWeightHandle,
            MetalFault,
        >(s.cache[key]),
        extends(s, later.fetch(key, data).0),
{
    lemma_fetch(later, key, data);
}

/// A weight that is resident under its key is the one that the layer uses.
#[verifier::spinoff_prover]
pub proof fn law_resident_layer_weights_are_used(
    p: FullForwardLayerParams,
    s: Weights,
    ternary: bool,
    i: int,
)
    requires
        0 <= i < 8,
        s.cache.contains_key(layer_keys(p)[i]),
        p.fetched(s, ternary).1 is Ok,
    ensures
        layer_handles(p.fetched(s, ternary).1->Ok_0)[i] == s.cache[layer_keys(p)[i]],
{
    let d0 = weights::f32_weight(p.attn_norm_bits@);
    let d2 = weights::f32_weight(p.q_norm_bits@);
    let d3 = weights::f32_weight(p.k_norm_bits@);
    let d5 = weights::f32_weight(p.ffn_norm_bits@);
    let d1 = functions_2::projection(p.fused_qkv_bytes@, ternary);
    let d4 = functions_2::projection(p.attn_proj_bytes@, ternary);
    let d6 = functions_2::projection(p.gate_bytes@ + p.up_bytes@, ternary);
    let d7 = functions_2::projection(p.down_bytes@, ternary);
    let (s1, r0) = s.fetch(p.attn_norm_handle, d0);
    let (s2, r2) = s1.fetch(p.q_norm_handle, d2);
    let (s3, r3) = s2.fetch(p.k_norm_handle, d3);
    let (s4, r5) = s3.fetch(p.ffn_norm_handle, d5);
    let (s5, r1) = s4.fetch(p.fused_qkv_handle, d1);
    let (s6, r4) = s5.fetch(p.attn_proj_handle, d4);
    let (s7, r6) = s6.fetch(p.gate_up_handle, d6);
    let (s8, r7) = s7.fetch(p.down_handle, d7);
    lemma_resident(s, s, p.attn_norm_handle, d0);
    lemma_resident(s, s1, p.q_norm_handle, d2);
    lemma_resident(s, s2, p.k_norm_handle, d3);
    lemma_resident(s, s3, p.ffn_norm_handle, d5);
    lemma_resident(s, s4, p.fused_qkv_handle, d1);
    lemma_resident(s, s5, p.attn_proj_handle, d4);
    lemma_resident(s, s6, p.gate_up_handle, d6);
    lemma_resident(s, s7, p.down_handle, d7);
    assert(p.projections(s4, ternary).1 is Ok ==> p.projections(s4, ternary).1->Ok_0 == (
        r1->Ok_0,
        r4->Ok_0,
        r6->Ok_0,
        r7->Ok_0,
    ));
    let w = p.fetched(s, ternary).1->Ok_0;
    assert(w == (LayerWeightRefs {
        attn_norm: r0->Ok_0,
        qkv: r1->Ok_0,
        q_norm: r2->Ok_0,
        k_norm: r3->Ok_0,
        output_proj: r4->Ok_0,
        ffn_norm: r5->Ok_0,
        gate_up: r6->Ok_0,
        down: r7->Ok_0,
    }));
}

/// Weights are fetched layer by layer, from what the layers before left.
pub proof fn law_layers_are_fetched_in_order(
    s: Weights,
    params: Seq<FullForwardLayerParams>,
    n: nat,
    ternary: bool,
    i: int,
)
    requires
        0 <= i < n,
        functions_2::layers_fetched(s, params, n, ternary).1 is Ok,
    ensures
        ({
            let refs = functions_2::layers_fetched(s, params, n, ternary).1->Ok_0;
            &&& refs.len() == n
            &&& params[i].fetched(
                functions_2::layers_fetched(s, params, i as nat, ternary).0,
                ternary,
            ).1 == Ok::<LayerWeightRefs, MetalFault>(refs[i])
        }),
    decreases n,
{
    if n > 1 {
        law_layers_are_fetched_in_order(
            s,
            params,
            (n - 1) as nat,
            ternary,
            if i < n - 1 {
                i
            } else {
                0
            },
        );
    } else {
        assert(functions_2::layers_fetched(s, params, 0, ternary) == (s, Ok::<
            Seq<LayerWeightRefs>,
            MetalFault,
        >(seq![])));
    }
}

/// Behind the layers come the final norm, with the numbers that it is given, and the LM
/// head, with its blocks regrouped; each where both key and data are given.
pub proof fn law_head_weights_hold_the_data(
    s: Weights,
    params: Seq<FullForwardLayerParams>,
    head: HeadParams,
    ternary: bool,
)
    requires
        head.fits(),
        head.lm_head_bytes matches Some(b) ==> b@.len() <= usize::MAX,
        functions_2::model_fetched(s, params, head, ternary).1 is Ok,
        ({
            let before = functions_2::layers_fetched(s, params, params.len(), ternary).0;
            &&& head.final_norm_handle matches Some(k) ==> !before.cache.contains_key(k)
            &&& head.lm_head_handle matches Some(k) ==> !before.cache.contains_key(k)
            &&& head.final_norm_handle != head.lm_head_handle
        }),
    ensures
        ({
            let after = functions_2::model_fetched(s, params, head, ternary).0;
            let m = functions_2::model_fetched(s, params, head, ternary).1->Ok_0;
            let layers = functions_2::layers_fetched(s, params, params.len(), ternary).1;
            &&& layers == Ok::<Seq<LayerWeightRefs>, MetalFault>(m.layers)
            &&& m.final_norm_w is Some <==> head.final_norm_handle is Some
                && head.final_norm_bits is Some
            &&& m.lm_head_w is Some <==> head.lm_head_handle is Some && head.lm_head_bytes is Some
            &&& m.final_norm_w is Some ==> holds_numbers(
                after,
                m.final_norm_w->0,
                head.final_norm_bits->0@,
            )
            &&& m.lm_head_w is Some ==> holds_blocks(
                after,
                m.lm_head_w->0,
                head.lm_head_bytes->0@,
                ternary,
            )
        }),
{
    let before = functions_2::layers_fetched(s, params, params.len(), ternary).0;
    let mid = functions_2::head_fetched(before, head.final_norm_handle, head.norm_data());
    let after = functions_2::model_fetched(s, params, head, ternary).0;
    if head.final_norm_handle is Some && head.final_norm_bits is Some {
        let (key, bits) = (head.final_norm_handle->0, head.final_norm_bits->0@);
        lemma_fetch(before, key, weights::f32_weight(bits));
        lemma_fetch_numbers(before, key, bits);
    }
    if head.lm_head_handle is Some && head.lm_head_bytes is Some {
        let (key, blocks) = (head.lm_head_handle->0, head.lm_head_bytes->0@);
        lemma_fetch(mid.0, key, functions_2::projection(blocks, ternary));
        lemma_fetch_blocks(mid.0, key, blocks, ternary);
    }
    if head.final_norm_handle is Some && head.final_norm_bits is Some {
        lemma_keeps_numbers(mid.0, after, mid.1->Ok_0->0, head.final_norm_bits->0@);
    }
}

} // verus!

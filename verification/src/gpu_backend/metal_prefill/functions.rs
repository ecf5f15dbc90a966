//! Plans of a transformer layer over a batch of tokens.

use vstd::prelude::*;

use crate::gpu_backend::metal_graph::buffers;
use crate::gpu_backend::metal_graph::buffers::div_ceil;
use crate::gpu_backend::metal_graph::device::{Action, Buf, Extent, PrefillBuf, Step};
use crate::gpu_backend::metal_graph::error::MetalWeightHandle;
use crate::gpu_backend::metal_graph::graph::MetalGraph;
use crate::gpu_backend::metal_prefill::types::{LayerConfig, LayerWeightRefs};

verus! {

/// The buffer of a resident weight.
pub open spec fn weight_buf(w: MetalWeightHandle) -> Buf {
    Buf::Weight(w.buffer)
}

impl LayerConfig {
    /// Rows of the fused Q, K and V projection.
    pub open spec fn qkv_rows(self) -> int {
        (self.n_q_heads + 2 * self.n_kv_heads) * self.head_dim
    }

    /// The layer has heads, and neither the largest batched offset nor the
    /// last position overflows.
    pub open spec fn fits(self, batch_size: usize, pos_start: usize) -> bool {
        &&& self.n_kv_heads > 0
        &&& self.head_dim > 0
        &&& self.n_q_heads + 2 * self.n_kv_heads <= usize::MAX
        &&& self.qkv_rows() <= usize::MAX
        &&& batch_size * self.qkv_rows() * 4 <= usize::MAX
        &&& pos_start + batch_size <= usize::MAX
    }
}

/// Attention of token `t`: normalise and rotate its query and key, store its
/// key and value at its position, and attend over all positions up to it.
pub open spec fn token_attention(
    w: LayerWeightRefs,
    layer: usize,
    t: int,
    pos_start: int,
    c: LayerConfig,
) -> Seq<Action> {
    let nq = c.n_q_heads;
    let nkv = c.n_kv_heads;
    let hd = c.head_dim;
    let col = t * c.qkv_rows() * 4;
    let half_dim = hd / 2;
    let pos = pos_start + t;
    seq![
        Action::Dispatch(Step::FusedQkNorm {
            query: Buf::Prefill(PrefillBuf::Qkv),
            query_offset: col as u64,
            key: Buf::Prefill(PrefillBuf::Qkv),
            key_offset: (col + nq * hd * 4) as u64,
            q_out: Buf::Prefill(PrefillBuf::QNormed),
            k_out: Buf::Prefill(PrefillBuf::KNormed),
            q_weight: weight_buf(w.q_norm),
            k_weight: weight_buf(w.k_norm),
            nq: nq as u32,
            nkv: nkv as u32,
            head_dim: hd as u32,
            eps: c.eps,
        }),
        Action::Dispatch(Step::FusedQkRope {
            query: Buf::Prefill(PrefillBuf::QNormed),
            key: Buf::Prefill(PrefillBuf::KNormed),
            q_out: Buf::Prefill(PrefillBuf::QRope),
            k_out: Buf::Prefill(PrefillBuf::KRope),
            cos: Buf::Prefill(PrefillBuf::Cos),
            cos_offset: (t * half_dim * 4) as u64,
            sin: Buf::Prefill(PrefillBuf::Sin),
            sin_offset: (t * half_dim * 4) as u64,
            nq: nq as u32,
            nkv: nkv as u32,
            half_dim: half_dim as u32,
            grid: Extent {
                x: buffers::threadgroups(half_dim as int, 64) as u64,
                y: (nq + nkv) as u64,
                z: 1,
            },
            threads: Extent { x: 64, y: 1, z: 1 },
        }),
        Action::Dispatch(Step::FusedKvStore {
            key: Buf::Prefill(PrefillBuf::KRope),
            value: Buf::Prefill(PrefillBuf::Qkv),
            value_offset: (col + (nq + nkv) * hd * 4) as u64,
            k_cache: Buf::KCache,
            v_cache: Buf::VCache,
            nkv: nkv as u32,
            head_dim: hd as u32,
            max_seq: c.max_seq_len as u32,
            pos: pos as u32,
            layer,
        }),
        Action::Dispatch(Step::AttentionScores {
            query: Buf::Prefill(PrefillBuf::QRope),
            k_cache: Buf::KCache,
            scores: Buf::Prefill(PrefillBuf::Scores),
            head_dim: hd as u32,
            nq: nq as u32,
            nkv: nkv as u32,
            heads_per_group: (nq / nkv) as u32,
            max_seq: c.max_seq_len as u32,
            seq_len: (pos + 1) as u32,
            scale_dim: hd,
            layer,
        }),
        Action::Dispatch(Step::BatchedSoftmax {
            scores: Buf::Prefill(PrefillBuf::Scores),
            nq: nq as u32,
            max_seq: c.max_seq_len as u32,
            seq_len: (pos + 1) as u32,
            grid: Extent { x: nq as u64, y: 1, z: 1 },
            threads: Extent { x: 256, y: 1, z: 1 },
        }),
        Action::Dispatch(Step::WeightedSum {
            scores: Buf::Prefill(PrefillBuf::Scores),
            v_cache: Buf::VCache,
            output: Buf::Prefill(PrefillBuf::AttnOut),
            output_offset: (t * nq * hd * 4) as u64,
            head_dim: hd as u32,
            nq: nq as u32,
            nkv: nkv as u32,
            heads_per_group: (nq / nkv) as u32,
            max_seq: c.max_seq_len as u32,
            seq_len: (pos + 1) as u32,
            layer,
            grid: Extent {
                x: buffers::threadgroups(hd as int, 64) as u64,
                y: nq as u64,
                z: 1,
            },
            threads: Extent { x: 64, y: 1, z: 1 },
        }),
    ]
}

/// Attention of the first `n` tokens, one after the other.
pub open spec fn tokens_attention(
    w: LayerWeightRefs,
    layer: usize,
    n: nat,
    pos_start: int,
    c: LayerConfig,
) -> Seq<Action>
    decreases n,
{
    if n == 0 {
        seq![]
    } else {
        tokens_attention(w, layer, (n - 1) as nat, pos_start, c) + token_attention(
            w,
            layer,
            n - 1,
            pos_start,
            c,
        )
    }
}

/// A layer over `batch_size` tokens with 1-bit weights.
pub open spec fn layer_prefill(
    w: LayerWeightRefs,
    layer: usize,
    batch_size: usize,
    pos_start: usize,
    c: LayerConfig,
) -> Seq<Action> {
    let h = c.hidden_size as u32;
    let bs = batch_size as u32;
    seq![
        Action::Dispatch(Step::BatchedRmsNorm {
            input: Buf::Prefill(PrefillBuf::Hidden),
            weight: weight_buf(w.attn_norm),
            output: Buf::Prefill(PrefillBuf::Normed),
            eps: c.eps,
            n: h,
            batch: bs,
        }),
        Action::Dispatch(Step::GemmQ1V7 {
            weight: weight_buf(w.qkv),
            input: Buf::Prefill(PrefillBuf::Normed),
            output: Buf::Prefill(PrefillBuf::Qkv),
            n_rows: c.qkv_rows() as u32,
            k: h,
            batch: bs,
        }),
    ] + tokens_attention(w, layer, batch_size as nat, pos_start as int, c) + seq![
        Action::Dispatch(Step::GemmQ1V7Residual {
            weight: weight_buf(w.output_proj),
            input: Buf::Prefill(PrefillBuf::AttnOut),
            output: Buf::Prefill(PrefillBuf::Hidden),
            n_rows: h,
            k: (c.n_q_heads * c.head_dim) as u32,
            batch: bs,
            residual: Buf::Prefill(PrefillBuf::Hidden),
        }),
        Action::Dispatch(Step::BatchedRmsNorm {
            input: Buf::Prefill(PrefillBuf::Hidden),
            weight: weight_buf(w.ffn_norm),
            output: Buf::Prefill(PrefillBuf::Normed),
            eps: c.eps,
            n: h,
            batch: bs,
        }),
        Action::Dispatch(Step::FusedGateUpSwigluGemm {
            weight: weight_buf(w.gate_up),
            input: Buf::Prefill(PrefillBuf::Normed),
            output: Buf::Prefill(PrefillBuf::Swiglu),
            inter: c.intermediate_size as u32,
            k: h,
            batch: bs,
        }),
        Action::Dispatch(Step::GemmQ1V7Residual {
            weight: weight_buf(w.down),
            input: Buf::Prefill(PrefillBuf::Swiglu),
            output: Buf::Prefill(PrefillBuf::Hidden),
            n_rows: h,
            k: c.intermediate_size as u32,
            batch: bs,
            residual: Buf::Prefill(PrefillBuf::Hidden),
        }),
    ]
}

/// A layer over `batch_size` tokens with ternary weights: every projection is
/// a ternary GEMM, and the fused residual and SwiGLU launches are two launches
/// each.
pub open spec fn layer_prefill_ternary(
    w: LayerWeightRefs,
    layer: usize,
    batch_size: usize,
    pos_start: usize,
    c: LayerConfig,
) -> Seq<Action> {
    let h = c.hidden_size as u32;
    let bs = batch_size as u32;
    let inter = c.intermediate_size as u32;
    seq![
        Action::Dispatch(Step::BatchedRmsNorm {
            input: Buf::Prefill(PrefillBuf::Hidden),
            weight: weight_buf(w.attn_norm),
            output: Buf::Prefill(PrefillBuf::Normed),
            eps: c.eps,
            n: h,
            batch: bs,
        }),
        Action::Dispatch(Step::GemmTq2V7 {
            weight: weight_buf(w.qkv),
            input: Buf::Prefill(PrefillBuf::Normed),
            output: Buf::Prefill(PrefillBuf::Qkv),
            n_rows: c.qkv_rows() as u32,
            k: h,
            batch: bs,
        }),
    ] + tokens_attention(w, layer, batch_size as nat, pos_start as int, c) + seq![
        Action::Dispatch(Step::GemmTq2V7 {
            weight: weight_buf(w.output_proj),
            input: Buf::Prefill(PrefillBuf::AttnOut),
            output: Buf::Prefill(PrefillBuf::Normed),
            n_rows: h,
            k: (c.n_q_heads * c.head_dim) as u32,
            batch: bs,
        }),
        Action::Dispatch(Step::ResidualAdd {
            target: Buf::Prefill(PrefillBuf::Hidden),
            addend: Buf::Prefill(PrefillBuf::Normed),
            n: (batch_size * c.hidden_size) as u32,
        }),
        Action::Dispatch(Step::BatchedRmsNorm {
            input: Buf::Prefill(PrefillBuf::Hidden),
            weight: weight_buf(w.ffn_norm),
            output: Buf::Prefill(PrefillBuf::Normed),
            eps: c.eps,
            n: h,
            batch: bs,
        }),
        Action::Dispatch(Step::GemmTq2V7 {
            weight: weight_buf(w.gate_up),
            input: Buf::Prefill(PrefillBuf::Normed),
            output: Buf::Prefill(PrefillBuf::GateUp),
            n_rows: (2 * c.intermediate_size) as u32,
            k: h,
            batch: bs,
        }),
        Action::Dispatch(Step::BatchedSwiglu {
            input: Buf::Prefill(PrefillBuf::GateUp),
            output: Buf::Prefill(PrefillBuf::Swiglu),
            inter,
            batch: bs,
        }),
        Action::Dispatch(Step::GemmTq2V7 {
            weight: weight_buf(w.down),
            input: Buf::Prefill(PrefillBuf::Swiglu),
            output: Buf::Prefill(PrefillBuf::Normed),
            n_rows: h,
            k: inter,
            batch: bs,
        }),
        Action::Dispatch(Step::ResidualAdd {
            target: Buf::Prefill(PrefillBuf::Hidden),
            addend: Buf::Prefill(PrefillBuf::Normed),
            n: (batch_size * c.hidden_size) as u32,
        }),
    ]
}

/// Where token `t`'s column of the fused projections lies: its query, key and
/// value parts follow one another inside the column, and the column ends where
/// the next one starts.
pub proof fn lemma_token_column(t: int, batch: int, nq: int, nkv: int, hd: int)
    requires
        0 <= t < batch,
        nq >= 0,
        nkv > 0,
        hd > 0,
    ensures
        nq <= nq * hd,
        t * nq <= t * nq * hd,
        0 <= t * nq * hd <= t * ((nq + 2 * nkv) * hd),
        0 <= nq * hd <= (nq + nkv) * hd,
        (nq + nkv) * hd + nkv * hd == (nq + 2 * nkv) * hd,
        (nq + nkv) * hd <= (nq + 2 * nkv) * hd,
        nq + nkv <= (nq + nkv) * hd,
        hd <= (nq + 2 * nkv) * hd,
        0 <= t * (hd / 2) <= t * ((nq + 2 * nkv) * hd),
        0 <= t * ((nq + 2 * nkv) * hd),
        t * ((nq + 2 * nkv) * hd) + (nq + 2 * nkv) * hd <= batch * ((nq + 2 * nkv) * hd),
        (t * nq) * hd == t * (nq * hd),
{
    let q = (nq + 2 * nkv) * hd;
    assert((nq + nkv) * hd == nq * hd + nkv * hd) by (nonlinear_arith);
    assert(q == nq * hd + 2 * (nkv * hd)) by (nonlinear_arith)
        requires
            q == (nq + 2 * nkv) * hd,
    ;
    assert(nq <= nq * hd) by (nonlinear_arith)
        requires
            nq >= 0,
            hd > 0,
    ;
    assert(nkv * hd >= nkv && nkv * hd >= hd) by (nonlinear_arith)
        requires
            nkv > 0,
            hd > 0,
    ;
    assert((t * nq) * hd == t * (nq * hd)) by (nonlinear_arith);
    assert(0 <= t * nq && t * nq <= (t * nq) * hd) by (nonlinear_arith)
        requires
            t >= 0,
            nq >= 0,
            hd > 0,
    ;
    let qd = nq * hd;
    assert(t * qd <= t * q) by (nonlinear_arith)
        requires
            t >= 0,
            qd <= q,
    ;
    let half = hd / 2;
    assert(0 <= t * half <= t * q) by (nonlinear_arith)
        requires
            t >= 0,
            0 <= half <= q,
    ;
    assert(t * q + q <= batch * q) by (nonlinear_arith)
        requires
            t + 1 <= batch,
            q >= 0,
    ;
}

/// Appends the attention of token `t` to a plan.
fn encode_token_attention(
    plan: &mut Vec<Action>,
    w: &LayerWeightRefs,
    layer_idx: usize,
    t: usize,
    batch_size: usize,
    pos_start: usize,
    config: &LayerConfig,
)
    requires
        config.fits(batch_size, pos_start),
        t < batch_size,
    ensures
        final(plan)@ == old(plan)@ + token_attention(
            *w,
            layer_idx,
            t as int,
            pos_start as int,
            *config,
        ),
{
    let nq: usize = config.n_q_heads;
    let nkv: usize = config.n_kv_heads;
    let hd: usize = config.head_dim;
    proof {
        lemma_token_column(t as int, batch_size as int, nq as int, nkv as int, hd as int);
    }
    let qkv_out: usize = (nq + 2 * nkv) * hd;
    let half_dim: usize = hd / 2;
    let heads_per_group: u32 = (nq / nkv) as u32;
    let max_seq: u32 = config.max_seq_len as u32;
    let pos: usize = pos_start + t;
    let seq_len: u32 = (pos + 1) as u32;
    let q_offset: u64 = (t * qkv_out * 4) as u64;
    let k_offset: u64 = q_offset + (nq * hd * 4) as u64;
    let v_offset: u64 = q_offset + ((nq + nkv) * hd * 4) as u64;
    let rope_offset: u64 = (t * half_dim * 4) as u64;
    let attn_offset: u64 = (t * nq * hd * 4) as u64;
    plan.push(
        Action::Dispatch(
            Step::FusedQkNorm {
                query: Buf::Prefill(PrefillBuf::Qkv),
                query_offset: q_offset,
                key: Buf::Prefill(PrefillBuf::Qkv),
                key_offset: k_offset,
                q_out: Buf::Prefill(PrefillBuf::QNormed),
                k_out: Buf::Prefill(PrefillBuf::KNormed),
                q_weight: Buf::Weight(w.q_norm.buffer),
                k_weight: Buf::Weight(w.k_norm.buffer),
                nq: nq as u32,
                nkv: nkv as u32,
                head_dim: hd as u32,
                eps: config.eps,
            },
        ),
    );
    plan.push(
        Action::Dispatch(
            Step::FusedQkRope {
                query: Buf::Prefill(PrefillBuf::QNormed),
                key: Buf::Prefill(PrefillBuf::KNormed),
                q_out: Buf::Prefill(PrefillBuf::QRope),
                k_out: Buf::Prefill(PrefillBuf::KRope),
                cos: Buf::Prefill(PrefillBuf::Cos),
                cos_offset: rope_offset,
                sin: Buf::Prefill(PrefillBuf::Sin),
                sin_offset: rope_offset,
                nq: nq as u32,
                nkv: nkv as u32,
                half_dim: half_dim as u32,
                grid: Extent { x: div_ceil(half_dim, 64) as u64, y: (nq + nkv) as u64, z: 1 },
                threads: Extent { x: 64, y: 1, z: 1 },
            },
        ),
    );
    plan.push(
        Action::Dispatch(
            Step::FusedKvStore {
                key: Buf::Prefill(PrefillBuf::KRope),
                value: Buf::Prefill(PrefillBuf::Qkv),
                value_offset: v_offset,
                k_cache: Buf::KCache,
                v_cache: Buf::VCache,
                nkv: nkv as u32,
                head_dim: hd as u32,
                max_seq,
                pos: pos as u32,
                layer: layer_idx,
            },
        ),
    );
    plan.push(
        Action::Dispatch(
            Step::AttentionScores {
                query: Buf::Prefill(PrefillBuf::QRope),
                k_cache: Buf::KCache,
                scores: Buf::Prefill(PrefillBuf::Scores),
                head_dim: hd as u32,
                nq: nq as u32,
                nkv: nkv as u32,
                heads_per_group,
                max_seq,
                seq_len,
                scale_dim: hd,
                layer: layer_idx,
            },
        ),
    );
    plan.push(
        Action::Dispatch(
            Step::BatchedSoftmax {
                scores: Buf::Prefill(PrefillBuf::Scores),
                nq: nq as u32,
                max_seq,
                seq_len,
                grid: Extent { x: nq as u64, y: 1, z: 1 },
                threads: Extent { x: 256, y: 1, z: 1 },
            },
        ),
    );
    plan.push(
        Action::Dispatch(
            Step::WeightedSum {
                scores: Buf::Prefill(PrefillBuf::Scores),
                v_cache: Buf::VCache,
                output: Buf::Prefill(PrefillBuf::AttnOut),
                output_offset: attn_offset,
                head_dim: hd as u32,
                nq: nq as u32,
                nkv: nkv as u32,
                heads_per_group,
                max_seq,
                seq_len,
                layer: layer_idx,
                grid: Extent { x: div_ceil(hd, 64) as u64, y: nq as u64, z: 1 },
                threads: Extent { x: 64, y: 1, z: 1 },
            },
        ),
    );
    assert(plan@ =~= old(plan)@ + token_attention(
        *w,
        layer_idx,
        t as int,
        pos_start as int,
        *config,
    ));
}

/// Appends the attention of all tokens to a plan.
fn encode_tokens_attention(
    plan: &mut Vec<Action>,
    w: &LayerWeightRefs,
    layer_idx: usize,
    batch_size: usize,
    pos_start: usize,
    config: &LayerConfig,
)
    requires
        config.fits(batch_size, pos_start),
    ensures
        final(plan)@ == old(plan)@ + tokens_attention(
            *w,
            layer_idx,
            batch_size as nat,
            pos_start as int,
            *config,
        ),
{
    let ghost base = plan@;
    let mut t: usize = 0;
    assert(base =~= base + tokens_attention(*w, layer_idx, 0, pos_start as int, *config));
    while t < batch_size
        invariant
            t <= batch_size,
            config.fits(batch_size, pos_start),
            plan@ == base + tokens_attention(*w, layer_idx, t as nat, pos_start as int, *config),
        decreases batch_size - t,
    {
        encode_token_attention(plan, w, layer_idx, t, batch_size, pos_start, config);
        t += 1;
        assert(plan@ =~= base + tokens_attention(
            *w,
            layer_idx,
            t as nat,
            pos_start as int,
            *config,
        ));
    }
}

impl MetalGraph {
    /// Appends a transformer layer over a batch of tokens to a plan.
    ///
    /// Norms and projections run on the whole batch; attention runs token by
    /// token, since each query attends to all positions up to its own.
    pub(crate) fn encode_layer_prefill(
        plan: &mut Vec<Action>,
        layer_weights: &LayerWeightRefs,
        layer_idx: usize,
        batch_size: usize,
        pos_start: usize,
        config: &LayerConfig,
    )
        requires
            config.fits(batch_size, pos_start),
        ensures
            final(plan)@ == old(plan)@ + layer_prefill(
                *layer_weights,
                layer_idx,
                batch_size,
                pos_start,
                *config,
            ),
    {
        let ghost base = plan@;
        let w = layer_weights;
        let h: u32 = config.hidden_size as u32;
        let inter: u32 = config.intermediate_size as u32;
        let bs: u32 = batch_size as u32;
        proof {
            lemma_token_column(
                0,
                1,
                config.n_q_heads as int,
                config.n_kv_heads as int,
                config.head_dim as int,
            );
        }
        let qkv_out: usize = (config.n_q_heads + 2 * config.n_kv_heads) * config.head_dim;
        let attn_dim: u32 = (config.n_q_heads * config.head_dim) as u32;
        plan.push(
            Action::Dispatch(
                Step::BatchedRmsNorm {
                    input: Buf::Prefill(PrefillBuf::Hidden),
                    weight: Buf::Weight(w.attn_norm.buffer),
                    output: Buf::Prefill(PrefillBuf::Normed),
                    eps: config.eps,
                    n: h,
                    batch: bs,
                },
            ),
        );
        plan.push(
            Action::Dispatch(
                Step::GemmQ1V7 {
                    weight: Buf::Weight(w.qkv.buffer),
                    input: Buf::Prefill(PrefillBuf::Normed),
                    output: Buf::Prefill(PrefillBuf::Qkv),
                    n_rows: qkv_out as u32,
                    k: h,
                    batch: bs,
                },
            ),
        );
        encode_tokens_attention(plan, w, layer_idx, batch_size, pos_start, config);
        plan.push(
            Action::Dispatch(
                Step::GemmQ1V7Residual {
                    weight: Buf::Weight(w.output_proj.buffer),
                    input: Buf::Prefill(PrefillBuf::AttnOut),
                    output: Buf::Prefill(PrefillBuf::Hidden),
                    n_rows: h,
                    k: attn_dim,
                    batch: bs,
                    residual: Buf::Prefill(PrefillBuf::Hidden),
                },
            ),
        );
        plan.push(
            Action::Dispatch(
                Step::BatchedRmsNorm {
                    input: Buf::Prefill(PrefillBuf::Hidden),
                    weight: Buf::Weight(w.ffn_norm.buffer),
                    output: Buf::Prefill(PrefillBuf::Normed),
                    eps: config.eps,
                    n: h,
                    batch: bs,
                },
            ),
        );
        plan.push(
            Action::Dispatch(
                Step::FusedGateUpSwigluGemm {
                    weight: Buf::Weight(w.gate_up.buffer),
                    input: Buf::Prefill(PrefillBuf::Normed),
                    output: Buf::Prefill(PrefillBuf::Swiglu),
                    inter,
                    k: h,
                    batch: bs,
                },
            ),
        );
        plan.push(
            Action::Dispatch(
                Step::GemmQ1V7Residual {
                    weight: Buf::Weight(w.down.buffer),
                    input: Buf::Prefill(PrefillBuf::Swiglu),
                    output: Buf::Prefill(PrefillBuf::Hidden),
                    n_rows: h,
                    k: inter,
                    batch: bs,
                    residual: Buf::Prefill(PrefillBuf::Hidden),
                },
            ),
        );
        assert(plan@ =~= base + layer_prefill(*w, layer_idx, batch_size, pos_start, *config));
    }

    /// Appends a transformer layer over a batch of tokens to a plan, with
    /// ternary weights.
    ///
    /// Runs as [`Self::encode_layer_prefill`] does, with a ternary GEMM for
    /// every projection; what the 1-bit path fuses becomes two launches, with
    /// the normalised states' buffer as scratch.
    pub(crate) fn encode_layer_prefill_ternary(
        plan: &mut Vec<Action>,
        layer_weights: &LayerWeightRefs,
        layer_idx: usize,
        batch_size: usize,
        pos_start: usize,
        config: &LayerConfig,
    )
        requires
            config.fits(batch_size, pos_start),
            2 * config.intermediate_size <= usize::MAX,
            batch_size * config.hidden_size <= usize::MAX,
        ensures
            final(plan)@ == old(plan)@ + layer_prefill_ternary(
                *layer_weights,
                layer_idx,
                batch_size,
                pos_start,
                *config,
            ),
    {
        let ghost base = plan@;
        let w = layer_weights;
        let h: u32 = config.hidden_size as u32;
        let inter: u32 = config.intermediate_size as u32;
        let bs: u32 = batch_size as u32;
        proof {
            lemma_token_column(
                0,
                1,
                config.n_q_heads as int,
                config.n_kv_heads as int,
                config.head_dim as int,
            );
        }
        let qkv_out: usize = (config.n_q_heads + 2 * config.n_kv_heads) * config.head_dim;
        let attn_dim: u32 = (config.n_q_heads * config.head_dim) as u32;
        let total: u32 = (batch_size * config.hidden_size) as u32;
        plan.push(
            Action::Dispatch(
                Step::BatchedRmsNorm {
                    input: Buf::Prefill(PrefillBuf::Hidden),
                    weight: Buf::Weight(w.attn_norm.buffer),
                    output: Buf::Prefill(PrefillBuf::Normed),
                    eps: config.eps,
                    n: h,
                    batch: bs,
                },
            ),
        );
        plan.push(
            Action::Dispatch(
                Step::GemmTq2V7 {
                    weight: Buf::Weight(w.qkv.buffer),
                    input: Buf::Prefill(PrefillBuf::Normed),
                    output: Buf::Prefill(PrefillBuf::Qkv),
                    n_rows: qkv_out as u32,
                    k: h,
                    batch: bs,
                },
            ),
        );
        encode_tokens_attention(plan, w, layer_idx, batch_size, pos_start, config);
        plan.push(
            Action::Dispatch(
                Step::GemmTq2V7 {
                    weight: Buf::Weight(w.output_proj.buffer),
                    input: Buf::Prefill(PrefillBuf::AttnOut),
                    output: Buf::Prefill(PrefillBuf::Normed),
                    n_rows: h,
                    k: attn_dim,
                    batch: bs,
                },
            ),
        );
        plan.push(
            Action::Dispatch(
                Step::ResidualAdd {
                    target: Buf::Prefill(PrefillBuf::Hidden),
                    addend: Buf::Prefill(PrefillBuf::Normed),
                    n: total,
                },
            ),
        );
        plan.push(
            Action::Dispatch(
                Step::BatchedRmsNorm {
                    input: Buf::Prefill(PrefillBuf::Hidden),
                    weight: Buf::Weight(w.ffn_norm.buffer),
                    output: Buf::Prefill(PrefillBuf::Normed),
                    eps: config.eps,
                    n: h,
                    batch: bs,
                },
            ),
        );
        plan.push(
            Action::Dispatch(
                Step::GemmTq2V7 {
                    weight: Buf::Weight(w.gate_up.buffer),
                    input: Buf::Prefill(PrefillBuf::Normed),
                    output: Buf::Prefill(PrefillBuf::GateUp),
                    n_rows: (2 * config.intermediate_size) as u32,
                    k: h,
                    batch: bs,
                },
            ),
        );
        plan.push(
            Action::Dispatch(
                Step::BatchedSwiglu {
                    input: Buf::Prefill(PrefillBuf::GateUp),
                    output: Buf::Prefill(PrefillBuf::Swiglu),
                    inter,
                    batch: bs,
                },
            ),
        );
        plan.push(
            Action::Dispatch(
                Step::GemmTq2V7 {
                    weight: Buf::Weight(w.down.buffer),
                    input: Buf::Prefill(PrefillBuf::Swiglu),
                    output: Buf::Prefill(PrefillBuf::Normed),
                    n_rows: h,
                    k: inter,
                    batch: bs,
                },
            ),
        );
        plan.push(
            Action::Dispatch(
                Step::ResidualAdd {
                    target: Buf::Prefill(PrefillBuf::Hidden),
                    addend: Buf::Prefill(PrefillBuf::Normed),
                    n: total,
                },
            ),
        );
        assert(plan@ =~= base + layer_prefill_ternary(
            *w,
            layer_idx,
            batch_size,
            pos_start,
            *config,
        ));
    }
}

} // verus!

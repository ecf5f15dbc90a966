//! Dimensions, weights and buffers of the batch prefill.

use vstd::prelude::*;

use crate::gpu_backend::metal_graph::buffers::alloc_buf;
use crate::gpu_backend::metal_graph::device::{Action, Buf, PrefillBuf, Storage};
use crate::gpu_backend::metal_graph::error;
use crate::gpu_backend::metal_graph::error::{MetalFault, MetalGraphError, MetalWeightHandle};

verus! {

/// Model configuration of a transformer layer. `eps` holds the bits of a
/// single-precision number.
#[derive(Debug, Clone, Copy, PartialEq, Eq, Structural)]
pub struct LayerConfig {
    /// Width of the hidden state.
    pub hidden_size: usize,
    /// Width of the MLP.
    pub intermediate_size: usize,
    /// Query heads.
    pub n_q_heads: usize,
    /// Key and value heads.
    pub n_kv_heads: usize,
    /// Width of a head.
    pub head_dim: usize,
    /// RMSNorm epsilon.
    pub eps: u32,
    /// Positions that the KV cache holds.
    pub max_seq_len: usize,
}

/// Weights of one transformer layer.
#[derive(Debug, Clone, Copy, PartialEq, Eq, Structural)]
pub struct LayerWeightRefs {
    /// RMSNorm before attention.
    pub attn_norm: MetalWeightHandle,
    /// Fused Q, K and V projection.
    pub qkv: MetalWeightHandle,
    /// Query norm.
    pub q_norm: MetalWeightHandle,
    /// Key norm.
    pub k_norm: MetalWeightHandle,
    /// Attention output projection.
    pub output_proj: MetalWeightHandle,
    /// RMSNorm before the MLP.
    pub ffn_norm: MetalWeightHandle,
    /// Fused gate and up projection.
    pub gate_up: MetalWeightHandle,
    /// Down projection.
    pub down: MetalWeightHandle,
}

/// Arguments of a batch prefill: lengths of the host operands, dimensions and
/// the weights of the output head. `final_norm_eps` holds the bits of a
/// single-precision number.
#[derive(Debug, Clone, Copy, PartialEq, Eq, Structural)]
pub struct PrefillArgs {
    /// Numbers in the batch of hidden states.
    pub hidden_len: usize,
    /// Position of the first token.
    pub pos_start: usize,
    /// Tokens in the batch.
    pub batch_size: usize,
    /// Transformer layers.
    pub n_layers: usize,
    /// Numbers in the RoPE cosine table.
    pub cos_len: usize,
    /// Numbers in the RoPE sine table.
    pub sin_len: usize,
    /// Dimensions of every layer.
    pub config: LayerConfig,
    /// RMSNorm weight before the LM head.
    pub final_norm_w: Option<MetalWeightHandle>,
    /// RMSNorm epsilon before the LM head.
    pub final_norm_eps: u32,
    /// LM head weight.
    pub lm_head_w: Option<MetalWeightHandle>,
    /// Rows of the LM head.
    pub lm_head_out_features: usize,
}

/// The batch prefill's buffer set: the dimensions that it was allocated for.
#[derive(Debug, Clone, Copy, PartialEq, Eq, Structural)]
pub struct PrefillBuffers {
    /// Tokens processed at once.
    pub batch_size: usize,
    /// Width of the hidden state.
    pub hidden_size: usize,
    /// Width of the MLP.
    pub intermediate_size: usize,
    /// Query heads.
    pub nq: usize,
    /// Key and value heads.
    pub nkv: usize,
    /// Width of a head.
    pub head_dim: usize,
    /// Positions that the KV cache holds.
    pub max_seq: usize,
}

/// The allocation of one prefill buffer of so many numbers.
pub open spec fn prefill_alloc(buf: PrefillBuf, floats: int, storage: Storage) -> Action {
    Action::Alloc { buf: Buf::Prefill(buf), bytes: (floats * 4) as u64, storage }
}

/// Appends the allocation of one prefill buffer to a plan.
fn alloc_floats(plan: &mut Vec<Action>, buf: PrefillBuf, floats: usize, storage: Storage) -> (r:
    Result<(), MetalGraphError>)
    requires
        floats * 4 <= usize::MAX,
    ensures
        error::reports(
            r,
            if floats == 0 {
                Some(MetalFault::BufferCreationFailed)
            } else {
                None
            },
        ),
        r is Ok ==> final(plan)@ == old(plan)@.push(prefill_alloc(buf, floats as int, storage)),
{
    alloc_buf(plan, Buf::Prefill(buf), (floats * 4) as u64, storage)
}

impl PrefillBuffers {
    /// Rows of the fused Q, K and V projection.
    pub open spec fn qkv_dim(self) -> int {
        self.nq * self.head_dim + 2 * self.nkv * self.head_dim
    }

    /// Buffers in order of allocation, each with its length in numbers.
    pub open spec fn lens(self) -> Seq<(PrefillBuf, int, Storage)> {
        let b = self.batch_size as int;
        let q = self.nq * self.head_dim;
        let kv = self.nkv * self.head_dim;
        seq![
            (PrefillBuf::Hidden, b * self.hidden_size, Storage::Shared),
            (PrefillBuf::Normed, b * self.hidden_size, Storage::Private),
            (PrefillBuf::Qkv, b * self.qkv_dim(), Storage::Private),
            (PrefillBuf::AttnOut, b * q, Storage::Private),
            (PrefillBuf::Swiglu, b * self.intermediate_size, Storage::Private),
            (PrefillBuf::GateUp, b * (2 * self.intermediate_size), Storage::Private),
            (PrefillBuf::QNormed, q, Storage::Private),
            (PrefillBuf::KNormed, kv, Storage::Private),
            (PrefillBuf::QRope, q, Storage::Private),
            (PrefillBuf::KRope, kv, Storage::Private),
            (PrefillBuf::Scores, self.nq * self.max_seq, Storage::Private),
            (PrefillBuf::Cos, b * (self.head_dim / 2), Storage::Shared),
            (PrefillBuf::Sin, b * (self.head_dim / 2), Storage::Shared),
        ]
    }

    /// Bytes of one of the set's buffers.
    pub open spec fn bytes(self, buf: PrefillBuf) -> int {
        let b = self.batch_size as int;
        let q = self.nq * self.head_dim;
        let kv = self.nkv * self.head_dim;
        4 * (match buf {
            PrefillBuf::Hidden => b * self.hidden_size,
            PrefillBuf::Normed => b * self.hidden_size,
            PrefillBuf::Qkv => b * self.qkv_dim(),
            PrefillBuf::AttnOut => b * q,
            PrefillBuf::Swiglu => b * self.intermediate_size,
            PrefillBuf::GateUp => b * (2 * self.intermediate_size),
            PrefillBuf::QNormed => q,
            PrefillBuf::KNormed => kv,
            PrefillBuf::QRope => q,
            PrefillBuf::KRope => kv,
            PrefillBuf::Scores => self.nq * self.max_seq,
            PrefillBuf::Cos => b * (self.head_dim / 2),
            PrefillBuf::Sin => b * (self.head_dim / 2),
        })
    }

    /// The set cannot be allocated when one of its buffers has no bytes.
    pub open spec fn fault(self) -> Option<MetalFault> {
        if exists|i: int| 0 <= i < self.lens().len() && (#[trigger] self.lens()[i]).1 == 0 {
            Some(MetalFault::BufferCreationFailed)
        } else {
            None
        }
    }

    /// The allocations of the set.
    pub open spec fn allocs(self) -> Seq<Action> {
        Seq::new(
            self.lens().len(),
            |i: int| prefill_alloc(self.lens()[i].0, self.lens()[i].1, self.lens()[i].2),
        )
    }

    /// No byte size that is computed overflows; sizes after an empty buffer
    /// are not computed.
    pub open spec fn sizes_fit(self) -> bool {
        let b = self.batch_size as int;
        &&& 2 * self.nkv <= usize::MAX
        &&& self.qkv_dim() <= usize::MAX
        &&& b * self.hidden_size * 4 <= usize::MAX
        &&& b * self.hidden_size > 0 ==> {
            &&& b * self.qkv_dim() * 4 <= usize::MAX
            &&& b * (self.nq * self.head_dim) > 0 ==> {
                &&& b * (2 * self.intermediate_size) * 4 <= usize::MAX
                &&& self.intermediate_size > 0 && self.nkv > 0 ==> self.nq * self.max_seq * 4
                    <= usize::MAX
            }
        }
    }

    /// Whether the set has the requested dimensions.
    pub fn matches(
        &self,
        batch_size: usize,
        hidden_size: usize,
        intermediate_size: usize,
        nq: usize,
        nkv: usize,
        head_dim: usize,
        max_seq: usize,
    ) -> (r: bool)
        ensures
            r == (*self == PrefillBuffers {
                batch_size,
                hidden_size,
                intermediate_size,
                nq,
                nkv,
                head_dim,
                max_seq,
            }),
    {
        self.batch_size == batch_size && self.hidden_size == hidden_size
            && self.intermediate_size == intermediate_size && self.nq == nq && self.nkv == nkv
            && self.head_dim == head_dim && self.max_seq == max_seq
    }

    /// Appends the allocations of a set for the given dimensions to a plan.
    pub fn allocate(
        plan: &mut Vec<Action>,
        batch_size: usize,
        hidden_size: usize,
        intermediate_size: usize,
        nq: usize,
        nkv: usize,
        head_dim: usize,
        max_seq: usize,
    ) -> (r: Result<Self, MetalGraphError>)
        requires
            (PrefillBuffers {
                batch_size,
                hidden_size,
                intermediate_size,
                nq,
                nkv,
                head_dim,
                max_seq,
            }).sizes_fit(),
        ensures
            ({
                let set = PrefillBuffers {
                    batch_size,
                    hidden_size,
                    intermediate_size,
                    nq,
                    nkv,
                    head_dim,
                    max_seq,
                };
                &&& error::reports(r, set.fault())
                &&& r matches Ok(s) ==> s == set && final(plan)@ == old(plan)@ + set.allocs()
            }),
    {
        let set = PrefillBuffers {
            batch_size,
            hidden_size,
            intermediate_size,
            nq,
            nkv,
            head_dim,
            max_seq,
        };
        let ghost lens = set.lens();
        let ghost b = batch_size as int;
        let ghost q = nq * head_dim;
        let ghost kv = nkv * head_dim;
        proof {
            assert(2 * nkv * head_dim == 2 * kv) by (nonlinear_arith)
                requires
                    kv == nkv * head_dim,
            ;
            assert(q >= 0 && kv >= 0) by (nonlinear_arith)
                requires
                    q == nq * head_dim,
                    kv == nkv * head_dim,
            ;
        }
        let qkv_dim: usize = nq * head_dim + 2 * nkv * head_dim;
        assert(lens[0].1 == 0 || lens[0].1 != 0);
        alloc_floats(plan, PrefillBuf::Hidden, batch_size * hidden_size, Storage::Shared)?;
        alloc_floats(plan, PrefillBuf::Normed, batch_size * hidden_size, Storage::Private)?;
        proof {
            lemma_set_products(b, q, kv, nq as int, head_dim as int, hidden_size as int);
            assert(lens[2].1 == b * qkv_dim);
        }
        alloc_floats(plan, PrefillBuf::Qkv, batch_size * qkv_dim, Storage::Private)?;
        proof {
            assert(lens[3].1 == b * q);
            if head_dim == 0 {
                assert(q == 0 && kv == 0) by (nonlinear_arith)
                    requires
                        q == nq * head_dim,
                        kv == nkv * head_dim,
                        head_dim == 0,
                ;
                assert(b * qkv_dim == 0) by (nonlinear_arith)
                    requires
                        qkv_dim == 0,
                ;
            }
        }
        alloc_floats(plan, PrefillBuf::AttnOut, batch_size * nq * head_dim, Storage::Private)?;
        proof {
            let i = intermediate_size as int;
            assert(b * (2 * i) == 2 * (b * i) && b * 2 * i == b * (2 * i) && b * i >= 0) by (
                nonlinear_arith)
                requires
                    b >= 0,
                    i >= 0,
            ;
            assert(lens[4].1 == b * intermediate_size);
            assert(i > 0 ==> b * 2 <= b * (2 * i)) by (nonlinear_arith)
                requires
                    b >= 0,
                    i >= 0,
            ;
            assert((i == 0) ==> b * i == 0) by (nonlinear_arith);
        }
        alloc_floats(plan, PrefillBuf::Swiglu, batch_size * intermediate_size, Storage::Private)?;
        assert(lens[5].1 == b * (2 * intermediate_size));
        alloc_floats(plan, PrefillBuf::GateUp, batch_size * 2 * intermediate_size, Storage::Private)?;
        assert(lens[6].1 == q);
        alloc_floats(plan, PrefillBuf::QNormed, nq * head_dim, Storage::Private)?;
        assert(lens[7].1 == kv);
        alloc_floats(plan, PrefillBuf::KNormed, nkv * head_dim, Storage::Private)?;
        assert(lens[8].1 == q);
        alloc_floats(plan, PrefillBuf::QRope, nq * head_dim, Storage::Private)?;
        assert(lens[9].1 == kv);
        alloc_floats(plan, PrefillBuf::KRope, nkv * head_dim, Storage::Private)?;
        assert(lens[10].1 == nq * max_seq);
        alloc_floats(plan, PrefillBuf::Scores, nq * max_seq, Storage::Private)?;
        assert(lens[11].1 == b * (head_dim / 2));
        alloc_floats(plan, PrefillBuf::Cos, batch_size * (head_dim / 2), Storage::Shared)?;
        alloc_floats(plan, PrefillBuf::Sin, batch_size * (head_dim / 2), Storage::Shared)?;
        assert(lens.len() == 13);
        assert(plan@ =~= old(plan)@ + set.allocs());
        Ok(set)
    }
}

/// Orders the products from which a prefill set's sizes are made.
proof fn lemma_set_products(b: int, q: int, kv: int, nq: int, hd: int, h: int)
    requires
        b >= 0,
        kv >= 0,
        nq >= 0,
        hd >= 0,
        h >= 0,
        q == nq * hd,
        b * h > 0,
    ensures
        b > 0,
        q >= 0,
        b * q == b * nq * hd,
        0 <= b * q <= b * (q + 2 * kv),
        q + 2 * kv <= b * (q + 2 * kv),
        hd > 0 ==> b * nq <= b * q,
        b * q > 0 ==> hd > 0 && nq > 0 && 0 <= b * (hd / 2) <= b * q,
        q == 0 ==> b * q == 0,
{
    assert(b > 0) by (nonlinear_arith)
        requires
            b >= 0,
            h >= 0,
            b * h > 0,
    ;
    assert(q >= 0) by (nonlinear_arith)
        requires
            q == nq * hd,
            nq >= 0,
            hd >= 0,
    ;
    assert(b * q == b * nq * hd) by (nonlinear_arith)
        requires
            q == nq * hd,
    ;
    let t = q + 2 * kv;
    assert(0 <= b * q <= b * t && t <= b * t) by (nonlinear_arith)
        requires
            b > 0,
            0 <= q <= t,
    ;
    if hd > 0 {
        assert(nq <= q) by (nonlinear_arith)
            requires
                q == nq * hd,
                hd > 0,
                nq >= 0,
        ;
        assert(b * nq <= b * q) by (nonlinear_arith)
            requires
                nq <= q,
                b > 0,
        ;
    }
    if b * q > 0 {
        assert(hd > 0 && nq > 0) by (nonlinear_arith)
            requires
                b * q > 0,
                q == nq * hd,
                nq >= 0,
                hd >= 0,
        ;
        let half = hd / 2;
        assert(hd <= q) by (nonlinear_arith)
            requires
                q == nq * hd,
                nq > 0,
                hd > 0,
        ;
        assert(0 <= b * half <= b * q) by (nonlinear_arith)
            requires
                0 <= half <= q,
                b > 0,
        ;
    }
    assert(q == 0 ==> b * q == 0) by (nonlinear_arith);
}

} // verus!

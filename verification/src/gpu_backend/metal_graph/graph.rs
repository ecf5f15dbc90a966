//! The Metal graph: what is resident on the device, and the single operations.

use std::collections::HashMap;

use vstd::prelude::*;

use crate::gpu_backend::metal_graph::buffers::MetalBuffers;
use crate::gpu_backend::metal_graph::device::{Action, Resident};
use crate::gpu_backend::metal_graph::error::MetalWeightHandle;
use crate::gpu_backend::metal_graph::weights::WeightStore;
use crate::gpu_backend::metal_prefill::types::PrefillBuffers;

verus! {

/// Reusable input and output buffers of the batched GEMM, as byte capacities.
#[derive(Debug, Clone, Copy, PartialEq, Eq, Structural)]
pub struct GemmIoPool {
    /// Capacity of the input buffer.
    pub input_cap_bytes: usize,
    /// Capacity of the output buffer.
    pub output_cap_bytes: usize,
}

/// Reusable buffers of the joint attention, as byte capacities.
#[derive(Debug, Clone, Copy, PartialEq, Eq, Structural)]
pub struct JointAttnIoPool {
    /// Capacity of each of the query, key and value buffers.
    pub qkv_cap_bytes: usize,
    /// Capacity of the output buffer.
    pub out_cap_bytes: usize,
}

/// What the device holds between calls, apart from weights.
#[derive(Debug, Clone, Copy, PartialEq, Eq, Structural)]
pub struct Residency {
    /// The decode FFN's intermediates.
    pub buffers: Option<MetalBuffers>,
    /// The batch prefill's intermediates.
    pub prefill_buffers: Option<PrefillBuffers>,
    /// Bytes of the logits buffer.
    pub logits_bytes: Option<u64>,
    /// Bytes of the token id buffer.
    pub token_id_bytes: Option<u64>,
    /// The GEMM pool.
    pub gemm_io_pool: Option<GemmIoPool>,
    /// The joint-attention pool.
    pub joint_attn_pool: Option<JointAttnIoPool>,
    /// Buffers allocated for the GEMM pool so far.
    pub gemm_pool_allocs: u64,
    /// Buffers allocated for the joint-attention pool so far.
    pub joint_attn_pool_allocs: u64,
}

impl Residency {
    /// Nothing is resident yet.
    pub open spec fn none() -> Residency {
        Residency {
            buffers: None,
            prefill_buffers: None,
            logits_bytes: None,
            token_id_bytes: None,
            gemm_io_pool: None,
            joint_attn_pool: None,
            gemm_pool_allocs: 0,
            joint_attn_pool_allocs: 0,
        }
    }

    /// What is resident once the allocations that `r` names have been made.
    pub open spec fn with(self, r: Resident) -> Residency {
        match r {
            Resident::Ffn(set) => Residency { buffers: Some(set), ..self },
            Resident::Prefill(set) => Residency { prefill_buffers: Some(set), ..self },
            Resident::Logits { byte_len } => Residency { logits_bytes: Some(byte_len), ..self },
            Resident::TokenId { byte_len } => Residency { token_id_bytes: Some(byte_len), ..self },
            Resident::GemmPool { input_bytes, output_bytes } => Residency {
                gemm_io_pool: Some(
                    GemmIoPool { input_cap_bytes: input_bytes, output_cap_bytes: output_bytes },
                ),
                gemm_pool_allocs: self.gemm_pool_allocs.wrapping_add(2),
                ..self
            },
            Resident::GemmInput { bytes } => Residency {
                gemm_io_pool: match self.gemm_io_pool {
                    Some(p) => Some(GemmIoPool { input_cap_bytes: bytes, ..p }),
                    None => None,
                },
                gemm_pool_allocs: self.gemm_pool_allocs.wrapping_add(1),
                ..self
            },
            Resident::GemmOutput { bytes } => Residency {
                gemm_io_pool: match self.gemm_io_pool {
                    Some(p) => Some(GemmIoPool { output_cap_bytes: bytes, ..p }),
                    None => None,
                },
                gemm_pool_allocs: self.gemm_pool_allocs.wrapping_add(1),
                ..self
            },
            Resident::AttnPool { qkv_bytes, out_bytes } => Residency {
                joint_attn_pool: Some(
                    JointAttnIoPool { qkv_cap_bytes: qkv_bytes, out_cap_bytes: out_bytes },
                ),
                joint_attn_pool_allocs: self.joint_attn_pool_allocs.wrapping_add(4),
                ..self
            },
            Resident::AttnQkv { bytes } => Residency {
                joint_attn_pool: match self.joint_attn_pool {
                    Some(p) => Some(JointAttnIoPool { qkv_cap_bytes: bytes, ..p }),
                    None => None,
                },
                joint_attn_pool_allocs: self.joint_attn_pool_allocs.wrapping_add(3),
                ..self
            },
            Resident::AttnOut { bytes } => Residency {
                joint_attn_pool: match self.joint_attn_pool {
                    Some(p) => Some(JointAttnIoPool { out_cap_bytes: bytes, ..p }),
                    None => None,
                },
                joint_attn_pool_allocs: self.joint_attn_pool_allocs.wrapping_add(1),
                ..self
            },
        }
    }

    /// What is resident once a whole plan has been carried out.
    pub open spec fn after(self, plan: Seq<Action>) -> Residency
        decreases plan.len(),
    {
        if plan.len() == 0 {
            self
        } else {
            let before = self.after(plan.drop_last());
            match plan.last() {
                Action::Keep(r) => before.with(r),
                _ => before,
            }
        }
    }
}

/// Direct Metal dispatch engine: what is resident on the device.
pub struct MetalGraph {
    /// Buffers that stay between calls.
    pub resident: Residency,
    /// Resident weights, and those that wait to be uploaded.
    pub weights: WeightStore,
}

impl MetalGraph {
    /// A graph with nothing resident.
    pub fn new() -> (g: Self)
        ensures
            g.resident == Residency::none(),
            g.weights@.cache == Map::<u64, MetalWeightHandle>::empty(),
            g.weights@.next_buffer == 0,
            g.weights@.pending.len() == 0,
    {
        MetalGraph {
            resident: Residency {
                buffers: None,
                prefill_buffers: None,
                logits_bytes: None,
                token_id_bytes: None,
                gemm_io_pool: None,
                joint_attn_pool: None,
                gemm_pool_allocs: 0,
                joint_attn_pool_allocs: 0,
            },
            weights: WeightStore { cache: HashMap::new(), next_buffer: 0, pending: Vec::new() },
        }
    }

    /// Records that allocations of a plan have been made and stay.
    pub fn keep(&mut self, r: Resident)
        ensures
            final(self).resident == old(self).resident.with(r),
            final(self).weights == old(self).weights,
    {
        let mut s = self.resident;
        match r {
            Resident::Ffn(set) => {
                s.buffers = Some(set);
            },
            Resident::Prefill(set) => {
                s.prefill_buffers = Some(set);
            },
            Resident::Logits { byte_len } => {
                s.logits_bytes = Some(byte_len);
            },
            Resident::TokenId { byte_len } => {
                s.token_id_bytes = Some(byte_len);
            },
            Resident::GemmPool { input_bytes, output_bytes } => {
                s.gemm_io_pool = Some(
                    GemmIoPool { input_cap_bytes: input_bytes, output_cap_bytes: output_bytes },
                );
                s.gemm_pool_allocs = s.gemm_pool_allocs.wrapping_add(2);
            },
            Resident::GemmInput { bytes } => {
                if let Some(p) = s.gemm_io_pool {
                    s.gemm_io_pool = Some(
                        GemmIoPool {
                            input_cap_bytes: bytes,
                            output_cap_bytes: p.output_cap_bytes,
                        },
                    );
                }
                s.gemm_pool_allocs = s.gemm_pool_allocs.wrapping_add(1);
            },
            Resident::GemmOutput { bytes } => {
                if let Some(p) = s.gemm_io_pool {
                    s.gemm_io_pool = Some(
                        GemmIoPool {
                            input_cap_bytes: p.input_cap_bytes,
                            output_cap_bytes: bytes,
                        },
                    );
                }
                s.gemm_pool_allocs = s.gemm_pool_allocs.wrapping_add(1);
            },
            Resident::AttnPool { qkv_bytes, out_bytes } => {
                s.joint_attn_pool = Some(
                    JointAttnIoPool { qkv_cap_bytes: qkv_bytes, out_cap_bytes: out_bytes },
                );
                s.joint_attn_pool_allocs = s.joint_attn_pool_allocs.wrapping_add(4);
            },
            Resident::AttnQkv { bytes } => {
                if let Some(p) = s.joint_attn_pool {
                    s.joint_attn_pool = Some(
                        JointAttnIoPool { qkv_cap_bytes: bytes, out_cap_bytes: p.out_cap_bytes },
                    );
                }
                s.joint_attn_pool_allocs = s.joint_attn_pool_allocs.wrapping_add(3);
            },
            Resident::AttnOut { bytes } => {
                if let Some(p) = s.joint_attn_pool {
                    s.joint_attn_pool = Some(
                        JointAttnIoPool { qkv_cap_bytes: p.qkv_cap_bytes, out_cap_bytes: bytes },
                    );
                }
                s.joint_attn_pool_allocs = s.joint_attn_pool_allocs.wrapping_add(1);
            },
        }
        self.resident = s;
    }
}

} // verus!

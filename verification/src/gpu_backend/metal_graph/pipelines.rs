//! Kernel pipelines: which are compiled, from what source, and where the
//! compiled library comes from.

use vstd::prelude::*;

use crate::gpu_backend::metal_graph::device::Step;
use crate::gpu_backend::metal_graph::error;
use crate::gpu_backend::metal_graph::error::{encoding_failed, MetalFault, MetalGraphError};
use crate::text;
use crate::text::Msg;

verus! {

/// A compute pipeline of the kernel library.
#[derive(Debug, Clone, Copy, PartialEq, Eq, Structural)]
pub enum Pipeline {
    /// 1-bit matrix times vector.
    GemvQ1G128V7,
    /// 1-bit matrix times vector, added to a residual.
    GemvQ1G128V7Residual,
    /// Weighted RMSNorm.
    RmsnormWeightedV2,
    /// In-place addition.
    ResidualAdd,
    /// Query and key norms.
    FusedQkNorm,
    /// Query and key rotation.
    FusedQkRope,
    /// Query and key norms and rotation.
    FusedQkNormRope,
    /// KV cache store.
    FusedKvStore,
    /// Gate, up and SwiGLU of one token.
    FusedGateUpSwigluQ1,
    /// Attention scores.
    BatchedAttentionScoresV2,
    /// Softmax per head.
    BatchedSoftmax,
    /// Attention output.
    BatchedAttentionWeightedSum,
    /// Greedy token.
    Argmax,
    /// RMSNorm per column.
    BatchedRmsnormV2,
    /// SwiGLU per column.
    BatchedSwiglu,
    /// 1-bit matrix times batch.
    GemmQ1G128V7,
    /// 1-bit matrix times batch, added to a residual.
    GemmQ1G128V7Residual,
    /// Gate, up and SwiGLU of a batch.
    FusedGateUpSwigluGemmQ1,
    /// Ternary matrix times vector.
    GemvTq2G128V1,
    /// Ternary matrix times batch.
    GemmTq2G128V7,
    /// Ternary matrix times large batch, tiled.
    GemmTq2G128V8Tiled,
    /// Ternary matrix times large batch, on matrix units.
    GemmTq2G128V9Simdgroup,
    /// Ternary matrix times large batch, with faster staging.
    GemmTq2G128V10Simdgroup,
    /// Single-precision matrix times batch.
    GemmF32Simdgroup,
    /// Convolution patches.
    Im2colF32,
    /// Group norm.
    GroupnormF32,
    /// SiLU.
    SiluF32,
    /// Nearest-neighbour upsampling.
    UpsampleNearestF32,
    /// Convolution without materialised patches.
    Conv2dF32Implicit,
    /// Joint attention.
    JointAttentionFlashF32,
}

impl Pipeline {
    /// Name of the kernel function.
    pub open spec fn name(self) -> &'static str {
        match self {
            Pipeline::GemvQ1G128V7 => "gemv_q1_g128_v7",
            Pipeline::GemvQ1G128V7Residual => "gemv_q1_g128_v7_residual",
            Pipeline::RmsnormWeightedV2 => "rmsnorm_weighted_v2",
            Pipeline::ResidualAdd => "residual_add",
            Pipeline::FusedQkNorm => "fused_qk_norm",
            Pipeline::FusedQkRope => "fused_qk_rope",
            Pipeline::FusedQkNormRope => "fused_qk_norm_rope",
            Pipeline::FusedKvStore => "fused_kv_store",
            Pipeline::FusedGateUpSwigluQ1 => "fused_gate_up_swiglu_q1",
            Pipeline::BatchedAttentionScoresV2 => "batched_attention_scores_v2",
            Pipeline::BatchedSoftmax => "batched_softmax",
            Pipeline::BatchedAttentionWeightedSum => "batched_attention_weighted_sum",
            Pipeline::Argmax => "argmax",
            Pipeline::BatchedRmsnormV2 => "batched_rmsnorm_v2",
            Pipeline::BatchedSwiglu => "batched_swiglu",
            Pipeline::GemmQ1G128V7 => "gemm_q1_g128_v7",
            Pipeline::GemmQ1G128V7Residual => "gemm_q1_g128_v7_residual",
            Pipeline::FusedGateUpSwigluGemmQ1 => "fused_gate_up_swiglu_gemm_q1",
            Pipeline::GemvTq2G128V1 => "gemv_tq2_g128_v1",
            Pipeline::GemmTq2G128V7 => "gemm_tq2_g128_v7",
            Pipeline::GemmTq2G128V8Tiled => "gemm_tq2_g128_v8_tiled",
            Pipeline::GemmTq2G128V9Simdgroup => "gemm_tq2_g128_v9_simdgroup",
            Pipeline::GemmTq2G128V10Simdgroup => "gemm_tq2_g128_v10_simdgroup",
            Pipeline::GemmF32Simdgroup => "gemm_f32_simdgroup",
            Pipeline::Im2colF32 => "im2col_f32",
            Pipeline::GroupnormF32 => "groupnorm_f32",
            Pipeline::SiluF32 => "silu_f32",
            Pipeline::UpsampleNearestF32 => "upsample_nearest_f32",
            Pipeline::Conv2dF32Implicit => "conv2d_f32_implicit",
            Pipeline::JointAttentionFlashF32 => "joint_attention_flash_f32",
        }
    }

    /// Name of the kernel function.
    pub fn entry_point(self) -> (s: &'static str)
        ensures
            s@ == self.name()@,
    {
        match self {
            Pipeline::GemvQ1G128V7 => "gemv_q1_g128_v7",
            Pipeline::GemvQ1G128V7Residual => "gemv_q1_g128_v7_residual",
            Pipeline::RmsnormWeightedV2 => "rmsnorm_weighted_v2",
            Pipeline::ResidualAdd => "residual_add",
            Pipeline::FusedQkNorm => "fused_qk_norm",
            Pipeline::FusedQkRope => "fused_qk_rope",
            Pipeline::FusedQkNormRope => "fused_qk_norm_rope",
            Pipeline::FusedKvStore => "fused_kv_store",
            Pipeline::FusedGateUpSwigluQ1 => "fused_gate_up_swiglu_q1",
            Pipeline::BatchedAttentionScoresV2 => "batched_attention_scores_v2",
            Pipeline::BatchedSoftmax => "batched_softmax",
            Pipeline::BatchedAttentionWeightedSum => "batched_attention_weighted_sum",
            Pipeline::Argmax => "argmax",
            Pipeline::BatchedRmsnormV2 => "batched_rmsnorm_v2",
            Pipeline::BatchedSwiglu => "batched_swiglu",
            Pipeline::GemmQ1G128V7 => "gemm_q1_g128_v7",
            Pipeline::GemmQ1G128V7Residual => "gemm_q1_g128_v7_residual",
            Pipeline::FusedGateUpSwigluGemmQ1 => "fused_gate_up_swiglu_gemm_q1",
            Pipeline::GemvTq2G128V1 => "gemv_tq2_g128_v1",
            Pipeline::GemmTq2G128V7 => "gemm_tq2_g128_v7",
            Pipeline::GemmTq2G128V8Tiled => "gemm_tq2_g128_v8_tiled",
            Pipeline::GemmTq2G128V9Simdgroup => "gemm_tq2_g128_v9_simdgroup",
            Pipeline::GemmTq2G128V10Simdgroup => "gemm_tq2_g128_v10_simdgroup",
            Pipeline::GemmF32Simdgroup => "gemm_f32_simdgroup",
            Pipeline::Im2colF32 => "im2col_f32",
            Pipeline::GroupnormF32 => "groupnorm_f32",
            Pipeline::SiluF32 => "silu_f32",
            Pipeline::UpsampleNearestF32 => "upsample_nearest_f32",
            Pipeline::Conv2dF32Implicit => "conv2d_f32_implicit",
            Pipeline::JointAttentionFlashF32 => "joint_attention_flash_f32",
        }
    }
}

/// All pipelines, in the order in which their sources are concatenated and in
/// which they are built.
pub open spec fn pipeline_order() -> Seq<Pipeline> {
    seq![
        Pipeline::GemvQ1G128V7,
        Pipeline::GemvQ1G128V7Residual,
        Pipeline::RmsnormWeightedV2,
        Pipeline::ResidualAdd,
        Pipeline::FusedQkNorm,
        Pipeline::FusedQkRope,
        Pipeline::FusedQkNormRope,
        Pipeline::FusedKvStore,
        Pipeline::FusedGateUpSwigluQ1,
        Pipeline::BatchedAttentionScoresV2,
        Pipeline::BatchedSoftmax,
        Pipeline::BatchedAttentionWeightedSum,
        Pipeline::Argmax,
        Pipeline::BatchedRmsnormV2,
        Pipeline::BatchedSwiglu,
        Pipeline::GemmQ1G128V7,
        Pipeline::GemmQ1G128V7Residual,
        Pipeline::FusedGateUpSwigluGemmQ1,
        Pipeline::GemvTq2G128V1,
        Pipeline::GemmTq2G128V7,
        Pipeline::GemmTq2G128V8Tiled,
        Pipeline::GemmTq2G128V9Simdgroup,
        Pipeline::GemmTq2G128V10Simdgroup,
        Pipeline::GemmF32Simdgroup,
        Pipeline::Im2colF32,
        Pipeline::GroupnormF32,
        Pipeline::SiluF32,
        Pipeline::UpsampleNearestF32,
        Pipeline::Conv2dF32Implicit,
        Pipeline::JointAttentionFlashF32,
    ]
}

/// All pipelines, in the order in which their sources are concatenated and in
/// which they are built.
pub fn all_pipelines() -> (v: Vec<Pipeline>)
    ensures
        v@ == pipeline_order(),
{
    let mut v: Vec<Pipeline> = Vec::new();
    v.push(Pipeline::GemvQ1G128V7);
    v.push(Pipeline::GemvQ1G128V7Residual);
    v.push(Pipeline::RmsnormWeightedV2);
    v.push(Pipeline::ResidualAdd);
    v.push(Pipeline::FusedQkNorm);
    v.push(Pipeline::FusedQkRope);
    v.push(Pipeline::FusedQkNormRope);
    v.push(Pipeline::FusedKvStore);
    v.push(Pipeline::FusedGateUpSwigluQ1);
    v.push(Pipeline::BatchedAttentionScoresV2);
    v.push(Pipeline::BatchedSoftmax);
    v.push(Pipeline::BatchedAttentionWeightedSum);
    v.push(Pipeline::Argmax);
    v.push(Pipeline::BatchedRmsnormV2);
    v.push(Pipeline::BatchedSwiglu);
    v.push(Pipeline::GemmQ1G128V7);
    v.push(Pipeline::GemmQ1G128V7Residual);
    v.push(Pipeline::FusedGateUpSwigluGemmQ1);
    v.push(Pipeline::GemvTq2G128V1);
    v.push(Pipeline::GemmTq2G128V7);
    v.push(Pipeline::GemmTq2G128V8Tiled);
    v.push(Pipeline::GemmTq2G128V9Simdgroup);
    v.push(Pipeline::GemmTq2G128V10Simdgroup);
    v.push(Pipeline::GemmF32Simdgroup);
    v.push(Pipeline::Im2colF32);
    v.push(Pipeline::GroupnormF32);
    v.push(Pipeline::SiluF32);
    v.push(Pipeline::UpsampleNearestF32);
    v.push(Pipeline::Conv2dF32Implicit);
    v.push(Pipeline::JointAttentionFlashF32);
    assert(v@ =~= pipeline_order());
    v
}

impl Step {
    /// The pipeline that carries the launch out.
    pub open spec fn runs_on(self) -> Pipeline {
        match self {
            Step::GemvQ1 { .. } => Pipeline::GemvQ1G128V7,
            Step::GemvTq2 { .. } => Pipeline::GemvTq2G128V1,
            Step::GemvTq2At { .. } => Pipeline::GemvTq2G128V1,
            Step::GemmQ1V7 { .. } => Pipeline::GemmQ1G128V7,
            Step::GemmQ1V7Residual { .. } => Pipeline::GemmQ1G128V7Residual,
            Step::GemmTq2V7 { .. } => Pipeline::GemmTq2G128V7,
            Step::GemmTq2V10 { .. } => Pipeline::GemmTq2G128V10Simdgroup,
            Step::GemmF32 { .. } => Pipeline::GemmF32Simdgroup,
            Step::RmsNorm { .. } => Pipeline::RmsnormWeightedV2,
            Step::RmsNormAt { .. } => Pipeline::RmsnormWeightedV2,
            Step::BatchedRmsNorm { .. } => Pipeline::BatchedRmsnormV2,
            Step::ResidualAdd { .. } => Pipeline::ResidualAdd,
            Step::FusedGateUpSwiglu { .. } => Pipeline::FusedGateUpSwigluQ1,
            Step::FusedGateUpSwigluGemm { .. } => Pipeline::FusedGateUpSwigluGemmQ1,
            Step::BatchedSwiglu { .. } => Pipeline::BatchedSwiglu,
            Step::FusedQkNorm { .. } => Pipeline::FusedQkNorm,
            Step::FusedQkRope { .. } => Pipeline::FusedQkRope,
            Step::FusedKvStore { .. } => Pipeline::FusedKvStore,
            Step::AttentionScores { .. } => Pipeline::BatchedAttentionScoresV2,
            Step::BatchedSoftmax { .. } => Pipeline::BatchedSoftmax,
            Step::WeightedSum { .. } => Pipeline::BatchedAttentionWeightedSum,
            Step::Argmax { .. } => Pipeline::Argmax,
            Step::ArgmaxAt { .. } => Pipeline::Argmax,
            Step::Im2col { .. } => Pipeline::Im2colF32,
            Step::Conv2dImplicit { .. } => Pipeline::Conv2dF32Implicit,
            Step::GroupNorm { .. } => Pipeline::GroupnormF32,
            Step::Silu { .. } => Pipeline::SiluF32,
            Step::UpsampleNearest { .. } => Pipeline::UpsampleNearestF32,
            Step::JointAttentionFlash { .. } => Pipeline::JointAttentionFlashF32,
        }
    }

    /// The pipeline that carries the launch out.
    pub fn pipeline(&self) -> (p: Pipeline)
        ensures
            p == self.runs_on(),
    {
        match self {
            Step::GemvQ1 { .. } => Pipeline::GemvQ1G128V7,
            Step::GemvTq2 { .. } => Pipeline::GemvTq2G128V1,
            Step::GemvTq2At { .. } => Pipeline::GemvTq2G128V1,
            Step::GemmQ1V7 { .. } => Pipeline::GemmQ1G128V7,
            Step::GemmQ1V7Residual { .. } => Pipeline::GemmQ1G128V7Residual,
            Step::GemmTq2V7 { .. } => Pipeline::GemmTq2G128V7,
            Step::GemmTq2V10 { .. } => Pipeline::GemmTq2G128V10Simdgroup,
            Step::GemmF32 { .. } => Pipeline::GemmF32Simdgroup,
            Step::RmsNorm { .. } => Pipeline::RmsnormWeightedV2,
            Step::RmsNormAt { .. } => Pipeline::RmsnormWeightedV2,
            Step::BatchedRmsNorm { .. } => Pipeline::BatchedRmsnormV2,
            Step::ResidualAdd { .. } => Pipeline::ResidualAdd,
            Step::FusedGateUpSwiglu { .. } => Pipeline::FusedGateUpSwigluQ1,
            Step::FusedGateUpSwigluGemm { .. } => Pipeline::FusedGateUpSwigluGemmQ1,
            Step::BatchedSwiglu { .. } => Pipeline::BatchedSwiglu,
            Step::FusedQkNorm { .. } => Pipeline::FusedQkNorm,
            Step::FusedQkRope { .. } => Pipeline::FusedQkRope,
            Step::FusedKvStore { .. } => Pipeline::FusedKvStore,
            Step::AttentionScores { .. } => Pipeline::BatchedAttentionScoresV2,
            Step::BatchedSoftmax { .. } => Pipeline::BatchedSoftmax,
            Step::WeightedSum { .. } => Pipeline::BatchedAttentionWeightedSum,
            Step::Argmax { .. } => Pipeline::Argmax,
            Step::ArgmaxAt { .. } => Pipeline::Argmax,
            Step::Im2col { .. } => Pipeline::Im2colF32,
            Step::Conv2dImplicit { .. } => Pipeline::Conv2dF32Implicit,
            Step::GroupNorm { .. } => Pipeline::GroupnormF32,
            Step::Silu { .. } => Pipeline::SiluF32,
            Step::UpsampleNearest { .. } => Pipeline::UpsampleNearestF32,
            Step::JointAttentionFlash { .. } => Pipeline::JointAttentionFlashF32,
        }
    }
}

/// Every launch has a pipeline that is built.
pub proof fn law_every_launch_has_a_pipeline(step: Step)
    ensures
        pipeline_order().contains(step.runs_on()),
{
    let i = position(step.runs_on());
    assert(pipeline_order()[i] == step.runs_on());
}

/// Where a pipeline stands in the order.
pub open spec fn position(p: Pipeline) -> int {
    match p {
        Pipeline::GemvQ1G128V7 => 0,
        Pipeline::GemvQ1G128V7Residual => 1,
        Pipeline::RmsnormWeightedV2 => 2,
        Pipeline::ResidualAdd => 3,
        Pipeline::FusedQkNorm => 4,
        Pipeline::FusedQkRope => 5,
        Pipeline::FusedQkNormRope => 6,
        Pipeline::FusedKvStore => 7,
        Pipeline::FusedGateUpSwigluQ1 => 8,
        Pipeline::BatchedAttentionScoresV2 => 9,
        Pipeline::BatchedSoftmax => 10,
        Pipeline::BatchedAttentionWeightedSum => 11,
        Pipeline::Argmax => 12,
        Pipeline::BatchedRmsnormV2 => 13,
        Pipeline::BatchedSwiglu => 14,
        Pipeline::GemmQ1G128V7 => 15,
        Pipeline::GemmQ1G128V7Residual => 16,
        Pipeline::FusedGateUpSwigluGemmQ1 => 17,
        Pipeline::GemvTq2G128V1 => 18,
        Pipeline::GemmTq2G128V7 => 19,
        Pipeline::GemmTq2G128V8Tiled => 20,
        Pipeline::GemmTq2G128V9Simdgroup => 21,
        Pipeline::GemmTq2G128V10Simdgroup => 22,
        Pipeline::GemmF32Simdgroup => 23,
        Pipeline::Im2colF32 => 24,
        Pipeline::GroupnormF32 => 25,
        Pipeline::SiluF32 => 26,
        Pipeline::UpsampleNearestF32 => 27,
        Pipeline::Conv2dF32Implicit => 28,
        Pipeline::JointAttentionFlashF32 => 29,
    }
}

/// No pipeline is built twice.
pub proof fn law_pipelines_are_distinct(i: int, j: int)
    requires
        0 <= i < j < pipeline_order().len(),
    ensures
        pipeline_order()[i] != pipeline_order()[j],
{
    assert(position(pipeline_order()[i]) == i);
    assert(position(pipeline_order()[j]) == j);
}

/// What building one pipeline came to.
#[derive(Debug)]
pub enum PipelineBuild {
    /// The pipeline was built.
    Built,
    /// The library has no such function.
    NoFunction(String),
    /// The pipeline state could not be made.
    NoState(String),
}

/// The fault of a pipeline that was not built.
pub open spec fn build_fault(p: Pipeline, build: PipelineBuild) -> Option<MetalFault> {
    match build {
        PipelineBuild::Built => None,
        PipelineBuild::NoFunction(e) => Some(
            MetalFault::EncodingFailed("function '"@ + p.name()@ + "': "@ + e@),
        ),
        PipelineBuild::NoState(e) => Some(
            MetalFault::CompilationFailed("pipeline '"@ + p.name()@ + "': "@ + e@),
        ),
    }
}

/// What building a pipeline came to, as a result.
pub fn pipeline_for(p: Pipeline, build: PipelineBuild) -> (r: Result<(), MetalGraphError>)
    ensures
        error::reports(r, build_fault(p, build)),
{
    match build {
        PipelineBuild::Built => Ok(()),
        PipelineBuild::NoFunction(e) => Err(
            encoding_failed(
                Msg::new("function '").lit(p.entry_point()).lit("': ").lit(e.as_str()),
            ),
        ),
        PipelineBuild::NoState(e) => Err(
            MetalGraphError::CompilationFailed(
                Msg::new("pipeline '").lit(p.entry_point()).lit("': ").lit(e.as_str()).done(),
            ),
        ),
    }
}

/// The pipelines that have been built so far: the first of all, in order.
#[derive(Debug)]
pub struct MetalPipelines {
    /// The pipelines.
    pub built: Vec<Pipeline>,
}

impl MetalPipelines {
    /// What has been built is the start of the order.
    pub open spec fn wf(&self) -> bool {
        self.built@.len() <= pipeline_order().len() && self.built@ == pipeline_order().take(
            self.built@.len() as int,
        )
    }

    /// Nothing has been built yet.
    pub fn new() -> (p: Self)
        ensures
            p.wf(),
            p.built@.len() == 0,
    {
        let p = MetalPipelines { built: Vec::new() };
        assert(p.built@ =~= pipeline_order().take(0));
        p
    }

    /// The pipeline to build next; none where all have been built.
    pub fn wanted(&self) -> (p: Option<Pipeline>)
        requires
            self.wf(),
        ensures
            p == (if self.built@.len() < pipeline_order().len() {
                Some(pipeline_order()[self.built@.len() as int])
            } else {
                None
            }),
            p is None ==> self.built@ == pipeline_order(),
    {
        let all = all_pipelines();
        let n: usize = self.built.len();
        if n < all.len() {
            Some(all[n])
        } else {
            assert(pipeline_order().take(n as int) =~= pipeline_order());
            None
        }
    }

    /// Takes what building the wanted pipeline came to. The first that fails
    /// ends the compilation.
    pub fn compile(&mut self, outcome: PipelineBuild) -> (r: Result<(), MetalGraphError>)
        requires
            old(self).wf(),
            old(self).built@.len() < pipeline_order().len(),
        ensures
            final(self).wf(),
            error::reports(
                r,
                build_fault(pipeline_order()[old(self).built@.len() as int], outcome),
            ),
            r is Ok ==> final(self).built@.len() == old(self).built@.len() + 1,
            r is Err ==> *final(self) == *old(self),
    {
        let all = all_pipelines();
        let p = all[self.built.len()];
        pipeline_for(p, outcome)?;
        self.built.push(p);
        assert(self.built@ =~= pipeline_order().take(self.built@.len() as int));
        Ok(())
    }
}

/// Kernel sources, one for each pipeline.
pub struct MslSources {
    /// 1-bit matrix times vector.
    pub gemv_q1_g128_v7: String,
    /// 1-bit matrix times vector, added to a residual.
    pub gemv_q1_g128_v7_residual: String,
    /// Weighted RMSNorm.
    pub rmsnorm_weighted_v2: String,
    /// In-place addition.
    pub residual_add: String,
    /// Query and key norms.
    pub fused_qk_norm: String,
    /// Query and key rotation.
    pub fused_qk_rope: String,
    /// Query and key norms and rotation.
    pub fused_qk_norm_rope: String,
    /// KV cache store.
    pub fused_kv_store: String,
    /// Gate, up and SwiGLU of one token.
    pub fused_gate_up_swiglu_q1: String,
    /// Attention scores.
    pub batched_attention_scores_v2: String,
    /// Softmax per head.
    pub batched_softmax: String,
    /// Attention output.
    pub batched_attention_weighted_sum: String,
    /// Greedy token.
    pub argmax: String,
    /// RMSNorm per column.
    pub batched_rmsnorm_v2: String,
    /// SwiGLU per column.
    pub batched_swiglu: String,
    /// 1-bit matrix times batch.
    pub gemm_q1_g128_v7: String,
    /// 1-bit matrix times batch, added to a residual.
    pub gemm_q1_g128_v7_residual: String,
    /// Gate, up and SwiGLU of a batch.
    pub fused_gate_up_swiglu_gemm_q1: String,
    /// Ternary matrix times vector.
    pub gemv_tq2_g128_v1: String,
    /// Ternary matrix times batch.
    pub gemm_tq2_g128_v7: String,
    /// Ternary matrix times large batch, tiled.
    pub gemm_tq2_g128_v8_tiled: String,
    /// Ternary matrix times large batch, on matrix units.
    pub gemm_tq2_g128_v9_simdgroup: String,
    /// Ternary matrix times large batch, with faster staging.
    pub gemm_tq2_g128_v10_simdgroup: String,
    /// Single-precision matrix times batch.
    pub gemm_f32_simdgroup: String,
    /// Convolution patches.
    pub im2col_f32: String,
    /// Group norm.
    pub groupnorm_f32: String,
    /// SiLU.
    pub silu_f32: String,
    /// Nearest-neighbour upsampling.
    pub upsample_nearest_f32: String,
    /// Convolution without materialised patches.
    pub conv2d_f32_implicit: String,
    /// Joint attention.
    pub joint_attention_flash_f32: String,
}

impl MslSources {
    /// The source of a pipeline's kernel.
    pub open spec fn text(&self, p: Pipeline) -> Seq<char> {
        match p {
            Pipeline::GemvQ1G128V7 => self.gemv_q1_g128_v7@,
            Pipeline::GemvQ1G128V7Residual => self.gemv_q1_g128_v7_residual@,
            Pipeline::RmsnormWeightedV2 => self.rmsnorm_weighted_v2@,
            Pipeline::ResidualAdd => self.residual_add@,
            Pipeline::FusedQkNorm => self.fused_qk_norm@,
            Pipeline::FusedQkRope => self.fused_qk_rope@,
            Pipeline::FusedQkNormRope => self.fused_qk_norm_rope@,
            Pipeline::FusedKvStore => self.fused_kv_store@,
            Pipeline::FusedGateUpSwigluQ1 => self.fused_gate_up_swiglu_q1@,
            Pipeline::BatchedAttentionScoresV2 => self.batched_attention_scores_v2@,
            Pipeline::BatchedSoftmax => self.batched_softmax@,
            Pipeline::BatchedAttentionWeightedSum => self.batched_attention_weighted_sum@,
            Pipeline::Argmax => self.argmax@,
            Pipeline::BatchedRmsnormV2 => self.batched_rmsnorm_v2@,
            Pipeline::BatchedSwiglu => self.batched_swiglu@,
            Pipeline::GemmQ1G128V7 => self.gemm_q1_g128_v7@,
            Pipeline::GemmQ1G128V7Residual => self.gemm_q1_g128_v7_residual@,
            Pipeline::FusedGateUpSwigluGemmQ1 => self.fused_gate_up_swiglu_gemm_q1@,
            Pipeline::GemvTq2G128V1 => self.gemv_tq2_g128_v1@,
            Pipeline::GemmTq2G128V7 => self.gemm_tq2_g128_v7@,
            Pipeline::GemmTq2G128V8Tiled => self.gemm_tq2_g128_v8_tiled@,
            Pipeline::GemmTq2G128V9Simdgroup => self.gemm_tq2_g128_v9_simdgroup@,
            Pipeline::GemmTq2G128V10Simdgroup => self.gemm_tq2_g128_v10_simdgroup@,
            Pipeline::GemmF32Simdgroup => self.gemm_f32_simdgroup@,
            Pipeline::Im2colF32 => self.im2col_f32@,
            Pipeline::GroupnormF32 => self.groupnorm_f32@,
            Pipeline::SiluF32 => self.silu_f32@,
            Pipeline::UpsampleNearestF32 => self.upsample_nearest_f32@,
            Pipeline::Conv2dF32Implicit => self.conv2d_f32_implicit@,
            Pipeline::JointAttentionFlashF32 => self.joint_attention_flash_f32@,
        }
    }

    /// The source of a pipeline's kernel.
    pub fn of(&self, p: Pipeline) -> (s: &str)
        ensures
            s@ == self.text(p),
    {
        match p {
            Pipeline::GemvQ1G128V7 => self.gemv_q1_g128_v7.as_str(),
            Pipeline::GemvQ1G128V7Residual => self.gemv_q1_g128_v7_residual.as_str(),
            Pipeline::RmsnormWeightedV2 => self.rmsnorm_weighted_v2.as_str(),
            Pipeline::ResidualAdd => self.residual_add.as_str(),
            Pipeline::FusedQkNorm => self.fused_qk_norm.as_str(),
            Pipeline::FusedQkRope => self.fused_qk_rope.as_str(),
            Pipeline::FusedQkNormRope => self.fused_qk_norm_rope.as_str(),
            Pipeline::FusedKvStore => self.fused_kv_store.as_str(),
            Pipeline::FusedGateUpSwigluQ1 => self.fused_gate_up_swiglu_q1.as_str(),
            Pipeline::BatchedAttentionScoresV2 => self.batched_attention_scores_v2.as_str(),
            Pipeline::BatchedSoftmax => self.batched_softmax.as_str(),
            Pipeline::BatchedAttentionWeightedSum => self.batched_attention_weighted_sum.as_str(),
            Pipeline::Argmax => self.argmax.as_str(),
            Pipeline::BatchedRmsnormV2 => self.batched_rmsnorm_v2.as_str(),
            Pipeline::BatchedSwiglu => self.batched_swiglu.as_str(),
            Pipeline::GemmQ1G128V7 => self.gemm_q1_g128_v7.as_str(),
            Pipeline::GemmQ1G128V7Residual => self.gemm_q1_g128_v7_residual.as_str(),
            Pipeline::FusedGateUpSwigluGemmQ1 => self.fused_gate_up_swiglu_gemm_q1.as_str(),
            Pipeline::GemvTq2G128V1 => self.gemv_tq2_g128_v1.as_str(),
            Pipeline::GemmTq2G128V7 => self.gemm_tq2_g128_v7.as_str(),
            Pipeline::GemmTq2G128V8Tiled => self.gemm_tq2_g128_v8_tiled.as_str(),
            Pipeline::GemmTq2G128V9Simdgroup => self.gemm_tq2_g128_v9_simdgroup.as_str(),
            Pipeline::GemmTq2G128V10Simdgroup => self.gemm_tq2_g128_v10_simdgroup.as_str(),
            Pipeline::GemmF32Simdgroup => self.gemm_f32_simdgroup.as_str(),
            Pipeline::Im2colF32 => self.im2col_f32.as_str(),
            Pipeline::GroupnormF32 => self.groupnorm_f32.as_str(),
            Pipeline::SiluF32 => self.silu_f32.as_str(),
            Pipeline::UpsampleNearestF32 => self.upsample_nearest_f32.as_str(),
            Pipeline::Conv2dF32Implicit => self.conv2d_f32_implicit.as_str(),
            Pipeline::JointAttentionFlashF32 => self.joint_attention_flash_f32.as_str(),
        }
    }
}

/// The sources of the first `n` pipelines in order, each ended by a newline.
pub open spec fn joined(sources: MslSources, n: nat) -> Seq<char>
    decreases n,
{
    if n == 0 {
        ""@
    } else {
        joined(sources, (n - 1) as nat) + sources.text(pipeline_order()[n - 1]) + "\n"@
    }
}

/// The sources of all pipelines as one, in the order in which the pipelines are
/// built.
pub fn build_combined_msl(sources: &MslSources) -> (src: String)
    ensures
        src@ == joined(*sources, pipeline_order().len()),
{
    let all = all_pipelines();
    let mut src = Msg::new("");
    let mut i: usize = 0;
    while i < all.len()
        invariant
            all@ == pipeline_order(),
            i <= all@.len(),
            src@ == joined(*sources, i as nat),
        decreases all@.len() - i,
    {
        src = src.lit(sources.of(all[i])).lit("\n");
        i += 1;
    }
    src.done()
}

/// Every pipeline's source is in the combined source, behind those of the
/// pipelines before it.
pub proof fn law_every_pipeline_has_its_source(sources: MslSources, i: int)
    requires
        0 <= i < pipeline_order().len(),
    ensures
        ({
            let all = joined(sources, pipeline_order().len());
            let start = joined(sources, i as nat).len() as int;
            let text = sources.text(pipeline_order()[i]);
            &&& start + text.len() <= all.len()
            &&& all.subrange(start, start + text.len()) == text
        }),
{
    lemma_source_stays(sources, i, pipeline_order().len());
}

proof fn lemma_source_stays(sources: MslSources, i: int, n: nat)
    requires
        0 <= i < n <= pipeline_order().len(),
    ensures
        ({
            let all = joined(sources, n);
            let start = joined(sources, i as nat).len() as int;
            let text = sources.text(pipeline_order()[i]);
            &&& start + text.len() <= all.len()
            &&& all.subrange(start, start + text.len()) == text
        }),
    decreases n,
{
    let all = joined(sources, n);
    let before = joined(sources, (n - 1) as nat);
    let start = joined(sources, i as nat).len() as int;
    let text = sources.text(pipeline_order()[i]);
    if i == n - 1 {
        assert(all.subrange(start, start + text.len()) =~= text);
    } else {
        lemma_source_stays(sources, i, (n - 1) as nat);
        assert(all.subrange(start, start + text.len()) =~= before.subrange(
            start,
            start + text.len(),
        ));
    }
}

/// Where a compiled kernel library may come from.
#[derive(Debug, Clone, Copy, PartialEq, Eq, Structural)]
pub enum LibrarySource {
    /// Compiled at build time and embedded.
    Embedded,
    /// Compiled by an earlier run and cached on disk.
    Cached,
    /// Compiled offline now, and cached.
    Offline,
    /// Compiled by the device driver.
    Runtime,
}

/// Sources of the library in order of preference.
pub open spec fn library_order(has_embedded: bool, has_cache_dir: bool) -> Seq<LibrarySource> {
    (if has_embedded {
        seq![LibrarySource::Embedded]
    } else {
        seq![]
    }) + (if has_cache_dir {
        seq![LibrarySource::Cached, LibrarySource::Offline]
    } else {
        seq![]
    }) + seq![LibrarySource::Runtime]
}

/// Sources of the library in order of preference: each is tried until one
/// yields a library.
pub fn library_sources(has_embedded: bool, has_cache_dir: bool) -> (v: Vec<LibrarySource>)
    ensures
        v@ == library_order(has_embedded, has_cache_dir),
{
    let mut v: Vec<LibrarySource> = Vec::new();
    if has_embedded {
        v.push(LibrarySource::Embedded);
    }
    if has_cache_dir {
        v.push(LibrarySource::Cached);
        v.push(LibrarySource::Offline);
    }
    v.push(LibrarySource::Runtime);
    assert(v@ =~= library_order(has_embedded, has_cache_dir));
    v
}

/// File name of a cached library, by the hash of its source.
pub fn cache_filename(hash: u64) -> (s: String)
    ensures
        s@ == "kernels_"@ + text::hex(hash as nat, 16) + ".metallib"@,
{
    Msg::new("kernels_").hex16(hash).lit(".metallib").done()
}

/// Compilation by the driver is always the last resort, and only ever the
/// last.
pub proof fn law_runtime_compilation_is_last(has_embedded: bool, has_cache_dir: bool, i: int)
    requires
        0 <= i < library_order(has_embedded, has_cache_dir).len(),
    ensures
        library_order(has_embedded, has_cache_dir)[i] is Runtime <==> i == library_order(
            has_embedded,
            has_cache_dir,
        ).len() - 1,
{
}

/// A launch runs the kernel function of its own operation: products the ones of their
/// weights and batch, norms the weighted ones, and everything else the one of its name.
pub proof fn law_launches_run_their_kernels(step: Step, p: Pipeline, name: &'static str)
    requires
        call_ensures(Step::pipeline, (&step,), p),
        call_ensures(Pipeline::entry_point, (p,), name),
    ensures
        name@ == match step {
            Step::GemvQ1 { .. } => "gemv_q1_g128_v7"@,
            Step::GemvTq2 { .. } => "gemv_tq2_g128_v1"@,
            Step::GemvTq2At { .. } => "gemv_tq2_g128_v1"@,
            Step::GemmQ1V7 { .. } => "gemm_q1_g128_v7"@,
            Step::GemmQ1V7Residual { .. } => "gemm_q1_g128_v7_residual"@,
            Step::GemmTq2V7 { .. } => "gemm_tq2_g128_v7"@,
            Step::GemmTq2V10 { .. } => "gemm_tq2_g128_v10_simdgroup"@,
            Step::GemmF32 { .. } => "gemm_f32_simdgroup"@,
            Step::RmsNorm { .. } => "rmsnorm_weighted_v2"@,
            Step::RmsNormAt { .. } => "rmsnorm_weighted_v2"@,
            Step::BatchedRmsNorm { .. } => "batched_rmsnorm_v2"@,
            Step::ResidualAdd { .. } => "residual_add"@,
            Step::FusedGateUpSwiglu { .. } => "fused_gate_up_swiglu_q1"@,
            Step::FusedGateUpSwigluGemm { .. } => "fused_gate_up_swiglu_gemm_q1"@,
            Step::BatchedSwiglu { .. } => "batched_swiglu"@,
            Step::FusedQkNorm { .. } => "fused_qk_norm"@,
            Step::FusedQkRope { .. } => "fused_qk_rope"@,
            Step::FusedKvStore { .. } => "fused_kv_store"@,
            Step::AttentionScores { .. } => "batched_attention_scores_v2"@,
            Step::BatchedSoftmax { .. } => "batched_softmax"@,
            Step::WeightedSum { .. } => "batched_attention_weighted_sum"@,
            Step::Argmax { .. } => "argmax"@,
            Step::ArgmaxAt { .. } => "argmax"@,
            Step::Im2col { .. } => "im2col_f32"@,
            Step::Conv2dImplicit { .. } => "conv2d_f32_implicit"@,
            Step::GroupNorm { .. } => "groupnorm_f32"@,
            Step::Silu { .. } => "silu_f32"@,
            Step::UpsampleNearest { .. } => "upsample_nearest_f32"@,
            Step::JointAttentionFlash { .. } => "joint_attention_flash_f32"@,
        },
{
}

} // verus!

//! The vocabulary of device plans: buffers, kernel launches and actions.

use vstd::prelude::*;

use crate::gpu_backend::metal_graph::buffers::MetalBuffers;
use crate::gpu_backend::metal_prefill::types::PrefillBuffers;

verus! {

/// A device buffer that a plan names.
#[derive(Debug, Clone, Copy, PartialEq, Eq, Structural)]
pub enum Buf {
    /// A resident weight, by its handle's number.
    Weight(u64),
    /// One of the decode FFN's intermediates.
    Ffn(FfnBuf),
    /// One of the batch prefill's intermediates.
    Prefill(PrefillBuf),
    /// The key cache of all layers.
    KCache,
    /// The value cache of all layers.
    VCache,
    /// Logits of the LM head.
    Logits,
    /// Token ids picked by argmax.
    TokenId,
    /// Pooled GEMM input.
    GemmInput,
    /// Pooled GEMM output.
    GemmOutput,
    /// Pooled joint-attention queries.
    AttnQ,
    /// Pooled joint-attention keys.
    AttnK,
    /// Pooled joint-attention values.
    AttnV,
    /// Pooled joint-attention output.
    AttnOut,
    /// A buffer that lives for one call.
    Scratch(ScratchBuf),
}

/// Intermediates of the decode FFN phase.
#[derive(Debug, Clone, Copy, PartialEq, Eq, Structural)]
pub enum FfnBuf {
    /// Hidden state, updated in place.
    Hidden,
    /// Attention output.
    AttnOut,
    /// RMSNorm weight.
    NormWeight,
    /// Projected attention output.
    Proj,
    /// Normalised hidden state.
    Normed,
    /// SwiGLU output.
    Swiglu,
    /// Down projection output.
    Down,
}

/// Intermediates of the batch prefill. Batched buffers hold one column per
/// token; the others hold a single token.
#[derive(Debug, Clone, Copy, PartialEq, Eq, Structural)]
pub enum PrefillBuf {
    /// Hidden states, batched.
    Hidden,
    /// Normalised hidden states, batched.
    Normed,
    /// Fused Q, K and V projections, batched.
    Qkv,
    /// Attention outputs, batched.
    AttnOut,
    /// SwiGLU outputs, batched.
    Swiglu,
    /// Concatenated gate and up projections, batched.
    GateUp,
    /// Normalised query of one token.
    QNormed,
    /// Normalised key of one token.
    KNormed,
    /// Rotated query of one token.
    QRope,
    /// Rotated key of one token.
    KRope,
    /// Attention scores of one token.
    Scores,
    /// RoPE cosines, batched.
    Cos,
    /// RoPE sines, batched.
    Sin,
}

/// Buffers allocated for one call and released after it.
#[derive(Debug, Clone, Copy, PartialEq, Eq, Structural)]
pub enum ScratchBuf {
    /// The operation's input.
    Input,
    /// The operation's output.
    Output,
    /// im2col patches of one tile.
    Patches,
    /// Per-channel weight.
    Weight,
    /// Per-channel bias.
    Bias,
    /// Queries.
    Q,
    /// Keys.
    K,
    /// Values.
    V,
}

/// Where a buffer's storage lives.
#[derive(Debug, Clone, Copy, PartialEq, Eq, Structural)]
pub enum Storage {
    /// Visible to host and device.
    Shared,
    /// Visible to the device only.
    Private,
}

/// A three-dimensional extent.
#[derive(Debug, Clone, Copy, PartialEq, Eq, Structural)]
pub struct Extent {
    /// First dimension.
    pub x: u64,
    /// Second dimension.
    pub y: u64,
    /// Third dimension.
    pub z: u64,
}

/// One kernel launch. Offsets are in bytes, `eps` fields hold the bits of a
/// single-precision number, and `layer` fields name the layer whose element
/// offset in the KV cache the kernel receives. Kernels with a `scale_dim`
/// receive `1 / sqrt(scale_dim)`.
#[derive(Debug, Clone, Copy, PartialEq, Eq, Structural)]
pub enum Step {
    /// 1-bit matrix times vector.
    GemvQ1 { weight: Buf, input: Buf, output: Buf, n_rows: u32, k: u32 },
    /// Ternary matrix times vector.
    GemvTq2 { weight: Buf, input: Buf, output: Buf, n_rows: u32, k: u32 },
    /// Ternary matrix times vector at given offsets.
    GemvTq2At {
        weight: Buf,
        input: Buf,
        input_offset: u64,
        output: Buf,
        output_offset: u64,
        n_rows: u32,
        k: u32,
        grid: Extent,
        threads: Extent,
    },
    /// 1-bit matrix times batch.
    GemmQ1V7 { weight: Buf, input: Buf, output: Buf, n_rows: u32, k: u32, batch: u32 },
    /// 1-bit matrix times batch, added to a residual.
    GemmQ1V7Residual {
        weight: Buf,
        input: Buf,
        output: Buf,
        n_rows: u32,
        k: u32,
        batch: u32,
        residual: Buf,
    },
    /// Ternary matrix times batch.
    GemmTq2V7 { weight: Buf, input: Buf, output: Buf, n_rows: u32, k: u32, batch: u32 },
    /// Ternary matrix times large batch.
    GemmTq2V10 { weight: Buf, input: Buf, output: Buf, n_rows: u32, k: u32, batch: u32 },
    /// Single-precision matrix times batch.
    GemmF32 { weight: Buf, input: Buf, output: Buf, n_rows: u32, k: u32, batch: u32 },
    /// RMSNorm of one vector.
    RmsNorm { input: Buf, weight: Buf, output: Buf, eps: u32, n: u32 },
    /// RMSNorm of one vector at an offset.
    RmsNormAt {
        input: Buf,
        input_offset: u64,
        weight: Buf,
        output: Buf,
        eps: u32,
        n: u32,
        grid: Extent,
        threads: Extent,
    },
    /// RMSNorm of every column.
    BatchedRmsNorm { input: Buf, weight: Buf, output: Buf, eps: u32, n: u32, batch: u32 },
    /// Adds one buffer to another in place.
    ResidualAdd { target: Buf, addend: Buf, n: u32 },
    /// Gate and up projections with SwiGLU of one vector.
    FusedGateUpSwiglu { weight: Buf, input: Buf, output: Buf, inter: u32, k: u32 },
    /// Gate and up projections with SwiGLU of a batch.
    FusedGateUpSwigluGemm {
        weight: Buf,
        input: Buf,
        output: Buf,
        inter: u32,
        k: u32,
        batch: u32,
    },
    /// SwiGLU of every column.
    BatchedSwiglu { input: Buf, output: Buf, inter: u32, batch: u32 },
    /// Per-head RMSNorm of queries and keys.
    FusedQkNorm {
        query: Buf,
        query_offset: u64,
        key: Buf,
        key_offset: u64,
        q_out: Buf,
        k_out: Buf,
        q_weight: Buf,
        k_weight: Buf,
        nq: u32,
        nkv: u32,
        head_dim: u32,
        eps: u32,
    },
    /// Rotary embedding of queries and keys.
    FusedQkRope {
        query: Buf,
        key: Buf,
        q_out: Buf,
        k_out: Buf,
        cos: Buf,
        cos_offset: u64,
        sin: Buf,
        sin_offset: u64,
        nq: u32,
        nkv: u32,
        half_dim: u32,
        grid: Extent,
        threads: Extent,
    },
    /// Stores one token's key and value into the caches.
    FusedKvStore {
        key: Buf,
        value: Buf,
        value_offset: u64,
        k_cache: Buf,
        v_cache: Buf,
        nkv: u32,
        head_dim: u32,
        max_seq: u32,
        pos: u32,
        layer: usize,
    },
    /// Scores of one query against the cached keys.
    AttentionScores {
        query: Buf,
        k_cache: Buf,
        scores: Buf,
        head_dim: u32,
        nq: u32,
        nkv: u32,
        heads_per_group: u32,
        max_seq: u32,
        seq_len: u32,
        scale_dim: usize,
        layer: usize,
    },
    /// Softmax of every head's scores.
    BatchedSoftmax {
        scores: Buf,
        nq: u32,
        max_seq: u32,
        seq_len: u32,
        grid: Extent,
        threads: Extent,
    },
    /// Scores times the cached values.
    WeightedSum {
        scores: Buf,
        v_cache: Buf,
        output: Buf,
        output_offset: u64,
        head_dim: u32,
        nq: u32,
        nkv: u32,
        heads_per_group: u32,
        max_seq: u32,
        seq_len: u32,
        layer: usize,
        grid: Extent,
        threads: Extent,
    },
    /// Index of the largest logit.
    Argmax { logits: Buf, token: Buf, n: u32 },
    /// Index of the largest logit of one column.
    ArgmaxAt {
        logits: Buf,
        logits_offset: u64,
        token: Buf,
        token_offset: u64,
        n: u32,
        grid: Extent,
        threads: Extent,
    },
    /// Convolution patches of a range of output rows.
    Im2col {
        input: Buf,
        patches: Buf,
        c_in: u32,
        h: u32,
        w: u32,
        k: u32,
        pad: u32,
        w_out: u32,
        row_start: u32,
        n_elems: u32,
    },
    /// Convolution without materialised patches.
    Conv2dImplicit {
        weight: Buf,
        input: Buf,
        output: Buf,
        c_out: u32,
        spatial: u32,
        patch_dim: u32,
        c_in: u32,
        h: u32,
        w: u32,
        k: u32,
        pad: u32,
        w_out: u32,
    },
    /// GroupNorm in place.
    GroupNorm {
        x: Buf,
        weight: Buf,
        bias: Buf,
        channels: u32,
        hw: u32,
        num_groups: u32,
        eps: u32,
    },
    /// SiLU in place.
    Silu { x: Buf, n: u32 },
    /// Nearest-neighbour doubling of both spatial dimensions.
    UpsampleNearest { input: Buf, output: Buf, c: u32, h: u32, w: u32, n: u32 },
    /// Joint attention with an online softmax.
    JointAttentionFlash {
        query: Buf,
        key: Buf,
        value: Buf,
        out: Buf,
        num_heads: u32,
        seq: u32,
        head_dim: u32,
        scale_dim: usize,
    },
}

/// Buffers that outlive a call once they have been allocated.
#[derive(Debug, Clone, Copy, PartialEq, Eq, Structural)]
pub enum Resident {
    /// The decode FFN's intermediates.
    Ffn(MetalBuffers),
    /// The batch prefill's intermediates.
    Prefill(PrefillBuffers),
    /// The logits buffer.
    Logits { byte_len: u64 },
    /// The token id buffer.
    TokenId { byte_len: u64 },
    /// Both buffers of a fresh GEMM pool.
    GemmPool { input_bytes: usize, output_bytes: usize },
    /// A larger GEMM pool input.
    GemmInput { bytes: usize },
    /// A larger GEMM pool output.
    GemmOutput { bytes: usize },
    /// All four buffers of a fresh joint-attention pool.
    AttnPool { qkv_bytes: usize, out_bytes: usize },
    /// Larger joint-attention inputs.
    AttnQkv { bytes: usize },
    /// A larger joint-attention output.
    AttnOut { bytes: usize },
}

/// One action of a device plan. Plans are carried out in order; an allocation
/// that the device refuses ends the plan with a buffer creation error.
#[derive(Debug, Clone, Copy, PartialEq, Eq, Structural)]
pub enum Action {
    /// Allocate a buffer of so many bytes.
    Alloc { buf: Buf, bytes: u64, storage: Storage },
    /// Record that the allocations just made stay.
    Keep(Resident),
    /// Get the KV cache of these dimensions, allocating it if need be.
    AcquireKv { n_layers: usize, nkv: usize, max_seq: usize, head_dim: usize },
    /// Copy the first `floats` numbers of the operand that `buf` stands for.
    Upload { buf: Buf, floats: usize },
    /// Encode a kernel launch.
    Dispatch(Step),
    /// Commit what was encoded and wait for it.
    Commit,
    /// Copy the first `floats` numbers back to the host.
    Download { buf: Buf, floats: usize },
    /// Spread a downloaded convolution tile over the output plane.
    ScatterTile { row_start: usize, rows: usize },
    /// Add the per-channel bias to the output plane.
    AddBias { channels: usize, spatial: usize },
    /// Read the token id that argmax left.
    ReadToken,
    /// Read the token ids of all columns.
    ReadTokens { count: usize },
}

} // verus!

//! Compute kernels for 1-bit, ternary and 8-bit weights: quantised matrix
//! products, the float operations of transformer inference, and the planning of
//! GPU work.
//!
//! Single-precision numbers are held as their bits. What arithmetic makes of
//! them is up to an [`arith::Arith`], so that a contract can name every
//! operation of a kernel and its order without saying how numbers round.
//!
//! GPU work is data: operations check their arguments and return the sequence of
//! allocations, uploads, launches and reads that a driver carries out.

pub mod algebra;
pub mod arith;
pub mod blocks;
pub mod checks;
pub mod choice_laws;
pub mod error;
pub mod float_laws;
pub mod fp8;
pub mod gpu_backend;
pub mod kernel_laws;
pub mod packing;
pub mod parallel_tiled;
pub mod prefetch;
pub mod product_laws;
pub mod simd_avx2;
pub mod simd_float_ops;
pub mod simd_fp8_avx2;
pub mod simd_fp8_avx512;
pub mod simd_fp8_neon;
pub mod text;

pub use error::{KernelError, KernelResult};
pub use gpu_backend::backend::{gpu_matmul, GpuBackendTrait, GpuWeightHandle};
pub use gpu_backend::cpu::CpuBackend;
pub use gpu_backend::error::GpuError;
pub use gpu_backend::launch::{DeviceBuffer, LaunchConfig};
pub use gpu_backend::metal_graph::error::{MetalGraphError, MetalWeightHandle};
pub use gpu_backend::metal_graph::graph::MetalGraph;
pub use gpu_backend::scirs2_backend::backend::Scirs2Backend;
pub use gpu_backend::select::{gpu_gemv_1bit, select_backend};
pub use parallel_tiled::{gemm_adaptive_ternary, gemv_adaptive, gemv_adaptive_ternary};
pub use prefetch::{PrefetchConfig, PrefetchLocality, PrefetchStrategy};
pub use simd_float_ops::{rms_norm_simd, rope_apply_simd, silu_simd, softmax_simd, swiglu_simd};

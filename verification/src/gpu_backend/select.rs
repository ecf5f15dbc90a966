//! Choice of a backend.

use vstd::prelude::*;

use crate::arith;
use crate::arith::Arith;
use crate::gpu_backend::cpu;
use crate::gpu_backend::cpu::{cpu_gemv_1bit_fallback, CpuBackend};
use crate::gpu_backend::error;
use crate::gpu_backend::error::GpuError;
use crate::gpu_backend::scirs2_backend::backend;
use crate::gpu_backend::scirs2_backend::backend::{DeviceState, KernelSources, Scirs2Backend};
use crate::gpu_backend::scirs2_backend::context::BuildFeatures;
use crate::gpu_backend::scirs2_backend::operations;
use crate::gpu_backend::scirs2_backend::steps::DeviceStep;
use crate::gpu_backend::stubs::{CudaBackend, MetalBackend};

verus! {

/// What came of trying a backend.
#[derive(Debug, Clone, Copy, PartialEq, Eq, Structural)]
pub enum Probe {
    /// It is not compiled in.
    Absent,
    /// It could not be set up.
    Failed,
    /// It is there, but without real hardware.
    NotAccelerated,
    /// It is there.
    Ready,
}

/// The backends, best first.
#[derive(Debug, Clone, Copy, PartialEq, Eq, Structural)]
pub enum Choice {
    /// GPU contexts.
    Scirs2,
    /// CUDA without a context.
    NativeCuda,
    /// The CUDA stub.
    Cuda,
    /// The Metal stub.
    Metal,
    /// The processor.
    Cpu,
}

/// The best backend: GPU contexts where they are accelerated, then the others
/// that are there, and the processor at last.
pub open spec fn best(scirs2: Probe, native_cuda: Probe, cuda: Probe, metal: Probe) -> Choice {
    if scirs2 is Ready {
        Choice::Scirs2
    } else if native_cuda is Ready {
        Choice::NativeCuda
    } else if cuda is Ready {
        Choice::Cuda
    } else if metal is Ready {
        Choice::Metal
    } else {
        Choice::Cpu
    }
}

/// Picks the best backend from what came of trying each.
pub fn choose_backend(scirs2: Probe, native_cuda: Probe, cuda: Probe, metal: Probe) -> (c: Choice)
    ensures
        c == best(scirs2, native_cuda, cuda, metal),
{
    if scirs2 == Probe::Ready {
        Choice::Scirs2
    } else if native_cuda == Probe::Ready {
        Choice::NativeCuda
    } else if cuda == Probe::Ready {
        Choice::Cuda
    } else if metal == Probe::Ready {
        Choice::Metal
    } else {
        Choice::Cpu
    }
}

/// A backend that is ready to use.
pub enum Selected {
    /// GPU contexts: the backend that is kept for all callers.
    Scirs2,
    /// CUDA without a context, which the caller holds.
    NativeCuda,
    /// The CUDA stub.
    Cuda(CudaBackend),
    /// The Metal stub.
    Metal(MetalBackend),
    /// The processor.
    Cpu(CpuBackend),
}

impl Selected {
    /// Which backend it is.
    pub open spec fn choice(self) -> Choice {
        match self {
            Selected::Scirs2 => Choice::Scirs2,
            Selected::NativeCuda => Choice::NativeCuda,
            Selected::Cuda(_) => Choice::Cuda,
            Selected::Metal(_) => Choice::Metal,
            Selected::Cpu(_) => Choice::Cpu,
        }
    }
}

/// What came of a stub, which is there when it is compiled in.
pub open spec fn stub_probe(built: bool) -> Probe {
    if built {
        Probe::Ready
    } else {
        Probe::Absent
    }
}

/// What came of asking for the backend that is kept, where contexts are compiled
/// in.
pub open spec fn context_probe(build: BuildFeatures, kept: Option<Scirs2Backend>) -> Probe {
    if !build.gpu {
        Probe::Absent
    } else if kept is None {
        Probe::Failed
    } else if accelerated(kept) {
        Probe::Ready
    } else {
        Probe::NotAccelerated
    }
}

/// The backend that is kept was asked for where contexts are compiled in, and else
/// left alone.
pub open spec fn asked_for(
    before: Option<Scirs2Backend>,
    after: Option<Scirs2Backend>,
    build: BuildFeatures,
    sources: KernelSources,
) -> bool {
    if build.gpu {
        exists|r: Result<(), GpuError>| #[trigger]
            Scirs2Backend::obtained(before, after, build, sources, r)
    } else {
        after == before
    }
}

/// The backend that is handed out: the one that is kept, a stub with one device,
/// or the processor, the latter two with the default memory.
pub open spec fn handed_out(s: Selected) -> bool {
    match s {
        Selected::Scirs2 => true,
        Selected::NativeCuda => true,
        Selected::Cuda(b) => b.device_count == 1 && b.cpu_fallback.simulated_memory_bytes
            == cpu::default_memory(),
        Selected::Metal(b) => b.device_count == 1 && b.cpu_fallback.simulated_memory_bytes
            == cpu::default_memory(),
        Selected::Cpu(b) => b.simulated_memory_bytes == cpu::default_memory(),
    }
}

/// Sets up the best backend. `cached` is the backend on GPU contexts that is kept
/// for all callers, and `native_cuda` says what came of trying CUDA without a
/// context. There is always one: at last the processor.
pub fn select_backend(
    cached: &mut Option<Scirs2Backend>,
    build: BuildFeatures,
    sources: KernelSources,
    native_cuda: Probe,
) -> (s: Selected)
    ensures
        asked_for(*old(cached), *final(cached), build, sources),
        s.choice() == best(
            context_probe(build, *final(cached)),
            native_cuda,
            stub_probe(build.cuda),
            stub_probe(build.metal),
        ),
        handed_out(s),
{
    let mut scirs2 = Probe::Absent;
    if build.gpu {
        let _ = Scirs2Backend::global(cached, build, sources);
        scirs2 = match cached {
            Some(b) => if b.is_accelerated() {
                Probe::Ready
            } else {
                Probe::NotAccelerated
            },
            None => Probe::Failed,
        };
    }
    let cuda = if build.cuda {
        Probe::Ready
    } else {
        Probe::Absent
    };
    let metal = if build.metal {
        Probe::Ready
    } else {
        Probe::Absent
    };
    match choose_backend(scirs2, native_cuda, cuda, metal) {
        Choice::Scirs2 => Selected::Scirs2,
        Choice::NativeCuda => Selected::NativeCuda,
        Choice::Cuda => match CudaBackend::new() {
            Ok(b) => Selected::Cuda(b),
            Err(_) => Selected::Cpu(CpuBackend::new()),
        },
        Choice::Metal => match MetalBackend::new() {
            Ok(b) => Selected::Metal(b),
            Err(_) => Selected::Cpu(CpuBackend::new()),
        },
        Choice::Cpu => Selected::Cpu(CpuBackend::new()),
    }
}

/// No backend that is there ranks above the one that is picked.
pub proof fn law_best_backend_wins(scirs2: Probe, native_cuda: Probe, cuda: Probe, metal: Probe)
    ensures
        ({
            let c = best(scirs2, native_cuda, cuda, metal);
            &&& c is Scirs2 <==> scirs2 is Ready
            &&& c is NativeCuda ==> native_cuda is Ready && !(scirs2 is Ready)
            &&& c is Cuda ==> cuda is Ready && !(native_cuda is Ready)
            &&& c is Metal ==> metal is Ready && !(cuda is Ready)
            &&& c is Cpu <==> !(scirs2 is Ready) && !(native_cuda is Ready) && !(cuda is Ready)
                && !(metal is Ready)
        }),
{
}

/// A matrix-vector product's outcome: device work to do, or the product.
#[derive(Debug)]
pub enum GemvWork {
    /// Device work whose last step reads the product.
    Device(Vec<DeviceStep>),
    /// The product.
    Host(Vec<u32>),
}

/// A backend is there and has real hardware.
pub open spec fn accelerated(global: Option<Scirs2Backend>) -> bool {
    global matches Some(b) && b.build.metal && b.kind is Metal
}

/// What a product on a device with real hardware comes to: a refusal that changes
/// nothing, an error of kernels that did not compile, or the device work, with the
/// kept input and output grown to it.
pub open spec fn device_product(
    before: Scirs2Backend,
    after: Scirs2Backend,
    bytes_len: usize,
    input_len: usize,
    n_rows: usize,
    k: usize,
    r: Result<GemvWork, GpuError>,
) -> bool {
    match operations::gemv_fault(bytes_len, input_len, n_rows, k) {
        Some(f) => error::reports(r, Some(f)) && after == before,
        None => operations::used_q1(before, after) && match backend::launch_fault(
            after.kernels.q1,
        ) {
            Some(f) => error::reports(r, Some(f)) && after.state == before.state,
            None => {
                &&& r matches Ok(w) && w is Device && w->Device_0@ == operations::gemv_plan(
                    before.state,
                    n_rows,
                    k,
                )
                &&& after.state == (DeviceState {
                    input: before.state.input.after(k),
                    output: before.state.output.after(n_rows),
                    ..before.state
                })
            },
        },
    }
}

/// What a product on the processor comes to.
pub open spec fn host_product<T: Arith>(
    t: &T,
    bytes: Seq<u8>,
    input: Seq<u32>,
    n_rows: usize,
    k: usize,
    r: Result<GemvWork, GpuError>,
) -> bool {
    &&& error::reports(r, cpu::raw_gemv_fault(bytes.len(), input.len(), n_rows, k))
    &&& r matches Ok(w) ==> w is Host && w->Host_0@ == Seq::new(
        n_rows as nat,
        |i: int| cpu::dot(t, cpu::raw_row(t, bytes, i, k), input, k as nat),
    )
}

/// 1-bit matrix-vector product over raw blocks of 18 bytes: on the device where
/// contexts are compiled in and the backend that is kept has real hardware, else
/// on the processor.
pub fn gpu_gemv_1bit<T: Arith>(
    t: &T,
    cached: &mut Option<Scirs2Backend>,
    build: BuildFeatures,
    sources: KernelSources,
    block_bytes: &[u8],
    input: &[u32],
    n_rows: usize,
    k: usize,
) -> (r: Result<GemvWork, GpuError>)
    requires
        arith::deterministic(t),
        k % 128 == 0 && (build.gpu || input@.len() == k) ==> n_rows * (k / 128) * 18 <= usize::MAX,
        build.gpu && operations::gemv_fault(
            block_bytes@.len() as usize,
            input@.len() as usize,
            n_rows,
            k,
        ) is None ==> n_rows <= 256 * u32::MAX,
    ensures
        exists|kept: Option<Scirs2Backend>|
            {
                &&& #[trigger] asked_for(*old(cached), kept, build, sources)
                &&& if build.gpu && accelerated(kept) {
                    (*final(cached)) is Some && device_product(
                        kept->0,
                        (*final(cached))->0,
                        block_bytes@.len() as usize,
                        input@.len() as usize,
                        n_rows,
                        k,
                        r,
                    )
                } else {
                    *final(cached) == kept && host_product(t, block_bytes@, input@, n_rows, k, r)
                }
            },
{
    let ghost texts = sources;
    if build.gpu {
        let _ = Scirs2Backend::global(cached, build, sources);
        assert(asked_for(*old(cached), *cached, build, texts));
        if let Some(b) = cached {
            if b.is_accelerated() {
                return match b.gemv_q1_g128(block_bytes.len(), input.len(), n_rows, k) {
                    Ok(plan) => Ok(GemvWork::Device(plan)),
                    Err(e) => Err(e),
                };
            }
        }
    }
    assert(asked_for(*old(cached), *cached, build, texts));
    match cpu_gemv_1bit_fallback(t, block_bytes, input, n_rows, k) {
        Ok(v) => Ok(GemvWork::Host(v)),
        Err(e) => Err(e),
    }
}

} // verus!

//! GPU contexts of `scirs2_core`, and what the backend asks of them.

use scirs2_core::gpu::GpuError as ContextError;
use vstd::prelude::*;

use crate::gpu_backend::cpu;
use crate::gpu_backend::error::{GpuError, GpuFault};
use crate::text::Msg;

verus! {

/// The context type of `scirs2_core`, opaque here.
#[verifier::external_type_specification]
#[verifier::external_body]
pub struct ExGpuContext(scirs2_core::gpu::GpuContext);

/// The error type of `scirs2_core`'s contexts, opaque here.
#[verifier::external_type_specification]
#[verifier::external_body]
pub struct ExContextError(ContextError);

/// The compiled-kernel type of `scirs2_core`, opaque here.
#[verifier::external_type_specification]
#[verifier::external_body]
pub struct ExKernelHandle(scirs2_core::gpu::GpuKernelHandle);

/// Kind of device that a context is for.
#[derive(Debug, Clone, Copy, PartialEq, Eq, Structural)]
pub enum DeviceKind {
    /// NVIDIA CUDA.
    Cuda,
    /// AMD ROCm.
    Rocm,
    /// WebGPU.
    Wgpu,
    /// Apple Metal.
    Metal,
    /// OpenCL.
    OpenCl,
    /// The processor.
    Cpu,
}

/// Device support that is compiled in.
#[derive(Debug, Clone, Copy, PartialEq, Eq, Structural)]
pub struct BuildFeatures {
    /// GPU contexts at all.
    pub gpu: bool,
    /// Metal, on macOS.
    pub metal: bool,
    /// CUDA.
    pub cuda: bool,
}

/// Whether a kind of device can be used, from `GpuBackend::is_available` of
/// `scirs2_core`. The processor always can; CUDA, which that crate no longer
/// supports, never. The others rest on the machine and on how that crate was
/// built, and nothing is said of them.
#[verifier::external_body]
pub(crate) fn is_available(kind: DeviceKind) -> (r: bool)
    ensures
        kind is Cpu ==> r,
        kind is Cuda ==> !r,
{
    let backend = match kind {
        DeviceKind::Cuda => scirs2_core::gpu::GpuBackend::Cuda,
        DeviceKind::Rocm => scirs2_core::gpu::GpuBackend::Rocm,
        DeviceKind::Wgpu => scirs2_core::gpu::GpuBackend::Wgpu,
        DeviceKind::Metal => scirs2_core::gpu::GpuBackend::Metal,
        DeviceKind::OpenCl => scirs2_core::gpu::GpuBackend::OpenCL,
        DeviceKind::Cpu => scirs2_core::gpu::GpuBackend::Cpu,
    };
    backend.is_available()
}

/// Opens a context, by `GpuContext::new` of `scirs2_core`. One for the
/// processor always opens; one for CUDA, which that crate no longer supports,
/// never. The others rest on the machine, and nothing is said of them.
#[verifier::external_body]
pub(crate) fn open_context(kind: DeviceKind) -> (r: Result<
    scirs2_core::gpu::GpuContext,
    ContextError,
>)
    ensures
        kind is Cpu ==> r is Ok,
        kind is Cuda ==> r is Err,
{
    let backend = match kind {
        DeviceKind::Cuda => scirs2_core::gpu::GpuBackend::Cuda,
        DeviceKind::Rocm => scirs2_core::gpu::GpuBackend::Rocm,
        DeviceKind::Wgpu => scirs2_core::gpu::GpuBackend::Wgpu,
        DeviceKind::Metal => scirs2_core::gpu::GpuBackend::Metal,
        DeviceKind::OpenCl => scirs2_core::gpu::GpuBackend::OpenCL,
        DeviceKind::Cpu => scirs2_core::gpu::GpuBackend::Cpu,
    };
    scirs2_core::gpu::GpuContext::new(backend)
}

/// The device's memory, by `GpuContext::get_total_memory` of `scirs2_core`,
/// which gives 512 MiB on WebAssembly and four GiB elsewhere; where addresses
/// have 32 bits, four GiB wrap around to zero.
#[verifier::external_body]
pub(crate) fn total_memory(ctx: &scirs2_core::gpu::GpuContext) -> (r: Option<usize>)
    ensures
        r is Some,
        r->0 == 536870912 || r->0 == 4294967296 || r->0 == 0,
        usize::BITS == 64 ==> r->0 == 4294967296,
{
    ctx.get_total_memory()
}

/// Available device memory in bytes, from `GpuContext::get_available_memory` of
/// `scirs2_core`, which gives one GiB for every context.
#[verifier::external_body]
pub(crate) fn available_memory(ctx: &scirs2_core::gpu::GpuContext) -> (r: Option<usize>)
    ensures
        r == Some(1073741824usize),
{
    ctx.get_available_memory()
}

/// Compiles kernel source, by `GpuContext::execute` and `GpuCompiler::compile`
/// of `scirs2_core`. Whether it compiles rests on the device's compiler, and
/// nothing is said of it.
#[verifier::external_body]
pub(crate) fn compile_source(ctx: &scirs2_core::gpu::GpuContext, source: &str) -> (r: Result<
    scirs2_core::gpu::GpuKernelHandle,
    ContextError,
>) {
    ctx.execute(|compiler| compiler.compile(source))
}

/// The error's line of text, from the `Display` of `scirs2_core`'s error. An
/// opaque value has no contents to speak of, so nothing is said of the text.
#[verifier::external_body]
pub(crate) fn error_text(e: &ContextError) -> (s: String) {
    format!("{e}")
}

/// What a context's error says, as far as the backend tells errors apart.
pub enum ContextFault {
    /// The device is not available.
    BackendNotAvailable(String),
    /// Device memory ran out.
    OutOfMemory,
    /// A kernel did not compile.
    KernelCompilation(String),
    /// A kernel did not run.
    KernelExecution(String),
    /// A parameter was not accepted.
    InvalidParameter(String),
    /// Any other error, as its text.
    Other(String),
}

/// Tells the variants of `scirs2_core`'s error apart. An opaque value has no
/// contents to speak of, so nothing is said of which variant comes.
#[verifier::external_body]
pub(crate) fn context_fault(e: &ContextError) -> (f: ContextFault) {
    match e {
        ContextError::BackendNotAvailable(m) => {
            ContextFault::BackendNotAvailable(m.clone())
        },
        ContextError::OutOfMemory(_) => ContextFault::OutOfMemory,
        ContextError::KernelCompilationError(m) => {
            ContextFault::KernelCompilation(m.clone())
        },
        ContextError::KernelExecutionError(m) => {
            ContextFault::KernelExecution(m.clone())
        },
        ContextError::InvalidParameter(m) => ContextFault::InvalidParameter(m.clone()),
        _ => ContextFault::Other(format!("{e}")),
    }
}

/// The backend's error for a context's.
pub open spec fn converted(f: ContextFault) -> GpuFault {
    match f {
        ContextFault::BackendNotAvailable(m) => GpuFault::NotAvailable(m@),
        ContextFault::OutOfMemory => GpuFault::OutOfMemory { requested: 0, device: 0 },
        ContextFault::KernelCompilation(m) => GpuFault::KernelLaunch("compilation: "@ + m@),
        ContextFault::KernelExecution(m) => GpuFault::KernelLaunch("execution: "@ + m@),
        ContextFault::InvalidParameter(m) => GpuFault::InvalidArgument(m@),
        ContextFault::Other(m) => GpuFault::NotAvailable(m@),
    }
}

/// Turns what a context's error says into the backend's error.
pub fn convert_error(f: ContextFault) -> (e: GpuError)
    ensures
        e@ == converted(f),
{
    match f {
        ContextFault::BackendNotAvailable(m) => GpuError::NotAvailable(m),
        ContextFault::OutOfMemory => GpuError::OutOfMemory { requested: 0, device: 0 },
        ContextFault::KernelCompilation(m) => {
            GpuError::KernelLaunch(Msg::new("compilation: ").lit(m.as_str()).done())
        },
        ContextFault::KernelExecution(m) => {
            GpuError::KernelLaunch(Msg::new("execution: ").lit(m.as_str()).done())
        },
        ContextFault::InvalidParameter(m) => GpuError::InvalidArgument(m),
        ContextFault::Other(m) => GpuError::NotAvailable(m),
    }
}

impl DeviceKind {
    /// Name of the kind.
    pub open spec fn label(self) -> Seq<char> {
        match self {
            DeviceKind::Cuda => "CUDA"@,
            DeviceKind::Rocm => "ROCm"@,
            DeviceKind::Wgpu => "WebGPU"@,
            DeviceKind::Metal => "Metal"@,
            DeviceKind::OpenCl => "OpenCL"@,
            DeviceKind::Cpu => "CPU"@,
        }
    }

    /// Name of the kind.
    pub fn name(self) -> (s: &'static str)
        ensures
            s@ == self.label(),
    {
        match self {
            DeviceKind::Cuda => "CUDA",
            DeviceKind::Rocm => "ROCm",
            DeviceKind::Wgpu => "WebGPU",
            DeviceKind::Metal => "Metal",
            DeviceKind::OpenCl => "OpenCL",
            DeviceKind::Cpu => "CPU",
        }
    }
}

/// The kind of device to open: Metal, then CUDA, where compiled in and
/// available, else the processor.
pub open spec fn preferred(build: BuildFeatures, metal: bool, cuda: bool) -> DeviceKind {
    if build.metal && metal {
        DeviceKind::Metal
    } else if build.cuda && cuda {
        DeviceKind::Cuda
    } else {
        DeviceKind::Cpu
    }
}

/// The kind of device to open.
pub fn choose_device(build: BuildFeatures, metal_available: bool, cuda_available: bool) -> (kind:
    DeviceKind)
    ensures
        kind == preferred(build, metal_available, cuda_available),
{
    if build.metal && metal_available {
        DeviceKind::Metal
    } else if build.cuda && cuda_available {
        DeviceKind::Cuda
    } else {
        DeviceKind::Cpu
    }
}

/// Free and total memory from what a context reports: four GiB where it does
/// not know the total, and half of the total where it does not know what is
/// free.
pub open spec fn figures(total: Option<usize>, free: Option<usize>) -> (usize, usize) {
    let whole = match total {
        Some(t) => t,
        None => cpu::default_memory(),
    };
    (
        match free {
            Some(f) => f,
            None => (whole / 2) as usize,
        },
        whole,
    )
}

/// Free and total memory from what a context reports.
pub fn memory_figures(total: Option<usize>, free: Option<usize>) -> (r: (usize, usize))
    ensures
        r == figures(total, free),
{
    let mib: usize = 1048576;
    let whole: usize = match total {
        Some(t) => t,
        None => match mib.checked_mul(4096) {
            Some(b) => b,
            None => usize::MAX,
        },
    };
    let open: usize = match free {
        Some(f) => f,
        None => whole / 2,
    };
    (open, whole)
}

} // verus!

//! The backend itself: its context, its kernels, compiled on first use, and its
//! resident weights.

use std::collections::HashMap;

use scirs2_core::gpu::GpuContext;
use scirs2_core::gpu::GpuError as ContextError;
use scirs2_core::gpu::GpuKernelHandle;
use vstd::prelude::*;

use crate::gpu_backend::error;
use crate::gpu_backend::error::{GpuError, GpuFault};
use crate::gpu_backend::launch::DeviceBuffer;
use crate::gpu_backend::scirs2_backend::context;
use crate::gpu_backend::scirs2_backend::context::{
    available_memory, choose_device, compile_source, context_fault, convert_error, error_text,
    is_available, memory_figures, open_context, total_memory, BuildFeatures, DeviceKind,
};
use crate::gpu_backend::scirs2_backend::steps::IoBuffer;
use crate::text::Msg;

verus! {

broadcast use vstd::std_specs::hash::group_hash_axioms;

/// Kernel sources for one kind of device.
pub struct SourceSet {
    /// Matrix-vector product.
    pub matvec: String,
    /// The larger of a number and zero.
    pub relu: String,
    /// Softmax.
    pub softmax: String,
    /// RMS normalisation.
    pub rmsnorm: String,
    /// SiLU.
    pub silu: String,
    /// 1-bit matrix-vector product.
    pub gemv_q1: String,
    /// 1-bit matrix product.
    pub gemm_q1: String,
    /// Ternary matrix-vector product; only Metal has one.
    pub gemv_tq2: String,
    /// Gated activation.
    pub swiglu: String,
    /// Sum into the first operand.
    pub residual_add: String,
    /// Weighted RMS normalisation.
    pub rmsnorm_weighted: String,
}

/// Kernel sources for every kind of device that has kernels.
pub struct KernelSources {
    /// For Metal.
    pub msl: SourceSet,
    /// For CUDA.
    pub cuda: SourceSet,
}

/// General kernels.
pub struct CompiledKernels {
    /// Matrix-vector product.
    pub matvec: GpuKernelHandle,
    /// The larger of a number and zero.
    pub relu: GpuKernelHandle,
    /// Softmax.
    pub softmax: GpuKernelHandle,
    /// RMS normalisation.
    pub rmsnorm: GpuKernelHandle,
    /// SiLU.
    pub silu: GpuKernelHandle,
}

/// 1-bit kernels.
pub struct Q1Kernels {
    /// Matrix-vector product.
    pub gemv: GpuKernelHandle,
    /// Matrix product.
    pub gemm: GpuKernelHandle,
}

/// Ternary kernels.
pub struct TQ2Kernels {
    /// Matrix-vector product.
    pub gemv: GpuKernelHandle,
}

/// Kernels of a transformer layer.
pub struct HelperKernels {
    /// Gated activation.
    pub swiglu: GpuKernelHandle,
    /// Sum into the first operand.
    pub residual_add: GpuKernelHandle,
    /// Weighted RMS normalisation.
    pub rmsnorm_weighted: GpuKernelHandle,
}

/// Compiled kernels, or why they did not compile; nothing before first use.
pub struct Kernels {
    /// General kernels.
    pub base: Option<Result<CompiledKernels, String>>,
    /// 1-bit kernels.
    pub q1: Option<Result<Q1Kernels, String>>,
    /// Ternary kernels.
    pub tq2: Option<Result<TQ2Kernels, String>>,
    /// Kernels of a transformer layer.
    pub helper: Option<Result<HelperKernels, String>>,
}

/// Sizes that the feed-forward phase's buffers were created with.
#[derive(Debug, Clone, Copy, PartialEq, Eq, Structural)]
pub struct PhaseSizes {
    /// Hidden size.
    pub h: usize,
    /// Size of the attention output.
    pub attn_out: usize,
    /// Intermediate size.
    pub intermediate: usize,
}

/// What is on the device between calls.
pub struct DeviceState {
    /// Byte lengths of resident weights, by handle.
    pub weights: HashMap<u64, usize>,
    /// The input buffer.
    pub input: IoBuffer,
    /// The output buffer.
    pub output: IoBuffer,
    /// Buffers of the feed-forward phase.
    pub phase: Option<PhaseSizes>,
}

/// Backend on a GPU context.
pub struct Scirs2Backend {
    /// The context.
    pub ctx: GpuContext,
    /// Kind of device that the context is for.
    pub kind: DeviceKind,
    /// Device support that is compiled in.
    pub build: BuildFeatures,
    /// Kernel sources.
    pub sources: KernelSources,
    /// Compiled kernels.
    pub kernels: Kernels,
    /// What is on the device.
    pub state: DeviceState,
}

/// Numbers the handles of all backends.
#[derive(Debug)]
pub struct HandleIds {
    /// The next handle.
    pub next: u64,
}

impl HandleIds {
    /// Handles start at one.
    pub fn new() -> (ids: Self)
        ensures
            ids.next == 1,
    {
        HandleIds { next: 1 }
    }
}

/// Why ternary kernels do not compile without Metal.
pub open spec fn no_ternary() -> Seq<char> {
    "TQ2_0_g128 GPU GEMV is only implemented for Metal (macOS); no CUDA ternary kernel available"@
}

/// Why layer kernels do not compile without a device.
pub open spec fn no_helpers() -> Seq<char> {
    "no GPU backend available for helper kernels"@
}

/// A kernel's name, a colon and what went wrong.
pub open spec fn kernel_error(name: Seq<char>, why: Seq<char>) -> Seq<char> {
    name + ": "@ + why
}

/// The handle of a kernel, or the text that says why there is none.
pub type KernelOutcome = Result<GpuKernelHandle, Seq<char>>;

/// A kernel's outcome by the text of its error.
pub open spec fn seen(r: Result<GpuKernelHandle, String>) -> KernelOutcome {
    match r {
        Ok(handle) => Ok(handle),
        Err(m) => Err(m@),
    }
}

/// What the compiler came to on a source makes this of a kernel: its handle, or
/// the kernel's name with the error's text.
pub(crate) open spec fn named_outcome(
    name: Seq<char>,
    came: Result<GpuKernelHandle, ContextError>,
    r: KernelOutcome,
) -> bool {
    match came {
        Ok(handle) => r == KernelOutcome::Ok(handle),
        Err(e) => exists|why: String| #[trigger]
            call_ensures(error_text, (&e,), why) && r == KernelOutcome::Err(
                kernel_error(name, why@),
            ),
    }
}

/// The outcome is what the context's compiler came to on that source.
pub(crate) open spec fn compiled(
    ctx: &GpuContext,
    name: Seq<char>,
    source: Seq<char>,
    r: KernelOutcome,
) -> bool {
    exists|text: &str, came: Result<GpuKernelHandle, ContextError>|
        text@ == source && #[trigger] call_ensures(compile_source, (ctx, text), came)
            && named_outcome(name, came, r)
}

/// Of kernels that are compiled in order, each given by name and source, the
/// first that fails is the `i`-th, with that text.
pub(crate) open spec fn fails_at(
    ctx: &GpuContext,
    kernels: Seq<(Seq<char>, Seq<char>)>,
    i: int,
    text: Seq<char>,
) -> bool {
    &&& 0 <= i < kernels.len()
    &&& compiled(ctx, kernels[i].0, kernels[i].1, KernelOutcome::Err(text))
    &&& forall|j: int|
        0 <= j < i ==> exists|h: GpuKernelHandle|
            compiled(ctx, (#[trigger] kernels[j]).0, kernels[j].1, KernelOutcome::Ok(h))
}

/// One of the kernels fails, with that text.
pub(crate) open spec fn fails(
    ctx: &GpuContext,
    kernels: Seq<(Seq<char>, Seq<char>)>,
    text: Seq<char>,
) -> bool {
    exists|i: int| #[trigger] fails_at(ctx, kernels, i, text)
}

fn compile_kernel(ctx: &GpuContext, name: &str, source: &str) -> (r: Result<
    GpuKernelHandle,
    String,
>)
    ensures
        compiled(ctx, name@, source@, seen(r)),
{
    let came = compile_source(ctx, source);
    let ghost given = came;
    match came {
        Ok(handle) => Ok(handle),
        Err(e) => {
            let why = error_text(&e);
            let text = Msg::new(name).lit(": ").lit(why.as_str()).done();
            assert(text@ == kernel_error(name@, why@));
            assert(named_outcome(name@, given, KernelOutcome::Err(text@)));
            Err(text)
        },
    }
}

/// The launch error of kernels that did not compile.
pub open spec fn launch_fault<K>(memo: Option<Result<K, String>>) -> Option<GpuFault> {
    match memo {
        Some(Err(m)) => Some(GpuFault::KernelLaunch(m@)),
        _ => None,
    }
}

/// The error of layer kernels that did not compile.
pub open spec fn helper_fault(memo: Option<Result<HelperKernels, String>>) -> Option<GpuFault> {
    match memo {
        Some(Err(m)) => Some(GpuFault::NotAvailable("helper kernel compile: "@ + m@)),
        _ => None,
    }
}

/// The source for the device that the build is for: Metal ahead of CUDA, and
/// nothing where it is for neither.
pub open spec fn chosen(build: BuildFeatures, msl: Seq<char>, cuda: Seq<char>) -> Seq<char> {
    if build.metal {
        msl
    } else if build.cuda {
        cuda
    } else {
        ""@
    }
}

/// The general kernels in the order in which they are compiled, by name and
/// source.
pub open spec fn base_list(build: BuildFeatures, sources: KernelSources) -> Seq<
    (Seq<char>, Seq<char>),
> {
    let msl = sources.msl;
    let cuda = sources.cuda;
    seq![
        ("matvec_f32"@, chosen(build, msl.matvec@, cuda.matvec@)),
        ("relu"@, chosen(build, msl.relu@, cuda.relu@)),
        ("softmax"@, chosen(build, msl.softmax@, cuda.softmax@)),
        ("rmsnorm"@, chosen(build, msl.rmsnorm@, cuda.rmsnorm@)),
        ("silu"@, chosen(build, msl.silu@, cuda.silu@)),
    ]
}

/// The 1-bit kernels in the order in which they are compiled, by name and
/// source.
pub open spec fn q1_list(build: BuildFeatures, sources: KernelSources) -> Seq<
    (Seq<char>, Seq<char>),
> {
    let msl = sources.msl;
    let cuda = sources.cuda;
    seq![
        ("gemv_q1_g128"@, chosen(build, msl.gemv_q1@, cuda.gemv_q1@)),
        ("gemm_q1_g128"@, chosen(build, msl.gemm_q1@, cuda.gemm_q1@)),
    ]
}

/// The ternary kernels, by name and source; only Metal has any.
pub open spec fn tq2_list(sources: KernelSources) -> Seq<(Seq<char>, Seq<char>)> {
    seq![("gemv_tq2_g128_v1"@, sources.msl.gemv_tq2@)]
}

/// The layer kernels in the order in which they are compiled, by name and
/// source.
pub open spec fn helper_list(build: BuildFeatures, sources: KernelSources) -> Seq<
    (Seq<char>, Seq<char>),
> {
    let msl = sources.msl;
    let cuda = sources.cuda;
    seq![
        ("swiglu_fused"@, chosen(build, msl.swiglu@, cuda.swiglu@)),
        ("residual_add"@, chosen(build, msl.residual_add@, cuda.residual_add@)),
        ("rmsnorm_weighted"@, chosen(build, msl.rmsnorm_weighted@, cuda.rmsnorm_weighted@)),
    ]
}

/// The handle is what the context's compiler made of that kernel.
pub(crate) open spec fn made(
    ctx: GpuContext,
    kernel: (Seq<char>, Seq<char>),
    handle: GpuKernelHandle,
) -> bool {
    compiled(&ctx, kernel.0, kernel.1, KernelOutcome::Ok(handle))
}

/// What compiling the general kernels in a context came to: every handle is what
/// the compiler made of its kernel, or the first kernel that failed is named.
pub closed spec fn base_compiled(
    ctx: GpuContext,
    build: BuildFeatures,
    sources: KernelSources,
    r: Result<CompiledKernels, String>,
) -> bool {
    let list = base_list(build, sources);
    match r {
        Ok(k) => {
            &&& made(ctx, list[0], k.matvec)
            &&& made(ctx, list[1], k.relu)
            &&& made(ctx, list[2], k.softmax)
            &&& made(ctx, list[3], k.rmsnorm)
            &&& made(ctx, list[4], k.silu)
        },
        Err(m) => fails(&ctx, list, m@),
    }
}

/// What compiling the 1-bit kernels in a context came to.
pub closed spec fn q1_compiled(
    ctx: GpuContext,
    build: BuildFeatures,
    sources: KernelSources,
    r: Result<Q1Kernels, String>,
) -> bool {
    let list = q1_list(build, sources);
    match r {
        Ok(k) => made(ctx, list[0], k.gemv) && made(ctx, list[1], k.gemm),
        Err(m) => fails(&ctx, list, m@),
    }
}

/// What compiling the ternary kernels in a context came to; without Metal there
/// are none.
pub closed spec fn tq2_compiled(
    ctx: GpuContext,
    build: BuildFeatures,
    sources: KernelSources,
    r: Result<TQ2Kernels, String>,
) -> bool {
    let list = tq2_list(sources);
    match r {
        Ok(k) => build.metal && made(ctx, list[0], k.gemv),
        Err(m) => if build.metal {
            fails(&ctx, list, m@)
        } else {
            m@ == no_ternary()
        },
    }
}

/// What compiling the layer kernels in a context came to; without a device there
/// are none.
pub closed spec fn helper_compiled(
    ctx: GpuContext,
    build: BuildFeatures,
    sources: KernelSources,
    r: Result<HelperKernels, String>,
) -> bool {
    let list = helper_list(build, sources);
    match r {
        Ok(k) => {
            &&& build.metal || build.cuda
            &&& made(ctx, list[0], k.swiglu)
            &&& made(ctx, list[1], k.residual_add)
            &&& made(ctx, list[2], k.rmsnorm_weighted)
        },
        Err(m) => if build.metal || build.cuda {
            fails(&ctx, list, m@)
        } else {
            m@ == no_helpers()
        },
    }
}

/// The general kernels were tried: what came of it before stays, else it is what
/// compiling them came to.
pub open spec fn tried_base(before: Scirs2Backend, after: Scirs2Backend) -> bool {
    &&& after.kernels.base is Some
    &&& before.kernels.base is Some ==> after.kernels.base == before.kernels.base
    &&& before.kernels.base is None ==> base_compiled(
        before.ctx,
        before.build,
        before.sources,
        after.kernels.base->0,
    )
}

/// The 1-bit kernels were tried.
pub open spec fn tried_q1(before: Scirs2Backend, after: Scirs2Backend) -> bool {
    &&& after.kernels.q1 is Some
    &&& before.kernels.q1 is Some ==> after.kernels.q1 == before.kernels.q1
    &&& before.kernels.q1 is None ==> q1_compiled(
        before.ctx,
        before.build,
        before.sources,
        after.kernels.q1->0,
    )
}

/// The ternary kernels were tried.
pub open spec fn tried_tq2(before: Scirs2Backend, after: Scirs2Backend) -> bool {
    &&& after.kernels.tq2 is Some
    &&& before.kernels.tq2 is Some ==> after.kernels.tq2 == before.kernels.tq2
    &&& before.kernels.tq2 is None ==> tq2_compiled(
        before.ctx,
        before.build,
        before.sources,
        after.kernels.tq2->0,
    )
}

/// The layer kernels were tried.
pub open spec fn tried_helper(before: Scirs2Backend, after: Scirs2Backend) -> bool {
    &&& after.kernels.helper is Some
    &&& before.kernels.helper is Some ==> after.kernels.helper == before.kernels.helper
    &&& before.kernels.helper is None ==> helper_compiled(
        before.ctx,
        before.build,
        before.sources,
        after.kernels.helper->0,
    )
}

fn report_launch<K>(memo: &Option<Result<K, String>>) -> (r: Result<(), GpuError>)
    ensures
        error::reports(r, launch_fault(*memo)),
{
    match memo {
        Some(Err(m)) => Err(GpuError::KernelLaunch(m.clone())),
        _ => Ok(()),
    }
}

fn report_helper(memo: &Option<Result<HelperKernels, String>>) -> (r: Result<(), GpuError>)
    ensures
        error::reports(r, helper_fault(*memo)),
{
    match memo {
        Some(Err(m)) => Err(
            GpuError::NotAvailable(Msg::new("helper kernel compile: ").lit(m.as_str()).done()),
        ),
        _ => Ok(()),
    }
}

impl Scirs2Backend {
    /// A backend with nothing compiled and nothing on the device.
    pub open spec fn is_fresh(&self, kind: DeviceKind, build: BuildFeatures) -> bool {
        &&& self.kind == kind
        &&& self.build == build
        &&& self.kernels.base is None
        &&& self.kernels.q1 is None
        &&& self.kernels.tq2 is None
        &&& self.kernels.helper is None
        &&& self.state.weights@ == Map::<u64, usize>::empty()
        &&& self.state.input == IoBuffer::none()
        &&& self.state.output == IoBuffer::none()
        &&& self.state.phase is None
    }

    /// The kind that is picked once Metal and CUDA have been asked for: Metal,
    /// then CUDA, where compiled in and available, else the processor.
    pub closed spec fn detected(build: BuildFeatures, kind: DeviceKind) -> bool {
        exists|metal: bool, cuda: bool|
            #![trigger
                call_ensures(is_available, (DeviceKind::Metal,), metal),
                call_ensures(is_available, (DeviceKind::Cuda,), cuda)
            ]
            call_ensures(is_available, (DeviceKind::Metal,), metal) && call_ensures(
                is_available,
                (DeviceKind::Cuda,),
                cuda,
            ) && kind == context::preferred(build, metal, cuda)
    }

    /// Opening a context for a kind of device gave that one.
    pub closed spec fn opens(kind: DeviceKind, ctx: GpuContext) -> bool {
        call_ensures(open_context, (kind,), Ok(ctx))
    }

    /// Opening a context for a kind of device failed, and the error that came is
    /// told as that one.
    pub closed spec fn refuses(kind: DeviceKind, fault: GpuFault) -> bool {
        exists|e: ContextError, said: context::ContextFault|
            #![trigger
                call_ensures(open_context, (kind,), Err(e)),
                call_ensures(context_fault, (&e,), said)
            ]
            call_ensures(open_context, (kind,), Err(e)) && call_ensures(
                context_fault,
                (&e,),
                said,
            ) && fault == context::converted(said)
    }

    /// What opening a context for a kind of device came to: a fresh backend on it,
    /// or the error.
    pub open spec fn outcome(
        kind: DeviceKind,
        build: BuildFeatures,
        sources: KernelSources,
        r: Result<Self, GpuError>,
    ) -> bool {
        match r {
            Ok(b) => Self::opens(kind, b.ctx) && b.is_fresh(kind, build) && b.sources == sources,
            Err(e) => Self::refuses(kind, e@),
        }
    }

    /// Opens a context for the best device: Metal, then CUDA, then the
    /// processor.
    pub fn new(build: BuildFeatures, sources: KernelSources) -> (r: Result<Self, GpuError>)
        ensures
            exists|kind: DeviceKind| #[trigger]
                Self::detected(build, kind) && Self::outcome(kind, build, sources, r),
            r matches Ok(b) ==> b.is_fresh(b.kind, build) && b.sources == sources,
            r matches Ok(b) ==> (b.kind is Metal ==> build.metal) && (b.kind is Metal || b.kind
                is Cpu),
            !build.metal ==> (r matches Ok(b) && b.kind is Cpu),
    {
        let kind = Self::detect_backend(build);
        Self::with_backend(kind, build, sources)
    }

    /// Opens a context for a kind of device.
    pub fn with_backend(kind: DeviceKind, build: BuildFeatures, sources: KernelSources) -> (r:
        Result<Self, GpuError>)
        ensures
            kind is Cpu ==> r is Ok,
            kind is Cuda ==> r is Err,
            Self::outcome(kind, build, sources, r),
    {
        match open_context(kind) {
            Ok(ctx) => {
                let backend = Scirs2Backend {
                    ctx,
                    kind,
                    build,
                    sources,
                    kernels: Kernels { base: None, q1: None, tq2: None, helper: None },
                    state: DeviceState {
                        weights: HashMap::new(),
                        input: IoBuffer { capacity: 0, present: false },
                        output: IoBuffer { capacity: 0, present: false },
                        phase: None,
                    },
                };
                Ok(backend)
            },
            Err(e) => {
                let fault = context_fault(&e);
                let ghost said = fault;
                let error = convert_error(fault);
                assert(Self::refuses(kind, context::converted(said)));
                Err(error)
            },
        }
    }

    /// What came of asking for the backend that is kept: the one that is there, or
    /// a new one, which is kept where opening it succeeds.
    pub open spec fn obtained(
        before: Option<Self>,
        after: Option<Self>,
        build: BuildFeatures,
        sources: KernelSources,
        r: Result<(), GpuError>,
    ) -> bool {
        if before is Some {
            after == before && r == Ok::<(), GpuError>(())
        } else {
            exists|came: Result<Self, GpuError>|
                #[trigger] call_ensures(Self::new, (build, sources), came) && match came {
                    Ok(b) => after == Some(b) && r == Ok::<(), GpuError>(()),
                    Err(e) => after is None && r == Err::<(), GpuError>(e),
                }
        }
    }

    /// Has the backend that is kept for all callers, opened on first use.
    pub fn global(cached: &mut Option<Scirs2Backend>, build: BuildFeatures, sources: KernelSources)
        -> (r: Result<(), GpuError>)
        ensures
            Self::obtained(*old(cached), *final(cached), build, sources, r),
    {
        if cached.is_some() {
            return Ok(());
        }
        let ghost texts = sources;
        let came = Self::new(build, sources);
        let ghost given = came;
        assert(call_ensures(Self::new, (build, texts), given));
        match came {
            Ok(b) => {
                *cached = Some(b);
                Ok(())
            },
            Err(e) => Err(e),
        }
    }

    /// A new device buffer of zeros.
    pub fn allocate(&self, size: usize, device_id: usize) -> (r: Result<DeviceBuffer, GpuError>)
        ensures
            r matches Ok(b) && b.holds(Seq::new(size as nat, |i: int| 0u32), device_id),
    {
        Ok(DeviceBuffer::new(size, device_id))
    }

    /// A device buffer that holds a host slice.
    pub fn host_to_device(&self, src: &[u32], device_id: usize) -> (r: Result<
        DeviceBuffer,
        GpuError,
    >)
        ensures
            r matches Ok(b) && b.holds(src@, device_id),
    {
        Ok(DeviceBuffer::from_slice(src, device_id))
    }

    /// The elements of a device buffer.
    pub fn device_to_host(&self, buf: &DeviceBuffer) -> (r: Result<Vec<u32>, GpuError>)
        ensures
            r matches Ok(v) && v@ == buf.data@,
    {
        Ok(buf.to_vec())
    }

    /// The kind of device to open.
    pub fn detect_backend(build: BuildFeatures) -> (kind: DeviceKind)
        ensures
            Self::detected(build, kind),
            kind is Metal || kind is Cpu,
            kind is Metal ==> build.metal,
    {
        let metal = is_available(DeviceKind::Metal);
        let cuda = is_available(DeviceKind::Cuda);
        choose_device(build, metal, cuda)
    }

    /// The context.
    pub fn gpu_context(&self) -> (ctx: &GpuContext)
        ensures
            *ctx == self.ctx,
    {
        &self.ctx
    }

    /// Name of the context's kind of device.
    pub fn backend_name(&self) -> (s: &'static str)
        ensures
            s@ == self.kind.label(),
    {
        self.kind.name()
    }

    /// Name of the backend.
    pub fn name(&self) -> (s: &'static str)
        ensures
            s@ == (if self.build.metal {
                "scirs2-metal"@
            } else if self.build.cuda {
                "scirs2-cuda"@
            } else {
                "scirs2-cpu"@
            }),
    {
        if self.build.metal {
            "scirs2-metal"
        } else if self.build.cuda {
            "scirs2-cuda"
        } else {
            "scirs2-cpu"
        }
    }

    /// Whether real hardware is behind the backend; only Metal contexts launch
    /// kernels.
    pub fn is_accelerated(&self) -> (b: bool)
        ensures
            b == (self.build.metal && self.kind is Metal),
    {
        self.build.metal && self.kind == DeviceKind::Metal
    }

    /// Number of devices.
    pub fn device_count(&self) -> (n: usize)
        ensures
            n == 1,
    {
        1
    }

    /// The figures are made of what the context reports as its total and its
    /// available memory.
    pub closed spec fn reported(&self, figures: (usize, usize)) -> bool {
        exists|total: Option<usize>, free: Option<usize>|
            #![trigger
                call_ensures(total_memory, (&self.ctx,), total),
                call_ensures(available_memory, (&self.ctx,), free)
            ]
            call_ensures(total_memory, (&self.ctx,), total) && call_ensures(
                available_memory,
                (&self.ctx,),
                free,
            ) && figures == context::figures(total, free)
    }

    /// Free and total memory.
    pub fn memory_info(&self, device_id: usize) -> (r: Result<(usize, usize), GpuError>)
        ensures
            r matches Ok(figures) && self.reported(figures),
            usize::BITS == 64 ==> r == Ok::<(usize, usize), GpuError>(
                (1073741824, 4294967296int as usize),
            ),
            r matches Ok(figures) && figures.0 == 1073741824 && (figures.1 == 536870912
                || figures.1 == 4294967296 || figures.1 == 0),
    {
        let total = total_memory(&self.ctx);
        let free = available_memory(&self.ctx);
        Ok(memory_figures(total, free))
    }

    /// Waits for nothing: launches are done when they return.
    pub fn synchronize(&self, device_id: usize) -> (r: Result<(), GpuError>)
        ensures
            r == Ok::<(), GpuError>(()),
    {
        Ok(())
    }

    fn compile_base_kernels(&self) -> (r: Result<CompiledKernels, String>)
        ensures
            base_compiled(self.ctx, self.build, self.sources, r),
    {
        let set = if self.build.metal {
            &self.sources.msl
        } else {
            &self.sources.cuda
        };
        let some = self.build.metal || self.build.cuda;
        let ghost list = base_list(self.build, self.sources);
        let matvec = match compile_kernel(&self.ctx, "matvec_f32", Self::source(some, &set.matvec)) {
            Ok(handle) => handle,
            Err(m) => {
                assert(fails_at(&self.ctx, list, 0, m@));
                return Err(m);
            },
        };
        assert(made(self.ctx, list[0], matvec));
        let relu = match compile_kernel(&self.ctx, "relu", Self::source(some, &set.relu)) {
            Ok(handle) => handle,
            Err(m) => {
                assert(fails_at(&self.ctx, list, 1, m@));
                return Err(m);
            },
        };
        assert(made(self.ctx, list[1], relu));
        let softmax = match compile_kernel(&self.ctx, "softmax", Self::source(some, &set.softmax)) {
            Ok(handle) => handle,
            Err(m) => {
                assert(fails_at(&self.ctx, list, 2, m@));
                return Err(m);
            },
        };
        assert(made(self.ctx, list[2], softmax));
        let rmsnorm = match compile_kernel(&self.ctx, "rmsnorm", Self::source(some, &set.rmsnorm)) {
            Ok(handle) => handle,
            Err(m) => {
                assert(fails_at(&self.ctx, list, 3, m@));
                return Err(m);
            },
        };
        assert(made(self.ctx, list[3], rmsnorm));
        let silu = match compile_kernel(&self.ctx, "silu", Self::source(some, &set.silu)) {
            Ok(handle) => handle,
            Err(m) => {
                assert(fails_at(&self.ctx, list, 4, m@));
                return Err(m);
            },
        };
        assert(made(self.ctx, list[4], silu));
        Ok(CompiledKernels { matvec, relu, softmax, rmsnorm, silu })
    }

    /// A source, or nothing where the build has no kernels.
    fn source<'a>(some: bool, text: &'a String) -> (s: &'a str)
        ensures
            s@ == (if some {
                text@
            } else {
                ""@
            }),
    {
        if some {
            text.as_str()
        } else {
            ""
        }
    }

    fn compile_q1_kernels(&self) -> (r: Result<Q1Kernels, String>)
        ensures
            q1_compiled(self.ctx, self.build, self.sources, r),
    {
        let set = if self.build.metal {
            &self.sources.msl
        } else {
            &self.sources.cuda
        };
        let some = self.build.metal || self.build.cuda;
        let ghost list = q1_list(self.build, self.sources);
        let gemv = match compile_kernel(&self.ctx, "gemv_q1_g128", Self::source(some, &set.gemv_q1)) {
            Ok(handle) => handle,
            Err(m) => {
                assert(fails_at(&self.ctx, list, 0, m@));
                return Err(m);
            },
        };
        assert(made(self.ctx, list[0], gemv));
        let gemm = match compile_kernel(&self.ctx, "gemm_q1_g128", Self::source(some, &set.gemm_q1)) {
            Ok(handle) => handle,
            Err(m) => {
                assert(fails_at(&self.ctx, list, 1, m@));
                return Err(m);
            },
        };
        assert(made(self.ctx, list[1], gemm));
        Ok(Q1Kernels { gemv, gemm })
    }

    fn compile_tq2_kernels(&self) -> (r: Result<TQ2Kernels, String>)
        ensures
            tq2_compiled(self.ctx, self.build, self.sources, r),
    {
        if !self.build.metal {
            return Err(
                Msg::new(
                    "TQ2_0_g128 GPU GEMV is only implemented for Metal (macOS); no CUDA ternary kernel available",
                ).done(),
            );
        }
        let ghost list = tq2_list(self.sources);
        let gemv = match compile_kernel(
            &self.ctx,
            "gemv_tq2_g128_v1",
            self.sources.msl.gemv_tq2.as_str(),
        ) {
            Ok(handle) => handle,
            Err(m) => {
                assert(fails_at(&self.ctx, list, 0, m@));
                return Err(m);
            },
        };
        assert(made(self.ctx, list[0], gemv));
        Ok(TQ2Kernels { gemv })
    }

    fn compile_helper_kernels(&self) -> (r: Result<HelperKernels, String>)
        ensures
            helper_compiled(self.ctx, self.build, self.sources, r),
    {
        if !self.build.metal && !self.build.cuda {
            return Err(Msg::new("no GPU backend available for helper kernels").done());
        }
        let set = if self.build.metal {
            &self.sources.msl
        } else {
            &self.sources.cuda
        };
        let ghost list = helper_list(self.build, self.sources);
        let swiglu = match compile_kernel(&self.ctx, "swiglu_fused", set.swiglu.as_str()) {
            Ok(handle) => handle,
            Err(m) => {
                assert(fails_at(&self.ctx, list, 0, m@));
                return Err(m);
            },
        };
        assert(made(self.ctx, list[0], swiglu));
        let residual_add = match compile_kernel(&self.ctx, "residual_add", set.residual_add.as_str()) {
            Ok(handle) => handle,
            Err(m) => {
                assert(fails_at(&self.ctx, list, 1, m@));
                return Err(m);
            },
        };
        assert(made(self.ctx, list[1], residual_add));
        let rmsnorm_weighted = match compile_kernel(&self.ctx, "rmsnorm_weighted", set.rmsnorm_weighted.as_str()) {
            Ok(handle) => handle,
            Err(m) => {
                assert(fails_at(&self.ctx, list, 2, m@));
                return Err(m);
            },
        };
        assert(made(self.ctx, list[2], rmsnorm_weighted));
        Ok(HelperKernels { swiglu, residual_add, rmsnorm_weighted })
    }

    /// Compiles the general kernels unless that was tried before.
    pub fn get_kernels(&mut self) -> (r: Result<(), GpuError>)
        ensures
            *final(self) == (Scirs2Backend {
                kernels: Kernels { base: final(self).kernels.base, ..old(self).kernels },
                ..*old(self)
            }),
            tried_base(*old(self), *final(self)),
            error::reports(r, launch_fault(final(self).kernels.base)),
    {
        if self.kernels.base.is_none() {
            let outcome = self.compile_base_kernels();
            self.kernels.base = Some(outcome);
        }
        report_launch(&self.kernels.base)
    }

    /// Compiles the 1-bit kernels unless that was tried before.
    pub fn get_q1_kernels(&mut self) -> (r: Result<(), GpuError>)
        ensures
            *final(self) == (Scirs2Backend {
                kernels: Kernels { q1: final(self).kernels.q1, ..old(self).kernels },
                ..*old(self)
            }),
            tried_q1(*old(self), *final(self)),
            error::reports(r, launch_fault(final(self).kernels.q1)),
    {
        if self.kernels.q1.is_none() {
            let outcome = self.compile_q1_kernels();
            self.kernels.q1 = Some(outcome);
        }
        report_launch(&self.kernels.q1)
    }

    /// Compiles the ternary kernels unless that was tried before. Without
    /// Metal there are none.
    pub fn get_tq2_kernels(&mut self) -> (r: Result<(), GpuError>)
        ensures
            *final(self) == (Scirs2Backend {
                kernels: Kernels { tq2: final(self).kernels.tq2, ..old(self).kernels },
                ..*old(self)
            }),
            tried_tq2(*old(self), *final(self)),
            error::reports(r, launch_fault(final(self).kernels.tq2)),
            !old(self).build.metal && old(self).kernels.tq2 is None ==> error::reports(
                r,
                Some(GpuFault::KernelLaunch(no_ternary())),
            ),
    {
        if self.kernels.tq2.is_none() {
            let outcome = self.compile_tq2_kernels();
            self.kernels.tq2 = Some(outcome);
        }
        report_launch(&self.kernels.tq2)
    }

    /// Compiles the layer kernels unless that was tried before.
    pub fn get_helper_kernels(&mut self) -> (r: Result<(), GpuError>)
        ensures
            *final(self) == (Scirs2Backend {
                kernels: Kernels { helper: final(self).kernels.helper, ..old(self).kernels },
                ..*old(self)
            }),
            tried_helper(*old(self), *final(self)),
            error::reports(r, helper_fault(final(self).kernels.helper)),
            !old(self).build.metal && !old(self).build.cuda && old(self).kernels.helper is None
                ==> error::reports(
                r,
                Some(GpuFault::NotAvailable("helper kernel compile: "@ + no_helpers())),
            ),
    {
        if self.kernels.helper.is_none() {
            let outcome = self.compile_helper_kernels();
            self.kernels.helper = Some(outcome);
        }
        report_helper(&self.kernels.helper)
    }
}

/// Every kernel is what the compiler made of the source with its own name, from the
/// device's own sources; ternary kernels are Metal's alone.
pub(crate) proof fn law_kernels_are_made_of_their_sources(
    ctx: GpuContext,
    build: BuildFeatures,
    sources: KernelSources,
    base: CompiledKernels,
    q1: Q1Kernels,
    tq2: TQ2Kernels,
    helper: HelperKernels,
)
    requires
        build.metal || build.cuda,
    ensures
        base_compiled(ctx, build, sources, Ok(base)) ==> if build.metal {
            &&& made(ctx, ("matvec_f32"@, sources.msl.matvec@), base.matvec)
            &&& made(ctx, ("relu"@, sources.msl.relu@), base.relu)
            &&& made(ctx, ("softmax"@, sources.msl.softmax@), base.softmax)
            &&& made(ctx, ("rmsnorm"@, sources.msl.rmsnorm@), base.rmsnorm)
            &&& made(ctx, ("silu"@, sources.msl.silu@), base.silu)
        } else {
            &&& made(ctx, ("matvec_f32"@, sources.cuda.matvec@), base.matvec)
            &&& made(ctx, ("relu"@, sources.cuda.relu@), base.relu)
            &&& made(ctx, ("softmax"@, sources.cuda.softmax@), base.softmax)
            &&& made(ctx, ("rmsnorm"@, sources.cuda.rmsnorm@), base.rmsnorm)
            &&& made(ctx, ("silu"@, sources.cuda.silu@), base.silu)
        },
        q1_compiled(ctx, build, sources, Ok(q1)) ==> if build.metal {
            &&& made(ctx, ("gemv_q1_g128"@, sources.msl.gemv_q1@), q1.gemv)
            &&& made(ctx, ("gemm_q1_g128"@, sources.msl.gemm_q1@), q1.gemm)
        } else {
            &&& made(ctx, ("gemv_q1_g128"@, sources.cuda.gemv_q1@), q1.gemv)
            &&& made(ctx, ("gemm_q1_g128"@, sources.cuda.gemm_q1@), q1.gemm)
        },
        tq2_compiled(ctx, build, sources, Ok(tq2)) ==> build.metal && made(
            ctx,
            ("gemv_tq2_g128_v1"@, sources.msl.gemv_tq2@),
            tq2.gemv,
        ),
        helper_compiled(ctx, build, sources, Ok(helper)) ==> if build.metal {
            &&& made(ctx, ("swiglu_fused"@, sources.msl.swiglu@), helper.swiglu)
            &&& made(ctx, ("residual_add"@, sources.msl.residual_add@), helper.residual_add)
            &&& made(
                ctx,
                ("rmsnorm_weighted"@, sources.msl.rmsnorm_weighted@),
                helper.rmsnorm_weighted,
            )
        } else {
            &&& made(ctx, ("swiglu_fused"@, sources.cuda.swiglu@), helper.swiglu)
            &&& made(ctx, ("residual_add"@, sources.cuda.residual_add@), helper.residual_add)
            &&& made(
                ctx,
                ("rmsnorm_weighted"@, sources.cuda.rmsnorm_weighted@),
                helper.rmsnorm_weighted,
            )
        },
{
}

} // verus!

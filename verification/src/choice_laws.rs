//! Which way is chosen, and by what.

use vstd::prelude::*;

use crate::arith::Arith;
use crate::error::KernelResult;
use crate::gpu_backend::cpu;
use crate::gpu_backend::error::GpuError;
use crate::gpu_backend::metal_graph::pipelines;
use crate::gpu_backend::metal_graph::pipelines::LibrarySource;
use crate::gpu_backend::scirs2_backend::backend::{KernelSources, Scirs2Backend};
use crate::gpu_backend::scirs2_backend::context;
use crate::gpu_backend::scirs2_backend::context::{BuildFeatures, ContextFault, DeviceKind};
use crate::gpu_backend::scirs2_backend::steps::IoBuffer;
use crate::gpu_backend::select;
use crate::gpu_backend::select::{Choice, GemvWork, Probe};
use crate::packing;
use crate::parallel_tiled;
use crate::parallel_tiled::{AdaptiveStrategy, ParallelConfig, Route, TiledRun};
use crate::prefetch;
use crate::prefetch::{Arch, Hint, Prefetch, PrefetchConfig, PrefetchLocality};
use crate::simd_float_ops::Isa;
use crate::text;

verus! {

/// A prefetch is of the address that is asked for. What is used at once goes to all
/// caches, what may be used again to the second cache on, and what hardly is past them;
/// ARM says whether the line is to be written. Other processors have none.
pub proof fn law_prefetch_goes_by_locality(
    arch: Arch,
    address: usize,
    locality: PrefetchLocality,
    write: bool,
    p: Option<Prefetch>,
)
    requires
        if write {
            call_ensures(prefetch::prefetch_write, (arch, address, locality), p)
        } else {
            call_ensures(prefetch::prefetch_read, (arch, address, locality), p)
        },
    ensures
        p is None <==> arch is Other,
        p matches Some(x) ==> {
            &&& x.address == address
            &&& arch is X86_64 ==> {
                &&& x.hint is X86T0 <==> locality is High
                &&& x.hint is X86T1 <==> locality is Medium
                &&& x.hint is X86Nta <==> locality is Low
            }
            &&& arch is Aarch64 ==> x.hint == (Hint::Arm {
                write,
                locality: if locality is High {
                    3
                } else if locality is Medium {
                    2
                } else {
                    0
                },
            })
        },
{
}

/// The packing's prefetches are those of data that is used at once.
pub proof fn law_packing_prefetches_to_all_caches(
    arch: Arch,
    address: usize,
    write: bool,
    p: Option<Prefetch>,
    q: Option<Prefetch>,
)
    requires
        if write {
            call_ensures(packing::prefetch_write, (arch, address), p) && call_ensures(
                prefetch::prefetch_write,
                (arch, address, PrefetchLocality::High),
                q,
            )
        } else {
            call_ensures(packing::prefetch_read, (arch, address), p) && call_ensures(
                prefetch::prefetch_read,
                (arch, address, PrefetchLocality::High),
                q,
            )
        },
    ensures
        p == q,
{
}

/// Products with one vector prefetch as small batches do, four blocks ahead to the nearest
/// cache; batches of more than 32 vectors look twice as far ahead, past the nearest cache.
pub proof fn law_prefetch_goes_by_batch(batch: usize, one: PrefetchConfig, many: PrefetchConfig)
    requires
        call_ensures(PrefetchConfig::for_gemv, (), one),
        call_ensures(PrefetchConfig::for_gemm, (batch,), many),
    ensures
        one.lookahead_blocks == 4 && one.strategy is Temporal,
        batch <= 32 ==> many == one,
        batch > 32 ==> many.lookahead_blocks == 2 * one.lookahead_blocks
            && many.strategy is NonTemporal,
{
}

/// Up to 32 rows go to one call, up to 256 to threads row by row, and more to tiles. Ternary
/// rows take the same ways, but for the tiles. Ternary batches go to threads from four
/// vectors on.
pub proof fn law_ways_go_by_rows(
    n_rows: usize,
    k: usize,
    m: usize,
    s: AdaptiveStrategy,
    one: Route,
    many: Route,
)
    requires
        call_ensures(parallel_tiled::select_gemv_strategy, (n_rows, k), s),
        call_ensures(parallel_tiled::gemv_adaptive_ternary, (n_rows, k), one),
        call_ensures(parallel_tiled::gemm_adaptive_ternary, (m, n_rows, k), many),
    ensures
        s is Direct <==> n_rows <= 32,
        s is ParallelRow <==> 32 < n_rows <= 256,
        s is ParallelTiled <==> n_rows > 256,
        one is Direct <==> s is Direct,
        one is Parallel <==> !(s is Direct),
        many is Direct <==> m < 4,
        many is Parallel <==> m >= 4,
{
}

/// With several threads, products are spread from the thresholds on: 128 rows, or four
/// vectors. With one they never are.
pub proof fn law_products_are_spread(
    threads: usize,
    c: ParallelConfig,
    alone: ParallelConfig,
    n: usize,
    rows: bool,
    vectors: bool,
)
    requires
        call_ensures(ParallelConfig::with_threads, (threads,), c),
        call_ensures(ParallelConfig::single_threaded, (), alone),
        call_ensures(ParallelConfig::should_parallelize_gemv, (&c, n), rows),
        call_ensures(ParallelConfig::should_parallelize_gemm, (&c, n), vectors),
    ensures
        rows <==> threads > 1 && n >= 128,
        vectors <==> threads > 1 && n >= 4,
        !alone.spreads_gemv(n) && !alone.spreads_gemm(n),
        c.use_tiling && !alone.use_tiling,
{
}

/// A product touches 18 bytes for every 128 weights of a row, and four for every number of
/// input and output; caches of 32 and 256 KiB hold it where that is no more.
pub proof fn law_working_set(n_rows: usize, k: usize, bytes: usize, l1: bool, l2: bool)
    requires
        call_ensures(packing::estimate_working_set_bytes, (n_rows, k), bytes),
        call_ensures(packing::fits_in_l1, (n_rows, k), l1),
        call_ensures(packing::fits_in_l2, (n_rows, k), l2),
    ensures
        bytes == 18 * (n_rows * (k / 128)) + 4 * (k + n_rows),
        l1 <==> bytes <= 32 * 1024,
        l2 <==> bytes <= 256 * 1024,
{
}

/// Blocks are packed and unpacked exactly where columns make whole blocks and the blocks
/// are there.
pub proof fn law_packing_accepts(n_blocks: nat, n_rows: usize, k: usize)
    ensures
        packing::pack_fault(n_blocks, n_rows, k) is None <==> k % 128 == 0 && n_blocks >= n_rows * (
        k / 128),
{
}

/// Metal is opened where it is compiled in and there, then CUDA, and else the processor.
pub proof fn law_device_choice(
    build: BuildFeatures,
    metal: bool,
    cuda: bool,
    kind: DeviceKind,
)
    requires
        call_ensures(context::choose_device, (build, metal, cuda), kind),
    ensures
        kind is Metal <==> build.metal && metal,
        kind is Cuda <==> build.cuda && cuda && !(build.metal && metal),
        kind is Cpu <==> !(build.metal && metal) && !(build.cuda && cuda),
{
}

/// Known figures are reported as they are; what is free defaults to half of the total.
pub proof fn law_memory_figures(total: Option<usize>, free: Option<usize>, r: (usize, usize))
    requires
        call_ensures(context::memory_figures, (total, free), r),
    ensures
        total matches Some(t) ==> r.1 == t,
        free matches Some(f) ==> r.0 == f,
        free is None ==> r.0 == r.1 / 2,
        total is None && usize::MAX >= 0x1_0000_0000 ==> r.1 == 0x1_0000_0000,
{
}

/// A context's errors keep their meaning and what they say.
pub proof fn law_context_errors(f: ContextFault, e: GpuError)
    requires
        call_ensures(context::convert_error, (f,), e),
    ensures
        match f {
            ContextFault::BackendNotAvailable(m) => e matches GpuError::NotAvailable(s) && s@ == m@,
            ContextFault::OutOfMemory => e is OutOfMemory,
            ContextFault::KernelCompilation(m) => e matches GpuError::KernelLaunch(s) && s@
                == "compilation: "@ + m@,
            ContextFault::KernelExecution(m) => e matches GpuError::KernelLaunch(s) && s@
                == "execution: "@ + m@,
            ContextFault::InvalidParameter(m) => e matches GpuError::InvalidArgument(s) && s@ == m@,
            ContextFault::Other(m) => e matches GpuError::NotAvailable(s) && s@ == m@,
        },
{
}

/// A backend is picked exactly where it is ready and none that ranks above it is.
pub proof fn law_first_ready_backend(
    scirs2: Probe,
    native_cuda: Probe,
    cuda: Probe,
    metal: Probe,
    c: Choice,
)
    requires
        call_ensures(select::choose_backend, (scirs2, native_cuda, cuda, metal), c),
    ensures
        c is Scirs2 <==> scirs2 is Ready,
        c is NativeCuda <==> native_cuda is Ready && !(scirs2 is Ready),
        c is Cuda <==> cuda is Ready && !(native_cuda is Ready) && !(scirs2 is Ready),
        c is Metal <==> metal is Ready && !(cuda is Ready) && !(native_cuda is Ready) && !(
        scirs2 is Ready),
{
}

/// Accepted products run on one thread where there are no threads to use, or fewer than 128
/// rows, or fewer than four vectors.
pub proof fn law_tiled_products_are_spread(
    n_blocks: usize,
    input_len: usize,
    output_len: usize,
    m: usize,
    n_rows: usize,
    k: usize,
    l1: usize,
    l2: usize,
    threads: bool,
    r: KernelResult<TiledRun>,
)
    requires
        r is Ok,
    ensures
        call_ensures(
            parallel_tiled::gemv_parallel_tiled,
            (n_blocks, input_len, output_len, n_rows, k, l1, l2, threads),
            r,
        ) ==> (r->Ok_0 is Sequential <==> !threads || n_rows < 128),
        call_ensures(
            parallel_tiled::gemm_parallel_tiled,
            (n_blocks, input_len, output_len, m, n_rows, k, l1, threads),
            r,
        ) ==> (r->Ok_0 is Sequential <==> !threads || m < 4),
{
}

/// A 1-bit product is device work only where contexts are compiled in, and only with a
/// backend on Metal; what the processor makes is each row's weights times the input.
pub proof fn law_one_bit_product_routes<T: Arith>(
    t: &T,
    cached: &mut Option<Scirs2Backend>,
    build: BuildFeatures,
    sources: KernelSources,
    bytes: &[u8],
    input: &[u32],
    n_rows: usize,
    k: usize,
    r: Result<GemvWork, GpuError>,
)
    requires
        call_ensures(
            select::gpu_gemv_1bit::<T>,
            (t, cached, build, sources, bytes, input, n_rows, k),
            r,
        ),
    ensures
        r is Ok && r->Ok_0 is Device ==> build.gpu && (*final(cached)) is Some && (*final(cached))->0.build.metal && (*final(cached))->0.kind is Metal,
        r matches Ok(GemvWork::Host(v)) ==> {
            &&& v@.len() == n_rows
            &&& forall|row: int|
                0 <= row < n_rows ==> #[trigger] v@[row] == cpu::dot(
                    t,
                    cpu::raw_row(t, bytes@, row, k),
                    input@,
                    k as nat,
                )
        },
{
}

/// ARM machines take four lanes, x86 machines eight where they have both extensions, and
/// other machines one number at a time.
pub proof fn law_instruction_set(arm: bool, avx2: bool, fma: bool, isa: Isa)
    requires
        call_ensures(Isa::select, (arm, avx2, fma), isa),
    ensures
        isa is Neon <==> arm,
        isa is Avx2 <==> !arm && avx2 && fma,
        isa is Scalar <==> !arm && !(avx2 && fma),
{
}

/// How soon a source of the kernel library is tried.
pub open spec fn turn(s: LibrarySource) -> int {
    match s {
        LibrarySource::Embedded => 0,
        LibrarySource::Cached => 1,
        LibrarySource::Offline => 2,
        LibrarySource::Runtime => 3,
    }
}

/// The library is sought where it can be, each place once: embedded, then cached, then
/// compiled to the cache, and at last compiled by the driver.
pub proof fn law_library_is_sought_in_turn(
    has_embedded: bool,
    has_cache_dir: bool,
    v: Vec<LibrarySource>,
)
    requires
        call_ensures(pipelines::library_sources, (has_embedded, has_cache_dir), v),
    ensures
        forall|i: int, j: int| 0 <= i < j < v@.len() ==> turn(#[trigger] v@[i]) < turn(
            #[trigger] v@[j],
        ),
        v@.contains(LibrarySource::Embedded) <==> has_embedded,
        v@.contains(LibrarySource::Cached) <==> has_cache_dir,
        v@.contains(LibrarySource::Offline) <==> has_cache_dir,
        v@.contains(LibrarySource::Runtime),
{
    let n = v@.len() as int;
    assert(v@[n - 1] is Runtime);
    if has_embedded {
        assert(v@[0] is Embedded);
    }
    if has_cache_dir {
        assert(v@[n - 3] is Cached && v@[n - 2] is Offline);
    }
}

/// Cached libraries of different sources have different names.
pub proof fn law_cache_names_tell_sources_apart(a: u64, b: u64, s: String, t: String)
    requires
        call_ensures(pipelines::cache_filename, (a,), s),
        call_ensures(pipelines::cache_filename, (b,), t),
        s@ == t@,
    ensures
        a == b,
{
    assert(vstd::arithmetic::power::pow(16, 16) == 0x1_0000_0000_0000_0000) by {
        reveal_with_fuel(vstd::arithmetic::power::pow, 17);
    }
    text::law_hexadecimal_reads_back(a as nat, 16);
    text::law_hexadecimal_reads_back(b as nat, 16);
    let (start, end) = ("kernels_"@, ".metallib"@);
    let (x, y) = (text::hex(a as nat, 16), text::hex(b as nat, 16));
    let n = start.len() as int;
    assert(s@.subrange(n, n + 16) =~= x);
    assert(t@.subrange(n, n + 16) =~= y);
}

/// A range is prefetched line by line from its start: the lines hold all of its bytes, and
/// each has at least one of them.
pub proof fn law_range_is_prefetched_line_by_line(
    arch: Arch,
    address: usize,
    byte_count: usize,
    locality: PrefetchLocality,
    v: Vec<Prefetch>,
)
    requires
        address + byte_count + 63 <= usize::MAX,
        call_ensures(
            prefetch::prefetch_range_read,
            (arch, address, byte_count, locality),
            v,
        ),
    ensures
        arch is Other ==> v@.len() == 0,
        !(arch is Other) ==> 64 * v@.len() >= byte_count && 64 * v@.len() < byte_count + 64,
        forall|i: int|
            0 <= i < v@.len() ==> (#[trigger] v@[i]).address == address + 64 * i && 64 * i
                < byte_count,
{
}

/// A kept buffer that is too small is replaced by one of the largest of what is asked,
/// twice what it was, and 16384 elements.
pub proof fn law_kept_buffer_grows(b: IoBuffer, required: usize)
    requires
        2 * b.capacity <= usize::MAX,
    ensures
        ({
            let after = b.after(required);
            let fits = b.present && b.capacity >= required;
            &&& fits ==> after == b
            &&& !fits ==> {
                &&& after.present
                &&& after.capacity >= required && after.capacity >= 2 * b.capacity
                    && after.capacity >= 16384
                &&& after.capacity == required || after.capacity == 2 * b.capacity
                    || after.capacity == 16384
            }
        }),
{
}

} // verus!

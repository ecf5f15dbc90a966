//! The CUDA and Metal stubs: backends that do everything on the processor.

use vstd::prelude::*;

use crate::arith;
use crate::arith::Arith;
use crate::gpu_backend::cpu;
use crate::gpu_backend::cpu::CpuBackend;
use crate::gpu_backend::error;
use crate::gpu_backend::error::GpuError;
use crate::gpu_backend::launch::DeviceBuffer;

verus! {

/// CUDA stub.
#[derive(Debug)]
pub struct CudaBackend {
    /// Number of CUDA devices.
    pub device_count: usize,
    /// What does the work.
    pub cpu_fallback: CpuBackend,
}

impl CudaBackend {
    /// The stub is always there, with one device.
    pub fn new() -> (r: Result<Self, GpuError>)
        ensures
            r matches Ok(b) && b.device_count == 1 && b.cpu_fallback.simulated_memory_bytes
                == cpu::default_memory(),
    {
        Ok(CudaBackend { device_count: 1, cpu_fallback: CpuBackend::new() })
    }

    /// Name of the backend.
    pub fn name(&self) -> (s: &'static str)
        ensures
            s@ == "cuda"@,
    {
        "cuda"
    }

    /// Whether real hardware is behind the backend.
    pub fn is_accelerated(&self) -> (b: bool)
        ensures
            !b,
    {
        false
    }

    /// Number of devices.
    pub fn device_count(&self) -> (n: usize)
        ensures
            n == self.device_count,
    {
        self.device_count
    }

    /// A buffer of zeros.
    pub fn allocate(&self, size: usize, device_id: usize) -> (r: Result<DeviceBuffer, GpuError>)
        ensures
            r matches Ok(b) && b.holds(Seq::new(size as nat, |i: int| 0u32), device_id),
    {
        self.cpu_fallback.allocate(size, device_id)
    }

    /// A buffer that holds a host slice.
    pub fn host_to_device(&self, src: &[u32], device_id: usize) -> (r: Result<
        DeviceBuffer,
        GpuError,
    >)
        ensures
            r matches Ok(b) && b.holds(src@, device_id),
    {
        self.cpu_fallback.host_to_device(src, device_id)
    }

    /// The elements of a buffer.
    pub fn device_to_host(&self, buf: &DeviceBuffer) -> (r: Result<Vec<u32>, GpuError>)
        ensures
            r matches Ok(v) && v@ == buf.data@,
    {
        self.cpu_fallback.device_to_host(buf)
    }

    /// Multiplies a row-major `[m, k]` matrix and a vector.
    pub fn matvec<T: Arith>(
        &self,
        t: &T,
        a: &DeviceBuffer,
        x: &DeviceBuffer,
        m: usize,
        k: usize,
        device_id: usize,
    ) -> (r: Result<DeviceBuffer, GpuError>)
        requires
            arith::deterministic(t),
            m * k <= usize::MAX,
            cpu::matvec_fault(a.size, x.size, m, k) is None ==> a.size <= a.data@.len() && x.size
                <= x.data@.len(),
        ensures
            error::reports(r, cpu::matvec_fault(a.size, x.size, m, k)),
            r matches Ok(b) ==> b.holds(cpu::matvec_product(t, a.data@, x.data@, m, k), device_id),
    {
        self.cpu_fallback.matvec(t, a, x, m, k, device_id)
    }

    /// The larger of each number and zero.
    pub fn relu<T: Arith>(&self, t: &T, x: &DeviceBuffer, device_id: usize) -> (r: Result<
        DeviceBuffer,
        GpuError,
    >)
        requires
            arith::deterministic(t),
        ensures
            r matches Ok(b) && b.holds(
                x.data@.map_values(|v: u32| arith::larger(t, v, 0)),
                device_id,
            ),
    {
        self.cpu_fallback.relu(t, x, device_id)
    }

    /// Softmax of all `size` elements of a buffer.
    pub fn softmax<T: Arith>(&self, t: &T, x: &DeviceBuffer, size: usize, device_id: usize) -> (r:
        Result<DeviceBuffer, GpuError>)
        requires
            arith::deterministic(t),
        ensures
            error::reports(r, cpu::softmax_fault(x.size, size)),
            r matches Ok(b) ==> b.holds(cpu::softmax_shares(t, x.data@, size), device_id),
    {
        self.cpu_fallback.softmax(t, x, size, device_id)
    }

    /// Waits for nothing: every operation is done when it returns.
    pub fn synchronize(&self, device_id: usize) -> (r: Result<(), GpuError>)
        ensures
            r == Ok::<(), GpuError>(()),
    {
        self.cpu_fallback.synchronize(device_id)
    }

    /// Free and total memory, as the processor's backend reports them.
    pub fn memory_info(&self, device_id: usize) -> (r: Result<(usize, usize), GpuError>)
        ensures
            r == Ok::<(usize, usize), GpuError>(
                (
                    (self.cpu_fallback.simulated_memory_bytes / 2) as usize,
                    self.cpu_fallback.simulated_memory_bytes,
                ),
            ),
    {
        self.cpu_fallback.memory_info(device_id)
    }
}

/// Metal stub.
#[derive(Debug)]
pub struct MetalBackend {
    /// Number of Metal devices.
    pub device_count: usize,
    /// What does the work.
    pub cpu_fallback: CpuBackend,
}

impl MetalBackend {
    /// The stub is always there, with one device.
    pub fn new() -> (r: Result<Self, GpuError>)
        ensures
            r matches Ok(b) && b.device_count == 1 && b.cpu_fallback.simulated_memory_bytes
                == cpu::default_memory(),
    {
        Ok(MetalBackend { device_count: 1, cpu_fallback: CpuBackend::new() })
    }

    /// Name of the backend.
    pub fn name(&self) -> (s: &'static str)
        ensures
            s@ == "metal"@,
    {
        "metal"
    }

    /// Whether real hardware is behind the backend.
    pub fn is_accelerated(&self) -> (b: bool)
        ensures
            !b,
    {
        false
    }

    /// Number of devices.
    pub fn device_count(&self) -> (n: usize)
        ensures
            n == self.device_count,
    {
        self.device_count
    }

    /// A buffer of zeros.
    pub fn allocate(&self, size: usize, device_id: usize) -> (r: Result<DeviceBuffer, GpuError>)
        ensures
            r matches Ok(b) && b.holds(Seq::new(size as nat, |i: int| 0u32), device_id),
    {
        self.cpu_fallback.allocate(size, device_id)
    }

    /// A buffer that holds a host slice.
    pub fn host_to_device(&self, src: &[u32], device_id: usize) -> (r: Result<
        DeviceBuffer,
        GpuError,
    >)
        ensures
            r matches Ok(b) && b.holds(src@, device_id),
    {
        self.cpu_fallback.host_to_device(src, device_id)
    }

    /// The elements of a buffer.
    pub fn device_to_host(&self, buf: &DeviceBuffer) -> (r: Result<Vec<u32>, GpuError>)
        ensures
            r matches Ok(v) && v@ == buf.data@,
    {
        self.cpu_fallback.device_to_host(buf)
    }

    /// Multiplies a row-major `[m, k]` matrix and a vector.
    pub fn matvec<T: Arith>(
        &self,
        t: &T,
        a: &DeviceBuffer,
        x: &DeviceBuffer,
        m: usize,
        k: usize,
        device_id: usize,
    ) -> (r: Result<DeviceBuffer, GpuError>)
        requires
            arith::deterministic(t),
            m * k <= usize::MAX,
            cpu::matvec_fault(a.size, x.size, m, k) is None ==> a.size <= a.data@.len() && x.size
                <= x.data@.len(),
        ensures
            error::reports(r, cpu::matvec_fault(a.size, x.size, m, k)),
            r matches Ok(b) ==> b.holds(cpu::matvec_product(t, a.data@, x.data@, m, k), device_id),
    {
        self.cpu_fallback.matvec(t, a, x, m, k, device_id)
    }

    /// The larger of each number and zero.
    pub fn relu<T: Arith>(&self, t: &T, x: &DeviceBuffer, device_id: usize) -> (r: Result<
        DeviceBuffer,
        GpuError,
    >)
        requires
            arith::deterministic(t),
        ensures
            r matches Ok(b) && b.holds(
                x.data@.map_values(|v: u32| arith::larger(t, v, 0)),
                device_id,
            ),
    {
        self.cpu_fallback.relu(t, x, device_id)
    }

    /// Softmax of all `size` elements of a buffer.
    pub fn softmax<T: Arith>(&self, t: &T, x: &DeviceBuffer, size: usize, device_id: usize) -> (r:
        Result<DeviceBuffer, GpuError>)
        requires
            arith::deterministic(t),
        ensures
            error::reports(r, cpu::softmax_fault(x.size, size)),
            r matches Ok(b) ==> b.holds(cpu::softmax_shares(t, x.data@, size), device_id),
    {
        self.cpu_fallback.softmax(t, x, size, device_id)
    }

    /// Waits for nothing: every operation is done when it returns.
    pub fn synchronize(&self, device_id: usize) -> (r: Result<(), GpuError>)
        ensures
            r == Ok::<(), GpuError>(()),
    {
        self.cpu_fallback.synchronize(device_id)
    }

    /// Free and total memory, as the processor's backend reports them.
    pub fn memory_info(&self, device_id: usize) -> (r: Result<(usize, usize), GpuError>)
        ensures
            r == Ok::<(usize, usize), GpuError>(
                (
                    (self.cpu_fallback.simulated_memory_bytes / 2) as usize,
                    self.cpu_fallback.simulated_memory_bytes,
                ),
            ),
    {
        self.cpu_fallback.memory_info(device_id)
    }
}

/// Two backends refused alike, or answered with buffers of the same elements on
/// the same device.
pub open spec fn same_answer(
    a: Result<DeviceBuffer, GpuError>,
    b: Result<DeviceBuffer, GpuError>,
) -> bool {
    match (a, b) {
        (Ok(x), Ok(y)) => x.data@ == y.data@ && x.size == y.size && x.device_id == y.device_id,
        (Err(e), Err(f)) => e@ == f@,
        _ => false,
    }
}

/// The CUDA stub is the processor's backend: whatever both were asked, they
/// refuse it alike or answer with the same buffer.
pub proof fn law_cuda_stub_is_the_processor<T: Arith>(
    stub: &CudaBackend,
    cpu: &CpuBackend,
    t: &T,
    a: &DeviceBuffer,
    x: &DeviceBuffer,
    m: usize,
    k: usize,
    src: &[u32],
    size: usize,
    device_id: usize,
    of_stub: Result<DeviceBuffer, GpuError>,
    of_cpu: Result<DeviceBuffer, GpuError>,
    read_stub: Result<Vec<u32>, GpuError>,
    read_cpu: Result<Vec<u32>, GpuError>,
    told_stub: Result<(usize, usize), GpuError>,
    told_cpu: Result<(usize, usize), GpuError>,
    wait_stub: Result<(), GpuError>,
    wait_cpu: Result<(), GpuError>,
)
    requires
        stub.cpu_fallback.simulated_memory_bytes == cpu.simulated_memory_bytes,
    ensures
        call_ensures(CudaBackend::host_to_device, (stub, src, device_id), of_stub) && call_ensures(
            CpuBackend::host_to_device,
            (cpu, src, device_id),
            of_cpu,
        ) ==> same_answer(of_stub, of_cpu),
        call_ensures(CudaBackend::device_to_host, (stub, x), read_stub) && call_ensures(
            CpuBackend::device_to_host,
            (cpu, x),
            read_cpu,
        ) ==> (read_stub matches Ok(v) && read_cpu matches Ok(w) && v@ == w@),
        call_ensures(CudaBackend::memory_info, (stub, device_id), told_stub) && call_ensures(
            CpuBackend::memory_info,
            (cpu, device_id),
            told_cpu,
        ) ==> told_stub == told_cpu,
        call_ensures(CudaBackend::synchronize, (stub, device_id), wait_stub) && call_ensures(
            CpuBackend::synchronize,
            (cpu, device_id),
            wait_cpu,
        ) ==> wait_stub == wait_cpu,
        call_ensures(CudaBackend::allocate, (stub, size, device_id), of_stub) && call_ensures(
            CpuBackend::allocate,
            (cpu, size, device_id),
            of_cpu,
        ) ==> same_answer(of_stub, of_cpu),
        call_ensures(CudaBackend::matvec::<T>, (stub, t, a, x, m, k, device_id), of_stub)
            && call_ensures(CpuBackend::matvec::<T>, (cpu, t, a, x, m, k, device_id), of_cpu)
            ==> same_answer(of_stub, of_cpu),
        call_ensures(CudaBackend::relu::<T>, (stub, t, x, device_id), of_stub) && call_ensures(
            CpuBackend::relu::<T>,
            (cpu, t, x, device_id),
            of_cpu,
        ) ==> same_answer(of_stub, of_cpu),
        call_ensures(CudaBackend::softmax::<T>, (stub, t, x, size, device_id), of_stub)
            && call_ensures(CpuBackend::softmax::<T>, (cpu, t, x, size, device_id), of_cpu)
            ==> same_answer(of_stub, of_cpu),
{
}

/// The Metal stub is the processor's backend: whatever both were asked, they
/// refuse it alike or answer with the same buffer.
pub proof fn law_metal_stub_is_the_processor<T: Arith>(
    stub: &MetalBackend,
    cpu: &CpuBackend,
    t: &T,
    a: &DeviceBuffer,
    x: &DeviceBuffer,
    m: usize,
    k: usize,
    src: &[u32],
    size: usize,
    device_id: usize,
    of_stub: Result<DeviceBuffer, GpuError>,
    of_cpu: Result<DeviceBuffer, GpuError>,
    read_stub: Result<Vec<u32>, GpuError>,
    read_cpu: Result<Vec<u32>, GpuError>,
    told_stub: Result<(usize, usize), GpuError>,
    told_cpu: Result<(usize, usize), GpuError>,
    wait_stub: Result<(), GpuError>,
    wait_cpu: Result<(), GpuError>,
)
    requires
        stub.cpu_fallback.simulated_memory_bytes == cpu.simulated_memory_bytes,
    ensures
        call_ensures(MetalBackend::host_to_device, (stub, src, device_id), of_stub) && call_ensures(
            CpuBackend::host_to_device,
            (cpu, src, device_id),
            of_cpu,
        ) ==> same_answer(of_stub, of_cpu),
        call_ensures(MetalBackend::device_to_host, (stub, x), read_stub) && call_ensures(
            CpuBackend::device_to_host,
            (cpu, x),
            read_cpu,
        ) ==> (read_stub matches Ok(v) && read_cpu matches Ok(w) && v@ == w@),
        call_ensures(MetalBackend::memory_info, (stub, device_id), told_stub) && call_ensures(
            CpuBackend::memory_info,
            (cpu, device_id),
            told_cpu,
        ) ==> told_stub == told_cpu,
        call_ensures(MetalBackend::synchronize, (stub, device_id), wait_stub) && call_ensures(
            CpuBackend::synchronize,
            (cpu, device_id),
            wait_cpu,
        ) ==> wait_stub == wait_cpu,
        call_ensures(MetalBackend::allocate, (stub, size, device_id), of_stub) && call_ensures(
            CpuBackend::allocate,
            (cpu, size, device_id),
            of_cpu,
        ) ==> same_answer(of_stub, of_cpu),
        call_ensures(MetalBackend::matvec::<T>, (stub, t, a, x, m, k, device_id), of_stub)
            && call_ensures(CpuBackend::matvec::<T>, (cpu, t, a, x, m, k, device_id), of_cpu)
            ==> same_answer(of_stub, of_cpu),
        call_ensures(MetalBackend::relu::<T>, (stub, t, x, device_id), of_stub) && call_ensures(
            CpuBackend::relu::<T>,
            (cpu, t, x, device_id),
            of_cpu,
        ) ==> same_answer(of_stub, of_cpu),
        call_ensures(MetalBackend::softmax::<T>, (stub, t, x, size, device_id), of_stub)
            && call_ensures(CpuBackend::softmax::<T>, (cpu, t, x, size, device_id), of_cpu)
            ==> same_answer(of_stub, of_cpu),
{
}

} // verus!

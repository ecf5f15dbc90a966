//! What the processor's operations give, and what backends accept.

use vstd::prelude::*;

use crate::algebra;
use crate::arith;
use crate::arith::Arith;
use crate::gpu_backend::backend;
use crate::gpu_backend::backend::{GpuBackendTrait, ScalarBackend};
use crate::gpu_backend::cpu;
use crate::gpu_backend::cpu::CpuBackend;
use crate::gpu_backend::error::GpuError;
use crate::gpu_backend::launch::{DeviceBuffer, LaunchConfig};
use crate::float_laws;
use crate::product_laws;

verus! {

/// Operations are accepted exactly where their operands have the sizes of their shapes;
/// raw 1-bit products where columns make whole blocks and the blocks are there.
pub proof fn law_shapes_accepted(
    a_len: usize,
    b_len: usize,
    m: usize,
    k: usize,
    n: usize,
    bytes_len: nat,
)
    ensures
        cpu::matvec_fault(a_len, b_len, m, k) is None <==> a_len == m * k && b_len == k,
        backend::matmul_fault(a_len as nat, b_len as nat, m, k, n) is None <==> a_len == m * k
            && b_len == k * n,
        cpu::softmax_fault(a_len, b_len) is None <==> a_len == b_len,
        cpu::raw_gemv_fault(bytes_len, a_len as nat, m, k) is None <==> k > 0 && k % 128 == 0
            && a_len == k && bytes_len >= 18 * (m * (k / 128)),
{
}

/// The processor's matrix-vector product is made exactly where the operands have the sizes
/// of their shapes, and element `row` is the sum of the row's numbers times the vector's.
pub proof fn law_processor_matvec<T: Arith>(
    b: &CpuBackend,
    t: &T,
    a: &DeviceBuffer,
    x: &DeviceBuffer,
    m: usize,
    k: usize,
    device_id: usize,
    r: Result<DeviceBuffer, GpuError>,
)
    requires
        call_ensures(CpuBackend::matvec::<T>, (b, t, a, x, m, k, device_id), r),
        a.wf(),
        x.wf(),
    ensures
        r is Ok <==> a.data@.len() == m * k && x.data@.len() == k,
        r matches Ok(y) ==> {
            &&& y.wf() && y.device_id == device_id && y.size == m
            &&& forall|row: int|
                0 <= row < m ==> #[trigger] y.data@[row] == algebra::total(
                    t,
                    |j: int| arith::product(t, a.data@[row * k + j], x.data@[j]),
                    k as nat,
                )
        },
{
    if r is Ok {
        let y = r->Ok_0;
        assert forall|row: int| 0 <= row < m implies #[trigger] y.data@[row] == algebra::total(
            t,
            |j: int| arith::product(t, a.data@[row * k + j], x.data@[j]),
            k as nat,
        ) by {
            float_laws::law_matvec(t, a.data@, x.data@, m, k, row);
        }
    }
}

/// The processor's rectification takes the larger of each number and zero.
pub proof fn law_processor_relu<T: Arith>(
    b: &CpuBackend,
    t: &T,
    x: &DeviceBuffer,
    device_id: usize,
    r: Result<DeviceBuffer, GpuError>,
)
    requires
        call_ensures(CpuBackend::relu::<T>, (b, t, x, device_id), r),
    ensures
        r is Ok,
        r->Ok_0.wf(),
        r->Ok_0.device_id == device_id,
        r->Ok_0.data@.len() == x.data@.len(),
        forall|i: int|
            0 <= i < x.data@.len() ==> #[trigger] r->Ok_0.data@[i] == arith::larger(
                t,
                x.data@[i],
                0,
            ),
{
}

/// The processor's matrix product: element `row`, `col` is the sum of the left row's
/// numbers times the right column's. With operands of the right shapes it never fails.
pub proof fn law_processor_matmul<T: Arith>(
    b: &ScalarBackend<T>,
    x: &[u32],
    y: &[u32],
    m: usize,
    k: usize,
    n: usize,
    device_id: usize,
    r: Result<Vec<u32>, GpuError>,
)
    requires
        call_ensures(
            backend::gpu_matmul::<ScalarBackend<T>>,
            (b, x, y, m, k, n, device_id),
            r,
        ),
    ensures
        r is Ok <==> x@.len() == m * k && y@.len() == k * n,
        r matches Ok(c) ==> {
            &&& c@.len() == m * n
            &&& forall|row: int, col: int|
                0 <= row < m && 0 <= col < n ==> #[trigger] c@[row * n + col] == algebra::total(
                    &b.arith,
                    |j: int| arith::product(&b.arith, x@[row * k + j], y@[j * n + col]),
                    k as nat,
                )
        },
{
    if backend::matmul_fault(x@.len(), y@.len(), m, k, n) is None {
        if r is Err {
            backend::law_scalar_matmul_succeeds(b, x@, y@, m, k, n, device_id, r->Err_0);
        } else {
            let c = r->Ok_0@;
            assert forall|row: int, col: int| 0 <= row < m && 0 <= col < n implies #[trigger] c[row
                * n + col] == algebra::total(
                &b.arith,
                |j: int| arith::product(&b.arith, x@[row * k + j], y@[j * n + col]),
                k as nat,
            ) by {
                backend::law_scalar_matmul(b, x@, y@, m, k, n, device_id, c, row, col);
                let w = x@.subrange(row * k, row * k + k);
                let v = backend::column(y@, k, n, col);
                assert(0 <= row * k && row * k + k <= m * k) by (nonlinear_arith)
                    requires
                        0 <= row < m,
                        k >= 0,
                ;
                product_laws::lemma_dot(&b.arith, w, v, k as nat);
                algebra::lemma_same_terms(
                    &b.arith,
                    |j: int| arith::product(&b.arith, w[j], v[j]),
                    |j: int| arith::product(&b.arith, x@[row * k + j], y@[j * n + col]),
                    k as nat,
                );
            }
        }
    }
}

/// On the processor, a 1-bit product with `m` vectors is, vector by vector, the product
/// with the vector alone.
pub proof fn law_processor_gemm<T: Arith>(
    b: &ScalarBackend<T>,
    bytes: &[u8],
    input: &[u32],
    m: usize,
    n_rows: usize,
    k: usize,
    r: Result<Vec<u32>, GpuError>,
)
    requires
        m * k <= input@.len(),
        call_ensures(
            backend::gemm_q1_g128::<ScalarBackend<T>>,
            (b, bytes, input, m, n_rows, k),
            r,
        ),
    ensures
        r matches Ok(v) ==> {
            &&& v@.len() == m * n_rows
            &&& forall|i: int, row: int|
                0 <= i < m && 0 <= row < n_rows ==> #[trigger] v@[i * n_rows + row] == cpu::dot(
                    &b.arith,
                    cpu::raw_row(&b.arith, bytes@, row, k),
                    input@.subrange(i * k, i * k + k),
                    k as nat,
                )
        },
        r is Err ==> m > 0 && !(k > 0 && k % 128 == 0 && bytes@.len() >= 18 * (n_rows * (k
            / 128))),
{
    if r is Ok {
        let v = r->Ok_0@;
        assert forall|i: int, row: int| 0 <= i < m && 0 <= row < n_rows implies #[trigger] v[i
            * n_rows + row] == cpu::dot(
            &b.arith,
            cpu::raw_row(&b.arith, bytes@, row, k),
            input@.subrange(i * k, i * k + k),
            k as nat,
        ) by {
            assert(backend::makes_row(b, bytes, input@, n_rows, k, v, i));
            assert(0 <= i * n_rows && i * n_rows + n_rows <= m * n_rows) by (nonlinear_arith)
                requires
                    0 <= i < m,
                    n_rows >= 0,
            ;
            let part = v.subrange(i * n_rows, i * n_rows + n_rows);
            assert(part[row] == v[i * n_rows + row]);
        }
    } else {
        let e = r->Err_0;
        let i = choose|i: int|
            {
                &&& 0 <= i < m
                &&& #[trigger] backend::refuses_row(b, bytes, input@, n_rows, k, e, i)
                &&& forall|q: int|
                    0 <= q < i ==> #[trigger] backend::row_made(b, bytes, input@, n_rows, k, q)
            };
        assert(backend::refuses_row(b, bytes, input@, n_rows, k, e, i));
        assert(0 <= i * k && i * k + k <= m * k) by (nonlinear_arith)
            requires
                0 <= i < m,
                k >= 0,
        ;
    }
}

/// Device buffers give back what they were made of: zeros, or the host's numbers.
pub proof fn law_buffers_hold_their_numbers(
    size: usize,
    data: &[u32],
    device_id: usize,
    b: DeviceBuffer,
    v: Vec<u32>,
)
    requires
        call_ensures(DeviceBuffer::to_vec, (&b,), v),
    ensures
        call_ensures(DeviceBuffer::new, (size, device_id), b) ==> v@.len() == size
            && b.device_id == device_id && b.size == size && (forall|i: int|
            0 <= i < size ==> #[trigger] v@[i] == 0),
        call_ensures(DeviceBuffer::from_slice, (data, device_id), b) ==> v@ == data@
            && b.device_id == device_id && b.size == data@.len(),
{
}

/// A launch over `n` elements has a thread for each, 256 to a block, no block without one
/// but the first, and no shared memory.
pub proof fn law_launch_covers(n: usize, c: LaunchConfig)
    requires
        n <= 256 * u32::MAX,
        call_ensures(LaunchConfig::for_n_elements, (n,), c),
    ensures
        c.block_dim == (256u32, 1u32, 1u32),
        c.grid_dim.1 == 1,
        c.grid_dim.2 == 1,
        c.grid_dim.0 >= 1,
        256 * c.grid_dim.0 >= n,
        c.grid_dim.0 > 1 ==> 256 * (c.grid_dim.0 - 1) < n,
        c.shared_mem_bytes == 0,
{
}

/// The processor behind the backends' interface gives what it gives itself, and its 1-bit
/// products are each row's weights times the input.
pub proof fn law_interface_is_the_processor<T: Arith>(
    b: &ScalarBackend<T>,
    x: &DeviceBuffer,
    size: usize,
    device_id: usize,
    one: Result<DeviceBuffer, GpuError>,
    other: Result<DeviceBuffer, GpuError>,
    bytes: &[u8],
    input: &[u32],
    n_rows: usize,
    k: usize,
    r: Result<Vec<u32>, GpuError>,
)
    ensures
        call_ensures(<ScalarBackend<T> as GpuBackendTrait>::relu, (b, x, device_id), one)
            && call_ensures(CpuBackend::relu::<T>, (&b.cpu, &b.arith, x, device_id), other)
            ==> one is Ok && other is Ok && one->Ok_0.data@ == other->Ok_0.data@,
        call_ensures(
            <ScalarBackend<T> as GpuBackendTrait>::softmax,
            (b, x, size, device_id),
            one,
        ) && call_ensures(CpuBackend::softmax::<T>, (&b.cpu, &b.arith, x, size, device_id), other)
            ==> (one is Ok <==> other is Ok) && (one is Ok ==> one->Ok_0.data@
            == other->Ok_0.data@),
        call_ensures(
            <ScalarBackend<T> as GpuBackendTrait>::gemv_q1_g128,
            (b, bytes, input, n_rows, k),
            r,
        ) ==> {
            &&& r is Ok <==> k > 0 && k % 128 == 0 && input@.len() == k && bytes@.len() >= 18 * (
            n_rows * (k / 128))
            &&& r matches Ok(v) ==> v@.len() == n_rows && (forall|row: int|
                0 <= row < n_rows ==> #[trigger] v@[row] == cpu::dot(
                    &b.arith,
                    cpu::raw_row(&b.arith, bytes@, row, k),
                    input@,
                    k as nat,
                ))
        },
{
}

/// The processor reports four GiB unless told otherwise, and half of it as free.
pub proof fn law_processor_memory(
    bytes: usize,
    b: CpuBackend,
    device_id: usize,
    r: Result<(usize, usize), GpuError>,
)
    requires
        call_ensures(CpuBackend::memory_info, (&b, device_id), r),
    ensures
        r is Ok,
        call_ensures(CpuBackend::with_memory, (bytes,), b) ==> r->Ok_0 == (
            (bytes / 2) as usize,
            bytes,
        ),
        call_ensures(CpuBackend::new, (), b) && usize::MAX > 0x1_0000_0000 ==> r->Ok_0.0
            == 0x8000_0000 && r->Ok_0.1 == 0x1_0000_0000,
{
}

} // verus!

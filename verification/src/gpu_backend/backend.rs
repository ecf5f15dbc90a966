//! What a backend offers, and products built on it.

use vstd::prelude::*;

use crate::arith;
use crate::arith::Arith;
use crate::blocks::BlockTQ2_0_g128;
use crate::gpu_backend::cpu;
use crate::gpu_backend::cpu::{cpu_gemv_1bit_fallback, CpuBackend};
use crate::gpu_backend::error;
use crate::gpu_backend::error::{invalid_argument, not_available, GpuError, GpuFault};
use crate::gpu_backend::launch::DeviceBuffer;
use crate::text;
use crate::text::Msg;

verus! {

/// Handle of weights that are resident on a device.
#[derive(Debug, Clone, Copy, PartialEq, Eq, Structural)]
pub struct GpuWeightHandle(pub u64);

/// Query, key and value vectors.
pub type QkvVectors = (Vec<u32>, Vec<u32>, Vec<u32>);

/// Primitive operations of a backend. Numbers are held as their bits.
pub trait GpuBackendTrait {
    /// The backend can be asked to compute.
    spec fn ready(&self) -> bool;

    /// Name of the backend.
    fn name(&self) -> &'static str;

    /// Whether real hardware is behind the backend.
    fn is_accelerated(&self) -> bool;

    /// Number of devices.
    fn device_count(&self) -> usize;

    /// A new device buffer.
    fn allocate(&self, size: usize, device_id: usize) -> (r: Result<DeviceBuffer, GpuError>)
        ensures
            r matches Ok(b) ==> b.wf() && b.size == size && b.device_id == device_id,
    ;

    /// A device buffer that holds a host slice.
    fn host_to_device(&self, src: &[u32], device_id: usize) -> (r: Result<DeviceBuffer, GpuError>)
        ensures
            r matches Ok(b) ==> b.holds(src@, device_id),
    ;

    /// The elements of a device buffer.
    fn device_to_host(&self, buf: &DeviceBuffer) -> (r: Result<Vec<u32>, GpuError>)
        ensures
            r matches Ok(v) ==> v@ == buf.data@,
    ;

    /// Multiplies a row-major `[m, k]` matrix and a vector of length `k`; the
    /// product has length `m`.
    fn matvec(
        &self,
        a: &DeviceBuffer,
        x: &DeviceBuffer,
        m: usize,
        k: usize,
        device_id: usize,
    ) -> (r: Result<DeviceBuffer, GpuError>)
        requires
            self.ready(),
            m * k <= usize::MAX,
            cpu::matvec_fault(a.size, x.size, m, k) is None ==> a.size <= a.data@.len() && x.size
                <= x.data@.len(),
        ensures
            r matches Ok(b) ==> b.wf() && b.size == m && b.device_id == device_id,
    ;

    /// The larger of each number and zero.
    fn relu(&self, x: &DeviceBuffer, device_id: usize) -> (r: Result<DeviceBuffer, GpuError>)
        requires
            self.ready(),
        ensures
            r matches Ok(b) ==> b.wf() && b.device_id == device_id && (x.wf() ==> b.size == x.size),
    ;

    /// Softmax of all `size` elements of a buffer.
    fn softmax(&self, x: &DeviceBuffer, size: usize, device_id: usize) -> (r: Result<
        DeviceBuffer,
        GpuError,
    >)
        requires
            self.ready(),
        ensures
            r matches Ok(b) ==> b.wf() && b.device_id == device_id && (x.wf() ==> b.size == size),
    ;

    /// Waits until all work on a device is done.
    fn synchronize(&self, device_id: usize) -> Result<(), GpuError>;

    /// Free and total memory of a device, in bytes.
    fn memory_info(&self, device_id: usize) -> Result<(usize, usize), GpuError>;

    /// 1-bit matrix-vector product over raw blocks of 18 bytes.
    fn gemv_q1_g128(&self, block_bytes: &[u8], input: &[u32], n_rows: usize, k: usize) -> (r:
        Result<Vec<u32>, GpuError>)
        requires
            self.ready(),
            k % 128 == 0 && input@.len() == k ==> n_rows * (k / 128) * 18 <= usize::MAX,
        ensures
            r matches Ok(v) ==> v@.len() == n_rows,
    ;

    /// Uploads raw weight blocks. Not every backend can.
    fn upload_weights_raw(&self, block_bytes: &[u8]) -> (r: Result<GpuWeightHandle, GpuError>)
        default_ensures
            error::reports(
                r,
                Some(
                    GpuFault::NotAvailable("weight caching not supported by this backend"@),
                ),
            ),
    {
        Err(not_available(Msg::new("weight caching not supported by this backend")))
    }

    /// 1-bit matrix-vector product with uploaded weights. Not every backend can.
    fn gemv_q1_g128_cached(
        &self,
        handle: GpuWeightHandle,
        input: &[u32],
        n_rows: usize,
        k: usize,
    ) -> (r: Result<Vec<u32>, GpuError>)
        default_ensures
            error::reports(
                r,
                Some(GpuFault::NotAvailable("cached GEMV not supported by this backend"@)),
            ),
    {
        Err(not_available(Msg::new("cached GEMV not supported by this backend")))
    }

    /// Uploads ternary weight blocks. Not every backend can.
    fn upload_weights_ternary(&self, blocks: &[BlockTQ2_0_g128]) -> (r: Result<
        GpuWeightHandle,
        GpuError,
    >)
        default_ensures
            error::reports(
                r,
                Some(
                    GpuFault::NotAvailable(
                        "ternary weight upload not supported by this backend"@,
                    ),
                ),
            ),
    {
        Err(not_available(Msg::new("ternary weight upload not supported by this backend")))
    }

    /// Ternary matrix-vector product with uploaded weights. Not every backend
    /// can.
    fn gemv_tq2_g128_cached(
        &self,
        handle: GpuWeightHandle,
        input: &[u32],
        n_rows: usize,
        k: usize,
    ) -> (r: Result<Vec<u32>, GpuError>)
        default_ensures
            error::reports(
                r,
                Some(
                    GpuFault::NotAvailable("cached ternary GEMV not supported by this backend"@),
                ),
            ),
    {
        Err(not_available(Msg::new("cached ternary GEMV not supported by this backend")))
    }

    /// Normalisation and projections ahead of attention in one submission, or
    /// nothing where the backend cannot batch them.
    fn batch_attn_phase(
        &self,
        hidden: &[u32],
        norm_weight: &[u32],
        norm_eps: u32,
        qkv_handle: GpuWeightHandle,
        q_rows: usize,
        k_rows: usize,
        h: usize,
    ) -> (r: Result<Option<QkvVectors>, GpuError>)
        default_ensures
            r == Ok::<Option<QkvVectors>, GpuError>(None),
    {
        Ok(None)
    }

    /// The feed-forward phase in one submission, on `hidden` in place; false
    /// where the backend cannot batch it.
    fn batch_ffn_phase(
        &self,
        hidden: &mut Vec<u32>,
        attn_out: &[u32],
        norm_weight: &[u32],
        norm_eps: u32,
        attn_proj_handle: GpuWeightHandle,
        gate_up_handle: GpuWeightHandle,
        down_handle: GpuWeightHandle,
        h: usize,
        intermediate: usize,
        attn_proj_k: usize,
    ) -> (r: Result<bool, GpuError>)
        default_ensures
            r == Ok::<bool, GpuError>(false),
            final(hidden)@ == old(hidden)@,
    {
        Ok(false)
    }
}

/// A backend's matrix-vector product of an input slice can be `part`.
pub open spec fn makes<B: GpuBackendTrait>(
    backend: &B,
    block_bytes: &[u8],
    slice: &[u32],
    n_rows: usize,
    k: usize,
    part: Vec<u32>,
) -> bool {
    call_ensures(B::gemv_q1_g128, (backend, block_bytes, slice, n_rows, k), Ok(part))
}

/// Row `i` of an output is a backend's matrix-vector product of row `i` of an
/// input.
pub open spec fn makes_row<B: GpuBackendTrait>(
    backend: &B,
    block_bytes: &[u8],
    input: Seq<u32>,
    n_rows: usize,
    k: usize,
    output: Seq<u32>,
    i: int,
) -> bool {
    exists|slice: &[u32], part: Vec<u32>| #[trigger]
        makes(backend, block_bytes, slice, n_rows, k, part) && slice@ == input.subrange(
            i * k,
            i * k + k,
        ) && part@ == output.subrange(i * n_rows, i * n_rows + n_rows)
}

/// A backend has made a matrix-vector product of row `i` of an input.
pub open spec fn row_made<B: GpuBackendTrait>(
    backend: &B,
    block_bytes: &[u8],
    input: Seq<u32>,
    n_rows: usize,
    k: usize,
    i: int,
) -> bool {
    exists|slice: &[u32], part: Vec<u32>| #[trigger]
        makes(backend, block_bytes, slice, n_rows, k, part) && slice@ == input.subrange(
            i * k,
            i * k + k,
        )
}

/// A backend's matrix-vector product of row `i` of an input can fail with an
/// error.
pub open spec fn refuses_row<B: GpuBackendTrait>(
    backend: &B,
    block_bytes: &[u8],
    input: Seq<u32>,
    n_rows: usize,
    k: usize,
    e: GpuError,
    i: int,
) -> bool {
    exists|slice: &[u32]| #[trigger]
        call_ensures(B::gemv_q1_g128, (backend, block_bytes, slice, n_rows, k), Err(e)) && slice@
            == input.subrange(i * k, i * k + k)
}

/// 1-bit product with `m` vectors: one matrix-vector product for each.
pub fn gemm_q1_g128<B: GpuBackendTrait>(
    backend: &B,
    block_bytes: &[u8],
    input: &[u32],
    m: usize,
    n_rows: usize,
    k: usize,
) -> (r: Result<Vec<u32>, GpuError>)
    requires
        backend.ready(),
        m > 0 && k % 128 == 0 ==> n_rows * (k / 128) * 18 <= usize::MAX,
        m * k <= input@.len(),
        m * n_rows <= usize::MAX,
    ensures
        r matches Ok(v) ==> v@.len() == m * n_rows,
        r matches Ok(v) ==> forall|i: int|
            0 <= i < m ==> #[trigger] makes_row(
                backend,
                block_bytes,
                input@,
                n_rows,
                k,
                v@,
                i,
            ),
        r matches Err(e) ==> exists|i: int|
            {
                &&& 0 <= i < m
                &&& #[trigger] refuses_row(backend, block_bytes, input@, n_rows, k, e, i)
                &&& forall|q: int|
                    0 <= q < i ==> #[trigger] row_made(
                        backend,
                        block_bytes,
                        input@,
                        n_rows,
                        k,
                        q,
                    )
            },
{
    let input_len: usize = input.len();
    let mut output: Vec<u32> = Vec::new();
    let mut i: usize = 0;
    while i < m
        invariant
            backend.ready(),
            m > 0 && k % 128 == 0 ==> n_rows * (k / 128) * 18 <= usize::MAX,
            input_len == input@.len(),
            m * k <= input_len,
            i <= m,
            output@.len() == i * n_rows,
            forall|q: int|
                0 <= q < i ==> #[trigger] makes_row(
                    backend,
                    block_bytes,
                    input@,
                    n_rows,
                    k,
                    output@,
                    q,
                ),
        decreases m - i,
    {
        assert(0 <= i * k && i * k + k <= m * k && (i + 1) * k == i * k + k)
            by (nonlinear_arith)
            requires
                0 <= i < m,
                k >= 0,
        ;
        assert((i + 1) * n_rows == i * n_rows + n_rows) by (nonlinear_arith);
        let row = vstd::slice::slice_subrange(input, i * k, (i + 1) * k);
        let part = match backend.gemv_q1_g128(block_bytes, row, n_rows, k) {
            Ok(part) => part,
            Err(e) => {
                assert(refuses_row(backend, block_bytes, input@, n_rows, k, e, i as int));
                assert forall|q: int| 0 <= q < i implies #[trigger] row_made(
                    backend,
                    block_bytes,
                    input@,
                    n_rows,
                    k,
                    q,
                ) by {
                    assert(makes_row(backend, block_bytes, input@, n_rows, k, output@, q));
                }
                return Err(e);
            },
        };
        let ghost before = output@;
        output.extend_from_slice(part.as_slice());
        proof {
            assert(output@ =~= before + part@);
            assert forall|q: int| 0 <= q < i + 1 implies #[trigger] makes_row(
                backend,
                block_bytes,
                input@,
                n_rows,
                k,
                output@,
                q,
            ) by {
                if q < i {
                    assert(makes_row(backend, block_bytes, input@, n_rows, k, before, q));
                    assert(0 <= q * n_rows && q * n_rows + n_rows <= i * n_rows)
                        by (nonlinear_arith)
                        requires
                            0 <= q < i,
                            n_rows >= 0,
                    ;
                    assert(output@.subrange(q * n_rows, q * n_rows + n_rows)
                        =~= before.subrange(q * n_rows, q * n_rows + n_rows));
                } else {
                    assert(output@.subrange(q * n_rows, q * n_rows + n_rows) =~= part@);
                    assert(makes(backend, block_bytes, row, n_rows, k, part));
                }
            }
        }
        i += 1;
    }
    Ok(output)
}

/// What is wrong with the operands of a matrix product.
pub open spec fn matmul_fault(
    a_len: nat,
    b_len: nat,
    m: usize,
    k: usize,
    n: usize,
) -> Option<GpuFault> {
    if a_len != m * k {
        Some(
            GpuFault::InvalidArgument(
                "a.len()="@ + text::dec(a_len) + " does not match m="@ + text::dec(m as nat)
                    + " k="@ + text::dec(k as nat),
            ),
        )
    } else if b_len != k * n {
        Some(
            GpuFault::InvalidArgument(
                "b.len()="@ + text::dec(b_len) + " does not match k="@ + text::dec(k as nat)
                    + " n="@ + text::dec(n as nat),
            ),
        )
    } else {
        None
    }
}

/// Column `col` of a row-major `[k, n]` matrix.
pub open spec fn column(b: Seq<u32>, k: usize, n: usize, col: int) -> Seq<u32> {
    Seq::new(k as nat, |row: int| b[row * n + col])
}

/// A backend was handed those elements, and that came of it.
pub open spec fn uploads<B: GpuBackendTrait>(
    backend: &B,
    elements: Seq<u32>,
    device_id: usize,
    came: Result<DeviceBuffer, GpuError>,
) -> bool {
    exists|s: &[u32]| #[trigger]
        call_ensures(B::host_to_device, (backend, s, device_id), came) && s@ == elements
}

/// A backend multiplied a matrix and a vector that it holds, and that came of it.
pub open spec fn multiplies<B: GpuBackendTrait>(
    backend: &B,
    a: DeviceBuffer,
    x: DeviceBuffer,
    m: usize,
    k: usize,
    device_id: usize,
    came: Result<DeviceBuffer, GpuError>,
) -> bool {
    call_ensures(B::matvec, (backend, &a, &x, m, k, device_id), came)
}

/// A backend read a buffer back, and that came of it.
pub open spec fn reads<B: GpuBackendTrait>(
    backend: &B,
    y: DeviceBuffer,
    came: Result<Vec<u32>, GpuError>,
) -> bool {
    call_ensures(B::device_to_host, (backend, &y), came)
}

/// A column of the right operand was uploaded, multiplied by the left one and
/// read back as `y`.
pub open spec fn column_gives<B: GpuBackendTrait>(
    backend: &B,
    a: DeviceBuffer,
    x: Seq<u32>,
    m: usize,
    k: usize,
    device_id: usize,
    y: Seq<u32>,
) -> bool {
    exists|xb: DeviceBuffer, yb: DeviceBuffer, v: Vec<u32>|
        {
            &&& uploads(backend, x, device_id, Ok(xb))
            &&& #[trigger] multiplies(backend, a, xb, m, k, device_id, Ok(yb))
            &&& #[trigger] reads(backend, yb, Ok(v))
            &&& v@ == y
        }
}

/// A column of the right operand failed with an error: its upload, or once that
/// was done its product, or once that was done reading it back.
pub open spec fn column_fails<B: GpuBackendTrait>(
    backend: &B,
    a: DeviceBuffer,
    x: Seq<u32>,
    m: usize,
    k: usize,
    device_id: usize,
    e: GpuError,
) -> bool {
    ||| uploads(backend, x, device_id, Err(e))
    ||| exists|xb: DeviceBuffer|
        uploads(backend, x, device_id, Ok(xb)) && #[trigger] multiplies(
            backend,
            a,
            xb,
            m,
            k,
            device_id,
            Err(e),
        )
    ||| exists|xb: DeviceBuffer, yb: DeviceBuffer|
        {
            &&& uploads(backend, x, device_id, Ok(xb))
            &&& #[trigger] multiplies(backend, a, xb, m, k, device_id, Ok(yb))
            &&& reads(backend, yb, Err(e))
        }
}

/// Column `col` of a row-major `[m, n]` matrix is what came back for that column
/// of the right operand.
pub open spec fn column_made<B: GpuBackendTrait>(
    backend: &B,
    a: DeviceBuffer,
    b: Seq<u32>,
    m: usize,
    k: usize,
    n: usize,
    device_id: usize,
    c: Seq<u32>,
    col: int,
) -> bool {
    column_gives(
        backend,
        a,
        column(b, k, n, col),
        m,
        k,
        device_id,
        Seq::new(m as nat, |row: int| c[row * n + col]),
    )
}

/// Something came back for column `col` of the right operand.
pub open spec fn column_done<B: GpuBackendTrait>(
    backend: &B,
    a: DeviceBuffer,
    b: Seq<u32>,
    m: usize,
    k: usize,
    n: usize,
    device_id: usize,
    col: int,
) -> bool {
    exists|y: Seq<u32>| #[trigger]
        column_gives(backend, a, column(b, k, n, col), m, k, device_id, y)
}

/// A matrix product succeeded: the left operand was uploaded once, every column
/// came back, and the device was waited for.
pub open spec fn matmul_done<B: GpuBackendTrait>(
    backend: &B,
    a: Seq<u32>,
    b: Seq<u32>,
    m: usize,
    k: usize,
    n: usize,
    device_id: usize,
    c: Seq<u32>,
) -> bool {
    &&& c.len() == m * n
    &&& call_ensures(B::synchronize, (backend, device_id), Ok(()))
    &&& exists|ab: DeviceBuffer|
        {
            &&& #[trigger] uploads(backend, a, device_id, Ok(ab))
            &&& forall|col: int|
                0 <= col < n ==> #[trigger] column_made(backend, ab, b, m, k, n, device_id, c, col)
        }
}

/// A matrix product ended with the error of its first step that failed: the
/// upload of the left operand; or a column, with all columns before it done; or
/// waiting for the device, with all columns done.
pub open spec fn matmul_failed<B: GpuBackendTrait>(
    backend: &B,
    a: Seq<u32>,
    b: Seq<u32>,
    m: usize,
    k: usize,
    n: usize,
    device_id: usize,
    e: GpuError,
) -> bool {
    ||| uploads(backend, a, device_id, Err(e))
    ||| exists|ab: DeviceBuffer|
        {
            &&& #[trigger] uploads(backend, a, device_id, Ok(ab))
            &&& fails_after(backend, ab, b, m, k, n, device_id, e)
        }
}

/// With the left operand uploaded, a column or the wait at the end failed.
pub open spec fn fails_after<B: GpuBackendTrait>(
    backend: &B,
    a: DeviceBuffer,
    b: Seq<u32>,
    m: usize,
    k: usize,
    n: usize,
    device_id: usize,
    e: GpuError,
) -> bool {
    ||| exists|col: int| #[trigger] fails_first(backend, a, b, m, k, n, device_id, e, col)
    ||| {
        &&& call_ensures(B::synchronize, (backend, device_id), Err(e))
        &&& forall|q: int|
            0 <= q < n ==> #[trigger] column_done(backend, a, b, m, k, n, device_id, q)
    }
}

/// Column `col` is the first that failed.
pub open spec fn fails_first<B: GpuBackendTrait>(
    backend: &B,
    a: DeviceBuffer,
    b: Seq<u32>,
    m: usize,
    k: usize,
    n: usize,
    device_id: usize,
    e: GpuError,
    col: int,
) -> bool {
    &&& 0 <= col < n
    &&& column_fails(backend, a, column(b, k, n, col), m, k, device_id, e)
    &&& forall|q: int|
        0 <= q < col ==> #[trigger] column_done(backend, a, b, m, k, n, device_id, q)
}

fn column_of(b: &[u32], k: usize, n: usize, col: usize) -> (v: Vec<u32>)
    requires
        b@.len() == k * n,
        col < n,
    ensures
        v@ == column(b@, k, n, col as int),
{
    let len: usize = b.len();
    let mut v: Vec<u32> = Vec::with_capacity(k);
    let mut row: usize = 0;
    while row < k
        invariant
            len == b@.len(),
            len == k * n,
            col < n,
            row <= k,
            v@ == Seq::new(row as nat, |r: int| b@[r * n + col]),
        decreases k - row,
    {
        assert(0 <= row * n && row * n + n <= k * n) by (nonlinear_arith)
            requires
                0 <= row < k,
                n >= 0,
        ;
        v.push(b[row * n + col]);
        row += 1;
        assert(v@ =~= Seq::new(row as nat, |r: int| b@[r * n + col]));
    }
    assert(v@ =~= column(b@, k, n, col as int));
    v
}

fn place_column(c: &mut Vec<u32>, y: &Vec<u32>, m: usize, n: usize, col: usize)
    requires
        old(c)@.len() == m * n,
        y@.len() == m,
        col < n,
    ensures
        final(c)@.len() == m * n,
        forall|row: int, q: int|
            0 <= row < m && 0 <= q < n ==> final(c)@[#[trigger] (row * n + q)] == (if q == col {
                y@[row]
            } else {
                old(c)@[row * n + q]
            }),
{
    let ghost before = c@;
    let len: usize = c.len();
    let mut r: usize = 0;
    while r < m
        invariant
            len == m * n,
            c@.len() == len,
            y@.len() == m,
            before.len() == len,
            col < n,
            r <= m,
            forall|row: int, q: int|
                0 <= row < m && 0 <= q < n ==> c@[#[trigger] (row * n + q)] == (if q == col && row
                    < r {
                    y@[row]
                } else {
                    before[row * n + q]
                }),
        decreases m - r,
    {
        assert(0 <= r * n && r * n + n <= m * n) by (nonlinear_arith)
            requires
                0 <= r < m,
                n >= 0,
        ;
        let ghost prior = c@;
        c.set(r * n + col, y[r]);
        proof {
            assert forall|row: int, q: int| 0 <= row < m && 0 <= q < n implies c@[#[trigger] (row
                * n + q)] == (if q == col && row < r + 1 {
                y@[row]
            } else {
                before[row * n + q]
            }) by {
                assert(0 <= row * n + q < m * n) by (nonlinear_arith)
                    requires
                        0 <= row < m,
                        0 <= q < n,
                ;
                if row * n + q == r * n + col {
                    vstd::arithmetic::div_mod::lemma_fundamental_div_mod_converse(
                        row * n + q,
                        n as int,
                        row,
                        q,
                    );
                    vstd::arithmetic::div_mod::lemma_fundamental_div_mod_converse(
                        r * n + col,
                        n as int,
                        r as int,
                        col as int,
                    );
                }
                assert(prior[row * n + q] == (if q == col && row < r {
                    y@[row]
                } else {
                    before[row * n + q]
                }));
            }
        }
        r += 1;
    }
}

/// Multiplies a row-major `[m, k]` and a row-major `[k, n]` matrix with one
/// matrix-vector product for each column of the right one.
pub fn gpu_matmul<B: GpuBackendTrait>(
    backend: &B,
    a: &[u32],
    b: &[u32],
    m: usize,
    k: usize,
    n: usize,
    device_id: usize,
) -> (r: Result<Vec<u32>, GpuError>)
    requires
        backend.ready(),
        m * k <= usize::MAX,
        a@.len() == m * k ==> k * n <= usize::MAX,
        matmul_fault(a@.len(), b@.len(), m, k, n) is None ==> m * n <= usize::MAX,
    ensures
        matmul_fault(a@.len(), b@.len(), m, k, n) is Some ==> error::reports(
            r,
            matmul_fault(a@.len(), b@.len(), m, k, n),
        ),
        matmul_fault(a@.len(), b@.len(), m, k, n) is None ==> match r {
            Ok(c) => matmul_done(backend, a@, b@, m, k, n, device_id, c@),
            Err(e) => matmul_failed(backend, a@, b@, m, k, n, device_id, e),
        },
{
    let a_len: usize = a.len();
    let b_len: usize = b.len();
    if a_len != m * k {
        return Err(
            invalid_argument(
                Msg::new("a.len()=").num(a_len).lit(" does not match m=").num(m).lit(" k=").num(k),
            ),
        );
    }
    if b_len != k * n {
        return Err(
            invalid_argument(
                Msg::new("b.len()=").num(b_len).lit(" does not match k=").num(k).lit(" n=").num(n),
            ),
        );
    }
    let a_buf = match backend.host_to_device(a, device_id) {
        Ok(buf) => buf,
        Err(e) => {
            assert(uploads(backend, a@, device_id, Err(e)));
            return Err(e);
        },
    };
    assert(uploads(backend, a@, device_id, Ok(a_buf)));
    let mut c: Vec<u32> = arith::zero_lanes(m * n);
    let mut col: usize = 0;
    while col < n
        invariant
            backend.ready(),
            m * k <= usize::MAX,
            b@.len() == k * n,
            a_buf.holds(a@, device_id),
            uploads(backend, a@, device_id, Ok(a_buf)),
            col <= n,
            c@.len() == m * n,
            forall|q: int|
                0 <= q < col ==> #[trigger] column_made(
                    backend,
                    a_buf,
                    b@,
                    m,
                    k,
                    n,
                    device_id,
                    c@,
                    q,
                ),
            matmul_fault(a@.len(), b@.len(), m, k, n) is None,
        decreases n - col,
    {
        let ghost x = column(b@, k, n, col as int);
        assert forall|q: int| 0 <= q < col implies #[trigger] column_done(
            backend,
            a_buf,
            b@,
            m,
            k,
            n,
            device_id,
            q,
        ) by {
            assert(column_made(backend, a_buf, b@, m, k, n, device_id, c@, q));
        }
        let b_col = column_of(b, k, n, col);
        let x_buf = match backend.host_to_device(b_col.as_slice(), device_id) {
            Ok(buf) => buf,
            Err(e) => {
                assert(uploads(backend, x, device_id, Err(e)));
                assert(fails_first(backend, a_buf, b@, m, k, n, device_id, e, col as int));
                return Err(e);
            },
        };
        assert(uploads(backend, x, device_id, Ok(x_buf)));
        let y_buf = match backend.matvec(&a_buf, &x_buf, m, k, device_id) {
            Ok(buf) => buf,
            Err(e) => {
                assert(multiplies(backend, a_buf, x_buf, m, k, device_id, Err(e)));
                assert(fails_first(backend, a_buf, b@, m, k, n, device_id, e, col as int));
                return Err(e);
            },
        };
        assert(multiplies(backend, a_buf, x_buf, m, k, device_id, Ok(y_buf)));
        let y = match backend.device_to_host(&y_buf) {
            Ok(y) => y,
            Err(e) => {
                assert(reads(backend, y_buf, Err(e)));
                assert(fails_first(backend, a_buf, b@, m, k, n, device_id, e, col as int));
                return Err(e);
            },
        };
        assert(reads(backend, y_buf, Ok(y)));
        let ghost before = c@;
        place_column(&mut c, &y, m, n, col);
        proof {
            assert forall|q: int| 0 <= q < col + 1 implies #[trigger] column_made(
                backend,
                a_buf,
                b@,
                m,
                k,
                n,
                device_id,
                c@,
                q,
            ) by {
                if q < col {
                    assert(column_made(backend, a_buf, b@, m, k, n, device_id, before, q));
                    assert(Seq::new(m as nat, |row: int| c@[row * n + q]) =~= Seq::new(
                        m as nat,
                        |row: int| before[row * n + q],
                    ));
                } else {
                    assert(Seq::new(m as nat, |row: int| c@[row * n + q]) =~= y@);
                }
            }
        }
        col += 1;
    }
    match backend.synchronize(device_id) {
        Ok(done) => {
            assert(done == ());
            assert(call_ensures(B::synchronize, (backend, device_id), Ok(())));
        },
        Err(e) => {
            assert forall|q: int| 0 <= q < n implies #[trigger] column_done(
                backend,
                a_buf,
                b@,
                m,
                k,
                n,
                device_id,
                q,
            ) by {
                assert(column_made(backend, a_buf, b@, m, k, n, device_id, c@, q));
            }
            assert(fails_after(backend, a_buf, b@, m, k, n, device_id, e));
            return Err(e);
        },
    }
    Ok(c)
}

/// The processor as a backend, with the arithmetic that it computes with.
pub struct ScalarBackend<T> {
    /// The backend.
    pub cpu: CpuBackend,
    /// Its arithmetic.
    pub arith: T,
}

impl<T: Arith> GpuBackendTrait for ScalarBackend<T> {
    open spec fn ready(&self) -> bool {
        arith::deterministic(&self.arith)
    }

    fn name(&self) -> (s: &'static str)
        ensures
            s@ == "cpu"@,
    {
        self.cpu.name()
    }

    fn is_accelerated(&self) -> (b: bool)
        ensures
            !b,
    {
        self.cpu.is_accelerated()
    }

    fn device_count(&self) -> (n: usize)
        ensures
            n == 1,
    {
        self.cpu.device_count()
    }

    fn allocate(&self, size: usize, device_id: usize) -> (r: Result<DeviceBuffer, GpuError>)
        ensures
            r matches Ok(b) && b.holds(Seq::new(size as nat, |i: int| 0u32), device_id),
    {
        self.cpu.allocate(size, device_id)
    }

    fn host_to_device(&self, src: &[u32], device_id: usize) -> (r: Result<DeviceBuffer, GpuError>)
        ensures
            r is Ok,
    {
        self.cpu.host_to_device(src, device_id)
    }

    fn device_to_host(&self, buf: &DeviceBuffer) -> (r: Result<Vec<u32>, GpuError>)
        ensures
            r is Ok,
    {
        self.cpu.device_to_host(buf)
    }

    fn matvec(
        &self,
        a: &DeviceBuffer,
        x: &DeviceBuffer,
        m: usize,
        k: usize,
        device_id: usize,
    ) -> (r: Result<DeviceBuffer, GpuError>)
        ensures
            error::reports(r, cpu::matvec_fault(a.size, x.size, m, k)),
            r matches Ok(b) ==> b.data@ == cpu::matvec_product(
                &self.arith,
                a.data@,
                x.data@,
                m,
                k,
            ),
    {
        self.cpu.matvec(&self.arith, a, x, m, k, device_id)
    }

    fn relu(&self, x: &DeviceBuffer, device_id: usize) -> (r: Result<DeviceBuffer, GpuError>)
        ensures
            r matches Ok(b) && b.data@ == x.data@.map_values(
                |v: u32| arith::larger(&self.arith, v, 0),
            ),
    {
        self.cpu.relu(&self.arith, x, device_id)
    }

    fn softmax(&self, x: &DeviceBuffer, size: usize, device_id: usize) -> (r: Result<
        DeviceBuffer,
        GpuError,
    >)
        ensures
            error::reports(r, cpu::softmax_fault(x.size, size)),
            r matches Ok(b) ==> b.data@ == cpu::softmax_shares(&self.arith, x.data@, size),
    {
        self.cpu.softmax(&self.arith, x, size, device_id)
    }

    fn synchronize(&self, device_id: usize) -> (r: Result<(), GpuError>)
        ensures
            r == Ok::<(), GpuError>(()),
    {
        self.cpu.synchronize(device_id)
    }

    fn memory_info(&self, device_id: usize) -> (r: Result<(usize, usize), GpuError>)
        ensures
            r == Ok::<(usize, usize), GpuError>(
                (
                    (self.cpu.simulated_memory_bytes / 2) as usize,
                    self.cpu.simulated_memory_bytes,
                ),
            ),
    {
        self.cpu.memory_info(device_id)
    }

    fn gemv_q1_g128(&self, block_bytes: &[u8], input: &[u32], n_rows: usize, k: usize) -> (r:
        Result<Vec<u32>, GpuError>)
        ensures
            error::reports(r, cpu::raw_gemv_fault(block_bytes@.len(), input@.len(), n_rows, k)),
            r matches Ok(v) ==> v@ == Seq::new(
                n_rows as nat,
                |i: int|
                    cpu::dot(
                        &self.arith,
                        cpu::raw_row(&self.arith, block_bytes@, i, k),
                        input@,
                        k as nat,
                    ),
            ),
    {
        cpu_gemv_1bit_fallback(&self.arith, block_bytes, input, n_rows, k)
    }
}

/// On the processor every element of a matrix product is the scalar product of a row and a column.
pub proof fn law_scalar_matmul<T: Arith>(
    backend: &ScalarBackend<T>,
    a: Seq<u32>,
    b: Seq<u32>,
    m: usize,
    k: usize,
    n: usize,
    device_id: usize,
    c: Seq<u32>,
    row: int,
    col: int,
)
    requires
        0 <= row < m,
        0 <= col < n,
        matmul_done(backend, a, b, m, k, n, device_id, c),
    ensures
        c[row * n + col] == cpu::dot(
            &backend.arith,
            a.subrange(row * k, row * k + k),
            column(b, k, n, col),
            k as nat,
        ),
{
    let ab = choose|ab: DeviceBuffer|
        {
            &&& #[trigger] uploads(backend, a, device_id, Ok(ab))
            &&& forall|col: int|
                0 <= col < n ==> #[trigger] column_made(backend, ab, b, m, k, n, device_id, c, col)
        };
    assert(column_made(backend, ab, b, m, k, n, device_id, c, col));
    let y = Seq::new(m as nat, |row: int| c[row * n + col]);
    assert(y[row] == c[row * n + col]);
}

/// On the processor no matrix product with operands of the right shape fails.
pub proof fn law_scalar_matmul_succeeds<T: Arith>(
    backend: &ScalarBackend<T>,
    a: Seq<u32>,
    b: Seq<u32>,
    m: usize,
    k: usize,
    n: usize,
    device_id: usize,
    e: GpuError,
)
    requires
        matmul_fault(a.len(), b.len(), m, k, n) is None,
    ensures
        !matmul_failed(backend, a, b, m, k, n, device_id, e),
{
}

} // verus!

//! The processor as a backend, and the CUDA and Metal stubs that fall back to
//! it.

use vstd::prelude::*;

use crate::arith;
use crate::arith::{
    do_difference, do_exponential, do_larger, do_of_count, do_product, do_quotient, do_sum, Arith,
    MINUS_ONE_BITS, NEG_INFINITY_BITS, ONE_BITS,
};
use crate::blocks;
use crate::blocks::{half_bits_to_single, is_positive};
use crate::gpu_backend::error;
use crate::gpu_backend::error::{invalid_argument, GpuError, GpuFault};
use crate::gpu_backend::launch::DeviceBuffer;
use crate::simd_float_ops;
use crate::text;
use crate::text::Msg;

verus! {

/// Scalar product of the first `n` elements, added one by one.
pub open spec fn dot<T: Arith>(t: &T, w: Seq<u32>, x: Seq<u32>, n: nat) -> u32
    decreases n,
{
    if n == 0 {
        0
    } else {
        arith::sum(
            t,
            dot(t, w, x, (n - 1) as nat),
            arith::product(t, w[n - 1], x[n - 1]),
        )
    }
}

/// What is wrong with the operands of a matrix-vector product.
pub open spec fn matvec_fault(a_size: usize, x_size: usize, m: usize, k: usize) -> Option<GpuFault> {
    if a_size != m * k {
        Some(
            GpuFault::InvalidArgument(
                "matrix buffer size "@ + text::dec(a_size as nat) + " does not match m="@
                    + text::dec(m as nat) + " k="@ + text::dec(k as nat),
            ),
        )
    } else if x_size != k {
        Some(
            GpuFault::InvalidArgument(
                "vector buffer size "@ + text::dec(x_size as nat) + " does not match k="@
                    + text::dec(k as nat),
            ),
        )
    } else {
        None
    }
}

/// Checks the operands of a matrix-vector product.
pub fn check_matvec(a_size: usize, x_size: usize, m: usize, k: usize) -> (r: Result<(), GpuError>)
    requires
        m * k <= usize::MAX,
    ensures
        error::reports(r, matvec_fault(a_size, x_size, m, k)),
{
    if a_size != m * k {
        return Err(
            invalid_argument(
                Msg::new("matrix buffer size ").num(a_size).lit(" does not match m=").num(m).lit(
                    " k=",
                ).num(k),
            ),
        );
    }
    if x_size != k {
        return Err(
            invalid_argument(
                Msg::new("vector buffer size ").num(x_size).lit(" does not match k=").num(k),
            ),
        );
    }
    Ok(())
}

/// Product of a row-major `[m, k]` matrix and a vector.
pub open spec fn matvec_product<T: Arith>(
    t: &T,
    a: Seq<u32>,
    x: Seq<u32>,
    m: usize,
    k: usize,
) -> Seq<u32> {
    Seq::new(m as nat, |r: int| dot(t, a.subrange(r * k, r * k + k), x, k as nat))
}

/// Multiplies a row-major `[m, k]` matrix and a vector on the processor.
pub fn matvec_cpu<T: Arith>(
    t: &T,
    a: &DeviceBuffer,
    x: &DeviceBuffer,
    m: usize,
    k: usize,
    device_id: usize,
) -> (b: DeviceBuffer)
    requires
        arith::deterministic(t),
        m * k <= a.data@.len(),
        k <= x.data@.len(),
    ensures
        b.holds(matvec_product(t, a.data@, x.data@, m, k), device_id),
{
    let size: usize = a.data.len();
    let mut out: Vec<u32> = Vec::with_capacity(m);
    let mut row: usize = 0;
    while row < m
        invariant
            arith::deterministic(t),
            size == a.data@.len(),
            m * k <= size,
            k <= x.data@.len(),
            row <= m,
            out@ == Seq::new(
                row as nat,
                |r: int| dot(t, a.data@.subrange(r * k, r * k + k), x.data@, k as nat),
            ),
        decreases m - row,
    {
        assert(0 <= row * k && row * k + k <= m * k) by (nonlinear_arith)
            requires
                0 <= row < m,
                k >= 0,
        ;
        let ghost w = a.data@.subrange(row * k, row * k + k);
        let start: usize = row * k;
        let mut acc: u32 = 0;
        let mut col: usize = 0;
        while col < k
            invariant
                arith::deterministic(t),
                size == a.data@.len(),
                k <= x.data@.len(),
                start == row * k,
                start + k <= size,
                w == a.data@.subrange(row * k, row * k + k),
                col <= k,
                acc == dot(t, w, x.data@, col as nat),
            decreases k - col,
        {
            let e: u32 = a.data[start + col];
            assert(e == w[col as int]);
            let p: u32 = do_product(t, e, x.data[col]);
            acc = do_sum(t, acc, p);
            col += 1;
        }
        out.push(acc);
        row += 1;
        assert(out@ =~= Seq::new(
            row as nat,
            |r: int| dot(t, a.data@.subrange(r * k, r * k + k), x.data@, k as nat),
        ));
    }
    assert(out@ =~= matvec_product(t, a.data@, x.data@, m, k));
    DeviceBuffer { data: out, size: m, device_id }
}

/// The larger of each number and zero.
pub fn relu_cpu<T: Arith>(t: &T, x: &DeviceBuffer, device_id: usize) -> (b: DeviceBuffer)
    requires
        arith::deterministic(t),
    ensures
        b.holds(x.data@.map_values(|v: u32| arith::larger(t, v, 0)), device_id),
{
    let n: usize = x.data.len();
    let ghost goal = x.data@.map_values(|v: u32| arith::larger(t, v, 0));
    let mut out: Vec<u32> = Vec::with_capacity(n);
    let mut i: usize = 0;
    while i < n
        invariant
            arith::deterministic(t),
            n == x.data@.len(),
            goal == x.data@.map_values(|v: u32| arith::larger(t, v, 0)),
            i <= n,
            out@ == goal.subrange(0, i as int),
        decreases n - i,
    {
        let v: u32 = do_larger(t, x.data[i], 0);
        out.push(v);
        i += 1;
        assert(out@ =~= goal.subrange(0, i as int));
    }
    assert(out@ =~= goal);
    DeviceBuffer { data: out, size: n, device_id }
}

/// What is wrong with the operand of a softmax.
pub open spec fn softmax_fault(x_size: usize, size: usize) -> Option<GpuFault> {
    if x_size != size {
        Some(
            GpuFault::InvalidArgument(
                "buffer size "@ + text::dec(x_size as nat) + " does not match size="@ + text::dec(
                    size as nat,
                ),
            ),
        )
    } else {
        None
    }
}

/// Checks the operand of a softmax.
pub fn check_softmax(x_size: usize, size: usize) -> (r: Result<(), GpuError>)
    ensures
        error::reports(r, softmax_fault(x_size, size)),
{
    if x_size != size {
        return Err(
            invalid_argument(
                Msg::new("buffer size ").num(x_size).lit(" does not match size=").num(size),
            ),
        );
    }
    Ok(())
}

/// A number is zero, of either sign.
pub open spec fn is_zero(x: u32) -> bool {
    x == 0 || x == blocks::SIGN_BIT
}

/// Exponentials of the elements less their maximum.
pub open spec fn exponentials<T: Arith>(t: &T, xs: Seq<u32>) -> Seq<u32> {
    Seq::new(
        xs.len(),
        |i: int|
            arith::exponential(
                t,
                arith::difference(t, xs[i], simd_float_ops::scalar_maximum(t, xs, xs.len())),
            ),
    )
}

/// Softmax by division: the exponentials over their sum, or `size` equal shares
/// where the sum is zero.
pub open spec fn softmax_shares<T: Arith>(t: &T, xs: Seq<u32>, size: usize) -> Seq<u32> {
    let es = exponentials(t, xs);
    let total = simd_float_ops::tail_sums(t, es, 0, 0, es.len() as int);
    if size == 0 {
        Seq::empty()
    } else if is_zero(total) {
        Seq::new(size as nat, |i: int| arith::quotient(t, ONE_BITS, arith::of_count(t, size)))
    } else {
        Seq::new(xs.len(), |i: int| arith::quotient(t, es[i], total))
    }
}

/// Softmax of a buffer's elements on the processor.
pub fn softmax_cpu<T: Arith>(t: &T, x: &DeviceBuffer, size: usize, device_id: usize) -> (b:
    DeviceBuffer)
    requires
        arith::deterministic(t),
        size > 0,
    ensures
        b.holds(softmax_shares(t, x.data@, size), device_id),
{
    let n: usize = x.data.len();
    let ghost xs = x.data@;
    let mut top: u32 = NEG_INFINITY_BITS;
    let mut i: usize = 0;
    while i < n
        invariant
            arith::deterministic(t),
            xs == x.data@,
            n == xs.len(),
            i <= n,
            top == simd_float_ops::scalar_maximum(t, xs, i as nat),
        decreases n - i,
    {
        top = do_larger(t, top, x.data[i]);
        i += 1;
    }
    let ghost es = exponentials(t, xs);
    let mut exps: Vec<u32> = Vec::with_capacity(n);
    let mut total: u32 = 0;
    let mut j: usize = 0;
    while j < n
        invariant
            arith::deterministic(t),
            xs == x.data@,
            n == xs.len(),
            top == simd_float_ops::scalar_maximum(t, xs, xs.len()),
            es == exponentials(t, xs),
            j <= n,
            exps@ == es.subrange(0, j as int),
            total == simd_float_ops::tail_sums(t, es, 0, 0, j as int),
        decreases n - j,
    {
        let shifted: u32 = do_difference(t, x.data[j], top);
        let e: u32 = do_exponential(t, shifted);
        assert(e == es[j as int]);
        exps.push(e);
        total = do_sum(t, total, e);
        j += 1;
        assert(exps@ =~= es.subrange(0, j as int));
    }
    assert(exps@ =~= es);
    let ghost goal = softmax_shares(t, xs, size);
    let none: bool = total == 0 || total == blocks::SIGN_BIT;
    let len: usize = if none {
        size
    } else {
        n
    };
    let mut out: Vec<u32> = Vec::with_capacity(len);
    let mut q: usize = 0;
    while q < len
        invariant
            arith::deterministic(t),
            n == xs.len(),
            size > 0,
            es == exponentials(t, xs),
            exps@ == es,
            total == simd_float_ops::tail_sums(t, es, 0, 0, es.len() as int),
            none == is_zero(total),
            goal == softmax_shares(t, xs, size),
            len == goal.len(),
            !none ==> len == n,
            q <= len,
            out@ == goal.subrange(0, q as int),
        decreases len - q,
    {
        let v: u32 = if none {
            let count: u32 = do_of_count(t, size);
            do_quotient(t, ONE_BITS, count)
        } else {
            do_quotient(t, exps[q], total)
        };
        out.push(v);
        q += 1;
        assert(out@ =~= goal.subrange(0, q as int));
    }
    assert(out@ =~= goal);
    DeviceBuffer { data: out, size: len, device_id }
}

/// The processor as a backend: always there, never accelerated.
#[derive(Debug)]
pub struct CpuBackend {
    /// Total device memory that [`CpuBackend::memory_info`] reports.
    pub simulated_memory_bytes: usize,
}

/// Four GiB, or as much as an address can count.
pub open spec fn default_memory() -> usize {
    if usize::MAX >= 4294967296 {
        4294967296int as usize
    } else {
        usize::MAX
    }
}

impl CpuBackend {
    /// A backend that reports four GiB of memory.
    pub fn new() -> (b: Self)
        ensures
            b.simulated_memory_bytes == default_memory(),
    {
        let mib: usize = 1048576;
        let bytes: usize = match mib.checked_mul(4096) {
            Some(b) => b,
            None => usize::MAX,
        };
        CpuBackend { simulated_memory_bytes: bytes }
    }

    /// A backend that reports `bytes` of memory.
    pub fn with_memory(bytes: usize) -> (b: Self)
        ensures
            b.simulated_memory_bytes == bytes,
    {
        CpuBackend { simulated_memory_bytes: bytes }
    }

    /// Name of the backend.
    pub fn name(&self) -> (s: &'static str)
        ensures
            s@ == "cpu"@,
    {
        "cpu"
    }

    /// Whether real hardware is behind the backend.
    pub fn is_accelerated(&self) -> (b: bool)
        ensures
            !b,
    {
        false
    }

    /// Number of devices.
    pub fn device_count(&self) -> (n: usize)
        ensures
            n == 1,
    {
        1
    }

    /// A buffer of zeros.
    pub fn allocate(&self, size: usize, device_id: usize) -> (r: Result<DeviceBuffer, GpuError>)
        ensures
            r matches Ok(b) && b.holds(Seq::new(size as nat, |i: int| 0u32), device_id),
    {
        Ok(DeviceBuffer::new(size, device_id))
    }

    /// A buffer that holds a host slice.
    pub fn host_to_device(&self, src: &[u32], device_id: usize) -> (r: Result<
        DeviceBuffer,
        GpuError,
    >)
        ensures
            r matches Ok(b) && b.holds(src@, device_id),
    {
        Ok(DeviceBuffer::from_slice(src, device_id))
    }

    /// The elements of a buffer.
    pub fn device_to_host(&self, buf: &DeviceBuffer) -> (r: Result<Vec<u32>, GpuError>)
        ensures
            r matches Ok(v) && v@ == buf.data@,
    {
        Ok(buf.to_vec())
    }

    /// Multiplies a row-major `[m, k]` matrix and a vector.
    pub fn matvec<T: Arith>(
        &self,
        t: &T,
        a: &DeviceBuffer,
        x: &DeviceBuffer,
        m: usize,
        k: usize,
        device_id: usize,
    ) -> (r: Result<DeviceBuffer, GpuError>)
        requires
            arith::deterministic(t),
            m * k <= usize::MAX,
            matvec_fault(a.size, x.size, m, k) is None ==> a.size <= a.data@.len() && x.size
                <= x.data@.len(),
        ensures
            error::reports(r, matvec_fault(a.size, x.size, m, k)),
            r matches Ok(b) ==> b.holds(matvec_product(t, a.data@, x.data@, m, k), device_id),
    {
        check_matvec(a.size, x.size, m, k)?;
        Ok(matvec_cpu(t, a, x, m, k, device_id))
    }

    /// The larger of each number and zero.
    pub fn relu<T: Arith>(&self, t: &T, x: &DeviceBuffer, device_id: usize) -> (r: Result<
        DeviceBuffer,
        GpuError,
    >)
        requires
            arith::deterministic(t),
        ensures
            r matches Ok(b) && b.holds(
                x.data@.map_values(|v: u32| arith::larger(t, v, 0)),
                device_id,
            ),
    {
        Ok(relu_cpu(t, x, device_id))
    }

    /// Softmax of all `size` elements of a buffer.
    pub fn softmax<T: Arith>(&self, t: &T, x: &DeviceBuffer, size: usize, device_id: usize) -> (r:
        Result<DeviceBuffer, GpuError>)
        requires
            arith::deterministic(t),
        ensures
            error::reports(r, softmax_fault(x.size, size)),
            r matches Ok(b) ==> b.holds(softmax_shares(t, x.data@, size), device_id),
    {
        check_softmax(x.size, size)?;
        if size == 0 {
            let b = DeviceBuffer::new(0, device_id);
            assert(b.data@ =~= softmax_shares(t, x.data@, size));
            return Ok(b);
        }
        Ok(softmax_cpu(t, x, size, device_id))
    }

    /// Waits for nothing: every operation is done when it returns.
    pub fn synchronize(&self, device_id: usize) -> (r: Result<(), GpuError>)
        ensures
            r == Ok::<(), GpuError>(()),
    {
        Ok(())
    }

    /// Free and total memory; half is free.
    pub fn memory_info(&self, device_id: usize) -> (r: Result<(usize, usize), GpuError>)
        ensures
            r == Ok::<(usize, usize), GpuError>(
                ((self.simulated_memory_bytes / 2) as usize, self.simulated_memory_bytes),
            ),
    {
        let total: usize = self.simulated_memory_bytes;
        Ok((total / 2, total))
    }
}

impl Default for CpuBackend {
    fn default() -> (b: Self)
        ensures
            b.simulated_memory_bytes == default_memory(),
    {
        CpuBackend::new()
    }
}

/// The 18 bytes of raw block `b`.
pub open spec fn raw_block_at(bytes: Seq<u8>, b: int) -> Seq<u8> {
    bytes.subrange(b * 18, b * 18 + 18)
}

/// Scale of a raw 1-bit block: two bytes, lower first.
pub open spec fn raw_scale(block: Seq<u8>) -> u16 {
    (block[0] as int + 256 * block[1] as int) as u16
}

/// Weight `j` of a raw 1-bit block: the scale times plus or minus one.
pub open spec fn raw_weight<T: Arith>(t: &T, block: Seq<u8>, j: int) -> u32 {
    arith::product(
        t,
        blocks::half_to_single(raw_scale(block)),
        if blocks::sign_bit(block.subrange(2, 18), j) {
            ONE_BITS
        } else {
            MINUS_ONE_BITS
        },
    )
}

/// Weights of row `r` of a raw 1-bit matrix with `k` columns.
pub open spec fn raw_row<T: Arith>(t: &T, bytes: Seq<u8>, r: int, k: usize) -> Seq<u32> {
    Seq::new(
        k as nat,
        |j: int| raw_weight(t, raw_block_at(bytes, r * (k / 128) + j / 128), j % 128),
    )
}

/// What is wrong with the arguments of a raw 1-bit product.
pub open spec fn raw_gemv_fault(
    bytes_len: nat,
    input_len: nat,
    n_rows: usize,
    k: usize,
) -> Option<GpuFault> {
    let expected = n_rows * (k / 128) * 18;
    if k == 0 || k % 128 != 0 {
        Some(
            GpuFault::InvalidArgument(
                "k="@ + text::dec(k as nat) + " must be a positive multiple of 128"@,
            ),
        )
    } else if input_len != k {
        Some(
            GpuFault::InvalidArgument(
                "input.len()="@ + text::dec(input_len) + " != k="@ + text::dec(k as nat),
            ),
        )
    } else if bytes_len < expected {
        Some(
            GpuFault::InvalidArgument(
                "block_bytes too small: "@ + text::dec(bytes_len) + " < "@ + text::dec(
                    expected as nat,
                ),
            ),
        )
    } else {
        None
    }
}

fn weight_of_raw<T: Arith>(t: &T, bytes: &[u8], b: usize, j: usize) -> (w: u32)
    requires
        arith::deterministic(t),
        j < 128,
        b * 18 + 18 <= bytes@.len() <= usize::MAX,
    ensures
        w == raw_weight(t, raw_block_at(bytes@, b as int), j as int),
{
    let off: usize = b * 18;
    let block = vstd::slice::slice_subrange(bytes, off, off + 18);
    let signs = vstd::slice::slice_subrange(block, 2, 18);
    assert(block@ =~= raw_block_at(bytes@, b as int));
    let d: u16 = block[0] as u16 + 256 * (block[1] as u16);
    let scale: u32 = half_bits_to_single(d);
    let sign: u32 = if is_positive(signs, j) {
        ONE_BITS
    } else {
        MINUS_ONE_BITS
    };
    do_product(t, scale, sign)
}

/// 1-bit matrix-vector product over raw blocks on the processor: each row's
/// weights times the input, added one by one.
pub fn cpu_gemv_1bit_fallback<T: Arith>(
    t: &T,
    block_bytes: &[u8],
    input: &[u32],
    n_rows: usize,
    k: usize,
) -> (r: Result<Vec<u32>, GpuError>)
    requires
        arith::deterministic(t),
        k % 128 == 0 && input@.len() == k ==> n_rows * (k / 128) * 18 <= usize::MAX,
    ensures
        error::reports(r, raw_gemv_fault(block_bytes@.len(), input@.len(), n_rows, k)),
        r matches Ok(v) ==> v@ == Seq::new(
            n_rows as nat,
            |i: int| dot(t, raw_row(t, block_bytes@, i, k), input@, k as nat),
        ),
{
    let bytes_len: usize = block_bytes.len();
    let input_len: usize = input.len();
    if k == 0 || k % 128 != 0 {
        return Err(
            invalid_argument(Msg::new("k=").num(k).lit(" must be a positive multiple of 128")),
        );
    }
    if input_len != k {
        return Err(
            invalid_argument(Msg::new("input.len()=").num(input_len).lit(" != k=").num(k)),
        );
    }
    let blocks_per_row: usize = k / 128;
    proof {
        assert(n_rows * blocks_per_row <= n_rows * blocks_per_row * 18) by (nonlinear_arith);
    }
    let expected: usize = n_rows * blocks_per_row * 18;
    if bytes_len < expected {
        return Err(
            invalid_argument(
                Msg::new("block_bytes too small: ").num(bytes_len).lit(" < ").num(expected),
            ),
        );
    }
    let mut output: Vec<u32> = Vec::with_capacity(n_rows);
    let mut row: usize = 0;
    while row < n_rows
        invariant
            arith::deterministic(t),
            bytes_len == block_bytes@.len(),
            input@.len() == k,
            k % 128 == 0,
            blocks_per_row == k / 128,
            n_rows * blocks_per_row * 18 <= bytes_len,
            row <= n_rows,
            output@ == Seq::new(
                row as nat,
                |i: int| dot(t, raw_row(t, block_bytes@, i, k), input@, k as nat),
            ),
        decreases n_rows - row,
    {
        let ghost weights = raw_row(t, block_bytes@, row as int, k);
        let mut acc: u32 = 0;
        let mut j: usize = 0;
        while j < k
            invariant
                arith::deterministic(t),
                bytes_len == block_bytes@.len(),
                input@.len() == k,
                k % 128 == 0,
                blocks_per_row == k / 128,
                n_rows * blocks_per_row * 18 <= bytes_len,
                row < n_rows,
                weights == raw_row(t, block_bytes@, row as int, k),
                j <= k,
                acc == dot(t, weights, input@, j as nat),
            decreases k - j,
        {
            let ghost b: int = row * blocks_per_row + j / 128;
            assert(0 <= row * blocks_per_row && 0 <= b < n_rows * blocks_per_row) by {
                assert(row * blocks_per_row + blocks_per_row <= n_rows * blocks_per_row)
                    by (nonlinear_arith)
                    requires
                        row + 1 <= n_rows,
                        blocks_per_row >= 0,
                ;
                assert(row * blocks_per_row >= 0) by (nonlinear_arith);
            }
            let block: usize = row * blocks_per_row + j / 128;
            let w: u32 = weight_of_raw(t, block_bytes, block, j % 128);
            assert(w == weights[j as int]);
            let p: u32 = do_product(t, w, input[j]);
            acc = do_sum(t, acc, p);
            j += 1;
        }
        output.push(acc);
        row += 1;
        assert(output@ =~= Seq::new(
            row as nat,
            |i: int| dot(t, raw_row(t, block_bytes@, i, k), input@, k as nat),
        ));
    }
    Ok(output)
}

} // verus!

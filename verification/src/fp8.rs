//! 8-bit float kernels, shared by the instruction sets.
//!
//! A block holds 32 weights, each the byte that picks a number from a table of
//! 256, times the block's scale. Numbers are held as their bits and an [`Arith`]
//! says what arithmetic makes of them.

use vstd::prelude::*;

use crate::arith;
use crate::arith::{do_fused, do_product, do_sum, zero_lanes, Arith};
use crate::blocks;
use crate::blocks::{half_bits_to_single, QK_FP8};
use crate::error::{KernelError, KernelResult};

verus! {

/// A block of 32 weights in 8-bit floats with four exponent bits.
#[derive(Debug, Clone, Copy, PartialEq, Eq)]
pub struct BlockFP8E4M3 {
    /// Weights, as table indices.
    pub qs: [u8; 32],
    /// Half-precision scale, as bits.
    pub d: u16,
}

/// A block of 32 weights in 8-bit floats with five exponent bits.
#[derive(Debug, Clone, Copy, PartialEq, Eq)]
pub struct BlockFP8E5M2 {
    /// Weights, as table indices.
    pub qs: [u8; 32],
    /// Half-precision scale, as bits.
    pub d: u16,
}

/// A block of 32 scaled bytes.
pub trait ByteBlock {
    /// The bytes.
    spec fn bytes(&self) -> Seq<u8>;

    /// The scale, as half-precision bits.
    spec fn scale(&self) -> u16;

    /// Byte `j`.
    fn byte_at(&self, j: usize) -> (b: u8)
        requires
            j < 32,
        ensures
            b == self.bytes()[j as int],
    ;

    /// The scale, as half-precision bits.
    fn scale_bits(&self) -> (d: u16)
        ensures
            d == self.scale(),
    ;
}

impl ByteBlock for BlockFP8E4M3 {
    open spec fn bytes(&self) -> Seq<u8> {
        self.qs@
    }

    open spec fn scale(&self) -> u16 {
        self.d
    }

    fn byte_at(&self, j: usize) -> (b: u8) {
        self.qs[j]
    }

    fn scale_bits(&self) -> (d: u16) {
        self.d
    }
}

impl ByteBlock for BlockFP8E5M2 {
    open spec fn bytes(&self) -> Seq<u8> {
        self.qs@
    }

    open spec fn scale(&self) -> u16 {
        self.d
    }

    fn byte_at(&self, j: usize) -> (b: u8) {
        self.qs[j]
    }

    fn scale_bits(&self) -> (d: u16) {
        self.d
    }
}

/// Instruction sets that the kernels are written for.
#[derive(Debug, Clone, Copy, PartialEq, Eq, Structural)]
pub enum Lanes {
    /// ARM, four lanes.
    Neon,
    /// x86, eight lanes.
    Avx2,
    /// x86, sixteen lanes.
    Avx512,
}

impl Lanes {
    /// Number of lanes.
    pub open spec fn width(self) -> int {
        match self {
            Lanes::Neon => 4,
            Lanes::Avx2 => 8,
            Lanes::Avx512 => 16,
        }
    }

    fn count(self) -> (w: usize)
        ensures
            w == self.width(),
    {
        match self {
            Lanes::Neon => 4,
            Lanes::Avx2 => 8,
            Lanes::Avx512 => 16,
        }
    }
}

/// What is wrong with the arguments of a matrix-vector product, in order of
/// the checks. Too few blocks are a mismatch of dimensions.
pub open spec fn gemv_fault(
    n_blocks: nat,
    input_len: nat,
    output_len: nat,
    n_rows: usize,
    k: usize,
    qk: usize,
) -> Option<KernelError> {
    let expected_blocks = n_rows * (k / qk);
    if k % qk != 0 {
        Some(KernelError::NotBlockAligned { count: k, block_size: qk })
    } else if input_len < k {
        Some(KernelError::DimensionMismatch { expected: k, got: input_len as usize })
    } else if output_len < n_rows {
        Some(KernelError::BufferTooSmall { needed: n_rows, available: output_len as usize })
    } else if n_blocks < expected_blocks {
        Some(
            KernelError::DimensionMismatch {
                expected: expected_blocks as usize,
                got: n_blocks as usize,
            },
        )
    } else {
        None
    }
}

/// What is wrong with the arguments of a product with `batch` vectors.
pub open spec fn gemm_fault(
    n_blocks: nat,
    input_len: nat,
    output_len: nat,
    n_rows: usize,
    k: usize,
    batch: usize,
    qk: usize,
) -> Option<KernelError> {
    let expected_blocks = n_rows * (k / qk);
    if k % qk != 0 {
        Some(KernelError::NotBlockAligned { count: k, block_size: qk })
    } else if input_len < batch * k {
        Some(
            KernelError::DimensionMismatch {
                expected: (batch * k) as usize,
                got: input_len as usize,
            },
        )
    } else if output_len < batch * n_rows {
        Some(
            KernelError::BufferTooSmall {
                needed: (batch * n_rows) as usize,
                available: output_len as usize,
            },
        )
    } else if n_blocks < expected_blocks {
        Some(
            KernelError::DimensionMismatch {
                expected: expected_blocks as usize,
                got: n_blocks as usize,
            },
        )
    } else {
        None
    }
}

/// Checks the arguments of a matrix-vector product.
pub fn validate_gemv_args(
    n_blocks: usize,
    input_len: usize,
    output_len: usize,
    n_rows: usize,
    k: usize,
    qk: usize,
) -> (r: KernelResult<()>)
    requires
        qk > 0,
        crate::checks::gemv_fits(input_len as nat, output_len as nat, n_rows, k, qk),
    ensures
        r == (match gemv_fault(n_blocks as nat, input_len as nat, output_len as nat, n_rows, k, qk) {
            Some(e) => Err::<(), KernelError>(e),
            None => Ok(()),
        }),
{
    if k % qk != 0 {
        return Err(KernelError::NotBlockAligned { count: k, block_size: qk });
    }
    if input_len < k {
        return Err(KernelError::DimensionMismatch { expected: k, got: input_len });
    }
    if output_len < n_rows {
        return Err(KernelError::BufferTooSmall { needed: n_rows, available: output_len });
    }
    let expected_blocks: usize = n_rows * (k / qk);
    if n_blocks < expected_blocks {
        return Err(KernelError::DimensionMismatch { expected: expected_blocks, got: n_blocks });
    }
    Ok(())
}

/// Checks the arguments of a product with `batch` vectors.
pub fn validate_gemm_args(
    n_blocks: usize,
    inputs_len: usize,
    outputs_len: usize,
    n_rows: usize,
    k: usize,
    batch: usize,
    qk: usize,
) -> (r: KernelResult<()>)
    requires
        qk > 0,
        crate::checks::gemm_fits(inputs_len as nat, outputs_len as nat, batch, n_rows, k, qk),
    ensures
        r == (match gemm_fault(
            n_blocks as nat,
            inputs_len as nat,
            outputs_len as nat,
            n_rows,
            k,
            batch,
            qk,
        ) {
            Some(e) => Err::<(), KernelError>(e),
            None => Ok(()),
        }),
{
    if k % qk != 0 {
        return Err(KernelError::NotBlockAligned { count: k, block_size: qk });
    }
    let input_need: usize = batch * k;
    if inputs_len < input_need {
        return Err(KernelError::DimensionMismatch { expected: input_need, got: inputs_len });
    }
    let output_need: usize = batch * n_rows;
    if outputs_len < output_need {
        return Err(KernelError::BufferTooSmall { needed: output_need, available: outputs_len });
    }
    let expected_blocks: usize = n_rows * (k / qk);
    if n_blocks < expected_blocks {
        return Err(KernelError::DimensionMismatch { expected: expected_blocks, got: n_blocks });
    }
    Ok(())
}

/// Weight `j` of a block: the table's number for its byte, times the scale.
pub open spec fn weight<T: Arith, B: ByteBlock>(t: &T, lut: Seq<u32>, b: B, j: int) -> u32 {
    arith::product(t, blocks::half_to_single(b.scale()), lut[b.bytes()[j] as int])
}

fn weight_of<T: Arith, B: ByteBlock>(t: &T, lut: &[u32; 256], b: &B, j: usize) -> (r: u32)
    requires
        arith::deterministic(t),
        j < 32,
    ensures
        r == weight(t, lut@, *b, j as int),
{
    let scale: u32 = half_bits_to_single(b.scale_bits());
    let byte: u8 = b.byte_at(j);
    do_product(t, scale, lut[byte as usize])
}

/// What is wrong with a dequantisation: the output is too short.
pub open spec fn dequant_fault(n_blocks: nat, output_len: nat) -> Option<KernelError> {
    if output_len < n_blocks * 32 {
        Some(
            KernelError::BufferTooSmall {
                needed: (n_blocks * 32) as usize,
                available: output_len as usize,
            },
        )
    } else {
        None
    }
}

/// Dequantises blocks: weight `j` of block `i` goes to element `32 i + j`;
/// elements past the last block stay as they are.
pub(crate) fn dequant<T: Arith, B: ByteBlock>(
    t: &T,
    lut: &[u32; 256],
    blocks: &[B],
    output: &mut [u32],
) -> (r: KernelResult<()>)
    requires
        arith::deterministic(t),
        blocks@.len() * 32 <= usize::MAX,
    ensures
        r == (match dequant_fault(blocks@.len(), old(output)@.len()) {
            Some(e) => Err::<(), KernelError>(e),
            None => Ok(()),
        }),
        final(output)@ == (if r is Err {
            old(output)@
        } else {
            dequantised(t, lut@, blocks@, old(output)@)
        }),
{
    let needed: usize = blocks.len() * QK_FP8;
    let len: usize = output.len();
    if len < needed {
        return Err(KernelError::BufferTooSmall { needed, available: len });
    }
    let ghost before = output@;
    let ghost goal = dequantised(t, lut@, blocks@, before);
    let mut p: usize = 0;
    while p < needed
        invariant
            arith::deterministic(t),
            needed == blocks@.len() * 32,
            needed <= len,
            len == before.len(),
            output@.len() == len,
            goal == dequantised(t, lut@, blocks@, before),
            p <= needed,
            forall|q: int|
                0 <= q < len ==> #[trigger] output@[q] == (if q < p {
                    goal[q]
                } else {
                    before[q]
                }),
        decreases needed - p,
    {
        let w: u32 = weight_of(t, lut, &blocks[p / 32], p % 32);
        output[p] = w;
        p += 1;
    }
    assert(output@ =~= goal);
    Ok(())
}

/// Output of a dequantisation.
pub open spec fn dequantised<T: Arith, B: ByteBlock>(
    t: &T,
    lut: Seq<u32>,
    blocks: Seq<B>,
    before: Seq<u32>,
) -> Seq<u32> {
    Seq::new(
        before.len(),
        |p: int|
            if p < blocks.len() * 32 {
                weight(t, lut, blocks[p / 32], p % 32)
            } else {
                before[p]
            },
    )
}

/// Lane `l` of an accumulator after `n` rounds of `w` weights.
pub open spec fn lane<T: Arith, B: ByteBlock>(
    t: &T,
    lut: Seq<u32>,
    row: Seq<B>,
    input: Seq<u32>,
    w: int,
    l: int,
    n: nat,
) -> u32
    decreases n,
{
    if n == 0 {
        0
    } else {
        let e = (n - 1) * w + l;
        arith::fused(
            t,
            weight(t, lut, row[e / 32], e % 32),
            input[e],
            lane(t, lut, row, input, w, l, (n - 1) as nat),
        )
    }
}

/// Sum of the lanes: ARM adds neighbours first, x86 adds halves until one lane
/// is left.
pub open spec fn lane_total<T: Arith>(t: &T, lanes: Lanes, v: Seq<u32>) -> u32 {
    match lanes {
        Lanes::Neon => arith::sum(t, arith::sum(t, v[0], v[1]), arith::sum(t, v[2], v[3])),
        Lanes::Avx2 => halves8(t, v),
        Lanes::Avx512 => halves8(t, Seq::new(8, |i: int| arith::sum(t, v[i], v[i + 8]))),
    }
}

/// Sum of eight lanes by halves.
pub open spec fn halves8<T: Arith>(t: &T, v: Seq<u32>) -> u32 {
    arith::sum(
        t,
        arith::sum(t, arith::sum(t, v[0], v[4]), arith::sum(t, v[2], v[6])),
        arith::sum(t, arith::sum(t, v[1], v[5]), arith::sum(t, v[3], v[7])),
    )
}

fn hsum8<T: Arith>(t: &T, v: &[u32]) -> (r: u32)
    requires
        arith::deterministic(t),
        v@.len() == 8,
    ensures
        r == halves8(t, v@),
{
    let s0: u32 = do_sum(t, v[0], v[4]);
    let s1: u32 = do_sum(t, v[1], v[5]);
    let s2: u32 = do_sum(t, v[2], v[6]);
    let s3: u32 = do_sum(t, v[3], v[7]);
    let even: u32 = do_sum(t, s0, s2);
    let odd: u32 = do_sum(t, s1, s3);
    do_sum(t, even, odd)
}

fn hsum<T: Arith>(t: &T, lanes: Lanes, v: &[u32]) -> (r: u32)
    requires
        arith::deterministic(t),
        v@.len() == lanes.width(),
    ensures
        r == lane_total(t, lanes, v@),
{
    match lanes {
        Lanes::Neon => {
            let low: u32 = do_sum(t, v[0], v[1]);
            let high: u32 = do_sum(t, v[2], v[3]);
            do_sum(t, low, high)
        },
        Lanes::Avx2 => hsum8(t, v),
        Lanes::Avx512 => {
            let mut half: Vec<u32> = Vec::with_capacity(8);
            let mut i: usize = 0;
            while i < 8
                invariant
                    arith::deterministic(t),
                    v@.len() == 16,
                    i <= 8,
                    half@ == Seq::new(i as nat, |q: int| arith::sum(t, v@[q], v@[q + 8])),
                decreases 8 - i,
            {
                let s: u32 = do_sum(t, v[i], v[i + 8]);
                half.push(s);
                i += 1;
                assert(half@ =~= Seq::new(i as nat, |q: int| arith::sum(t, v@[q], v@[q + 8])));
            }
            hsum8(t, half.as_slice())
        },
    }
}

/// Product of a row and an input vector.
pub open spec fn row_product<T: Arith, B: ByteBlock>(
    t: &T,
    lut: Seq<u32>,
    row: Seq<B>,
    input: Seq<u32>,
    lanes: Lanes,
) -> u32 {
    let w = lanes.width();
    lane_total(
        t,
        lanes,
        Seq::new(
            w as nat,
            |l: int| lane(t, lut, row, input, w, l, (row.len() * 32 / w as nat) as nat),
        ),
    )
}

/// The row of blocks that output element `i` is made of.
pub open spec fn row_at<B>(blocks: Seq<B>, i: int, n_rows: usize, k: usize) -> Seq<B> {
    let first = (i % n_rows as int) * (k / 32);
    blocks.subrange(first, first + k / 32)
}

/// The vector that output element `i` is made of.
pub open spec fn vector_at(input: Seq<u32>, i: int, n_rows: usize, k: usize) -> Seq<u32> {
    let base = (i / n_rows as int) * k;
    input.subrange(base, base + k)
}

/// Output of a product with `batch` vectors: the first `batch * n_rows`
/// elements are products of a row and a vector, the others stay as they are.
pub open spec fn products<T: Arith, B: ByteBlock>(
    t: &T,
    lut: Seq<u32>,
    blocks: Seq<B>,
    input: Seq<u32>,
    before: Seq<u32>,
    n_rows: usize,
    k: usize,
    batch: usize,
    lanes: Lanes,
) -> Seq<u32> {
    Seq::new(
        before.len(),
        |i: int|
            if i < batch * n_rows {
                row_product(
                    t,
                    lut,
                    row_at(blocks, i, n_rows, k),
                    vector_at(input, i, n_rows, k),
                    lanes,
                )
            } else {
                before[i]
            },
    )
}

fn row_dot<T: Arith, B: ByteBlock>(
    t: &T,
    lut: &[u32; 256],
    blocks: &[B],
    input: &[u32],
    first: usize,
    base: usize,
    k: usize,
    lanes: Lanes,
) -> (r: u32)
    requires
        arith::deterministic(t),
        k % 32 == 0,
        first + k / 32 <= blocks@.len() <= usize::MAX,
        base + k <= input@.len() <= usize::MAX,
    ensures
        r == row_product(
            t,
            lut@,
            blocks@.subrange(first as int, first + k / 32),
            input@.subrange(base as int, base + k),
            lanes,
        ),
{
    let ghost row = blocks@.subrange(first as int, first + k / 32);
    let ghost vector = input@.subrange(base as int, base + k);
    let w: usize = lanes.count();
    let ghost rounds: nat = (k / w) as nat;
    let mut v: Vec<u32> = zero_lanes(w);
    let mut l: usize = 0;
    while l < w
        invariant
            arith::deterministic(t),
            k % 32 == 0,
            first + k / 32 <= blocks@.len() <= usize::MAX,
            base + k <= input@.len() <= usize::MAX,
            row == blocks@.subrange(first as int, first + k / 32),
            vector == input@.subrange(base as int, base + k),
            w == 4 || w == 8 || w == 16,
            rounds == k / w,
            l <= w,
            v@.len() == w,
            forall|q: int|
                0 <= q < l ==> #[trigger] v@[q] == lane(
                    t,
                    lut@,
                    row,
                    vector,
                    w as int,
                    q,
                    rounds,
                ),
        decreases w - l,
    {
        let mut acc: u32 = 0;
        let mut n: usize = 0;
        while n < k / w
            invariant
                arith::deterministic(t),
                k % 32 == 0,
                first + k / 32 <= blocks@.len() <= usize::MAX,
                base + k <= input@.len() <= usize::MAX,
                row == blocks@.subrange(first as int, first + k / 32),
                vector == input@.subrange(base as int, base + k),
                w == 4 || w == 8 || w == 16,
                l < w,
                n <= k / w,
                acc == lane(t, lut@, row, vector, w as int, l as int, n as nat),
            decreases k / w - n,
        {
            assert(n * w + l < k) by (nonlinear_arith)
                requires
                    n < k / w,
                    l < w,
            ;
            let e: usize = n * w + l;
            let block = &blocks[first + e / 32];
            assert(*block == row[e as int / 32]);
            let x: u32 = input[base + e];
            assert(x == vector[e as int]);
            let weight: u32 = weight_of(t, lut, block, e % 32);
            acc = do_fused(t, weight, x, acc);
            n += 1;
        }
        v.set(l, acc);
        l += 1;
    }
    assert(row.len() * 32 == k);
    assert(v@ =~= Seq::new(
        w as nat,
        |l: int| lane(t, lut@, row, vector, w as int, l, (row.len() * 32 / w as nat) as nat),
    ));
    hsum(t, lanes, v.as_slice())
}

/// Row and vector of output element `i` lie inside their buffers.
proof fn lemma_row_inside(
    i: int,
    n_rows: usize,
    k: usize,
    batch: usize,
    n_blocks: nat,
    input_len: nat,
)
    requires
        0 <= i < batch * n_rows,
        n_rows * (k / 32) <= n_blocks,
        batch * k <= input_len,
    ensures
        n_rows > 0,
        0 <= (i % n_rows as int) * (k / 32),
        (i % n_rows as int) * (k / 32) + k / 32 <= n_blocks,
        0 <= (i / n_rows as int) * k,
        (i / n_rows as int) * k + k <= input_len,
{
    assert(n_rows > 0) by (nonlinear_arith)
        requires
            0 <= i < batch * n_rows,
    ;
    let r = i % n_rows as int;
    let v = i / n_rows as int;
    let w = (k / 32) as int;
    assert(0 <= v < batch) by (nonlinear_arith)
        requires
            v == i / n_rows as int,
            0 <= i < batch * n_rows,
            n_rows > 0,
    ;
    assert(0 <= r * w && r * w + w <= n_rows * w) by (nonlinear_arith)
        requires
            0 <= r < n_rows,
            w >= 0,
    ;
    assert(0 <= v * k && v * k + k <= batch * k) by (nonlinear_arith)
        requires
            0 <= v < batch,
            k >= 0,
    ;
}

fn fill_products<T: Arith, B: ByteBlock>(
    t: &T,
    lut: &[u32; 256],
    blocks: &[B],
    input: &[u32],
    output: &mut [u32],
    n_rows: usize,
    k: usize,
    batch: usize,
    lanes: Lanes,
)
    requires
        arith::deterministic(t),
        k % 32 == 0,
        n_rows * (k / 32) <= blocks@.len(),
        batch * k <= input@.len(),
        batch * n_rows <= old(output)@.len(),
    ensures
        final(output)@ == products(
            t,
            lut@,
            blocks@,
            input@,
            old(output)@,
            n_rows,
            k,
            batch,
            lanes,
        ),
{
    let ghost before = output@;
    let n_blocks: usize = blocks.len();
    let input_len: usize = input.len();
    let len: usize = output.len();
    let total: usize = batch * n_rows;
    let ghost goal = products(t, lut@, blocks@, input@, before, n_rows, k, batch, lanes);
    let mut i: usize = 0;
    while i < total
        invariant
            arith::deterministic(t),
            k % 32 == 0,
            n_blocks == blocks@.len(),
            input_len == input@.len(),
            n_rows * (k / 32) <= n_blocks,
            batch * k <= input_len,
            total == batch * n_rows,
            total <= len,
            len == before.len(),
            output@.len() == len,
            goal == products(t, lut@, blocks@, input@, before, n_rows, k, batch, lanes),
            i <= total,
            forall|q: int|
                0 <= q < len ==> #[trigger] output@[q] == (if q < i {
                    goal[q]
                } else {
                    before[q]
                }),
        decreases total - i,
    {
        proof {
            lemma_row_inside(i as int, n_rows, k, batch, n_blocks as nat, input_len as nat);
        }
        let first: usize = (i % n_rows) * (k / 32);
        let base: usize = (i / n_rows) * k;
        let r: u32 = row_dot(t, lut, blocks, input, first, base, k, lanes);
        output[i] = r;
        i += 1;
    }
    assert(output@ =~= goal);
}

/// What a matrix-vector product does to its output and returns.
pub open spec fn gemv_outcome<T: Arith, B: ByteBlock>(
    t: &T,
    lut: Seq<u32>,
    blocks: Seq<B>,
    input: Seq<u32>,
    before: Seq<u32>,
    n_rows: usize,
    k: usize,
    lanes: Lanes,
) -> (KernelResult<()>, Seq<u32>) {
    match gemv_fault(blocks.len(), input.len(), before.len(), n_rows, k, 32) {
        Some(e) => (Err(e), before),
        None => (Ok(()), products(t, lut, blocks, input, before, n_rows, k, 1, lanes)),
    }
}

/// What a product with `batch` vectors does to its output and returns.
pub open spec fn gemm_outcome<T: Arith, B: ByteBlock>(
    t: &T,
    lut: Seq<u32>,
    blocks: Seq<B>,
    input: Seq<u32>,
    before: Seq<u32>,
    n_rows: usize,
    k: usize,
    batch: usize,
    lanes: Lanes,
) -> (KernelResult<()>, Seq<u32>) {
    match gemm_fault(blocks.len(), input.len(), before.len(), n_rows, k, batch, 32) {
        Some(e) => (Err(e), before),
        None => (Ok(()), products(t, lut, blocks, input, before, n_rows, k, batch, lanes)),
    }
}

pub(crate) fn gemv<T: Arith, B: ByteBlock>(
    t: &T,
    lut: &[u32; 256],
    blocks: &[B],
    input: &[u32],
    output: &mut [u32],
    n_rows: usize,
    k: usize,
    lanes: Lanes,
) -> (r: KernelResult<()>)
    requires
        arith::deterministic(t),
        crate::checks::gemv_fits(input@.len(), old(output)@.len(), n_rows, k, 32),
    ensures
        (r, final(output)@) == gemv_outcome(
            t,
            lut@,
            blocks@,
            input@,
            old(output)@,
            n_rows,
            k,
            lanes,
        ),
{
    let output_len: usize = output.len();
    validate_gemv_args(blocks.len(), input.len(), output_len, n_rows, k, QK_FP8)?;
    fill_products(t, lut, blocks, input, output, n_rows, k, 1, lanes);
    Ok(())
}

pub(crate) fn gemm<T: Arith, B: ByteBlock>(
    t: &T,
    lut: &[u32; 256],
    blocks: &[B],
    inputs: &[u32],
    outputs: &mut [u32],
    n_rows: usize,
    k: usize,
    batch: usize,
    lanes: Lanes,
) -> (r: KernelResult<()>)
    requires
        arith::deterministic(t),
        crate::checks::gemm_fits(inputs@.len(), old(outputs)@.len(), batch, n_rows, k, 32),
    ensures
        (r, final(outputs)@) == gemm_outcome(
            t,
            lut@,
            blocks@,
            inputs@,
            old(outputs)@,
            n_rows,
            k,
            batch,
            lanes,
        ),
{
    let outputs_len: usize = outputs.len();
    validate_gemm_args(blocks.len(), inputs.len(), outputs_len, n_rows, k, batch, QK_FP8)?;
    fill_products(t, lut, blocks, inputs, outputs, n_rows, k, batch, lanes);
    Ok(())
}

/// A product with many vectors is, vector by vector, the matrix-vector product.
pub proof fn law_product_is_per_vector<T: Arith, B: ByteBlock>(
    t: &T,
    lut: Seq<u32>,
    blocks: Seq<B>,
    input: Seq<u32>,
    before: Seq<u32>,
    alone: Seq<u32>,
    n_rows: usize,
    k: usize,
    batch: usize,
    lanes: Lanes,
    vector: int,
    row: int,
)
    requires
        0 <= vector < batch,
        0 <= row < n_rows,
        n_rows * (k / 32) <= blocks.len(),
        batch * k <= input.len(),
        batch * n_rows <= before.len(),
        n_rows <= alone.len(),
    ensures
        products(t, lut, blocks, input, before, n_rows, k, batch, lanes)[vector * n_rows + row]
            == products(
            t,
            lut,
            blocks,
            input.subrange(vector * k, vector * k + k),
            alone,
            n_rows,
            k,
            1,
            lanes,
        )[row],
{
    let i = vector * n_rows + row;
    assert(0 <= i < batch * n_rows && i / n_rows as int == vector && i % n_rows as int == row) by {
        vstd::arithmetic::div_mod::lemma_fundamental_div_mod_converse(
            i,
            n_rows as int,
            vector,
            row,
        );
        assert(0 <= i < batch * n_rows) by (nonlinear_arith)
            requires
                i == vector * n_rows + row,
                0 <= vector < batch,
                0 <= row < n_rows,
        ;
    }
    assert(row / n_rows as int == 0 && row % n_rows as int == row) by {
        vstd::arithmetic::div_mod::lemma_fundamental_div_mod_converse(row, n_rows as int, 0, row);
    }
    lemma_row_inside(i, n_rows, k, batch, blocks.len(), input.len());
    let own = input.subrange(vector * k, vector * k + k);
    assert(vector_at(own, row, n_rows, k) =~= vector_at(input, i, n_rows, k));
}

/// The instruction sets dequantise alike: a dequantised weight is the one that
/// every product uses.
pub proof fn law_products_use_dequantised_weights<T: Arith, B: ByteBlock>(
    t: &T,
    lut: Seq<u32>,
    row: Seq<B>,
    input: Seq<u32>,
    before: Seq<u32>,
    lanes: Lanes,
    l: int,
    n: nat,
)
    requires
        0 <= l < lanes.width(),
        n > 0,
        n * lanes.width() <= row.len() * 32 <= before.len(),
    ensures
        ({
            let w = lanes.width();
            let e = (n - 1) * w + l;
            lane(t, lut, row, input, w, l, n) == arith::fused(
                t,
                dequantised(t, lut, row, before)[e],
                input[e],
                lane(t, lut, row, input, w, l, (n - 1) as nat),
            )
        }),
{
    let w = lanes.width();
    let e = (n - 1) * w + l;
    assert((n - 1) * w + w == n * w) by (nonlinear_arith);
    assert((n - 1) * w >= 0) by (nonlinear_arith)
        requires
            n > 0,
            w > 0,
    ;
    assert(0 <= e < row.len() * 32);
}

} // verus!

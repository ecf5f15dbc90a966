//! Aligned buffers, block packing, prefetch hints and working-set estimates.

use vstd::prelude::*;

use crate::blocks::{BlockQ1_0G128, QK1_0_G128};
use crate::error::{KernelError, KernelResult};
use crate::prefetch::{Arch, Hint, Prefetch};

verus! {

/// Bytes of a cache line, to which buffers are aligned.
pub const CACHE_LINE_BYTES: usize = 64;

/// Bytes of a 1-bit block.
pub const BLOCK_SIZE_BYTES: usize = 18;

/// Address of the first element of a vector's storage, by `Vec::as_ptr`. Every
/// such address is a multiple of the element's alignment, four bytes. Which
/// address it is rests on the allocator; it stays the same for as long as the
/// vector neither grows nor shrinks.
#[verifier::external_body]
fn base_address(storage: &Vec<u32>) -> (a: usize)
    ensures
        a % 4 == 0,
{
    storage.as_ptr() as usize
}

/// Storage of `len` elements was found at that address.
pub closed spec fn found_at(a: usize, len: nat) -> bool {
    exists|storage: Vec<u32>| #[trigger]
        call_ensures(base_address, (&storage,), a) && storage@.len() == len
}

/// A buffer of single-precision numbers, as bits, that starts on a cache line.
///
/// The storage has a cache line to spare; the elements start at the first
/// aligned word.
#[derive(Debug)]
pub struct AlignedBuffer {
    storage: Vec<u32>,
    base: usize,
    offset: usize,
    len: usize,
}

/// Words to skip from an address to the next cache line.
pub open spec fn words_to_line(base: usize) -> int {
    if base % 64 == 0 {
        0
    } else {
        (64 - base % 64) / 4
    }
}

impl View for AlignedBuffer {
    type V = Seq<u32>;

    closed spec fn view(&self) -> Seq<u32> {
        self.storage@.subrange(self.offset as int, self.offset + self.len)
    }
}

impl AlignedBuffer {
    /// The recorded base is the address that was given for this very storage. It
    /// is of a new buffer; writes to the elements move nothing.
    pub closed spec fn own_base(&self) -> bool {
        call_ensures(base_address, (&self.storage,), self.base)
    }

    /// The recorded base is the address that was given for storage of this
    /// length, which has neither grown nor shrunk since.
    pub closed spec fn at_its_base(&self) -> bool {
        found_at(self.base, self.storage@.len())
    }

    /// The elements lie inside the storage and start on a cache line.
    pub closed spec fn wf(&self) -> bool {
        &&& self.at_its_base()
        &&& self.offset + self.len <= self.storage@.len()
        &&& self.offset + self.len <= usize::MAX
        &&& (self.base + 4 * self.offset) % 64 == 0
    }

    /// Address of the first element: that of the storage, and what is skipped.
    pub closed spec fn address(&self) -> int {
        self.base + 4 * self.offset
    }

    /// A buffer of `size` zeros.
    pub fn new(size: usize) -> (b: Self)
        requires
            size * 4 + 64 <= isize::MAX,
        ensures
            b.wf(),
            b.own_base(),
            b@ == Seq::new(size as nat, |i: int| 0u32),
            b.address() % 64 == 0,
    {
        let total: usize = size + CACHE_LINE_BYTES / 4;
        let mut storage: Vec<u32> = Vec::with_capacity(total);
        let mut i: usize = 0;
        while i < total
            invariant
                i <= total,
                storage@ == Seq::new(i as nat, |j: int| 0u32),
            decreases total - i,
        {
            storage.push(0);
            i += 1;
            assert(storage@ =~= Seq::new(i as nat, |j: int| 0u32));
        }
        let base: usize = base_address(&storage);
        assert(found_at(base, storage@.len()));
        let over: usize = base % CACHE_LINE_BYTES;
        let offset: usize = if over == 0 {
            0
        } else {
            (CACHE_LINE_BYTES - over) / 4
        };
        let b = AlignedBuffer { storage, base, offset, len: size };
        assert(offset == words_to_line(base) && offset < 16);
        assert((base + 4 * offset) % 64 == 0);
        assert(b@ =~= Seq::new(size as nat, |i: int| 0u32));
        b
    }

    /// The elements.
    pub fn as_slice(&self) -> (s: &[u32])
        requires
            self.wf(),
        ensures
            s@ == self@,
    {
        vstd::slice::slice_subrange(self.storage.as_slice(), self.offset, self.offset + self.len)
    }

    /// The elements, to be written. A slice keeps its length.
    pub fn as_mut_slice(&mut self) -> (s: &mut [u32])
        requires
            old(self).wf(),
        ensures
            s@ == old(self)@,
            final(s)@.len() == s@.len() ==> final(self).wf() && final(self)@ == final(s)@
                && final(self).address() == old(self).address(),
    {
        let offset: usize = self.offset;
        let len: usize = self.len;
        let (_, tail) = self.storage.as_mut_slice().split_at_mut(offset);
        let (s, _) = tail.split_at_mut(len);
        s
    }

    /// Number of elements.
    pub fn len(&self) -> (n: usize)
        requires
            self.wf(),
        ensures
            n == self@.len(),
    {
        self.len
    }

    /// There are no elements.
    pub fn is_empty(&self) -> (b: bool)
        requires
            self.wf(),
        ensures
            b == (self@.len() == 0),
    {
        self.len == 0
    }

    /// The first element is on a cache line. It always is.
    pub fn is_aligned(&self) -> (b: bool)
        requires
            self.wf(),
        ensures
            self.at_its_base(),
            b == (self.address() % 64 == 0),
            b,
    {
        let over: usize = self.base % CACHE_LINE_BYTES;
        let past: usize = (self.offset % 16) * 4;
        assert((over + past) as int % 64 == (self.base + 4 * self.offset) % 64);
        (over + past) % CACHE_LINE_BYTES == 0
    }

    /// Copies a slice to the start of the buffer, as far as it fits.
    pub fn copy_from_slice(&mut self, src: &[u32])
        requires
            old(self).wf(),
        ensures
            final(self).wf(),
            final(self).address() == old(self).address(),
            final(self)@ == Seq::new(
                old(self)@.len(),
                |i: int|
                    if i < src@.len() {
                        src@[i]
                    } else {
                        old(self)@[i]
                    },
            ),
    {
        let ghost before = *self;
        let n: usize = if src.len() < self.len {
            src.len()
        } else {
            self.len
        };
        let mut i: usize = 0;
        while i < n
            invariant
                before.wf(),
                n <= src@.len(),
                n <= before.len,
                self.base == before.base,
                self.offset == before.offset,
                self.len == before.len,
                self.storage@.len() == before.storage@.len(),
                i <= n,
                forall|q: int|
                    0 <= q < before.storage@.len() ==> #[trigger] self.storage@[q] == (if before.offset
                        <= q < before.offset + i {
                        src@[q - before.offset]
                    } else {
                        before.storage@[q]
                    }),
            decreases n - i,
        {
            self.storage.set(self.offset + i, src[i]);
            i += 1;
        }
        assert(self@ =~= Seq::new(
            before@.len(),
            |i: int|
                if i < src@.len() {
                    src@[i]
                } else {
                    before@[i]
                },
        ));
    }
}

/// Rows of a tile.
pub const TILE_ROWS: usize = 32;

/// What is wrong with the arguments of packing or unpacking.
pub open spec fn pack_fault(n_blocks: nat, n_rows: usize, k: usize) -> Option<KernelError> {
    let total = n_rows * (k / 128);
    if k % 128 != 0 {
        Some(KernelError::NotBlockAligned { count: k, block_size: 128 })
    } else if n_blocks < total {
        Some(KernelError::BufferTooSmall { needed: total as usize, available: n_blocks as usize })
    } else {
        None
    }
}

/// Rows of tile `t`: 32, fewer in the last.
pub open spec fn tile_rows(t: int, n_rows: int) -> int {
    if n_rows - 32 * t < 32 {
        n_rows - 32 * t
    } else {
        32
    }
}

/// Where block `b` of row `row` goes: tiles follow each other, and in a tile
/// the first blocks of all its rows come first, then all second blocks.
pub open spec fn packed_at(row: int, b: int, n_rows: int, per_row: int) -> int {
    let t = row / 32;
    32 * t * per_row + b * tile_rows(t, n_rows) + row % 32
}

/// Which block, counted row by row, lies at `p` of the packed blocks.
pub open spec fn packed_from(p: int, n_rows: int, per_row: int) -> int {
    let t = p / (32 * per_row);
    let r = p % (32 * per_row);
    let rows = tile_rows(t, n_rows);
    (32 * t + r % rows) * per_row + r / rows
}

/// Packed blocks.
pub open spec fn packed(blocks: Seq<BlockQ1_0G128>, n_rows: usize, k: usize) -> Seq<
    BlockQ1_0G128,
> {
    let per_row = (k / 128) as int;
    Seq::new(
        (n_rows * per_row) as nat,
        |p: int| blocks[packed_from(p, n_rows as int, per_row)],
    )
}

/// Unpacked blocks.
pub open spec fn unpacked(blocks: Seq<BlockQ1_0G128>, n_rows: usize, k: usize) -> Seq<
    BlockQ1_0G128,
> {
    let per_row = (k / 128) as int;
    Seq::new(
        (n_rows * per_row) as nat,
        |i: int| blocks[packed_at(i / per_row, i % per_row, n_rows as int, per_row)],
    )
}

/// Place and parts of a packed position: tile, block index and row in the tile.
proof fn lemma_parts(t: int, b: int, r: int, n_rows: int, per_row: int)
    requires
        0 <= t,
        32 * t < n_rows,
        0 <= b < per_row,
        0 <= r < tile_rows(t, n_rows),
    ensures
        ({
            let rows = tile_rows(t, n_rows);
            let p = 32 * t * per_row + b * rows + r;
            &&& p / (32 * per_row) == t
            &&& p % (32 * per_row) == b * rows + r
            &&& (b * rows + r) / rows == b
            &&& (b * rows + r) % rows == r
            &&& 0 <= p < n_rows * per_row
            &&& 0 <= (32 * t + r) * per_row + b < n_rows * per_row
        }),
{
    let rows = tile_rows(t, n_rows);
    let q = b * rows + r;
    let p = 32 * t * per_row + q;
    assert(0 <= q < per_row * rows) by (nonlinear_arith)
        requires
            q == b * rows + r,
            0 <= b < per_row,
            0 <= r < rows,
    ;
    assert(per_row * rows <= 32 * per_row) by (nonlinear_arith)
        requires
            rows <= 32,
            per_row >= 0,
    ;
    assert(t * (32 * per_row) == 32 * t * per_row) by (nonlinear_arith);
    vstd::arithmetic::div_mod::lemma_fundamental_div_mod_converse(p, 32 * per_row, t, q);
    vstd::arithmetic::div_mod::lemma_fundamental_div_mod_converse(q, rows, b, r);
    assert(32 * t * per_row + rows * per_row <= n_rows * per_row) by (nonlinear_arith)
        requires
            32 * t + rows <= n_rows,
            per_row >= 0,
    ;
    assert(per_row * rows == rows * per_row) by (nonlinear_arith);
    assert(0 <= 32 * t * per_row) by (nonlinear_arith)
        requires
            0 <= t,
            per_row >= 0,
    ;
    assert(0 <= (32 * t + r) * per_row && (32 * t + r) * per_row + per_row <= n_rows * per_row)
        by (nonlinear_arith)
        requires
            0 <= 32 * t + r < n_rows,
            per_row >= 0,
    ;
}

/// Every position of the packed blocks has a tile, a block index and a row in
/// the tile.
proof fn lemma_position(p: int, n_rows: int, per_row: int) -> (parts: (int, int, int))
    requires
        0 <= p < n_rows * per_row,
        n_rows > 0,
        per_row > 0,
    ensures
        ({
            let (t, b, r) = parts;
            &&& 0 <= t
            &&& 32 * t < n_rows
            &&& 0 <= b < per_row
            &&& 0 <= r < tile_rows(t, n_rows)
            &&& p == 32 * t * per_row + b * tile_rows(t, n_rows) + r
        }),
{
    let size = 32 * per_row;
    let t = p / size;
    let q = p % size;
    vstd::arithmetic::div_mod::lemma_fundamental_div_mod(p, size);
    vstd::arithmetic::div_mod::lemma_mod_bound(p, size);
    assert(0 <= t) by (nonlinear_arith)
        requires
            t == p / size,
            p >= 0,
            size > 0,
    ;
    assert(32 * t < n_rows) by (nonlinear_arith)
        requires
            p == size * t + q,
            q >= 0,
            size == 32 * per_row,
            p < n_rows * per_row,
            per_row > 0,
    ;
    let rows = tile_rows(t, n_rows);
    assert(q < rows * per_row) by (nonlinear_arith)
        requires
            p == size * t + q,
            size == 32 * per_row,
            p < n_rows * per_row,
            q < size,
            rows == 32 || rows == n_rows - 32 * t,
            per_row > 0,
    ;
    let b = q / rows;
    let r = q % rows;
    vstd::arithmetic::div_mod::lemma_fundamental_div_mod(q, rows);
    vstd::arithmetic::div_mod::lemma_mod_bound(q, rows);
    assert(0 <= b < per_row) by (nonlinear_arith)
        requires
            q == rows * b + r,
            0 <= r,
            0 <= q < rows * per_row,
            b == q / rows,
            rows > 0,
    ;
    assert(size * t == 32 * t * per_row) by (nonlinear_arith)
        requires
            size == 32 * per_row,
    ;
    assert(rows * b == b * rows) by (nonlinear_arith);
    (t, b, r)
}

/// The source of a packed position lies among the blocks.
proof fn lemma_packed_from_inside(p: int, n_rows: int, per_row: int)
    requires
        0 <= p < n_rows * per_row,
        n_rows > 0,
        per_row > 0,
    ensures
        0 <= packed_from(p, n_rows, per_row) < n_rows * per_row,
        tile_rows(p / (32 * per_row), n_rows) > 0,
{
    let (t, b, r) = lemma_position(p, n_rows, per_row);
    lemma_parts(t, b, r, n_rows, per_row);
}

/// The place of a block lies among the packed blocks.
proof fn lemma_packed_at_inside(row: int, b: int, n_rows: int, per_row: int)
    requires
        0 <= row < n_rows,
        0 <= b < per_row,
    ensures
        0 <= packed_at(row, b, n_rows, per_row) < n_rows * per_row,
{
    lemma_parts(row / 32, b, row % 32, n_rows, per_row);
}

/// In each tile the first blocks of its rows come first, then the second, and
/// so on.
pub proof fn law_tile_layout(
    blocks: Seq<BlockQ1_0G128>,
    n_rows: usize,
    k: usize,
    t: int,
    b: int,
    r: int,
)
    requires
        0 <= t,
        32 * t < n_rows,
        0 <= b < k / 128,
        0 <= r < tile_rows(t, n_rows as int),
    ensures
        packed(blocks, n_rows, k)[32 * t * (k / 128) + b * tile_rows(t, n_rows as int) + r]
            == blocks[(32 * t + r) * (k / 128) + b],
{
    lemma_parts(t, b, r, n_rows as int, (k / 128) as int);
}

/// Unpacking undoes packing.
pub proof fn law_unpack_undoes_pack(blocks: Seq<BlockQ1_0G128>, n_rows: usize, k: usize)
    requires
        n_rows * (k / 128) <= blocks.len(),
    ensures
        unpacked(packed(blocks, n_rows, k), n_rows, k) == blocks.subrange(
            0,
            n_rows * (k / 128),
        ),
{
    let per_row = (k / 128) as int;
    let n = n_rows as int;
    let total = n * per_row;
    assert(total >= 0) by (nonlinear_arith)
        requires
            total == n * per_row,
            n >= 0,
            per_row >= 0,
    ;
    assert forall|i: int| 0 <= i < total implies unpacked(
        packed(blocks, n_rows, k),
        n_rows,
        k,
    )[i] == blocks[i] by {
        assert(per_row > 0 && n > 0) by (nonlinear_arith)
            requires
                0 <= i < n * per_row,
                n >= 0,
                per_row >= 0,
        ;
        let row = i / per_row;
        let b = i % per_row;
        vstd::arithmetic::div_mod::lemma_fundamental_div_mod(i, per_row);
        vstd::arithmetic::div_mod::lemma_mod_bound(i, per_row);
        assert(0 <= row < n) by (nonlinear_arith)
            requires
                i == per_row * row + b,
                0 <= b,
                0 <= i < n * per_row,
                row == i / per_row,
                per_row > 0,
        ;
        lemma_parts(row / 32, b, row % 32, n, per_row);
        assert(per_row * row == row * per_row) by (nonlinear_arith);
    }
    assert(unpacked(packed(blocks, n_rows, k), n_rows, k) =~= blocks.subrange(0, total));
}

/// Packing undoes unpacking.
pub proof fn law_pack_undoes_unpack(blocks: Seq<BlockQ1_0G128>, n_rows: usize, k: usize)
    requires
        n_rows * (k / 128) <= blocks.len(),
    ensures
        packed(unpacked(blocks, n_rows, k), n_rows, k) == blocks.subrange(
            0,
            n_rows * (k / 128),
        ),
{
    let per_row = (k / 128) as int;
    let n = n_rows as int;
    let total = n * per_row;
    assert(total >= 0) by (nonlinear_arith)
        requires
            total == n * per_row,
            n >= 0,
            per_row >= 0,
    ;
    assert forall|p: int| 0 <= p < total implies packed(
        unpacked(blocks, n_rows, k),
        n_rows,
        k,
    )[p] == blocks[p] by {
        assert(per_row > 0 && n > 0) by (nonlinear_arith)
            requires
                0 <= p < n * per_row,
                n >= 0,
                per_row >= 0,
        ;
        let (t, b, r) = lemma_position(p, n, per_row);
        lemma_parts(t, b, r, n, per_row);
        let row = 32 * t + r;
        let i = row * per_row + b;
        vstd::arithmetic::div_mod::lemma_fundamental_div_mod_converse(i, per_row, row, b);
        assert(row / 32 == t && row % 32 == r);
    }
    assert(packed(unpacked(blocks, n_rows, k), n_rows, k) =~= blocks.subrange(0, total));
}

fn check_blocks(n_blocks: usize, n_rows: usize, k: usize) -> (r: KernelResult<usize>)
    requires
        k % 128 == 0 ==> n_rows * (k / 128) <= usize::MAX,
    ensures
        r == (match pack_fault(n_blocks as nat, n_rows, k) {
            Some(e) => Err::<usize, KernelError>(e),
            None => Ok((n_rows * (k / 128)) as usize),
        }),
{
    if k % QK1_0_G128 != 0 {
        return Err(KernelError::NotBlockAligned { count: k, block_size: QK1_0_G128 });
    }
    let total: usize = n_rows * (k / QK1_0_G128);
    if n_blocks < total {
        return Err(KernelError::BufferTooSmall { needed: total, available: n_blocks });
    }
    Ok(total)
}

/// Reorders the blocks of a matrix into tiles of 32 rows in which blocks of
/// consecutive rows are adjacent.
pub fn pack_blocks_for_gemv(blocks: &[BlockQ1_0G128], n_rows: usize, k: usize) -> (r: KernelResult<
    Vec<BlockQ1_0G128>,
>)
    requires
        k % 128 == 0 ==> n_rows * (k / 128) <= usize::MAX,
    ensures
        match pack_fault(blocks@.len(), n_rows, k) {
            Some(e) => r matches Err(f) && f == e,
            None => r matches Ok(v) && v@ == packed(blocks@, n_rows, k),
        },
{
    let n_blocks: usize = blocks.len();
    let total: usize = check_blocks(n_blocks, n_rows, k)?;
    let per_row: usize = k / QK1_0_G128;
    let ghost goal = packed(blocks@, n_rows, k);
    let mut v: Vec<BlockQ1_0G128> = Vec::with_capacity(total);
    let mut p: usize = 0;
    while p < total
        invariant
            n_blocks == blocks@.len(),
            total == n_rows * per_row,
            total <= n_blocks,
            per_row == k / 128,
            32 * per_row <= usize::MAX,
            goal == packed(blocks@, n_rows, k),
            p <= total,
            v@ == goal.subrange(0, p as int),
        decreases total - p,
    {
        assert(per_row > 0 && n_rows > 0) by (nonlinear_arith)
            requires
                p < n_rows * per_row,
                n_rows >= 0,
                per_row >= 0,
        ;
        proof {
            let (t, b, r) = lemma_position(p as int, n_rows as int, per_row as int);
            lemma_parts(t, b, r, n_rows as int, per_row as int);
            lemma_packed_from_inside(p as int, n_rows as int, per_row as int);
        }
        let tile: usize = p / (TILE_ROWS * per_row);
        let rest: usize = p % (TILE_ROWS * per_row);
        let left: usize = n_rows - TILE_ROWS * tile;
        let rows: usize = if left < TILE_ROWS {
            left
        } else {
            TILE_ROWS
        };
        let ghost from = packed_from(p as int, n_rows as int, per_row as int);
        let row: usize = TILE_ROWS * tile + rest % rows;
        assert(row * per_row <= from && from == row * per_row + rest / rows);
        v.push(blocks[row * per_row + rest / rows]);
        p += 1;
        assert(v@ =~= goal.subrange(0, p as int));
    }
    assert(v@ =~= goal);
    Ok(v)
}

/// Restores the row-by-row order of packed blocks.
pub fn unpack_blocks_from_gemv(packed_blocks: &[BlockQ1_0G128], n_rows: usize, k: usize) -> (r:
    KernelResult<Vec<BlockQ1_0G128>>)
    requires
        k % 128 == 0 ==> n_rows * (k / 128) <= usize::MAX,
    ensures
        match pack_fault(packed_blocks@.len(), n_rows, k) {
            Some(e) => r matches Err(f) && f == e,
            None => r matches Ok(v) && v@ == unpacked(packed_blocks@, n_rows, k),
        },
{
    let n_blocks: usize = packed_blocks.len();
    let total: usize = check_blocks(n_blocks, n_rows, k)?;
    let per_row: usize = k / QK1_0_G128;
    let ghost goal = unpacked(packed_blocks@, n_rows, k);
    let mut v: Vec<BlockQ1_0G128> = Vec::with_capacity(total);
    let mut i: usize = 0;
    while i < total
        invariant
            n_blocks == packed_blocks@.len(),
            total == n_rows * per_row,
            total <= n_blocks,
            per_row == k / 128,
            goal == unpacked(packed_blocks@, n_rows, k),
            i <= total,
            v@ == goal.subrange(0, i as int),
        decreases total - i,
    {
        assert(per_row > 0 && n_rows > 0) by (nonlinear_arith)
            requires
                i < n_rows * per_row,
                n_rows >= 0,
                per_row >= 0,
        ;
        let row: usize = i / per_row;
        let b: usize = i % per_row;
        assert(row < n_rows) by (nonlinear_arith)
            requires
                row == i / per_row,
                i < n_rows * per_row,
                per_row > 0,
        ;
        let tile: usize = row / TILE_ROWS;
        let left: usize = n_rows - TILE_ROWS * tile;
        let rows: usize = if left < TILE_ROWS {
            left
        } else {
            TILE_ROWS
        };
        let ghost at = packed_at(row as int, b as int, n_rows as int, per_row as int);
        proof {
            lemma_packed_at_inside(row as int, b as int, n_rows as int, per_row as int);
            assert(0 <= TILE_ROWS * tile * per_row && 0 <= b * rows) by (nonlinear_arith)
                requires
                    TILE_ROWS >= 0,
                    tile >= 0,
                    per_row >= 0,
                    b >= 0,
                    rows >= 0,
            ;
        }
        v.push(packed_blocks[TILE_ROWS * tile * per_row + b * rows + row % TILE_ROWS]);
        i += 1;
        assert(v@ =~= goal.subrange(0, i as int));
    }
    assert(v@ =~= goal);
    Ok(v)
}

/// Prefetch of an address that is to be read, to all caches.
pub fn prefetch_read(arch: Arch, address: usize) -> (p: Option<Prefetch>)
    ensures
        p == (match arch {
            Arch::X86_64 => Some(Prefetch { address, hint: Hint::X86T0 }),
            Arch::Aarch64 => Some(
                Prefetch { address, hint: Hint::Arm { write: false, locality: 3 } },
            ),
            Arch::Other => None,
        }),
{
    match arch {
        Arch::X86_64 => Some(Prefetch { address, hint: Hint::X86T0 }),
        Arch::Aarch64 => Some(Prefetch { address, hint: Hint::Arm { write: false, locality: 3 } }),
        Arch::Other => None,
    }
}

/// Prefetch of an address that is to be written, to all caches.
pub fn prefetch_write(arch: Arch, address: usize) -> (p: Option<Prefetch>)
    ensures
        p == (match arch {
            Arch::X86_64 => Some(Prefetch { address, hint: Hint::X86T0 }),
            Arch::Aarch64 => Some(
                Prefetch { address, hint: Hint::Arm { write: true, locality: 3 } },
            ),
            Arch::Other => None,
        }),
{
    match arch {
        Arch::X86_64 => Some(Prefetch { address, hint: Hint::X86T0 }),
        Arch::Aarch64 => Some(Prefetch { address, hint: Hint::Arm { write: true, locality: 3 } }),
        Arch::Other => None,
    }
}

/// Bytes that a product touches: weight blocks, input and output.
pub open spec fn working_set(n_rows: usize, k: usize) -> int {
    n_rows * (k / 128) * 18 + k * 4 + n_rows * 4
}

/// Bytes that a product touches: weight blocks, input and output.
pub fn estimate_working_set_bytes(n_rows: usize, k: usize) -> (b: usize)
    requires
        working_set(n_rows, k) <= usize::MAX,
    ensures
        b == working_set(n_rows, k),
{
    let blocks_per_row: usize = k / QK1_0_G128;
    proof {
        assert(0 <= n_rows * blocks_per_row <= n_rows * blocks_per_row * 18) by (nonlinear_arith)
            requires
                n_rows >= 0,
                blocks_per_row >= 0,
        ;
    }
    let weight_bytes: usize = n_rows * blocks_per_row * BLOCK_SIZE_BYTES;
    weight_bytes + k * 4 + n_rows * 4
}

/// The working set fits in a first-level cache of 32 KiB.
pub fn fits_in_l1(n_rows: usize, k: usize) -> (b: bool)
    requires
        working_set(n_rows, k) <= usize::MAX,
    ensures
        b == (working_set(n_rows, k) <= 32768),
{
    estimate_working_set_bytes(n_rows, k) <= 32768
}

/// The working set fits in a second-level cache of 256 KiB.
pub fn fits_in_l2(n_rows: usize, k: usize) -> (b: bool)
    requires
        working_set(n_rows, k) <= usize::MAX,
    ensures
        b == (working_set(n_rows, k) <= 262144),
{
    estimate_working_set_bytes(n_rows, k) <= 262144
}

/// The working set grows with rows and columns: what fits stays fitting when
/// either shrinks.
pub proof fn law_working_set_grows(n_rows: usize, k: usize, more_rows: usize, more_k: usize)
    requires
        n_rows <= more_rows,
        k <= more_k,
    ensures
        working_set(n_rows, k) <= working_set(more_rows, more_k),
{
    let a = (k / 128) as int;
    let b = (more_k / 128) as int;
    assert(n_rows * a * 18 <= more_rows * b * 18) by (nonlinear_arith)
        requires
            0 <= n_rows <= more_rows,
            0 <= a <= b,
    ;
}

} // verus!

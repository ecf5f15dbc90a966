//! Products spread over threads and cache tiles.
//!
//! Each function checks its arguments and says which calls of the kernel make
//! up the product. Groups of calls are independent; calls of a group follow
//! each other.

use vstd::prelude::*;

use crate::arith::Arith;
use crate::blocks::{BlockQ1_0G128, QK1_0_G128};
use crate::checks;
use crate::checks::{validate_gemm, validate_gemv};
use crate::error::KernelResult;
use crate::simd_avx2;

verus! {

/// Rows from which a tiled matrix-vector product is spread over threads.
pub const PAR_TILED_MIN_ROWS: usize = 128;

/// Vectors from which a tiled product is spread over threads.
pub const PAR_TILED_MIN_BATCH: usize = 4;

/// Rows up to which the kernel is called directly.
pub const DIRECT_DISPATCH_MAX_ROWS: usize = 32;

/// Rows up to which rows are spread over threads without tiles.
pub const MEDIUM_PARALLEL_MAX_ROWS: usize = 256;

/// One call of a kernel: some rows times one vector.
#[derive(Debug, Clone, Copy, PartialEq, Eq, Structural)]
pub struct Tile {
    /// First element of the vector.
    pub input_start: usize,
    /// First block of the rows.
    pub block_start: usize,
    /// Block after the last one of the rows.
    pub block_end: usize,
    /// First element of the output.
    pub out_start: usize,
    /// Number of rows.
    pub rows: usize,
}

/// How a product is carried out.
#[derive(Debug)]
pub enum TiledRun {
    /// Tile by tile on one thread.
    Sequential,
    /// Groups of calls on as many threads as there are.
    Parallel(Vec<Vec<Tile>>),
}

/// Parts of size `size` that `n` is cut into.
pub open spec fn parts(n: int, size: int) -> int {
    (n + size - 1) / size
}

/// Length of part `i` of `n` cut into parts of size `size`.
pub open spec fn part_len(n: int, size: int, i: int) -> int {
    if n - i * size < size {
        n - i * size
    } else {
        size
    }
}

/// Tile `j` of `rows` rows from row `first` on.
pub open spec fn tile_at(
    input_start: int,
    first: int,
    rows: int,
    out: int,
    l1: int,
    per_row: int,
    j: int,
) -> Tile {
    let row = first + j * l1;
    let len = part_len(rows, l1, j);
    Tile {
        input_start: input_start as usize,
        block_start: (row * per_row) as usize,
        block_end: ((row + len) * per_row) as usize,
        out_start: (out + j * l1) as usize,
        rows: len as usize,
    }
}

/// The tiles of `rows` rows from row `first` on.
pub open spec fn tiles(
    input_start: int,
    first: int,
    rows: int,
    out: int,
    l1: int,
    per_row: int,
) -> Seq<Tile> {
    Seq::new(
        parts(rows, l1) as nat,
        |j: int| tile_at(input_start, first, rows, out, l1, per_row, j),
    )
}

/// Every position lies in exactly one part.
pub proof fn law_parts_are_a_partition(n: int, size: int, i: int)
    requires
        0 <= i < n,
        size > 0,
    ensures
        0 <= i / size < parts(n, size),
        (i / size) * size <= i < (i / size) * size + part_len(n, size, i / size),
        forall|q: int|
            0 <= q < parts(n, size) && #[trigger] (q * size) <= i < q * size + part_len(n, size, q)
                ==> q == i / size,
{
    let p = i / size;
    let g = parts(n, size);
    vstd::arithmetic::div_mod::lemma_fundamental_div_mod(i, size);
    vstd::arithmetic::div_mod::lemma_mod_bound(i, size);
    assert(p * size <= i < p * size + size) by (nonlinear_arith)
        requires
            i == size * p + i % size,
            0 <= i % size < size,
    ;
    assert(0 <= p < g) by (nonlinear_arith)
        requires
            p * size <= i < n,
            i >= 0,
            i < p * size + size,
            g == (n + size - 1) / size,
            size > 0,
    ;
    assert forall|q: int|
        0 <= q < g && #[trigger] (q * size) <= i < q * size + part_len(n, size, q) implies q
        == p by {
        vstd::arithmetic::div_mod::lemma_fundamental_div_mod_converse(i, size, q, i - q * size);
    }
}

/// Part `j` is not empty and lies inside.
proof fn lemma_part_inside(n: int, size: int, j: int)
    requires
        size > 0,
        0 <= j < parts(n, size),
        n >= 0,
    ensures
        0 <= j * size < n,
        0 < part_len(n, size, j) <= size,
        j * size + part_len(n, size, j) <= n,
        j + 1 < parts(n, size) ==> part_len(n, size, j) == size,
{
    let g = parts(n, size);
    assert(j * size < n) by (nonlinear_arith)
        requires
            j <= g - 1,
            g == (n + size - 1) / size,
            size > 0,
            n >= 0,
    ;
    assert(0 <= j * size) by (nonlinear_arith)
        requires
            0 <= j,
            size > 0,
    ;
    if j + 1 < g {
        assert((j + 1) * size < n) by (nonlinear_arith)
            requires
                j + 1 <= g - 1,
                g == (n + size - 1) / size,
                size > 0,
                n >= 0,
        ;
        assert((j + 1) * size == j * size + size) by (nonlinear_arith);
    }
}

fn cut(
    input_start: usize,
    first: usize,
    rows: usize,
    out: usize,
    l1: usize,
    per_row: usize,
) -> (v: Vec<Tile>)
    requires
        l1 > 0,
        (first + rows) * per_row <= usize::MAX,
        first + rows <= usize::MAX,
        out + rows <= usize::MAX,
    ensures
        v@ == tiles(
            input_start as int,
            first as int,
            rows as int,
            out as int,
            l1 as int,
            per_row as int,
        ),
{
    let ghost goal = tiles(
        input_start as int,
        first as int,
        rows as int,
        out as int,
        l1 as int,
        per_row as int,
    );
    let ghost g = parts(rows as int, l1 as int);
    let mut v: Vec<Tile> = Vec::new();
    let mut start: usize = 0;
    let ghost mut j: int = 0;
    proof {
        assert(g >= 0 && (rows == 0 ==> g == 0) && (rows > 0 ==> g > 0)) by (nonlinear_arith)
            requires
                g == (rows + l1 - 1) / (l1 as int),
                l1 > 0,
                rows >= 0,
        ;
    }
    while start < rows
        invariant
            l1 > 0,
            (first + rows) * per_row <= usize::MAX,
            first + rows <= usize::MAX,
            out + rows <= usize::MAX,
            g == parts(rows as int, l1 as int),
            goal == tiles(
                input_start as int,
                first as int,
                rows as int,
                out as int,
                l1 as int,
                per_row as int,
            ),
            0 <= j <= g,
            start <= rows,
            start < rows ==> start == j * l1 && j < g,
            start == rows ==> j == g,
            v@ == goal.subrange(0, j),
        decreases rows - start,
    {
        proof {
            lemma_part_inside(rows as int, l1 as int, j);
        }
        let left: usize = rows - start;
        let len: usize = if left < l1 {
            left
        } else {
            l1
        };
        let row: usize = first + start;
        assert((row + len) * per_row <= (first + rows) * per_row && 0 <= row * per_row <= (row
            + len) * per_row) by (nonlinear_arith)
            requires
                0 <= row,
                0 <= len,
                row + len <= first + rows,
                per_row >= 0,
        ;
        v.push(
            Tile {
                input_start,
                block_start: row * per_row,
                block_end: (row + len) * per_row,
                out_start: out + start,
                rows: len,
            },
        );
        start += len;
        proof {
            if j + 1 < g {
                assert((j + 1) * l1 == j * l1 + l1) by (nonlinear_arith);
                lemma_part_inside(rows as int, l1 as int, j + 1);
            } else {
                assert(start == rows) by {
                    if start < rows {
                        assert(j + 1 < g) by (nonlinear_arith)
                            requires
                                start == j * l1 + l1,
                                start < rows,
                                g == (rows + l1 - 1) / (l1 as int),
                                l1 > 0,
                        ;
                    }
                }
            }
            j = j + 1;
            assert(v@ =~= goal.subrange(0, j));
        }
    }
    assert(v@ =~= goal);
    v
}

/// Groups of a tiled matrix-vector product: each is a cache-sized run of rows,
/// cut into tiles.
pub open spec fn gemv_groups(n_rows: usize, k: usize, l1: int, l2: int) -> Seq<Seq<Tile>> {
    let per_row = (k / 128) as int;
    Seq::new(
        parts(n_rows as int, l2) as nat,
        |c: int|
            tiles(0, c * l2, part_len(n_rows as int, l2, c), c * l2, l1, per_row),
    )
}

/// The calls that a run makes.
pub open spec fn groups_of(v: Seq<Vec<Tile>>) -> Seq<Seq<Tile>> {
    v.map_values(|g: Vec<Tile>| g@)
}

/// Tiled 1-bit matrix-vector product: runs of `l2_rows` rows go to threads, each
/// cut into tiles of `l1_rows`. Below 128 rows, or without threads, one thread
/// does all.
pub fn gemv_parallel_tiled(
    n_blocks: usize,
    input_len: usize,
    output_len: usize,
    n_rows: usize,
    k: usize,
    l1_rows: usize,
    l2_rows: usize,
    threads: bool,
) -> (r: KernelResult<TiledRun>)
    requires
        checks::gemv_fits(input_len as nat, output_len as nat, n_rows, k, 128),
        l2_rows > 0,
    ensures
        match checks::gemv_fault(
            n_blocks as nat,
            input_len as nat,
            output_len as nat,
            n_rows,
            k,
            128,
        ) {
            Some(e) => r matches Err(f) && f == e,
            None => if n_rows < 128 || !threads {
                r matches Ok(run) && run is Sequential
            } else {
                r matches Ok(run) && run is Parallel && groups_of(run->Parallel_0@)
                    == gemv_groups(
                    n_rows,
                    k,
                    if l1_rows > 1 {
                        l1_rows as int
                    } else {
                        1
                    },
                    l2_rows as int,
                )
            },
        },
{
    let per_row: usize = validate_gemv(n_blocks, input_len, output_len, n_rows, k, QK1_0_G128)?;
    if n_rows < PAR_TILED_MIN_ROWS || !threads {
        return Ok(TiledRun::Sequential);
    }
    let l1: usize = if l1_rows > 1 {
        l1_rows
    } else {
        1
    };
    let ghost goal = gemv_groups(n_rows, k, l1 as int, l2_rows as int);
    let ghost g = parts(n_rows as int, l2_rows as int);
    let mut v: Vec<Vec<Tile>> = Vec::new();
    let mut start: usize = 0;
    let ghost mut c: int = 0;
    proof {
        assert(g > 0) by (nonlinear_arith)
            requires
                g == (n_rows + l2_rows - 1) / (l2_rows as int),
                l2_rows > 0,
                n_rows > 0,
        ;
    }
    while start < n_rows
        invariant
            l1 > 0,
            l2_rows > 0,
            per_row == k / 128,
            n_rows * per_row <= usize::MAX,
            g == parts(n_rows as int, l2_rows as int),
            goal == gemv_groups(n_rows, k, l1 as int, l2_rows as int),
            0 <= c <= g,
            start <= n_rows,
            start < n_rows ==> start == c * l2_rows && c < g,
            start == n_rows ==> c == g,
            groups_of(v@) == goal.subrange(0, c),
        decreases n_rows - start,
    {
        proof {
            lemma_part_inside(n_rows as int, l2_rows as int, c);
        }
        let left: usize = n_rows - start;
        let len: usize = if left < l2_rows {
            left
        } else {
            l2_rows
        };
        assert((start + len) * per_row <= n_rows * per_row) by (nonlinear_arith)
            requires
                start + len <= n_rows,
                per_row >= 0,
        ;
        let group = cut(0, start, len, start, l1, per_row);
        let ghost before = v@;
        v.push(group);
        start += len;
        proof {
            if c + 1 < g {
                assert((c + 1) * l2_rows == c * l2_rows + l2_rows) by (nonlinear_arith);
                lemma_part_inside(n_rows as int, l2_rows as int, c + 1);
            } else {
                assert(start == n_rows) by {
                    if start < n_rows {
                        assert(c + 1 < g) by (nonlinear_arith)
                            requires
                                start == c * l2_rows + l2_rows,
                                start < n_rows,
                                g == (n_rows + l2_rows - 1) / (l2_rows as int),
                                l2_rows > 0,
                        ;
                    }
                }
            }
            c = c + 1;
            assert(groups_of(v@) =~= groups_of(before).push(group@));
            assert(groups_of(v@) =~= goal.subrange(0, c));
        }
    }
    assert(groups_of(v@) =~= goal);
    Ok(TiledRun::Parallel(v))
}

/// Groups of a tiled product with `m` vectors: one for each vector, cut into
/// tiles.
pub open spec fn gemm_groups(m: usize, n_rows: usize, k: usize, l1: int) -> Seq<Seq<Tile>> {
    let per_row = (k / 128) as int;
    Seq::new(m as nat, |v: int| tiles(v * k, 0, n_rows as int, v * n_rows, l1, per_row))
}

/// Tiled 1-bit product with `m` vectors: vectors go to threads, and for each the
/// rows are cut into tiles of `l1_rows`. Below four vectors, or without threads,
/// one thread does all.
pub fn gemm_parallel_tiled(
    n_blocks: usize,
    input_len: usize,
    output_len: usize,
    m: usize,
    n_rows: usize,
    k: usize,
    l1_rows: usize,
    threads: bool,
) -> (r: KernelResult<TiledRun>)
    requires
        checks::gemm_fits(input_len as nat, output_len as nat, m, n_rows, k, 128),
        threads && m >= 4 && checks::gemm_fault(
            n_blocks as nat,
            input_len as nat,
            output_len as nat,
            m,
            n_rows,
            k,
            128,
        ) is None ==> n_rows > 0,
    ensures
        match checks::gemm_fault(
            n_blocks as nat,
            input_len as nat,
            output_len as nat,
            m,
            n_rows,
            k,
            128,
        ) {
            Some(e) => r matches Err(f) && f == e,
            None => if m < 4 || !threads {
                r matches Ok(run) && run is Sequential
            } else {
                r matches Ok(run) && run is Parallel && groups_of(run->Parallel_0@)
                    == gemm_groups(
                    m,
                    n_rows,
                    k,
                    if l1_rows > 1 {
                        l1_rows as int
                    } else {
                        1
                    },
                )
            },
        },
{
    let per_row: usize = validate_gemm(n_blocks, input_len, output_len, m, n_rows, k, QK1_0_G128)?;
    if m < PAR_TILED_MIN_BATCH || !threads {
        return Ok(TiledRun::Sequential);
    }
    let l1: usize = if l1_rows > 1 {
        l1_rows
    } else {
        1
    };
    let ghost goal = gemm_groups(m, n_rows, k, l1 as int);
    let mut v: Vec<Vec<Tile>> = Vec::new();
    let mut mi: usize = 0;
    while mi < m
        invariant
            l1 > 0,
            per_row == k / 128,
            n_rows * per_row <= usize::MAX,
            m * k <= usize::MAX,
            m * n_rows <= usize::MAX,
            goal == gemm_groups(m, n_rows, k, l1 as int),
            mi <= m,
            groups_of(v@) == goal.subrange(0, mi as int),
        decreases m - mi,
    {
        assert(0 <= mi * k && mi * k + k <= m * k && 0 <= mi * n_rows && mi * n_rows + n_rows <= m
            * n_rows) by (nonlinear_arith)
            requires
                0 <= mi < m,
                k >= 0,
                n_rows >= 0,
        ;
        let group = cut(mi * k, 0, n_rows, mi * n_rows, l1, per_row);
        let ghost before = v@;
        v.push(group);
        mi += 1;
        proof {
            assert(groups_of(v@) =~= groups_of(before).push(group@));
            assert(groups_of(v@) =~= goal.subrange(0, mi as int));
        }
    }
    assert(groups_of(v@) =~= goal);
    Ok(TiledRun::Parallel(v))
}

/// Every row of a tiled matrix-vector product is in exactly one tile of exactly
/// one group, and there it writes its own element.
pub proof fn law_every_row_in_one_tile(n_rows: usize, k: usize, l1: int, l2: int, row: int)
    requires
        0 <= row < n_rows,
        l1 > 0,
        l2 > 0,
    ensures
        ({
            let groups = gemv_groups(n_rows, k, l1, l2);
            let c = row / l2;
            let j = (row - c * l2) / l1;
            &&& 0 <= c < groups.len()
            &&& 0 <= j < groups[c].len()
            &&& groups[c][j].out_start <= row < groups[c][j].out_start + groups[c][j].rows
            &&& forall|d: int, q: int|
                0 <= d < groups.len() && 0 <= q < groups[d].len() && (
                #[trigger] groups[d][q]).out_start <= row < groups[d][q].out_start
                    + groups[d][q].rows ==> d == c && q == j
        }),
{
    let groups = gemv_groups(n_rows, k, l1, l2);
    let n = n_rows as int;
    let c = row / l2;
    law_parts_are_a_partition(n, l2, row);
    lemma_part_inside(n, l2, c);
    let rows = part_len(n, l2, c);
    let at = row - c * l2;
    law_parts_are_a_partition(rows, l1, at);
    let j = at / l1;
    lemma_part_inside(rows, l1, j);
    assert forall|d: int, q: int|
        0 <= d < groups.len() && 0 <= q < groups[d].len() && (
        #[trigger] groups[d][q]).out_start <= row < groups[d][q].out_start
            + groups[d][q].rows implies d == c && q == j by {
        lemma_part_inside(n, l2, d);
        let d_rows = part_len(n, l2, d);
        lemma_part_inside(d_rows, l1, q);
        assert(d * l2 <= row < d * l2 + d_rows);
        assert(d == c);
        assert(q * l1 <= at < q * l1 + part_len(rows, l1, q));
    }
}

/// A row kernel: what it makes of a row's blocks and a vector.
pub type RowKernel<B> = spec_fn(Seq<B>, Seq<u32>) -> u32;

/// Output of a product with `m` vectors by a row kernel: the first `m * n_rows`
/// elements are products of a row and a vector, the others stay as they are.
pub open spec fn rows_product<B>(
    kernel: RowKernel<B>,
    blocks: Seq<B>,
    input: Seq<u32>,
    before: Seq<u32>,
    m: usize,
    n_rows: usize,
    k: usize,
) -> Seq<u32> {
    Seq::new(
        before.len(),
        |i: int|
            if i < m * n_rows {
                let c = simd_avx2::cell(i, n_rows, k);
                kernel(c.row(blocks), c.vector(input))
            } else {
                before[i]
            },
    )
}

/// The eight-lane kernel is a row kernel: what is said of any row kernel is said
/// of its products.
pub proof fn law_vector_kernel_goes_by_rows<T: Arith>(
    t: &T,
    blocks: Seq<BlockQ1_0G128>,
    input: Seq<u32>,
    before: Seq<u32>,
    m: usize,
    n_rows: usize,
    k: usize,
    paired: bool,
)
    ensures
        rows_product(
            |row: Seq<BlockQ1_0G128>, x: Seq<u32>| simd_avx2::row_1bit(t, row, x, paired),
            blocks,
            input,
            before,
            m,
            n_rows,
            k,
        ) == simd_avx2::output_1bit(t, blocks, input, before, m, n_rows, k, paired),
{
    assert(rows_product(
        |row: Seq<BlockQ1_0G128>, x: Seq<u32>| simd_avx2::row_1bit(t, row, x, paired),
        blocks,
        input,
        before,
        m,
        n_rows,
        k,
    ) =~= simd_avx2::output_1bit(t, blocks, input, before, m, n_rows, k, paired));
}

/// A product with several vectors is, vector by vector, that of the vector alone.
proof fn lemma_rows_per_vector<B>(
    kernel: RowKernel<B>,
    blocks: Seq<B>,
    input: Seq<u32>,
    before: Seq<u32>,
    alone: Seq<u32>,
    m: usize,
    n_rows: usize,
    k: usize,
    vector: int,
    row: int,
)
    requires
        0 <= vector < m,
        0 <= row < n_rows,
        k % 128 == 0,
        n_rows * (k / 128) <= blocks.len() <= usize::MAX,
        m * k <= input.len() <= usize::MAX,
        m * n_rows <= before.len(),
        n_rows <= alone.len(),
    ensures
        rows_product(kernel, blocks, input, before, m, n_rows, k)[vector * n_rows + row]
            == rows_product(
            kernel,
            blocks,
            input.subrange(vector * k, input.len() as int),
            alone,
            1,
            n_rows,
            k,
        )[row],
{
    let i = vector * n_rows + row;
    vstd::arithmetic::div_mod::lemma_fundamental_div_mod_converse(i, n_rows as int, vector, row);
    vstd::arithmetic::div_mod::lemma_fundamental_div_mod_converse(row, n_rows as int, 0, row);
    assert(0 <= i < m * n_rows && 0 <= vector * k && vector * k + k <= m * k) by (nonlinear_arith)
        requires
            i == vector * n_rows + row,
            0 <= vector < m,
            0 <= row < n_rows,
            k >= 0,
    ;
    let whole = simd_avx2::cell(i, n_rows, k);
    let own = simd_avx2::cell(row, n_rows, k);
    let tail = input.subrange(vector * k, input.len() as int);
    assert(0 * k == 0) by (nonlinear_arith);
    assert(whole.base == vector * k && own.base == 0 && whole.count * 128 == k);
    assert(whole.vector(input) =~= own.vector(tail));
}

/// A tile's product is, row by row, that of the whole matrix: cutting a product
/// into tiles changes no element.
pub proof fn law_tile_is_part_of_product<B>(
    kernel: RowKernel<B>,
    blocks: Seq<B>,
    input: Seq<u32>,
    before: Seq<u32>,
    alone: Seq<u32>,
    n_rows: usize,
    k: usize,
    first: usize,
    rows: usize,
    r: int,
)
    requires
        k % 128 == 0,
        first + rows <= n_rows,
        0 <= r < rows,
        n_rows * (k / 128) <= blocks.len() <= usize::MAX,
        k <= input.len() <= usize::MAX,
        n_rows <= before.len(),
        rows <= alone.len(),
    ensures
        rows_product(
            kernel,
            blocks.subrange(first * (k / 128), (first + rows) * (k / 128)),
            input,
            alone,
            1,
            rows,
            k,
        )[r] == rows_product(kernel, blocks, input, before, 1, n_rows, k)[first + r],
{
    let w = (k / 128) as int;
    let start = first * w;
    let part = blocks.subrange(start, (first + rows) * w);
    let i = first + r;
    vstd::arithmetic::div_mod::lemma_fundamental_div_mod_converse(r, rows as int, 0, r);
    vstd::arithmetic::div_mod::lemma_fundamental_div_mod_converse(i, n_rows as int, 0, i);
    assert(0 <= start && 0 <= r * w && r * w + w <= rows * w && (first + rows) * w <= n_rows * w
        && i * w == start + r * w && i * w + w <= n_rows * w && (first + rows) * w == start + rows
        * w) by (nonlinear_arith)
        requires
            start == first * w,
            i == first + r,
            0 <= r < rows,
            first + rows <= n_rows,
            first >= 0,
            w >= 0,
    ;
    let whole = simd_avx2::cell(i, n_rows, k);
    let own = simd_avx2::cell(r, rows, k);
    assert(own.row(part) =~= whole.row(blocks));
    assert(own.vector(input) =~= whole.vector(input));
}

/// An output after one tile has been carried out: the kernel's product of the
/// tile's blocks and vector stands in the tile's elements.
pub open spec fn tile_done<B>(
    kernel: RowKernel<B>,
    blocks: Seq<B>,
    input: Seq<u32>,
    out: Seq<u32>,
    tile: Tile,
    k: usize,
) -> Seq<u32> {
    let end = tile.out_start + tile.rows;
    let product = rows_product(
        kernel,
        blocks.subrange(tile.block_start as int, tile.block_end as int),
        input.subrange(tile.input_start as int, input.len() as int),
        out.subrange(tile.out_start as int, end),
        1,
        tile.rows,
        k,
    );
    out.subrange(0, tile.out_start as int) + product + out.subrange(end, out.len() as int)
}

/// An output after the first `n` tiles of a group.
pub open spec fn tiles_done<B>(
    kernel: RowKernel<B>,
    blocks: Seq<B>,
    input: Seq<u32>,
    out: Seq<u32>,
    group: Seq<Tile>,
    k: usize,
    n: nat,
) -> Seq<u32>
    decreases n,
{
    if n == 0 {
        out
    } else {
        let before = tiles_done(kernel, blocks, input, out, group, k, (n - 1) as nat);
        tile_done(kernel, blocks, input, before, group[n - 1], k)
    }
}

/// An output after the first `n` groups.
pub open spec fn groups_done<B>(
    kernel: RowKernel<B>,
    blocks: Seq<B>,
    input: Seq<u32>,
    out: Seq<u32>,
    groups: Seq<Seq<Tile>>,
    k: usize,
    n: nat,
) -> Seq<u32>
    decreases n,
{
    if n == 0 {
        out
    } else {
        let before = groups_done(kernel, blocks, input, out, groups, k, (n - 1) as nat);
        let group = groups[n - 1];
        tiles_done(kernel, blocks, input, before, group, k, group.len())
    }
}

/// The first `rows` elements of a product, and what was there behind them.
pub open spec fn done_so_far(whole: Seq<u32>, before: Seq<u32>, rows: int) -> Seq<u32> {
    whole.subrange(0, rows) + before.subrange(rows, before.len() as int)
}

/// One tile extends what is done of a product by its rows.
proof fn lemma_tile_extends<B>(
    kernel: RowKernel<B>,
    blocks: Seq<B>,
    input: Seq<u32>,
    before: Seq<u32>,
    n_rows: usize,
    k: usize,
    tile: Tile,
)
    requires
        k % 128 == 0,
        tile.out_start + tile.rows <= n_rows,
        tile.input_start == 0,
        tile.block_start == tile.out_start * (k / 128),
        tile.block_end == (tile.out_start + tile.rows) * (k / 128),
        n_rows * (k / 128) <= blocks.len() <= usize::MAX,
        k <= input.len() <= usize::MAX,
        n_rows <= before.len(),
    ensures
        ({
            let whole = rows_product(kernel, blocks, input, before, 1, n_rows, k);
            tile_done(
                kernel,
                blocks,
                input,
                done_so_far(whole, before, tile.out_start as int),
                tile,
                k,
            ) == done_so_far(whole, before, tile.out_start + tile.rows)
        }),
{
    let whole = rows_product(kernel, blocks, input, before, 1, n_rows, k);
    let first = tile.out_start;
    let rows = tile.rows;
    let out = done_so_far(whole, before, first as int);
    let alone = out.subrange(first as int, first + rows);
    let part = blocks.subrange(tile.block_start as int, tile.block_end as int);
    assert(input.subrange(0, input.len() as int) =~= input);
    let product = rows_product(kernel, part, input, alone, 1, rows, k);
    assert forall|r: int| 0 <= r < rows implies #[trigger] product[r] == whole[first + r] by {
        law_tile_is_part_of_product(
            kernel,
            blocks,
            input,
            before,
            alone,
            n_rows,
            k,
            first,
            rows,
            r,
        );
    }
    assert(tile_done(kernel, blocks, input, out, tile, k) =~= done_so_far(
        whole,
        before,
        first + rows,
    ));
}

/// The first `n` tiles of a run of rows extend what is done of a product.
proof fn lemma_tiles_extend<B>(
    kernel: RowKernel<B>,
    blocks: Seq<B>,
    input: Seq<u32>,
    before: Seq<u32>,
    n_rows: usize,
    k: usize,
    first: int,
    rows: int,
    l1: int,
    n: nat,
)
    requires
        k % 128 == 0,
        0 <= first,
        0 <= rows,
        first + rows <= n_rows,
        l1 > 0,
        n <= parts(rows, l1),
        n_rows * (k / 128) <= blocks.len() <= usize::MAX,
        k <= input.len() <= usize::MAX,
        n_rows <= before.len(),
    ensures
        ({
            let whole = rows_product(kernel, blocks, input, before, 1, n_rows, k);
            let end = if n * l1 < rows {
                n * l1
            } else {
                rows
            };
            tiles_done(
                kernel,
                blocks,
                input,
                done_so_far(whole, before, first),
                tiles(0, first, rows, first, l1, (k / 128) as int),
                k,
                n,
            ) == done_so_far(whole, before, first + end)
        }),
    decreases n,
{
    if n > 0 {
        let m = (n - 1) as nat;
        lemma_tiles_extend(
            kernel,
            blocks,
            input,
            before,
            n_rows,
            k,
            first,
            rows,
            l1,
            m,
        );
        lemma_part_inside(rows, l1, m as int);
        assert(n * l1 == m * l1 + l1) by (nonlinear_arith)
            requires
                n == m + 1,
        ;
        let per_row = (k / 128) as int;
        let tile = tile_at(0, first, rows, first, l1, per_row, m as int);
        let at = first + m * l1;
        let len = part_len(rows, l1, m as int);
        assert(0 <= at * per_row <= (at + len) * per_row && (at + len) * per_row <= n_rows
            * per_row) by (nonlinear_arith)
            requires
                0 <= at,
                0 <= len,
                at + len <= n_rows,
                per_row >= 0,
        ;
        lemma_tile_extends(kernel, blocks, input, before, n_rows, k, tile);
        let group = tiles(0, first, rows, first, l1, per_row);
        assert(group[m as int] == tile);
        assert(tile.out_start == at && tile.rows == len);
        let end = if n * l1 < rows {
            n * l1
        } else {
            rows
        };
        assert(at + len == first + end);
    } else {
        assert(n * l1 == 0) by (nonlinear_arith)
            requires
                n == 0,
        ;
    }
}

/// The first `n` groups extend what is done of a product.
proof fn lemma_groups_extend<B>(
    kernel: RowKernel<B>,
    blocks: Seq<B>,
    input: Seq<u32>,
    before: Seq<u32>,
    n_rows: usize,
    k: usize,
    l1: int,
    l2: int,
    n: nat,
)
    requires
        k % 128 == 0,
        l1 > 0,
        l2 > 0,
        n <= parts(n_rows as int, l2),
        n_rows * (k / 128) <= blocks.len() <= usize::MAX,
        k <= input.len() <= usize::MAX,
        n_rows <= before.len(),
    ensures
        ({
            let whole = rows_product(kernel, blocks, input, before, 1, n_rows, k);
            let end = if n * l2 < n_rows {
                n * l2
            } else {
                n_rows as int
            };
            groups_done(kernel, blocks, input, before, gemv_groups(n_rows, k, l1, l2), k, n)
                == done_so_far(whole, before, end)
        }),
    decreases n,
{
    let whole = rows_product(kernel, blocks, input, before, 1, n_rows, k);
    if n == 0 {
        assert(done_so_far(whole, before, 0) =~= before);
    } else {
        let m = (n - 1) as nat;
        lemma_groups_extend(kernel, blocks, input, before, n_rows, k, l1, l2, m);
        lemma_part_inside(n_rows as int, l2, m as int);
        assert(n * l2 == m * l2 + l2) by (nonlinear_arith)
            requires
                n == m + 1,
        ;
        let rows = part_len(n_rows as int, l2, m as int);
        let count = parts(rows, l1);
        assert(count >= 0 && count * l1 >= rows) by (nonlinear_arith)
            requires
                count == (rows + l1 - 1) / l1,
                rows >= 0,
                l1 > 0,
        ;
        lemma_tiles_extend(
            kernel,
            blocks,
            input,
            before,
            n_rows,
            k,
            m * l2,
            rows,
            l1,
            count as nat,
        );
    }
}

/// The tiles of all groups make up the whole product: carrying them out leaves
/// what one call of the kernel on the whole matrix leaves.
pub proof fn law_tiles_make_the_product<B>(
    kernel: RowKernel<B>,
    blocks: Seq<B>,
    input: Seq<u32>,
    before: Seq<u32>,
    n_rows: usize,
    k: usize,
    l1: int,
    l2: int,
)
    requires
        checks::gemv_fault(blocks.len(), input.len(), before.len(), n_rows, k, 128) is None,
        blocks.len() <= usize::MAX,
        input.len() <= usize::MAX,
        l1 > 0,
        l2 > 0,
    ensures
        ({
            let groups = gemv_groups(n_rows, k, l1, l2);
            groups_done(kernel, blocks, input, before, groups, k, groups.len())
                == rows_product(kernel, blocks, input, before, 1, n_rows, k)
        }),
{
    let whole = rows_product(kernel, blocks, input, before, 1, n_rows, k);
    let count = parts(n_rows as int, l2);
    assert(count >= 0 && count * l2 >= n_rows) by (nonlinear_arith)
        requires
            count == (n_rows + l2 - 1) / l2,
            n_rows >= 0,
            l2 > 0,
    ;
    lemma_groups_extend(kernel, blocks, input, before, n_rows, k, l1, l2, count as nat);
    assert(done_so_far(whole, before, n_rows as int) =~= whole);
}

/// One tile of a vector extends what is done of a product by its rows.
proof fn lemma_gemm_tile_extends<B>(
    kernel: RowKernel<B>,
    blocks: Seq<B>,
    input: Seq<u32>,
    before: Seq<u32>,
    m: usize,
    n_rows: usize,
    k: usize,
    v: int,
    first: usize,
    tile: Tile,
)
    requires
        k % 128 == 0,
        0 <= v < m,
        first + tile.rows <= n_rows,
        tile.input_start == v * k,
        tile.block_start == first * (k / 128),
        tile.block_end == (first + tile.rows) * (k / 128),
        tile.out_start == v * n_rows + first,
        n_rows * (k / 128) <= blocks.len() <= usize::MAX,
        m * k <= input.len() <= usize::MAX,
        m * n_rows <= before.len(),
    ensures
        ({
            let whole = rows_product(kernel, blocks, input, before, m, n_rows, k);
            tile_done(
                kernel,
                blocks,
                input,
                done_so_far(whole, before, tile.out_start as int),
                tile,
                k,
            ) == done_so_far(whole, before, tile.out_start + tile.rows)
        }),
{
    let whole = rows_product(kernel, blocks, input, before, m, n_rows, k);
    let rows = tile.rows;
    let start = tile.out_start as int;
    assert(0 <= v * k && v * k + k <= m * k && 0 <= v * n_rows && v * n_rows + n_rows <= m * n_rows)
        by (nonlinear_arith)
        requires
            0 <= v < m,
            k >= 0,
            n_rows >= 0,
    ;
    let out = done_so_far(whole, before, start);
    let alone = out.subrange(start, start + rows);
    let part = blocks.subrange(tile.block_start as int, tile.block_end as int);
    let tail = input.subrange(v * k, input.len() as int);
    let product = rows_product(kernel, part, tail, alone, 1, rows, k);
    assert forall|r: int| 0 <= r < rows implies #[trigger] product[r] == whole[start + r] by {
        law_tile_is_part_of_product(
            kernel,
            blocks,
            tail,
            before,
            alone,
            n_rows,
            k,
            first,
            rows,
            r,
        );
        lemma_rows_per_vector(kernel, blocks, input, before, before, m, n_rows, k, v, first + r);
    }
    assert(tile_done(kernel, blocks, input, out, tile, k) =~= done_so_far(
        whole,
        before,
        start + rows,
    ));
}

/// The first `n` tiles of a vector extend what is done of a product.
proof fn lemma_gemm_tiles_extend<B>(
    kernel: RowKernel<B>,
    blocks: Seq<B>,
    input: Seq<u32>,
    before: Seq<u32>,
    m: usize,
    n_rows: usize,
    k: usize,
    v: int,
    l1: int,
    n: nat,
)
    requires
        k % 128 == 0,
        0 <= v < m,
        l1 > 0,
        n <= parts(n_rows as int, l1),
        n_rows * (k / 128) <= blocks.len() <= usize::MAX,
        m * k <= input.len() <= usize::MAX,
        m * n_rows <= before.len() <= usize::MAX,
    ensures
        ({
            let whole = rows_product(kernel, blocks, input, before, m, n_rows, k);
            let end = if n * l1 < n_rows {
                n * l1
            } else {
                n_rows as int
            };
            tiles_done(
                kernel,
                blocks,
                input,
                done_so_far(whole, before, v * n_rows),
                tiles(v * k, 0, n_rows as int, v * n_rows, l1, (k / 128) as int),
                k,
                n,
            ) == done_so_far(whole, before, v * n_rows + end)
        }),
    decreases n,
{
    if n > 0 {
        let q = (n - 1) as nat;
        lemma_gemm_tiles_extend(kernel, blocks, input, before, m, n_rows, k, v, l1, q);
        lemma_part_inside(n_rows as int, l1, q as int);
        assert(n * l1 == q * l1 + l1) by (nonlinear_arith)
            requires
                n == q + 1,
        ;
        let per_row = (k / 128) as int;
        let at = q * l1;
        let len = part_len(n_rows as int, l1, q as int);
        assert(0 <= at * per_row <= (at + len) * per_row && (at + len) * per_row <= n_rows
            * per_row) by (nonlinear_arith)
            requires
                0 <= at,
                0 <= len,
                at + len <= n_rows,
                per_row >= 0,
        ;
        assert(0 <= v * k && v * k + k <= m * k && 0 <= v * n_rows && v * n_rows + n_rows <= m
            * n_rows) by (nonlinear_arith)
            requires
                0 <= v < m,
                k >= 0,
                n_rows >= 0,
        ;
        let tile = tile_at(v * k, 0, n_rows as int, v * n_rows, l1, per_row, q as int);
        let group = tiles(v * k, 0, n_rows as int, v * n_rows, l1, per_row);
        assert(group[q as int] == tile);
        assert(tile.out_start == v * n_rows + at && tile.rows == len);
        lemma_gemm_tile_extends(
            kernel,
            blocks,
            input,
            before,
            m,
            n_rows,
            k,
            v,
            at as usize,
            tile,
        );
        let end = if n * l1 < n_rows {
            n * l1
        } else {
            n_rows as int
        };
        assert(at + len == end);
    } else {
        assert(n * l1 == 0) by (nonlinear_arith)
            requires
                n == 0,
        ;
    }
}

/// The first `n` vectors' groups extend what is done of a product.
proof fn lemma_gemm_groups_extend<B>(
    kernel: RowKernel<B>,
    blocks: Seq<B>,
    input: Seq<u32>,
    before: Seq<u32>,
    m: usize,
    n_rows: usize,
    k: usize,
    l1: int,
    n: nat,
)
    requires
        k % 128 == 0,
        l1 > 0,
        n <= m,
        n_rows * (k / 128) <= blocks.len() <= usize::MAX,
        m * k <= input.len() <= usize::MAX,
        m * n_rows <= before.len() <= usize::MAX,
    ensures
        ({
            let whole = rows_product(kernel, blocks, input, before, m, n_rows, k);
            groups_done(kernel, blocks, input, before, gemm_groups(m, n_rows, k, l1), k, n)
                == done_so_far(whole, before, n * n_rows)
        }),
    decreases n,
{
    let whole = rows_product(kernel, blocks, input, before, m, n_rows, k);
    if n == 0 {
        assert(n * n_rows == 0) by (nonlinear_arith)
            requires
                n == 0,
        ;
        assert(done_so_far(whole, before, 0) =~= before);
    } else {
        let v = n - 1;
        lemma_gemm_groups_extend(
            kernel,
            blocks,
            input,
            before,
            m,
            n_rows,
            k,
            l1,
            v as nat,
        );
        let count = parts(n_rows as int, l1);
        assert(count >= 0 && count * l1 >= n_rows) by (nonlinear_arith)
            requires
                count == (n_rows + l1 - 1) / l1,
                n_rows >= 0,
                l1 > 0,
        ;
        assert(n * n_rows == v * n_rows + n_rows) by (nonlinear_arith)
            requires
                n == v + 1,
        ;
        lemma_gemm_tiles_extend(
            kernel,
            blocks,
            input,
            before,
            m,
            n_rows,
            k,
            v,
            l1,
            count as nat,
        );
    }
}

/// The tiles of all vectors make up the whole product with `m` vectors.
pub proof fn law_tiles_make_the_batched_product<B>(
    kernel: RowKernel<B>,
    blocks: Seq<B>,
    input: Seq<u32>,
    before: Seq<u32>,
    m: usize,
    n_rows: usize,
    k: usize,
    l1: int,
)
    requires
        checks::gemm_fault(blocks.len(), input.len(), before.len(), m, n_rows, k, 128) is None,
        blocks.len() <= usize::MAX,
        input.len() <= usize::MAX,
        before.len() <= usize::MAX,
        l1 > 0,
    ensures
        ({
            let groups = gemm_groups(m, n_rows, k, l1);
            groups_done(kernel, blocks, input, before, groups, k, groups.len())
                == rows_product(kernel, blocks, input, before, m, n_rows, k)
        }),
{
    let whole = rows_product(kernel, blocks, input, before, m, n_rows, k);
    lemma_gemm_groups_extend(kernel, blocks, input, before, m, n_rows, k, l1, m as nat);
    assert(done_so_far(whole, before, m * n_rows) =~= whole);
}

/// What a run leaves in the output, with a row kernel: on one thread one call on
/// the whole matrix, else the tiles of all groups.
pub open spec fn run_output<B>(
    kernel: RowKernel<B>,
    blocks: Seq<B>,
    input: Seq<u32>,
    before: Seq<u32>,
    m: usize,
    n_rows: usize,
    k: usize,
    run: TiledRun,
) -> Seq<u32> {
    match run {
        TiledRun::Sequential => rows_product(kernel, blocks, input, before, m, n_rows, k),
        TiledRun::Parallel(v) => groups_done(
            kernel,
            blocks,
            input,
            before,
            groups_of(v@),
            k,
            v@.len(),
        ),
    }
}

/// However a product is run, below and above the thresholds alike, it leaves what
/// one call of the kernel on the whole matrix leaves.
pub proof fn law_any_run_makes_the_product<B>(
    kernel: RowKernel<B>,
    blocks: Seq<B>,
    input: Seq<u32>,
    before: Seq<u32>,
    m: usize,
    n_rows: usize,
    k: usize,
    l1: int,
    l2: int,
    run: TiledRun,
)
    requires
        blocks.len() <= usize::MAX,
        input.len() <= usize::MAX,
        before.len() <= usize::MAX,
        l1 > 0,
        l2 > 0,
        ({
            ||| run is Sequential
            ||| {
                &&& m == 1
                &&& checks::gemv_fault(blocks.len(), input.len(), before.len(), n_rows, k, 128)
                    is None
                &&& groups_of(run->Parallel_0@) == gemv_groups(n_rows, k, l1, l2)
            }
            ||| {
                &&& checks::gemm_fault(blocks.len(), input.len(), before.len(), m, n_rows, k, 128)
                    is None
                &&& groups_of(run->Parallel_0@) == gemm_groups(m, n_rows, k, l1)
            }
        }),
    ensures
        run_output(kernel, blocks, input, before, m, n_rows, k, run) == rows_product(
            kernel,
            blocks,
            input,
            before,
            m,
            n_rows,
            k,
        ),
{
    if let TiledRun::Parallel(v) = run {
        assert(groups_of(v@).len() == v@.len());
        if m == 1 && groups_of(v@) == gemv_groups(n_rows, k, l1, l2) && checks::gemv_fault(
            blocks.len(),
            input.len(),
            before.len(),
            n_rows,
            k,
            128,
        ) is None {
            law_tiles_make_the_product(kernel, blocks, input, before, n_rows, k, l1, l2);
        } else {
            law_tiles_make_the_batched_product(
                kernel,
                blocks,
                input,
                before,
                m,
                n_rows,
                k,
                l1,
            );
        }
    }
}

/// Ways to carry out a product.
#[derive(Debug, Clone, Copy, PartialEq, Eq, Structural)]
pub enum AdaptiveStrategy {
    /// The kernel is called directly.
    Direct,
    /// Rows are spread over threads.
    ParallelRow,
    /// Tiles are spread over threads.
    ParallelTiled,
}

/// How to carry out a matrix-vector product with so many rows.
pub open spec fn strategy_for(n_rows: usize) -> AdaptiveStrategy {
    if n_rows <= 32 {
        AdaptiveStrategy::Direct
    } else if n_rows <= 256 {
        AdaptiveStrategy::ParallelRow
    } else {
        AdaptiveStrategy::ParallelTiled
    }
}

/// How to carry out a matrix-vector product.
pub fn select_gemv_strategy(n_rows: usize, k: usize) -> (s: AdaptiveStrategy)
    ensures
        s == strategy_for(n_rows),
{
    if n_rows <= DIRECT_DISPATCH_MAX_ROWS {
        AdaptiveStrategy::Direct
    } else if n_rows <= MEDIUM_PARALLEL_MAX_ROWS {
        AdaptiveStrategy::ParallelRow
    } else {
        AdaptiveStrategy::ParallelTiled
    }
}

/// What carries out a product.
#[derive(Debug)]
pub enum Route {
    /// One call of the kernel on this thread.
    Direct,
    /// Rows or vectors spread over threads.
    Parallel,
    /// Tiles.
    Tiled(TiledRun),
}

/// Carries out a 1-bit matrix-vector product the way its rows ask for. Only the
/// tiled way checks the arguments here; the kernel checks them otherwise.
pub fn gemv_adaptive(
    n_blocks: usize,
    input_len: usize,
    output_len: usize,
    n_rows: usize,
    k: usize,
    l1_rows: usize,
    l2_rows: usize,
    threads: bool,
) -> (r: KernelResult<Route>)
    requires
        checks::gemv_fits(input_len as nat, output_len as nat, n_rows, k, 128),
        l2_rows > 0,
    ensures
        match strategy_for(n_rows) {
            AdaptiveStrategy::Direct => r matches Ok(w) && w is Direct,
            AdaptiveStrategy::ParallelRow => r matches Ok(w) && w is Parallel,
            AdaptiveStrategy::ParallelTiled => match checks::gemv_fault(
                n_blocks as nat,
                input_len as nat,
                output_len as nat,
                n_rows,
                k,
                128,
            ) {
                Some(e) => r matches Err(f) && f == e,
                None => r matches Ok(w) && w is Tiled && (!threads ==> w->Tiled_0 is Sequential)
                    && (threads ==> w->Tiled_0 is Parallel && groups_of(
                    w->Tiled_0->Parallel_0@,
                ) == gemv_groups(
                    n_rows,
                    k,
                    if l1_rows > 1 {
                        l1_rows as int
                    } else {
                        1
                    },
                    l2_rows as int,
                )),
            },
        },
{
    match select_gemv_strategy(n_rows, k) {
        AdaptiveStrategy::Direct => Ok(Route::Direct),
        AdaptiveStrategy::ParallelRow => Ok(Route::Parallel),
        AdaptiveStrategy::ParallelTiled => {
            let run = gemv_parallel_tiled(
                n_blocks,
                input_len,
                output_len,
                n_rows,
                k,
                l1_rows,
                l2_rows,
                threads,
            )?;
            Ok(Route::Tiled(run))
        },
    }
}

/// What carries out a ternary matrix-vector product: ternary rows are never
/// tiled.
pub fn gemv_adaptive_ternary(n_rows: usize, k: usize) -> (w: Route)
    ensures
        w == (if n_rows <= 32 {
            Route::Direct
        } else {
            Route::Parallel
        }),
{
    match select_gemv_strategy(n_rows, k) {
        AdaptiveStrategy::Direct => Route::Direct,
        AdaptiveStrategy::ParallelRow => Route::Parallel,
        AdaptiveStrategy::ParallelTiled => Route::Parallel,
    }
}

/// What carries out a ternary product with `m` vectors.
pub fn gemm_adaptive_ternary(m: usize, n_rows: usize, k: usize) -> (w: Route)
    ensures
        w == (if m < 4 {
            Route::Direct
        } else {
            Route::Parallel
        }),
{
    if m < PAR_TILED_MIN_BATCH {
        Route::Direct
    } else {
        Route::Parallel
    }
}

/// More rows never get a simpler way.
pub proof fn law_strategy_grows_with_rows(n: usize, more: usize)
    requires
        n <= more,
    ensures
        strategy_for(more) is Direct ==> strategy_for(n) is Direct,
        strategy_for(n) is ParallelTiled ==> strategy_for(more) is ParallelTiled,
{
}

/// Threads of the current pool, by `rayon::current_num_threads`. There is at
/// least one. How many rests on the machine. The first use of the pool may start
/// it, which fails where the system has no threads to give.
#[verifier::external_body]
fn current_threads() -> (n: usize)
    ensures
        n >= 1,
{
    rayon::current_num_threads()
}

/// When products are spread over threads.
#[derive(Debug, Clone, Copy)]
pub struct ParallelConfig {
    /// Number of threads.
    pub num_threads: usize,
    /// Rows from which a matrix-vector product is spread.
    pub gemv_threshold: usize,
    /// Vectors from which a product is spread.
    pub gemm_threshold: usize,
    /// Products are cut into cache tiles.
    pub use_tiling: bool,
}

/// The current pool was asked for its threads, and has so many.
pub closed spec fn pool_has(n: usize) -> bool {
    call_ensures(current_threads, (), n)
}

impl Default for ParallelConfig {
    fn default() -> (c: Self)
        ensures
            pool_has(c.num_threads),
            c.num_threads >= 1,
            c.gemv_threshold == 128,
            c.gemm_threshold == 4,
            c.use_tiling,
    {
        ParallelConfig::with_threads(current_threads())
    }
}

impl ParallelConfig {
    /// The usual thresholds with so many threads.
    pub fn with_threads(num_threads: usize) -> (c: Self)
        ensures
            c.num_threads == num_threads,
            c.gemv_threshold == 128,
            c.gemm_threshold == 4,
            c.use_tiling,
    {
        ParallelConfig {
            num_threads,
            gemv_threshold: PAR_TILED_MIN_ROWS,
            gemm_threshold: PAR_TILED_MIN_BATCH,
            use_tiling: true,
        }
    }

    /// Nothing is spread over threads.
    pub fn single_threaded() -> (c: Self)
        ensures
            c.num_threads == 1,
            c.gemv_threshold == usize::MAX,
            c.gemm_threshold == usize::MAX,
            !c.use_tiling,
    {
        ParallelConfig {
            num_threads: 1,
            gemv_threshold: usize::MAX,
            gemm_threshold: usize::MAX,
            use_tiling: false,
        }
    }

    /// A matrix-vector product of so many rows is spread.
    pub open spec fn spreads_gemv(self, n_rows: usize) -> bool {
        self.num_threads > 1 && n_rows >= self.gemv_threshold
    }

    /// A product with so many vectors is spread.
    pub open spec fn spreads_gemm(self, m: usize) -> bool {
        self.num_threads > 1 && m >= self.gemm_threshold
    }

    /// Whether a matrix-vector product of so many rows is spread over threads.
    pub fn should_parallelize_gemv(&self, n_rows: usize) -> (b: bool)
        ensures
            b == self.spreads_gemv(n_rows),
    {
        self.num_threads > 1 && n_rows >= self.gemv_threshold
    }

    /// Whether a product with so many vectors is spread over threads.
    pub fn should_parallelize_gemm(&self, m: usize) -> (b: bool)
        ensures
            b == self.spreads_gemm(m),
    {
        self.num_threads > 1 && m >= self.gemm_threshold
    }
}

/// On a single thread nothing is ever spread.
pub proof fn law_single_thread_never_spreads(c: ParallelConfig, n: usize)
    requires
        c.num_threads <= 1,
    ensures
        !c.spreads_gemv(n),
        !c.spreads_gemm(n),
{
}

} // verus!

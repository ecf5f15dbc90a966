//! Moving single-precision data between layouts, by its bits.

use vstd::prelude::*;

use crate::arith;
use crate::arith::{do_sum, Arith};

use crate::gpu_backend::metal_graph::vae;
use crate::gpu_backend::metal_graph::vae::ConvGeometry;

verus! {

/// The transpose of a row-major `rows` by `cols` matrix.
pub open spec fn transposed(src: Seq<u32>, rows: int, cols: int) -> Seq<u32> {
    Seq::new((rows * cols) as nat, |i: int| src[i % rows * cols + i / rows])
}

/// Entry `(r, c)` of a row-major matrix lies inside it, and row and column can
/// be read off its index.
pub proof fn lemma_matrix_index(r: int, c: int, rows: int, cols: int)
    requires
        0 <= r < rows,
        0 <= c < cols,
    ensures
        0 <= r * cols + c < rows * cols,
        (r * cols + c) / cols == r,
        (r * cols + c) % cols == c,
{
    assert(0 <= r * cols && r * cols + cols <= rows * cols) by (nonlinear_arith)
        requires
            0 <= r,
            r + 1 <= rows,
            cols > 0,
    ;
    vstd::arithmetic::div_mod::lemma_fundamental_div_mod_converse(r * cols + c, cols, r, c);
}

/// An index into a matrix splits into row and column.
pub proof fn lemma_matrix_split(i: int, rows: int, cols: int)
    requires
        0 <= i < rows * cols,
        rows >= 0,
        cols >= 0,
    ensures
        rows > 0,
        cols > 0,
        0 <= i / cols < rows,
        0 <= i % cols < cols,
        i == i / cols * cols + i % cols,
{
    assert(rows > 0 && cols > 0) by (nonlinear_arith)
        requires
            0 < rows * cols,
            rows >= 0,
            cols >= 0,
    ;
    vstd::arithmetic::div_mod::lemma_fundamental_div_mod(i, cols);
    vstd::arithmetic::div_mod::lemma_mod_bound(i, cols);
    let q = i / cols;
    assert(cols * q == q * cols) by (nonlinear_arith);
    assert(0 <= q < rows) by (nonlinear_arith)
        requires
            0 <= i < rows * cols,
            i == q * cols + i % cols,
            0 <= i % cols < cols,
            cols > 0,
    ;
}

/// Transposes a row-major `rows` by `cols` matrix: channels to the innermost
/// dimension before a channel mix, and back after it.
pub fn transpose(src: &[u32], rows: usize, cols: usize) -> (dst: Vec<u32>)
    requires
        src@.len() == rows * cols,
    ensures
        dst@ == transposed(src@, rows as int, cols as int),
{
    let n: usize = src.len();
    let mut dst: Vec<u32> = Vec::with_capacity(n);
    let mut i: usize = 0;
    while i < n
        invariant
            n == src@.len(),
            n == rows * cols,
            i <= n,
            dst@.len() == i,
            forall|j: int|
                0 <= j < i ==> #[trigger] dst@[j] == src@[j % rows as int * cols + j / rows as int],
        decreases n - i,
    {
        proof {
            assert(rows * cols == cols * rows) by (nonlinear_arith);
            lemma_matrix_split(i as int, cols as int, rows as int);
            lemma_matrix_index(
                i as int % rows as int,
                i as int / rows as int,
                rows as int,
                cols as int,
            );
            assert(i as int % rows as int * cols >= 0) by (nonlinear_arith)
                requires
                    i as int % rows as int >= 0,
                    cols >= 0,
            ;
        }
        dst.push(src[i % rows * cols + i / rows]);
        i += 1;
    }
    assert(dst@ =~= transposed(src@, rows as int, cols as int));
    dst
}

/// Transposing twice gives the matrix back.
pub proof fn law_transpose_is_involutive(src: Seq<u32>, rows: int, cols: int)
    requires
        rows >= 0,
        cols >= 0,
        src.len() == rows * cols,
    ensures
        transposed(transposed(src, rows, cols), cols, rows) == src,
{
    let t = transposed(src, rows, cols);
    assert(rows * cols == cols * rows) by (nonlinear_arith);
    assert(rows * cols >= 0) by (nonlinear_arith)
        requires
            rows >= 0,
            cols >= 0,
    ;
    assert forall|i: int| 0 <= i < src.len() implies #[trigger] transposed(t, cols, rows)[i]
        == src[i] by {
        lemma_matrix_split(i, rows, cols);
        let (r, c) = (i / cols, i % cols);
        lemma_matrix_index(c, r, cols, rows);
        assert(t[c * rows + r] == src[r * cols + c]);
    }
    assert(transposed(t, cols, rows) =~= src);
}

/// The output plane after a tile of `rows` output rows, row-major
/// `[rows, c_out]`, has been spread over it from `row_start` on.
pub open spec fn scattered(
    plane: Seq<u32>,
    tile: Seq<u32>,
    row_start: int,
    rows: int,
    c_out: int,
    spatial: int,
) -> Seq<u32> {
    Seq::new(
        plane.len(),
        |i: int|
            {
                let p = i % spatial;
                if row_start <= p < row_start + rows {
                    tile[(p - row_start) * c_out + i / spatial]
                } else {
                    plane[i]
                }
            },
    )
}

/// Spreads a convolution tile over the output plane `[c_out, spatial]`.
pub fn scatter_tile(
    plane: &mut Vec<u32>,
    tile: &[u32],
    row_start: usize,
    rows: usize,
    c_out: usize,
    spatial: usize,
)
    requires
        old(plane)@.len() == c_out * spatial,
        tile@.len() >= rows * c_out,
        row_start + rows <= spatial,
    ensures
        final(plane)@ == scattered(
            old(plane)@,
            tile@,
            row_start as int,
            rows as int,
            c_out as int,
            spatial as int,
        ),
{
    let ghost before = plane@;
    let n: usize = plane.len();
    let tile_len: usize = tile.len();
    let mut i: usize = 0;
    while i < n
        invariant
            n == c_out * spatial,
            n == before.len(),
            plane@.len() == n,
            tile@.len() == tile_len,
            tile_len >= rows * c_out,
            row_start + rows <= spatial,
            i <= n,
            forall|j: int|
                0 <= j < n ==> #[trigger] plane@[j] == (if j < i {
                    scattered(
                        before,
                        tile@,
                        row_start as int,
                        rows as int,
                        c_out as int,
                        spatial as int,
                    )[j]
                } else {
                    before[j]
                }),
        decreases n - i,
    {
        proof {
            lemma_matrix_split(i as int, c_out as int, spatial as int);
        }
        let p: usize = i % spatial;
        let oc: usize = i / spatial;
        if row_start <= p && p - row_start < rows {
            let local: usize = p - row_start;
            proof {
                lemma_matrix_index(local as int, oc as int, rows as int, c_out as int);
                assert(local * c_out >= 0) by (nonlinear_arith)
                    requires
                        local >= 0,
                        c_out >= 0,
                ;
            }
            let v: u32 = tile[local * c_out + oc];
            plane.set(i, v);
        }
        i += 1;
    }
    assert(plane@ =~= scattered(
        before,
        tile@,
        row_start as int,
        rows as int,
        c_out as int,
        spatial as int,
    ));
}

/// The output plane after the first `n` tiles of a product `[spatial, c_out]`
/// have been spread over it.
pub open spec fn tiles_scattered(
    g: ConvGeometry,
    plane: Seq<u32>,
    product: Seq<u32>,
    n: nat,
) -> Seq<u32>
    decreases n,
{
    if n == 0 {
        plane
    } else {
        let i = n - 1;
        scattered(
            tiles_scattered(g, plane, product, i as nat),
            product.subrange(
                g.tile_start(i) * g.c_out,
                (g.tile_start(i) + g.tile_len(i)) * g.c_out,
            ),
            g.tile_start(i),
            g.tile_len(i),
            g.c_out as int,
            g.spatial as int,
        )
    }
}

/// Tiling does not show: once every tile has been spread over the plane, the
/// plane is the transpose of the whole product, whatever it held before.
pub proof fn law_scattered_tiles_are_the_transpose(
    g: ConvGeometry,
    plane: Seq<u32>,
    product: Seq<u32>,
)
    requires
        g.wf(),
        plane.len() == g.c_out * g.spatial,
        product.len() == g.spatial * g.c_out,
    ensures
        tiles_scattered(g, plane, product, g.tile_count() as nat) == transposed(
            product,
            g.spatial as int,
            g.c_out as int,
        ),
{
    vae::lemma_tile_rows(g);
    let n = g.tile_count();
    lemma_tiles_scattered(g, plane, product, n as nat);
    lemma_all_filled(g, tiles_scattered(g, plane, product, n as nat), product);
}

/// A plane that holds the first `n` tiles of a product `[spatial, c_out]`.
pub open spec fn filled(g: ConvGeometry, plane: Seq<u32>, product: Seq<u32>, n: int) -> bool {
    let (c, s) = (g.c_out as int, g.spatial as int);
    &&& plane.len() == c * s
    &&& forall|i: int|
        0 <= i < plane.len() && i % s < n * g.tile_rows() ==> #[trigger] plane[i] == product[i % s
            * c + i / s]
}

/// A plane of which nothing is asked yet.
pub proof fn lemma_none_filled(g: ConvGeometry, plane: Seq<u32>, product: Seq<u32>)
    requires
        plane.len() == g.c_out * g.spatial,
    ensures
        filled(g, plane, product, 0),
{
    let (c, s, t) = (g.c_out as int, g.spatial as int, g.tile_rows());
    assert(0 * t == 0) by (nonlinear_arith);
    assert forall|i: int| 0 <= i < plane.len() && i % s < 0 * t implies #[trigger] plane[i]
        == product[i % s * c + i / s] by {
        lemma_matrix_split(i, c, s);
    }
}

/// Spreading the next tile fills the plane further.
pub proof fn lemma_next_filled(g: ConvGeometry, plane: Seq<u32>, product: Seq<u32>, k: int)
    requires
        g.wf(),
        product.len() == g.spatial * g.c_out,
        0 <= k < g.tile_count(),
        filled(g, plane, product, k),
    ensures
        filled(
            g,
            scattered(
                plane,
                product.subrange(
                    g.tile_start(k) * g.c_out,
                    (g.tile_start(k) + g.tile_len(k)) * g.c_out,
                ),
                g.tile_start(k),
                g.tile_len(k),
                g.c_out as int,
                g.spatial as int,
            ),
            product,
            k + 1,
        ),
{
    let (c, s, t) = (g.c_out as int, g.spatial as int, g.tile_rows());
    vae::lemma_tile_rows(g);
    vae::lemma_tile_bounds(g, k);
    let (start, len) = (g.tile_start(k), g.tile_len(k));
    let tile = product.subrange(start * c, (start + len) * c);
    assert(0 <= start * c <= (start + len) * c <= s * c) by (nonlinear_arith)
        requires
            0 <= start,
            0 <= len,
            start + len <= s,
            c >= 0,
    ;
    let next = scattered(plane, tile, start, len, c, s);
    assert forall|i: int| 0 <= i < next.len() && i % s < (k + 1) * t implies #[trigger] next[i]
        == product[i % s * c + i / s] by {
        lemma_matrix_split(i, c, s);
        let (p, oc) = (i % s, i / s);
        assert((k + 1) * t == start + t);
        if start <= p < start + len {
            lemma_matrix_index(p - start, oc, len, c);
            assert((start + len) * c - start * c == len * c) by (nonlinear_arith);
            assert((p - start) * c + oc + start * c == p * c + oc) by (nonlinear_arith);
            assert(tile[(p - start) * c + oc] == product[p * c + oc]);
        } else {
            assert(p < start);
        }
    }
}

/// A plane that holds every tile is the transpose of the product.
pub proof fn lemma_all_filled(g: ConvGeometry, plane: Seq<u32>, product: Seq<u32>)
    requires
        g.wf(),
        product.len() == g.spatial * g.c_out,
        filled(g, plane, product, g.tile_count()),
    ensures
        plane == transposed(product, g.spatial as int, g.c_out as int),
{
    vae::lemma_tile_rows(g);
    let n = g.tile_count();
    let (c, s) = (g.c_out as int, g.spatial as int);
    assert(c * s == s * c) by (nonlinear_arith);
    assert forall|i: int| 0 <= i < plane.len() implies #[trigger] plane[i] == transposed(
        product,
        s,
        c,
    )[i] by {
        lemma_matrix_split(i, c, s);
        assert(i % s < n * g.tile_rows());
    }
    assert(plane =~= transposed(product, s, c));
}

proof fn lemma_tiles_scattered(g: ConvGeometry, plane: Seq<u32>, product: Seq<u32>, n: nat)
    requires
        g.wf(),
        plane.len() == g.c_out * g.spatial,
        product.len() == g.spatial * g.c_out,
        n <= g.tile_count(),
    ensures
        filled(g, tiles_scattered(g, plane, product, n), product, n as int),
    decreases n,
{
    if n == 0 {
        lemma_none_filled(g, plane, product);
    } else {
        let k = n - 1;
        lemma_tiles_scattered(g, plane, product, k as nat);
        lemma_next_filled(g, tiles_scattered(g, plane, product, k as nat), product, k);
    }
}

/// Planes of `spatial` elements with each channel's bias added.
pub open spec fn biased<T: Arith>(t: &T, planes: Seq<u32>, bias: Seq<u32>, spatial: int) -> Seq<
    u32,
> {
    Seq::new(planes.len(), |i: int| arith::sum(t, planes[i], bias[i / spatial]))
}

/// Adds each channel's bias to its plane of `spatial` elements.
pub fn add_bias<T: Arith>(
    t: &T,
    planes: &mut Vec<u32>,
    bias: &[u32],
    channels: usize,
    spatial: usize,
)
    requires
        arith::deterministic(t),
        old(planes)@.len() == channels * spatial,
        bias@.len() == channels,
    ensures
        final(planes)@ == biased(t, old(planes)@, bias@, spatial as int),
{
    let ghost before = planes@;
    let ghost goal = biased(t, before, bias@, spatial as int);
    let n: usize = planes.len();
    let mut i: usize = 0;
    while i < n
        invariant
            arith::deterministic(t),
            n == channels * spatial,
            n == before.len(),
            bias@.len() == channels,
            goal == biased(t, before, bias@, spatial as int),
            planes@.len() == n,
            i <= n,
            forall|q: int|
                0 <= q < n ==> #[trigger] planes@[q] == (if q < i {
                    goal[q]
                } else {
                    before[q]
                }),
        decreases n - i,
    {
        assert(spatial > 0 && i / spatial < channels) by (nonlinear_arith)
            requires
                0 <= i < channels * spatial,
                spatial >= 0,
                channels >= 0,
        ;
        let v: u32 = do_sum(t, planes[i], bias[i / spatial]);
        planes.set(i, v);
        i += 1;
    }
    assert(planes@ =~= goal);
}

} // verus!

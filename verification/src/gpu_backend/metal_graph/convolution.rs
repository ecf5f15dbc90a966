//! What the convolution plans compute, given what their kernels do.

use vstd::prelude::*;

use crate::arith;
use crate::arith::Arith;
use crate::gpu_backend::metal_graph::machine;
use crate::gpu_backend::metal_graph::planes;
use crate::gpu_backend::metal_graph::vae::ConvGeometry;

verus! {

/// Element `e` of the patch at output position `s`: kernel row, kernel column,
/// then channel; zero outside the input.
pub open spec fn patch_element(input: Seq<u32>, g: ConvGeometry, s: int, e: int) -> u32 {
    machine::gathered(
        input,
        g.c_in as int,
        g.h as int,
        g.w as int,
        g.k as int,
        g.pad as int,
        g.w_out as int,
        s,
        e,
    )
}

/// The patch at output position `s`.
pub open spec fn patch(input: Seq<u32>, g: ConvGeometry, s: int) -> Seq<u32> {
    machine::gathered_patch(
        input,
        g.c_in as int,
        g.h as int,
        g.w as int,
        g.k as int,
        g.pad as int,
        g.w_out as int,
        g.patch_dim as int,
        s,
    )
}

/// Weights of an output channel.
pub open spec fn filter(weight: Seq<u32>, g: ConvGeometry, oc: int) -> Seq<u32> {
    weight.subrange(oc * g.patch_dim, oc * g.patch_dim + g.patch_dim)
}

/// A convolution, `[c_out, spatial]`: a channel's filter and a position's patch
/// multiplied by the kernels' `dot`, and the channel's bias added.
pub open spec fn convolution<T: Arith>(
    t: &T,
    dot: spec_fn(Seq<u32>, Seq<u32>) -> u32,
    weight: Seq<u32>,
    input: Seq<u32>,
    bias: Seq<u32>,
    g: ConvGeometry,
) -> Seq<u32> {
    let spatial = g.spatial as int;
    Seq::new(
        (g.c_out * g.spatial) as nat,
        |i: int|
            arith::sum(
                t,
                dot(filter(weight, g, i / spatial), patch(input, g, i % spatial)),
                bias[i / spatial],
            ),
    )
}

/// What the matrix product leaves for `rows` patches from position `start` on,
/// `[rows, c_out]`.
pub open spec fn tile_product(
    dot: spec_fn(Seq<u32>, Seq<u32>) -> u32,
    weight: Seq<u32>,
    input: Seq<u32>,
    g: ConvGeometry,
    start: int,
    rows: int,
) -> Seq<u32> {
    let c = g.c_out as int;
    Seq::new(
        (rows * c) as nat,
        |q: int| dot(filter(weight, g, q % c), patch(input, g, start + q / c)),
    )
}

/// What the implicit kernel leaves, `[c_out, spatial]`.
pub open spec fn implicit_product(
    dot: spec_fn(Seq<u32>, Seq<u32>) -> u32,
    weight: Seq<u32>,
    input: Seq<u32>,
    g: ConvGeometry,
) -> Seq<u32> {
    let spatial = g.spatial as int;
    Seq::new(
        (g.c_out * g.spatial) as nat,
        |i: int| dot(filter(weight, g, i / spatial), patch(input, g, i % spatial)),
    )
}

/// A tile holds its rows of the whole product.
pub proof fn law_tile_is_part_of_convolution(
    dot: spec_fn(Seq<u32>, Seq<u32>) -> u32,
    weight: Seq<u32>,
    input: Seq<u32>,
    g: ConvGeometry,
    start: int,
    rows: int,
)
    requires
        g.wf(),
        0 <= start,
        0 <= rows,
        start + rows <= g.spatial,
    ensures
        tile_product(dot, weight, input, g, start, rows) == tile_product(
            dot,
            weight,
            input,
            g,
            0,
            g.spatial as int,
        ).subrange(start * g.c_out, (start + rows) * g.c_out),
{
    let c = g.c_out as int;
    let s = g.spatial as int;
    let whole = tile_product(dot, weight, input, g, 0, s);
    let tile = tile_product(dot, weight, input, g, start, rows);
    assert(0 <= start * c <= (start + rows) * c && (start + rows) * c <= s * c && (start + rows) * c
        == start * c + rows * c && 0 <= rows * c) by (nonlinear_arith)
        requires
            0 <= start,
            0 <= rows,
            start + rows <= s,
            c >= 0,
    ;
    assert forall|q: int| 0 <= q < tile.len() implies #[trigger] tile[q] == whole.subrange(
        start * c,
        (start + rows) * c,
    )[q] by {
        vstd::arithmetic::div_mod::lemma_fundamental_div_mod(q, c);
        vstd::arithmetic::div_mod::lemma_mod_bound(q, c);
        assert(start * c + q == (start + q / c) * c + q % c) by (nonlinear_arith)
            requires
                q == c * (q / c) + q % c,
        ;
        vstd::arithmetic::div_mod::lemma_fundamental_div_mod_converse(
            start * c + q,
            c,
            start + q / c,
            q % c,
        );
    }
    assert(tile =~= whole.subrange(start * c, (start + rows) * c));
}

/// Tiles, scatter and bias make a convolution, whatever the plane held before.
pub proof fn law_tiles_make_a_convolution<T: Arith>(
    t: &T,
    dot: spec_fn(Seq<u32>, Seq<u32>) -> u32,
    weight: Seq<u32>,
    input: Seq<u32>,
    bias: Seq<u32>,
    plane: Seq<u32>,
    g: ConvGeometry,
)
    requires
        g.wf(),
        plane.len() == g.c_out * g.spatial,
    ensures
        planes::biased(
            t,
            planes::tiles_scattered(
                g,
                plane,
                tile_product(dot, weight, input, g, 0, g.spatial as int),
                g.tile_count() as nat,
            ),
            bias,
            g.spatial as int,
        ) == convolution(t, dot, weight, input, bias, g),
{
    let (c, s) = (g.c_out as int, g.spatial as int);
    let product = tile_product(dot, weight, input, g, 0, s);
    assert(s * c == c * s && s * c >= 0) by (nonlinear_arith)
        requires
            s >= 0,
            c >= 0,
    ;
    planes::law_scattered_tiles_are_the_transpose(g, plane, product);
    lemma_transpose_and_bias(t, dot, weight, input, bias, g);
}

/// The transposed product with the bias is the convolution.
pub proof fn lemma_transpose_and_bias<T: Arith>(
    t: &T,
    dot: spec_fn(Seq<u32>, Seq<u32>) -> u32,
    weight: Seq<u32>,
    input: Seq<u32>,
    bias: Seq<u32>,
    g: ConvGeometry,
)
    requires
        g.wf(),
    ensures
        planes::biased(
            t,
            planes::transposed(
                tile_product(dot, weight, input, g, 0, g.spatial as int),
                g.spatial as int,
                g.c_out as int,
            ),
            bias,
            g.spatial as int,
        ) == convolution(t, dot, weight, input, bias, g),
{
    let (c, s) = (g.c_out as int, g.spatial as int);
    let product = tile_product(dot, weight, input, g, 0, s);
    let turned = planes::transposed(product, s, c);
    assert(s * c == c * s && s * c >= 0) by (nonlinear_arith)
        requires
            s >= 0,
            c >= 0,
    ;
    let goal = convolution(t, dot, weight, input, bias, g);
    let got = planes::biased(t, turned, bias, s);
    assert forall|i: int| 0 <= i < goal.len() implies #[trigger] got[i] == goal[i] by {
        let (oc, p) = (i / s, i % s);
        planes::lemma_matrix_split(i, c, s);
        planes::lemma_matrix_index(p, oc, s, c);
        vstd::arithmetic::div_mod::lemma_fundamental_div_mod_converse(p * c + oc, c, p, oc);
        assert(turned[i] == product[p * c + oc]);
    }
    assert(got =~= goal);
}

/// The implicit kernel and the bias make a convolution: with the same products of
/// filter and patch, both ways give the same.
pub proof fn law_implicit_kernel_makes_a_convolution<T: Arith>(
    t: &T,
    dot: spec_fn(Seq<u32>, Seq<u32>) -> u32,
    weight: Seq<u32>,
    input: Seq<u32>,
    bias: Seq<u32>,
    g: ConvGeometry,
)
    ensures
        planes::biased(
            t,
            implicit_product(dot, weight, input, g),
            bias,
            g.spatial as int,
        ) == convolution(t, dot, weight, input, bias, g),
{
    assert(planes::biased(t, implicit_product(dot, weight, input, g), bias, g.spatial as int)
        =~= convolution(t, dot, weight, input, bias, g));
}

/// With a kernel of one element, a row of the transposed input is a patch.
pub proof fn lemma_transposed_row_is_a_patch(input: Seq<u32>, g: ConvGeometry, s: int)
    requires
        g.wf(),
        g.k == 1,
        g.pad == 0,
        g.c_in > 0,
        g.patch_dim == g.c_in,
        g.w_out == g.w,
        g.spatial == g.h * g.w,
        input.len() == g.c_in * g.spatial,
        0 <= s < g.spatial,
    ensures
        planes::transposed(input, g.c_in as int, g.spatial as int).subrange(
            s * g.c_in,
            s * g.c_in + g.c_in,
        ) == patch(input, g, s),
{
    let (c, n, w) = (g.c_in as int, g.spatial as int, g.w as int);
    let turned = planes::transposed(input, c, n);
    assert(0 <= s * c && s * c + c <= n * c && n * c == c * n) by (nonlinear_arith)
        requires
            0 <= s < n,
            c > 0,
    ;
    let rows = turned.subrange(s * c, s * c + c);
    assert forall|e: int| 0 <= e < c implies #[trigger] rows[e] == patch(input, g, s)[e] by {
        planes::lemma_matrix_index(s, e, n, c);
        vstd::arithmetic::div_mod::lemma_fundamental_div_mod_converse(s * c + e, c, s, e);
        assert(turned[s * c + e] == input[e * n + s]);
        vstd::arithmetic::div_mod::lemma_fundamental_div_mod_converse(e, c, 0, e);
        assert(w > 0) by (nonlinear_arith)
            requires
                n == g.h * w,
                n > 0,
                w >= 0,
        ;
        vstd::arithmetic::div_mod::lemma_fundamental_div_mod(s, w);
        vstd::arithmetic::div_mod::lemma_mod_bound(s, w);
        let (y, x) = (s / w, s % w);
        assert(y * w + x == s) by (nonlinear_arith)
            requires
                s == w * y + x,
        ;
        assert(0 <= y < g.h) by (nonlinear_arith)
            requires
                y * w + x == s,
                0 <= x < w,
                0 <= s < g.h * w,
        ;
    }
    assert(rows =~= patch(input, g, s));
}

} // verus!

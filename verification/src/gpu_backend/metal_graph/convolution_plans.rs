//! Carried out, the plans of a convolution make that convolution.

use vstd::prelude::*;

use crate::arith;
use crate::arith::Arith;
use crate::gpu_backend::metal_graph::convolution;
use crate::gpu_backend::metal_graph::device::{Action, Buf, ScratchBuf};
use crate::gpu_backend::metal_graph::error::MetalWeightHandle;
use crate::gpu_backend::metal_graph::gemm;
use crate::gpu_backend::metal_graph::graph::Residency;
use crate::gpu_backend::metal_graph::machine;
use crate::gpu_backend::metal_graph::machine::{Host, Kernels, Machine};
use crate::gpu_backend::metal_graph::planes;
use crate::gpu_backend::metal_graph::vae;
use crate::gpu_backend::metal_graph::vae::{ConvArgs, ConvGeometry, ConvPlan};

verus! {

/// The geometry's numbers fit the kernels' 32-bit arguments.
pub open spec fn fits_kernels(g: ConvGeometry) -> bool {
    &&& g.c_in <= u32::MAX
    &&& g.c_out <= u32::MAX
    &&& g.h <= u32::MAX
    &&& g.w <= u32::MAX
    &&& g.k <= u32::MAX
    &&& g.pad <= u32::MAX
    &&& g.spatial <= u32::MAX
    &&& g.patch_dim <= u32::MAX
    &&& g.w_out <= u32::MAX
}

/// The geometry belongs to an input plane: patches are `k` by `k` by `c_in`.
pub open spec fn of_input(g: ConvGeometry, input: Seq<u32>) -> bool {
    &&& g.wf()
    &&& fits_kernels(g)
    &&& g.c_in > 0
    &&& g.patch_dim == g.k * g.k * g.c_in
    &&& input.len() == g.c_in * g.h * g.w
}

/// The host hands over a convolution's operands.
pub open spec fn hands_over(host: Host, g: ConvGeometry, input: Seq<u32>) -> bool {
    &&& host.operands[Buf::Scratch(ScratchBuf::Input)] == input
    &&& host.channels == g.c_out
    &&& host.spatial == g.spatial
}

/// The buffer's first elements are these.
spec fn starts_with(buffer: Seq<u32>, contents: Seq<u32>) -> bool {
    forall|j: int| 0 <= j < contents.len() ==> #[trigger] buffer[j] == contents[j]
}

/// What is gathered from a buffer that starts with the input is gathered from the
/// input.
proof fn lemma_gathered(buffer: Seq<u32>, input: Seq<u32>, g: ConvGeometry, s: int, e: int)
    requires
        of_input(g, input),
        starts_with(buffer, input),
    ensures
        convolution::patch_element(buffer, g, s, e) == convolution::patch_element(input, g, s, e),
{
    let (c, h, w, k, pad) = (
        g.c_in as int,
        g.h as int,
        g.w as int,
        g.k as int,
        g.pad as int,
    );
    let row = s / g.w_out as int + e / c / k - pad;
    let col = s % g.w_out as int + e / c % k - pad;
    if 0 <= row < h && 0 <= col < w {
        vstd::arithmetic::div_mod::lemma_mod_bound(e, c);
        planes::lemma_matrix_index(row, col, h, w);
        planes::lemma_matrix_index(e % c, row * w + col, c, h * w);
        assert(c * (h * w) == c * h * w) by (nonlinear_arith);
        let at = e % c * (h * w) + row * w + col;
        assert(buffer[at] == input[at]);
    }
}

/// The patches of a tile, one after the other.
spec fn gathered_tile(buffer: Seq<u32>, g: ConvGeometry, start: int, rows: int) -> Seq<u32> {
    let dim = g.patch_dim as int;
    Seq::new(
        (rows * dim) as nat,
        |e: int| convolution::patch_element(buffer, g, start + e / dim, e % dim),
    )
}

/// Row `r` of a tile's patches is the patch of its position.
proof fn lemma_gathered_row(
    buffer: Seq<u32>,
    input: Seq<u32>,
    rest: Seq<u32>,
    g: ConvGeometry,
    start: int,
    rows: int,
    r: int,
)
    requires
        of_input(g, input),
        starts_with(buffer, input),
        0 <= r < rows,
    ensures
        (gathered_tile(buffer, g, start, rows) + rest).subrange(
            r * g.patch_dim,
            r * g.patch_dim + g.patch_dim,
        ) == convolution::patch(input, g, start + r),
{
    let dim = g.patch_dim as int;
    let tile = gathered_tile(buffer, g, start, rows);
    assert(0 <= r * dim && r * dim + dim <= rows * dim) by (nonlinear_arith)
        requires
            0 <= r,
            r + 1 <= rows,
            dim > 0,
    ;
    let got = (tile + rest).subrange(r * dim, r * dim + dim);
    let goal = convolution::patch(input, g, start + r);
    assert forall|e: int| 0 <= e < dim implies #[trigger] got[e] == goal[e] by {
        planes::lemma_matrix_index(r, e, rows, dim);
        lemma_gathered(buffer, input, g, start + r, e);
    }
    assert(got =~= goal);
}

/// The product of a tile's patches with the filters.
proof fn lemma_tile_product(
    dot: spec_fn(Seq<u32>, Seq<u32>) -> u32,
    weight: Seq<u32>,
    buffer: Seq<u32>,
    input: Seq<u32>,
    rest: Seq<u32>,
    g: ConvGeometry,
    start: int,
    rows: int,
)
    requires
        of_input(g, input),
        starts_with(buffer, input),
        0 <= rows,
    ensures
        ({
            let (c, dim) = (g.c_out as int, g.patch_dim as int);
            let patches = gathered_tile(buffer, g, start, rows) + rest;
            Seq::new(
                (rows * c) as nat,
                |q: int|
                    dot(
                        weight.subrange(q % c * dim, q % c * dim + dim),
                        patches.subrange(q / c * dim, q / c * dim + dim),
                    ),
            ) == convolution::tile_product(dot, weight, input, g, start, rows)
        }),
{
    let (c, dim) = (g.c_out as int, g.patch_dim as int);
    let patches = gathered_tile(buffer, g, start, rows) + rest;
    let got = Seq::new(
        (rows * c) as nat,
        |q: int|
            dot(
                weight.subrange(q % c * dim, q % c * dim + dim),
                patches.subrange(q / c * dim, q / c * dim + dim),
            ),
    );
    let goal = convolution::tile_product(dot, weight, input, g, start, rows);
    assert(0 <= rows * c) by (nonlinear_arith)
        requires
            0 <= rows,
            0 <= c,
    ;
    assert forall|q: int| 0 <= q < got.len() implies #[trigger] got[q] == goal[q] by {
        planes::lemma_matrix_split(q, rows, c);
        lemma_gathered_row(buffer, input, rest, g, start, rows, q / c);
    }
    assert(got =~= goal);
}

/// One tile: its product is read back and spread over the plane, and the input stays.
proof fn lemma_tile_carried_out<T: Arith>(
    t: &T,
    kernels: Kernels,
    host: Host,
    s: Machine,
    g: ConvGeometry,
    weight: MetalWeightHandle,
    input: Seq<u32>,
    i: int,
)
    requires
        of_input(g, input),
        hands_over(host, g, input),
        0 <= i < g.tile_count(),
        s.plane.len() == g.c_out * g.spatial,
        starts_with(s.buffers[Buf::Scratch(ScratchBuf::Input)], input),
        planes::filled(
            g,
            s.plane,
            convolution::tile_product(kernels.dot, host.weight, input, g, 0, g.spatial as int),
            i,
        ),
    ensures
        ({
            let after = machine::carried_out(t, kernels, host, s, g.tile(weight, i));
            &&& starts_with(after.buffers[Buf::Scratch(ScratchBuf::Input)], input)
            &&& planes::filled(
                g,
                after.plane,
                convolution::tile_product(kernels.dot, host.weight, input, g, 0, g.spatial as int),
                i + 1,
            )
        }),
{
    vae::lemma_tile_rows(g);
    vae::lemma_tile_bounds(g, i);
    let (start, rows) = (g.tile_start(i), g.tile_len(i));
    let (c, dim, n) = (g.c_out as int, g.patch_dim as int, g.spatial as int);
    let dot = kernels.dot;
    let product = convolution::tile_product(dot, host.weight, input, g, 0, n);
    let input_buf = Buf::Scratch(ScratchBuf::Input);
    let patches_buf = Buf::Scratch(ScratchBuf::Patches);
    let output_buf = Buf::Scratch(ScratchBuf::Output);
    let buffer = s.buffers[input_buf];
    assert(rows * dim <= u32::MAX) by {
        if g.tile_rows() == 1 {
            assert(rows == 1);
            assert(1 * dim == dim);
        } else {
            assert(g.tile_rows() * (dim * 4) == g.tile_rows() * dim * 4) by (nonlinear_arith);
        }
    }
    assert(n * c == c * n) by (nonlinear_arith);
    let actions = g.tile(weight, i);
    let s1 = machine::acted(t, kernels, host, s, actions[0]);
    let s2 = machine::acted(t, kernels, host, s1, actions[1]);
    let s3 = machine::acted(t, kernels, host, s2, actions[2]);
    let s4 = machine::acted(t, kernels, host, s3, actions[3]);
    let s5 = machine::acted(t, kernels, host, s4, actions[4]);
    assert(machine::carried_out(t, kernels, host, s, actions) == s5) by {
        reveal_with_fuel(machine::carried, 6);
    }
    let rest = s.buffers[patches_buf].skip((rows * dim) as int);
    let tile = gathered_tile(buffer, g, start, rows);
    assert(s1.buffers[patches_buf] =~= tile + rest);
    assert(s1.buffers[input_buf] == buffer);
    lemma_tile_product(dot, host.weight, buffer, input, rest, g, start, rows);
    let part = convolution::tile_product(dot, host.weight, input, g, start, rows);
    assert(s2.buffers[output_buf] =~= machine::written(s1.buffers[output_buf], part));
    assert(s4.read =~= part);
    convolution::law_tile_is_part_of_convolution(dot, host.weight, input, g, start, rows);
    if rows * c == c * n {
        assert(rows == n) by (nonlinear_arith)
            requires
                rows * c == c * n,
                c > 0,
        ;
        assert(start == 0);
        assert(i == 0) by (nonlinear_arith)
            requires
                i * g.tile_rows() == 0,
                g.tile_rows() > 0,
        ;
        planes::lemma_none_filled(g, s4.plane, product);
    }
    planes::lemma_next_filled(g, s4.plane, product, i);
    assert(s5.buffers[input_buf] == buffer);
}

/// The first `n` tiles fill the plane that far.
proof fn lemma_tiles_carried_out<T: Arith>(
    t: &T,
    kernels: Kernels,
    host: Host,
    s: Machine,
    g: ConvGeometry,
    weight: MetalWeightHandle,
    input: Seq<u32>,
    n: nat,
)
    requires
        of_input(g, input),
        hands_over(host, g, input),
        n <= g.tile_count(),
        s.plane.len() == g.c_out * g.spatial,
        starts_with(s.buffers[Buf::Scratch(ScratchBuf::Input)], input),
    ensures
        ({
            let after = machine::carried_out(t, kernels, host, s, g.tiles(weight, n));
            &&& starts_with(after.buffers[Buf::Scratch(ScratchBuf::Input)], input)
            &&& planes::filled(
                g,
                after.plane,
                convolution::tile_product(kernels.dot, host.weight, input, g, 0, g.spatial as int),
                n as int,
            )
        }),
    decreases n,
{
    if n == 0 {
        planes::lemma_none_filled(
            g,
            s.plane,
            convolution::tile_product(kernels.dot, host.weight, input, g, 0, g.spatial as int),
        );
    } else {
        let before = g.tiles(weight, (n - 1) as nat);
        lemma_tiles_carried_out(t, kernels, host, s, g, weight, input, (n - 1) as nat);
        let middle = machine::carried_out(t, kernels, host, s, before);
        machine::law_plans_are_carried_out_in_turn(
            t,
            kernels,
            host,
            s,
            before,
            g.tile(weight, n - 1),
        );
        lemma_tile_carried_out(t, kernels, host, middle, g, weight, input, n - 1);
    }
}

/// The tiled plan makes the convolution, whatever the plane and new buffers held
/// before.
pub proof fn law_im2col_plan_makes_a_convolution<T: Arith>(
    t: &T,
    kernels: Kernels,
    host: Host,
    s: Machine,
    g: ConvGeometry,
    weight: MetalWeightHandle,
    input: Seq<u32>,
    input_len: usize,
)
    requires
        of_input(g, input),
        hands_over(host, g, input),
        input_len == input.len(),
        s.plane.len() == g.c_out * g.spatial,
    ensures
        machine::carried_out(
            t,
            kernels,
            host,
            s,
            g.im2col_plan(weight, input_len),
        ).plane == convolution::convolution(t, kernels.dot, host.weight, input, host.bias, g),
{
    let (c, n) = (g.c_out as int, g.spatial as int);
    vae::lemma_tile_rows(g);
    let input_buf = Buf::Scratch(ScratchBuf::Input);
    let plan = g.im2col_plan(weight, input_len);
    let head = plan.take(4);
    let tiles = g.tiles(weight, g.tile_count() as nat);
    let tail = seq![Action::AddBias { channels: g.c_out, spatial: g.spatial }];
    assert(plan =~= head + tiles + tail);
    let s1 = machine::acted(t, kernels, host, s, head[0]);
    let s2 = machine::acted(t, kernels, host, s1, head[1]);
    let s3 = machine::acted(t, kernels, host, s2, head[2]);
    let s4 = machine::acted(t, kernels, host, s3, head[3]);
    assert(machine::carried_out(t, kernels, host, s, head) == s4) by {
        reveal_with_fuel(machine::carried, 5);
    }
    assert(host.operands[input_buf].take(input_len as int) =~= input);
    assert(s2.buffers[input_buf] == machine::written(s1.buffers[input_buf], input));
    assert(s4.buffers[input_buf] == s2.buffers[input_buf]);
    assert(starts_with(s4.buffers[input_buf], input));
    lemma_tiles_carried_out(
        t,
        kernels,
        host,
        s4,
        g,
        weight,
        input,
        g.tile_count() as nat,
    );
    let s5 = machine::carried_out(t, kernels, host, s4, tiles);
    let product = convolution::tile_product(kernels.dot, host.weight, input, g, 0, n);
    assert(n * c >= 0 && n * c == c * n) by (nonlinear_arith)
        requires
            n >= 0,
            c >= 0,
    ;
    planes::lemma_all_filled(g, s5.plane, product);
    machine::law_plans_are_carried_out_in_turn(t, kernels, host, s, head, tiles);
    machine::law_plans_are_carried_out_in_turn(t, kernels, host, s, head + tiles, tail);
    assert(machine::carried_out(t, kernels, host, s5, tail) == machine::acted(
        t,
        kernels,
        host,
        s5,
        tail[0],
    )) by {
        reveal_with_fuel(machine::carried, 2);
    }
    convolution::lemma_transpose_and_bias(t, kernels.dot, host.weight, input, host.bias, g);
}

/// The plan that gathers patches on the fly makes the same convolution.
pub proof fn law_implicit_plan_makes_a_convolution<T: Arith>(
    t: &T,
    kernels: Kernels,
    host: Host,
    s: Machine,
    g: ConvGeometry,
    weight: MetalWeightHandle,
    input: Seq<u32>,
    input_len: usize,
)
    requires
        of_input(g, input),
        hands_over(host, g, input),
        input_len == input.len(),
    ensures
        machine::carried_out(
            t,
            kernels,
            host,
            s,
            g.implicit_plan(weight, input_len),
        ).plane == convolution::convolution(t, kernels.dot, host.weight, input, host.bias, g),
{
    let (c, n) = (g.c_out as int, g.spatial as int);
    let input_buf = Buf::Scratch(ScratchBuf::Input);
    let output_buf = Buf::Scratch(ScratchBuf::Output);
    let plan = g.implicit_plan(weight, input_len);
    let s1 = machine::acted(t, kernels, host, s, plan[0]);
    let s2 = machine::acted(t, kernels, host, s1, plan[1]);
    let s3 = machine::acted(t, kernels, host, s2, plan[2]);
    let s4 = machine::acted(t, kernels, host, s3, plan[3]);
    let s5 = machine::acted(t, kernels, host, s4, plan[4]);
    let s6 = machine::acted(t, kernels, host, s5, plan[5]);
    let s7 = machine::acted(t, kernels, host, s6, plan[6]);
    assert(machine::carried_out(t, kernels, host, s, plan) == s7) by {
        reveal_with_fuel(machine::carried, 8);
    }
    assert(host.operands[input_buf].take(input_len as int) =~= input);
    let buffer = s3.buffers[input_buf];
    assert(s2.buffers[input_buf] == machine::written(s1.buffers[input_buf], input));
    assert(starts_with(buffer, input));
    assert(0 <= c * n) by (nonlinear_arith)
        requires
            c >= 0,
            n >= 0,
    ;
    let product = convolution::implicit_product(kernels.dot, host.weight, input, g);
    let got = convolution::implicit_product(kernels.dot, host.weight, buffer, g);
    assert forall|i: int| 0 <= i < c * n implies #[trigger] got[i] == product[i] by {
        let p = i % n;
        assert forall|e: int| 0 <= e < g.patch_dim implies #[trigger] convolution::patch(
            buffer,
            g,
            p,
        )[e] == convolution::patch(input, g, p)[e] by {
            lemma_gathered(buffer, input, g, p, e);
        }
        assert(convolution::patch(buffer, g, p) =~= convolution::patch(input, g, p));
    }
    assert(got =~= product);
    assert(s4.buffers[output_buf] =~= machine::written(s3.buffers[output_buf], got));
    assert(s6.plane =~= product);
    convolution::law_implicit_kernel_makes_a_convolution(
        t,
        kernels.dot,
        host.weight,
        input,
        host.bias,
        g,
    );
}

/// The channel mix makes the convolution: the transposed input goes in, and what
/// is read back is transposed and gets the bias.
pub proof fn law_channel_mix_makes_a_convolution<T: Arith>(
    t: &T,
    kernels: Kernels,
    host: Host,
    s: Machine,
    resident: Residency,
    g: ConvGeometry,
    weight: MetalWeightHandle,
    input: Seq<u32>,
    input_len: usize,
    output_len: usize,
)
    requires
        of_input(g, input),
        g.k == 1,
        g.pad == 0,
        g.w_out == g.w,
        g.spatial == g.h * g.w,
        host.operands[Buf::GemmInput] == planes::transposed(
            input,
            g.c_in as int,
            g.spatial as int,
        ),
        input_len == input.len(),
        input_len > 0,
        output_len == g.c_out * g.spatial,
    ensures
        planes::biased(
            t,
            planes::transposed(
                machine::carried_out(
                    t,
                    kernels,
                    host,
                    s,
                    gemm::gemm_plan(
                        resident,
                        gemm::gemm_f32_step(weight, g.spatial, g.c_out, g.c_in),
                        input_len,
                        output_len,
                    ),
                ).read,
                g.spatial as int,
                g.c_out as int,
            ),
            host.bias,
            g.spatial as int,
        ) == convolution::convolution(t, kernels.dot, host.weight, input, host.bias, g),
{
    let (ci, c, n) = (g.c_in as int, g.c_out as int, g.spatial as int);
    assert(n * c == c * n && 0 < c * n) by (nonlinear_arith)
        requires
            c > 0,
            n > 0,
    ;
    assert(ci * g.h * g.w == ci * (g.h * g.w) && ci * n == n * ci) by (nonlinear_arith);
    assert(1 * 1 * ci == ci);
    let turned = planes::transposed(input, ci, n);
    gemm::law_gemm_f32_plan_gives_the_product(
        t,
        kernels,
        host,
        s,
        resident,
        weight,
        g.spatial,
        g.c_out,
        g.c_in,
        input_len,
        output_len,
    );
    let product = convolution::tile_product(kernels.dot, host.weight, input, g, 0, n);
    let got = machine::carried_out(
        t,
        kernels,
        host,
        s,
        gemm::gemm_plan(
            resident,
            gemm::gemm_f32_step(weight, g.spatial, g.c_out, g.c_in),
            input_len,
            output_len,
        ),
    ).read;
    assert forall|q: int| 0 <= q < got.len() implies #[trigger] got[q] == product[q] by {
        planes::lemma_matrix_split(q, n, c);
        convolution::lemma_transposed_row_is_a_patch(input, g, q / c);
    }
    assert(got =~= product);
    convolution::lemma_transpose_and_bias(t, kernels.dot, host.weight, input, host.bias, g);
}

/// Whichever way a convolution is planned, carrying the plan out makes the
/// convolution, and so does the plan to fall back to.
pub proof fn law_planned_convolution<T: Arith>(
    t: &T,
    kernels: Kernels,
    host: Host,
    s: Machine,
    resident: Residency,
    a: ConvArgs,
    implicit_disabled: bool,
    plan: ConvPlan,
    input: Seq<u32>,
)
    requires
        a.fault() is None,
        a.no_overflow(),
        !a.is_empty(),
        a.planned(resident, implicit_disabled, plan),
        fits_kernels(a.geometry()),
        input.len() == a.input_len,
        hands_over(host, a.geometry(), input),
        host.operands[Buf::GemmInput] == planes::transposed(
            input,
            a.c_in as int,
            a.spatial() as int,
        ),
        s.plane.len() == a.output_len,
    ensures
        ({
            let goal = convolution::convolution(
                t,
                kernels.dot,
                host.weight,
                input,
                host.bias,
                a.geometry(),
            );
            match plan {
                ConvPlan::Empty => false,
                ConvPlan::ChannelMix(p) => planes::biased(
                    t,
                    planes::transposed(
                        machine::carried_out(t, kernels, host, s, p@).read,
                        a.spatial(),
                        a.c_out as int,
                    ),
                    host.bias,
                    a.spatial(),
                ) == goal,
                ConvPlan::Implicit { plan: p, fallback } => machine::carried_out(
                    t,
                    kernels,
                    host,
                    s,
                    p@,
                ).plane == goal && machine::carried_out(t, kernels, host, s, fallback@).plane
                    == goal,
                ConvPlan::Im2col(p) => machine::carried_out(t, kernels, host, s, p@).plane == goal,
            }
        }),
{
    let g = a.geometry();
    lemma_geometry(a, input);
    if a.is_channel_mix() {
        law_channel_mix_makes_a_convolution(
            t,
            kernels,
            host,
            s,
            resident,
            g,
            a.weight,
            input,
            a.input_len,
            a.output_len,
        );
    } else {
        law_im2col_plan_makes_a_convolution(
            t,
            kernels,
            host,
            s,
            g,
            a.weight,
            input,
            a.input_len,
        );
        law_implicit_plan_makes_a_convolution(
            t,
            kernels,
            host,
            s,
            g,
            a.weight,
            input,
            a.input_len,
        );
    }
}

/// Accepted operands have a geometry that belongs to the input.
proof fn lemma_geometry(a: ConvArgs, input: Seq<u32>)
    requires
        a.fault() is None,
        a.no_overflow(),
        !a.is_empty(),
        fits_kernels(a.geometry()),
        input.len() == a.input_len,
    ensures
        of_input(a.geometry(), input),
        a.output_len == a.geometry().c_out * a.geometry().spatial,
        a.geometry().spatial == a.spatial(),
        a.geometry().w_out == a.w_out(),
        a.geometry().patch_dim == a.patch_dim(),
        a.is_channel_mix() ==> a.w_out() == a.w && a.spatial() == a.h * a.w,
{
    let (ci, c, h, w, k) = (a.c_in as int, a.c_out as int, a.h as int, a.w as int, a.k as int);
    let n = a.spatial();
    assert(ci > 0 && h > 0 && w > 0) by (nonlinear_arith)
        requires
            ci * h * w > 0,
            ci >= 0,
            h >= 0,
            w >= 0,
    ;
    assert(n > 0) by (nonlinear_arith)
        requires
            n == a.h_out() * a.w_out(),
            a.h_out() > 0,
            a.w_out() > 0,
    ;
    assert(c > 0) by (nonlinear_arith)
        requires
            c * n > 0,
            n > 0,
    ;
    assert(a.w_out() <= n) by (nonlinear_arith)
        requires
            n == a.h_out() * a.w_out(),
            a.h_out() > 0,
            a.w_out() > 0,
    ;
    assert(k * k > 0) by (nonlinear_arith)
        requires
            k > 0,
    ;
    let dim = a.patch_dim();
    assert(dim > 0) by (nonlinear_arith)
        requires
            dim == k * k * ci,
            k * k > 0,
            ci > 0,
    ;
    if a.is_channel_mix() {
        assert(dim == ci) by (nonlinear_arith)
            requires
                dim == k * k * ci,
                k == 1,
        ;
        assert(ci <= ci * h * w) by (nonlinear_arith)
            requires
                ci > 0,
                h > 0,
                w > 0,
        ;
    } else {
        assert(dim * 4 <= c * dim * 4 && dim <= dim * 4) by (nonlinear_arith)
            requires
                c > 0,
                dim > 0,
        ;
    }
}

/// Number `e` of a patch, by kernel row, kernel column and channel, at row `y` and column
/// `x` of the output: what lies there in the padded input, and zero in the padding.
pub open spec fn under_the_kernel(input: Seq<u32>, a: ConvArgs, y: int, x: int, e: int) -> u32 {
    let (c, k) = (a.c_in as int, a.k as int);
    let row = y + e / c / k - a.pad;
    let col = x + e / c % k - a.pad;
    if 0 <= row < a.h && 0 <= col < a.w {
        input[e % c * (a.h * a.w) + row * a.w + col]
    } else {
        0
    }
}

/// The convolution that the arguments ask for: output channel `oc` at row `y` and column
/// `x` is the channel's weights times what lies under the kernel there, and the channel's
/// bias added.
pub proof fn law_convolution_of_the_arguments<T: Arith>(
    t: &T,
    dot: spec_fn(Seq<u32>, Seq<u32>) -> u32,
    weight: Seq<u32>,
    input: Seq<u32>,
    bias: Seq<u32>,
    a: ConvArgs,
    oc: int,
    y: int,
    x: int,
)
    requires
        a.fault() is None,
        a.no_overflow(),
        !a.is_empty(),
        a.k * a.k * a.c_in <= usize::MAX,
        0 <= oc < a.c_out,
        0 <= y < a.h + 2 * a.pad - a.k + 1,
        0 <= x < a.w + 2 * a.pad - a.k + 1,
    ensures
        ({
            let h_out = a.h + 2 * a.pad - a.k + 1;
            let w_out = a.w + 2 * a.pad - a.k + 1;
            let n = a.k * a.k * a.c_in;
            convolution::convolution(t, dot, weight, input, bias, a.geometry())[(oc * h_out + y)
                * w_out + x] == arith::sum(
                t,
                dot(
                    weight.subrange(oc * n, oc * n + n),
                    Seq::new(n as nat, |e: int| under_the_kernel(input, a, y, x, e)),
                ),
                bias[oc],
            )
        }),
{
    let g = a.geometry();
    let h_out = a.h + 2 * a.pad - a.k + 1;
    let w_out = a.w + 2 * a.pad - a.k + 1;
    let spatial = h_out * w_out;
    let n = a.k * a.k * a.c_in;
    let s = y * w_out + x;
    planes::lemma_matrix_index(y, x, h_out, w_out);
    planes::lemma_matrix_index(oc, s, a.c_out as int, spatial);
    let i = (oc * h_out + y) * w_out + x;
    assert(i == oc * spatial + s) by (nonlinear_arith)
        requires
            i == (oc * h_out + y) * w_out + x,
            spatial == h_out * w_out,
            s == y * w_out + x,
    ;
    assert(convolution::patch(input, g, s) =~= Seq::new(
        n as nat,
        |e: int| under_the_kernel(input, a, y, x, e),
    ));
}

} // verus!

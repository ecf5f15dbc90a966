//! What products, the FFN phase, group norm, SiLU and upsampling read back, given what
//! kernels compute of vectors.

use vstd::prelude::*;

use crate::gpu_backend::metal_graph::device::{Action, Buf, FfnBuf, ScratchBuf, Step};
use crate::gpu_backend::metal_graph::error::{MetalGraphError, MetalWeightHandle};
use crate::gpu_backend::metal_graph::ffn::FfnArgs;
use crate::gpu_backend::metal_graph::gemm;
use crate::gpu_backend::metal_graph::graph::{MetalGraph, Residency};
use crate::gpu_backend::metal_graph::memory_model;
use crate::gpu_backend::metal_graph::memory_model::{
    normalised, rows_times, DeviceMemory, VectorKernels,
};
use crate::gpu_backend::metal_graph::planes;
use crate::gpu_backend::metal_graph::vae;

verus! {

/// The first `n` numbers that the host uploads to a buffer.
pub open spec fn operand(operands: spec_fn(Buf, int) -> u32, buf: Buf, n: int) -> Seq<u32> {
    Seq::new(n as nat, |i: int| operands(buf, i))
}

proof fn lemma_gemv(
    k: VectorKernels,
    operands: spec_fn(Buf, int) -> u32,
    junk: spec_fn(Buf, int) -> u32,
    s: DeviceMemory,
    ternary: bool,
    weight: Buf,
    input_len: usize,
    n_rows: u32,
    width: u32,
)
    requires
        width <= input_len,
    ensures
        ({
            let input = Buf::Scratch(ScratchBuf::Input);
            let output = Buf::Scratch(ScratchBuf::Output);
            let step = if ternary {
                Step::GemvTq2 { weight, input, output, n_rows, k: width }
            } else {
                Step::GemvQ1 { weight, input, output, n_rows, k: width }
            };
            memory_model::after_plan(
                k,
                operands,
                junk,
                s,
                gemm::gemv_plan(step, input_len, n_rows as usize),
            ).read == rows_times(
                k,
                ternary,
                weight,
                0,
                n_rows as int,
                operand(operands, input, width as int),
            )
        }),
{
    let input = Buf::Scratch(ScratchBuf::Input);
    let output = Buf::Scratch(ScratchBuf::Output);
    let step = if ternary {
        Step::GemvTq2 { weight, input, output, n_rows, k: width }
    } else {
        Step::GemvQ1 { weight, input, output, n_rows, k: width }
    };
    let plan = gemm::gemv_plan(step, input_len, n_rows as usize);
    let s3 = memory_model::after_some(k, operands, junk, s, plan, 3);
    reveal_with_fuel(memory_model::after_some, 4);
    assert(s3.vector(input, 0, width as int) =~= operand(operands, input, width as int));
    memory_model::lemma_product_row(
        k,
        s3,
        ternary,
        weight,
        input,
        0,
        output,
        0,
        n_rows as int,
        width as int,
        1,
        0,
    );
    assert(0 + 0 * n_rows as int == 0 && 0 + 0 * width as int == 0);
}

/// A matrix-vector product is planned exactly where the operands are long enough and
/// not empty, and what it reads back is the weight's rows times the input.
pub proof fn law_gemv(
    g: &MetalGraph,
    weight: &MetalWeightHandle,
    input_len: usize,
    output_len: usize,
    n_rows: usize,
    width: usize,
    r: Result<Vec<Action>, MetalGraphError>,
    k: VectorKernels,
    operands: spec_fn(Buf, int) -> u32,
    junk: spec_fn(Buf, int) -> u32,
    s: DeviceMemory,
)
    requires
        n_rows <= u32::MAX,
        width <= u32::MAX,
    ensures
        ({
            let input = operand(operands, Buf::Scratch(ScratchBuf::Input), width as int);
            let w = Buf::Weight(weight.buffer);
            let accepted = width <= input_len && n_rows <= output_len && input_len > 0 && n_rows
                > 0;
            let one_bit = call_ensures(
                MetalGraph::encode_gemv,
                (g, weight, input_len, output_len, n_rows, width),
                r,
            ) || call_ensures(
                MetalGraph::encode_qkv_phase,
                (g, input_len, output_len, weight, n_rows, width),
                r,
            );
            let ternary = call_ensures(
                MetalGraph::encode_gemv_tq2,
                (g, weight, input_len, output_len, n_rows, width),
                r,
            );
            &&& one_bit || ternary ==> (r is Ok <==> accepted)
            &&& one_bit && r is Ok ==> memory_model::after_plan(
                k,
                operands,
                junk,
                s,
                r->Ok_0@,
            ).read == rows_times(k, false, w, 0, n_rows as int, input)
            &&& ternary && r is Ok ==> memory_model::after_plan(
                k,
                operands,
                junk,
                s,
                r->Ok_0@,
            ).read == rows_times(k, true, w, 0, n_rows as int, input)
        }),
{
    if width <= input_len {
        let w = Buf::Weight(weight.buffer);
        lemma_gemv(
            k,
            operands,
            junk,
            s,
            false,
            w,
            input_len,
            n_rows as u32,
            width as u32,
        );
        lemma_gemv(k, operands, junk, s, true, w, input_len, n_rows as u32, width as u32);
    }
}

/// The hidden state with the projected attention output added.
pub open spec fn with_attention(
    k: VectorKernels,
    operands: spec_fn(Buf, int) -> u32,
    a: FfnArgs,
) -> Seq<u32> {
    let h = a.hidden_size as int;
    let attended = operand(operands, Buf::Ffn(FfnBuf::AttnOut), h);
    Seq::new(
        h as nat,
        |i: int|
            (k.plus)(
                operands(Buf::Ffn(FfnBuf::Hidden), i),
                (k.dot)(false, Buf::Weight(a.attn_proj_weight.buffer), i, attended),
            ),
    )
}

/// Gate and up projections of the normalised hidden state, joined.
pub open spec fn activated(
    k: VectorKernels,
    operands: spec_fn(Buf, int) -> u32,
    a: FfnArgs,
) -> Seq<u32> {
    let inter = a.intermediate_size as int;
    let w = Buf::Weight(a.gate_up_weight.buffer);
    let x = normalised(
        k,
        operand(operands, Buf::Ffn(FfnBuf::NormWeight), a.hidden_size as int),
        a.eps,
        with_attention(k, operands, a),
    );
    Seq::new(
        inter as nat,
        |i: int| (k.swiglu)((k.dot)(false, w, i, x), (k.dot)(false, w, inter + i, x)),
    )
}

proof fn lemma_ffn_first(
    k: VectorKernels,
    operands: spec_fn(Buf, int) -> u32,
    junk: spec_fn(Buf, int) -> u32,
    s: DeviceMemory,
    a: FfnArgs,
    plan: Seq<Action>,
)
    requires
        a.hidden_size <= u32::MAX,
        a.intermediate_size <= u32::MAX,
        plan.len() >= 6,
        forall|i: int|
            0 <= i < 6 ==> #[trigger] plan[i] == a.plan(
                Residency { buffers: Some(a.set()), ..arbitrary() },
            )[i],
    ensures
        ({
            let h = a.hidden_size as int;
            let y = memory_model::after_some(k, operands, junk, s, plan, 6);
            &&& y.vector(Buf::Ffn(FfnBuf::Hidden), 0, h) == with_attention(k, operands, a)
            &&& y.vector(Buf::Ffn(FfnBuf::Normed), 0, h) == normalised(
                k,
                operand(operands, Buf::Ffn(FfnBuf::NormWeight), h),
                a.eps,
                with_attention(k, operands, a),
            )
        }),
{
    let h = a.hidden_size as int;
    let hidden = Buf::Ffn(FfnBuf::Hidden);
    let attn = Buf::Ffn(FfnBuf::AttnOut);
    let proj = Buf::Ffn(FfnBuf::Proj);
    let norm = Buf::Ffn(FfnBuf::NormWeight);
    let normed = Buf::Ffn(FfnBuf::Normed);
    let s3 = memory_model::after_some(k, operands, junk, s, plan, 3);
    let s4 = memory_model::after_some(k, operands, junk, s, plan, 4);
    let s5 = memory_model::after_some(k, operands, junk, s, plan, 5);
    let y = memory_model::after_some(k, operands, junk, s, plan, 6);
    assert(s3.vector(attn, 0, h) =~= operand(operands, attn, h) && s3.vector(norm, 0, h)
        =~= operand(operands, norm, h) && s3.vector(hidden, 0, h) =~= operand(operands, hidden, h))
        by {
        reveal_with_fuel(memory_model::after_some, 4);
    }
    let w = Buf::Weight(a.attn_proj_weight.buffer);
    memory_model::lemma_product_row(k, s3, false, w, attn, 0, proj, 0, h, h, 1, 0);
    assert(0 + 0 * h == 0);
    assert(s4 == memory_model::after_action(k, operands, junk, s3, plan[3]));
    let x = operand(operands, attn, h);
    let products = rows_times(k, false, w, 0, h, x);
    assert(s4.vector(proj, 0, h) == products);
    assert(s5 == memory_model::after_action(k, operands, junk, s4, plan[4]));
    let sum = with_attention(k, operands, a);
    assert forall|i: int| 0 <= i < h implies #[trigger] (s5.at)(hidden, i) == sum[i] by {
        assert((s4.at)(proj, i) == s4.vector(proj, 0, h)[i]);
        assert((s3.at)(hidden, i) == s3.vector(hidden, 0, h)[i]);
        assert(products[i] == (k.dot)(false, w, i, x));
    }
    assert(s5.vector(hidden, 0, h) =~= sum);
    assert(s5.vector(norm, 0, h) =~= s3.vector(norm, 0, h));
    memory_model::lemma_norm_row(k, s5, norm, a.eps, hidden, 0, normed, h, 1, 0);
    assert(y == memory_model::after_action(k, operands, junk, s5, plan[5]));
    assert(y.vector(hidden, 0, h) =~= s5.vector(hidden, 0, h));
}

/// The FFN phase reads back the hidden state with the projected attention output added,
/// and then with the projected MLP of its norm added.
pub proof fn law_ffn_phase(
    k: VectorKernels,
    operands: spec_fn(Buf, int) -> u32,
    junk: spec_fn(Buf, int) -> u32,
    s: DeviceMemory,
    resident: Residency,
    a: FfnArgs,
)
    requires
        a.hidden_size <= u32::MAX,
        a.intermediate_size <= u32::MAX,
    ensures
        memory_model::after_plan(k, operands, junk, s, a.plan(resident)).read == Seq::new(
            a.hidden_size as nat,
            |i: int|
                (k.plus)(
                    with_attention(k, operands, a)[i],
                    (k.dot)(
                        false,
                        Buf::Weight(a.down_weight.buffer),
                        i,
                        activated(k, operands, a),
                    ),
                ),
        ),
{
    let (h, inter) = (a.hidden_size as int, a.intermediate_size as int);
    let acquire = a.acquire(resident);
    let plan = a.plan(Residency { buffers: Some(a.set()), ..arbitrary() });
    assert(a.plan(resident) =~= acquire + plan);
    memory_model::lemma_in_turn(k, operands, junk, s, acquire, plan);
    let s0 = memory_model::after_plan(k, operands, junk, s, acquire);
    lemma_ffn_first(k, operands, junk, s0, a, plan);
    let hidden = Buf::Ffn(FfnBuf::Hidden);
    let normed = Buf::Ffn(FfnBuf::Normed);
    let act = Buf::Ffn(FfnBuf::Swiglu);
    let down = Buf::Ffn(FfnBuf::Down);
    let s6 = memory_model::after_some(k, operands, junk, s0, plan, 6);
    let s7 = memory_model::after_some(k, operands, junk, s0, plan, 7);
    let s8 = memory_model::after_some(k, operands, junk, s0, plan, 8);
    let s9 = memory_model::after_some(k, operands, junk, s0, plan, 9);
    let s10 = memory_model::after_some(k, operands, junk, s0, plan, 10);
    assert(s7 == memory_model::after_action(k, operands, junk, s6, plan[6]));
    assert(s8 == memory_model::after_action(k, operands, junk, s7, plan[7]));
    assert(s9 == memory_model::after_action(k, operands, junk, s8, plan[8]));
    assert(s10 == memory_model::after_action(k, operands, junk, s9, plan[9]));
    assert(memory_model::after_plan(k, operands, junk, s0, plan)
        == memory_model::after_action(k, operands, junk, s10, plan[10]));
    let joined = activated(k, operands, a);
    assert forall|i: int| 0 <= i < inter implies #[trigger] (s7.at)(act, i) == joined[i] by {
        assert(i / inter == 0 && i % inter == i) by (nonlinear_arith)
            requires
                0 <= i < inter,
        ;
        assert(0 + i / inter * h == 0);
    }
    assert(s7.vector(act, 0, inter) =~= joined);
    assert(s7.vector(hidden, 0, h) =~= s6.vector(hidden, 0, h));
    let w = Buf::Weight(a.down_weight.buffer);
    memory_model::lemma_product_row(k, s7, false, w, act, 0, down, 0, h, inter, 1, 0);
    assert(0 + 0 * h == 0 && 0 + 0 * inter == 0);
    let products = rows_times(k, false, w, 0, h, joined);
    assert(s8.vector(down, 0, h) == products);
    let sum = with_attention(k, operands, a);
    assert forall|i: int| 0 <= i < h implies #[trigger] (s9.at)(hidden, i) == (k.plus)(
        sum[i],
        (k.dot)(false, w, i, joined),
    ) by {
        assert((s8.at)(down, i) == s8.vector(down, 0, h)[i]);
        assert((s7.at)(hidden, i) == s7.vector(hidden, 0, h)[i]);
        assert(products[i] == (k.dot)(false, w, i, joined));
    }
}

/// A group norm is accepted exactly where groups divide the channels and operands have
/// the sizes of the plane, and each number that it reads back is of its channel's group,
/// at its place there, with its channel's weight and bias.
pub proof fn law_groupnorm(
    k: VectorKernels,
    operands: spec_fn(Buf, int) -> u32,
    junk: spec_fn(Buf, int) -> u32,
    s: DeviceMemory,
    weight_len: usize,
    bias_len: usize,
    x_len: usize,
    channels: usize,
    hw: usize,
    num_groups: usize,
    eps: u32,
)
    requires
        x_len <= u32::MAX,
        channels <= u32::MAX,
        hw <= u32::MAX,
    ensures
        ({
            let accepted = vae::groupnorm_fault(
                x_len,
                weight_len,
                bias_len,
                channels,
                hw,
                num_groups,
            ) is None;
            let per_group = channels as int / num_groups as int;
            let read = memory_model::after_plan(
                k,
                operands,
                junk,
                s,
                vae::groupnorm_plan(x_len, channels, hw, num_groups, eps),
            ).read;
            &&& accepted <==> num_groups > 0 && channels % num_groups == 0 && x_len == channels
                * hw && weight_len == channels && bias_len == channels
            &&& accepted && x_len > 0 ==> {
                &&& read.len() == x_len
                &&& forall|g: int, c: int, p: int|
                    0 <= g < num_groups && 0 <= c < per_group && 0 <= p < hw ==> {
                        let channel = g * per_group + c;
                        #[trigger] read[(g * per_group + c) * hw + p] == (k.group_norm)(
                            Seq::new(
                                (per_group * hw) as nat,
                                |j: int|
                                    operands(
                                        Buf::Scratch(ScratchBuf::Input),
                                        g * (per_group * hw) + j,
                                    ),
                            ),
                            c * hw + p,
                            eps,
                            operands(Buf::Scratch(ScratchBuf::Weight), channel),
                            operands(Buf::Scratch(ScratchBuf::Bias), channel),
                        )
                    }
            }
        }),
{
    let x = Buf::Scratch(ScratchBuf::Input);
    let weight = Buf::Scratch(ScratchBuf::Weight);
    let bias = Buf::Scratch(ScratchBuf::Bias);
    if x_len == channels * hw && num_groups > 0 && channels % num_groups == 0 && x_len > 0 {
        let plan = vae::groupnorm_plan(x_len, channels, hw, num_groups, eps);
        let read = memory_model::after_plan(k, operands, junk, s, plan).read;
        let per_group = channels as int / num_groups as int;
        let n = hw as int;
        let size = per_group * n;
        let groups = num_groups as int;
        assert(channels == groups * per_group && num_groups <= channels) by (nonlinear_arith)
            requires
                channels as int % groups == 0,
                per_group == channels as int / groups,
                groups == num_groups,
                groups > 0,
                channels * n > 0,
        ;
        let s6 = memory_model::after_some(k, operands, junk, s, plan, 6);
        assert((forall|i: int| 0 <= i < x_len ==> #[trigger] (s6.at)(x, i) == operands(x, i)) && (
        forall|i: int|
            0 <= i < channels ==> #[trigger] (s6.at)(weight, i) == operands(weight, i)) && (forall|
            i: int,
        |
            0 <= i < channels ==> #[trigger] (s6.at)(bias, i) == operands(bias, i))) by {
            reveal_with_fuel(memory_model::after_some, 7);
        }
        let s7 = memory_model::after_some(k, operands, junk, s, plan, 7);
        assert(s7 == memory_model::after_action(k, operands, junk, s6, plan[6]));
        assert(memory_model::after_plan(k, operands, junk, s, plan)
            == memory_model::after_action(
            k,
            operands,
            junk,
            memory_model::after_some(k, operands, junk, s, plan, 8),
            plan[8],
        ));
        assert(read.len() == x_len);
        assert forall|g: int, c: int, p: int|
            0 <= g < num_groups && 0 <= c < per_group && 0 <= p < hw implies {
            let channel = g * per_group + c;
            #[trigger] read[(g * per_group + c) * hw + p] == (k.group_norm)(
                Seq::new(
                    (per_group * hw) as nat,
                    |j: int| operands(x, g * (per_group * hw) + j),
                ),
                c * hw + p,
                eps,
                operands(weight, channel),
                operands(bias, channel),
            )
        } by {
            let channel = g * per_group + c;
            let i = channel * n + p;
            let j = c * n + p;
            planes::lemma_matrix_index(g, c, groups, per_group);
            planes::lemma_matrix_index(channel, p, channels as int, n);
            planes::lemma_matrix_index(c, p, per_group, n);
            assert(i == g * size + j && groups * size == channels * n) by (nonlinear_arith)
                requires
                    i == (g * per_group + c) * n + p,
                    j == c * n + p,
                    size == per_group * n,
                    channels == groups * per_group,
            ;
            planes::lemma_matrix_index(g, j, groups, size);
            let group = Seq::new(size as nat, |q: int| operands(x, g * size + q));
            assert forall|q: int| 0 <= q < size implies 0 <= #[trigger] (g * size + q) < x_len by {
                planes::lemma_matrix_index(g, q, groups, size);
            }
            assert(s6.vector(x, g * size, size) =~= group);
            assert(read[i] == (s7.at)(x, i));
        }
    }
}

/// SiLU reads back the SiLU of every number.
pub proof fn law_silu(
    k: VectorKernels,
    operands: spec_fn(Buf, int) -> u32,
    junk: spec_fn(Buf, int) -> u32,
    s: DeviceMemory,
    x_len: usize,
)
    requires
        0 < x_len <= u32::MAX,
    ensures
        memory_model::after_plan(k, operands, junk, s, vae::silu_plan(x_len)).read == Seq::new(
            x_len as nat,
            |i: int| (k.silu)(operands(Buf::Scratch(ScratchBuf::Input), i)),
        ),
{
    reveal_with_fuel(memory_model::after_some, 6);
}

/// An upsampling is accepted exactly where the operands have the sizes of the planes,
/// and it reads back every number of a channel at two rows and two columns.
pub proof fn law_upsampling(
    k: VectorKernels,
    operands: spec_fn(Buf, int) -> u32,
    junk: spec_fn(Buf, int) -> u32,
    s: DeviceMemory,
    input_len: usize,
    output_len: usize,
    c: usize,
    h: usize,
    w: usize,
)
    requires
        output_len <= u32::MAX,
        c <= u32::MAX,
        h <= u32::MAX,
        w <= u32::MAX,
        c * h <= usize::MAX,
    ensures
        ({
            let accepted = vae::upsample_fault(input_len, output_len, c, h, w) is None;
            let read = memory_model::after_plan(
                k,
                operands,
                junk,
                s,
                vae::upsample_plan(input_len, output_len, c, h, w),
            ).read;
            &&& accepted <==> input_len == c * h * w && output_len == 4 * (c * h * w)
            &&& accepted && input_len > 0 ==> {
                &&& read.len() == output_len
                &&& forall|ch: int, row: int, col: int|
                    0 <= ch < c && 0 <= row < 2 * h && 0 <= col < 2 * w ==> #[trigger] read[(ch * (2
                        * h) + row) * (2 * w) + col] == operands(
                        Buf::Scratch(ScratchBuf::Input),
                        (ch * h + row / 2) * w + col / 2,
                    )
            }
        }),
{
    let input = Buf::Scratch(ScratchBuf::Input);
    let output = Buf::Scratch(ScratchBuf::Output);
    if input_len == c * h * w && output_len == 4 * (c * h * w) && input_len > 0 {
        let plan = vae::upsample_plan(input_len, output_len, c, h, w);
        let read = memory_model::after_plan(k, operands, junk, s, plan).read;
        let s3 = memory_model::after_some(k, operands, junk, s, plan, 3);
        assert(forall|i: int| 0 <= i < input_len ==> #[trigger] (s3.at)(input, i) == operands(
            input,
            i,
        )) by {
            reveal_with_fuel(memory_model::after_some, 4);
        }
        let s4 = memory_model::after_some(k, operands, junk, s, plan, 4);
        assert(s4 == memory_model::after_action(k, operands, junk, s3, plan[3]));
        assert(memory_model::after_plan(k, operands, junk, s, plan)
            == memory_model::after_action(
            k,
            operands,
            junk,
            memory_model::after_some(k, operands, junk, s, plan, 5),
            plan[5],
        ));
        assert(read.len() == output_len);
        let (n, h2, w2) = (c as int, 2 * h, 2 * w);
        assert(n * h2 * w2 == 4 * (c * h * w)) by (nonlinear_arith)
            requires
                n == c,
                h2 == 2 * h,
                w2 == 2 * w,
        ;
        assert forall|ch: int, row: int, col: int|
            0 <= ch < c && 0 <= row < 2 * h && 0 <= col < 2 * w implies #[trigger] read[(ch * (2
            * h) + row) * (2 * w) + col] == operands(
            input,
            (ch * h + row / 2) * w + col / 2,
        ) by {
            let line = ch * h2 + row;
            let i = line * w2 + col;
            planes::lemma_matrix_index(ch, row, n, h2);
            planes::lemma_matrix_index(line, col, n * h2, w2);
            planes::lemma_matrix_index(ch, row / 2, n, h as int);
            planes::lemma_matrix_index(ch * h + row / 2, col / 2, n * h, w as int);
            assert(read[i] == (s4.at)(output, i));
        }
    }
}

} // verus!

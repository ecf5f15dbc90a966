//! Which arguments are accepted.

use vstd::prelude::*;

use crate::gpu_backend::metal_graph::attention;
use crate::gpu_backend::metal_graph::attention::{AttnArgs, AttnCaps};
use crate::gpu_backend::metal_graph::error::MetalGraphError;
use crate::gpu_backend::metal_graph::ffn::FfnArgs;
use crate::gpu_backend::metal_graph::gemm;
use crate::gpu_backend::metal_graph::graph::{MetalGraph, Residency};
use crate::gpu_backend::metal_graph::vae::{ConvArgs, ConvPlan};

verus! {

/// A ternary batched product is accepted exactly where rows are whole blocks and the
/// operands are the `[m, k]` and `[m, n_rows]` matrices, whose bytes can be counted.
pub proof fn law_ternary_gemm_accepts(
    input_len: usize,
    output_len: usize,
    m: usize,
    n_rows: usize,
    k: usize,
)
    ensures
        gemm::gemm_tq2_fault(input_len, output_len, m, n_rows, k) is None <==> {
            &&& k % 128 == 0
            &&& input_len == m * k
            &&& output_len == m * n_rows
            &&& input_len == 0 || 4 * output_len <= usize::MAX
        },
{
}

/// A single-precision batched product is accepted exactly where the operands are the
/// `[m, k]` and `[m, n_rows]` matrices, the weight holds the `[n_rows, k]` one, and bytes
/// can be counted.
pub proof fn law_gemm_accepts(
    weight_len: usize,
    input_len: usize,
    output_len: usize,
    m: usize,
    n_rows: usize,
    k: usize,
)
    ensures
        gemm::gemm_f32_fault(weight_len, input_len, output_len, m, n_rows, k) is None <==> {
            &&& input_len == m * k
            &&& output_len == m * n_rows
            &&& weight_len >= 4 * (n_rows * k)
            &&& input_len == 0 || 4 * output_len <= usize::MAX
        },
{
}

/// A convolution is accepted exactly where the kernel has an edge and fits the padded
/// plane, input, bias and output have the sizes of their planes, and, where there is
/// something to compute, the weight is large enough.
pub proof fn law_convolution_accepts(a: ConvArgs)
    requires
        a.c_in * a.h <= usize::MAX,
        a.no_overflow(),
    ensures
        a.fault() is None <==> {
            let (h_out, w_out) = (a.h + 2 * a.pad - a.k + 1, a.w + 2 * a.pad - a.k + 1);
            &&& a.k >= 1
            &&& h_out >= 1 && w_out >= 1
            &&& a.input_len == a.c_in * a.h * a.w
            &&& a.bias_len == a.c_out
            &&& h_out * w_out <= usize::MAX
            &&& a.output_len == a.c_out * (h_out * w_out)
            &&& a.input_len > 0 && a.output_len > 0 ==> {
                &&& a.k == 1 && a.pad == 0 ==> a.weight.byte_len >= 4 * (a.c_out * a.c_in)
                &&& a.k != 1 || a.pad != 0 ==> a.weight.byte_len >= 4 * (a.c_out * (a.k * a.k
                    * a.c_in))
            }
        },
{
    let (c, h, w, o) = (a.c_in as int, a.h as int, a.w as int, a.c_out as int);
    if a.k == 1 && a.pad == 0 {
        assert(c * h * w == h * w * c && o * (h * w) == h * w * o) by (nonlinear_arith);
        if a.input_len == c * h * w && a.input_len > 0 {
            assert(0 <= h * w && h * w <= c * h * w) by (nonlinear_arith)
                requires
                    c * h * w > 0,
                    c >= 0,
                    h >= 0,
                    w >= 0,
            ;
        }
    } else {
        let k = a.k as int;
        if k * k * c > usize::MAX || k * k > usize::MAX {
            assert(o > 0 && c > 0 ==> o * (k * k * c) >= k * k * c && k * k * c >= k * k)
                by (nonlinear_arith)
                requires
                    k >= 0,
            ;
            assert(o * 0 == 0 && o * h * 0 == 0);
            let (h_out, w_out) = (a.h + 2 * a.pad - a.k + 1, a.w + 2 * a.pad - a.k + 1);
            assert(o == 0 ==> o * (h_out * w_out) == 0) by (nonlinear_arith);
            assert(c == 0 ==> c * h * w == 0) by (nonlinear_arith);
        }
    }
}

/// Joint attention is accepted exactly where there are heads, tokens and widths within
/// what the kernels are compiled for, and queries, keys, values and output hold a number
/// for each; the flash kernel takes widths of whole eights up to 128.
pub proof fn law_attention_accepts(a: AttnArgs, caps: AttnCaps)
    ensures
        ({
            let n = a.num_heads * a.seq * a.head_dim;
            let accepted = a.num_heads > 0 && a.seq > 0 && a.head_dim > 0 && a.seq <= caps.max_seq
                && a.head_dim <= caps.max_head_dim && a.q_len >= n && a.k_len >= n && a.v_len >= n
                && a.out_len >= n;
            &&& a.fault(caps) is None <==> accepted
            &&& a.flash_fault(caps) is None <==> accepted && a.head_dim % 8 == 0 && a.head_dim
                <= 128
        }),
{
}

/// A launch on resident operands is accepted exactly where the shape is one of the flash
/// kernel's and the pool holds it; a download where the pool's output holds it.
pub proof fn law_resident_attention_accepts(
    resident: Residency,
    caps: AttnCaps,
    num_heads: usize,
    seq: usize,
    head_dim: usize,
    out_len: usize,
)
    ensures
        attention::resident_fault(resident, caps, num_heads, seq, head_dim) is None <==> {
            let bytes = 4 * (num_heads * seq * head_dim);
            &&& num_heads > 0 && seq > 0 && head_dim > 0
            &&& seq <= caps.max_seq && head_dim <= caps.max_head_dim
            &&& head_dim % 8 == 0 && head_dim <= 128
            &&& resident.joint_attn_pool matches Some(p) && p.qkv_cap_bytes >= bytes
                && p.out_cap_bytes >= bytes
        },
        attention::download_fault(resident, out_len) is None <==> (
        resident.joint_attn_pool matches Some(p) && 4 * out_len <= p.out_cap_bytes),
{
}

/// The FFN phase is accepted exactly where hidden state, attention output and norm weights
/// have a number for each of the hidden size, and the buffers are there or can be made.
pub proof fn law_ffn_accepts(resident: Residency, a: FfnArgs)
    ensures
        a.fault(resident) is None <==> {
            &&& a.hidden_len >= a.hidden_size
            &&& a.attn_out_len >= a.hidden_size
            &&& a.norm_weight_len >= a.hidden_size
            &&& (resident.buffers matches Some(b) && b.hidden_size == a.hidden_size
                && b.intermediate_size == a.intermediate_size) || (a.hidden_size > 0
                && a.intermediate_size > 0)
        },
{
}

/// An accepted convolution with something to compute mixes channels where the kernel is a
/// single number without padding; gathers patches on the fly where the kernel has at least
/// three rows, there is padding and that is not switched off; and else makes the patches.
pub proof fn law_convolution_ways(
    g: &MetalGraph,
    a: &ConvArgs,
    implicit_disabled: bool,
    r: Result<ConvPlan, MetalGraphError>,
)
    requires
        call_ensures(MetalGraph::encode_conv2d_f32, (g, a, implicit_disabled), r),
        r is Ok,
    ensures
        ({
            let plan = r->Ok_0;
            let empty = a.input_len == 0 || a.output_len == 0;
            let mix = a.k == 1 && a.pad == 0;
            let on_the_fly = a.k >= 3 && a.pad >= 1 && !implicit_disabled;
            &&& plan is Empty <==> empty
            &&& plan is ChannelMix <==> !empty && mix
            &&& plan is Implicit <==> !empty && !mix && on_the_fly
            &&& plan is Im2col <==> !empty && !mix && !on_the_fly
        }),
{
}

} // verus!

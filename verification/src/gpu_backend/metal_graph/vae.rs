//! Operations of the VAE decoder: convolution, group norm, SiLU and upsampling.
//!
//! Planes are flat `[C, H, W]` with batch one; host data that is only moved is
//! held as the bits of single-precision numbers.

use vstd::prelude::*;

use crate::gpu_backend::metal_graph::device::{Action, Buf, ScratchBuf, Step, Storage};
use crate::gpu_backend::metal_graph::error;
use crate::gpu_backend::metal_graph::error::{
    invalid_dimensions, MetalFault, MetalGraphError, MetalWeightHandle,
};
use crate::gpu_backend::metal_graph::gemm;
use crate::gpu_backend::metal_graph::graph::{MetalGraph, Residency};
use crate::text;
use crate::text::Msg;

verus! {

/// Cap on the im2col patches of one tile, in bytes.
pub const IM2COL_TILE_CAP_BYTES: usize = 268_435_456;

/// A convolution: operand lengths and geometry.
#[derive(Debug, Clone, Copy, PartialEq, Eq, Structural)]
pub struct ConvArgs {
    /// Weight `[c_out, k, k, c_in]`.
    pub weight: MetalWeightHandle,
    /// Numbers in the input plane.
    pub input_len: usize,
    /// Numbers in the bias.
    pub bias_len: usize,
    /// Numbers in the output plane.
    pub output_len: usize,
    /// Input channels.
    pub c_in: usize,
    /// Output channels.
    pub c_out: usize,
    /// Input height.
    pub h: usize,
    /// Input width.
    pub w: usize,
    /// Kernel edge.
    pub k: usize,
    /// Padding on all sides.
    pub pad: usize,
}

/// How a convolution is carried out.
#[derive(Debug)]
pub enum ConvPlan {
    /// An operand is empty: nothing to do.
    Empty,
    /// A channel mix: the input, transposed to `[H W, C_in]`, goes through a
    /// GEMM whose `[H W, C_out]` result is transposed back; then the bias is
    /// added.
    ChannelMix(Vec<Action>),
    /// Patches gathered on the fly, and the plan that takes its place where
    /// carrying it out fails.
    Implicit {
        /// The plan.
        plan: Vec<Action>,
        /// The tiled plan to fall back to.
        fallback: Vec<Action>,
    },
    /// Patches materialised tile by tile.
    Im2col(Vec<Action>),
}

impl ConvArgs {
    /// Height of the padded input.
    pub open spec fn h_pad(self) -> int {
        self.h + 2 * self.pad
    }

    /// Width of the padded input.
    pub open spec fn w_pad(self) -> int {
        self.w + 2 * self.pad
    }

    /// Height of the output.
    pub open spec fn h_out(self) -> int {
        self.h_pad() - self.k + 1
    }

    /// Width of the output.
    pub open spec fn w_out(self) -> int {
        self.w_pad() - self.k + 1
    }

    /// Positions of the output plane.
    pub open spec fn spatial(self) -> int {
        self.h_out() * self.w_out()
    }

    /// Numbers in one patch.
    pub open spec fn patch_dim(self) -> int {
        self.k * self.k * self.c_in
    }

    /// What is wrong before the output's size is known.
    pub open spec fn input_fault(self) -> Option<MetalFault> {
        if self.k == 0 {
            Some(
                MetalFault::InvalidDimensions("encode_conv2d_f32: kernel size k must be ≥ 1"@),
            )
        } else if self.c_in * self.h > usize::MAX || self.c_in * self.h * self.w > usize::MAX {
            Some(
                MetalFault::InvalidDimensions(
                    "encode_conv2d_f32: c_in*h*w overflow (c_in="@ + text::dec(self.c_in as nat)
                        + ", h="@ + text::dec(self.h as nat) + ", w="@ + text::dec(self.w as nat)
                        + ")"@,
                ),
            )
        } else if self.input_len != self.c_in * self.h * self.w {
            Some(
                MetalFault::InvalidDimensions(
                    "encode_conv2d_f32: input len "@ + text::dec(self.input_len as nat)
                        + " != c_in*h*w "@ + text::dec((self.c_in * self.h * self.w) as nat),
                ),
            )
        } else if self.bias_len != self.c_out {
            Some(
                MetalFault::InvalidDimensions(
                    "encode_conv2d_f32: bias len "@ + text::dec(self.bias_len as nat)
                        + " != c_out "@ + text::dec(self.c_out as nat),
                ),
            )
        } else {
            None
        }
    }

    /// What is wrong with the operands' lengths, in order of the checks.
    pub open spec fn shape_fault(self) -> Option<MetalFault> {
        match self.input_fault() {
            Some(f) => Some(f),
            None => if self.h_out() <= 0 || self.w_out() <= 0 {
                Some(
                    MetalFault::InvalidDimensions(
                        "encode_conv2d_f32: kernel "@ + text::dec(self.k as nat)
                            + " larger than padded input "@ + text::dec(self.h_pad() as nat)
                            + "x"@ + text::dec(self.w_pad() as nat),
                    ),
                )
            } else if self.spatial() > usize::MAX {
                Some(
                    MetalFault::InvalidDimensions(
                        "encode_conv2d_f32: h_out*w_out overflow (h_out="@ + text::dec(
                            self.h_out() as nat,
                        ) + ", w_out="@ + text::dec(self.w_out() as nat) + ")"@,
                    ),
                )
            } else if self.c_out * self.spatial() > usize::MAX {
                Some(
                    MetalFault::InvalidDimensions(
                        "encode_conv2d_f32: c_out*spatial overflow (c_out="@ + text::dec(
                            self.c_out as nat,
                        ) + ", spatial="@ + text::dec(self.spatial() as nat) + ")"@,
                    ),
                )
            } else if self.output_len != self.c_out * self.spatial() {
                Some(
                    MetalFault::InvalidDimensions(
                        "encode_conv2d_f32: output len "@ + text::dec(self.output_len as nat)
                            + " != c_out*h_out*w_out "@ + text::dec(
                            (self.c_out * self.spatial()) as nat,
                        ),
                    ),
                )
            } else {
                None
            },
        }
    }

    /// An operand is empty.
    pub open spec fn is_empty(self) -> bool {
        self.input_len == 0 || self.output_len == 0
    }

    /// The convolution only mixes channels.
    pub open spec fn is_channel_mix(self) -> bool {
        self.k == 1 && self.pad == 0
    }

    /// What is wrong with the weight of a general convolution.
    pub open spec fn weight_fault(self) -> Option<MetalFault> {
        if self.k * self.k > usize::MAX || self.patch_dim() > usize::MAX {
            Some(
                MetalFault::InvalidDimensions(
                    "encode_conv2d_f32: patch_dim overflow (k="@ + text::dec(self.k as nat)
                        + ", c_in="@ + text::dec(self.c_in as nat) + ")"@,
                ),
            )
        } else if self.c_out * self.patch_dim() > usize::MAX {
            Some(
                MetalFault::InvalidDimensions(
                    "encode_conv2d_f32: c_out*patch_dim overflow (c_out="@ + text::dec(
                        self.c_out as nat,
                    ) + ", patch_dim="@ + text::dec(self.patch_dim() as nat) + ")"@,
                ),
            )
        } else if self.c_out * self.patch_dim() * 4 > usize::MAX {
            Some(
                MetalFault::InvalidDimensions("encode_conv2d_f32: weight byte size overflow"@),
            )
        } else if self.weight.byte_len < self.c_out * self.patch_dim() * 4 {
            Some(
                MetalFault::InvalidDimensions(
                    "encode_conv2d_f32: weight handle holds "@ + text::dec(
                        self.weight.byte_len as nat,
                    ) + " bytes < c_out*patch_dim*4 "@ + text::dec(
                        (self.c_out * self.patch_dim() * 4) as nat,
                    ),
                ),
            )
        } else {
            None
        }
    }

    /// Why the convolution is refused, in order of the checks.
    pub open spec fn fault(self) -> Option<MetalFault> {
        match self.shape_fault() {
            Some(f) => Some(f),
            None => if self.is_empty() {
                None
            } else if self.is_channel_mix() {
                gemm::gemm_f32_fault(
                    self.weight.byte_len,
                    self.input_len,
                    self.output_len,
                    (self.h * self.w) as usize,
                    self.c_out,
                    self.c_in,
                )
            } else {
                self.weight_fault()
            },
        }
    }

    /// Operands fit the machine: slices of single-precision numbers do not
    /// exceed the address space, and the padded edges are computable.
    pub open spec fn no_overflow(self) -> bool {
        &&& self.input_len * 4 <= usize::MAX
        &&& self.output_len * 4 <= usize::MAX
        &&& self.input_fault() is None ==> self.h_pad() <= usize::MAX && self.w_pad() <= usize::MAX
    }

    /// The patches are those that the implicit kernel is tuned for.
    pub open spec fn prefers_implicit(self) -> bool {
        self.k >= 3 && self.pad >= 1
    }

    /// The general convolution's geometry.
    pub open spec fn geometry(self) -> ConvGeometry {
        ConvGeometry {
            c_in: self.c_in,
            c_out: self.c_out,
            h: self.h,
            w: self.w,
            k: self.k,
            pad: self.pad,
            spatial: self.spatial() as usize,
            patch_dim: self.patch_dim() as usize,
            w_out: self.w_out() as usize,
        }
    }

    /// The plan that a successful call returns.
    pub open spec fn planned(
        self,
        resident: Residency,
        implicit_disabled: bool,
        plan: ConvPlan,
    ) -> bool {
        if self.is_empty() {
            plan is Empty
        } else if self.is_channel_mix() {
            plan matches ConvPlan::ChannelMix(p) && p@ == gemm::gemm_plan(
                resident,
                gemm::gemm_f32_step(
                    self.weight,
                    (self.h * self.w) as usize,
                    self.c_out,
                    self.c_in,
                ),
                self.input_len,
                self.output_len,
            )
        } else if self.prefers_implicit() && !implicit_disabled {
            plan matches ConvPlan::Implicit { plan: p, fallback } && p@
                == self.geometry().implicit_plan(self.weight, self.input_len) && fallback@
                == self.geometry().im2col_plan(self.weight, self.input_len)
        } else {
            plan matches ConvPlan::Im2col(p) && p@ == self.geometry().im2col_plan(
                self.weight,
                self.input_len,
            )
        }
    }
}

/// Geometry of a general convolution.
#[derive(Debug, Clone, Copy, PartialEq, Eq, Structural)]
pub struct ConvGeometry {
    /// Input channels.
    pub c_in: usize,
    /// Output channels.
    pub c_out: usize,
    /// Input height.
    pub h: usize,
    /// Input width.
    pub w: usize,
    /// Kernel edge.
    pub k: usize,
    /// Padding on all sides.
    pub pad: usize,
    /// Positions of the output plane.
    pub spatial: usize,
    /// Numbers in one patch.
    pub patch_dim: usize,
    /// Output width.
    pub w_out: usize,
}

impl ConvGeometry {
    /// There is something to compute, and patches and outputs fit the
    /// machine.
    pub open spec fn wf(self) -> bool {
        &&& self.c_out > 0
        &&& self.spatial > 0
        &&& self.patch_dim > 0
        &&& self.patch_dim * 4 <= usize::MAX
        &&& self.c_out * self.spatial * 4 <= usize::MAX
    }

    /// Output rows per tile: as many as keep the patches within the cap, at
    /// least one, at most all.
    pub open spec fn tile_rows(self) -> int {
        let fit = IM2COL_TILE_CAP_BYTES as int / (self.patch_dim * 4);
        let at_least_one = if fit < 1 {
            1
        } else {
            fit
        };
        if at_least_one < self.spatial {
            at_least_one
        } else {
            self.spatial as int
        }
    }

    /// First row of tile `i`.
    pub open spec fn tile_start(self, i: int) -> int {
        i * self.tile_rows()
    }

    /// Rows of tile `i`.
    pub open spec fn tile_len(self, i: int) -> int {
        if self.tile_start(i) + self.tile_rows() <= self.spatial {
            self.tile_rows()
        } else {
            self.spatial - self.tile_start(i)
        }
    }

    /// Tiles that cover the output plane.
    pub open spec fn tile_count(self) -> int {
        (self.spatial - 1) / self.tile_rows() + 1
    }

    /// Tile `i`: patches, product, download and scatter.
    pub open spec fn tile(self, weight: MetalWeightHandle, i: int) -> Seq<Action> {
        let start = self.tile_start(i);
        let rows = self.tile_len(i);
        seq![
            Action::Dispatch(
                Step::Im2col {
                    input: Buf::Scratch(ScratchBuf::Input),
                    patches: Buf::Scratch(ScratchBuf::Patches),
                    c_in: self.c_in as u32,
                    h: self.h as u32,
                    w: self.w as u32,
                    k: self.k as u32,
                    pad: self.pad as u32,
                    w_out: self.w_out as u32,
                    row_start: start as u32,
                    n_elems: (rows * self.patch_dim) as u32,
                },
            ),
            Action::Dispatch(
                Step::GemmF32 {
                    weight: Buf::Weight(weight.buffer),
                    input: Buf::Scratch(ScratchBuf::Patches),
                    output: Buf::Scratch(ScratchBuf::Output),
                    n_rows: self.c_out as u32,
                    k: self.patch_dim as u32,
                    batch: rows as u32,
                },
            ),
            Action::Commit,
            Action::Download {
                buf: Buf::Scratch(ScratchBuf::Output),
                floats: (rows * self.c_out) as usize,
            },
            Action::ScatterTile { row_start: start as usize, rows: rows as usize },
        ]
    }

    /// The first `n` tiles.
    pub open spec fn tiles(self, weight: MetalWeightHandle, n: nat) -> Seq<Action>
        decreases n,
    {
        if n == 0 {
            seq![]
        } else {
            self.tiles(weight, (n - 1) as nat) + self.tile(weight, n - 1)
        }
    }

    /// The convolution with patches materialised tile by tile.
    pub open spec fn im2col_plan(self, weight: MetalWeightHandle, input_len: usize) -> Seq<Action> {
        seq![
            Action::Alloc {
                buf: Buf::Scratch(ScratchBuf::Input),
                bytes: (input_len * 4) as u64,
                storage: Storage::Shared,
            },
            Action::Upload { buf: Buf::Scratch(ScratchBuf::Input), floats: input_len },
            Action::Alloc {
                buf: Buf::Scratch(ScratchBuf::Patches),
                bytes: (self.tile_rows() * self.patch_dim * 4) as u64,
                storage: Storage::Private,
            },
            Action::Alloc {
                buf: Buf::Scratch(ScratchBuf::Output),
                bytes: (self.tile_rows() * self.c_out * 4) as u64,
                storage: Storage::Shared,
            },
        ] + self.tiles(weight, self.tile_count() as nat) + seq![
            Action::AddBias { channels: self.c_out, spatial: self.spatial },
        ]
    }

    /// The convolution with patches gathered on the fly.
    pub open spec fn implicit_plan(self, weight: MetalWeightHandle, input_len: usize) -> Seq<
        Action,
    > {
        let out = (self.c_out * self.spatial) as usize;
        seq![
            Action::Alloc {
                buf: Buf::Scratch(ScratchBuf::Input),
                bytes: (input_len * 4) as u64,
                storage: Storage::Shared,
            },
            Action::Upload { buf: Buf::Scratch(ScratchBuf::Input), floats: input_len },
            Action::Alloc {
                buf: Buf::Scratch(ScratchBuf::Output),
                bytes: (out * 4) as u64,
                storage: Storage::Shared,
            },
            Action::Dispatch(
                Step::Conv2dImplicit {
                    weight: Buf::Weight(weight.buffer),
                    input: Buf::Scratch(ScratchBuf::Input),
                    output: Buf::Scratch(ScratchBuf::Output),
                    c_out: self.c_out as u32,
                    spatial: self.spatial as u32,
                    patch_dim: self.patch_dim as u32,
                    c_in: self.c_in as u32,
                    h: self.h as u32,
                    w: self.w as u32,
                    k: self.k as u32,
                    pad: self.pad as u32,
                    w_out: self.w_out as u32,
                },
            ),
            Action::Commit,
            Action::Download { buf: Buf::Scratch(ScratchBuf::Output), floats: out },
            Action::AddBias { channels: self.c_out, spatial: self.spatial },
        ]
    }
}

/// The tiling is sound: a tile has between one row and all, its patches and
/// outputs are no larger than one patch row or the cap, and than all outputs.
pub proof fn lemma_tile_rows(g: ConvGeometry)
    requires
        g.wf(),
    ensures
        1 <= g.tile_rows() <= g.spatial,
        g.tile_rows() == 1 || g.tile_rows() * (g.patch_dim * 4) <= IM2COL_TILE_CAP_BYTES,
        g.tile_rows() * g.patch_dim * 4 <= usize::MAX,
        g.tile_rows() * g.patch_dim <= usize::MAX,
        0 < g.tile_rows() * g.patch_dim,
        0 < g.tile_rows() * g.c_out,
        g.tile_rows() * g.c_out <= g.c_out * g.spatial,
        g.tile_count() >= 1,
        (g.tile_count() - 1) * g.tile_rows() < g.spatial <= g.tile_count() * g.tile_rows(),
{
    let t = g.tile_rows();
    let p = g.patch_dim as int;
    let cap = IM2COL_TILE_CAP_BYTES as int;
    let fit = cap / (p * 4);
    assert(fit * (p * 4) <= cap && fit >= 0) by (nonlinear_arith)
        requires
            fit == cap / (p * 4),
            p > 0,
            cap >= 0,
    ;
    if t > 1 {
        assert(t * (p * 4) <= fit * (p * 4)) by (nonlinear_arith)
            requires
                t <= fit,
                p > 0,
        ;
    }
    assert(t * p * 4 == t * (p * 4)) by (nonlinear_arith);
    assert(0 < t * p <= t * p * 4) by (nonlinear_arith)
        requires
            t > 0,
            p > 0,
    ;
    let c = g.c_out as int;
    let s = g.spatial as int;
    assert(0 < t * c <= c * s) by (nonlinear_arith)
        requires
            0 < t <= s,
            c > 0,
    ;
    let n = (s - 1) / t;
    assert(n >= 0 && n * t <= s - 1 && s - 1 < n * t + t) by (nonlinear_arith)
        requires
            n == (s - 1) / t,
            t > 0,
            s > 0,
    ;
    assert((n + 1) * t == n * t + t) by (nonlinear_arith);
}

/// Tile `i` starts inside the plane and ends inside it.
pub proof fn lemma_tile_bounds(g: ConvGeometry, i: int)
    requires
        g.wf(),
        0 <= i < g.tile_count(),
    ensures
        0 <= g.tile_start(i) < g.spatial,
        1 <= g.tile_len(i) <= g.tile_rows(),
        g.tile_start(i) + g.tile_len(i) <= g.spatial,
        g.tile_len(i) * g.patch_dim <= g.tile_rows() * g.patch_dim,
        g.tile_len(i) * g.c_out <= g.tile_rows() * g.c_out,
        0 <= g.tile_len(i) * g.patch_dim,
        0 <= g.tile_len(i) * g.c_out,
        g.tile_start(i + 1) == g.tile_start(i) + g.tile_rows(),
{
    lemma_tile_rows(g);
    let t = g.tile_rows();
    let n = g.tile_count();
    assert(0 <= i * t <= (n - 1) * t) by (nonlinear_arith)
        requires
            0 <= i <= n - 1,
            t > 0,
    ;
    assert((i + 1) * t == i * t + t) by (nonlinear_arith);
    let r = g.tile_len(i);
    let p = g.patch_dim as int;
    let c = g.c_out as int;
    assert(0 <= r * p <= t * p && 0 <= r * c <= t * c) by (nonlinear_arith)
        requires
            0 <= r <= t,
            p >= 0,
            c >= 0,
    ;
}

impl MetalGraph {
    /// Plans a stride-one convolution of an NCHW plane `[c_in, h, w]` to
    /// `[c_out, h_out, w_out]`, with `h_out = h + 2 pad - k + 1`.
    ///
    /// A 1x1 convolution without padding is a channel mix through the GEMM;
    /// larger padded kernels gather patches on the fly unless that is
    /// disabled; everything else materialises patches tile by tile.
    pub fn encode_conv2d_f32(&self, a: &ConvArgs, implicit_disabled: bool) -> (r: Result<
        ConvPlan,
        MetalGraphError,
    >)
        requires
            a.no_overflow(),
        ensures
            error::reports(r, a.fault()),
            r matches Ok(plan) ==> a.planned(self.resident, implicit_disabled, plan),
    {
        if a.k == 0 {
            return Err(
                invalid_dimensions(Msg::new("encode_conv2d_f32: kernel size k must be ≥ 1")),
            );
        }
        let expected_in: usize = match a.c_in.checked_mul(a.h) {
            Some(x) => match x.checked_mul(a.w) {
                Some(v) => v,
                None => {
                    return Err(Self::conv_input_overflow(a));
                },
            },
            None => {
                return Err(Self::conv_input_overflow(a));
            },
        };
        if a.input_len != expected_in {
            return Err(
                invalid_dimensions(
                    Msg::new("encode_conv2d_f32: input len ").num(a.input_len).lit(
                        " != c_in*h*w ",
                    ).num(expected_in),
                ),
            );
        }
        if a.bias_len != a.c_out {
            return Err(
                invalid_dimensions(
                    Msg::new("encode_conv2d_f32: bias len ").num(a.bias_len).lit(" != c_out ").num(
                        a.c_out,
                    ),
                ),
            );
        }
        let h_pad: usize = a.h + 2 * a.pad;
        let w_pad: usize = a.w + 2 * a.pad;
        if h_pad < a.k || w_pad < a.k {
            return Err(
                invalid_dimensions(
                    Msg::new("encode_conv2d_f32: kernel ").num(a.k).lit(
                        " larger than padded input ",
                    ).num(h_pad).lit("x").num(w_pad),
                ),
            );
        }
        let h_out: usize = h_pad - a.k + 1;
        let w_out: usize = w_pad - a.k + 1;
        let spatial: usize = match h_out.checked_mul(w_out) {
            Some(v) => v,
            None => {
                return Err(
                    invalid_dimensions(
                        Msg::new("encode_conv2d_f32: h_out*w_out overflow (h_out=").num(h_out).lit(
                            ", w_out=",
                        ).num(w_out).lit(")"),
                    ),
                );
            },
        };
        let expected_out: usize = match a.c_out.checked_mul(spatial) {
            Some(v) => v,
            None => {
                return Err(
                    invalid_dimensions(
                        Msg::new("encode_conv2d_f32: c_out*spatial overflow (c_out=").num(
                            a.c_out,
                        ).lit(", spatial=").num(spatial).lit(")"),
                    ),
                );
            },
        };
        if a.output_len != expected_out {
            return Err(
                invalid_dimensions(
                    Msg::new("encode_conv2d_f32: output len ").num(a.output_len).lit(
                        " != c_out*h_out*w_out ",
                    ).num(expected_out),
                ),
            );
        }
        if expected_in == 0 || expected_out == 0 {
            return Ok(ConvPlan::Empty);
        }
        proof {
            lemma_conv_factors(*a);
        }
        if a.k == 1 && a.pad == 0 {
            let hw: usize = a.h * a.w;
            proof {
                let (c, h, w) = (a.c_in as int, a.h as int, a.w as int);
                assert(h * w * c == c * h * w) by (nonlinear_arith);
            }
            let plan = self.encode_gemm_f32(
                &a.weight,
                a.input_len,
                a.output_len,
                hw,
                a.c_out,
                a.c_in,
            )?;
            return Ok(ConvPlan::ChannelMix(plan));
        }
        let patch_dim: usize = match a.k.checked_mul(a.k) {
            Some(x) => match x.checked_mul(a.c_in) {
                Some(v) => v,
                None => {
                    return Err(Self::conv_patch_overflow(a));
                },
            },
            None => {
                return Err(Self::conv_patch_overflow(a));
            },
        };
        let weight_floats: usize = match a.c_out.checked_mul(patch_dim) {
            Some(v) => v,
            None => {
                return Err(
                    invalid_dimensions(
                        Msg::new("encode_conv2d_f32: c_out*patch_dim overflow (c_out=").num(
                            a.c_out,
                        ).lit(", patch_dim=").num(patch_dim).lit(")"),
                    ),
                );
            },
        };
        let weight_bytes: usize = match weight_floats.checked_mul(4) {
            Some(v) => v,
            None => {
                return Err(
                    invalid_dimensions(Msg::new("encode_conv2d_f32: weight byte size overflow")),
                );
            },
        };
        if a.weight.byte_len < weight_bytes {
            return Err(
                invalid_dimensions(
                    Msg::new("encode_conv2d_f32: weight handle holds ").num(
                        a.weight.byte_len,
                    ).lit(" bytes < c_out*patch_dim*4 ").num(weight_bytes),
                ),
            );
        }
        let g = ConvGeometry {
            c_in: a.c_in,
            c_out: a.c_out,
            h: a.h,
            w: a.w,
            k: a.k,
            pad: a.pad,
            spatial,
            patch_dim,
            w_out,
        };
        if a.k >= 3 && a.pad >= 1 && !implicit_disabled {
            let plan = self.encode_conv2d_f32_implicit(&a.weight, a.input_len, &g);
            let fallback = self.encode_conv2d_f32_im2col(&a.weight, a.input_len, &g);
            return Ok(ConvPlan::Implicit { plan, fallback });
        }
        Ok(ConvPlan::Im2col(self.encode_conv2d_f32_im2col(&a.weight, a.input_len, &g)))
    }

    fn conv_input_overflow(a: &ConvArgs) -> (e: MetalGraphError)
        ensures
            e@ == MetalFault::InvalidDimensions(
                "encode_conv2d_f32: c_in*h*w overflow (c_in="@ + text::dec(a.c_in as nat)
                    + ", h="@ + text::dec(a.h as nat) + ", w="@ + text::dec(a.w as nat) + ")"@,
            ),
    {
        invalid_dimensions(
            Msg::new("encode_conv2d_f32: c_in*h*w overflow (c_in=").num(a.c_in).lit(", h=").num(
                a.h,
            ).lit(", w=").num(a.w).lit(")"),
        )
    }

    fn conv_patch_overflow(a: &ConvArgs) -> (e: MetalGraphError)
        ensures
            e@ == MetalFault::InvalidDimensions(
                "encode_conv2d_f32: patch_dim overflow (k="@ + text::dec(a.k as nat) + ", c_in="@
                    + text::dec(a.c_in as nat) + ")"@,
            ),
    {
        invalid_dimensions(
            Msg::new("encode_conv2d_f32: patch_dim overflow (k=").num(a.k).lit(", c_in=").num(
                a.c_in,
            ).lit(")"),
        )
    }

    /// Plans a convolution with patches materialised tile by tile, so that the
    /// patches of a tile stay within [`IM2COL_TILE_CAP_BYTES`].
    pub fn encode_conv2d_f32_im2col(
        &self,
        weight: &MetalWeightHandle,
        input_len: usize,
        g: &ConvGeometry,
    ) -> (plan: Vec<Action>)
        requires
            g.wf(),
            0 < input_len,
            input_len * 4 <= usize::MAX,
        ensures
            plan@ == g.im2col_plan(*weight, input_len),
    {
        proof {
            lemma_tile_rows(*g);
        }
        let mut plan: Vec<Action> = Vec::new();
        plan.push(
            Action::Alloc {
                buf: Buf::Scratch(ScratchBuf::Input),
                bytes: (input_len * 4) as u64,
                storage: Storage::Shared,
            },
        );
        plan.push(Action::Upload { buf: Buf::Scratch(ScratchBuf::Input), floats: input_len });
        let fit: usize = IM2COL_TILE_CAP_BYTES / (g.patch_dim * 4);
        let at_least_one: usize = if fit < 1 {
            1
        } else {
            fit
        };
        let tile_rows: usize = if at_least_one < g.spatial {
            at_least_one
        } else {
            g.spatial
        };
        plan.push(
            Action::Alloc {
                buf: Buf::Scratch(ScratchBuf::Patches),
                bytes: (tile_rows * g.patch_dim * 4) as u64,
                storage: Storage::Private,
            },
        );
        plan.push(
            Action::Alloc {
                buf: Buf::Scratch(ScratchBuf::Output),
                bytes: (tile_rows * g.c_out * 4) as u64,
                storage: Storage::Shared,
            },
        );
        let ghost base = plan@;
        let mut row_start: usize = 0;
        let ghost mut i: int = 0;
        assert(base =~= base + g.tiles(*weight, 0));
        while row_start < g.spatial
            invariant
                g.wf(),
                tile_rows == g.tile_rows(),
                0 <= i <= g.tile_count(),
                row_start == (if i < g.tile_count() {
                    g.tile_start(i)
                } else {
                    g.spatial as int
                }),
                row_start <= g.spatial,
                plan@ == base + g.tiles(*weight, i as nat),
            decreases g.spatial - row_start,
        {
            proof {
                lemma_tile_rows(*g);
                lemma_tile_bounds(*g, i);
            }
            let left: usize = g.spatial - row_start;
            let rows: usize = if left < tile_rows {
                left
            } else {
                tile_rows
            };
            plan.push(
                Action::Dispatch(
                    Step::Im2col {
                        input: Buf::Scratch(ScratchBuf::Input),
                        patches: Buf::Scratch(ScratchBuf::Patches),
                        c_in: g.c_in as u32,
                        h: g.h as u32,
                        w: g.w as u32,
                        k: g.k as u32,
                        pad: g.pad as u32,
                        w_out: g.w_out as u32,
                        row_start: row_start as u32,
                        n_elems: (rows * g.patch_dim) as u32,
                    },
                ),
            );
            plan.push(
                Action::Dispatch(
                    Step::GemmF32 {
                        weight: Buf::Weight(weight.buffer),
                        input: Buf::Scratch(ScratchBuf::Patches),
                        output: Buf::Scratch(ScratchBuf::Output),
                        n_rows: g.c_out as u32,
                        k: g.patch_dim as u32,
                        batch: rows as u32,
                    },
                ),
            );
            plan.push(Action::Commit);
            plan.push(
                Action::Download {
                    buf: Buf::Scratch(ScratchBuf::Output),
                    floats: rows * g.c_out,
                },
            );
            plan.push(Action::ScatterTile { row_start, rows });
            proof {
                assert(plan@ =~= base + (g.tiles(*weight, i as nat) + g.tile(*weight, i)));
                if i + 1 < g.tile_count() {
                    lemma_tile_bounds(*g, i + 1);
                } else {
                    assert(i + 1 == g.tile_count());
                }
                i = i + 1;
            }
            row_start = row_start + rows;
        }
        proof {
            if i < g.tile_count() {
                lemma_tile_bounds(*g, i);
            }
        }
        plan.push(Action::AddBias { channels: g.c_out, spatial: g.spatial });
        assert(plan@ =~= g.im2col_plan(*weight, input_len));
        plan
    }

    /// Plans a convolution with patches gathered on the fly.
    pub fn encode_conv2d_f32_implicit(
        &self,
        weight: &MetalWeightHandle,
        input_len: usize,
        g: &ConvGeometry,
    ) -> (plan: Vec<Action>)
        requires
            g.wf(),
            0 < input_len,
            input_len * 4 <= usize::MAX,
        ensures
            plan@ == g.implicit_plan(*weight, input_len),
    {
        let mut plan: Vec<Action> = Vec::new();
        plan.push(
            Action::Alloc {
                buf: Buf::Scratch(ScratchBuf::Input),
                bytes: (input_len * 4) as u64,
                storage: Storage::Shared,
            },
        );
        plan.push(Action::Upload { buf: Buf::Scratch(ScratchBuf::Input), floats: input_len });
        let out: usize = g.c_out * g.spatial;
        plan.push(
            Action::Alloc {
                buf: Buf::Scratch(ScratchBuf::Output),
                bytes: (out * 4) as u64,
                storage: Storage::Shared,
            },
        );
        plan.push(
            Action::Dispatch(
                Step::Conv2dImplicit {
                    weight: Buf::Weight(weight.buffer),
                    input: Buf::Scratch(ScratchBuf::Input),
                    output: Buf::Scratch(ScratchBuf::Output),
                    c_out: g.c_out as u32,
                    spatial: g.spatial as u32,
                    patch_dim: g.patch_dim as u32,
                    c_in: g.c_in as u32,
                    h: g.h as u32,
                    w: g.w as u32,
                    k: g.k as u32,
                    pad: g.pad as u32,
                    w_out: g.w_out as u32,
                },
            ),
        );
        plan.push(Action::Commit);
        plan.push(Action::Download { buf: Buf::Scratch(ScratchBuf::Output), floats: out });
        plan.push(Action::AddBias { channels: g.c_out, spatial: g.spatial });
        assert(plan@ =~= g.implicit_plan(*weight, input_len));
        plan
    }
}

/// Why a group norm is refused, in order of the checks.
pub open spec fn groupnorm_fault(
    x_len: usize,
    weight_len: usize,
    bias_len: usize,
    channels: usize,
    hw: usize,
    num_groups: usize,
) -> Option<MetalFault> {
    if num_groups == 0 || channels % num_groups != 0 {
        Some(
            MetalFault::InvalidDimensions(
                "encode_groupnorm_f32: channels "@ + text::dec(channels as nat)
                    + " not divisible by num_groups "@ + text::dec(num_groups as nat),
            ),
        )
    } else if channels * hw > usize::MAX {
        Some(
            MetalFault::InvalidDimensions(
                "encode_groupnorm_f32: channels*hw overflow (channels="@ + text::dec(
                    channels as nat,
                ) + ", hw="@ + text::dec(hw as nat) + ")"@,
            ),
        )
    } else if x_len != channels * hw {
        Some(
            MetalFault::InvalidDimensions(
                "encode_groupnorm_f32: x len "@ + text::dec(x_len as nat) + " != channels*hw "@
                    + text::dec((channels * hw) as nat),
            ),
        )
    } else if weight_len != channels || bias_len != channels {
        Some(
            MetalFault::InvalidDimensions(
                "encode_groupnorm_f32: weight/bias len ("@ + text::dec(weight_len as nat) + "/"@
                    + text::dec(bias_len as nat) + ") != channels "@ + text::dec(channels as nat),
            ),
        )
    } else {
        None
    }
}

/// A group norm in place; nothing where the plane is empty.
pub open spec fn groupnorm_plan(
    x_len: usize,
    channels: usize,
    hw: usize,
    num_groups: usize,
    eps: u32,
) -> Seq<Action> {
    let x = Buf::Scratch(ScratchBuf::Input);
    let weight = Buf::Scratch(ScratchBuf::Weight);
    let bias = Buf::Scratch(ScratchBuf::Bias);
    let storage = Storage::Shared;
    if x_len == 0 {
        seq![]
    } else {
        seq![
            Action::Alloc { buf: x, bytes: (x_len * 4) as u64, storage },
            Action::Alloc { buf: weight, bytes: (channels * 4) as u64, storage },
            Action::Alloc { buf: bias, bytes: (channels * 4) as u64, storage },
            Action::Upload { buf: x, floats: x_len },
            Action::Upload { buf: weight, floats: channels },
            Action::Upload { buf: bias, floats: channels },
            Action::Dispatch(
                Step::GroupNorm {
                    x,
                    weight,
                    bias,
                    channels: channels as u32,
                    hw: hw as u32,
                    num_groups: num_groups as u32,
                    eps,
                },
            ),
            Action::Commit,
            Action::Download { buf: x, floats: x_len },
        ]
    }
}

/// SiLU in place; nothing where the plane is empty.
pub open spec fn silu_plan(x_len: usize) -> Seq<Action> {
    let x = Buf::Scratch(ScratchBuf::Input);
    if x_len == 0 {
        seq![]
    } else {
        seq![
            Action::Alloc { buf: x, bytes: (x_len * 4) as u64, storage: Storage::Shared },
            Action::Upload { buf: x, floats: x_len },
            Action::Dispatch(Step::Silu { x, n: x_len as u32 }),
            Action::Commit,
            Action::Download { buf: x, floats: x_len },
        ]
    }
}

/// Why an upsampling is refused, in order of the checks.
pub open spec fn upsample_fault(
    input_len: usize,
    output_len: usize,
    c: usize,
    h: usize,
    w: usize,
) -> Option<MetalFault> {
    if c * h > usize::MAX || c * h * w > usize::MAX {
        Some(
            MetalFault::InvalidDimensions(
                "encode_upsample_nearest_f32: c*h*w overflow (c="@ + text::dec(c as nat) + ", h="@
                    + text::dec(h as nat) + ", w="@ + text::dec(w as nat) + ")"@,
            ),
        )
    } else if input_len != c * h * w {
        Some(
            MetalFault::InvalidDimensions(
                "encode_upsample_nearest_f32: input len "@ + text::dec(input_len as nat)
                    + " != c*h*w "@ + text::dec((c * h * w) as nat),
            ),
        )
    } else if input_len * 4 > usize::MAX {
        Some(
            MetalFault::InvalidDimensions("encode_upsample_nearest_f32: output size overflow"@),
        )
    } else if output_len != input_len * 4 {
        Some(
            MetalFault::InvalidDimensions(
                "encode_upsample_nearest_f32: output len "@ + text::dec(output_len as nat)
                    + " != c*4*h*w "@ + text::dec((input_len * 4) as nat),
            ),
        )
    } else {
        None
    }
}

/// An upsampling; nothing where the plane is empty.
pub open spec fn upsample_plan(
    input_len: usize,
    output_len: usize,
    c: usize,
    h: usize,
    w: usize,
) -> Seq<Action> {
    let input = Buf::Scratch(ScratchBuf::Input);
    let output = Buf::Scratch(ScratchBuf::Output);
    let storage = Storage::Shared;
    if input_len == 0 {
        seq![]
    } else {
        seq![
            Action::Alloc { buf: input, bytes: (input_len * 4) as u64, storage },
            Action::Alloc { buf: output, bytes: (output_len * 4) as u64, storage },
            Action::Upload { buf: input, floats: input_len },
            Action::Dispatch(
                Step::UpsampleNearest {
                    input,
                    output,
                    c: c as u32,
                    h: h as u32,
                    w: w as u32,
                    n: output_len as u32,
                },
            ),
            Action::Commit,
            Action::Download { buf: output, floats: output_len },
        ]
    }
}

impl MetalGraph {
    /// Plans a group norm of a plane `[channels, hw]` in place. `eps` holds the
    /// bits of a single-precision number.
    pub fn encode_groupnorm_f32(
        &self,
        x_len: usize,
        weight_len: usize,
        bias_len: usize,
        channels: usize,
        hw: usize,
        num_groups: usize,
        eps: u32,
    ) -> (r: Result<Vec<Action>, MetalGraphError>)
        requires
            x_len * 4 <= usize::MAX,
        ensures
            error::reports(
                r,
                groupnorm_fault(x_len, weight_len, bias_len, channels, hw, num_groups),
            ),
            r matches Ok(plan) ==> plan@ == groupnorm_plan(x_len, channels, hw, num_groups, eps),
    {
        if num_groups == 0 || channels % num_groups != 0 {
            return Err(
                invalid_dimensions(
                    Msg::new("encode_groupnorm_f32: channels ").num(channels).lit(
                        " not divisible by num_groups ",
                    ).num(num_groups),
                ),
            );
        }
        let expected: usize = match channels.checked_mul(hw) {
            Some(v) => v,
            None => {
                return Err(
                    invalid_dimensions(
                        Msg::new("encode_groupnorm_f32: channels*hw overflow (channels=").num(
                            channels,
                        ).lit(", hw=").num(hw).lit(")"),
                    ),
                );
            },
        };
        if x_len != expected {
            return Err(
                invalid_dimensions(
                    Msg::new("encode_groupnorm_f32: x len ").num(x_len).lit(
                        " != channels*hw ",
                    ).num(expected),
                ),
            );
        }
        if weight_len != channels || bias_len != channels {
            return Err(
                invalid_dimensions(
                    Msg::new("encode_groupnorm_f32: weight/bias len (").num(weight_len).lit(
                        "/",
                    ).num(bias_len).lit(") != channels ").num(channels),
                ),
            );
        }
        let mut plan: Vec<Action> = Vec::new();
        if expected == 0 {
            assert(plan@ =~= seq![]);
            return Ok(plan);
        }
        proof {
            let (c, p) = (channels as int, hw as int);
            assert(c <= c * p) by (nonlinear_arith)
                requires
                    c >= 0,
                    p >= 0,
                    c * p > 0,
            ;
        }
        let x = Buf::Scratch(ScratchBuf::Input);
        let weight = Buf::Scratch(ScratchBuf::Weight);
        let bias = Buf::Scratch(ScratchBuf::Bias);
        let storage = Storage::Shared;
        plan.push(Action::Alloc { buf: x, bytes: (x_len * 4) as u64, storage });
        plan.push(Action::Alloc { buf: weight, bytes: (channels * 4) as u64, storage });
        plan.push(Action::Alloc { buf: bias, bytes: (channels * 4) as u64, storage });
        plan.push(Action::Upload { buf: x, floats: x_len });
        plan.push(Action::Upload { buf: weight, floats: channels });
        plan.push(Action::Upload { buf: bias, floats: channels });
        plan.push(
            Action::Dispatch(
                Step::GroupNorm {
                    x,
                    weight,
                    bias,
                    channels: channels as u32,
                    hw: hw as u32,
                    num_groups: num_groups as u32,
                    eps,
                },
            ),
        );
        plan.push(Action::Commit);
        plan.push(Action::Download { buf: x, floats: x_len });
        assert(plan@ =~= groupnorm_plan(x_len, channels, hw, num_groups, eps));
        Ok(plan)
    }

    /// Plans an element-wise SiLU in place.
    pub fn encode_silu_f32(&self, x_len: usize) -> (r: Result<Vec<Action>, MetalGraphError>)
        requires
            x_len * 4 <= usize::MAX,
        ensures
            r matches Ok(plan) && plan@ == silu_plan(x_len),
    {
        let mut plan: Vec<Action> = Vec::new();
        if x_len == 0 {
            assert(plan@ =~= seq![]);
            return Ok(plan);
        }
        let x = Buf::Scratch(ScratchBuf::Input);
        plan.push(
            Action::Alloc { buf: x, bytes: (x_len * 4) as u64, storage: Storage::Shared },
        );
        plan.push(Action::Upload { buf: x, floats: x_len });
        plan.push(Action::Dispatch(Step::Silu { x, n: x_len as u32 }));
        plan.push(Action::Commit);
        plan.push(Action::Download { buf: x, floats: x_len });
        assert(plan@ =~= silu_plan(x_len));
        Ok(plan)
    }

    /// Plans a nearest-neighbour upsampling of `[c, h, w]` to `[c, 2 h, 2 w]`.
    pub fn encode_upsample_nearest_f32(
        &self,
        input_len: usize,
        output_len: usize,
        c: usize,
        h: usize,
        w: usize,
    ) -> (r: Result<Vec<Action>, MetalGraphError>)
        requires
            output_len * 4 <= usize::MAX,
        ensures
            error::reports(r, upsample_fault(input_len, output_len, c, h, w)),
            r matches Ok(plan) ==> plan@ == upsample_plan(input_len, output_len, c, h, w),
    {
        let expected_in: Option<usize> = match c.checked_mul(h) {
            Some(x) => x.checked_mul(w),
            None => None,
        };
        let expected_in: usize = match expected_in {
            Some(v) => v,
            None => {
                return Err(
                    invalid_dimensions(
                        Msg::new("encode_upsample_nearest_f32: c*h*w overflow (c=").num(c).lit(
                            ", h=",
                        ).num(h).lit(", w=").num(w).lit(")"),
                    ),
                );
            },
        };
        if input_len != expected_in {
            return Err(
                invalid_dimensions(
                    Msg::new("encode_upsample_nearest_f32: input len ").num(input_len).lit(
                        " != c*h*w ",
                    ).num(expected_in),
                ),
            );
        }
        let expected_out: usize = match expected_in.checked_mul(4) {
            Some(v) => v,
            None => {
                return Err(
                    invalid_dimensions(
                        Msg::new("encode_upsample_nearest_f32: output size overflow"),
                    ),
                );
            },
        };
        if output_len != expected_out {
            return Err(
                invalid_dimensions(
                    Msg::new("encode_upsample_nearest_f32: output len ").num(output_len).lit(
                        " != c*4*h*w ",
                    ).num(expected_out),
                ),
            );
        }
        let mut plan: Vec<Action> = Vec::new();
        if expected_in == 0 {
            assert(plan@ =~= seq![]);
            return Ok(plan);
        }
        let input = Buf::Scratch(ScratchBuf::Input);
        let output = Buf::Scratch(ScratchBuf::Output);
        let storage = Storage::Shared;
        plan.push(Action::Alloc { buf: input, bytes: (input_len * 4) as u64, storage });
        plan.push(Action::Alloc { buf: output, bytes: (output_len * 4) as u64, storage });
        plan.push(Action::Upload { buf: input, floats: input_len });
        plan.push(
            Action::Dispatch(
                Step::UpsampleNearest {
                    input,
                    output,
                    c: c as u32,
                    h: h as u32,
                    w: w as u32,
                    n: output_len as u32,
                },
            ),
        );
        plan.push(Action::Commit);
        plan.push(Action::Download { buf: output, floats: output_len });
        assert(plan@ =~= upsample_plan(input_len, output_len, c, h, w));
        Ok(plan)
    }
}

/// A convolution that gathers its patches on the fly falls back to what the same
/// arguments give with that switched off: the tiled plan.
pub proof fn law_implicit_convolution_has_a_fallback(
    a: ConvArgs,
    resident: Residency,
    direct: ConvPlan,
    other: ConvPlan,
)
    requires
        a.planned(resident, false, direct),
        direct is Implicit,
        a.planned(resident, true, other),
    ensures
        other matches ConvPlan::Im2col(p) && p@ == direct->Implicit_fallback@,
{
}

/// The patches of a tile stay within the cap, unless a single patch exceeds
/// it.
pub proof fn law_patches_within_cap(g: ConvGeometry)
    requires
        g.wf(),
        g.patch_dim * 4 <= IM2COL_TILE_CAP_BYTES,
    ensures
        g.tile_rows() * g.patch_dim * 4 <= IM2COL_TILE_CAP_BYTES,
{
    lemma_tile_rows(g);
    let (t, p) = (g.tile_rows(), g.patch_dim as int);
    assert(t * p * 4 == t * (p * 4)) by (nonlinear_arith);
    if t == 1 {
        assert(t * p == p) by (nonlinear_arith)
            requires
                t == 1,
        ;
    }
}

/// The tiles cover the output plane exactly once: position `row` belongs to
/// one tile and to no other.
pub proof fn law_conv_tiles_partition_rows(g: ConvGeometry, row: int, i: int)
    requires
        g.wf(),
        0 <= row < g.spatial,
        0 <= i < g.tile_count(),
    ensures
        (g.tile_start(i) <= row < g.tile_start(i) + g.tile_len(i)) <==> i == row / g.tile_rows(),
        0 <= row / g.tile_rows() < g.tile_count(),
{
    lemma_tile_rows(g);
    lemma_tile_bounds(g, i);
    let t = g.tile_rows();
    let q = row / t;
    assert(0 <= q && q * t <= row && row < q * t + t) by (nonlinear_arith)
        requires
            q == row / t,
            t > 0,
            row >= 0,
    ;
    let n = g.tile_count();
    assert(q < n) by (nonlinear_arith)
        requires
            q * t <= row,
            row < n * t,
            t > 0,
    ;
    if i < q {
        assert(i * t + t <= q * t) by (nonlinear_arith)
            requires
                i + 1 <= q,
                t > 0,
        ;
    } else if i > q {
        assert(q * t + t <= i * t) by (nonlinear_arith)
            requires
                q + 1 <= i,
                t > 0,
        ;
    } else {
        lemma_tile_bounds(g, q);
    }
}

/// Each tile is five actions, and tile `i` ends with the scatter of its rows.
pub proof fn law_conv_tiles_scatter_in_order(
    g: ConvGeometry,
    weight: MetalWeightHandle,
    n: nat,
    i: int,
)
    requires
        0 <= i < n,
    ensures
        g.tiles(weight, n).len() == 5 * n,
        g.tiles(weight, n)[5 * i + 4] == (Action::ScatterTile {
            row_start: g.tile_start(i) as usize,
            rows: g.tile_len(i) as usize,
        }),
    decreases n,
{
    let m = (n - 1) as nat;
    if i < m {
        law_conv_tiles_scatter_in_order(g, weight, m, i);
    } else {
        lemma_tiles_len(g, weight, m);
    }
}

proof fn lemma_tiles_len(g: ConvGeometry, weight: MetalWeightHandle, n: nat)
    ensures
        g.tiles(weight, n).len() == 5 * n,
    decreases n,
{
    if n > 0 {
        lemma_tiles_len(g, weight, (n - 1) as nat);
    }
}

/// The factors of a convolution with operands are positive and their partial
/// products fit.
proof fn lemma_conv_factors(a: ConvArgs)
    requires
        a.k > 0,
        a.input_len == a.c_in * a.h * a.w,
        a.output_len == a.c_out * a.spatial(),
        a.input_len > 0,
        a.output_len > 0,
        a.h_out() > 0,
        a.w_out() > 0,
    ensures
        a.c_in > 0,
        a.h > 0,
        a.w > 0,
        a.c_out > 0,
        a.spatial() > 0,
        a.patch_dim() > 0,
        a.h * a.w <= a.input_len,
        a.is_channel_mix() ==> a.spatial() == a.h * a.w,
        a.patch_dim() <= a.c_out * a.patch_dim(),
        a.h * a.w * a.c_out == a.c_out * (a.h * a.w),
{
    let (c, h, w) = (a.c_in as int, a.h as int, a.w as int);
    let (o, s, k) = (a.c_out as int, a.spatial(), a.k as int);
    assert(c > 0 && h > 0 && w > 0) by (nonlinear_arith)
        requires
            c >= 0,
            h >= 0,
            w >= 0,
            c * h * w > 0,
    ;
    let (x, y) = (a.h_out(), a.w_out());
    assert(s > 0) by (nonlinear_arith)
        requires
            s == x * y,
            x > 0,
            y > 0,
    ;
    assert(o > 0) by (nonlinear_arith)
        requires
            o * s > 0,
            s > 0,
            o >= 0,
    ;
    assert(k * k * c > 0) by (nonlinear_arith)
        requires
            k > 0,
            c > 0,
    ;
    assert(h * w <= c * h * w) by (nonlinear_arith)
        requires
            c > 0,
            h > 0,
            w > 0,
    ;
    let p = k * k * c;
    assert(p <= o * p) by (nonlinear_arith)
        requires
            o > 0,
            p > 0,
    ;
    assert(h * w * o == o * (h * w)) by (nonlinear_arith);
}

} // verus!

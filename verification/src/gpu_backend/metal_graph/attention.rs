//! Joint attention of text and image tokens: standalone, pooled and resident.

use vstd::prelude::*;

use crate::arith::Arith;
use crate::gpu_backend::metal_graph::device::{Action, Buf, Resident, ScratchBuf, Step, Storage};
use crate::gpu_backend::metal_graph::error;
use crate::gpu_backend::metal_graph::error::{
    execution_failed, invalid_dimensions, MetalFault, MetalGraphError,
};
use crate::gpu_backend::metal_graph::graph::{MetalGraph, Residency};
use crate::gpu_backend::metal_graph::laws;
use crate::gpu_backend::metal_graph::machine;
use crate::gpu_backend::metal_graph::machine::{Host, Kernels, Machine};
use crate::text;
use crate::text::Msg;

verus! {

/// Largest shapes that the attention kernels are compiled for.
#[derive(Debug, Clone, Copy, PartialEq, Eq, Structural)]
pub struct AttnCaps {
    /// Longest sequence.
    pub max_seq: usize,
    /// Widest head.
    pub max_head_dim: usize,
}

/// Widest head of the flash kernel.
pub const FLASH_MAX_HEAD_DIM: usize = 128;

/// Shape of a joint attention and lengths of its host operands.
#[derive(Debug, Clone, Copy, PartialEq, Eq, Structural)]
pub struct AttnArgs {
    /// Numbers in the queries.
    pub q_len: usize,
    /// Numbers in the keys.
    pub k_len: usize,
    /// Numbers in the values.
    pub v_len: usize,
    /// Numbers in the output.
    pub out_len: usize,
    /// Heads.
    pub num_heads: usize,
    /// Tokens.
    pub seq: usize,
    /// Width of a head.
    pub head_dim: usize,
}

impl AttnArgs {
    /// Numbers in each operand: heads times tokens times width.
    pub open spec fn need(self) -> int {
        self.num_heads * self.seq * self.head_dim
    }

    /// What is wrong with the shape alone.
    pub open spec fn shape_fault(self, caps: AttnCaps) -> Option<MetalFault> {
        if self.num_heads == 0 || self.seq == 0 || self.head_dim == 0 {
            Some(
                MetalFault::InvalidDimensions(
                    "joint_attention: dims must be non-zero (num_heads="@ + text::dec(
                        self.num_heads as nat,
                    ) + ", seq="@ + text::dec(self.seq as nat) + ", head_dim="@ + text::dec(
                        self.head_dim as nat,
                    ) + ")"@,
                ),
            )
        } else if self.seq > caps.max_seq {
            Some(
                MetalFault::InvalidDimensions(
                    "joint_attention: seq "@ + text::dec(self.seq as nat) + " exceeds kernel cap "@
                        + text::dec(caps.max_seq as nat),
                ),
            )
        } else if self.head_dim > caps.max_head_dim {
            Some(
                MetalFault::InvalidDimensions(
                    "joint_attention: head_dim "@ + text::dec(self.head_dim as nat)
                        + " exceeds kernel cap "@ + text::dec(caps.max_head_dim as nat),
                ),
            )
        } else {
            None
        }
    }

    /// What is wrong with shape or lengths, in order of the checks.
    pub open spec fn fault(self, caps: AttnCaps) -> Option<MetalFault> {
        match self.shape_fault(caps) {
            Some(f) => Some(f),
            None => if self.q_len < self.need() || self.k_len < self.need() || self.v_len
                < self.need() {
                Some(
                    MetalFault::InvalidDimensions(
                        "joint_attention: q/k/v too short (need "@ + text::dec(self.need() as nat)
                            + ", got "@ + text::dec(self.q_len as nat) + "/"@ + text::dec(
                            self.k_len as nat,
                        ) + "/"@ + text::dec(self.v_len as nat) + ")"@,
                    ),
                )
            } else if self.out_len < self.need() {
                Some(
                    MetalFault::InvalidDimensions(
                        "joint_attention: out too short (need "@ + text::dec(self.need() as nat)
                            + ", got "@ + text::dec(self.out_len as nat) + ")"@,
                    ),
                )
            } else {
                None
            },
        }
    }

    /// What is wrong with shape or lengths for the flash kernel.
    pub open spec fn flash_fault(self, caps: AttnCaps) -> Option<MetalFault> {
        match self.fault(caps) {
            Some(f) => Some(f),
            None => if self.head_dim % 8 != 0 {
                Some(
                    MetalFault::InvalidDimensions(
                        "joint_attention_flash: head_dim "@ + text::dec(self.head_dim as nat)
                            + " must be a multiple of 8"@,
                    ),
                )
            } else if self.head_dim > FLASH_MAX_HEAD_DIM {
                Some(
                    MetalFault::InvalidDimensions(
                        "joint_attention_flash: head_dim "@ + text::dec(self.head_dim as nat)
                            + " exceeds the flash kernel cap (128)"@,
                    ),
                )
            } else {
                None
            },
        }
    }

    /// The operand size, computed once the shape has passed, fits.
    pub open spec fn no_overflow(self, caps: AttnCaps) -> bool {
        self.shape_fault(caps) is None ==> self.need() <= usize::MAX
    }

    /// The byte size, computed once all checks have passed, fits.
    pub open spec fn bytes_fit(self, caps: AttnCaps) -> bool {
        self.flash_fault(caps) is None ==> self.need() * 4 <= usize::MAX
    }
}

/// The attention launch on given buffers.
pub open spec fn flash_step(
    query: Buf,
    key: Buf,
    value: Buf,
    out: Buf,
    num_heads: usize,
    seq: usize,
    head_dim: usize,
) -> Step {
    Step::JointAttentionFlash {
        query,
        key,
        value,
        out,
        num_heads: num_heads as u32,
        seq: seq as u32,
        head_dim: head_dim as u32,
        scale_dim: head_dim,
    }
}

/// The attention launch on the pool.
pub open spec fn pooled_step(num_heads: usize, seq: usize, head_dim: usize) -> Step {
    flash_step(Buf::AttnQ, Buf::AttnK, Buf::AttnV, Buf::AttnOut, num_heads, seq, head_dim)
}

/// A shared allocation.
pub open spec fn shared(buf: Buf, bytes: int) -> Action {
    Action::Alloc { buf, bytes: bytes as u64, storage: Storage::Shared }
}

/// Growth of the attention pool to hold so many bytes: all four buffers where
/// there is no pool, otherwise the three inputs together, and the output.
pub open spec fn grow_joint_attn_pool(
    resident: Residency,
    qkv_bytes: usize,
    out_bytes: usize,
) -> Seq<Action> {
    let q = shared(Buf::AttnQ, qkv_bytes as int);
    let k = shared(Buf::AttnK, qkv_bytes as int);
    let v = shared(Buf::AttnV, qkv_bytes as int);
    let out = shared(Buf::AttnOut, out_bytes as int);
    match resident.joint_attn_pool {
        None => seq![q, k, v, out, Action::Keep(Resident::AttnPool { qkv_bytes, out_bytes })],
        Some(p) => {
            (if p.qkv_cap_bytes < qkv_bytes {
                seq![q, k, v, Action::Keep(Resident::AttnQkv { bytes: qkv_bytes })]
            } else {
                seq![]
            }) + (if p.out_cap_bytes < out_bytes {
                seq![out, Action::Keep(Resident::AttnOut { bytes: out_bytes })]
            } else {
                seq![]
            })
        },
    }
}

/// Uploads of queries, keys and values.
pub open spec fn upload_qkv(q: Buf, k: Buf, v: Buf, floats: usize) -> Seq<Action> {
    seq![
        Action::Upload { buf: q, floats },
        Action::Upload { buf: k, floats },
        Action::Upload { buf: v, floats },
    ]
}

/// The standalone attention: buffers made for the call.
pub open spec fn flash_plan(a: AttnArgs) -> Seq<Action> {
    let q = Buf::Scratch(ScratchBuf::Q);
    let k = Buf::Scratch(ScratchBuf::K);
    let v = Buf::Scratch(ScratchBuf::V);
    let out = Buf::Scratch(ScratchBuf::Output);
    let need = a.need() as usize;
    seq![
        shared(q, a.need() * 4),
        shared(k, a.need() * 4),
        shared(v, a.need() * 4),
        shared(out, a.need() * 4),
    ] + upload_qkv(q, k, v, need) + seq![
        Action::Dispatch(flash_step(q, k, v, out, a.num_heads, a.seq, a.head_dim)),
        Action::Commit,
        Action::Download { buf: out, floats: need },
    ]
}

/// The upload of a resident attention's operands.
pub open spec fn prepare_plan(resident: Residency, a: AttnArgs) -> Seq<Action> {
    let bytes = (a.need() * 4) as usize;
    grow_joint_attn_pool(resident, bytes, bytes) + upload_qkv(
        Buf::AttnQ,
        Buf::AttnK,
        Buf::AttnV,
        a.need() as usize,
    )
}

/// The pooled attention.
pub open spec fn pooled_plan(resident: Residency, a: AttnArgs) -> Seq<Action> {
    prepare_plan(resident, a) + seq![
        Action::Dispatch(pooled_step(a.num_heads, a.seq, a.head_dim)),
        Action::Commit,
        Action::Download { buf: Buf::AttnOut, floats: a.need() as usize },
    ]
}

/// Why a launch on the resident operands is refused, in order of the checks.
pub open spec fn resident_fault(
    resident: Residency,
    caps: AttnCaps,
    num_heads: usize,
    seq: usize,
    head_dim: usize,
) -> Option<MetalFault> {
    if num_heads == 0 || seq == 0 || head_dim == 0 {
        Some(
            MetalFault::InvalidDimensions(
                "joint_attention_flash: dims must be non-zero (num_heads="@ + text::dec(
                    num_heads as nat,
                ) + ", seq="@ + text::dec(seq as nat) + ", head_dim="@ + text::dec(head_dim as nat)
                    + ")"@,
            ),
        )
    } else if seq > caps.max_seq || head_dim > caps.max_head_dim {
        Some(
            MetalFault::InvalidDimensions(
                "joint_attention_flash: seq "@ + text::dec(seq as nat) + " / head_dim "@
                    + text::dec(head_dim as nat) + " exceed caps ("@ + text::dec(
                    caps.max_seq as nat,
                ) + "/"@ + text::dec(caps.max_head_dim as nat) + ")"@,
            ),
        )
    } else if head_dim % 8 != 0 || head_dim > FLASH_MAX_HEAD_DIM {
        Some(
            MetalFault::InvalidDimensions(
                "joint_attention_flash: head_dim "@ + text::dec(head_dim as nat)
                    + " must be a multiple of 8 and <= 128"@,
            ),
        )
    } else {
        let bytes = num_heads * seq * head_dim * 4;
        match resident.joint_attn_pool {
            None => Some(
                MetalFault::ExecutionFailed(
                    "joint_attn_flash_resident_dispatch: pool not prepared (call joint_attn_resident_prepare first)"@,
                ),
            ),
            Some(p) => if p.qkv_cap_bytes < bytes || p.out_cap_bytes < bytes {
                Some(
                    MetalFault::ExecutionFailed(
                        "joint_attn_flash_resident_dispatch: resident pool smaller than requested shape"@,
                    ),
                )
            } else {
                None
            },
        }
    }
}

/// Why a download of the resident output is refused.
pub open spec fn download_fault(resident: Residency, out_len: usize) -> Option<MetalFault> {
    match resident.joint_attn_pool {
        None => Some(
            MetalFault::ExecutionFailed("joint_attn_resident_download: pool not prepared"@),
        ),
        Some(p) => if out_len > p.out_cap_bytes / 4 {
            Some(
                MetalFault::ExecutionFailed(
                    "joint_attn_resident_download: out len "@ + text::dec(out_len as nat)
                        + " exceeds resident capacity "@ + text::dec(
                        (p.out_cap_bytes / 4) as nat,
                    ),
                ),
            )
        } else {
            None
        },
    }
}

impl MetalGraph {
    /// Checks shape and lengths against the kernel caps, and returns the
    /// numbers in each operand.
    fn joint_attn_validate(args: &AttnArgs, caps: &AttnCaps) -> (r: Result<usize, MetalGraphError>)
        requires
            args.no_overflow(*caps),
        ensures
            error::reports(r, args.fault(*caps)),
            r matches Ok(n) ==> n == args.need(),
    {
        let num_heads: usize = args.num_heads;
        let seq: usize = args.seq;
        let head_dim: usize = args.head_dim;
        if num_heads == 0 || seq == 0 || head_dim == 0 {
            return Err(
                invalid_dimensions(
                    Msg::new("joint_attention: dims must be non-zero (num_heads=").num(
                        num_heads,
                    ).lit(", seq=").num(seq).lit(", head_dim=").num(head_dim).lit(")"),
                ),
            );
        }
        if seq > caps.max_seq {
            return Err(
                invalid_dimensions(
                    Msg::new("joint_attention: seq ").num(seq).lit(" exceeds kernel cap ").num(
                        caps.max_seq,
                    ),
                ),
            );
        }
        if head_dim > caps.max_head_dim {
            return Err(
                invalid_dimensions(
                    Msg::new("joint_attention: head_dim ").num(head_dim).lit(
                        " exceeds kernel cap ",
                    ).num(caps.max_head_dim),
                ),
            );
        }
        proof {
            lemma_partial_product(num_heads as int, seq as int, head_dim as int);
        }
        let need: usize = num_heads * seq * head_dim;
        if args.q_len < need || args.k_len < need || args.v_len < need {
            return Err(
                invalid_dimensions(
                    Msg::new("joint_attention: q/k/v too short (need ").num(need).lit(", got ").num(
                        args.q_len,
                    ).lit("/").num(args.k_len).lit("/").num(args.v_len).lit(")"),
                ),
            );
        }
        if args.out_len < need {
            return Err(
                invalid_dimensions(
                    Msg::new("joint_attention: out too short (need ").num(need).lit(", got ").num(
                        args.out_len,
                    ).lit(")"),
                ),
            );
        }
        Ok(need)
    }

    /// Checks as [`Self::joint_attn_validate`] does, and what the flash kernel
    /// asks of the head width besides.
    fn joint_attn_flash_validate(args: &AttnArgs, caps: &AttnCaps) -> (r: Result<
        usize,
        MetalGraphError,
    >)
        requires
            args.no_overflow(*caps),
        ensures
            error::reports(r, args.flash_fault(*caps)),
            r matches Ok(n) ==> n == args.need() && n > 0,
    {
        let need: usize = Self::joint_attn_validate(args, caps)?;
        if args.head_dim % 8 != 0 {
            return Err(
                invalid_dimensions(
                    Msg::new("joint_attention_flash: head_dim ").num(args.head_dim).lit(
                        " must be a multiple of 8",
                    ),
                ),
            );
        }
        if args.head_dim > FLASH_MAX_HEAD_DIM {
            return Err(
                invalid_dimensions(
                    Msg::new("joint_attention_flash: head_dim ").num(args.head_dim).lit(
                        " exceeds the flash kernel cap (128)",
                    ),
                ),
            );
        }
        proof {
            lemma_partial_product(
                args.num_heads as int,
                args.seq as int,
                args.head_dim as int,
            );
        }
        Ok(need)
    }

    /// Appends the growth of the joint-attention pool to a plan, so that each
    /// buffer holds at least the requested bytes. The pool never shrinks.
    fn ensure_joint_attn_pool(&self, plan: &mut Vec<Action>, qkv_bytes: usize, out_bytes: usize)
        requires
            qkv_bytes > 0,
            out_bytes > 0,
        ensures
            final(plan)@ == old(plan)@ + grow_joint_attn_pool(self.resident, qkv_bytes, out_bytes),
    {
        let ghost base = plan@;
        let storage = Storage::Shared;
        let bytes: u64 = qkv_bytes as u64;
        match self.resident.joint_attn_pool {
            None => {
                plan.push(Action::Alloc { buf: Buf::AttnQ, bytes, storage });
                plan.push(Action::Alloc { buf: Buf::AttnK, bytes, storage });
                plan.push(Action::Alloc { buf: Buf::AttnV, bytes, storage });
                plan.push(Action::Alloc { buf: Buf::AttnOut, bytes: out_bytes as u64, storage });
                plan.push(Action::Keep(Resident::AttnPool { qkv_bytes, out_bytes }));
            },
            Some(pool) => {
                if pool.qkv_cap_bytes < qkv_bytes {
                    plan.push(Action::Alloc { buf: Buf::AttnQ, bytes, storage });
                    plan.push(Action::Alloc { buf: Buf::AttnK, bytes, storage });
                    plan.push(Action::Alloc { buf: Buf::AttnV, bytes, storage });
                    plan.push(Action::Keep(Resident::AttnQkv { bytes: qkv_bytes }));
                }
                if pool.out_cap_bytes < out_bytes {
                    plan.push(
                        Action::Alloc { buf: Buf::AttnOut, bytes: out_bytes as u64, storage },
                    );
                    plan.push(Action::Keep(Resident::AttnOut { bytes: out_bytes }));
                }
            },
        }
        assert(plan@ =~= base + grow_joint_attn_pool(self.resident, qkv_bytes, out_bytes));
    }

    /// Plans joint attention through buffers made for the call.
    ///
    /// Queries, keys and values are head-major `[num_heads, seq, head_dim]`;
    /// the output is token-major `[seq, num_heads * head_dim]`.
    pub fn encode_joint_attention_flash(&self, args: &AttnArgs, caps: &AttnCaps) -> (r: Result<
        Vec<Action>,
        MetalGraphError,
    >)
        requires
            args.no_overflow(*caps),
            args.bytes_fit(*caps),
        ensures
            error::reports(r, args.flash_fault(*caps)),
            r matches Ok(plan) ==> plan@ == flash_plan(*args),
    {
        let need: usize = Self::joint_attn_flash_validate(args, caps)?;
        let bytes: u64 = (need * 4) as u64;
        let storage = Storage::Shared;
        let query = Buf::Scratch(ScratchBuf::Q);
        let key = Buf::Scratch(ScratchBuf::K);
        let value = Buf::Scratch(ScratchBuf::V);
        let out = Buf::Scratch(ScratchBuf::Output);
        let mut plan: Vec<Action> = Vec::new();
        plan.push(Action::Alloc { buf: query, bytes, storage });
        plan.push(Action::Alloc { buf: key, bytes, storage });
        plan.push(Action::Alloc { buf: value, bytes, storage });
        plan.push(Action::Alloc { buf: out, bytes, storage });
        plan.push(Action::Upload { buf: query, floats: need });
        plan.push(Action::Upload { buf: key, floats: need });
        plan.push(Action::Upload { buf: value, floats: need });
        plan.push(
            Action::Dispatch(
                Step::JointAttentionFlash {
                    query,
                    key,
                    value,
                    out,
                    num_heads: args.num_heads as u32,
                    seq: args.seq as u32,
                    head_dim: args.head_dim as u32,
                    scale_dim: args.head_dim,
                },
            ),
        );
        plan.push(Action::Commit);
        plan.push(Action::Download { buf: out, floats: need });
        assert(plan@ =~= flash_plan(*args));
        Ok(plan)
    }

    /// Plans joint attention through the pool: operands are uploaded and the
    /// output is read back, and a warmed pool allocates nothing.
    pub fn encode_joint_attention_flash_pooled(&self, args: &AttnArgs, caps: &AttnCaps) -> (r:
        Result<Vec<Action>, MetalGraphError>)
        requires
            args.no_overflow(*caps),
            args.bytes_fit(*caps),
        ensures
            error::reports(r, args.flash_fault(*caps)),
            r matches Ok(plan) ==> plan@ == pooled_plan(self.resident, *args),
    {
        let mut plan = self.joint_attn_resident_prepare(args, caps)?;
        plan.push(
            Action::Dispatch(
                Step::JointAttentionFlash {
                    query: Buf::AttnQ,
                    key: Buf::AttnK,
                    value: Buf::AttnV,
                    out: Buf::AttnOut,
                    num_heads: args.num_heads as u32,
                    seq: args.seq as u32,
                    head_dim: args.head_dim as u32,
                    scale_dim: args.head_dim,
                },
            ),
        );
        plan.push(Action::Commit);
        proof {
            lemma_partial_product(
                args.num_heads as int,
                args.seq as int,
                args.head_dim as int,
            );
        }
        let need: usize = args.num_heads * args.seq * args.head_dim;
        plan.push(Action::Download { buf: Buf::AttnOut, floats: need });
        assert(plan@ =~= pooled_plan(self.resident, *args));
        Ok(plan)
    }

    /// Plans the upload of queries, keys and values into the pool, for
    /// launches that leave operands and output on the device. The output is
    /// only checked for its length.
    pub fn joint_attn_resident_prepare(&self, args: &AttnArgs, caps: &AttnCaps) -> (r: Result<
        Vec<Action>,
        MetalGraphError,
    >)
        requires
            args.no_overflow(*caps),
            args.bytes_fit(*caps),
        ensures
            error::reports(r, args.flash_fault(*caps)),
            r matches Ok(plan) ==> plan@ == prepare_plan(self.resident, *args),
    {
        let need: usize = Self::joint_attn_flash_validate(args, caps)?;
        let bytes: usize = need * 4;
        let mut plan: Vec<Action> = Vec::new();
        self.ensure_joint_attn_pool(&mut plan, bytes, bytes);
        plan.push(Action::Upload { buf: Buf::AttnQ, floats: need });
        plan.push(Action::Upload { buf: Buf::AttnK, floats: need });
        plan.push(Action::Upload { buf: Buf::AttnV, floats: need });
        assert(plan@ =~= prepare_plan(self.resident, *args));
        Ok(plan)
    }

    /// Plans a launch on the operands that
    /// [`Self::joint_attn_resident_prepare`] uploaded, with no upload or
    /// download.
    pub fn joint_attn_flash_resident_dispatch(
        &self,
        num_heads: usize,
        seq: usize,
        head_dim: usize,
        caps: &AttnCaps,
    ) -> (r: Result<Vec<Action>, MetalGraphError>)
        requires
            num_heads > 0 && 0 < seq <= caps.max_seq && 0 < head_dim <= caps.max_head_dim
                && head_dim % 8 == 0 && head_dim <= FLASH_MAX_HEAD_DIM ==> num_heads * seq
                * head_dim * 4 <= usize::MAX,
        ensures
            error::reports(r, resident_fault(self.resident, *caps, num_heads, seq, head_dim)),
            r matches Ok(plan) ==> plan@ == seq![
                Action::Dispatch(pooled_step(num_heads, seq, head_dim)),
                Action::Commit,
            ],
    {
        if num_heads == 0 || seq == 0 || head_dim == 0 {
            return Err(
                invalid_dimensions(
                    Msg::new("joint_attention_flash: dims must be non-zero (num_heads=").num(
                        num_heads,
                    ).lit(", seq=").num(seq).lit(", head_dim=").num(head_dim).lit(")"),
                ),
            );
        }
        if seq > caps.max_seq || head_dim > caps.max_head_dim {
            return Err(
                invalid_dimensions(
                    Msg::new("joint_attention_flash: seq ").num(seq).lit(" / head_dim ").num(
                        head_dim,
                    ).lit(" exceed caps (").num(caps.max_seq).lit("/").num(caps.max_head_dim).lit(
                        ")",
                    ),
                ),
            );
        }
        if head_dim % 8 != 0 || head_dim > FLASH_MAX_HEAD_DIM {
            return Err(
                invalid_dimensions(
                    Msg::new("joint_attention_flash: head_dim ").num(head_dim).lit(
                        " must be a multiple of 8 and <= 128",
                    ),
                ),
            );
        }
        proof {
            lemma_partial_product(num_heads as int, seq as int, head_dim as int);
        }
        let bytes: usize = num_heads * seq * head_dim * 4;
        match self.resident.joint_attn_pool {
            None => Err(
                execution_failed(
                    Msg::new(
                        "joint_attn_flash_resident_dispatch: pool not prepared (call joint_attn_resident_prepare first)",
                    ),
                ),
            ),
            Some(pool) => {
                if pool.qkv_cap_bytes < bytes || pool.out_cap_bytes < bytes {
                    return Err(
                        execution_failed(
                            Msg::new(
                                "joint_attn_flash_resident_dispatch: resident pool smaller than requested shape",
                            ),
                        ),
                    );
                }
                let mut plan: Vec<Action> = Vec::new();
                plan.push(
                    Action::Dispatch(
                        Step::JointAttentionFlash {
                            query: Buf::AttnQ,
                            key: Buf::AttnK,
                            value: Buf::AttnV,
                            out: Buf::AttnOut,
                            num_heads: num_heads as u32,
                            seq: seq as u32,
                            head_dim: head_dim as u32,
                            scale_dim: head_dim,
                        },
                    ),
                );
                plan.push(Action::Commit);
                assert(plan@ =~= seq![
                    Action::Dispatch(pooled_step(num_heads, seq, head_dim)),
                    Action::Commit,
                ]);
                Ok(plan)
            },
        }
    }

    /// Plans the download of the resident attention output.
    pub fn joint_attn_resident_download(&self, out_len: usize) -> (r: Result<
        Vec<Action>,
        MetalGraphError,
    >)
        ensures
            error::reports(r, download_fault(self.resident, out_len)),
            r matches Ok(plan) ==> plan@ == seq![
                Action::Download { buf: Buf::AttnOut, floats: out_len },
            ],
    {
        match self.resident.joint_attn_pool {
            None => Err(
                execution_failed(Msg::new("joint_attn_resident_download: pool not prepared")),
            ),
            Some(pool) => {
                let out_floats: usize = pool.out_cap_bytes / 4;
                if out_len > out_floats {
                    return Err(
                        execution_failed(
                            Msg::new("joint_attn_resident_download: out len ").num(out_len).lit(
                                " exceeds resident capacity ",
                            ).num(out_floats),
                        ),
                    );
                }
                let mut plan: Vec<Action> = Vec::new();
                plan.push(Action::Download { buf: Buf::AttnOut, floats: out_len });
                assert(plan@ =~= seq![Action::Download { buf: Buf::AttnOut, floats: out_len }]);
                Ok(plan)
            },
        }
    }

    /// Buffers allocated for the joint-attention pool so far: four for a fresh
    /// pool, three for larger inputs and one for a larger output.
    pub fn joint_attn_pool_alloc_count(&self) -> (n: u64)
        ensures
            n == self.resident.joint_attn_pool_allocs,
    {
        self.resident.joint_attn_pool_allocs
    }
}

/// A product of positive numbers is at least its first part.
proof fn lemma_partial_product(a: int, b: int, c: int)
    requires
        a > 0,
        b > 0,
        c > 0,
    ensures
        0 < a * b <= a * b * c,
{
    assert(a * b > 0) by (nonlinear_arith)
        requires
            a > 0,
            b > 0,
    ;
    let ab = a * b;
    assert(ab <= ab * c) by (nonlinear_arith)
        requires
            ab > 0,
            c > 0,
    ;
}

/// The joint-attention pool only grows: once a request has been carried out,
/// each capacity is the larger of what it was and what was requested.
pub proof fn law_joint_attn_pool_grows_only(
    resident: Residency,
    qkv_bytes: usize,
    out_bytes: usize,
)
    ensures
        ({
            let after = resident.after(grow_joint_attn_pool(resident, qkv_bytes, out_bytes));
            &&& after.joint_attn_pool matches Some(p) && match resident.joint_attn_pool {
                None => p.qkv_cap_bytes == qkv_bytes && p.out_cap_bytes == out_bytes,
                Some(q) => {
                    &&& p.qkv_cap_bytes == if q.qkv_cap_bytes < qkv_bytes {
                        qkv_bytes
                    } else {
                        q.qkv_cap_bytes
                    }
                    &&& p.out_cap_bytes == if q.out_cap_bytes < out_bytes {
                        out_bytes
                    } else {
                        q.out_cap_bytes
                    }
                },
            }
        }),
{
    let q = shared(Buf::AttnQ, qkv_bytes as int);
    let k = shared(Buf::AttnK, qkv_bytes as int);
    let v = shared(Buf::AttnV, qkv_bytes as int);
    let out = shared(Buf::AttnOut, out_bytes as int);
    let plan = grow_joint_attn_pool(resident, qkv_bytes, out_bytes);
    match resident.joint_attn_pool {
        None => {
            let fresh = Resident::AttnPool { qkv_bytes, out_bytes };
            laws::law_keep_at_end(resident, seq![q, k, v, out], fresh);
            assert(plan =~= seq![q, k, v, out].push(Action::Keep(fresh)));
        },
        Some(p) => {
            let grow_in = Resident::AttnQkv { bytes: qkv_bytes };
            let grow_out = Resident::AttnOut { bytes: out_bytes };
            let inputs = seq![q, k, v].push(Action::Keep(grow_in));
            let output = seq![out].push(Action::Keep(grow_out));
            laws::law_keep_at_end(resident, seq![q, k, v], grow_in);
            laws::law_keep_at_end(resident, seq![out], grow_out);
            laws::law_keep_at_end(resident.with(grow_in), seq![out], grow_out);
            if p.qkv_cap_bytes < qkv_bytes && p.out_cap_bytes < out_bytes {
                assert(plan =~= inputs + output);
                laws::law_plans_compose(resident, inputs, output);
            } else if p.qkv_cap_bytes < qkv_bytes {
                assert(plan =~= inputs);
            } else if p.out_cap_bytes < out_bytes {
                assert(plan =~= output);
            } else {
                assert(plan =~= seq![]);
            }
        },
    }
}

/// A warmed pool allocates nothing: after a request has been carried out,
/// every later request that asks for no more leaves the pool and its
/// allocation count as they are.
pub proof fn law_warm_joint_attn_pool_allocates_nothing(
    resident: Residency,
    qkv_bytes: usize,
    out_bytes: usize,
    later_qkv: usize,
    later_out: usize,
)
    requires
        later_qkv <= qkv_bytes,
        later_out <= out_bytes,
    ensures
        ({
            let warm = resident.after(grow_joint_attn_pool(resident, qkv_bytes, out_bytes));
            let later = grow_joint_attn_pool(warm, later_qkv, later_out);
            &&& later.len() == 0
            &&& warm.after(later) == warm
        }),
{
    law_joint_attn_pool_grows_only(resident, qkv_bytes, out_bytes);
}

/// Preparing makes a resident launch of the same shape possible: once the
/// preparation has been carried out, the launch is not refused.
pub proof fn law_prepared_attention_dispatches(
    resident: Residency,
    caps: AttnCaps,
    a: AttnArgs,
)
    requires
        a.flash_fault(caps) is None,
        a.need() * 4 <= usize::MAX,
    ensures
        resident_fault(
            resident.after(prepare_plan(resident, a)),
            caps,
            a.num_heads,
            a.seq,
            a.head_dim,
        ) is None,
        download_fault(resident.after(prepare_plan(resident, a)), a.need() as usize) is None,
{
    let bytes = (a.need() * 4) as usize;
    let grow = grow_joint_attn_pool(resident, bytes, bytes);
    let up = upload_qkv(Buf::AttnQ, Buf::AttnK, Buf::AttnV, a.need() as usize);
    laws::law_plans_compose(resident, grow, up);
    laws::law_no_keep_no_change(resident.after(grow), up);
    law_joint_attn_pool_grows_only(resident, bytes, bytes);
    lemma_partial_product(a.num_heads as int, a.seq as int, a.head_dim as int);
}

/// The pool's buffer in place of one that is made for the call.
pub open spec fn pooled(buf: Buf) -> Buf {
    match buf {
        Buf::Scratch(ScratchBuf::Q) => Buf::AttnQ,
        Buf::Scratch(ScratchBuf::K) => Buf::AttnK,
        Buf::Scratch(ScratchBuf::V) => Buf::AttnV,
        Buf::Scratch(ScratchBuf::Output) => Buf::AttnOut,
        other => other,
    }
}

/// The attention action on the pool's buffers.
pub open spec fn on_pool(a: Action) -> Action {
    match a {
        Action::Upload { buf, floats } => Action::Upload { buf: pooled(buf), floats },
        Action::Download { buf, floats } => Action::Download { buf: pooled(buf), floats },
        Action::Dispatch(
            Step::JointAttentionFlash {
                query,
                key,
                value,
                out,
                num_heads,
                seq,
                head_dim,
                scale_dim,
            },
        ) => Action::Dispatch(
            Step::JointAttentionFlash {
                query: pooled(query),
                key: pooled(key),
                value: pooled(value),
                out: pooled(out),
                num_heads,
                seq,
                head_dim,
                scale_dim,
            },
        ),
        other => other,
    }
}

/// Attention is the same on the pool, in parts and on its own: behind the
/// allocations, all three upload, launch and read back the same, each on its own
/// buffers.
pub proof fn law_attention_paths_agree(resident: Residency, a: AttnArgs)
    requires
        0 <= a.need() <= usize::MAX,
    ensures
        ({
            let alone = flash_plan(a).skip(4);
            let bytes = (a.need() * 4) as usize;
            let grown = grow_joint_attn_pool(resident, bytes, bytes).len() as int;
            let parts = prepare_plan(resident, a).skip(grown) + seq![
                Action::Dispatch(pooled_step(a.num_heads, a.seq, a.head_dim)),
                Action::Commit,
            ] + seq![Action::Download { buf: Buf::AttnOut, floats: a.need() as usize }];
            &&& pooled_plan(resident, a).skip(grown) == alone.map_values(|x: Action| on_pool(x))
            &&& parts == pooled_plan(resident, a).skip(grown)
        }),
{
    let alone = flash_plan(a).skip(4);
    let bytes = (a.need() * 4) as usize;
    let grown = grow_joint_attn_pool(resident, bytes, bytes).len() as int;
    let whole = pooled_plan(resident, a).skip(grown);
    let moved = alone.map_values(|x: Action| on_pool(x));
    assert(alone.len() == 6 && whole.len() == 6);
    assert(moved =~= whole);
    let parts = prepare_plan(resident, a).skip(grown) + seq![
        Action::Dispatch(pooled_step(a.num_heads, a.seq, a.head_dim)),
        Action::Commit,
    ] + seq![Action::Download { buf: Buf::AttnOut, floats: a.need() as usize }];
    assert(parts =~= whole);
}

/// What the attention kernel makes of the operands' first `need` numbers.
pub open spec fn attention(
    kernels: Kernels,
    a: AttnArgs,
    q: Seq<u32>,
    k: Seq<u32>,
    v: Seq<u32>,
) -> Seq<u32> {
    (kernels.attention)(
        (a.num_heads as u32, a.seq as u32, a.head_dim as u32, a.head_dim),
        q.take(a.need()),
        k.take(a.need()),
        v.take(a.need()),
    )
}

/// Behind the allocations: uploads, launch and read.
spec fn attention_work(a: AttnArgs, q: Buf, k: Buf, v: Buf, out: Buf) -> Seq<Action> {
    upload_qkv(q, k, v, a.need() as usize) + seq![
        Action::Dispatch(flash_step(q, k, v, out, a.num_heads, a.seq, a.head_dim)),
        Action::Commit,
        Action::Download { buf: out, floats: a.need() as usize },
    ]
}

proof fn lemma_attention_work<T: Arith>(
    t: &T,
    kernels: Kernels,
    host: Host,
    s: Machine,
    a: AttnArgs,
    q: Buf,
    k: Buf,
    v: Buf,
    out: Buf,
)
    requires
        a.num_heads <= u32::MAX,
        a.seq <= u32::MAX,
        a.head_dim <= u32::MAX,
        0 <= a.need() <= usize::MAX,
        q != k,
        q != v,
        k != v,
        host.operands[q].len() >= a.need(),
        host.operands[k].len() >= a.need(),
        host.operands[v].len() >= a.need(),
        attention(kernels, a, host.operands[q], host.operands[k], host.operands[v]).len()
            == a.need(),
    ensures
        machine::carried_out(t, kernels, host, s, attention_work(a, q, k, v, out)).read
            == attention(kernels, a, host.operands[q], host.operands[k], host.operands[v]),
{
    let work = attention_work(a, q, k, v, out);
    let n = a.need();
    let s1 = machine::acted(t, kernels, host, s, work[0]);
    let s2 = machine::acted(t, kernels, host, s1, work[1]);
    let s3 = machine::acted(t, kernels, host, s2, work[2]);
    let s4 = machine::acted(t, kernels, host, s3, work[3]);
    let s5 = machine::acted(t, kernels, host, s4, work[4]);
    let s6 = machine::acted(t, kernels, host, s5, work[5]);
    assert(machine::carried_out(t, kernels, host, s, work) == s6) by {
        reveal_with_fuel(machine::carried, 7);
    }
    assert(s3.buffers[q].take(n) =~= host.operands[q].take(n));
    assert(s3.buffers[k].take(n) =~= host.operands[k].take(n));
    assert(s3.buffers[v].take(n) =~= host.operands[v].take(n));
    assert(s6.read =~= attention(
        kernels,
        a,
        host.operands[q],
        host.operands[k],
        host.operands[v],
    ));
}

/// Attention gives the same on the pool and on its own, whatever the buffers held
/// before: what the kernel makes of the operands.
pub proof fn law_attention_plans_give_the_same<T: Arith>(
    t: &T,
    kernels: Kernels,
    host: Host,
    s: Machine,
    resident: Residency,
    a: AttnArgs,
    q: Seq<u32>,
    k: Seq<u32>,
    v: Seq<u32>,
)
    requires
        a.num_heads <= u32::MAX,
        a.seq <= u32::MAX,
        a.head_dim <= u32::MAX,
        0 <= a.need() <= usize::MAX,
        q.len() >= a.need(),
        k.len() >= a.need(),
        v.len() >= a.need(),
        attention(kernels, a, q, k, v).len() == a.need(),
        host.operands[Buf::Scratch(ScratchBuf::Q)] == q,
        host.operands[Buf::Scratch(ScratchBuf::K)] == k,
        host.operands[Buf::Scratch(ScratchBuf::V)] == v,
        host.operands[Buf::AttnQ] == q,
        host.operands[Buf::AttnK] == k,
        host.operands[Buf::AttnV] == v,
    ensures
        machine::carried_out(t, kernels, host, s, flash_plan(a)).read == attention(
            kernels,
            a,
            q,
            k,
            v,
        ),
        machine::carried_out(t, kernels, host, s, pooled_plan(resident, a)).read == attention(
            kernels,
            a,
            q,
            k,
            v,
        ),
{
    let (sq, sk, sv, so) = (
        Buf::Scratch(ScratchBuf::Q),
        Buf::Scratch(ScratchBuf::K),
        Buf::Scratch(ScratchBuf::V),
        Buf::Scratch(ScratchBuf::Output),
    );
    let fresh = flash_plan(a).take(4);
    let alone = attention_work(a, sq, sk, sv, so);
    assert(flash_plan(a) =~= fresh + alone);
    machine::law_plans_are_carried_out_in_turn(t, kernels, host, s, fresh, alone);
    let s1 = machine::carried_out(t, kernels, host, s, fresh);
    lemma_attention_work(t, kernels, host, s1, a, sq, sk, sv, so);
    let bytes = (a.need() * 4) as usize;
    let grow = grow_joint_attn_pool(resident, bytes, bytes);
    let on_pool = attention_work(a, Buf::AttnQ, Buf::AttnK, Buf::AttnV, Buf::AttnOut);
    assert(pooled_plan(resident, a) =~= grow + on_pool);
    machine::law_plans_are_carried_out_in_turn(t, kernels, host, s, grow, on_pool);
    let s2 = machine::carried_out(t, kernels, host, s, grow);
    lemma_attention_work(
        t,
        kernels,
        host,
        s2,
        a,
        Buf::AttnQ,
        Buf::AttnK,
        Buf::AttnV,
        Buf::AttnOut,
    );
}

} // verus!

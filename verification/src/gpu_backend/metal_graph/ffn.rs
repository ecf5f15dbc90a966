//! The decode FFN phase in one command buffer.

use vstd::prelude::*;

use crate::gpu_backend::metal_graph::buffers::MetalBuffers;
use crate::gpu_backend::metal_graph::device::{Action, Buf, FfnBuf, Resident, Step};
use crate::gpu_backend::metal_graph::error;
use crate::gpu_backend::metal_graph::error::{
    encoding_failed, MetalFault, MetalGraphError, MetalWeightHandle,
};
use crate::gpu_backend::metal_graph::graph::{MetalGraph, Residency};
use crate::gpu_backend::metal_graph::laws;
use crate::text;
use crate::text::Msg;

verus! {

/// Arguments of the FFN phase: lengths of the host operands, dimensions and
/// weights. `eps` holds the bits of a single-precision number.
#[derive(Debug, Clone, Copy, PartialEq, Eq, Structural)]
pub struct FfnArgs {
    /// Numbers in the hidden state.
    pub hidden_len: usize,
    /// Numbers in the attention output.
    pub attn_out_len: usize,
    /// Numbers in the RMSNorm weight.
    pub norm_weight_len: usize,
    /// Attention output projection.
    pub attn_proj_weight: MetalWeightHandle,
    /// Fused gate and up projection.
    pub gate_up_weight: MetalWeightHandle,
    /// Down projection.
    pub down_weight: MetalWeightHandle,
    /// Width of the hidden state.
    pub hidden_size: usize,
    /// Width of the MLP.
    pub intermediate_size: usize,
    /// RMSNorm epsilon.
    pub eps: u32,
}

impl FfnArgs {
    /// The buffer set that the arguments call for.
    pub open spec fn set(self) -> MetalBuffers {
        MetalBuffers {
            hidden_size: self.hidden_size,
            intermediate_size: self.intermediate_size,
        }
    }

    /// Whether the resident set has other dimensions, or there is none.
    pub open spec fn needs_set(self, resident: Residency) -> bool {
        resident.buffers != Some(self.set())
    }

    /// What is wrong with the operands' lengths, in order of the checks.
    pub open spec fn args_fault(self) -> Option<MetalFault> {
        if self.hidden_len < self.hidden_size {
            Some(
                MetalFault::EncodingFailed(
                    "hidden too short: need "@ + text::dec(self.hidden_size as nat) + ", got "@
                        + text::dec(self.hidden_len as nat),
                ),
            )
        } else if self.attn_out_len < self.hidden_size {
            Some(
                MetalFault::EncodingFailed(
                    "attn_out too short: need "@ + text::dec(self.hidden_size as nat) + ", got "@
                        + text::dec(self.attn_out_len as nat),
                ),
            )
        } else if self.norm_weight_len < self.hidden_size {
            Some(
                MetalFault::EncodingFailed(
                    "norm_weight too short: need "@ + text::dec(self.hidden_size as nat)
                        + ", got "@ + text::dec(self.norm_weight_len as nat),
                ),
            )
        } else {
            None
        }
    }

    /// Why the phase is refused: an operand's length, or a buffer without
    /// bytes in a set that has to be allocated.
    pub open spec fn fault(self, resident: Residency) -> Option<MetalFault> {
        match self.args_fault() {
            Some(f) => Some(f),
            None => if self.needs_set(resident) {
                self.set().fault()
            } else {
                None
            },
        }
    }

    /// The buffer set, where it has to be allocated.
    pub open spec fn acquire(self, resident: Residency) -> Seq<Action> {
        if self.needs_set(resident) {
            self.set().allocs().push(Action::Keep(Resident::Ffn(self.set())))
        } else {
            seq![]
        }
    }

    /// The launches: project the attention output and add it to the hidden
    /// state, normalise, run gate, up and SwiGLU, project down and add.
    pub open spec fn steps(self) -> Seq<Step> {
        let h = self.hidden_size as u32;
        let inter = self.intermediate_size as u32;
        seq![
            Step::GemvQ1 {
                weight: Buf::Weight(self.attn_proj_weight.buffer),
                input: Buf::Ffn(FfnBuf::AttnOut),
                output: Buf::Ffn(FfnBuf::Proj),
                n_rows: h,
                k: h,
            },
            Step::ResidualAdd {
                target: Buf::Ffn(FfnBuf::Hidden),
                addend: Buf::Ffn(FfnBuf::Proj),
                n: h,
            },
            Step::RmsNorm {
                input: Buf::Ffn(FfnBuf::Hidden),
                weight: Buf::Ffn(FfnBuf::NormWeight),
                output: Buf::Ffn(FfnBuf::Normed),
                eps: self.eps,
                n: h,
            },
            Step::FusedGateUpSwiglu {
                weight: Buf::Weight(self.gate_up_weight.buffer),
                input: Buf::Ffn(FfnBuf::Normed),
                output: Buf::Ffn(FfnBuf::Swiglu),
                inter,
                k: h,
            },
            Step::GemvQ1 {
                weight: Buf::Weight(self.down_weight.buffer),
                input: Buf::Ffn(FfnBuf::Swiglu),
                output: Buf::Ffn(FfnBuf::Down),
                n_rows: h,
                k: inter,
            },
            Step::ResidualAdd {
                target: Buf::Ffn(FfnBuf::Hidden),
                addend: Buf::Ffn(FfnBuf::Down),
                n: h,
            },
        ]
    }

    /// The whole phase.
    pub open spec fn plan(self, resident: Residency) -> Seq<Action> {
        let h = self.hidden_size;
        self.acquire(resident) + seq![
            Action::Upload { buf: Buf::Ffn(FfnBuf::Hidden), floats: h },
            Action::Upload { buf: Buf::Ffn(FfnBuf::AttnOut), floats: h },
            Action::Upload { buf: Buf::Ffn(FfnBuf::NormWeight), floats: h },
        ] + self.steps().map_values(|s: Step| Action::Dispatch(s)) + seq![
            Action::Commit,
            Action::Download { buf: Buf::Ffn(FfnBuf::Hidden), floats: h },
        ]
    }
}

impl MetalGraph {
    /// Appends the FFN buffer set to a plan where it is not resident.
    fn acquire_buffers(&self, plan: &mut Vec<Action>, args: &FfnArgs) -> (r: Result<
        (),
        MetalGraphError,
    >)
        requires
            args.needs_set(self.resident) ==> args.set().sizes_fit(),
        ensures
            error::reports(
                r,
                if args.needs_set(self.resident) {
                    args.set().fault()
                } else {
                    None
                },
            ),
            r is Ok ==> final(plan)@ == old(plan)@ + args.acquire(self.resident),
    {
        let needs_alloc = match self.resident.buffers {
            Some(b) => !b.matches(args.hidden_size, args.intermediate_size),
            None => true,
        };
        if needs_alloc {
            let set = MetalBuffers::allocate(plan, args.hidden_size, args.intermediate_size)?;
            plan.push(Action::Keep(Resident::Ffn(set)));
        }
        assert(plan@ =~= old(plan)@ + args.acquire(self.resident));
        Ok(())
    }

    /// Plans the FFN phase of one token: uploads, six launches in one encoder,
    /// and the hidden state read back.
    pub fn encode_ffn_phase(&self, args: &FfnArgs) -> (r: Result<Vec<Action>, MetalGraphError>)
        requires
            args.args_fault() is None && args.needs_set(self.resident) ==> args.set().sizes_fit(),
        ensures
            error::reports(r, args.fault(self.resident)),
            r matches Ok(plan) ==> plan@ == args.plan(self.resident),
    {
        let hidden_size: usize = args.hidden_size;
        if args.hidden_len < hidden_size {
            return Err(
                encoding_failed(
                    Msg::new("hidden too short: need ").num(hidden_size).lit(", got ").num(
                        args.hidden_len,
                    ),
                ),
            );
        }
        if args.attn_out_len < hidden_size {
            return Err(
                encoding_failed(
                    Msg::new("attn_out too short: need ").num(hidden_size).lit(", got ").num(
                        args.attn_out_len,
                    ),
                ),
            );
        }
        if args.norm_weight_len < hidden_size {
            return Err(
                encoding_failed(
                    Msg::new("norm_weight too short: need ").num(hidden_size).lit(", got ").num(
                        args.norm_weight_len,
                    ),
                ),
            );
        }
        let mut plan: Vec<Action> = Vec::new();
        self.acquire_buffers(&mut plan, args)?;
        plan.push(Action::Upload { buf: Buf::Ffn(FfnBuf::Hidden), floats: hidden_size });
        plan.push(Action::Upload { buf: Buf::Ffn(FfnBuf::AttnOut), floats: hidden_size });
        plan.push(Action::Upload { buf: Buf::Ffn(FfnBuf::NormWeight), floats: hidden_size });
        let h: u32 = hidden_size as u32;
        let inter: u32 = args.intermediate_size as u32;
        plan.push(
            Action::Dispatch(
                Step::GemvQ1 {
                    weight: Buf::Weight(args.attn_proj_weight.buffer),
                    input: Buf::Ffn(FfnBuf::AttnOut),
                    output: Buf::Ffn(FfnBuf::Proj),
                    n_rows: h,
                    k: h,
                },
            ),
        );
        plan.push(
            Action::Dispatch(
                Step::ResidualAdd {
                    target: Buf::Ffn(FfnBuf::Hidden),
                    addend: Buf::Ffn(FfnBuf::Proj),
                    n: h,
                },
            ),
        );
        plan.push(
            Action::Dispatch(
                Step::RmsNorm {
                    input: Buf::Ffn(FfnBuf::Hidden),
                    weight: Buf::Ffn(FfnBuf::NormWeight),
                    output: Buf::Ffn(FfnBuf::Normed),
                    eps: args.eps,
                    n: h,
                },
            ),
        );
        plan.push(
            Action::Dispatch(
                Step::FusedGateUpSwiglu {
                    weight: Buf::Weight(args.gate_up_weight.buffer),
                    input: Buf::Ffn(FfnBuf::Normed),
                    output: Buf::Ffn(FfnBuf::Swiglu),
                    inter,
                    k: h,
                },
            ),
        );
        plan.push(
            Action::Dispatch(
                Step::GemvQ1 {
                    weight: Buf::Weight(args.down_weight.buffer),
                    input: Buf::Ffn(FfnBuf::Swiglu),
                    output: Buf::Ffn(FfnBuf::Down),
                    n_rows: h,
                    k: inter,
                },
            ),
        );
        plan.push(
            Action::Dispatch(
                Step::ResidualAdd {
                    target: Buf::Ffn(FfnBuf::Hidden),
                    addend: Buf::Ffn(FfnBuf::Down),
                    n: h,
                },
            ),
        );
        plan.push(Action::Commit);
        plan.push(Action::Download { buf: Buf::Ffn(FfnBuf::Hidden), floats: hidden_size });
        assert(plan@ =~= args.plan(self.resident));
        Ok(plan)
    }
}

/// After the phase has run once, its buffers are resident: a second run with
/// the same dimensions allocates nothing.
pub proof fn law_ffn_buffers_are_reused(resident: Residency, a: FfnArgs, b: FfnArgs)
    requires
        a.set() == b.set(),
    ensures
        laws::allocates_nothing(b.plan(resident.after(a.plan(resident)))),
{
    let plan = a.plan(resident);
    let acq = a.acquire(resident);
    let rest = plan.skip(acq.len() as int);
    assert(plan =~= acq + rest);
    laws::law_plans_compose(resident, acq, rest);
    laws::law_no_keep_no_change(resident.after(acq), rest);
    if a.needs_set(resident) {
        laws::law_keep_at_end(resident, a.set().allocs(), Resident::Ffn(a.set()));
    }
}

} // verus!

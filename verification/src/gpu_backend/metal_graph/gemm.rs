//! Single matrix products, and the pool of buffers that batched ones reuse.

use vstd::prelude::*;

use crate::arith::Arith;
use crate::gpu_backend::metal_graph::buffers::alloc_buf;
use crate::gpu_backend::metal_graph::device::{Action, Buf, Resident, ScratchBuf, Step, Storage};
use crate::gpu_backend::metal_graph::error;
use crate::gpu_backend::metal_graph::error::{
    encoding_failed, invalid_dimensions, MetalFault, MetalGraphError, MetalWeightHandle,
};
use crate::gpu_backend::metal_graph::graph::{MetalGraph, Residency};
use crate::gpu_backend::metal_graph::laws;
use crate::gpu_backend::metal_graph::machine;
use crate::gpu_backend::metal_graph::machine::{Host, Kernels, Machine};
use crate::gpu_backend::metal_graph::planes;
use crate::text;
use crate::text::Msg;

verus! {

/// Why a matrix-vector product is refused: a short operand, or a buffer
/// without bytes.
pub open spec fn gemv_fault(input_len: usize, output_len: usize, n_rows: usize, k: usize) -> Option<
    MetalFault,
> {
    if input_len < k {
        Some(
            MetalFault::EncodingFailed(
                "input too short: need "@ + text::dec(k as nat) + ", got "@ + text::dec(
                    input_len as nat,
                ),
            ),
        )
    } else if output_len < n_rows {
        Some(
            MetalFault::EncodingFailed(
                "output too short: need "@ + text::dec(n_rows as nat) + ", got "@ + text::dec(
                    output_len as nat,
                ),
            ),
        )
    } else if input_len == 0 || n_rows == 0 {
        Some(MetalFault::BufferCreationFailed)
    } else {
        None
    }
}

/// A matrix-vector product through buffers made for the call.
pub open spec fn gemv_plan(step: Step, input_len: usize, n_rows: usize) -> Seq<Action> {
    seq![
        Action::Alloc {
            buf: Buf::Scratch(ScratchBuf::Input),
            bytes: (input_len * 4) as u64,
            storage: Storage::Shared,
        },
        Action::Alloc {
            buf: Buf::Scratch(ScratchBuf::Output),
            bytes: (n_rows * 4) as u64,
            storage: Storage::Shared,
        },
        Action::Upload { buf: Buf::Scratch(ScratchBuf::Input), floats: input_len },
        Action::Dispatch(step),
        Action::Commit,
        Action::Download { buf: Buf::Scratch(ScratchBuf::Output), floats: n_rows },
    ]
}

/// Plans a matrix-vector product.
fn plan_gemv(step: Step, input_len: usize, output_len: usize, n_rows: usize, k: usize) -> (r:
    Result<Vec<Action>, MetalGraphError>)
    requires
        input_len * 4 <= usize::MAX,
        output_len * 4 <= usize::MAX,
    ensures
        error::reports(r, gemv_fault(input_len, output_len, n_rows, k)),
        r matches Ok(plan) ==> plan@ == gemv_plan(step, input_len, n_rows),
{
    if input_len < k {
        return Err(
            encoding_failed(Msg::new("input too short: need ").num(k).lit(", got ").num(input_len)),
        );
    }
    if output_len < n_rows {
        return Err(
            encoding_failed(
                Msg::new("output too short: need ").num(n_rows).lit(", got ").num(output_len),
            ),
        );
    }
    let mut plan: Vec<Action> = Vec::new();
    alloc_buf(
        &mut plan,
        Buf::Scratch(ScratchBuf::Input),
        (input_len * 4) as u64,
        Storage::Shared,
    )?;
    alloc_buf(&mut plan, Buf::Scratch(ScratchBuf::Output), (n_rows * 4) as u64, Storage::Shared)?;
    plan.push(Action::Upload { buf: Buf::Scratch(ScratchBuf::Input), floats: input_len });
    plan.push(Action::Dispatch(step));
    plan.push(Action::Commit);
    plan.push(Action::Download { buf: Buf::Scratch(ScratchBuf::Output), floats: n_rows });
    assert(plan@ =~= gemv_plan(step, input_len, n_rows));
    Ok(plan)
}

/// Growth of the GEMM pool to hold so many bytes: both buffers where there is
/// no pool, otherwise each buffer that is too small.
pub open spec fn grow_gemm_pool(
    resident: Residency,
    input_bytes: usize,
    output_bytes: usize,
) -> Seq<Action> {
    let input = Action::Alloc {
        buf: Buf::GemmInput,
        bytes: input_bytes as u64,
        storage: Storage::Shared,
    };
    let output = Action::Alloc {
        buf: Buf::GemmOutput,
        bytes: output_bytes as u64,
        storage: Storage::Shared,
    };
    match resident.gemm_io_pool {
        None => seq![
            input,
            output,
            Action::Keep(Resident::GemmPool { input_bytes, output_bytes }),
        ],
        Some(p) => {
            (if p.input_cap_bytes < input_bytes {
                seq![input, Action::Keep(Resident::GemmInput { bytes: input_bytes })]
            } else {
                seq![]
            }) + (if p.output_cap_bytes < output_bytes {
                seq![output, Action::Keep(Resident::GemmOutput { bytes: output_bytes })]
            } else {
                seq![]
            })
        },
    }
}

/// The product does not fit.
pub open spec fn overflows(a: usize, b: usize) -> bool {
    a * b > usize::MAX
}

/// Why a ternary GEMM is refused, in order of the checks.
pub open spec fn gemm_tq2_fault(
    input_len: usize,
    output_len: usize,
    m: usize,
    n_rows: usize,
    k: usize,
) -> Option<MetalFault> {
    if k % 128 != 0 {
        Some(
            MetalFault::InvalidDimensions(
                "encode_gemm_tq2: k must be a multiple of 128, got "@ + text::dec(k as nat),
            ),
        )
    } else if overflows(m, k) {
        Some(
            MetalFault::InvalidDimensions(
                "encode_gemm_tq2: m*k overflow (m="@ + text::dec(m as nat) + ", k="@ + text::dec(
                    k as nat,
                ) + ")"@,
            ),
        )
    } else if input_len != m * k {
        Some(
            MetalFault::InvalidDimensions(
                "encode_gemm_tq2: input len "@ + text::dec(input_len as nat) + " != m*k "@
                    + text::dec((m * k) as nat) + " (m="@ + text::dec(m as nat) + ", k="@
                    + text::dec(k as nat) + ")"@,
            ),
        )
    } else if overflows(m, n_rows) {
        Some(
            MetalFault::InvalidDimensions(
                "encode_gemm_tq2: m*n_rows overflow (m="@ + text::dec(m as nat) + ", n_rows="@
                    + text::dec(n_rows as nat) + ")"@,
            ),
        )
    } else if output_len != m * n_rows {
        Some(
            MetalFault::InvalidDimensions(
                "encode_gemm_tq2: output len "@ + text::dec(output_len as nat) + " != m*n_rows "@
                    + text::dec((m * n_rows) as nat) + " (m="@ + text::dec(m as nat)
                    + ", n_rows="@ + text::dec(n_rows as nat) + ")"@,
            ),
        )
    } else if input_len == 0 || output_len == 0 {
        None
    } else if output_len * 4 > usize::MAX {
        Some(
            MetalFault::InvalidDimensions(
                "encode_gemm_tq2: output byte size overflow (m="@ + text::dec(m as nat)
                    + ", n_rows="@ + text::dec(n_rows as nat) + ")"@,
            ),
        )
    } else {
        None
    }
}

/// Why a single-precision GEMM is refused, in order of the checks.
pub open spec fn gemm_f32_fault(
    weight_len: usize,
    input_len: usize,
    output_len: usize,
    m: usize,
    n_rows: usize,
    k: usize,
) -> Option<MetalFault> {
    if overflows(m, k) {
        Some(
            MetalFault::InvalidDimensions(
                "encode_gemm_f32: m*k overflow (m="@ + text::dec(m as nat) + ", k="@ + text::dec(
                    k as nat,
                ) + ")"@,
            ),
        )
    } else if input_len != m * k {
        Some(
            MetalFault::InvalidDimensions(
                "encode_gemm_f32: input len "@ + text::dec(input_len as nat) + " != m*k "@
                    + text::dec((m * k) as nat) + " (m="@ + text::dec(m as nat) + ", k="@
                    + text::dec(k as nat) + ")"@,
            ),
        )
    } else if overflows(m, n_rows) {
        Some(
            MetalFault::InvalidDimensions(
                "encode_gemm_f32: m*n_rows overflow (m="@ + text::dec(m as nat) + ", n_rows="@
                    + text::dec(n_rows as nat) + ")"@,
            ),
        )
    } else if output_len != m * n_rows {
        Some(
            MetalFault::InvalidDimensions(
                "encode_gemm_f32: output len "@ + text::dec(output_len as nat) + " != m*n_rows "@
                    + text::dec((m * n_rows) as nat) + " (m="@ + text::dec(m as nat)
                    + ", n_rows="@ + text::dec(n_rows as nat) + ")"@,
            ),
        )
    } else if overflows(n_rows, k) {
        Some(
            MetalFault::InvalidDimensions(
                "encode_gemm_f32: n_rows*k overflow (n_rows="@ + text::dec(n_rows as nat)
                    + ", k="@ + text::dec(k as nat) + ")"@,
            ),
        )
    } else if n_rows * k * 4 > usize::MAX {
        Some(
            MetalFault::InvalidDimensions(
                "encode_gemm_f32: weight byte size overflow (n_rows="@ + text::dec(n_rows as nat)
                    + ", k="@ + text::dec(k as nat) + ")"@,
            ),
        )
    } else if weight_len < n_rows * k * 4 {
        Some(
            MetalFault::InvalidDimensions(
                "encode_gemm_f32: weight handle holds "@ + text::dec(weight_len as nat)
                    + " bytes < n_rows*k*4 "@ + text::dec((n_rows * k * 4) as nat) + " (n_rows="@
                    + text::dec(n_rows as nat) + ", k="@ + text::dec(k as nat) + ")"@,
            ),
        )
    } else if input_len == 0 || output_len == 0 {
        None
    } else if output_len * 4 > usize::MAX {
        Some(
            MetalFault::InvalidDimensions(
                "encode_gemm_f32: output byte size overflow (m="@ + text::dec(m as nat)
                    + ", n_rows="@ + text::dec(n_rows as nat) + ")"@,
            ),
        )
    } else {
        None
    }
}

/// A batched product through the pool; nothing where an operand is empty.
pub open spec fn gemm_plan(
    resident: Residency,
    step: Step,
    input_len: usize,
    output_len: usize,
) -> Seq<Action> {
    if input_len == 0 || output_len == 0 {
        seq![]
    } else {
        grow_gemm_pool(resident, (input_len * 4) as usize, (output_len * 4) as usize) + seq![
            Action::Upload { buf: Buf::GemmInput, floats: input_len },
            Action::Dispatch(step),
            Action::Commit,
            Action::Download { buf: Buf::GemmOutput, floats: output_len },
        ]
    }
}

/// The launch of a ternary GEMM.
pub open spec fn gemm_tq2_step(
    weight: MetalWeightHandle,
    m: usize,
    n_rows: usize,
    k: usize,
) -> Step {
    Step::GemmTq2V10 {
        weight: Buf::Weight(weight.buffer),
        input: Buf::GemmInput,
        output: Buf::GemmOutput,
        n_rows: n_rows as u32,
        k: k as u32,
        batch: m as u32,
    }
}

/// The launch of a single-precision GEMM.
pub open spec fn gemm_f32_step(
    weight: MetalWeightHandle,
    m: usize,
    n_rows: usize,
    k: usize,
) -> Step {
    Step::GemmF32 {
        weight: Buf::Weight(weight.buffer),
        input: Buf::GemmInput,
        output: Buf::GemmOutput,
        n_rows: n_rows as u32,
        k: k as u32,
        batch: m as u32,
    }
}

impl MetalGraph {
    /// Plans a 1-bit matrix-vector product. `input_len` and `output_len` are
    /// the lengths of the host operands.
    pub fn encode_gemv(
        &self,
        weight: &MetalWeightHandle,
        input_len: usize,
        output_len: usize,
        n_rows: usize,
        k: usize,
    ) -> (r: Result<Vec<Action>, MetalGraphError>)
        requires
            input_len * 4 <= usize::MAX,
            output_len * 4 <= usize::MAX,
        ensures
            error::reports(r, gemv_fault(input_len, output_len, n_rows, k)),
            r matches Ok(plan) ==> plan@ == gemv_plan(
                Step::GemvQ1 {
                    weight: Buf::Weight(weight.buffer),
                    input: Buf::Scratch(ScratchBuf::Input),
                    output: Buf::Scratch(ScratchBuf::Output),
                    n_rows: n_rows as u32,
                    k: k as u32,
                },
                input_len,
                n_rows,
            ),
    {
        plan_gemv(
            Step::GemvQ1 {
                weight: Buf::Weight(weight.buffer),
                input: Buf::Scratch(ScratchBuf::Input),
                output: Buf::Scratch(ScratchBuf::Output),
                n_rows: n_rows as u32,
                k: k as u32,
            },
            input_len,
            output_len,
            n_rows,
            k,
        )
    }

    /// Plans a ternary matrix-vector product.
    pub fn encode_gemv_tq2(
        &self,
        weight: &MetalWeightHandle,
        input_len: usize,
        output_len: usize,
        n_rows: usize,
        k: usize,
    ) -> (r: Result<Vec<Action>, MetalGraphError>)
        requires
            input_len * 4 <= usize::MAX,
            output_len * 4 <= usize::MAX,
        ensures
            error::reports(r, gemv_fault(input_len, output_len, n_rows, k)),
            r matches Ok(plan) ==> plan@ == gemv_plan(
                Step::GemvTq2 {
                    weight: Buf::Weight(weight.buffer),
                    input: Buf::Scratch(ScratchBuf::Input),
                    output: Buf::Scratch(ScratchBuf::Output),
                    n_rows: n_rows as u32,
                    k: k as u32,
                },
                input_len,
                n_rows,
            ),
    {
        plan_gemv(
            Step::GemvTq2 {
                weight: Buf::Weight(weight.buffer),
                input: Buf::Scratch(ScratchBuf::Input),
                output: Buf::Scratch(ScratchBuf::Output),
                n_rows: n_rows as u32,
                k: k as u32,
            },
            input_len,
            output_len,
            n_rows,
            k,
        )
    }

    /// Plans the fused Q, K and V projection of one token.
    pub fn encode_qkv_phase(
        &self,
        input_len: usize,
        output_len: usize,
        weight: &MetalWeightHandle,
        n_rows: usize,
        k: usize,
    ) -> (r: Result<Vec<Action>, MetalGraphError>)
        requires
            input_len * 4 <= usize::MAX,
            output_len * 4 <= usize::MAX,
        ensures
            error::reports(r, gemv_fault(input_len, output_len, n_rows, k)),
            r matches Ok(plan) ==> plan@ == gemv_plan(
                Step::GemvQ1 {
                    weight: Buf::Weight(weight.buffer),
                    input: Buf::Scratch(ScratchBuf::Input),
                    output: Buf::Scratch(ScratchBuf::Output),
                    n_rows: n_rows as u32,
                    k: k as u32,
                },
                input_len,
                n_rows,
            ),
    {
        self.encode_gemv(weight, input_len, output_len, n_rows, k)
    }

    /// Appends the growth of the GEMM pool to a plan, so that each buffer holds
    /// at least the requested bytes. The pool never shrinks.
    fn ensure_gemm_pool(&self, plan: &mut Vec<Action>, input_bytes: usize, output_bytes: usize)
        requires
            input_bytes > 0,
            output_bytes > 0,
        ensures
            final(plan)@ == old(plan)@ + grow_gemm_pool(self.resident, input_bytes, output_bytes),
    {
        let ghost base = plan@;
        let shared = Storage::Shared;
        match self.resident.gemm_io_pool {
            None => {
                plan.push(
                    Action::Alloc {
                        buf: Buf::GemmInput,
                        bytes: input_bytes as u64,
                        storage: shared,
                    },
                );
                plan.push(
                    Action::Alloc {
                        buf: Buf::GemmOutput,
                        bytes: output_bytes as u64,
                        storage: shared,
                    },
                );
                plan.push(Action::Keep(Resident::GemmPool { input_bytes, output_bytes }));
            },
            Some(pool) => {
                if pool.input_cap_bytes < input_bytes {
                    plan.push(
                        Action::Alloc {
                            buf: Buf::GemmInput,
                            bytes: input_bytes as u64,
                            storage: shared,
                        },
                    );
                    plan.push(Action::Keep(Resident::GemmInput { bytes: input_bytes }));
                }
                if pool.output_cap_bytes < output_bytes {
                    plan.push(
                        Action::Alloc {
                            buf: Buf::GemmOutput,
                            bytes: output_bytes as u64,
                            storage: shared,
                        },
                    );
                    plan.push(Action::Keep(Resident::GemmOutput { bytes: output_bytes }));
                }
            },
        }
        assert(plan@ =~= base + grow_gemm_pool(self.resident, input_bytes, output_bytes));
    }

    /// Plans a batched product through the pool.
    fn plan_gemm(&self, step: Step, input_len: usize, output_len: usize) -> (plan: Vec<Action>)
        requires
            input_len * 4 <= usize::MAX,
            output_len * 4 <= usize::MAX,
            input_len > 0,
            output_len > 0,
        ensures
            plan@ == gemm_plan(self.resident, step, input_len, output_len),
    {
        let mut plan: Vec<Action> = Vec::new();
        self.ensure_gemm_pool(&mut plan, input_len * 4, output_len * 4);
        plan.push(Action::Upload { buf: Buf::GemmInput, floats: input_len });
        plan.push(Action::Dispatch(step));
        plan.push(Action::Commit);
        plan.push(Action::Download { buf: Buf::GemmOutput, floats: output_len });
        assert(plan@ =~= gemm_plan(self.resident, step, input_len, output_len));
        plan
    }

    /// Plans a batched ternary product `output = input * weight^T`, with
    /// row-major `[m, k]` input and `[m, n_rows]` output.
    ///
    /// The pool's buffers may be larger than this call needs: only the first
    /// `m * k` and `m * n_rows` numbers are touched.
    pub fn encode_gemm_tq2(
        &self,
        weight: &MetalWeightHandle,
        input_len: usize,
        output_len: usize,
        m: usize,
        n_rows: usize,
        k: usize,
    ) -> (r: Result<Vec<Action>, MetalGraphError>)
        requires
            input_len * 4 <= usize::MAX,
        ensures
            error::reports(r, gemm_tq2_fault(input_len, output_len, m, n_rows, k)),
            r matches Ok(plan) ==> plan@ == gemm_plan(
                self.resident,
                gemm_tq2_step(*weight, m, n_rows, k),
                input_len,
                output_len,
            ),
    {
        if k % 128 != 0 {
            return Err(
                invalid_dimensions(
                    Msg::new("encode_gemm_tq2: k must be a multiple of 128, got ").num(k),
                ),
            );
        }
        let expected_in: usize = match m.checked_mul(k) {
            Some(v) => v,
            None => {
                return Err(
                    invalid_dimensions(
                        Msg::new("encode_gemm_tq2: m*k overflow (m=").num(m).lit(", k=").num(k).lit(
                            ")",
                        ),
                    ),
                );
            },
        };
        if input_len != expected_in {
            return Err(
                invalid_dimensions(
                    Msg::new("encode_gemm_tq2: input len ").num(input_len).lit(" != m*k ").num(
                        expected_in,
                    ).lit(" (m=").num(m).lit(", k=").num(k).lit(")"),
                ),
            );
        }
        let expected_out: usize = match m.checked_mul(n_rows) {
            Some(v) => v,
            None => {
                return Err(
                    invalid_dimensions(
                        Msg::new("encode_gemm_tq2: m*n_rows overflow (m=").num(m).lit(
                            ", n_rows=",
                        ).num(n_rows).lit(")"),
                    ),
                );
            },
        };
        if output_len != expected_out {
            return Err(
                invalid_dimensions(
                    Msg::new("encode_gemm_tq2: output len ").num(output_len).lit(
                        " != m*n_rows ",
                    ).num(expected_out).lit(" (m=").num(m).lit(", n_rows=").num(n_rows).lit(")"),
                ),
            );
        }
        if expected_in == 0 || expected_out == 0 {
            let plan: Vec<Action> = Vec::new();
            assert(plan@ =~= seq![]);
            return Ok(plan);
        }
        if expected_out.checked_mul(4).is_none() {
            return Err(
                invalid_dimensions(
                    Msg::new("encode_gemm_tq2: output byte size overflow (m=").num(m).lit(
                        ", n_rows=",
                    ).num(n_rows).lit(")"),
                ),
            );
        }
        let step = Step::GemmTq2V10 {
            weight: Buf::Weight(weight.buffer),
            input: Buf::GemmInput,
            output: Buf::GemmOutput,
            n_rows: n_rows as u32,
            k: k as u32,
            batch: m as u32,
        };
        Ok(self.plan_gemm(step, input_len, output_len))
    }

    /// Plans a batched single-precision product `output = input * weight^T`,
    /// with row-major `[m, k]` input, `[n_rows, k]` weight and `[m, n_rows]`
    /// output.
    pub fn encode_gemm_f32(
        &self,
        weight: &MetalWeightHandle,
        input_len: usize,
        output_len: usize,
        m: usize,
        n_rows: usize,
        k: usize,
    ) -> (r: Result<Vec<Action>, MetalGraphError>)
        requires
            input_len * 4 <= usize::MAX,
        ensures
            error::reports(r, gemm_f32_fault(weight.byte_len, input_len, output_len, m, n_rows, k)),
            r matches Ok(plan) ==> plan@ == gemm_plan(
                self.resident,
                gemm_f32_step(*weight, m, n_rows, k),
                input_len,
                output_len,
            ),
    {
        let expected_in: usize = match m.checked_mul(k) {
            Some(v) => v,
            None => {
                return Err(
                    invalid_dimensions(
                        Msg::new("encode_gemm_f32: m*k overflow (m=").num(m).lit(", k=").num(k).lit(
                            ")",
                        ),
                    ),
                );
            },
        };
        if input_len != expected_in {
            return Err(
                invalid_dimensions(
                    Msg::new("encode_gemm_f32: input len ").num(input_len).lit(" != m*k ").num(
                        expected_in,
                    ).lit(" (m=").num(m).lit(", k=").num(k).lit(")"),
                ),
            );
        }
        let expected_out: usize = match m.checked_mul(n_rows) {
            Some(v) => v,
            None => {
                return Err(
                    invalid_dimensions(
                        Msg::new("encode_gemm_f32: m*n_rows overflow (m=").num(m).lit(
                            ", n_rows=",
                        ).num(n_rows).lit(")"),
                    ),
                );
            },
        };
        if output_len != expected_out {
            return Err(
                invalid_dimensions(
                    Msg::new("encode_gemm_f32: output len ").num(output_len).lit(
                        " != m*n_rows ",
                    ).num(expected_out).lit(" (m=").num(m).lit(", n_rows=").num(n_rows).lit(")"),
                ),
            );
        }
        let weight_floats: usize = match n_rows.checked_mul(k) {
            Some(v) => v,
            None => {
                return Err(
                    invalid_dimensions(
                        Msg::new("encode_gemm_f32: n_rows*k overflow (n_rows=").num(n_rows).lit(
                            ", k=",
                        ).num(k).lit(")"),
                    ),
                );
            },
        };
        let weight_bytes: usize = match weight_floats.checked_mul(4) {
            Some(v) => v,
            None => {
                return Err(
                    invalid_dimensions(
                        Msg::new("encode_gemm_f32: weight byte size overflow (n_rows=").num(
                            n_rows,
                        ).lit(", k=").num(k).lit(")"),
                    ),
                );
            },
        };
        if weight.byte_len < weight_bytes {
            return Err(
                invalid_dimensions(
                    Msg::new("encode_gemm_f32: weight handle holds ").num(weight.byte_len).lit(
                        " bytes < n_rows*k*4 ",
                    ).num(weight_bytes).lit(" (n_rows=").num(n_rows).lit(", k=").num(k).lit(")"),
                ),
            );
        }
        if expected_in == 0 || expected_out == 0 {
            let plan: Vec<Action> = Vec::new();
            assert(plan@ =~= seq![]);
            return Ok(plan);
        }
        if expected_out.checked_mul(4).is_none() {
            return Err(
                invalid_dimensions(
                    Msg::new("encode_gemm_f32: output byte size overflow (m=").num(m).lit(
                        ", n_rows=",
                    ).num(n_rows).lit(")"),
                ),
            );
        }
        let step = Step::GemmF32 {
            weight: Buf::Weight(weight.buffer),
            input: Buf::GemmInput,
            output: Buf::GemmOutput,
            n_rows: n_rows as u32,
            k: k as u32,
            batch: m as u32,
        };
        Ok(self.plan_gemm(step, input_len, output_len))
    }

    /// Buffers allocated for the GEMM pool so far: two for a fresh pool and
    /// one for every growth of a buffer.
    pub fn gemm_pool_alloc_count(&self) -> (n: u64)
        ensures
            n == self.resident.gemm_pool_allocs,
    {
        self.resident.gemm_pool_allocs
    }
}

/// The GEMM pool only grows: once a request has been carried out, each
/// capacity is the larger of what it was and what was requested.
pub proof fn law_gemm_pool_grows_only(resident: Residency, input_bytes: usize, output_bytes: usize)
    ensures
        ({
            let after = resident.after(grow_gemm_pool(resident, input_bytes, output_bytes));
            &&& after.gemm_io_pool matches Some(p) && match resident.gemm_io_pool {
                None => p.input_cap_bytes == input_bytes && p.output_cap_bytes == output_bytes,
                Some(q) => {
                    &&& p.input_cap_bytes == if q.input_cap_bytes < input_bytes {
                        input_bytes
                    } else {
                        q.input_cap_bytes
                    }
                    &&& p.output_cap_bytes == if q.output_cap_bytes < output_bytes {
                        output_bytes
                    } else {
                        q.output_cap_bytes
                    }
                },
            }
        }),
{
    let plan = grow_gemm_pool(resident, input_bytes, output_bytes);
    match resident.gemm_io_pool {
        None => {
            let most = seq![plan[0], plan[1]];
            assert(plan =~= most.push(plan[2]));
            laws::law_keep_at_end(
                resident,
                most,
                Resident::GemmPool { input_bytes, output_bytes },
            );
        },
        Some(q) => {
            let grow_in = Resident::GemmInput { bytes: input_bytes };
            let grow_out = Resident::GemmOutput { bytes: output_bytes };
            let a = if q.input_cap_bytes < input_bytes {
                plan.take(2)
            } else {
                seq![]
            };
            let b = plan.skip(a.len() as int);
            assert(plan =~= a + b);
            laws::law_plans_compose(resident, a, b);
            let mid = resident.after(a);
            if q.input_cap_bytes < input_bytes {
                assert(a =~= seq![plan[0]].push(Action::Keep(grow_in)));
                laws::law_keep_at_end(resident, seq![plan[0]], grow_in);
            }
            if q.output_cap_bytes < output_bytes {
                assert(b =~= seq![b[0]].push(Action::Keep(grow_out)));
                laws::law_keep_at_end(mid, seq![b[0]], grow_out);
            } else {
                assert(b =~= seq![]);
            }
        },
    }
}

/// A warmed pool allocates nothing: after a request has been carried out,
/// every later request that asks for no more leaves the pool and its
/// allocation count as they are.
pub proof fn law_warm_gemm_pool_allocates_nothing(
    resident: Residency,
    input_bytes: usize,
    output_bytes: usize,
    later_input: usize,
    later_output: usize,
)
    requires
        later_input <= input_bytes,
        later_output <= output_bytes,
    ensures
        ({
            let warm = resident.after(grow_gemm_pool(resident, input_bytes, output_bytes));
            let later = grow_gemm_pool(warm, later_input, later_output);
            &&& later.len() == 0
            &&& warm.after(later) == warm
        }),
{
    law_gemm_pool_grows_only(resident, input_bytes, output_bytes);
}

/// Row `r` of a matrix with rows of `k` elements.
pub open spec fn matrix_row(x: Seq<u32>, r: int, k: int) -> Seq<u32> {
    x.subrange(r * k, r * k + k)
}

/// A buffer that starts with a matrix has its rows.
proof fn lemma_row_of_buffer(buffer: Seq<u32>, x: Seq<u32>, rest: Seq<u32>, m: int, r: int, k: int)
    requires
        buffer == x + rest,
        x.len() == m * k,
        0 <= r < m,
        k >= 0,
    ensures
        matrix_row(buffer, r, k) == matrix_row(x, r, k),
{
    assert(0 <= r * k && r * k + k <= m * k) by (nonlinear_arith)
        requires
            0 <= r,
            r + 1 <= m,
            k >= 0,
    ;
    assert(matrix_row(buffer, r, k) =~= matrix_row(x, r, k));
}

/// The machine after a pooled product has uploaded its input: the input stands at
/// the start of the pool's buffer. What follows is launched on it and read back.
proof fn lemma_gemm_plan<T: Arith>(
    t: &T,
    kernels: Kernels,
    host: Host,
    s: Machine,
    resident: Residency,
    step: Step,
    input_len: usize,
    output_len: usize,
) -> (up: Machine)
    requires
        input_len > 0,
        output_len > 0,
        host.operands[Buf::GemmInput].len() == input_len,
    ensures
        exists|rest: Seq<u32>|
            up.buffers[Buf::GemmInput] == #[trigger] (host.operands[Buf::GemmInput] + rest),
        machine::carried_out(
            t,
            kernels,
            host,
            s,
            gemm_plan(resident, step, input_len, output_len),
        ).read == machine::launched(kernels, host, up, step).buffers[Buf::GemmOutput].take(
            output_len as int,
        ),
{
    let plan = gemm_plan(resident, step, input_len, output_len);
    let grow = grow_gemm_pool(resident, (input_len * 4) as usize, (output_len * 4) as usize);
    let work = seq![
        Action::Upload { buf: Buf::GemmInput, floats: input_len },
        Action::Dispatch(step),
        Action::Commit,
        Action::Download { buf: Buf::GemmOutput, floats: output_len },
    ];
    assert(plan =~= grow + work);
    machine::law_plans_are_carried_out_in_turn(t, kernels, host, s, grow, work);
    let s0 = machine::carried_out(t, kernels, host, s, grow);
    let s1 = machine::acted(t, kernels, host, s0, work[0]);
    let s2 = machine::acted(t, kernels, host, s1, work[1]);
    let s3 = machine::acted(t, kernels, host, s2, work[2]);
    let s4 = machine::acted(t, kernels, host, s3, work[3]);
    assert(machine::carried_out(t, kernels, host, s0, work) == s4) by {
        reveal_with_fuel(machine::carried, 5);
    }
    let x = host.operands[Buf::GemmInput];
    assert(x.take(input_len as int) =~= x);
    let rest = s0.buffers[Buf::GemmInput].skip(x.len() as int);
    assert(s1.buffers[Buf::GemmInput] == x + rest);
    s1
}

/// A pooled single-precision product gives each weight row's product with each
/// input row, whatever the pool held and however large it is.
pub proof fn law_gemm_f32_plan_gives_the_product<T: Arith>(
    t: &T,
    kernels: Kernels,
    host: Host,
    s: Machine,
    resident: Residency,
    weight: MetalWeightHandle,
    m: usize,
    n_rows: usize,
    k: usize,
    input_len: usize,
    output_len: usize,
)
    requires
        m <= u32::MAX,
        n_rows <= u32::MAX,
        k <= u32::MAX,
        0 < input_len,
        0 < output_len,
        input_len == m * k,
        output_len == m * n_rows,
        host.operands[Buf::GemmInput].len() == input_len,
    ensures
        machine::carried_out(
            t,
            kernels,
            host,
            s,
            gemm_plan(resident, gemm_f32_step(weight, m, n_rows, k), input_len, output_len),
        ).read == Seq::new(
            output_len as nat,
            |q: int|
                (kernels.dot)(
                    matrix_row(host.weight, q % n_rows as int, k as int),
                    matrix_row(host.operands[Buf::GemmInput], q / n_rows as int, k as int),
                ),
        ),
{
    let step = gemm_f32_step(weight, m, n_rows, k);
    let x = host.operands[Buf::GemmInput];
    let up = lemma_gemm_plan(t, kernels, host, s, resident, step, input_len, output_len);
    let buffer = up.buffers[Buf::GemmInput];
    let rest = choose|rest: Seq<u32>| buffer == #[trigger] (x + rest);
    let goal = Seq::new(
        output_len as nat,
        |q: int|
            (kernels.dot)(
                matrix_row(host.weight, q % n_rows as int, k as int),
                matrix_row(x, q / n_rows as int, k as int),
            ),
    );
    let got = machine::launched(kernels, host, up, step).buffers[Buf::GemmOutput].take(
        output_len as int,
    );
    assert forall|q: int| 0 <= q < output_len implies #[trigger] got[q] == goal[q] by {
        planes::lemma_matrix_split(q, m as int, n_rows as int);
        lemma_row_of_buffer(buffer, x, rest, m as int, q / n_rows as int, k as int);
    }
    assert(got =~= goal);
}

/// A pooled ternary product likewise.
pub proof fn law_gemm_tq2_plan_gives_the_product<T: Arith>(
    t: &T,
    kernels: Kernels,
    host: Host,
    s: Machine,
    resident: Residency,
    weight: MetalWeightHandle,
    m: usize,
    n_rows: usize,
    k: usize,
    input_len: usize,
    output_len: usize,
)
    requires
        m <= u32::MAX,
        n_rows <= u32::MAX,
        k <= u32::MAX,
        0 < input_len,
        0 < output_len,
        input_len == m * k,
        output_len == m * n_rows,
        host.operands[Buf::GemmInput].len() == input_len,
    ensures
        machine::carried_out(
            t,
            kernels,
            host,
            s,
            gemm_plan(resident, gemm_tq2_step(weight, m, n_rows, k), input_len, output_len),
        ).read == Seq::new(
            output_len as nat,
            |q: int|
                (kernels.ternary)(
                    Buf::Weight(weight.buffer),
                    q % n_rows as int,
                    matrix_row(host.operands[Buf::GemmInput], q / n_rows as int, k as int),
                ),
        ),
{
    let step = gemm_tq2_step(weight, m, n_rows, k);
    let x = host.operands[Buf::GemmInput];
    let up = lemma_gemm_plan(t, kernels, host, s, resident, step, input_len, output_len);
    let buffer = up.buffers[Buf::GemmInput];
    let rest = choose|rest: Seq<u32>| buffer == #[trigger] (x + rest);
    let goal = Seq::new(
        output_len as nat,
        |q: int|
            (kernels.ternary)(
                Buf::Weight(weight.buffer),
                q % n_rows as int,
                matrix_row(x, q / n_rows as int, k as int),
            ),
    );
    let got = machine::launched(kernels, host, up, step).buffers[Buf::GemmOutput].take(
        output_len as int,
    );
    assert forall|q: int| 0 <= q < output_len implies #[trigger] got[q] == goal[q] by {
        planes::lemma_matrix_split(q, m as int, n_rows as int);
        lemma_row_of_buffer(buffer, x, rest, m as int, q / n_rows as int, k as int);
    }
    assert(got =~= goal);
}

} // verus!

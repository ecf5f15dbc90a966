//! Plans of a whole forward pass over a batch of tokens.

use vstd::prelude::*;

use crate::gpu_backend::metal_graph::buffers;
use crate::gpu_backend::metal_graph::buffers::div_ceil;
use crate::gpu_backend::metal_graph::device::{
    Action, Buf, Extent, PrefillBuf, Resident, Step, Storage,
};
use crate::gpu_backend::metal_graph::error;
use crate::gpu_backend::metal_graph::error::{encoding_failed, MetalFault, MetalGraphError};
use crate::gpu_backend::metal_graph::graph::{MetalGraph, Residency};
use crate::gpu_backend::metal_prefill::functions;
use crate::gpu_backend::metal_prefill::types::{LayerWeightRefs, PrefillArgs, PrefillBuffers};
use crate::text;
use crate::text::Msg;

verus! {

/// The layers before the `n`-th, in order.
pub open spec fn layers_prefill(
    weights: Seq<LayerWeightRefs>,
    n: nat,
    a: PrefillArgs,
    ternary: bool,
) -> Seq<Action>
    decreases n,
{
    if n == 0 {
        seq![]
    } else {
        let i = (n - 1) as nat;
        let layer = if ternary {
            functions::layer_prefill_ternary(
                weights[i as int],
                i as usize,
                a.batch_size,
                a.pos_start,
                a.config,
            )
        } else {
            functions::layer_prefill(weights[i as int], i as usize, a.batch_size, a.pos_start, a.config)
        };
        layers_prefill(weights, i, a, ternary) + layer
    }
}

impl PrefillArgs {
    /// The buffer set that the arguments call for.
    pub open spec fn set(self) -> PrefillBuffers {
        PrefillBuffers {
            batch_size: self.batch_size,
            hidden_size: self.config.hidden_size,
            intermediate_size: self.config.intermediate_size,
            nq: self.config.n_q_heads,
            nkv: self.config.n_kv_heads,
            head_dim: self.config.head_dim,
            max_seq: self.config.max_seq_len,
        }
    }

    /// Numbers of hidden state that the batch needs.
    pub open spec fn hidden_need(self) -> int {
        self.batch_size * self.config.hidden_size
    }

    /// Numbers of each RoPE table that the batch needs.
    pub open spec fn rope_need(self) -> int {
        self.batch_size * (self.config.head_dim / 2)
    }

    /// What is wrong with the operands' lengths, in order of the checks.
    pub open spec fn args_fault(self, n_weights: nat) -> Option<MetalFault> {
        if self.hidden_len < self.hidden_need() {
            Some(
                MetalFault::EncodingFailed(
                    "hidden_batch too short: need "@ + text::dec(self.hidden_need() as nat)
                        + ", got "@ + text::dec(self.hidden_len as nat),
                ),
            )
        } else if self.cos_len < self.rope_need() {
            Some(
                MetalFault::EncodingFailed(
                    "cos_table too short: need "@ + text::dec(self.rope_need() as nat) + ", got "@
                        + text::dec(self.cos_len as nat),
                ),
            )
        } else if self.sin_len < self.rope_need() {
            Some(
                MetalFault::EncodingFailed(
                    "sin_table too short: need "@ + text::dec(self.rope_need() as nat) + ", got "@
                        + text::dec(self.sin_len as nat),
                ),
            )
        } else if n_weights != self.n_layers {
            Some(
                MetalFault::EncodingFailed(
                    "layer_weights length mismatch: need "@ + text::dec(self.n_layers as nat)
                        + ", got "@ + text::dec(n_weights),
                ),
            )
        } else {
            None
        }
    }

    /// Whether the resident buffer set has other dimensions, or there is none.
    pub open spec fn needs_set(self, resident: Residency) -> bool {
        resident.prefill_buffers != Some(self.set())
    }

    /// Why the prefill is refused, if it is: an operand's length, or a buffer
    /// without bytes in a set that has to be allocated.
    pub open spec fn fault(self, resident: Residency, n_weights: nat) -> Option<MetalFault> {
        match self.args_fault(n_weights) {
            Some(f) => Some(f),
            None => if self.needs_set(resident) {
                self.set().fault()
            } else {
                None
            },
        }
    }

    /// Whether the output head runs.
    pub open spec fn has_head(self) -> bool {
        self.final_norm_w is Some && self.lm_head_w is Some && self.lm_head_out_features > 0
    }

    /// No size or offset that is computed overflows, when the head writes
    /// `columns` columns of logits.
    pub open spec fn no_overflow(
        self,
        resident: Residency,
        n_weights: nat,
        columns: int,
        ternary: bool,
    ) -> bool {
        &&& self.hidden_need() <= usize::MAX
        &&& self.hidden_len >= self.hidden_need() ==> self.rope_need() <= usize::MAX
        &&& self.args_fault(n_weights) is None && self.needs_set(resident)
            ==> self.set().sizes_fit()
        &&& self.fault(resident, n_weights) is None ==> {
            &&& self.n_layers > 0 ==> self.config.fits(self.batch_size, self.pos_start)
            &&& self.n_layers > 0 && ternary ==> 2 * self.config.intermediate_size <= usize::MAX
            &&& self.has_head() ==> {
                &&& self.batch_size > 0
                &&& self.hidden_need() * 4 <= usize::MAX
                &&& columns * self.lm_head_out_features * 4 <= usize::MAX
            }
        }
    }

    /// What precedes the layers: the buffer set if it has to be allocated, the
    /// KV cache, and the uploads.
    pub open spec fn prologue(self, resident: Residency) -> Seq<Action> {
        (if self.needs_set(resident) {
            self.set().allocs().push(Action::Keep(Resident::Prefill(self.set())))
        } else {
            seq![]
        }) + seq![
            Action::AcquireKv {
                n_layers: self.n_layers,
                nkv: self.config.n_kv_heads,
                max_seq: self.config.max_seq_len,
                head_dim: self.config.head_dim,
            },
            Action::Upload {
                buf: Buf::Prefill(PrefillBuf::Hidden),
                floats: self.hidden_need() as usize,
            },
            Action::Upload {
                buf: Buf::Prefill(PrefillBuf::Cos),
                floats: self.rope_need() as usize,
            },
            Action::Upload {
                buf: Buf::Prefill(PrefillBuf::Sin),
                floats: self.rope_need() as usize,
            },
        ]
    }

    /// The final norm of the last token.
    pub open spec fn last_token_norm(self) -> Action {
        Action::Dispatch(
            Step::RmsNormAt {
                input: Buf::Prefill(PrefillBuf::Hidden),
                input_offset: ((self.batch_size - 1) * self.config.hidden_size * 4) as u64,
                weight: functions::weight_buf(self.final_norm_w->0),
                output: Buf::Prefill(PrefillBuf::Normed),
                eps: self.final_norm_eps,
                n: self.config.hidden_size as u32,
                grid: Extent { x: 1, y: 1, z: 1 },
                threads: Extent { x: 256, y: 1, z: 1 },
            },
        )
    }

    /// The LM head of the last token.
    pub open spec fn last_token_head(self, ternary: bool) -> Action {
        let n_rows = self.lm_head_out_features as u32;
        let k = self.config.hidden_size as u32;
        if ternary {
            Action::Dispatch(
                Step::GemvTq2 {
                    weight: functions::weight_buf(self.lm_head_w->0),
                    input: Buf::Prefill(PrefillBuf::Normed),
                    output: Buf::Logits,
                    n_rows,
                    k,
                },
            )
        } else {
            Action::Dispatch(
                Step::GemvQ1 {
                    weight: functions::weight_buf(self.lm_head_w->0),
                    input: Buf::Prefill(PrefillBuf::Normed),
                    output: Buf::Logits,
                    n_rows,
                    k,
                },
            )
        }
    }

    /// What follows the layers when the last token's logits, or its greedy
    /// token, are wanted.
    pub open spec fn last_token_tail(
        self,
        resident: Residency,
        ternary: bool,
        want_logits: bool,
        want_token: bool,
    ) -> Seq<Action> {
        if !self.has_head() {
            seq![Action::Commit]
        } else {
            seq![self.last_token_norm()] + grow_logits(
                resident,
                (self.lm_head_out_features * 4) as u64,
            ) + seq![self.last_token_head(ternary)] + (if want_token {
                grow_token_ids(resident, 4) + seq![
                    Action::Dispatch(
                        Step::Argmax {
                            logits: Buf::Logits,
                            token: Buf::TokenId,
                            n: self.lm_head_out_features as u32,
                        },
                    ),
                    Action::Commit,
                    Action::ReadToken,
                ]
            } else if want_logits {
                seq![
                    Action::Commit,
                    Action::Download { buf: Buf::Logits, floats: self.lm_head_out_features },
                ]
            } else {
                seq![Action::Commit]
            })
        }
    }

    /// The LM head of column `col`, by a ternary GEMV.
    pub open spec fn column_head(self, col: int) -> Action {
        Action::Dispatch(
            Step::GemvTq2At {
                weight: functions::weight_buf(self.lm_head_w->0),
                input: Buf::Prefill(PrefillBuf::Normed),
                input_offset: (col * (self.config.hidden_size as u32) * 4) as u64,
                output: Buf::Logits,
                output_offset: (col * self.lm_head_out_features * 4) as u64,
                n_rows: self.lm_head_out_features as u32,
                k: self.config.hidden_size as u32,
                grid: Extent {
                    x: buffers::threadgroups(self.lm_head_out_features as int, 8) as u64,
                    y: 1,
                    z: 1,
                },
                threads: Extent { x: 256, y: 1, z: 1 },
            },
        )
    }

    /// The greedy token of column `col`.
    pub open spec fn column_argmax(self, col: int) -> Action {
        Action::Dispatch(
            Step::ArgmaxAt {
                logits: Buf::Logits,
                logits_offset: (col * (self.lm_head_out_features as u32) * 4) as u64,
                token: Buf::TokenId,
                token_offset: (col * 4) as u64,
                n: self.lm_head_out_features as u32,
                grid: Extent { x: 1, y: 1, z: 1 },
                threads: Extent { x: 1024, y: 1, z: 1 },
            },
        )
    }

    /// What follows the layers when every position's greedy token is wanted.
    pub open spec fn verify_tail(self, resident: Residency, ternary: bool) -> Seq<Action> {
        let b = self.batch_size;
        if !self.has_head() {
            seq![Action::Commit]
        } else {
            seq![
                Action::Dispatch(
                    Step::BatchedRmsNorm {
                        input: Buf::Prefill(PrefillBuf::Hidden),
                        weight: functions::weight_buf(self.final_norm_w->0),
                        output: Buf::Prefill(PrefillBuf::Normed),
                        eps: self.final_norm_eps,
                        n: self.config.hidden_size as u32,
                        batch: b as u32,
                    },
                ),
            ] + grow_logits(resident, (b * self.lm_head_out_features * 4) as u64) + (if ternary {
                Seq::new(b as nat, |col: int| self.column_head(col))
            } else {
                seq![
                    Action::Dispatch(
                        Step::GemmQ1V7 {
                            weight: functions::weight_buf(self.lm_head_w->0),
                            input: Buf::Prefill(PrefillBuf::Normed),
                            output: Buf::Logits,
                            n_rows: self.lm_head_out_features as u32,
                            k: self.config.hidden_size as u32,
                            batch: b as u32,
                        },
                    ),
                ]
            }) + grow_token_ids(resident, (b * 4) as u64) + Seq::new(
                b as nat,
                |col: int| self.column_argmax(col),
            ) + seq![Action::Commit, Action::ReadTokens { count: b }]
        }
    }
}

/// Enlarges the logits buffer where it is missing or shorter than needed.
pub open spec fn grow_logits(resident: Residency, needed: u64) -> Seq<Action> {
    if resident.logits_bytes is None || resident.logits_bytes->0 < needed {
        seq![
            Action::Alloc { buf: Buf::Logits, bytes: needed, storage: Storage::Shared },
            Action::Keep(Resident::Logits { byte_len: needed }),
        ]
    } else {
        seq![]
    }
}

/// Enlarges the token id buffer where it is missing or shorter than needed.
pub open spec fn grow_token_ids(resident: Residency, needed: u64) -> Seq<Action> {
    if resident.token_id_bytes is None || resident.token_id_bytes->0 < needed {
        seq![
            Action::Alloc { buf: Buf::TokenId, bytes: needed, storage: Storage::Shared },
            Action::Keep(Resident::TokenId { byte_len: needed }),
        ]
    } else {
        seq![]
    }
}

impl MetalGraph {
    /// Appends all layers to a plan.
    fn encode_layers(
        plan: &mut Vec<Action>,
        layer_weights: &[LayerWeightRefs],
        args: &PrefillArgs,
        ternary: bool,
    )
        requires
            layer_weights@.len() == args.n_layers,
            args.n_layers > 0 ==> args.config.fits(args.batch_size, args.pos_start),
            args.n_layers > 0 && ternary ==> 2 * args.config.intermediate_size <= usize::MAX
                && args.hidden_need() <= usize::MAX,
        ensures
            final(plan)@ == old(plan)@ + layers_prefill(
                layer_weights@,
                args.n_layers as nat,
                *args,
                ternary,
            ),
    {
        let ghost base = plan@;
        let mut i: usize = 0;
        assert(base =~= base + layers_prefill(layer_weights@, 0, *args, ternary));
        while i < layer_weights.len()
            invariant
                i <= layer_weights@.len(),
                layer_weights@.len() == args.n_layers,
                args.n_layers > 0 ==> args.config.fits(args.batch_size, args.pos_start),
                args.n_layers > 0 && ternary ==> 2 * args.config.intermediate_size <= usize::MAX
                    && args.hidden_need() <= usize::MAX,
                plan@ == base + layers_prefill(layer_weights@, i as nat, *args, ternary),
            decreases layer_weights@.len() - i,
        {
            if ternary {
                Self::encode_layer_prefill_ternary(
                    plan,
                    &layer_weights[i],
                    i,
                    args.batch_size,
                    args.pos_start,
                    &args.config,
                );
            } else {
                Self::encode_layer_prefill(
                    plan,
                    &layer_weights[i],
                    i,
                    args.batch_size,
                    args.pos_start,
                    &args.config,
                );
            }
            i += 1;
            assert(plan@ =~= base + layers_prefill(layer_weights@, i as nat, *args, ternary));
        }
    }

    /// Appends the prefill buffer set to a plan where it is not resident.
    fn acquire_prefill_buffers(&self, plan: &mut Vec<Action>, args: &PrefillArgs) -> (r: Result<
        (),
        MetalGraphError,
    >)
        requires
            args.needs_set(self.resident) ==> args.set().sizes_fit(),
        ensures
            error::reports(
                r,
                if args.needs_set(self.resident) {
                    args.set().fault()
                } else {
                    None
                },
            ),
            r is Ok ==> final(plan)@ == old(plan)@ + (if args.needs_set(self.resident) {
                args.set().allocs().push(Action::Keep(Resident::Prefill(args.set())))
            } else {
                seq![]
            }),
    {
        let c = &args.config;
        let needs_alloc = match self.resident.prefill_buffers {
            Some(b) => !b.matches(
                args.batch_size,
                c.hidden_size,
                c.intermediate_size,
                c.n_q_heads,
                c.n_kv_heads,
                c.head_dim,
                c.max_seq_len,
            ),
            None => true,
        };
        if needs_alloc {
            let set = PrefillBuffers::allocate(
                plan,
                args.batch_size,
                c.hidden_size,
                c.intermediate_size,
                c.n_q_heads,
                c.n_kv_heads,
                c.head_dim,
                c.max_seq_len,
            )?;
            plan.push(Action::Keep(Resident::Prefill(set)));
        }
        assert(plan@ =~= old(plan)@ + (if args.needs_set(self.resident) {
            args.set().allocs().push(Action::Keep(Resident::Prefill(args.set())))
        } else {
            seq![]
        }));
        Ok(())
    }

    /// Checks the operands of a prefill and plans what precedes the layers.
    fn begin_prefill(&self, n_weights: usize, args: &PrefillArgs) -> (r: Result<
        Vec<Action>,
        MetalGraphError,
    >)
        requires
            args.hidden_need() <= usize::MAX,
            args.hidden_len >= args.hidden_need() ==> args.rope_need() <= usize::MAX,
            args.args_fault(n_weights as nat) is None && args.needs_set(self.resident)
                ==> args.set().sizes_fit(),
        ensures
            error::reports(r, args.fault(self.resident, n_weights as nat)),
            r matches Ok(plan) ==> plan@ == args.prologue(self.resident),
    {
        let c = &args.config;
        let hidden_need: usize = args.batch_size * c.hidden_size;
        if args.hidden_len < hidden_need {
            return Err(
                encoding_failed(
                    Msg::new("hidden_batch too short: need ").num(hidden_need).lit(", got ").num(
                        args.hidden_len,
                    ),
                ),
            );
        }
        let rope_need: usize = args.batch_size * (c.head_dim / 2);
        if args.cos_len < rope_need {
            return Err(
                encoding_failed(
                    Msg::new("cos_table too short: need ").num(rope_need).lit(", got ").num(
                        args.cos_len,
                    ),
                ),
            );
        }
        if args.sin_len < rope_need {
            return Err(
                encoding_failed(
                    Msg::new("sin_table too short: need ").num(rope_need).lit(", got ").num(
                        args.sin_len,
                    ),
                ),
            );
        }
        if n_weights != args.n_layers {
            return Err(
                encoding_failed(
                    Msg::new("layer_weights length mismatch: need ").num(args.n_layers).lit(
                        ", got ",
                    ).num(n_weights),
                ),
            );
        }
        let mut plan: Vec<Action> = Vec::new();
        self.acquire_prefill_buffers(&mut plan, args)?;
        plan.push(
            Action::AcquireKv {
                n_layers: args.n_layers,
                nkv: c.n_kv_heads,
                max_seq: c.max_seq_len,
                head_dim: c.head_dim,
            },
        );
        plan.push(Action::Upload { buf: Buf::Prefill(PrefillBuf::Hidden), floats: hidden_need });
        plan.push(Action::Upload { buf: Buf::Prefill(PrefillBuf::Cos), floats: rope_need });
        plan.push(Action::Upload { buf: Buf::Prefill(PrefillBuf::Sin), floats: rope_need });
        assert(plan@ =~= args.prologue(self.resident));
        Ok(plan)
    }

    /// Appends the growth of the logits buffer to a plan.
    fn grow_logits_buf(&self, plan: &mut Vec<Action>, needed: u64)
        requires
            needed > 0,
        ensures
            final(plan)@ == old(plan)@ + grow_logits(self.resident, needed),
    {
        let grow = match self.resident.logits_bytes {
            Some(b) => b < needed,
            None => true,
        };
        if grow {
            plan.push(Action::Alloc { buf: Buf::Logits, bytes: needed, storage: Storage::Shared });
            plan.push(Action::Keep(Resident::Logits { byte_len: needed }));
        }
        assert(plan@ =~= old(plan)@ + grow_logits(self.resident, needed));
    }

    /// Appends the growth of the token id buffer to a plan.
    fn grow_token_id_buf(&self, plan: &mut Vec<Action>, needed: u64)
        requires
            needed > 0,
        ensures
            final(plan)@ == old(plan)@ + grow_token_ids(self.resident, needed),
    {
        let grow = match self.resident.token_id_bytes {
            Some(b) => b < needed,
            None => true,
        };
        if grow {
            plan.push(Action::Alloc { buf: Buf::TokenId, bytes: needed, storage: Storage::Shared });
            plan.push(Action::Keep(Resident::TokenId { byte_len: needed }));
        }
        assert(plan@ =~= old(plan)@ + grow_token_ids(self.resident, needed));
    }

    /// Appends the last token's head to a plan.
    fn encode_last_token_tail(
        &self,
        plan: &mut Vec<Action>,
        args: &PrefillArgs,
        ternary: bool,
        want_logits: bool,
        want_token: bool,
    )
        requires
            args.has_head() ==> {
                &&& args.batch_size > 0
                &&& args.hidden_need() * 4 <= usize::MAX
                &&& args.lm_head_out_features * 4 <= usize::MAX
            },
        ensures
            final(plan)@ == old(plan)@ + args.last_token_tail(
                self.resident,
                ternary,
                want_logits,
                want_token,
            ),
    {
        let ghost base = plan@;
        let lm: usize = args.lm_head_out_features;
        match (args.final_norm_w, args.lm_head_w) {
            (Some(fnorm_w), Some(lm_w)) if lm > 0 => {
                let h: u32 = args.config.hidden_size as u32;
                proof {
                    let b = args.batch_size as int;
                    let hs = args.config.hidden_size as int;
                    assert(0 <= (b - 1) * hs <= b * hs) by (nonlinear_arith)
                        requires
                            b > 0,
                            hs >= 0,
                    ;
                }
                plan.push(
                    Action::Dispatch(
                        Step::RmsNormAt {
                            input: Buf::Prefill(PrefillBuf::Hidden),
                            input_offset: ((args.batch_size - 1) * args.config.hidden_size
                                * 4) as u64,
                            weight: Buf::Weight(fnorm_w.buffer),
                            output: Buf::Prefill(PrefillBuf::Normed),
                            eps: args.final_norm_eps,
                            n: h,
                            grid: Extent { x: 1, y: 1, z: 1 },
                            threads: Extent { x: 256, y: 1, z: 1 },
                        },
                    ),
                );
                self.grow_logits_buf(plan, (lm * 4) as u64);
                if ternary {
                    plan.push(
                        Action::Dispatch(
                            Step::GemvTq2 {
                                weight: Buf::Weight(lm_w.buffer),
                                input: Buf::Prefill(PrefillBuf::Normed),
                                output: Buf::Logits,
                                n_rows: lm as u32,
                                k: h,
                            },
                        ),
                    );
                } else {
                    plan.push(
                        Action::Dispatch(
                            Step::GemvQ1 {
                                weight: Buf::Weight(lm_w.buffer),
                                input: Buf::Prefill(PrefillBuf::Normed),
                                output: Buf::Logits,
                                n_rows: lm as u32,
                                k: h,
                            },
                        ),
                    );
                }
                if want_token {
                    self.grow_token_id_buf(plan, 4);
                    plan.push(
                        Action::Dispatch(
                            Step::Argmax { logits: Buf::Logits, token: Buf::TokenId, n: lm as u32 },
                        ),
                    );
                    plan.push(Action::Commit);
                    plan.push(Action::ReadToken);
                } else {
                    plan.push(Action::Commit);
                    if want_logits {
                        plan.push(Action::Download { buf: Buf::Logits, floats: lm });
                    }
                }
            },
            _ => {
                plan.push(Action::Commit);
            },
        }
        assert(plan@ =~= base + args.last_token_tail(
            self.resident,
            ternary,
            want_logits,
            want_token,
        ));
    }

    /// Appends every column's head to a plan.
    fn encode_verify_tail(&self, plan: &mut Vec<Action>, args: &PrefillArgs, ternary: bool)
        requires
            args.has_head() ==> {
                &&& args.batch_size > 0
                &&& args.hidden_need() * 4 <= usize::MAX
                &&& args.batch_size * args.lm_head_out_features * 4 <= usize::MAX
            },
        ensures
            final(plan)@ == old(plan)@ + args.verify_tail(self.resident, ternary),
    {
        let ghost base = plan@;
        let lm: usize = args.lm_head_out_features;
        match (args.final_norm_w, args.lm_head_w) {
            (Some(fnorm_w), Some(lm_w)) if lm > 0 => {
                let h: u32 = args.config.hidden_size as u32;
                let batch_size: usize = args.batch_size;
                let ghost b = batch_size as int;
                let ghost l = lm as int;
                proof {
                    assert(b * l >= b) by (nonlinear_arith)
                        requires
                            b > 0,
                            l > 0,
                    ;
                }
                plan.push(
                    Action::Dispatch(
                        Step::BatchedRmsNorm {
                            input: Buf::Prefill(PrefillBuf::Hidden),
                            weight: Buf::Weight(fnorm_w.buffer),
                            output: Buf::Prefill(PrefillBuf::Normed),
                            eps: args.final_norm_eps,
                            n: h,
                            batch: batch_size as u32,
                        },
                    ),
                );
                self.grow_logits_buf(plan, (batch_size * lm * 4) as u64);
                if ternary {
                    let ghost start = plan@;
                    let mut col: usize = 0;
                    while col < batch_size
                        invariant
                            col <= batch_size,
                            batch_size == args.batch_size,
                            lm == args.lm_head_out_features,
                            h == args.config.hidden_size as u32,
                            args.lm_head_w == Some(lm_w),
                            args.hidden_need() * 4 <= usize::MAX,
                            batch_size * lm * 4 <= usize::MAX,
                            plan@ == start + Seq::new(col as nat, |c: int| args.column_head(c)),
                        decreases batch_size - col,
                    {
                        proof {
                            lemma_column_offsets(
                                col as int,
                                batch_size as int,
                                lm as int,
                                h as int,
                                args.config.hidden_size as int,
                            );
                        }
                        plan.push(
                            Action::Dispatch(
                                Step::GemvTq2At {
                                    weight: Buf::Weight(lm_w.buffer),
                                    input: Buf::Prefill(PrefillBuf::Normed),
                                    input_offset: col as u64 * h as u64 * 4,
                                    output: Buf::Logits,
                                    output_offset: col as u64 * lm as u64 * 4,
                                    n_rows: lm as u32,
                                    k: h,
                                    grid: Extent { x: div_ceil(lm, 8) as u64, y: 1, z: 1 },
                                    threads: Extent { x: 256, y: 1, z: 1 },
                                },
                            ),
                        );
                        col += 1;
                        assert(plan@ =~= start + Seq::new(
                            col as nat,
                            |c: int| args.column_head(c),
                        ));
                    }
                } else {
                    plan.push(
                        Action::Dispatch(
                            Step::GemmQ1V7 {
                                weight: Buf::Weight(lm_w.buffer),
                                input: Buf::Prefill(PrefillBuf::Normed),
                                output: Buf::Logits,
                                n_rows: lm as u32,
                                k: h,
                                batch: batch_size as u32,
                            },
                        ),
                    );
                }
                self.grow_token_id_buf(plan, (batch_size * 4) as u64);
                let vocab: u32 = lm as u32;
                let ghost start = plan@;
                let mut col: usize = 0;
                while col < batch_size
                    invariant
                        col <= batch_size,
                        batch_size == args.batch_size,
                        lm == args.lm_head_out_features,
                        vocab == lm as u32,
                        batch_size * lm * 4 <= usize::MAX,
                        batch_size * 4 <= usize::MAX,
                        plan@ == start + Seq::new(col as nat, |c: int| args.column_argmax(c)),
                    decreases batch_size - col,
                {
                    proof {
                        lemma_column_offsets(
                            col as int,
                            batch_size as int,
                            lm as int,
                            vocab as int,
                            lm as int,
                        );
                    }
                    plan.push(
                        Action::Dispatch(
                            Step::ArgmaxAt {
                                logits: Buf::Logits,
                                logits_offset: col as u64 * vocab as u64 * 4,
                                token: Buf::TokenId,
                                token_offset: col as u64 * 4,
                                n: vocab,
                                grid: Extent { x: 1, y: 1, z: 1 },
                                threads: Extent { x: 1024, y: 1, z: 1 },
                            },
                        ),
                    );
                    col += 1;
                    assert(plan@ =~= start + Seq::new(
                        col as nat,
                        |c: int| args.column_argmax(c),
                    ));
                }
                plan.push(Action::Commit);
                plan.push(Action::ReadTokens { count: batch_size });
            },
            _ => {
                plan.push(Action::Commit);
            },
        }
        assert(plan@ =~= base + args.verify_tail(self.resident, ternary));
    }

    /// Plans all transformer layers over a batch of tokens in one command
    /// buffer, with 1-bit weights, and the LM head of the last token.
    ///
    /// With `want_token` the head's argmax is read back, otherwise with
    /// `want_logits` its logits.
    pub fn encode_full_forward_prefill(
        &self,
        layer_weights: &[LayerWeightRefs],
        args: &PrefillArgs,
        want_logits: bool,
        want_token: bool,
    ) -> (r: Result<Vec<Action>, MetalGraphError>)
        requires
            args.no_overflow(self.resident, layer_weights@.len(), 1, false),
        ensures
            error::reports(r, args.fault(self.resident, layer_weights@.len())),
            r matches Ok(plan) ==> plan@ == args.prologue(self.resident) + layers_prefill(
                layer_weights@,
                args.n_layers as nat,
                *args,
                false,
            ) + args.last_token_tail(self.resident, false, want_logits, want_token),
    {
        let mut plan = self.begin_prefill(layer_weights.len(), args)?;
        Self::encode_layers(&mut plan, layer_weights, args, false);
        self.encode_last_token_tail(&mut plan, args, false, want_logits, want_token);
        Ok(plan)
    }

    /// Plans all transformer layers over a batch of tokens in one command
    /// buffer, with 1-bit weights, and the greedy token of every position.
    pub fn encode_full_forward_prefill_verify(
        &self,
        layer_weights: &[LayerWeightRefs],
        args: &PrefillArgs,
    ) -> (r: Result<Vec<Action>, MetalGraphError>)
        requires
            args.no_overflow(self.resident, layer_weights@.len(), args.batch_size as int, false),
        ensures
            error::reports(r, args.fault(self.resident, layer_weights@.len())),
            r matches Ok(plan) ==> plan@ == args.prologue(self.resident) + layers_prefill(
                layer_weights@,
                args.n_layers as nat,
                *args,
                false,
            ) + args.verify_tail(self.resident, false),
    {
        let mut plan = self.begin_prefill(layer_weights.len(), args)?;
        Self::encode_layers(&mut plan, layer_weights, args, false);
        self.encode_verify_tail(&mut plan, args, false);
        Ok(plan)
    }

    /// Plans all transformer layers over a batch of tokens in one command
    /// buffer, with ternary weights, and the LM head of the last token.
    ///
    /// With `want_token` the head's argmax is read back, otherwise with
    /// `want_logits` its logits.
    pub fn encode_full_forward_prefill_ternary(
        &self,
        layer_weights: &[LayerWeightRefs],
        args: &PrefillArgs,
        want_logits: bool,
        want_token: bool,
    ) -> (r: Result<Vec<Action>, MetalGraphError>)
        requires
            args.no_overflow(self.resident, layer_weights@.len(), 1, true),
        ensures
            error::reports(r, args.fault(self.resident, layer_weights@.len())),
            r matches Ok(plan) ==> plan@ == args.prologue(self.resident) + layers_prefill(
                layer_weights@,
                args.n_layers as nat,
                *args,
                true,
            ) + args.last_token_tail(self.resident, true, want_logits, want_token),
    {
        let mut plan = self.begin_prefill(layer_weights.len(), args)?;
        Self::encode_layers(&mut plan, layer_weights, args, true);
        self.encode_last_token_tail(&mut plan, args, true, want_logits, want_token);
        Ok(plan)
    }

    /// Plans all transformer layers over a batch of tokens in one command
    /// buffer, with ternary weights, and the greedy token of every position.
    ///
    /// The LM head runs column by column, since the ternary GEMV is not
    /// batched.
    pub fn encode_full_forward_prefill_verify_ternary(
        &self,
        layer_weights: &[LayerWeightRefs],
        args: &PrefillArgs,
    ) -> (r: Result<Vec<Action>, MetalGraphError>)
        requires
            args.no_overflow(self.resident, layer_weights@.len(), args.batch_size as int, true),
        ensures
            error::reports(r, args.fault(self.resident, layer_weights@.len())),
            r matches Ok(plan) ==> plan@ == args.prologue(self.resident) + layers_prefill(
                layer_weights@,
                args.n_layers as nat,
                *args,
                true,
            ) + args.verify_tail(self.resident, true),
    {
        let mut plan = self.begin_prefill(layer_weights.len(), args)?;
        Self::encode_layers(&mut plan, layer_weights, args, true);
        self.encode_verify_tail(&mut plan, args, true);
        Ok(plan)
    }
}

/// Column offsets of batched outputs stay within the batch.
proof fn lemma_column_offsets(col: int, batch: int, lm: int, row: int, row_full: int)
    requires
        0 <= col < batch,
        lm >= 0,
        0 <= row <= row_full,
    ensures
        0 <= col * lm <= batch * lm,
        0 <= col * row <= batch * row_full,
{
    assert(0 <= col * lm <= batch * lm) by (nonlinear_arith)
        requires
            0 <= col < batch,
            lm >= 0,
    ;
    assert(0 <= col * row <= batch * row_full) by (nonlinear_arith)
        requires
            0 <= col < batch,
            0 <= row <= row_full,
    ;
}

} // verus!

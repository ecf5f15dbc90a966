//! Device memory, and what the launches of a transformer pass and the element-wise ones
//! of the VAE decoder make of it, given what their kernels compute of vectors.

use vstd::prelude::*;

use crate::gpu_backend::metal_graph::device::{Action, Buf, Step};
use crate::gpu_backend::metal_graph::planes;

verus! {

/// What kernels compute of vectors, number by number.
pub struct VectorKernels {
    /// A weight's row times a vector; the weight is ternary or 1-bit.
    pub dot: spec_fn(bool, Buf, int, Seq<u32>) -> u32,
    /// A number of a normalised vector, by weights and epsilon.
    pub norm: spec_fn(Seq<u32>, u32, Seq<u32>, int) -> u32,
    /// Sum of two numbers.
    pub plus: spec_fn(u32, u32) -> u32,
    /// SwiGLU of gate and up.
    pub swiglu: spec_fn(u32, u32) -> u32,
    /// A number of a head that is turned by cosines and sines.
    pub turn: spec_fn(Seq<u32>, Seq<u32>, Seq<u32>, int) -> u32,
    /// A query times a key, over the root of a size.
    pub score: spec_fn(Seq<u32>, Seq<u32>, usize) -> u32,
    /// An element's share among scores.
    pub share: spec_fn(Seq<u32>, int) -> u32,
    /// Numbers times their shares, added up.
    pub blend: spec_fn(Seq<u32>, Seq<u32>) -> u32,
    /// Index of the largest number.
    pub largest: spec_fn(Seq<u32>) -> u32,
    /// A number of a normalised group, by epsilon, weight and bias.
    pub group_norm: spec_fn(Seq<u32>, int, u32, u32, u32) -> u32,
    /// SiLU of a number.
    pub silu: spec_fn(u32) -> u32,
}

/// Device memory: buffers by number, and the KV cache by buffer, layer, head, position
/// and number. What was read back last is at the host.
pub struct DeviceMemory {
    /// Buffers.
    pub at: spec_fn(Buf, int) -> u32,
    /// The KV cache.
    pub cache: spec_fn(Buf, int, int, int, int) -> u32,
    /// What was read back last.
    pub read: Seq<u32>,
}

impl DeviceMemory {
    /// `n` numbers of a buffer.
    pub open spec fn vector(self, buf: Buf, from: int, n: int) -> Seq<u32> {
        Seq::new(n as nat, |i: int| (self.at)(buf, from + i))
    }

    /// With `n` numbers of a buffer written.
    pub open spec fn put(self, buf: Buf, from: int, n: int, f: spec_fn(int) -> u32) -> Self {
        DeviceMemory {
            at: |b: Buf, i: int|
                if b == buf && from <= i < from + n {
                    f(i - from)
                } else {
                    (self.at)(b, i)
                },
            ..self
        }
    }

    /// A cached vector.
    pub open spec fn cached(self, buf: Buf, layer: int, head: int, pos: int, hd: int) -> Seq<u32> {
        Seq::new(hd as nat, |d: int| (self.cache)(buf, layer, head, pos, d))
    }

    /// With a vector of every head cached at a position.
    pub open spec fn store(
        self,
        buf: Buf,
        layer: int,
        heads: int,
        pos: int,
        hd: int,
        f: spec_fn(int) -> u32,
    ) -> Self {
        DeviceMemory {
            cache: |b: Buf, l: int, h: int, p: int, d: int|
                if b == buf && l == layer && 0 <= h < heads && p == pos && 0 <= d < hd {
                    f(h * hd + d)
                } else {
                    (self.cache)(b, l, h, p, d)
                },
            ..self
        }
    }
}

/// Rows of a weight times a vector.
pub open spec fn rows_times(
    k: VectorKernels,
    ternary: bool,
    weight: Buf,
    first: int,
    rows: int,
    x: Seq<u32>,
) -> Seq<u32> {
    Seq::new(rows as nat, |r: int| (k.dot)(ternary, weight, first + r, x))
}

/// A normalised vector.
pub open spec fn normalised(k: VectorKernels, weight: Seq<u32>, eps: u32, x: Seq<u32>) -> Seq<u32> {
    Seq::new(x.len(), |i: int| (k.norm)(weight, eps, x, i))
}

/// A turned head.
pub open spec fn turned(k: VectorKernels, x: Seq<u32>, cos: Seq<u32>, sin: Seq<u32>) -> Seq<u32> {
    Seq::new(x.len(), |i: int| (k.turn)(x, cos, sin, i))
}

/// A batched product: `[batch, n_rows]` of `[batch, k]`, from where input and output
/// start.
pub open spec fn product_launched(
    k: VectorKernels,
    s: DeviceMemory,
    ternary: bool,
    weight: Buf,
    input: Buf,
    input_from: int,
    output: Buf,
    output_from: int,
    n_rows: int,
    width: int,
    batch: int,
) -> DeviceMemory {
    s.put(
        output,
        output_from,
        batch * n_rows,
        |i: int|
            (k.dot)(
                ternary,
                weight,
                i % n_rows,
                s.vector(input, input_from + i / n_rows * width, width),
            ),
    )
}

/// Normalised rows of `n` numbers.
pub open spec fn norm_launched(
    k: VectorKernels,
    s: DeviceMemory,
    weight: Buf,
    eps: u32,
    input: Buf,
    input_from: int,
    output: Buf,
    n: int,
    batch: int,
) -> DeviceMemory {
    s.put(
        output,
        0,
        batch * n,
        |i: int|
            (k.norm)(
                s.vector(weight, 0, n),
                eps,
                s.vector(input, input_from + i / n * n, n),
                i % n,
            ),
    )
}

/// Gate and up rows of a weight, joined by SwiGLU.
pub open spec fn gate_up_launched(
    k: VectorKernels,
    s: DeviceMemory,
    weight: Buf,
    input: Buf,
    output: Buf,
    inter: int,
    width: int,
    batch: int,
) -> DeviceMemory {
    s.put(
        output,
        0,
        batch * inter,
        |i: int|
            {
                let x = s.vector(input, i / inter * width, width);
                (k.swiglu)(
                    (k.dot)(false, weight, i % inter, x),
                    (k.dot)(false, weight, inter + i % inter, x),
                )
            },
    )
}

/// The memory after a launch. Other kernels than those of a transformer pass, and than
/// group norm, SiLU and upsampling, are not described.
pub open spec fn after_launch(k: VectorKernels, s: DeviceMemory, step: Step) -> DeviceMemory {
    match step {
        Step::GemvQ1 { weight, input, output, n_rows, k: width } => product_launched(
            k,
            s,
            false,
            weight,
            input,
            0,
            output,
            0,
            n_rows as int,
            width as int,
            1,
        ),
        Step::GemvTq2 { weight, input, output, n_rows, k: width } => product_launched(
            k,
            s,
            true,
            weight,
            input,
            0,
            output,
            0,
            n_rows as int,
            width as int,
            1,
        ),
        Step::GemvTq2At {
            weight,
            input,
            input_offset,
            output,
            output_offset,
            n_rows,
            k: width,
            ..
        } => product_launched(
            k,
            s,
            true,
            weight,
            input,
            input_offset as int / 4,
            output,
            output_offset as int / 4,
            n_rows as int,
            width as int,
            1,
        ),
        Step::GemmQ1V7 { weight, input, output, n_rows, k: width, batch } => product_launched(
            k,
            s,
            false,
            weight,
            input,
            0,
            output,
            0,
            n_rows as int,
            width as int,
            batch as int,
        ),
        Step::GemmTq2V7 { weight, input, output, n_rows, k: width, batch } => product_launched(
            k,
            s,
            true,
            weight,
            input,
            0,
            output,
            0,
            n_rows as int,
            width as int,
            batch as int,
        ),
        Step::GemmQ1V7Residual { weight, input, output, n_rows, k: width, batch, residual } => {
            s.put(
                output,
                0,
                batch * n_rows,
                |i: int|
                    (k.plus)(
                        (s.at)(residual, i),
                        (k.dot)(
                            false,
                            weight,
                            i % n_rows as int,
                            s.vector(input, i / n_rows as int * width, width as int),
                        ),
                    ),
            )
        },
        Step::ResidualAdd { target, addend, n } => s.put(
            target,
            0,
            n as int,
            |i: int| (k.plus)((s.at)(target, i), (s.at)(addend, i)),
        ),
        Step::RmsNorm { input, weight, output, eps, n } => norm_launched(
            k,
            s,
            weight,
            eps,
            input,
            0,
            output,
            n as int,
            1,
        ),
        Step::RmsNormAt { input, input_offset, weight, output, eps, n, .. } => norm_launched(
            k,
            s,
            weight,
            eps,
            input,
            input_offset as int / 4,
            output,
            n as int,
            1,
        ),
        Step::BatchedRmsNorm { input, weight, output, eps, n, batch } => norm_launched(
            k,
            s,
            weight,
            eps,
            input,
            0,
            output,
            n as int,
            batch as int,
        ),
        Step::FusedGateUpSwiglu { weight, input, output, inter, k: width } => gate_up_launched(
            k,
            s,
            weight,
            input,
            output,
            inter as int,
            width as int,
            1,
        ),
        Step::FusedGateUpSwigluGemm { weight, input, output, inter, k: width, batch } => {
            gate_up_launched(
                k,
                s,
                weight,
                input,
                output,
                inter as int,
                width as int,
                batch as int,
            )
        },
        Step::BatchedSwiglu { input, output, inter, batch } => s.put(
            output,
            0,
            batch * inter,
            |i: int|
                {
                    let from = i / inter as int * (2 * inter);
                    (k.swiglu)(
                        (s.at)(input, from + i % inter as int),
                        (s.at)(input, from + inter + i % inter as int),
                    )
                },
        ),
        Step::FusedQkNorm {
            query,
            query_offset,
            key,
            key_offset,
            q_out,
            k_out,
            q_weight,
            k_weight,
            nq,
            nkv,
            head_dim,
            eps,
        } => {
            let hd = head_dim as int;
            s.put(
                q_out,
                0,
                nq * hd,
                |i: int|
                    (k.norm)(
                        s.vector(q_weight, 0, hd),
                        eps,
                        s.vector(query, query_offset as int / 4 + i / hd * hd, hd),
                        i % hd,
                    ),
            ).put(
                k_out,
                0,
                nkv * hd,
                |i: int|
                    (k.norm)(
                        s.vector(k_weight, 0, hd),
                        eps,
                        s.vector(key, key_offset as int / 4 + i / hd * hd, hd),
                        i % hd,
                    ),
            )
        },
        Step::FusedQkRope {
            query,
            key,
            q_out,
            k_out,
            cos,
            cos_offset,
            sin,
            sin_offset,
            nq,
            nkv,
            half_dim,
            ..
        } => {
            let hd = 2 * half_dim;
            let c = s.vector(cos, cos_offset as int / 4, half_dim as int);
            let n = s.vector(sin, sin_offset as int / 4, half_dim as int);
            s.put(
                q_out,
                0,
                nq * hd,
                |i: int| (k.turn)(s.vector(query, i / hd * hd, hd), c, n, i % hd),
            ).put(
                k_out,
                0,
                nkv * hd,
                |i: int| (k.turn)(s.vector(key, i / hd * hd, hd), c, n, i % hd),
            )
        },
        Step::FusedKvStore {
            key,
            value,
            value_offset,
            k_cache,
            v_cache,
            nkv,
            head_dim,
            pos,
            layer,
            ..
        } => s.store(
            k_cache,
            layer as int,
            nkv as int,
            pos as int,
            head_dim as int,
            |i: int| (s.at)(key, i),
        ).store(
            v_cache,
            layer as int,
            nkv as int,
            pos as int,
            head_dim as int,
            |i: int| (s.at)(value, value_offset as int / 4 + i),
        ),
        Step::AttentionScores {
            query,
            k_cache,
            scores,
            head_dim,
            nq,
            heads_per_group,
            max_seq,
            seq_len,
            scale_dim,
            layer,
            ..
        } => {
            let (hd, ms) = (head_dim as int, max_seq as int);
            s.put(
                scores,
                0,
                nq * ms,
                |i: int|
                    if i % ms < seq_len {
                        (k.score)(
                            s.vector(query, i / ms * hd, hd),
                            s.cached(
                                k_cache,
                                layer as int,
                                i / ms / heads_per_group as int,
                                i % ms,
                                hd,
                            ),
                            scale_dim,
                        )
                    } else {
                        (s.at)(scores, i)
                    },
            )
        },
        Step::BatchedSoftmax { scores, nq, max_seq, seq_len, .. } => {
            let ms = max_seq as int;
            s.put(
                scores,
                0,
                nq * ms,
                |i: int|
                    if i % ms < seq_len {
                        (k.share)(s.vector(scores, i / ms * ms, seq_len as int), i % ms)
                    } else {
                        (s.at)(scores, i)
                    },
            )
        },
        Step::WeightedSum {
            scores,
            v_cache,
            output,
            output_offset,
            head_dim,
            nq,
            heads_per_group,
            max_seq,
            seq_len,
            layer,
            ..
        } => {
            let (hd, ms) = (head_dim as int, max_seq as int);
            s.put(
                output,
                output_offset as int / 4,
                nq * hd,
                |i: int|
                    (k.blend)(
                        s.vector(scores, i / hd * ms, seq_len as int),
                        Seq::new(
                            seq_len as nat,
                            |p: int|
                                (s.cache)(
                                    v_cache,
                                    layer as int,
                                    i / hd / heads_per_group as int,
                                    p,
                                    i % hd,
                                ),
                        ),
                    ),
            )
        },
        Step::Argmax { logits, token, n } => s.put(
            token,
            0,
            1,
            |i: int| (k.largest)(s.vector(logits, 0, n as int)),
        ),
        Step::ArgmaxAt { logits, logits_offset, token, token_offset, n, .. } => s.put(
            token,
            token_offset as int / 4,
            1,
            |i: int| (k.largest)(s.vector(logits, logits_offset as int / 4, n as int)),
        ),
        Step::GroupNorm { x, weight, bias, channels, hw, num_groups, eps } => {
            let size = channels as int / num_groups as int * hw;
            s.put(
                x,
                0,
                channels * hw,
                |i: int|
                    (k.group_norm)(
                        s.vector(x, i / size * size, size),
                        i % size,
                        eps,
                        (s.at)(weight, i / hw as int),
                        (s.at)(bias, i / hw as int),
                    ),
            )
        },
        Step::Silu { x, n } => s.put(x, 0, n as int, |i: int| (k.silu)((s.at)(x, i))),
        Step::UpsampleNearest { input, output, h, w, n, .. } => s.put(
            output,
            0,
            n as int,
            |i: int|
                {
                    let line = i / (2 * w);
                    (s.at)(
                        input,
                        (line / (2 * h) * h + line % (2 * h) / 2) * w + i % (2 * w) / 2,
                    )
                },
        ),
        _ => s,
    }
}

/// The memory after an action: `operands` are what the host uploads to a buffer, and
/// `junk` what a new buffer holds. The KV cache that is acquired is the one that is
/// there.
pub open spec fn after_action(
    k: VectorKernels,
    operands: spec_fn(Buf, int) -> u32,
    junk: spec_fn(Buf, int) -> u32,
    s: DeviceMemory,
    a: Action,
) -> DeviceMemory {
    match a {
        Action::Alloc { buf, bytes, .. } => s.put(
            buf,
            0,
            bytes as int / 4,
            |i: int| junk(buf, i),
        ),
        Action::Upload { buf, floats } => s.put(buf, 0, floats as int, |i: int| operands(buf, i)),
        Action::Dispatch(step) => after_launch(k, s, step),
        Action::Download { buf, floats } => DeviceMemory {
            read: s.vector(buf, 0, floats as int),
            ..s
        },
        Action::ReadToken => DeviceMemory { read: s.vector(Buf::TokenId, 0, 1), ..s },
        Action::ReadTokens { count } => DeviceMemory {
            read: s.vector(Buf::TokenId, 0, count as int),
            ..s
        },
        _ => s,
    }
}

/// The memory after the first `n` actions of a plan.
pub open spec fn after_some(
    k: VectorKernels,
    operands: spec_fn(Buf, int) -> u32,
    junk: spec_fn(Buf, int) -> u32,
    s: DeviceMemory,
    plan: Seq<Action>,
    n: nat,
) -> DeviceMemory
    decreases n,
{
    if n == 0 {
        s
    } else {
        after_action(
            k,
            operands,
            junk,
            after_some(k, operands, junk, s, plan, (n - 1) as nat),
            plan[n - 1],
        )
    }
}

/// The memory after a plan.
pub open spec fn after_plan(
    k: VectorKernels,
    operands: spec_fn(Buf, int) -> u32,
    junk: spec_fn(Buf, int) -> u32,
    s: DeviceMemory,
    plan: Seq<Action>,
) -> DeviceMemory {
    after_some(k, operands, junk, s, plan, plan.len())
}

proof fn lemma_prefix(
    k: VectorKernels,
    operands: spec_fn(Buf, int) -> u32,
    junk: spec_fn(Buf, int) -> u32,
    s: DeviceMemory,
    a: Seq<Action>,
    b: Seq<Action>,
    n: nat,
)
    requires
        n <= a.len(),
        n <= b.len(),
        forall|i: int| 0 <= i < n ==> a[i] == b[i],
    ensures
        after_some(k, operands, junk, s, a, n) == after_some(k, operands, junk, s, b, n),
    decreases n,
{
    if n > 0 {
        lemma_prefix(k, operands, junk, s, a, b, (n - 1) as nat);
    }
}

proof fn lemma_concat(
    k: VectorKernels,
    operands: spec_fn(Buf, int) -> u32,
    junk: spec_fn(Buf, int) -> u32,
    s: DeviceMemory,
    a: Seq<Action>,
    b: Seq<Action>,
    n: nat,
)
    requires
        n <= b.len(),
    ensures
        after_some(k, operands, junk, s, a + b, a.len() + n) == after_some(
            k,
            operands,
            junk,
            after_plan(k, operands, junk, s, a),
            b,
            n,
        ),
    decreases n,
{
    if n == 0 {
        lemma_prefix(k, operands, junk, s, a + b, a, a.len());
    } else {
        lemma_concat(k, operands, junk, s, a, b, (n - 1) as nat);
        assert((a + b)[a.len() + n - 1] == b[n - 1]);
    }
}

/// A plan after another goes on from where the first ended.
pub proof fn lemma_in_turn(
    k: VectorKernels,
    operands: spec_fn(Buf, int) -> u32,
    junk: spec_fn(Buf, int) -> u32,
    s: DeviceMemory,
    a: Seq<Action>,
    b: Seq<Action>,
)
    ensures
        after_plan(k, operands, junk, s, a + b) == after_plan(
            k,
            operands,
            junk,
            after_plan(k, operands, junk, s, a),
            b,
        ),
{
    lemma_concat(k, operands, junk, s, a, b, b.len());
}

/// A row of a batched product.
pub proof fn lemma_product_row(
    k: VectorKernels,
    s: DeviceMemory,
    ternary: bool,
    weight: Buf,
    input: Buf,
    input_from: int,
    output: Buf,
    output_from: int,
    n_rows: int,
    width: int,
    batch: int,
    b: int,
)
    requires
        0 <= b < batch,
        n_rows >= 0,
    ensures
        product_launched(
            k,
            s,
            ternary,
            weight,
            input,
            input_from,
            output,
            output_from,
            n_rows,
            width,
            batch,
        ).vector(output, output_from + b * n_rows, n_rows) == rows_times(
            k,
            ternary,
            weight,
            0,
            n_rows,
            s.vector(input, input_from + b * width, width),
        ),
{
    let after = product_launched(
        k,
        s,
        ternary,
        weight,
        input,
        input_from,
        output,
        output_from,
        n_rows,
        width,
        batch,
    );
    let got = after.vector(output, output_from + b * n_rows, n_rows);
    let goal = rows_times(
        k,
        ternary,
        weight,
        0,
        n_rows,
        s.vector(input, input_from + b * width, width),
    );
    assert forall|r: int| 0 <= r < n_rows implies #[trigger] got[r] == goal[r] by {
        planes::lemma_matrix_index(b, r, batch, n_rows);
    }
    assert(got =~= goal);
}

/// A row of batched norms.
pub proof fn lemma_norm_row(
    k: VectorKernels,
    s: DeviceMemory,
    weight: Buf,
    eps: u32,
    input: Buf,
    input_from: int,
    output: Buf,
    n: int,
    batch: int,
    b: int,
)
    requires
        0 <= b < batch,
        n >= 0,
    ensures
        norm_launched(k, s, weight, eps, input, input_from, output, n, batch).vector(
            output,
            b * n,
            n,
        ) == normalised(
            k,
            s.vector(weight, 0, n),
            eps,
            s.vector(input, input_from + b * n, n),
        ),
{
    let after = norm_launched(k, s, weight, eps, input, input_from, output, n, batch);
    let got = after.vector(output, b * n, n);
    let goal = normalised(k, s.vector(weight, 0, n), eps, s.vector(input, input_from + b * n, n));
    assert forall|r: int| 0 <= r < n implies #[trigger] got[r] == goal[r] by {
        planes::lemma_matrix_index(b, r, batch, n);
    }
    assert(got =~= goal);
}

} // verus!

//! Carrying plans of products, convolutions and attention out, given what their
//! kernels compute.

use vstd::prelude::*;

use crate::arith::Arith;
use crate::gpu_backend::metal_graph::device::{Action, Buf, Step};
use crate::gpu_backend::metal_graph::planes;

verus! {

/// What kernels compute, and what a new buffer holds.
pub struct Kernels {
    /// Product of a weight row and an input row.
    pub dot: spec_fn(Seq<u32>, Seq<u32>) -> u32,
    /// Product of a row of resident ternary weights and an input row.
    pub ternary: spec_fn(Buf, int, Seq<u32>) -> u32,
    /// Attention of queries, keys and values, by heads, tokens, width and scale.
    pub attention: spec_fn((u32, u32, u32, usize), Seq<u32>, Seq<u32>, Seq<u32>) -> Seq<u32>,
    /// Contents that a new buffer happens to have.
    pub junk: spec_fn(Buf, int) -> u32,
}

/// What the host hands to a plan: operands by the buffer that they go to, the
/// resident weight, and a convolution's bias and output shape.
pub struct Host {
    /// Operands.
    pub operands: Map<Buf, Seq<u32>>,
    /// The weight.
    pub weight: Seq<u32>,
    /// The bias.
    pub bias: Seq<u32>,
    /// Output channels.
    pub channels: int,
    /// Output positions.
    pub spatial: int,
}

/// What device and host hold while a plan is carried out.
pub struct Machine {
    /// Device buffers.
    pub buffers: Map<Buf, Seq<u32>>,
    /// What was read back last.
    pub read: Seq<u32>,
    /// The output plane; reading back a whole plane makes it the output.
    pub plane: Seq<u32>,
}

/// A buffer whose first elements have been written.
pub open spec fn written(old: Seq<u32>, new: Seq<u32>) -> Seq<u32> {
    new + old.skip(new.len() as int)
}

/// Element of an input plane under a kernel element: kernel row, kernel column,
/// then channel; zero outside the plane.
pub open spec fn gathered(
    input: Seq<u32>,
    c_in: int,
    h: int,
    w: int,
    k: int,
    pad: int,
    w_out: int,
    s: int,
    e: int,
) -> u32 {
    let row = s / w_out + e / c_in / k - pad;
    let col = s % w_out + e / c_in % k - pad;
    if 0 <= row < h && 0 <= col < w {
        input[e % c_in * (h * w) + row * w + col]
    } else {
        0
    }
}

/// The first `dim` elements that are gathered at a position.
pub open spec fn gathered_patch(
    input: Seq<u32>,
    c_in: int,
    h: int,
    w: int,
    k: int,
    pad: int,
    w_out: int,
    dim: int,
    s: int,
) -> Seq<u32> {
    Seq::new(dim as nat, |e: int| gathered(input, c_in, h, w, k, pad, w_out, s, e))
}

impl Machine {
    /// With other contents in a buffer.
    pub open spec fn with(self, buf: Buf, contents: Seq<u32>) -> Machine {
        Machine { buffers: self.buffers.insert(buf, contents), ..self }
    }

    /// With a buffer's first elements written.
    pub open spec fn put(self, buf: Buf, new: Seq<u32>) -> Machine {
        self.with(buf, written(self.buffers[buf], new))
    }
}

/// The machine after a launch of a product, of patch gathering, of a convolution
/// or of attention. Other kernels are not described: none of these plans launches
/// one.
pub open spec fn launched(kernels: Kernels, host: Host, s: Machine, step: Step) -> Machine {
    match step {
        Step::Im2col { input, patches, c_in, h, w, k, pad, w_out, row_start, n_elems } => {
            let dim = k * k * c_in;
            s.put(
                patches,
                Seq::new(
                    n_elems as nat,
                    |e: int|
                        gathered(
                            s.buffers[input],
                            c_in as int,
                            h as int,
                            w as int,
                            k as int,
                            pad as int,
                            w_out as int,
                            row_start + e / dim,
                            e % dim,
                        ),
                ),
            )
        },
        Step::GemmF32 { input, output, n_rows, k, batch, .. } => s.put(
            output,
            Seq::new(
                (batch * n_rows) as nat,
                |q: int|
                    (kernels.dot)(
                        host.weight.subrange(
                            q % n_rows as int * k,
                            q % n_rows as int * k + k,
                        ),
                        s.buffers[input].subrange(
                            q / n_rows as int * k,
                            q / n_rows as int * k + k,
                        ),
                    ),
            ),
        ),
        Step::GemmTq2V10 { weight, input, output, n_rows, k, batch } => s.put(
            output,
            Seq::new(
                (batch * n_rows) as nat,
                |q: int|
                    (kernels.ternary)(
                        weight,
                        q % n_rows as int,
                        s.buffers[input].subrange(
                            q / n_rows as int * k,
                            q / n_rows as int * k + k,
                        ),
                    ),
            ),
        ),
        Step::Conv2dImplicit {
            input,
            output,
            c_out,
            spatial,
            patch_dim,
            c_in,
            h,
            w,
            k,
            pad,
            w_out,
            ..
        } => s.put(
            output,
            Seq::new(
                (c_out * spatial) as nat,
                |i: int|
                    (kernels.dot)(
                        host.weight.subrange(
                            i / spatial as int * patch_dim,
                            i / spatial as int * patch_dim + patch_dim,
                        ),
                        gathered_patch(
                            s.buffers[input],
                            c_in as int,
                            h as int,
                            w as int,
                            k as int,
                            pad as int,
                            w_out as int,
                            patch_dim as int,
                            i % spatial as int,
                        ),
                    ),
            ),
        ),
        Step::JointAttentionFlash { query, key, value, out, num_heads, seq, head_dim, scale_dim } => {
            let n = num_heads * seq * head_dim;
            s.put(
                out,
                (kernels.attention)(
                    (num_heads, seq, head_dim, scale_dim),
                    s.buffers[query].take(n),
                    s.buffers[key].take(n),
                    s.buffers[value].take(n),
                ),
            )
        },
        _ => s,
    }
}

/// The machine after an action. Commits, and records of what stays, move no data.
pub open spec fn acted<T: Arith>(
    t: &T,
    kernels: Kernels,
    host: Host,
    s: Machine,
    a: Action,
) -> Machine {
    match a {
        Action::Alloc { buf, bytes, .. } => s.with(
            buf,
            Seq::new((bytes / 4) as nat, |i: int| (kernels.junk)(buf, i)),
        ),
        Action::Upload { buf, floats } => s.put(buf, host.operands[buf].take(floats as int)),
        Action::Dispatch(step) => launched(kernels, host, s, step),
        Action::Download { buf, floats } => {
            let read = s.buffers[buf].take(floats as int);
            Machine {
                read,
                plane: if floats == host.channels * host.spatial {
                    read
                } else {
                    s.plane
                },
                ..s
            }
        },
        Action::ScatterTile { row_start, rows } => Machine {
            plane: planes::scattered(
                s.plane,
                s.read,
                row_start as int,
                rows as int,
                host.channels,
                host.spatial,
            ),
            ..s
        },
        Action::AddBias { spatial, .. } => Machine {
            plane: planes::biased(t, s.plane, host.bias, spatial as int),
            ..s
        },
        _ => s,
    }
}

/// The machine after the first `n` actions of a plan.
pub open spec fn carried<T: Arith>(
    t: &T,
    kernels: Kernels,
    host: Host,
    s: Machine,
    plan: Seq<Action>,
    n: nat,
) -> Machine
    decreases n,
{
    if n == 0 {
        s
    } else {
        acted(t, kernels, host, carried(t, kernels, host, s, plan, (n - 1) as nat), plan[n - 1])
    }
}

/// The machine after a whole plan.
pub open spec fn carried_out<T: Arith>(
    t: &T,
    kernels: Kernels,
    host: Host,
    s: Machine,
    plan: Seq<Action>,
) -> Machine {
    carried(t, kernels, host, s, plan, plan.len())
}

proof fn lemma_carried_prefix<T: Arith>(
    t: &T,
    kernels: Kernels,
    host: Host,
    s: Machine,
    a: Seq<Action>,
    b: Seq<Action>,
    n: nat,
)
    requires
        n <= a.len(),
        n <= b.len(),
        forall|i: int| 0 <= i < n ==> a[i] == b[i],
    ensures
        carried(t, kernels, host, s, a, n) == carried(t, kernels, host, s, b, n),
    decreases n,
{
    if n > 0 {
        lemma_carried_prefix(t, kernels, host, s, a, b, (n - 1) as nat);
    }
}

proof fn lemma_carried_concat<T: Arith>(
    t: &T,
    kernels: Kernels,
    host: Host,
    s: Machine,
    a: Seq<Action>,
    b: Seq<Action>,
    n: nat,
)
    requires
        n <= b.len(),
    ensures
        carried(t, kernels, host, s, a + b, a.len() + n) == carried(
            t,
            kernels,
            host,
            carried_out(t, kernels, host, s, a),
            b,
            n,
        ),
    decreases n,
{
    if n == 0 {
        lemma_carried_prefix(t, kernels, host, s, a + b, a, a.len());
    } else {
        lemma_carried_concat(t, kernels, host, s, a, b, (n - 1) as nat);
        assert((a + b)[a.len() + n - 1] == b[n - 1]);
    }
}

/// A plan after another goes on from where the first ended.
pub proof fn law_plans_are_carried_out_in_turn<T: Arith>(
    t: &T,
    kernels: Kernels,
    host: Host,
    s: Machine,
    a: Seq<Action>,
    b: Seq<Action>,
)
    ensures
        carried_out(t, kernels, host, s, a + b) == carried_out(
            t,
            kernels,
            host,
            carried_out(t, kernels, host, s, a),
            b,
        ),
{
    lemma_carried_concat(t, kernels, host, s, a, b, b.len());
}

} // verus!

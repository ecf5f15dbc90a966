//! What device work reads back, given what kernels compute of vectors.

use vstd::prelude::*;

use crate::algebra;
use crate::arith;
use crate::arith::Arith;
use crate::blocks::BlockTQ2_0_g128;
use crate::float_laws;
use crate::gpu_backend::backend::{GpuWeightHandle, QkvVectors};
use crate::gpu_backend::cpu;
use crate::gpu_backend::error::GpuError;
use crate::gpu_backend::launch::DeviceBuffer;
use crate::gpu_backend::metal_graph::planes;
use crate::gpu_backend::metal_graph::reformat;
use crate::gpu_backend::scirs2_backend::backend::{HandleIds, PhaseSizes, Scirs2Backend};
use crate::gpu_backend::scirs2_backend::operations;
use crate::gpu_backend::scirs2_backend::operations::Work;
use crate::gpu_backend::scirs2_backend::phases;
use crate::gpu_backend::scirs2_backend::phases::FfnWeights;
use crate::gpu_backend::scirs2_backend::steps::{
    DeviceStep, HostArg, Kernel, Launch, PhaseBuf, Slot,
};
use crate::gpu_backend::scirs2_backend::weights;
use crate::gpu_backend::scirs2_backend::weights::WeightUpload;

verus! {

/// Where packed weights come from.
pub enum Packed {
    /// The host, with this call.
    Host(HostArg),
    /// An earlier upload, under this handle.
    Resident(u64),
}

/// What kernels compute of vectors, number by number.
pub struct SlotKernels {
    /// A row of packed weights times a vector; the weights are ternary or 1-bit.
    pub dot: spec_fn(bool, Packed, int, Seq<u32>) -> u32,
    /// A row of numbers times a vector.
    pub plain: spec_fn(Seq<u32>, Seq<u32>) -> u32,
    /// A number of a normalised vector, by weights and epsilon.
    pub norm: spec_fn(Seq<u32>, u32, Seq<u32>, int) -> u32,
    /// An element's share among others.
    pub share: spec_fn(Seq<u32>, int) -> u32,
    /// The larger of a number and zero.
    pub relu: spec_fn(u32) -> u32,
    /// SiLU of a number.
    pub silu: spec_fn(u32) -> u32,
    /// SwiGLU of gate and up.
    pub swiglu: spec_fn(u32, u32) -> u32,
    /// Sum of two numbers.
    pub plus: spec_fn(u32, u32) -> u32,
}

/// What the host hands to an operation: numbers and their count.
pub struct HostData {
    /// Numbers.
    pub at: spec_fn(HostArg, int) -> u32,
    /// Their count.
    pub len: spec_fn(HostArg) -> int,
}

impl HostData {
    /// The first `n` numbers.
    pub open spec fn vector(self, from: HostArg, n: int) -> Seq<u32> {
        Seq::new(n as nat, |i: int| (self.at)(from, i))
    }
}

/// The device's buffers, and what was read back last.
pub struct SlotMemory {
    /// Numbers.
    pub at: spec_fn(Slot, int) -> u32,
    /// Where packed weights of this call come from.
    pub packed: spec_fn(Slot) -> HostArg,
    /// What was read back last.
    pub read: Seq<u32>,
}

impl SlotMemory {
    /// `n` numbers of a buffer.
    pub open spec fn vector(self, slot: Slot, from: int, n: int) -> Seq<u32> {
        Seq::new(n as nat, |i: int| (self.at)(slot, from + i))
    }

    /// With the first `n` numbers of a buffer written.
    pub open spec fn put(self, slot: Slot, n: int, f: spec_fn(int) -> u32) -> Self {
        SlotMemory {
            at: |b: Slot, i: int|
                if b == slot && 0 <= i < n {
                    f(i)
                } else {
                    (self.at)(b, i)
                },
            ..self
        }
    }

    /// The packed weights of a buffer.
    pub open spec fn weights(self, slot: Slot) -> Packed {
        match slot {
            Slot::Resident(h) => Packed::Resident(h),
            _ => Packed::Host((self.packed)(slot)),
        }
    }
}

/// Rows of packed weights times a vector.
pub open spec fn rows_times(
    k: SlotKernels,
    ternary: bool,
    weights: Packed,
    rows: int,
    x: Seq<u32>,
) -> Seq<u32> {
    Seq::new(rows as nat, |r: int| (k.dot)(ternary, weights, r, x))
}

/// The device after a launch.
pub open spec fn after_launch(k: SlotKernels, s: SlotMemory, l: Launch) -> SlotMemory {
    let n = l.n as int;
    let width = l.k->0 as int;
    match l.kernel {
        Kernel::Matvec => s.put(
            l.result->0,
            n,
            |i: int| (k.plain)(s.vector(l.x, i * width, width), s.vector(l.y->0, 0, width)),
        ),
        Kernel::Relu => s.put(l.result->0, n, |i: int| (k.relu)((s.at)(l.x, i))),
        Kernel::Softmax => s.put(l.result->0, n, |i: int| (k.share)(s.vector(l.x, 0, n), i)),
        Kernel::Rmsnorm => s.put(
            l.result->0,
            n,
            |i: int| (k.norm)(s.vector(l.y->0, 0, n), l.alpha->0, s.vector(l.x, 0, n), i),
        ),
        Kernel::Silu => s.put(l.result->0, n, |i: int| (k.silu)((s.at)(l.x, i))),
        Kernel::Q1Gemv => s.put(
            l.result->0,
            n,
            |i: int| (k.dot)(false, s.weights(l.x), i, s.vector(l.y->0, 0, width)),
        ),
        Kernel::Q1Gemm => s.put(
            l.result->0,
            l.m->0 * n,
            |i: int|
                (k.dot)(
                    false,
                    s.weights(l.x),
                    i % n,
                    s.vector(l.y->0, i / n * width, width),
                ),
        ),
        Kernel::Tq2Gemv => s.put(
            l.result->0,
            n,
            |i: int| (k.dot)(true, s.weights(l.x), i, s.vector(l.y->0, 0, width)),
        ),
        Kernel::Swiglu => s.put(
            l.result->0,
            n,
            |i: int| (k.swiglu)((s.at)(l.x, i), (s.at)(l.x, n + i)),
        ),
        Kernel::ResidualAdd => s.put(
            l.x,
            n,
            |i: int| (k.plus)((s.at)(l.x, i), (s.at)(l.y->0, i)),
        ),
        Kernel::RmsnormWeighted => s.put(
            l.result->0,
            n,
            |i: int| (k.norm)(s.vector(l.y->0, 0, n), l.alpha->0, s.vector(l.x, 0, n), i),
        ),
    }
}

/// The device after a step; `junk` is what a new buffer holds.
pub open spec fn after_step(
    k: SlotKernels,
    host: HostData,
    junk: spec_fn(Slot, int) -> u32,
    s: SlotMemory,
    step: DeviceStep,
) -> SlotMemory {
    match step {
        DeviceStep::Create { slot, len } => s.put(slot, len as int, |i: int| junk(slot, i)),
        DeviceStep::Upload { slot, from } => {
            let with = s.put(slot, (host.len)(from), |i: int| (host.at)(from, i));
            SlotMemory {
                packed: |b: Slot|
                    if b == slot {
                        from
                    } else {
                        (s.packed)(b)
                    },
                ..with
            }
        },
        DeviceStep::CopyIn { slot, from } => s.put(
            slot,
            (host.len)(from),
            |i: int| (host.at)(from, i),
        ),
        DeviceStep::Run(l) => after_launch(k, s, l),
        DeviceStep::Read { slot, count } => SlotMemory {
            read: s.vector(slot, 0, count as int),
            ..s
        },
    }
}

/// The device after the first `n` steps.
pub open spec fn after_some(
    k: SlotKernels,
    host: HostData,
    junk: spec_fn(Slot, int) -> u32,
    s: SlotMemory,
    plan: Seq<DeviceStep>,
    n: nat,
) -> SlotMemory
    decreases n,
{
    if n == 0 {
        s
    } else {
        after_step(
            k,
            host,
            junk,
            after_some(k, host, junk, s, plan, (n - 1) as nat),
            plan[n - 1],
        )
    }
}

/// What is read back after all steps.
pub open spec fn read_back(
    k: SlotKernels,
    host: HostData,
    junk: spec_fn(Slot, int) -> u32,
    s: SlotMemory,
    plan: Seq<DeviceStep>,
) -> Seq<u32> {
    after_some(k, host, junk, s, plan, plan.len()).read
}

/// The steps' launches have workgroups for all elements and rows, `each` to a workgroup,
/// and one fewer would not do.
pub open spec fn launches_cover(plan: Seq<DeviceStep>, each: int) -> bool {
    forall|i: int|
        0 <= i < plan.len() && plan[i] is Run ==> {
            let l = (#[trigger] plan[i])->Run_0;
            &&& l.groups_x * each >= l.n
            &&& l.n > 0 ==> (l.groups_x - 1) * each < l.n
            &&& match l.m {
                None => l.groups_y == 1,
                Some(m) => l.groups_y * each >= m && (m > 0 ==> (l.groups_y - 1) * each < m),
            }
        }
}

/// A 1-bit product reads back the blocks' rows times the input. It is accepted exactly
/// where columns make whole blocks, the blocks are there and the input has a number for
/// every column; a missing kernel alone fails it then.
pub proof fn law_one_bit_gemv(
    b: &mut Scirs2Backend,
    bytes_len: usize,
    input_len: usize,
    n_rows: usize,
    width: usize,
    r: Result<Vec<DeviceStep>, GpuError>,
    k: SlotKernels,
    host: HostData,
    junk: spec_fn(Slot, int) -> u32,
    s: SlotMemory,
)
    requires
        n_rows <= u32::MAX,
        width <= u32::MAX,
        (host.len)(HostArg::Input) == input_len,
        call_ensures(
            Scirs2Backend::gemv_q1_g128,
            (b, bytes_len, input_len, n_rows, width),
            r,
        ),
    ensures
        ({
            let accepted = width > 0 && width % 128 == 0 && bytes_len >= n_rows * (width / 128) * 18
                && input_len == width;
            &&& operations::gemv_fault(bytes_len, input_len, n_rows, width) is None <==> accepted
            &&& r is Ok ==> accepted
        }),
        r matches Ok(plan) ==> {
            &&& read_back(k, host, junk, s, plan@) == rows_times(
                k,
                false,
                Packed::Host(HostArg::Blocks),
                n_rows as int,
                host.vector(HostArg::Input, width as int),
            )
            &&& launches_cover(plan@, 256)
        },
{
    if r is Ok {
        let plan = r->Ok_0@;
        let n = plan.len();
        reveal_with_fuel(after_some, 7);
        let run = after_some(k, host, junk, s, plan, (n - 2) as nat);
        assert(run.vector(Slot::PoolInput, 0, width as int) =~= host.vector(
            HostArg::Input,
            width as int,
        ));
        assert(read_back(k, host, junk, s, plan) =~= rows_times(
            k,
            false,
            Packed::Host(HostArg::Blocks),
            n_rows as int,
            host.vector(HostArg::Input, width as int),
        ));
    }
}

/// A 1-bit product with `m` vectors reads back, vector by vector, the blocks' rows times
/// the vector.
pub proof fn law_one_bit_gemm(
    b: &mut Scirs2Backend,
    bytes_len: usize,
    input_len: usize,
    m: usize,
    n_rows: usize,
    width: usize,
    r: Result<Vec<DeviceStep>, GpuError>,
    k: SlotKernels,
    host: HostData,
    junk: spec_fn(Slot, int) -> u32,
    s: SlotMemory,
)
    requires
        m <= u32::MAX,
        n_rows <= u32::MAX,
        width <= u32::MAX,
        m * n_rows <= usize::MAX,
        m * width <= usize::MAX,
        (host.len)(HostArg::Input) == input_len,
        call_ensures(
            Scirs2Backend::gemm_q1_g128,
            (b, bytes_len, input_len, m, n_rows, width),
            r,
        ),
    ensures
        ({
            let accepted = width > 0 && width % 128 == 0 && bytes_len >= n_rows * (width / 128) * 18
                && input_len == m * width;
            &&& operations::gemm_fault(bytes_len, input_len, m, n_rows, width) is None
                <==> accepted
            &&& r is Ok ==> accepted
        }),
        r matches Ok(plan) ==> {
            let read = read_back(k, host, junk, s, plan@);
            &&& read.len() == m * n_rows
            &&& forall|v: int, row: int|
                0 <= v < m && 0 <= row < n_rows ==> #[trigger] read[v * n_rows + row] == (k.dot)(
                    false,
                    Packed::Host(HostArg::Blocks),
                    row,
                    Seq::new(
                        width as nat,
                        |i: int| (host.at)(HostArg::Input, v * width + i),
                    ),
                )
            &&& launches_cover(plan@, 256)
        },
{
    if r is Ok {
        let plan = r->Ok_0@;
        let n = plan.len();
        reveal_with_fuel(after_some, 7);
        let run = after_some(k, host, junk, s, plan, (n - 2) as nat);
        let read = read_back(k, host, junk, s, plan);
        assert(forall|i: int|
            0 <= i < m * width ==> #[trigger] (run.at)(Slot::PoolInput, i) == (host.at)(
                HostArg::Input,
                i,
            ));
        assert forall|v: int, row: int| 0 <= v < m && 0 <= row < n_rows implies #[trigger] read[v
            * n_rows + row] == (k.dot)(
            false,
            Packed::Host(HostArg::Blocks),
            row,
            Seq::new(width as nat, |i: int| (host.at)(HostArg::Input, v * width + i)),
        ) by {
            planes::lemma_matrix_index(v, row, m as int, n_rows as int);
            let x = Seq::new(width as nat, |i: int| (host.at)(HostArg::Input, v * width + i));
            assert forall|i: int| 0 <= i < width implies 0 <= #[trigger] (v * width + i) < m
                * width by {
                planes::lemma_matrix_index(v, i, m as int, width as int);
            }
            assert(run.vector(Slot::PoolInput, v * width, width as int) =~= x);
        }
    }
}

/// A product with resident weights reads back the weights' rows times the input: 1-bit or
/// ternary, as it is asked for. The handle must be one that weights were uploaded under.
pub proof fn law_resident_gemv(
    b: &mut Scirs2Backend,
    handle: GpuWeightHandle,
    input_len: usize,
    n_rows: usize,
    width: usize,
    r: Result<Vec<DeviceStep>, GpuError>,
    ternary: bool,
    k: SlotKernels,
    host: HostData,
    junk: spec_fn(Slot, int) -> u32,
    s: SlotMemory,
)
    requires
        n_rows <= u32::MAX,
        width <= u32::MAX,
        (host.len)(HostArg::Input) == input_len,
        if ternary {
            call_ensures(
                Scirs2Backend::gemv_tq2_g128_cached,
                (b, handle, input_len, n_rows, width),
                r,
            )
        } else {
            call_ensures(
                Scirs2Backend::gemv_q1_g128_cached,
                (b, handle, input_len, n_rows, width),
                r,
            )
        },
    ensures
        r is Ok ==> width > 0 && width % 128 == 0 && input_len == width
            && old(b).state.weights@.contains_key(handle.0),
        r matches Ok(plan) ==> {
            &&& read_back(k, host, junk, s, plan@) == rows_times(
                k,
                ternary,
                Packed::Resident(handle.0),
                n_rows as int,
                host.vector(HostArg::Input, width as int),
            )
            &&& launches_cover(
                plan@,
                if ternary {
                    8
                } else {
                    256
                },
            )
        },
{
    if r is Ok {
        let plan = r->Ok_0@;
        reveal_with_fuel(after_some, 5);
        let run = after_some(k, host, junk, s, plan, 2);
        assert(run.vector(Slot::First, 0, width as int) =~= host.vector(
            HostArg::Input,
            width as int,
        ));
        assert(read_back(k, host, junk, s, plan) =~= rows_times(
            k,
            ternary,
            Packed::Resident(handle.0),
            n_rows as int,
            host.vector(HostArg::Input, width as int),
        ));
    }
}

/// Element-wise operations read back what they make of every number, and softmax every
/// number's share among all.
pub proof fn law_element_operations(
    b: &mut Scirs2Backend,
    n: usize,
    r: Result<Vec<DeviceStep>, GpuError>,
    k: SlotKernels,
    host: HostData,
    junk: spec_fn(Slot, int) -> u32,
    s: SlotMemory,
)
    requires
        n <= u32::MAX,
        (host.len)(HostArg::Input) == n,
        r is Ok,
    ensures
        ({
            let read = read_back(k, host, junk, s, r->Ok_0@);
            let x = host.vector(HostArg::Input, n as int);
            &&& call_ensures(Scirs2Backend::silu, (b, n), r) ==> read == Seq::new(
                n as nat,
                |i: int| (k.silu)(x[i]),
            ) && launches_cover(r->Ok_0@, 256)
            &&& call_ensures(Scirs2Backend::relu_gpu, (b, n), r) ==> read == Seq::new(
                n as nat,
                |i: int| (k.relu)(x[i]),
            ) && launches_cover(r->Ok_0@, 256)
            &&& call_ensures(Scirs2Backend::softmax_gpu, (b, n), r) ==> read == Seq::new(
                n as nat,
                |i: int| (k.share)(x, i),
            ) && launches_cover(r->Ok_0@, 256)
        }),
{
    reveal_with_fuel(after_some, 5);
    let plan = r->Ok_0@;
    let run = after_some(k, host, junk, s, plan, 2);
    let x = host.vector(HostArg::Input, n as int);
    let read = read_back(k, host, junk, s, plan);
    if call_ensures(Scirs2Backend::silu, (b, n), r) {
        assert(read =~= Seq::new(n as nat, |i: int| (k.silu)(x[i])));
    }
    if call_ensures(Scirs2Backend::relu_gpu, (b, n), r) {
        assert(read =~= Seq::new(n as nat, |i: int| (k.relu)(x[i])));
    }
    if call_ensures(Scirs2Backend::softmax_gpu, (b, n), r) {
        assert(run.vector(Slot::First, 0, n as int) =~= x);
        assert(read =~= Seq::new(n as nat, |i: int| (k.share)(x, i)));
    }
}

/// A normalisation reads back the input, normalised by weights and epsilon; input and
/// weights have the same length.
pub proof fn law_normalisation(
    b: &mut Scirs2Backend,
    input_len: usize,
    weight_len: usize,
    eps: u32,
    r: Result<Vec<DeviceStep>, GpuError>,
    k: SlotKernels,
    host: HostData,
    junk: spec_fn(Slot, int) -> u32,
    s: SlotMemory,
)
    requires
        input_len <= u32::MAX,
        (host.len)(HostArg::Input) == input_len,
        (host.len)(HostArg::Weight) == weight_len,
        call_ensures(Scirs2Backend::rmsnorm, (b, input_len, weight_len, eps), r),
    ensures
        operations::rmsnorm_fault(input_len, weight_len) is None <==> input_len == weight_len,
        r is Ok ==> input_len == weight_len,
        r matches Ok(plan) ==> {
            &&& read_back(k, host, junk, s, plan@) == Seq::new(
                input_len as nat,
                |i: int|
                    (k.norm)(
                        host.vector(HostArg::Weight, input_len as int),
                        eps,
                        host.vector(HostArg::Input, input_len as int),
                        i,
                    ),
            )
            &&& launches_cover(plan@, 256)
        },
{
    if r is Ok {
        let plan = r->Ok_0@;
        reveal_with_fuel(after_some, 6);
        let run = after_some(k, host, junk, s, plan, 3);
        let n = input_len as int;
        assert(run.vector(Slot::First, 0, n) =~= host.vector(HostArg::Input, n));
        assert(run.vector(Slot::Second, 0, n) =~= host.vector(HostArg::Weight, n));
    }
}

/// A matrix-vector product reads back the matrix's rows times the vector.
pub proof fn law_matrix_times_vector(
    b: &mut Scirs2Backend,
    m: usize,
    width: usize,
    r: Result<Vec<DeviceStep>, GpuError>,
    k: SlotKernels,
    host: HostData,
    junk: spec_fn(Slot, int) -> u32,
    s: SlotMemory,
)
    requires
        m <= u32::MAX,
        width <= u32::MAX,
        (host.len)(HostArg::Input) == m * width,
        (host.len)(HostArg::Weight) == width,
        call_ensures(Scirs2Backend::matvec_gpu, (b, m, width), r),
        r is Ok,
    ensures
        ({
            let read = read_back(k, host, junk, s, r->Ok_0@);
            &&& read.len() == m
            &&& forall|row: int|
                0 <= row < m ==> #[trigger] read[row] == (k.plain)(
                    Seq::new(
                        width as nat,
                        |i: int| (host.at)(HostArg::Input, row * width + i),
                    ),
                    host.vector(HostArg::Weight, width as int),
                )
            &&& launches_cover(r->Ok_0@, 256)
        }),
{
    let plan = r->Ok_0@;
    reveal_with_fuel(after_some, 6);
    let run = after_some(k, host, junk, s, plan, 3);
    let read = read_back(k, host, junk, s, plan);
    assert(run.vector(Slot::Second, 0, width as int) =~= host.vector(
        HostArg::Weight,
        width as int,
    ));
    assert forall|row: int| 0 <= row < m implies #[trigger] read[row] == (k.plain)(
        Seq::new(width as nat, |i: int| (host.at)(HostArg::Input, row * width + i)),
        host.vector(HostArg::Weight, width as int),
    ) by {
        assert forall|i: int| 0 <= i < width implies 0 <= #[trigger] (row * width + i) < m
            * width by {
            planes::lemma_matrix_index(row, i, m as int, width as int);
        }
        assert(run.vector(Slot::First, row * width, width as int) =~= Seq::new(
            width as nat,
            |i: int| (host.at)(HostArg::Input, row * width + i),
        ));
    }
}

/// Ahead of attention, the projections' rows times the normalised hidden state are read
/// back.
pub proof fn law_attention_phase(
    b: &mut Scirs2Backend,
    eps: u32,
    qkv: GpuWeightHandle,
    q_rows: usize,
    k_rows: usize,
    h: usize,
    r: Result<Vec<DeviceStep>, GpuError>,
    k: SlotKernels,
    host: HostData,
    junk: spec_fn(Slot, int) -> u32,
    s: SlotMemory,
)
    requires
        h <= u32::MAX,
        q_rows + 2 * k_rows <= u32::MAX,
        (host.len)(HostArg::Hidden) >= h,
        (host.len)(HostArg::NormWeight) >= h,
        call_ensures(Scirs2Backend::batch_attn_phase, (b, eps, qkv, q_rows, k_rows, h), r),
        r is Ok,
    ensures
        old(b).state.weights@.contains_key(qkv.0),
        read_back(k, host, junk, s, r->Ok_0@) == rows_times(
            k,
            false,
            Packed::Resident(qkv.0),
            q_rows + 2 * k_rows,
            Seq::new(
                h as nat,
                |i: int|
                    (k.norm)(
                        host.vector(HostArg::NormWeight, h as int),
                        eps,
                        host.vector(HostArg::Hidden, h as int),
                        i,
                    ),
            ),
        ),
{
    let plan = r->Ok_0@;
    let n = h as int;
    let normed = Seq::new(
        h as nat,
        |i: int|
            (k.norm)(
                host.vector(HostArg::NormWeight, n),
                eps,
                host.vector(HostArg::Hidden, n),
                i,
            ),
    );
    let s4 = after_some(k, host, junk, s, plan, 4);
    assert(s4.vector(Slot::First, 0, n) =~= host.vector(HostArg::Hidden, n) && s4.vector(
        Slot::Second,
        0,
        n,
    ) =~= host.vector(HostArg::NormWeight, n)) by {
        reveal_with_fuel(after_some, 5);
    }
    let s5 = after_some(k, host, junk, s, plan, 5);
    let s6 = after_some(k, host, junk, s, plan, 6);
    assert(s5 == after_step(k, host, junk, s4, plan[4]));
    assert(s5.vector(Slot::Middle, 0, n) =~= normed);
    assert(s6 == after_step(k, host, junk, s5, plan[5]));
    assert(read_back(k, host, junk, s, plan) =~= rows_times(
        k,
        false,
        Packed::Resident(qkv.0),
        q_rows + 2 * k_rows,
        normed,
    ));
}

/// The hidden state with the projected attention output added.
pub open spec fn with_attention(
    k: SlotKernels,
    host: HostData,
    w: FfnWeights,
    sizes: PhaseSizes,
) -> Seq<u32> {
    let attended = host.vector(HostArg::AttnOut, sizes.attn_out as int);
    Seq::new(
        sizes.h as nat,
        |i: int|
            (k.plus)(
                (host.at)(HostArg::Hidden, i),
                (k.dot)(false, Packed::Resident(w.attn_proj.0), i, attended),
            ),
    )
}

/// Gate and up projections of the normalised hidden state, joined.
pub open spec fn activated(
    k: SlotKernels,
    host: HostData,
    eps: u32,
    w: FfnWeights,
    sizes: PhaseSizes,
) -> Seq<u32> {
    let inter = sizes.intermediate as int;
    let p = Packed::Resident(w.gate_up.0);
    let sum = with_attention(k, host, w, sizes);
    let norm = host.vector(HostArg::NormWeight, sizes.h as int);
    let x = Seq::new(sizes.h as nat, |i: int| (k.norm)(norm, eps, sum, i));
    Seq::new(
        inter as nat,
        |i: int| (k.swiglu)((k.dot)(false, p, i, x), (k.dot)(false, p, inter + i, x)),
    )
}

/// The hidden state, normalised.
spec fn norm_of_sum(
    k: SlotKernels,
    host: HostData,
    eps: u32,
    w: FfnWeights,
    sizes: PhaseSizes,
) -> Seq<u32> {
    let sum = with_attention(k, host, w, sizes);
    let norm = host.vector(HostArg::NormWeight, sizes.h as int);
    Seq::new(sizes.h as nat, |i: int| (k.norm)(norm, eps, sum, i))
}

/// Inputs, and the launches up to the norm.
proof fn lemma_ffn_first(
    k: SlotKernels,
    host: HostData,
    junk: spec_fn(Slot, int) -> u32,
    s0: SlotMemory,
    eps: u32,
    w: FfnWeights,
    sizes: PhaseSizes,
    hidden_len: usize,
)
    requires
        sizes.h <= u32::MAX,
        sizes.attn_out <= u32::MAX,
        (host.len)(HostArg::Hidden) >= sizes.h,
        (host.len)(HostArg::AttnOut) >= sizes.attn_out,
        (host.len)(HostArg::NormWeight) >= sizes.h,
    ensures
        ({
            let inputs = phases::ffn_inputs();
            let launches = phases::ffn_launches(eps, w, sizes, hidden_len);
            let s1 = after_step(k, host, junk, s0, inputs[0]);
            let s2 = after_step(k, host, junk, s1, inputs[1]);
            let s3 = after_step(k, host, junk, s2, inputs[2]);
            let s4 = after_step(k, host, junk, s3, launches[0]);
            let s5 = after_step(k, host, junk, s4, launches[1]);
            let s6 = after_step(k, host, junk, s5, launches[2]);
            let h = sizes.h as int;
            &&& s6.vector(Slot::Phase(PhaseBuf::Hidden), 0, h) == with_attention(k, host, w, sizes)
            &&& s6.vector(Slot::Phase(PhaseBuf::Normed), 0, h) == norm_of_sum(
                k,
                host,
                eps,
                w,
                sizes,
            )
        }),
{
    let inputs = phases::ffn_inputs();
    let launches = phases::ffn_launches(eps, w, sizes, hidden_len);
    let s1 = after_step(k, host, junk, s0, inputs[0]);
    let s2 = after_step(k, host, junk, s1, inputs[1]);
    let s3 = after_step(k, host, junk, s2, inputs[2]);
    let s4 = after_step(k, host, junk, s3, launches[0]);
    let s5 = after_step(k, host, junk, s4, launches[1]);
    let s6 = after_step(k, host, junk, s5, launches[2]);
    let (h, ao) = (sizes.h as int, sizes.attn_out as int);
    let hidden = Slot::Phase(PhaseBuf::Hidden);
    let norm = Slot::Phase(PhaseBuf::NormWeight);
    let attended = host.vector(HostArg::AttnOut, ao);
    assert(s3.vector(Slot::Phase(PhaseBuf::AttnOut), 0, ao) =~= attended);
    assert(s5.vector(norm, 0, h) =~= host.vector(HostArg::NormWeight, h));
    let sum = with_attention(k, host, w, sizes);
    assert(s5.vector(hidden, 0, h) =~= sum);
    assert(s6.vector(hidden, 0, h) =~= sum);
    assert(s6.vector(Slot::Phase(PhaseBuf::Normed), 0, h) =~= norm_of_sum(
        k,
        host,
        eps,
        w,
        sizes,
    ));
}

/// The launches behind the norm, and what is read back.
proof fn lemma_ffn_rest(
    k: SlotKernels,
    host: HostData,
    junk: spec_fn(Slot, int) -> u32,
    s6: SlotMemory,
    eps: u32,
    w: FfnWeights,
    sizes: PhaseSizes,
    hidden_len: usize,
)
    requires
        sizes.h <= u32::MAX,
        2 * sizes.intermediate <= u32::MAX,
        hidden_len <= sizes.h,
        s6.vector(Slot::Phase(PhaseBuf::Hidden), 0, sizes.h as int) == with_attention(
            k,
            host,
            w,
            sizes,
        ),
        s6.vector(Slot::Phase(PhaseBuf::Normed), 0, sizes.h as int) == norm_of_sum(
            k,
            host,
            eps,
            w,
            sizes,
        ),
    ensures
        ({
            let launches = phases::ffn_launches(eps, w, sizes, hidden_len);
            let s7 = after_step(k, host, junk, s6, launches[3]);
            let s8 = after_step(k, host, junk, s7, launches[4]);
            let s9 = after_step(k, host, junk, s8, launches[5]);
            let s10 = after_step(k, host, junk, s9, launches[6]);
            let s11 = after_step(k, host, junk, s10, launches[7]);
            s11.read == Seq::new(
                hidden_len as nat,
                |i: int|
                    (k.plus)(
                        with_attention(k, host, w, sizes)[i],
                        (k.dot)(
                            false,
                            Packed::Resident(w.down.0),
                            i,
                            activated(k, host, eps, w, sizes),
                        ),
                    ),
            )
        }),
{
    let launches = phases::ffn_launches(eps, w, sizes, hidden_len);
    let s7 = after_step(k, host, junk, s6, launches[3]);
    let s8 = after_step(k, host, junk, s7, launches[4]);
    let s9 = after_step(k, host, junk, s8, launches[5]);
    let s10 = after_step(k, host, junk, s9, launches[6]);
    let s11 = after_step(k, host, junk, s10, launches[7]);
    let (h, inter) = (sizes.h as int, sizes.intermediate as int);
    let hidden = Slot::Phase(PhaseBuf::Hidden);
    let gate_up = Slot::Phase(PhaseBuf::GateUp);
    let down = Slot::Phase(PhaseBuf::Down);
    let sum = with_attention(k, host, w, sizes);
    let x = norm_of_sum(k, host, eps, w, sizes);
    let joined = activated(k, host, eps, w, sizes);
    let g = Packed::Resident(w.gate_up.0);
    let d = Packed::Resident(w.down.0);
    assert(forall|i: int|
        0 <= i < 2 * inter ==> #[trigger] (s7.at)(gate_up, i) == (k.dot)(false, g, i, x));
    assert(s8.vector(Slot::Phase(PhaseBuf::Swiglu), 0, inter) =~= joined);
    assert(forall|i: int|
        0 <= i < h ==> #[trigger] (s9.at)(down, i) == (k.dot)(false, d, i, joined));
    assert forall|i: int| 0 <= i < h implies #[trigger] (s9.at)(hidden, i) == sum[i] by {
        assert((s6.at)(hidden, i) == s6.vector(hidden, 0, h)[i]);
    }
    assert(s11.read =~= Seq::new(
        hidden_len as nat,
        |i: int| (k.plus)(sum[i], (k.dot)(false, d, i, joined)),
    ));
}

/// The steps of the phase, one by one.
proof fn lemma_ffn_steps(
    k: SlotKernels,
    host: HostData,
    junk: spec_fn(Slot, int) -> u32,
    s: SlotMemory,
    plan: Seq<DeviceStep>,
    p: nat,
)
    requires
        plan.len() == p + 11,
    ensures
        ({
            let s0 = after_some(k, host, junk, s, plan, p);
            let q = p as int;
            let s1 = after_step(k, host, junk, s0, plan[q]);
            let s2 = after_step(k, host, junk, s1, plan[q + 1]);
            let s3 = after_step(k, host, junk, s2, plan[q + 2]);
            let s4 = after_step(k, host, junk, s3, plan[q + 3]);
            let s5 = after_step(k, host, junk, s4, plan[q + 4]);
            let s6 = after_step(k, host, junk, s5, plan[q + 5]);
            let s7 = after_step(k, host, junk, s6, plan[q + 6]);
            let s8 = after_step(k, host, junk, s7, plan[q + 7]);
            let s9 = after_step(k, host, junk, s8, plan[q + 8]);
            let s10 = after_step(k, host, junk, s9, plan[q + 9]);
            read_back(k, host, junk, s, plan) == after_step(k, host, junk, s10, plan[q + 10]).read
        }),
{
    assert(after_some(k, host, junk, s, plan, p + 1) == after_step(
        k,
        host,
        junk,
        after_some(k, host, junk, s, plan, p),
        plan[p as int],
    ));
    reveal_with_fuel(after_some, 12);
}

/// The feed-forward phase reads back the hidden state with the projected attention output
/// added, and then with the projected MLP of its norm added.
pub proof fn law_feed_forward_phase(
    b: &mut Scirs2Backend,
    eps: u32,
    w: FfnWeights,
    sizes: PhaseSizes,
    hidden_len: usize,
    r: Result<Vec<DeviceStep>, GpuError>,
    k: SlotKernels,
    host: HostData,
    junk: spec_fn(Slot, int) -> u32,
    s: SlotMemory,
)
    requires
        sizes.h <= u32::MAX,
        sizes.attn_out <= u32::MAX,
        2 * sizes.intermediate <= u32::MAX,
        hidden_len <= sizes.h,
        (host.len)(HostArg::Hidden) >= sizes.h,
        (host.len)(HostArg::AttnOut) >= sizes.attn_out,
        (host.len)(HostArg::NormWeight) >= sizes.h,
        call_ensures(Scirs2Backend::batch_ffn_phase, (b, eps, w, sizes, hidden_len), r),
        r is Ok,
    ensures
        old(b).state.weights@.contains_key(w.attn_proj.0),
        old(b).state.weights@.contains_key(w.gate_up.0),
        old(b).state.weights@.contains_key(w.down.0),
        read_back(k, host, junk, s, r->Ok_0@) == Seq::new(
            hidden_len as nat,
            |i: int|
                (k.plus)(
                    with_attention(k, host, w, sizes)[i],
                    (k.dot)(
                        false,
                        Packed::Resident(w.down.0),
                        i,
                        activated(k, host, eps, w, sizes),
                    ),
                ),
        ),
{
    let plan = r->Ok_0@;
    let p = phases::phase_steps(old(b).state.phase, sizes).len();
    let q = p as int;
    let launches = phases::ffn_launches(eps, w, sizes, hidden_len);
    let inputs = phases::ffn_inputs();
    assert(plan[q] == inputs[0] && plan[q + 1] == inputs[1] && plan[q + 2] == inputs[2]);
    assert(plan[q + 3] == launches[0] && plan[q + 4] == launches[1] && plan[q + 5] == launches[2]
        && plan[q + 6] == launches[3] && plan[q + 7] == launches[4] && plan[q + 8] == launches[5]
        && plan[q + 9] == launches[6] && plan[q + 10] == launches[7]);
    lemma_ffn_steps(k, host, junk, s, plan, p);
    let s0 = after_some(k, host, junk, s, plan, p);
    let s1 = after_step(k, host, junk, s0, inputs[0]);
    let s2 = after_step(k, host, junk, s1, inputs[1]);
    let s3 = after_step(k, host, junk, s2, inputs[2]);
    let s4 = after_step(k, host, junk, s3, launches[0]);
    let s5 = after_step(k, host, junk, s4, launches[1]);
    let s6 = after_step(k, host, junk, s5, launches[2]);
    lemma_ffn_first(k, host, junk, s0, eps, w, sizes, hidden_len);
    lemma_ffn_rest(k, host, junk, s6, eps, w, sizes, hidden_len);
}

/// The launches of a layer's phases have a workgroup for every eight rows of a product and
/// for every 256 elements of anything else, and one fewer would not do.
pub proof fn law_phase_launches_cover(
    b: &mut Scirs2Backend,
    eps: u32,
    qkv: GpuWeightHandle,
    q_rows: usize,
    k_rows: usize,
    w: FfnWeights,
    sizes: PhaseSizes,
    hidden_len: usize,
    r: Result<Vec<DeviceStep>, GpuError>,
)
    requires
        r is Ok,
        q_rows + 2 * k_rows <= u32::MAX,
        sizes.h <= u32::MAX,
        2 * sizes.intermediate <= u32::MAX,
        call_ensures(Scirs2Backend::batch_attn_phase, (b, eps, qkv, q_rows, k_rows, sizes.h), r)
            || call_ensures(Scirs2Backend::batch_ffn_phase, (b, eps, w, sizes, hidden_len), r),
    ensures
        forall|i: int|
            0 <= i < r->Ok_0@.len() && r->Ok_0@[i] is Run ==> {
                let l = (#[trigger] r->Ok_0@[i])->Run_0;
                let each = if l.kernel is Q1Gemv {
                    8int
                } else {
                    256int
                };
                &&& l.groups_x * each >= l.n
                &&& l.n > 0 ==> (l.groups_x - 1) * each < l.n
                &&& l.groups_y == 1
            },
{
}

/// Queries, keys and values are what follows one another in the joint projection.
pub proof fn law_projection_is_parted(data: &[u32], q_rows: usize, k_rows: usize, r: QkvVectors)
    requires
        data@.len() == q_rows + 2 * k_rows,
        call_ensures(phases::split_qkv, (data, q_rows, k_rows), r),
    ensures
        r.0@.len() == q_rows,
        r.1@.len() == k_rows,
        r.2@.len() == k_rows,
        r.0@ + r.1@ + r.2@ == data@,
{
}

/// Weights that are uploaded one after the other get handles of their own, under which
/// both are then resident with their bytes; raw blocks go as they are, and ternary ones
/// regrouped.
pub proof fn law_uploads_have_their_own_handles(
    b: &mut Scirs2Backend,
    later: &mut Scirs2Backend,
    ids: &mut HandleIds,
    later_ids: &mut HandleIds,
    bytes: &[u8],
    blocks: &[BlockTQ2_0_g128],
    first: Result<WeightUpload, GpuError>,
    second: Result<WeightUpload, GpuError>,
)
    requires
        call_ensures(Scirs2Backend::upload_weights_raw, (b, ids, bytes), first),
        call_ensures(Scirs2Backend::upload_weights_ternary, (later, later_ids, blocks), second),
        *later == *final(b),
        *later_ids == *final(ids),
        blocks@.len() > 0,
        blocks@.len() * 34 <= usize::MAX,
    ensures
        first is Ok && second is Ok,
        first->Ok_0.handle != second->Ok_0.handle,
        first->Ok_0.bytes@ == bytes@,
        reformat::is_regrouped(weights::ternary_aos(blocks@), second->Ok_0.bytes@, true),
        final(later).state.weights@.contains_key(first->Ok_0.handle.0),
        final(later).state.weights@.contains_key(second->Ok_0.handle.0),
{
    weights::law_ternary_upload_is_regrouped(blocks@);
    assert((34 * blocks@.len()) as int % 34 == 0);
    reformat::lemma_regrouped(weights::ternary_aos(blocks@), true);
}

/// The bytes of a ternary block as it lies in memory: its codes, then its scale, lower byte
/// first.
pub proof fn law_ternary_blocks_in_memory(blocks: Seq<BlockTQ2_0_g128>, b: int, e: int)
    requires
        0 <= b < blocks.len(),
        0 <= e < 34,
    ensures
        ({
            let byte = weights::ternary_aos(blocks)[34 * b + e];
            &&& e < 32 ==> byte == blocks[b].qs@[e]
            &&& e == 32 ==> byte == blocks[b].d % 256
            &&& e == 33 ==> byte == blocks[b].d / 256
        }),
{
    assert((34 * b + e) / 34 == b && (34 * b + e) % 34 == e);
}

/// Matrix-vector products, rectification and softmax are either device work that reads the
/// result back, or the processor's result: the sums of products, the larger of each number
/// and zero, or the shares.
pub proof fn law_work_or_the_processors_result<T: Arith>(
    b: &mut Scirs2Backend,
    t: &T,
    a: &DeviceBuffer,
    x: &DeviceBuffer,
    m: usize,
    width: usize,
    device_id: usize,
    r: Result<Work, GpuError>,
)
    requires
        a.wf(),
        x.wf(),
    ensures
        call_ensures(Scirs2Backend::matvec::<T>, (b, t, a, x, m, width, device_id), r) ==> {
            &&& r is Ok <==> a.data@.len() == m * width && x.data@.len() == width
            &&& r matches Ok(Work::Host(y)) ==> y.wf() && y.device_id == device_id && y.size == m
                && (forall|row: int|
                0 <= row < m ==> #[trigger] y.data@[row] == algebra::total(
                    t,
                    |j: int| arith::product(t, a.data@[row * width + j], x.data@[j]),
                    width as nat,
                ))
            &&& r matches Ok(Work::Device(plan)) ==> plan@.len() == 5 && plan@.last() == (DeviceStep::Read {
                slot: Slot::Fresh,
                count: m,
            }) && plan@[3] is Run && plan@[3]->Run_0.kernel is Matvec
        },
        call_ensures(Scirs2Backend::relu::<T>, (b, t, x, device_id), r) ==> {
            &&& r is Ok
            &&& r matches Ok(Work::Host(y)) ==> y.wf() && y.device_id == device_id && y.data@.len()
                == x.data@.len() && (forall|i: int|
                0 <= i < x.data@.len() ==> #[trigger] y.data@[i] == arith::larger(
                    t,
                    x.data@[i],
                    0,
                ))
            &&& r matches Ok(Work::Device(plan)) ==> plan@.len() == 4 && plan@[2] is Run
                && plan@[2]->Run_0.kernel is Relu && plan@[3] == (DeviceStep::Read {
                slot: Slot::Fresh,
                count: x.size,
            })
        },
        call_ensures(Scirs2Backend::softmax::<T>, (b, t, x, m, device_id), r) ==> {
            &&& r is Ok <==> x.data@.len() == m
            &&& r matches Ok(Work::Host(y)) ==> y.wf() && y.device_id == device_id && y.data@
                == cpu::softmax_shares(t, x.data@, m)
            &&& r matches Ok(Work::Device(plan)) ==> m > 0 && plan@.len() == 4 && plan@[2] is Run
                && plan@[2]->Run_0.kernel is Softmax && plan@[3] == (DeviceStep::Read {
                slot: Slot::Fresh,
                count: m,
            })
        },
{
    if a.data@.len() == m * width {
        assert forall|row: int| 0 <= row < m implies #[trigger] cpu::matvec_product(
            t,
            a.data@,
            x.data@,
            m,
            width,
        )[row] == algebra::total(
            t,
            |j: int| arith::product(t, a.data@[row * width + j], x.data@[j]),
            width as nat,
        ) by {
            float_laws::law_matvec(t, a.data@, x.data@, m, width, row);
        }
    }
}

} // verus!

//! Weights that stay on the device.

use vstd::prelude::*;

use crate::blocks::BlockTQ2_0_g128;
use crate::gpu_backend::backend::GpuWeightHandle;
use crate::gpu_backend::error;
use crate::gpu_backend::error::{invalid_argument, GpuError, GpuFault};
use crate::gpu_backend::metal_graph::reformat;
use crate::gpu_backend::scirs2_backend::backend::{DeviceState, HandleIds, Scirs2Backend};
use crate::text;
use crate::text::Msg;

verus! {

broadcast use vstd::std_specs::hash::group_hash_axioms;

/// Bytes to put on the device under a handle.
#[derive(Debug)]
pub struct WeightUpload {
    /// The handle.
    pub handle: GpuWeightHandle,
    /// The bytes.
    pub bytes: Vec<u8>,
}

/// Byte `i` of a half-precision scale, lower byte first.
pub open spec fn scale_byte(d: u16, i: int) -> u8 {
    (if i == 0 {
        d % 256
    } else {
        d / 256
    }) as u8
}

/// Ternary blocks as they lie on the device: all scales, then all codes.
pub open spec fn ternary_soa(blocks: Seq<BlockTQ2_0_g128>) -> Seq<u8> {
    let scales = 2 * blocks.len();
    Seq::new(
        34 * blocks.len(),
        |j: int|
            if j < scales {
                scale_byte(blocks[j / 2].d, j % 2)
            } else {
                blocks[(j - scales) / 32].qs@[(j - scales) % 32]
            },
    )
}

/// Ternary blocks as they lie in memory: codes and scale of each.
pub open spec fn ternary_aos(blocks: Seq<BlockTQ2_0_g128>) -> Seq<u8> {
    Seq::new(
        34 * blocks.len(),
        |p: int|
            if p % 34 < 32 {
                blocks[p / 34].qs@[p % 34]
            } else {
                scale_byte(blocks[p / 34].d, p % 34 - 32)
            },
    )
}

fn ternary_bytes(blocks: &[BlockTQ2_0_g128]) -> (soa: Vec<u8>)
    requires
        blocks@.len() * 34 <= usize::MAX,
    ensures
        soa@ == ternary_soa(blocks@),
{
    let n: usize = blocks.len();
    let ghost goal = ternary_soa(blocks@);
    let mut soa: Vec<u8> = Vec::with_capacity(n * 34);
    let mut i: usize = 0;
    while i < n
        invariant
            n == blocks@.len(),
            n * 34 <= usize::MAX,
            goal == ternary_soa(blocks@),
            i <= n,
            soa@ == goal.subrange(0, 2 * i),
        decreases n - i,
    {
        let d: u16 = blocks[i].d;
        soa.push((d % 256) as u8);
        soa.push((d / 256) as u8);
        assert((2 * i) / 2 == i && (2 * i) % 2 == 0 && (2 * i + 1) / 2 == i && (2 * i + 1) % 2
            == 1);
        i += 1;
        assert(soa@ =~= goal.subrange(0, 2 * i));
    }
    let total: usize = n * 34;
    let mut j: usize = n * 2;
    while j < total
        invariant
            n == blocks@.len(),
            total == n * 34,
            goal == ternary_soa(blocks@),
            2 * n <= j <= total,
            soa@ == goal.subrange(0, j as int),
        decreases total - j,
    {
        let at: usize = j - 2 * n;
        let code: u8 = blocks[at / 32].qs[at % 32];
        soa.push(code);
        j += 1;
        assert(soa@ =~= goal.subrange(0, j as int));
    }
    assert(soa@ =~= goal);
    soa
}

/// What is wrong with a handle: there are no weights under it.
pub open spec fn handle_fault(state: DeviceState, handle: GpuWeightHandle) -> Option<GpuFault> {
    if state.weights@.contains_key(handle.0) {
        None
    } else {
        Some(
            GpuFault::InvalidArgument(
                "invalid weight handle: GpuWeightHandle("@ + text::dec(handle.0 as nat) + ")"@,
            ),
        )
    }
}

/// What is wrong with a handle of ternary weights.
pub open spec fn ternary_handle_fault(state: DeviceState, handle: GpuWeightHandle) -> Option<
    GpuFault,
> {
    if state.weights@.contains_key(handle.0) {
        None
    } else {
        Some(
            GpuFault::InvalidArgument(
                "invalid ternary weight handle: GpuWeightHandle("@ + text::dec(handle.0 as nat)
                    + ")"@,
            ),
        )
    }
}

/// Only the resident weights differ.
pub open spec fn same_but_weights(a: Scirs2Backend, b: Scirs2Backend) -> bool {
    a == (Scirs2Backend { state: DeviceState { weights: a.state.weights, ..b.state }, ..b })
}

impl Scirs2Backend {
    /// Puts raw weight blocks on the device under a new handle.
    pub fn upload_weights(&mut self, ids: &mut HandleIds, block_bytes: &[u8]) -> (r: Result<
        WeightUpload,
        GpuError,
    >)
        requires
            old(ids).next < u64::MAX,
        ensures
            r matches Ok(u) && u.handle.0 == old(ids).next && u.bytes@ == block_bytes@,
            final(ids).next == old(ids).next + 1,
            final(self).state.weights@ == old(self).state.weights@.insert(
                old(ids).next,
                block_bytes@.len() as usize,
            ),
            same_but_weights(*final(self), *old(self)),
    {
        let id: u64 = ids.next;
        ids.next = id + 1;
        let mut bytes: Vec<u8> = Vec::with_capacity(block_bytes.len());
        bytes.extend_from_slice(block_bytes);
        assert(bytes@ =~= block_bytes@);
        self.state.weights.insert(id, block_bytes.len());
        Ok(WeightUpload { handle: GpuWeightHandle(id), bytes })
    }

    /// Puts raw weight blocks on the device under a new handle.
    pub fn upload_weights_raw(&mut self, ids: &mut HandleIds, bytes: &[u8]) -> (r: Result<
        WeightUpload,
        GpuError,
    >)
        requires
            old(ids).next < u64::MAX,
        ensures
            r matches Ok(u) && u.handle.0 == old(ids).next && u.bytes@ == bytes@,
            final(ids).next == old(ids).next + 1,
            final(self).state.weights@ == old(self).state.weights@.insert(
                old(ids).next,
                bytes@.len() as usize,
            ),
            same_but_weights(*final(self), *old(self)),
    {
        self.upload_weights(ids, bytes)
    }

    /// Puts ternary weight blocks on the device under a new handle, all scales
    /// ahead of all codes.
    pub fn upload_weights_ternary(&mut self, ids: &mut HandleIds, blocks: &[BlockTQ2_0_g128])
        -> (r: Result<WeightUpload, GpuError>)
        requires
            old(ids).next < u64::MAX,
            blocks@.len() * 34 <= usize::MAX,
        ensures
            r matches Ok(u) && u.handle.0 == old(ids).next && u.bytes@ == ternary_soa(blocks@),
            final(ids).next == old(ids).next + 1,
            final(self).state.weights@ == old(self).state.weights@.insert(
                old(ids).next,
                (34 * blocks@.len()) as usize,
            ),
            same_but_weights(*final(self), *old(self)),
    {
        let bytes = ternary_bytes(blocks);
        let id: u64 = ids.next;
        ids.next = id + 1;
        self.state.weights.insert(id, bytes.len());
        Ok(WeightUpload { handle: GpuWeightHandle(id), bytes })
    }

    /// Number of resident weights.
    pub fn cached_weight_count(&self) -> (n: usize)
        ensures
            n == self.state.weights@.len(),
    {
        self.state.weights.len()
    }

    /// Checks that there are weights under a handle.
    pub fn get_cached_weight(&self, handle: GpuWeightHandle) -> (r: Result<(), GpuError>)
        ensures
            error::reports(r, handle_fault(self.state, handle)),
    {
        if self.state.weights.contains_key(&handle.0) {
            Ok(())
        } else {
            Err(
                invalid_argument(
                    Msg::new("invalid weight handle: GpuWeightHandle(").num64(handle.0).lit(")"),
                ),
            )
        }
    }

    /// Checks that there are ternary weights under a handle.
    pub fn get_cached_ternary_weight(&self, handle: GpuWeightHandle) -> (r: Result<(), GpuError>)
        ensures
            error::reports(r, ternary_handle_fault(self.state, handle)),
    {
        if self.state.weights.contains_key(&handle.0) {
            Ok(())
        } else {
            Err(
                invalid_argument(
                    Msg::new("invalid ternary weight handle: GpuWeightHandle(").num64(
                        handle.0,
                    ).lit(")"),
                ),
            )
        }
    }
}

/// Ternary weights lie on the device as regrouping their bytes gives them.
pub proof fn law_ternary_upload_is_regrouped(blocks: Seq<BlockTQ2_0_g128>)
    ensures
        ternary_soa(blocks) == reformat::tq2_layout().soa(ternary_aos(blocks)),
{
    let layout = reformat::tq2_layout();
    let aos = ternary_aos(blocks);
    let n = blocks.len() as int;
    assert(layout.block() == 34 && (34 * n) / 34 == n);
    assert(layout.count(aos.len()) == n);
    assert forall|j: int| 0 <= j < 34 * n implies ternary_soa(blocks)[j] == #[trigger]
        layout.soa_byte(aos, j) by {
        if j < 2 * n {
            let p = j / 2 * 34 + 32 + j % 2;
            assert(p / 34 == j / 2 && p % 34 == 32 + j % 2);
            assert(0 <= p < 34 * n);
        } else {
            let d = j - 2 * n;
            let p = d / 32 * 34 + d % 32;
            assert(p / 34 == d / 32 && p % 34 == d % 32);
            assert(0 <= p < 34 * n);
        }
    }
    assert(ternary_soa(blocks) =~= layout.soa(aos));
}

} // verus!

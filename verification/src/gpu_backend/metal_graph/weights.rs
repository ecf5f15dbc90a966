//! Resident weights: which are on the device, and which wait to be uploaded.

use std::collections::HashMap;

use vstd::prelude::*;

use crate::gpu_backend::metal_graph::error::{
    execution_failed, MetalFault, MetalGraphError, MetalWeightHandle,
};
use crate::gpu_backend::metal_graph::graph::MetalGraph;
use crate::gpu_backend::metal_graph::reformat;
use crate::gpu_backend::metal_graph::reformat::{reformat_q1_aos_to_soa, reformat_tq2_aos_to_soa};
use crate::text;
use crate::text::Msg;

verus! {

broadcast use vstd::std_specs::hash::group_hash_axioms;

/// Contents of a weight buffer: bytes, or the bits of single-precision
/// numbers.
#[derive(Debug)]
pub enum WeightData {
    /// Packed bytes.
    Bytes(Vec<u8>),
    /// Bits of single-precision numbers.
    Floats(Vec<u32>),
}

/// What a [`WeightData`] holds.
pub enum WeightContent {
    /// View of [`WeightData::Bytes`].
    Bytes(Seq<u8>),
    /// View of [`WeightData::Floats`].
    Floats(Seq<u32>),
}

impl View for WeightData {
    type V = WeightContent;

    open spec fn view(&self) -> WeightContent {
        match self {
            WeightData::Bytes(b) => WeightContent::Bytes(b@),
            WeightData::Floats(f) => WeightContent::Floats(f@),
        }
    }
}

impl WeightContent {
    /// Size in bytes.
    pub open spec fn byte_len(self) -> int {
        match self {
            WeightContent::Bytes(b) => b.len() as int,
            WeightContent::Floats(f) => f.len() as int * 4,
        }
    }
}

/// A weight buffer that waits to be created and filled on the device.
#[derive(Debug)]
pub struct PendingUpload {
    /// Number of the buffer.
    pub buffer: u64,
    /// Its contents.
    pub data: WeightData,
}

impl View for PendingUpload {
    type V = (u64, WeightContent);

    open spec fn view(&self) -> (u64, WeightContent) {
        (self.buffer, self.data@)
    }
}

/// Weights by key, and the buffers that wait to be uploaded.
pub struct WeightStore {
    /// Handles by key.
    pub cache: HashMap<u64, MetalWeightHandle>,
    /// Number of the next buffer.
    pub next_buffer: u64,
    /// Buffers that wait to be uploaded, in order.
    pub pending: Vec<PendingUpload>,
}

/// What a [`WeightStore`] holds.
#[verifier::ext_equal]
pub struct Weights {
    /// Handles by key.
    pub cache: Map<u64, MetalWeightHandle>,
    /// Number of the next buffer.
    pub next_buffer: u64,
    /// Buffers that wait to be uploaded.
    pub pending: Seq<(u64, WeightContent)>,
}

impl View for WeightStore {
    type V = Weights;

    open spec fn view(&self) -> Weights {
        Weights {
            cache: self.cache@,
            next_buffer: self.next_buffer,
            pending: self.pending@.map_values(|p: PendingUpload| p@),
        }
    }
}

impl Weights {
    /// Queues a new buffer and returns its handle.
    pub open spec fn upload(self, data: WeightContent) -> (Weights, MetalWeightHandle) {
        let handle = MetalWeightHandle {
            buffer: self.next_buffer,
            byte_len: data.byte_len() as usize,
        };
        (
            Weights {
                next_buffer: (self.next_buffer + 1) as u64,
                pending: self.pending.push((self.next_buffer, data)),
                ..self
            },
            handle,
        )
    }

    /// Queues a new buffer where there is something to upload.
    pub open spec fn try_upload(self, data: Result<WeightContent, MetalFault>) -> (
        Weights,
        Result<MetalWeightHandle, MetalFault>,
    ) {
        match data {
            Err(f) => (self, Err(f)),
            Ok(d) => {
                let (s, h) = self.upload(d);
                (s, Ok(h))
            },
        }
    }

    /// The handle under `key`; where there is none, `data` is queued and its
    /// handle is stored under `key`.
    pub open spec fn fetch(self, key: u64, data: Result<WeightContent, MetalFault>) -> (
        Weights,
        Result<MetalWeightHandle, MetalFault>,
    ) {
        if self.cache.contains_key(key) {
            (self, Ok(self.cache[key]))
        } else {
            match data {
                Err(f) => (self, Err(f)),
                Ok(d) => {
                    let (s, h) = self.upload(d);
                    (Weights { cache: s.cache.insert(key, h), ..s }, Ok(h))
                },
            }
        }
    }
}

/// What a fallible operation returned, with the error by its content.
pub open spec fn outcome<T>(r: Result<T, MetalGraphError>) -> Result<T, MetalFault> {
    match r {
        Ok(v) => Ok(v),
        Err(e) => Err(e@),
    }
}

/// Raw weight bytes; there must be some.
pub open spec fn raw_weight(bytes: Seq<u8>) -> Result<WeightContent, MetalFault> {
    if bytes.len() == 0 {
        Err(MetalFault::BufferCreationFailed)
    } else {
        Ok(WeightContent::Bytes(bytes))
    }
}

/// Single-precision weights; there must be some.
pub open spec fn f32_weight(bits: Seq<u32>) -> Result<WeightContent, MetalFault> {
    if bits.len() == 0 {
        Err(MetalFault::BufferCreationFailed)
    } else {
        Ok(WeightContent::Floats(bits))
    }
}

/// 1-bit weight blocks, regrouped; there must be a whole number of them.
pub open spec fn q1_weight(aos: Seq<u8>) -> Result<WeightContent, MetalFault> {
    if reformat::q1_layout().divides(aos) {
        Ok(WeightContent::Bytes(reformat::q1_layout().soa(aos)))
    } else {
        Err(
            MetalFault::ExecutionFailed(
                "Q1 SoA reformat failed: input length "@ + text::dec(aos.len())
                    + " is not a multiple of 18"@,
            ),
        )
    }
}

/// Ternary weight blocks, regrouped; there must be a whole number of them.
pub open spec fn tq2_weight(aos: Seq<u8>) -> Result<WeightContent, MetalFault> {
    if reformat::tq2_layout().divides(aos) {
        Ok(WeightContent::Bytes(reformat::tq2_layout().soa(aos)))
    } else {
        Err(
            MetalFault::ExecutionFailed(
                "TQ2 SoA reformat failed: input length "@ + text::dec(aos.len())
                    + " is not a multiple of 34"@,
            ),
        )
    }
}

/// Raw weight bytes as buffer contents.
fn raw_data(bytes: &[u8]) -> (r: Result<WeightData, MetalGraphError>)
    ensures
        r matches Ok(d) ==> raw_weight(bytes@) == Ok::<WeightContent, MetalFault>(d@),
        r matches Err(e) ==> raw_weight(bytes@) == Err::<WeightContent, MetalFault>(e@),
{
    if bytes.len() == 0 {
        return Err(MetalGraphError::BufferCreationFailed);
    }
    let mut v: Vec<u8> = Vec::with_capacity(bytes.len());
    v.extend_from_slice(bytes);
    assert(v@ =~= bytes@);
    Ok(WeightData::Bytes(v))
}

/// 1-bit blocks as buffer contents.
fn q1_data(aos: &[u8]) -> (r: Result<WeightData, MetalGraphError>)
    ensures
        r matches Ok(d) ==> q1_weight(aos@) == Ok::<WeightContent, MetalFault>(d@),
        r matches Err(e) ==> q1_weight(aos@) == Err::<WeightContent, MetalFault>(e@),
{
    match reformat_q1_aos_to_soa(aos) {
        Some(soa) => Ok(WeightData::Bytes(soa)),
        None => Err(
            execution_failed(
                Msg::new("Q1 SoA reformat failed: input length ").num(aos.len()).lit(
                    " is not a multiple of 18",
                ),
            ),
        ),
    }
}

/// Ternary blocks as buffer contents.
fn tq2_data(aos: &[u8]) -> (r: Result<WeightData, MetalGraphError>)
    ensures
        r matches Ok(d) ==> tq2_weight(aos@) == Ok::<WeightContent, MetalFault>(d@),
        r matches Err(e) ==> tq2_weight(aos@) == Err::<WeightContent, MetalFault>(e@),
{
    match reformat_tq2_aos_to_soa(aos) {
        Some(soa) => Ok(WeightData::Bytes(soa)),
        None => Err(
            execution_failed(
                Msg::new("TQ2 SoA reformat failed: input length ").num(aos.len()).lit(
                    " is not a multiple of 34",
                ),
            ),
        ),
    }
}

/// The handle under a key, if there is one.
fn cached(cache: &HashMap<u64, MetalWeightHandle>, key: u64) -> (r: Option<MetalWeightHandle>)
    ensures
        r == (if cache@.contains_key(key) {
            Some(cache@[key])
        } else {
            None
        }),
{
    match cache.get(&key) {
        Some(h) => Some(*h),
        None => None,
    }
}

impl WeightStore {
    /// Queues a new buffer.
    fn queue(&mut self, data: WeightData, byte_len: usize) -> (handle: MetalWeightHandle)
        requires
            old(self).next_buffer < u64::MAX,
            byte_len == data@.byte_len(),
        ensures
            (final(self)@, handle) == old(self)@.upload(data@),
    {
        let buffer: u64 = self.next_buffer;
        let ghost before = self@;
        let ghost content = data@;
        self.pending.push(PendingUpload { buffer, data });
        self.next_buffer = buffer + 1;
        assert(self@.pending =~= before.pending.push((buffer, content)));
        MetalWeightHandle { buffer, byte_len }
    }

    /// Queues a new buffer and stores its handle under a key.
    fn queue_as(&mut self, key: u64, data: WeightData, byte_len: usize) -> (handle:
        MetalWeightHandle)
        requires
            old(self).next_buffer < u64::MAX,
            byte_len == data@.byte_len(),
            !old(self)@.cache.contains_key(key),
        ensures
            (final(self)@, Ok::<MetalWeightHandle, MetalFault>(handle)) == old(self)@.fetch(
                key,
                Ok(data@),
            ),
    {
        let handle = self.queue(data, byte_len);
        self.cache.insert(key, handle);
        handle
    }

    /// Number of handles stored under a key.
    pub fn len(&self) -> (n: usize)
        ensures
            n == self@.cache.dom().len(),
    {
        self.cache.len()
    }
}

/// Bytes of packed contents.
fn bytes_len(data: &WeightData) -> (n: usize)
    requires
        data is Bytes,
    ensures
        n == data@.byte_len(),
{
    match data {
        WeightData::Bytes(b) => b.len(),
        WeightData::Floats(_) => 0,
    }
}

impl MetalGraph {
    /// Queues raw packed weight bytes for a resident buffer.
    pub fn upload_weight(&mut self, data: &[u8]) -> (r: Result<MetalWeightHandle, MetalGraphError>)
        requires
            old(self).weights.next_buffer < u64::MAX,
        ensures
            (final(self).weights@, outcome(r)) == old(self).weights@.try_upload(raw_weight(data@)),
            final(self).resident == old(self).resident,
    {
        let d = raw_data(data)?;
        let n: usize = bytes_len(&d);
        Ok(self.weights.queue(d, n))
    }

    /// The weight under `key`, queued from raw bytes where there is none.
    pub fn get_or_upload_weight(&mut self, key: u64, raw_bytes: &[u8]) -> (r: Result<
        MetalWeightHandle,
        MetalGraphError,
    >)
        requires
            old(self).weights.next_buffer < u64::MAX,
        ensures
            (final(self).weights@, outcome(r)) == old(self).weights@.fetch(
                key,
                raw_weight(raw_bytes@),
            ),
            final(self).resident == old(self).resident,
    {
        match cached(&self.weights.cache, key) {
            Some(h) => Ok(h),
            None => {
                let d = raw_data(raw_bytes)?;
                let n: usize = bytes_len(&d);
                Ok(self.weights.queue_as(key, d, n))
            },
        }
    }

    /// Like [`Self::get_or_upload_weight`], with bytes that are produced only
    /// where there is no weight under `key`. The producer is used up by asking it,
    /// so that it is asked once where the key is free, and else not at all.
    pub fn get_or_upload_weight_lazy<F: FnOnce() -> Vec<u8>>(&mut self, key: u64, data_fn: F) -> (r:
        Result<MetalWeightHandle, MetalGraphError>)
        requires
            old(self).weights.next_buffer < u64::MAX,
            !old(self).weights@.cache.contains_key(key) ==> data_fn.requires(()),
        ensures
            old(self).weights@.cache.contains_key(key) ==> (final(self).weights@, outcome(r))
                == (old(self).weights@, Ok::<MetalWeightHandle, MetalFault>(
                old(self).weights@.cache[key],
            )),
            !old(self).weights@.cache.contains_key(key) ==> exists|bytes: Vec<u8>|
                #[trigger] data_fn.ensures((), bytes) && (final(self).weights@, outcome(r)) == old(
                    self,
                ).weights@.fetch(key, raw_weight(bytes@)),
            final(self).resident == old(self).resident,
    {
        match cached(&self.weights.cache, key) {
            Some(h) => Ok(h),
            None => {
                let bytes: Vec<u8> = data_fn();
                let d = raw_data(bytes.as_slice())?;
                let n: usize = bytes_len(&d);
                Ok(self.weights.queue_as(key, d, n))
            },
        }
    }

    /// Queues 1-bit weight blocks, regrouped for coalesced reads.
    pub fn upload_q1_weight_soa(&mut self, aos_data: &[u8]) -> (r: Result<
        MetalWeightHandle,
        MetalGraphError,
    >)
        requires
            old(self).weights.next_buffer < u64::MAX,
        ensures
            (final(self).weights@, outcome(r)) == old(self).weights@.try_upload(
                q1_weight(aos_data@),
            ),
            final(self).resident == old(self).resident,
    {
        let d = q1_data(aos_data)?;
        let n: usize = bytes_len(&d);
        Ok(self.weights.queue(d, n))
    }

    /// The weight under `key`, queued from 1-bit blocks where there is none.
    pub fn get_or_upload_q1_weight_soa(&mut self, key: u64, aos_bytes: &[u8]) -> (r: Result<
        MetalWeightHandle,
        MetalGraphError,
    >)
        requires
            old(self).weights.next_buffer < u64::MAX,
        ensures
            (final(self).weights@, outcome(r)) == old(self).weights@.fetch(
                key,
                q1_weight(aos_bytes@),
            ),
            final(self).resident == old(self).resident,
    {
        match cached(&self.weights.cache, key) {
            Some(h) => Ok(h),
            None => {
                let d = q1_data(aos_bytes)?;
                let n: usize = bytes_len(&d);
                Ok(self.weights.queue_as(key, d, n))
            },
        }
    }

    /// Like [`Self::get_or_upload_q1_weight_soa`], with blocks that are
    /// produced only where there is no weight under `key`.
    pub fn get_or_upload_q1_weight_soa_lazy<F: FnOnce() -> Vec<u8>>(
        &mut self,
        key: u64,
        data_fn: F,
    ) -> (r: Result<MetalWeightHandle, MetalGraphError>)
        requires
            old(self).weights.next_buffer < u64::MAX,
            !old(self).weights@.cache.contains_key(key) ==> data_fn.requires(()),
        ensures
            old(self).weights@.cache.contains_key(key) ==> (final(self).weights@, outcome(r))
                == (old(self).weights@, Ok::<MetalWeightHandle, MetalFault>(
                old(self).weights@.cache[key],
            )),
            !old(self).weights@.cache.contains_key(key) ==> exists|bytes: Vec<u8>|
                #[trigger] data_fn.ensures((), bytes) && (final(self).weights@, outcome(r)) == old(
                    self,
                ).weights@.fetch(key, q1_weight(bytes@)),
            final(self).resident == old(self).resident,
    {
        match cached(&self.weights.cache, key) {
            Some(h) => Ok(h),
            None => {
                let aos_bytes: Vec<u8> = data_fn();
                let d = q1_data(aos_bytes.as_slice())?;
                let n: usize = bytes_len(&d);
                Ok(self.weights.queue_as(key, d, n))
            },
        }
    }

    /// Queues ternary weight blocks, regrouped for coalesced reads.
    pub fn upload_tq2_weight_soa(&mut self, aos_data: &[u8]) -> (r: Result<
        MetalWeightHandle,
        MetalGraphError,
    >)
        requires
            old(self).weights.next_buffer < u64::MAX,
        ensures
            (final(self).weights@, outcome(r)) == old(self).weights@.try_upload(
                tq2_weight(aos_data@),
            ),
            final(self).resident == old(self).resident,
    {
        let d = tq2_data(aos_data)?;
        let n: usize = bytes_len(&d);
        Ok(self.weights.queue(d, n))
    }

    /// The weight under `key`, queued from ternary blocks where there is none.
    pub fn get_or_upload_tq2_weight_soa(&mut self, key: u64, aos_bytes: &[u8]) -> (r: Result<
        MetalWeightHandle,
        MetalGraphError,
    >)
        requires
            old(self).weights.next_buffer < u64::MAX,
        ensures
            (final(self).weights@, outcome(r)) == old(self).weights@.fetch(
                key,
                tq2_weight(aos_bytes@),
            ),
            final(self).resident == old(self).resident,
    {
        match cached(&self.weights.cache, key) {
            Some(h) => Ok(h),
            None => {
                let d = tq2_data(aos_bytes)?;
                let n: usize = bytes_len(&d);
                Ok(self.weights.queue_as(key, d, n))
            },
        }
    }

    /// Like [`Self::get_or_upload_tq2_weight_soa`], with blocks that are
    /// produced only where there is no weight under `key`.
    pub fn get_or_upload_tq2_weight_soa_lazy<F: FnOnce() -> Vec<u8>>(
        &mut self,
        key: u64,
        data_fn: F,
    ) -> (r: Result<MetalWeightHandle, MetalGraphError>)
        requires
            old(self).weights.next_buffer < u64::MAX,
            !old(self).weights@.cache.contains_key(key) ==> data_fn.requires(()),
        ensures
            old(self).weights@.cache.contains_key(key) ==> (final(self).weights@, outcome(r))
                == (old(self).weights@, Ok::<MetalWeightHandle, MetalFault>(
                old(self).weights@.cache[key],
            )),
            !old(self).weights@.cache.contains_key(key) ==> exists|bytes: Vec<u8>|
                #[trigger] data_fn.ensures((), bytes) && (final(self).weights@, outcome(r)) == old(
                    self,
                ).weights@.fetch(key, tq2_weight(bytes@)),
            final(self).resident == old(self).resident,
    {
        match cached(&self.weights.cache, key) {
            Some(h) => Ok(h),
            None => {
                let aos_bytes: Vec<u8> = data_fn();
                let d = tq2_data(aos_bytes.as_slice())?;
                let n: usize = bytes_len(&d);
                Ok(self.weights.queue_as(key, d, n))
            },
        }
    }

    /// The weight under `key`, queued from single-precision numbers where
    /// there is none.
    pub fn get_or_upload_f32_weight(&mut self, key: u64, bits: &[u32]) -> (r: Result<
        MetalWeightHandle,
        MetalGraphError,
    >)
        requires
            old(self).weights.next_buffer < u64::MAX,
            bits@.len() * 4 <= usize::MAX,
        ensures
            (final(self).weights@, outcome(r)) == old(self).weights@.fetch(key, f32_weight(bits@)),
            final(self).resident == old(self).resident,
    {
        match cached(&self.weights.cache, key) {
            Some(h) => Ok(h),
            None => {
                if bits.len() == 0 {
                    return Err(MetalGraphError::BufferCreationFailed);
                }
                let n: usize = bits.len() * 4;
                let mut v: Vec<u32> = Vec::with_capacity(bits.len());
                v.extend_from_slice(bits);
                assert(v@ =~= bits@);
                Ok(self.weights.queue_as(key, WeightData::Floats(v), n))
            },
        }
    }

    /// Hands over the buffers that wait to be uploaded, in order.
    pub fn take_uploads(&mut self) -> (uploads: Vec<PendingUpload>)
        ensures
            uploads@ == old(self).weights.pending@,
            final(self).weights@ == (Weights { pending: seq![], ..old(self).weights@ }),
            final(self).resident == old(self).resident,
    {
        let mut uploads: Vec<PendingUpload> = Vec::new();
        std::mem::swap(&mut uploads, &mut self.weights.pending);
        assert(self.weights@.pending =~= seq![]);
        uploads
    }
}

/// A weight is uploaded once: after a successful fetch under a key, every
/// later fetch under it returns the same handle and queues nothing, whatever
/// bytes it is given.
pub proof fn law_weight_is_uploaded_once(
    s: Weights,
    key: u64,
    first: Result<WeightContent, MetalFault>,
    later: Result<WeightContent, MetalFault>,
)
    requires
        s.fetch(key, first).1 is Ok,
    ensures
        s.fetch(key, first).0.fetch(key, later) == (s.fetch(key, first).0, s.fetch(key, first).1),
{
}

/// A fetch under one key leaves the weight under another as it was.
pub proof fn law_fetch_leaves_other_keys(
    s: Weights,
    key: u64,
    other: u64,
    data: Result<WeightContent, MetalFault>,
)
    requires
        key != other,
    ensures
        s.fetch(key, data).0.cache.contains_key(other) == s.cache.contains_key(other),
        s.cache.contains_key(other) ==> s.fetch(key, data).0.cache[other] == s.cache[other],
{
}

/// A fetch of raw bytes under a free key: it succeeds where there are bytes, with
/// a handle of their length that stays under the key; else the key stays free.
pub proof fn law_free_key_takes_bytes(s: Weights, key: u64, bytes: Seq<u8>)
    requires
        !s.cache.contains_key(key),
        bytes.len() <= usize::MAX,
    ensures
        ({
            let (after, r) = s.fetch(key, raw_weight(bytes));
            &&& r is Ok <==> bytes.len() > 0
            &&& r matches Ok(h) ==> h.byte_len == bytes.len() && after.cache.contains_key(key)
                && after.cache[key] == h
            &&& r is Err ==> after.cache == s.cache
        }),
{
}

/// What is uploaded waits behind what already does, in a buffer with a number of its own,
/// and the handle says which and how long; nothing else changes.
pub proof fn law_uploads_wait_in_order(s: Weights, data: WeightContent)
    requires
        s.next_buffer < u64::MAX,
        data.byte_len() <= usize::MAX,
    ensures
        ({
            let (after, h) = s.upload(data);
            &&& after.pending == s.pending.push((h.buffer, data))
            &&& h.buffer == s.next_buffer
            &&& after.next_buffer == h.buffer + 1
            &&& h.byte_len == match data {
                WeightContent::Bytes(b) => b.len(),
                WeightContent::Floats(f) => 4 * f.len(),
            }
            &&& after.cache == s.cache
        }),
{
}

/// Raw bytes and numbers are uploaded as they are, exactly where there are some; blocks
/// are regrouped, exactly where they are a whole, positive number of them.
pub proof fn law_upload_contents(
    g: &mut MetalGraph,
    key: u64,
    bytes: &[u8],
    bits: &[u32],
    r: Result<MetalWeightHandle, MetalGraphError>,
)
    requires
        old(g).weights.next_buffer < u64::MAX,
        !old(g).weights@.cache.contains_key(key),
        bits@.len() * 4 <= usize::MAX,
        bytes@.len() <= usize::MAX,
    ensures
        ({
            let queued = final(g).weights@.pending;
            let (raw, q1, tq2, numbers) = (
                call_ensures(MetalGraph::get_or_upload_weight, (g, key, bytes), r),
                call_ensures(MetalGraph::get_or_upload_q1_weight_soa, (g, key, bytes), r),
                call_ensures(MetalGraph::get_or_upload_tq2_weight_soa, (g, key, bytes), r),
                call_ensures(MetalGraph::get_or_upload_f32_weight, (g, key, bits), r),
            );
            let (once, once_q1, once_tq2) = (
                call_ensures(MetalGraph::upload_weight, (g, bytes), r),
                call_ensures(MetalGraph::upload_q1_weight_soa, (g, bytes), r),
                call_ensures(MetalGraph::upload_tq2_weight_soa, (g, bytes), r),
            );
            &&& raw || once ==> (r is Ok <==> bytes@.len() > 0) && (r is Ok ==> queued.last()
                == (r->Ok_0.buffer, WeightContent::Bytes(bytes@)))
            &&& numbers ==> (r is Ok <==> bits@.len() > 0) && (r is Ok ==> queued.last() == (
                r->Ok_0.buffer,
                WeightContent::Floats(bits@),
            ))
            &&& q1 || once_q1 ==> (r is Ok <==> bytes@.len() > 0 && bytes@.len() as int % 18 == 0)
                && (r is Ok ==> queued.last().0 == r->Ok_0.buffer && queued.last().1 is Bytes
                && reformat::is_regrouped(bytes@, queued.last().1->Bytes_0, false))
            &&& tq2 || once_tq2 ==> (r is Ok <==> bytes@.len() > 0 && bytes@.len() as int % 34
                == 0) && (r is Ok ==> queued.last().0 == r->Ok_0.buffer && queued.last().1
                is Bytes && reformat::is_regrouped(bytes@, queued.last().1->Bytes_0, true))
            &&& raw || q1 || tq2 || numbers || once || once_q1 || once_tq2 ==> (r is Ok ==> queued.len()
                == old(g).weights@.pending.len() + 1) && (r is Err ==> queued == old(
                g,
            ).weights@.pending)
        }),
{
    if reformat::q1_layout().divides(bytes@) {
        reformat::lemma_regrouped(bytes@, false);
    }
    if reformat::tq2_layout().divides(bytes@) {
        reformat::lemma_regrouped(bytes@, true);
    }
}

/// Taking the uploads hands out all that wait, in order, and leaves none.
pub proof fn law_uploads_are_taken_once(
    g: &mut MetalGraph,
    later: &mut MetalGraph,
    first: Vec<PendingUpload>,
    second: Vec<PendingUpload>,
)
    requires
        call_ensures(MetalGraph::take_uploads, (g,), first),
        call_ensures(MetalGraph::take_uploads, (later,), second),
        *later == *final(g),
    ensures
        first@ == old(g).weights.pending@,
        second@.len() == 0,
        final(g).weights@.cache == old(g).weights@.cache,
{
    assert(final(g).weights@.pending.len() == final(g).weights.pending@.len());
}

} // verus!

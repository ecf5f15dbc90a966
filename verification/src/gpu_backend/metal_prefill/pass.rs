//! What a layer of a forward pass computes, given what its kernels compute of vectors.

use vstd::prelude::*;

use crate::gpu_backend::metal_graph::device::{Buf, PrefillBuf};
use crate::gpu_backend::metal_graph::memory_model;
use crate::gpu_backend::metal_graph::memory_model::{
    normalised, rows_times, turned, DeviceMemory, VectorKernels,
};
use crate::gpu_backend::metal_graph::planes;
use crate::gpu_backend::metal_prefill::causal;
use crate::gpu_backend::metal_prefill::functions;
use crate::gpu_backend::metal_prefill::functions::weight_buf;
use crate::gpu_backend::metal_prefill::types::{LayerConfig, LayerWeightRefs};

verus! {

/// A layer over a batch of tokens, and the memory that it starts from.
pub struct LayerRun {
    /// What kernels compute.
    pub k: VectorKernels,
    /// Dimensions.
    pub c: LayerConfig,
    /// Weights.
    pub w: LayerWeightRefs,
    /// The layer's number.
    pub layer: usize,
    /// Tokens.
    pub batch: usize,
    /// Position of the first token.
    pub pos_start: usize,
    /// Whether the weights are ternary.
    pub ternary: bool,
    /// The memory before the layer.
    pub s: DeviceMemory,
}

impl LayerRun {
    /// Sizes and positions are those that kernels can be told of, heads are even and
    /// shared out evenly, and positions fit the cache.
    pub open spec fn wf(self) -> bool {
        let c = self.c;
        &&& c.fits(self.batch, self.pos_start)
        &&& c.n_q_heads > 0
        &&& c.n_q_heads % c.n_kv_heads == 0
        &&& c.head_dim % 2 == 0
        &&& c.hidden_size > 0
        &&& c.intermediate_size > 0
        &&& c.qkv_rows() <= u32::MAX
        &&& c.hidden_size <= u32::MAX
        &&& 2 * c.intermediate_size <= u32::MAX
        &&& c.max_seq_len <= u32::MAX
        &&& self.batch <= u32::MAX
        &&& self.batch * c.hidden_size <= u32::MAX
        &&& self.pos_start + self.batch <= c.max_seq_len
    }

    /// Width of a head.
    pub open spec fn hd(self) -> int {
        self.c.head_dim as int
    }

    /// The key and value head that a query head goes with.
    pub open spec fn group(self, head: int) -> int {
        head / (self.c.n_q_heads as int / self.c.n_kv_heads as int)
    }

    /// The numbers of a resident weight.
    pub open spec fn weight(self, buf: Buf, n: int) -> Seq<u32> {
        self.s.vector(buf, 0, n)
    }

    /// Hidden state of a token.
    pub open spec fn hidden(self, t: int) -> Seq<u32> {
        let h = self.c.hidden_size as int;
        self.s.vector(Buf::Prefill(PrefillBuf::Hidden), t * h, h)
    }

    /// Its hidden state, normalised.
    pub open spec fn normed(self, t: int) -> Seq<u32> {
        normalised(
            self.k,
            self.weight(weight_buf(self.w.attn_norm), self.c.hidden_size as int),
            self.c.eps,
            self.hidden(t),
        )
    }

    /// Rows of the fused projection, times the normalised hidden state.
    pub open spec fn projected(self, t: int, first: int, rows: int) -> Seq<u32> {
        rows_times(self.k, self.ternary, weight_buf(self.w.qkv), first, rows, self.normed(t))
    }

    /// A query head: of the rows that come first.
    pub open spec fn query(self, t: int, head: int) -> Seq<u32> {
        self.projected(t, head * self.hd(), self.hd())
    }

    /// A key head: of the rows behind all queries.
    pub open spec fn key(self, t: int, g: int) -> Seq<u32> {
        self.projected(t, self.c.n_q_heads * self.hd() + g * self.hd(), self.hd())
    }

    /// A value head: of the rows behind all keys.
    pub open spec fn value(self, t: int, g: int) -> Seq<u32> {
        self.projected(
            t,
            (self.c.n_q_heads + self.c.n_kv_heads) * self.hd() + g * self.hd(),
            self.hd(),
        )
    }

    /// Cosines of a token's angles.
    pub open spec fn cosines(self, t: int) -> Seq<u32> {
        let half = self.hd() / 2;
        self.s.vector(Buf::Prefill(PrefillBuf::Cos), t * half, half)
    }

    /// Sines of a token's angles.
    pub open spec fn sines(self, t: int) -> Seq<u32> {
        let half = self.hd() / 2;
        self.s.vector(Buf::Prefill(PrefillBuf::Sin), t * half, half)
    }

    /// A query head, normalised and turned by the token's angles.
    pub open spec fn turned_query(self, t: int, head: int) -> Seq<u32> {
        turned(
            self.k,
            normalised(
                self.k,
                self.weight(weight_buf(self.w.q_norm), self.hd()),
                self.c.eps,
                self.query(t, head),
            ),
            self.cosines(t),
            self.sines(t),
        )
    }

    /// A key head, normalised and turned by the token's angles.
    pub open spec fn turned_key(self, t: int, g: int) -> Seq<u32> {
        turned(
            self.k,
            normalised(
                self.k,
                self.weight(weight_buf(self.w.k_norm), self.hd()),
                self.c.eps,
                self.key(t, g),
            ),
            self.cosines(t),
            self.sines(t),
        )
    }

    /// The position is one of the batch's.
    pub open spec fn in_batch(self, p: int) -> bool {
        self.pos_start <= p < self.pos_start + self.batch
    }

    /// The key at a position: the batch's own, or the one that is cached.
    pub open spec fn key_at(self, p: int, g: int) -> Seq<u32> {
        if self.in_batch(p) {
            self.turned_key(p - self.pos_start, g)
        } else {
            self.s.cached(Buf::KCache, self.layer as int, g, p, self.hd())
        }
    }

    /// The value at a position: the batch's own, or the one that is cached.
    pub open spec fn value_at(self, p: int, g: int) -> Seq<u32> {
        if self.in_batch(p) {
            self.value(p - self.pos_start, g)
        } else {
            self.s.cached(Buf::VCache, self.layer as int, g, p, self.hd())
        }
    }

    /// Scores of a token's query head against all positions up to its own.
    pub open spec fn scores(self, t: int, head: int) -> Seq<u32> {
        Seq::new(
            (self.pos_start + t + 1) as nat,
            |p: int|
                (self.k.score)(
                    self.turned_query(t, head),
                    self.key_at(p, self.group(head)),
                    self.c.head_dim,
                ),
        )
    }

    /// The shares that they come to.
    pub open spec fn shares(self, t: int, head: int) -> Seq<u32> {
        Seq::new(
            (self.pos_start + t + 1) as nat,
            |p: int| (self.k.share)(self.scores(t, head), p),
        )
    }

    /// A token's attention, head by head: values by their shares.
    pub open spec fn attended(self, t: int) -> Seq<u32> {
        let hd = self.hd();
        Seq::new(
            (self.c.n_q_heads * hd) as nat,
            |i: int|
                (self.k.blend)(
                    self.shares(t, i / hd),
                    Seq::new(
                        (self.pos_start + t + 1) as nat,
                        |p: int| self.value_at(p, self.group(i / hd))[i % hd],
                    ),
                ),
        )
    }

    /// The hidden state with the projected attention added.
    pub open spec fn middle(self, t: int) -> Seq<u32> {
        let x = self.attended(t);
        Seq::new(
            self.c.hidden_size as nat,
            |r: int|
                (self.k.plus)(
                    self.hidden(t)[r],
                    (self.k.dot)(self.ternary, weight_buf(self.w.output_proj), r, x),
                ),
        )
    }

    /// Gate and up projections of the normalised state, joined by SwiGLU; rows for gate come
    /// ahead of those for up.
    pub open spec fn activated(self, t: int) -> Seq<u32> {
        let x = normalised(
            self.k,
            self.weight(weight_buf(self.w.ffn_norm), self.c.hidden_size as int),
            self.c.eps,
            self.middle(t),
        );
        let inter = self.c.intermediate_size;
        Seq::new(
            inter as nat,
            |i: int|
                (self.k.swiglu)(
                    (self.k.dot)(self.ternary, weight_buf(self.w.gate_up), i, x),
                    (self.k.dot)(self.ternary, weight_buf(self.w.gate_up), inter + i, x),
                ),
        )
    }

    /// The hidden state behind the layer.
    pub open spec fn output(self, t: int) -> Seq<u32> {
        let x = self.activated(t);
        Seq::new(
            self.c.hidden_size as nat,
            |r: int|
                (self.k.plus)(
                    self.middle(t)[r],
                    (self.k.dot)(self.ternary, weight_buf(self.w.down), r, x),
                ),
        )
    }

    /// What the cache holds when the first `n` tokens have been stored.
    pub open spec fn cache_after(self, n: int, buf: Buf, l: int, g: int, p: int, d: int) -> u32 {
        let stored = l == self.layer && self.pos_start <= p < self.pos_start + n && 0 <= g
            < self.c.n_kv_heads && 0 <= d < self.hd();
        if stored && buf == Buf::KCache {
            self.turned_key(p - self.pos_start, g)[d]
        } else if stored && buf == Buf::VCache {
            self.value(p - self.pos_start, g)[d]
        } else {
            (self.s.cache)(buf, l, g, p, d)
        }
    }

    /// Weights and tables are those of the start.
    spec fn keeps_inputs(self, x: DeviceMemory) -> bool {
        &&& forall|b: u64, i: int| #[trigger]
            (x.at)(Buf::Weight(b), i) == (self.s.at)(Buf::Weight(b), i)
        &&& forall|i: int| #[trigger]
            (x.at)(Buf::Prefill(PrefillBuf::Cos), i) == (self.s.at)(
                Buf::Prefill(PrefillBuf::Cos),
                i,
            )
        &&& forall|i: int| #[trigger]
            (x.at)(Buf::Prefill(PrefillBuf::Sin), i) == (self.s.at)(
                Buf::Prefill(PrefillBuf::Sin),
                i,
            )
    }

    /// The memory when the projections are there and the first `n` tokens attended to.
    spec fn attended_so_far(self, x: DeviceMemory, n: int) -> bool {
        let rows = self.c.qkv_rows();
        let q = self.c.n_q_heads * self.hd();
        &&& self.keeps_inputs(x)
        &&& forall|i: int| #[trigger]
            (x.at)(Buf::Prefill(PrefillBuf::Hidden), i) == (self.s.at)(
                Buf::Prefill(PrefillBuf::Hidden),
                i,
            )
        &&& forall|t: int, r: int|
            0 <= t < self.batch && 0 <= r < rows ==> #[trigger] (x.at)(
                Buf::Prefill(PrefillBuf::Qkv),
                t * rows + r,
            ) == (self.k.dot)(self.ternary, weight_buf(self.w.qkv), r, self.normed(t))
        &&& forall|t: int|
            0 <= t < n ==> #[trigger] x.vector(Buf::Prefill(PrefillBuf::AttnOut), t * q, q)
                == self.attended(t)
        &&& forall|buf: Buf, l: int, g: int, p: int, d: int| #[trigger]
            (x.cache)(buf, l, g, p, d) == self.cache_after(n, buf, l, g, p, d)
    }
}

/// Parts of the fused projection's rows.
proof fn lemma_parts(nq: int, nkv: int, hd: int, part: int, heads: int)
    requires
        0 <= part < heads,
        nq > 0,
        nkv > 0,
        hd > 0,
    ensures
        heads == nq ==> 0 <= part * hd && part * hd + hd <= nq * hd,
        heads == nkv ==> 0 <= part * hd && nq * hd + part * hd + hd <= (nq + nkv) * hd,
        heads == nkv ==> (nq + nkv) * hd + part * hd + hd <= (nq + 2 * nkv) * hd,
        0 < nq * hd <= (nq + nkv) * hd,
        (nq + nkv) * hd == nq * hd + nkv * hd,
        (nq + 2 * nkv) * hd == nq * hd + 2 * (nkv * hd),
        0 < nkv * hd,
{
    assert(0 <= part * hd && part * hd + hd <= heads * hd) by (nonlinear_arith)
        requires
            0 <= part,
            part + 1 <= heads,
            hd > 0,
    ;
    assert((nq + nkv) * hd == nq * hd + nkv * hd && (nq + 2 * nkv) * hd == nq * hd + 2 * (nkv
        * hd)) by (nonlinear_arith);
    assert(0 < nq * hd && 0 < nkv * hd) by (nonlinear_arith)
        requires
            nq > 0,
            nkv > 0,
            hd > 0,
    ;
}

/// Offsets of token `t`, in numbers.
proof fn lemma_offsets(l: LayerRun, t: int)
    requires
        l.wf(),
        0 <= t < l.batch,
    ensures
        ({
            let (nq, nkv, hd) = (l.c.n_q_heads as int, l.c.n_kv_heads as int, l.hd());
            let rows = l.c.qkv_rows();
            let col = t * rows * 4;
            &&& (col as u64) as int / 4 == t * rows
            &&& ((col + nq * hd * 4) as u64) as int / 4 == t * rows + nq * hd
            &&& ((col + (nq + nkv) * hd * 4) as u64) as int / 4 == t * rows + (nq + nkv) * hd
            &&& ((t * (hd / 2) * 4) as u64) as int / 4 == t * (hd / 2)
            &&& ((t * nq * hd * 4) as u64) as int / 4 == t * (nq * hd)
            &&& nq <= u32::MAX && nkv <= u32::MAX && hd <= u32::MAX
            &&& nq * hd <= u32::MAX
        }),
{
    let (nq, nkv, hd) = (l.c.n_q_heads as int, l.c.n_kv_heads as int, l.hd());
    let rows = l.c.qkv_rows();
    functions::lemma_token_column(t, l.batch as int, nq, nkv, hd);
    lemma_parts(nq, nkv, hd, 0, nkv);
    let b = l.batch as int;
    assert(b * rows * 4 == b * (rows * 4)) by (nonlinear_arith);
    assert(t * rows * 4 == 4 * (t * rows)) by (nonlinear_arith);
    assert(t * (hd / 2) * 4 == 4 * (t * (hd / 2))) by (nonlinear_arith);
    assert(nkv <= nkv * hd && hd <= nkv * hd) by (nonlinear_arith)
        requires
            nkv > 0,
            hd > 0,
    ;
}

/// The query and key heads of token `t`, normalised, turned and, with its values,
/// stored.
proof fn lemma_heads_stored(l: LayerRun, x: DeviceMemory, t: int)
    requires
        l.wf(),
        0 <= t < l.batch,
        l.attended_so_far(x, t),
    ensures
        ({
            let plan = functions::token_attention(l.w, l.layer, t, l.pos_start as int, l.c);
            let s1 = memory_model::after_launch(l.k, x, plan[0]->Dispatch_0);
            let s2 = memory_model::after_launch(l.k, s1, plan[1]->Dispatch_0);
            let s3 = memory_model::after_launch(l.k, s2, plan[2]->Dispatch_0);
            &&& forall|head: int|
                0 <= head < l.c.n_q_heads ==> #[trigger] s3.vector(
                    Buf::Prefill(PrefillBuf::QRope),
                    head * l.hd(),
                    l.hd(),
                ) == l.turned_query(t, head)
            &&& forall|buf: Buf, a: int, g: int, p: int, d: int| #[trigger]
                (s3.cache)(buf, a, g, p, d) == l.cache_after(t + 1, buf, a, g, p, d)
            &&& forall|buf: Buf, i: int|
                buf != Buf::Prefill(PrefillBuf::QNormed) && buf != Buf::Prefill(
                    PrefillBuf::KNormed,
                ) && buf != Buf::Prefill(PrefillBuf::QRope) && buf != Buf::Prefill(
                    PrefillBuf::KRope,
                ) ==> #[trigger] (s3.at)(buf, i) == (x.at)(buf, i)
        }),
{
    let (nq, nkv, hd) = (l.c.n_q_heads as int, l.c.n_kv_heads as int, l.hd());
    let rows = l.c.qkv_rows();
    let plan = functions::token_attention(l.w, l.layer, t, l.pos_start as int, l.c);
    lemma_offsets(l, t);
    lemma_parts(nq, nkv, hd, 0, nkv);
    let qkv = Buf::Prefill(PrefillBuf::Qkv);
    let (qn, kn) = (Buf::Prefill(PrefillBuf::QNormed), Buf::Prefill(PrefillBuf::KNormed));
    let (qr, kr) = (Buf::Prefill(PrefillBuf::QRope), Buf::Prefill(PrefillBuf::KRope));
    let s1 = memory_model::after_launch(l.k, x, plan[0]->Dispatch_0);
    let s2 = memory_model::after_launch(l.k, s1, plan[1]->Dispatch_0);
    let s3 = memory_model::after_launch(l.k, s2, plan[2]->Dispatch_0);
    let q_weight = l.weight(weight_buf(l.w.q_norm), hd);
    let k_weight = l.weight(weight_buf(l.w.k_norm), hd);
    assert(x.vector(weight_buf(l.w.q_norm), 0, hd) =~= q_weight);
    assert(x.vector(weight_buf(l.w.k_norm), 0, hd) =~= k_weight);
    assert forall|head: int| 0 <= head < nq implies #[trigger] s1.vector(qn, head * hd, hd)
        == normalised(l.k, q_weight, l.c.eps, l.query(t, head)) by {
        lemma_parts(nq, nkv, hd, head, nq);
        let part = x.vector(qkv, t * rows + head * hd, hd);
        assert forall|i: int| 0 <= i < hd implies #[trigger] part[i] == l.query(t, head)[i] by {
            let r = head * hd + i;
            assert((x.at)(qkv, t * rows + r) == (l.k.dot)(
                l.ternary,
                weight_buf(l.w.qkv),
                r,
                l.normed(t),
            ));
            assert(t * rows + head * hd + i == t * rows + r);
        }
        assert(part =~= l.query(t, head));
        let got = s1.vector(qn, head * hd, hd);
        let goal = normalised(l.k, q_weight, l.c.eps, l.query(t, head));
        assert forall|i: int| 0 <= i < hd implies #[trigger] got[i] == goal[i] by {
            planes::lemma_matrix_index(head, i, nq, hd);
        }
        assert(got =~= goal);
    }
    assert forall|g: int| 0 <= g < nkv implies #[trigger] s1.vector(kn, g * hd, hd)
        == normalised(l.k, k_weight, l.c.eps, l.key(t, g)) by {
        lemma_parts(nq, nkv, hd, g, nkv);
        let part = x.vector(qkv, t * rows + nq * hd + g * hd, hd);
        assert forall|i: int| 0 <= i < hd implies #[trigger] part[i] == l.key(t, g)[i] by {
            let r = nq * hd + g * hd + i;
            assert((x.at)(qkv, t * rows + r) == (l.k.dot)(
                l.ternary,
                weight_buf(l.w.qkv),
                r,
                l.normed(t),
            ));
            assert(t * rows + nq * hd + g * hd + i == t * rows + r);
        }
        assert(part =~= l.key(t, g));
        let got = s1.vector(kn, g * hd, hd);
        let goal = normalised(l.k, k_weight, l.c.eps, l.key(t, g));
        assert forall|i: int| 0 <= i < hd implies #[trigger] got[i] == goal[i] by {
            planes::lemma_matrix_index(g, i, nkv, hd);
        }
        assert(got =~= goal);
    }
    let half = hd / 2;
    let (cos, sin) = (l.cosines(t), l.sines(t));
    assert(s1.vector(Buf::Prefill(PrefillBuf::Cos), t * half, half) =~= cos);
    assert(s1.vector(Buf::Prefill(PrefillBuf::Sin), t * half, half) =~= sin);
    assert(2 * half == hd);
    assert forall|head: int| 0 <= head < nq implies #[trigger] s2.vector(qr, head * hd, hd)
        == l.turned_query(t, head) by {
        assert(s1.vector(qn, head * hd, hd) == normalised(
            l.k,
            q_weight,
            l.c.eps,
            l.query(t, head),
        ));
        let got = s2.vector(qr, head * hd, hd);
        let goal = l.turned_query(t, head);
        assert forall|i: int| 0 <= i < hd implies #[trigger] got[i] == goal[i] by {
            planes::lemma_matrix_index(head, i, nq, hd);
        }
        assert(got =~= goal);
    }
    assert forall|g: int, d: int| 0 <= g < nkv && 0 <= d < hd implies #[trigger] (s2.at)(
        kr,
        g * hd + d,
    ) == l.turned_key(t, g)[d] by {
        assert(s1.vector(kn, g * hd, hd) == normalised(l.k, k_weight, l.c.eps, l.key(t, g)));
        planes::lemma_matrix_index(g, d, nkv, hd);
    }
    assert forall|head: int| 0 <= head < nq implies #[trigger] s3.vector(qr, head * hd, hd)
        == l.turned_query(t, head) by {
        assert(s2.vector(qr, head * hd, hd) == l.turned_query(t, head));
        assert(s3.vector(qr, head * hd, hd) =~= s2.vector(qr, head * hd, hd));
    }
    let pos = l.pos_start + t;
    assert forall|buf: Buf, a: int, g: int, p: int, d: int| #[trigger]
        (s3.cache)(buf, a, g, p, d) == l.cache_after(t + 1, buf, a, g, p, d) by {
        assert((x.cache)(buf, a, g, p, d) == l.cache_after(t, buf, a, g, p, d));
        if a == l.layer && p == pos && 0 <= g < nkv && 0 <= d < hd {
            if buf == Buf::KCache {
                assert((s2.at)(kr, g * hd + d) == l.turned_key(t, g)[d]);
            } else if buf == Buf::VCache {
                lemma_parts(nq, nkv, hd, g, nkv);
                let r = (nq + nkv) * hd + g * hd + d;
                assert((x.at)(qkv, t * rows + r) == (l.k.dot)(
                    l.ternary,
                    weight_buf(l.w.qkv),
                    r,
                    l.normed(t),
                ));
                assert(t * rows + (nq + nkv) * hd + (g * hd + d) == t * rows + r);
                assert(l.value(t, g)[d] == (l.k.dot)(
                    l.ternary,
                    weight_buf(l.w.qkv),
                    r,
                    l.normed(t),
                ));
            }
        }
    }
}

/// What the cache gives of a position that has been stored or was there before.
proof fn lemma_cached(l: LayerRun, s: DeviceMemory, n: int, g: int, p: int)
    requires
        0 <= n <= l.batch,
        0 <= g < l.c.n_kv_heads,
        p < l.pos_start + n,
        forall|buf: Buf, a: int, g: int, p: int, d: int| #[trigger]
            (s.cache)(buf, a, g, p, d) == l.cache_after(n, buf, a, g, p, d),
    ensures
        s.cached(Buf::KCache, l.layer as int, g, p, l.hd()) == l.key_at(p, g),
        forall|d: int|
            0 <= d < l.hd() ==> #[trigger] (s.cache)(Buf::VCache, l.layer as int, g, p, d)
                == l.value_at(p, g)[d],
{
    let got = s.cached(Buf::KCache, l.layer as int, g, p, l.hd());
    let goal = l.key_at(p, g);
    assert forall|d: int| 0 <= d < l.hd() implies #[trigger] got[d] == goal[d] by {}
    assert(got =~= goal);
}

/// The attention of token `t`.
proof fn lemma_token(l: LayerRun, x: DeviceMemory, t: int)
    requires
        l.wf(),
        0 <= t < l.batch,
        l.attended_so_far(x, t),
    ensures
        ({
            let plan = functions::token_attention(l.w, l.layer, t, l.pos_start as int, l.c);
            let s1 = memory_model::after_launch(l.k, x, plan[0]->Dispatch_0);
            let s2 = memory_model::after_launch(l.k, s1, plan[1]->Dispatch_0);
            let s3 = memory_model::after_launch(l.k, s2, plan[2]->Dispatch_0);
            let s4 = memory_model::after_launch(l.k, s3, plan[3]->Dispatch_0);
            let s5 = memory_model::after_launch(l.k, s4, plan[4]->Dispatch_0);
            let s6 = memory_model::after_launch(l.k, s5, plan[5]->Dispatch_0);
            l.attended_so_far(s6, t + 1)
        }),
{
    let (nq, nkv, hd) = (l.c.n_q_heads as int, l.c.n_kv_heads as int, l.hd());
    let q = nq * hd;
    let ms = l.c.max_seq_len as int;
    let plan = functions::token_attention(l.w, l.layer, t, l.pos_start as int, l.c);
    lemma_offsets(l, t);
    lemma_heads_stored(l, x, t);
    let scores = Buf::Prefill(PrefillBuf::Scores);
    let s1 = memory_model::after_launch(l.k, x, plan[0]->Dispatch_0);
    let s2 = memory_model::after_launch(l.k, s1, plan[1]->Dispatch_0);
    let s3 = memory_model::after_launch(l.k, s2, plan[2]->Dispatch_0);
    let s4 = memory_model::after_launch(l.k, s3, plan[3]->Dispatch_0);
    let s5 = memory_model::after_launch(l.k, s4, plan[4]->Dispatch_0);
    let s6 = memory_model::after_launch(l.k, s5, plan[5]->Dispatch_0);
    let n = l.pos_start + t + 1;
    let per = nq / nkv;
    assert(per > 0 && per * nkv == nq) by {
        vstd::arithmetic::div_mod::lemma_fundamental_div_mod(nq, nkv);
        assert(nkv * per == nq);
        assert(per > 0) by (nonlinear_arith)
            requires
                nkv * per == nq,
                nq > 0,
                nkv > 0,
        ;
        assert(per * nkv == nkv * per) by (nonlinear_arith);
    }
    assert forall|head: int| 0 <= head < nq implies 0 <= #[trigger] l.group(head) < nkv by {
        assert(0 <= head / per < nkv) by (nonlinear_arith)
            requires
                0 <= head < nq,
                per * nkv == nq,
                per > 0,
        ;
    }
    assert forall|head: int| 0 <= head < nq implies #[trigger] s4.vector(scores, head * ms, n)
        == l.scores(t, head) by {
        let got = s4.vector(scores, head * ms, n);
        let goal = l.scores(t, head);
        assert(s3.vector(Buf::Prefill(PrefillBuf::QRope), head * hd, hd) == l.turned_query(
            t,
            head,
        ));
        assert(0 <= l.group(head) < nkv);
        assert forall|p: int| 0 <= p < n implies #[trigger] got[p] == goal[p] by {
            planes::lemma_matrix_index(head, p, nq, ms);
            lemma_cached(l, s3, t + 1, l.group(head), p);
        }
        assert(got =~= goal);
    }
    assert forall|head: int| 0 <= head < nq implies #[trigger] s5.vector(scores, head * ms, n)
        == l.shares(t, head) by {
        let got = s5.vector(scores, head * ms, n);
        let goal = l.shares(t, head);
        assert(s4.vector(scores, head * ms, n) == l.scores(t, head));
        assert forall|p: int| 0 <= p < n implies #[trigger] got[p] == goal[p] by {
            planes::lemma_matrix_index(head, p, nq, ms);
        }
        assert(got =~= goal);
    }
    let out = Buf::Prefill(PrefillBuf::AttnOut);
    let got = s6.vector(out, t * q, q);
    let goal = l.attended(t);
    assert forall|i: int| 0 <= i < q implies #[trigger] got[i] == goal[i] by {
        planes::lemma_matrix_split(i, nq, hd);
        let head = i / hd;
        assert(s5.vector(scores, head * ms, n) == l.shares(t, head));
        let g = l.group(head);
        assert(0 <= g < nkv);
        let stored = Seq::new(
            n as nat,
            |p: int| (s5.cache)(Buf::VCache, l.layer as int, g, p, i % hd),
        );
        let wanted = Seq::new(n as nat, |p: int| l.value_at(p, g)[i % hd]);
        assert forall|p: int| 0 <= p < n implies #[trigger] stored[p] == wanted[p] by {
            lemma_cached(l, s3, t + 1, g, p);
            assert((s5.cache)(Buf::VCache, l.layer as int, g, p, i % hd) == (s3.cache)(
                Buf::VCache,
                l.layer as int,
                g,
                p,
                i % hd,
            ));
        }
        assert(stored =~= wanted);
    }
    assert(got =~= goal);
    assert forall|u: int| 0 <= u < t + 1 implies #[trigger] s6.vector(out, u * q, q)
        == l.attended(u) by {
        if u < t {
            assert(x.vector(out, u * q, q) == l.attended(u));
            assert(u * q + q <= t * q) by (nonlinear_arith)
                requires
                    u + 1 <= t,
                    q >= 0,
            ;
            assert(s6.vector(out, u * q, q) =~= x.vector(out, u * q, q));
        }
    }
    let rows = l.c.qkv_rows();
    assert forall|u: int, r: int| 0 <= u < l.batch && 0 <= r < rows implies #[trigger] (s6.at)(
        Buf::Prefill(PrefillBuf::Qkv),
        u * rows + r,
    ) == (l.k.dot)(l.ternary, weight_buf(l.w.qkv), r, l.normed(u)) by {
        assert((x.at)(Buf::Prefill(PrefillBuf::Qkv), u * rows + r) == (l.k.dot)(
            l.ternary,
            weight_buf(l.w.qkv),
            r,
            l.normed(u),
        ));
    }
    assert forall|buf: Buf, a: int, g: int, p: int, d: int| #[trigger]
        (s6.cache)(buf, a, g, p, d) == l.cache_after(t + 1, buf, a, g, p, d) by {
        assert((s3.cache)(buf, a, g, p, d) == l.cache_after(t + 1, buf, a, g, p, d));
    }
    assert forall|i: int| #[trigger]
        (s6.at)(Buf::Prefill(PrefillBuf::Hidden), i) == (l.s.at)(
            Buf::Prefill(PrefillBuf::Hidden),
            i,
        ) by {
        assert((s3.at)(Buf::Prefill(PrefillBuf::Hidden), i) == (x.at)(
            Buf::Prefill(PrefillBuf::Hidden),
            i,
        ));
    }
}

/// The attention of the first `n` tokens.
proof fn lemma_tokens(
    l: LayerRun,
    operands: spec_fn(Buf, int) -> u32,
    junk: spec_fn(Buf, int) -> u32,
    x: DeviceMemory,
    n: nat,
)
    requires
        l.wf(),
        n <= l.batch,
        l.attended_so_far(x, 0),
    ensures
        l.attended_so_far(
            memory_model::after_plan(
                l.k,
                operands,
                junk,
                x,
                functions::tokens_attention(l.w, l.layer, n, l.pos_start as int, l.c),
            ),
            n as int,
        ),
    decreases n,
{
    if n > 0 {
        let t = n - 1;
        lemma_tokens(l, operands, junk, x, t as nat);
        let head = functions::tokens_attention(l.w, l.layer, t as nat, l.pos_start as int, l.c);
        let token = functions::token_attention(l.w, l.layer, t, l.pos_start as int, l.c);
        memory_model::lemma_in_turn(l.k, operands, junk, x, head, token);
        let y = memory_model::after_plan(l.k, operands, junk, x, head);
        lemma_token(l, y, t);
        reveal_with_fuel(memory_model::after_some, 7);
        assert(token.len() == 6);
    }
}

/// Normalised hidden states and their fused projections.
proof fn lemma_projected(l: LayerRun)
    requires
        l.wf(),
    ensures
        ({
            let plan = causal::layer_plan(
                l.w,
                l.layer,
                l.batch,
                l.pos_start,
                l.c,
                l.ternary,
            );
            let s1 = memory_model::after_launch(l.k, l.s, plan[0]->Dispatch_0);
            let s2 = memory_model::after_launch(l.k, s1, plan[1]->Dispatch_0);
            l.attended_so_far(s2, 0)
        }),
{
    let plan = causal::layer_plan(l.w, l.layer, l.batch, l.pos_start, l.c, l.ternary);
    let (normed, qkv) = (Buf::Prefill(PrefillBuf::Normed), Buf::Prefill(PrefillBuf::Qkv));
    let hidden = Buf::Prefill(PrefillBuf::Hidden);
    let s1 = memory_model::after_launch(l.k, l.s, plan[0]->Dispatch_0);
    let s2 = memory_model::after_launch(l.k, s1, plan[1]->Dispatch_0);
    let (h, b) = (l.c.hidden_size as int, l.batch as int);
    let rows = l.c.qkv_rows();
    let (nq, nkv, hd) = (l.c.n_q_heads as int, l.c.n_kv_heads as int, l.hd());
    lemma_parts(nq, nkv, hd, 0, nkv);
    assert(s1 == memory_model::norm_launched(
        l.k,
        l.s,
        weight_buf(l.w.attn_norm),
        l.c.eps,
        hidden,
        0,
        normed,
        h,
        b,
    ));
    assert(s2 == memory_model::product_launched(
        l.k,
        s1,
        l.ternary,
        weight_buf(l.w.qkv),
        normed,
        0,
        qkv,
        0,
        rows,
        h,
        b,
    ));
    assert forall|t: int, r: int| 0 <= t < l.batch && 0 <= r < rows implies #[trigger] (s2.at)(
        qkv,
        t * rows + r,
    ) == (l.k.dot)(l.ternary, weight_buf(l.w.qkv), r, l.normed(t)) by {
        memory_model::lemma_norm_row(
            l.k,
            l.s,
            weight_buf(l.w.attn_norm),
            l.c.eps,
            hidden,
            0,
            normed,
            h,
            b,
            t,
        );
        memory_model::lemma_product_row(
            l.k,
            s1,
            l.ternary,
            weight_buf(l.w.qkv),
            normed,
            0,
            qkv,
            0,
            rows,
            h,
            b,
            t,
        );
        assert(0 + t * h == t * h && 0 + t * rows == t * rows);
        let column = s2.vector(qkv, t * rows, rows);
        assert(column[r] == rows_times(
            l.k,
            l.ternary,
            weight_buf(l.w.qkv),
            0,
            rows,
            l.normed(t),
        )[r]);
    }
}

/// The rest of a layer on one token: what is behind the attention.
spec fn finished(l: LayerRun, x: DeviceMemory, y: DeviceMemory) -> bool {
    let h = l.c.hidden_size as int;
    &&& forall|t: int|
        0 <= t < l.batch ==> #[trigger] y.vector(Buf::Prefill(PrefillBuf::Hidden), t * h, h)
            == l.output(t)
    &&& y.cache == x.cache
    &&& l.keeps_inputs(y)
}

/// What is behind the attention, with 1-bit weights.
proof fn lemma_rest_one_bit(l: LayerRun, x: DeviceMemory)
    requires
        l.wf(),
        !l.ternary,
        l.attended_so_far(x, l.batch as int),
    ensures
        ({
            let plan = functions::layer_prefill(l.w, l.layer, l.batch, l.pos_start, l.c);
            let n = plan.len();
            let s1 = memory_model::after_launch(l.k, x, plan[n - 4]->Dispatch_0);
            let s2 = memory_model::after_launch(l.k, s1, plan[n - 3]->Dispatch_0);
            let s3 = memory_model::after_launch(l.k, s2, plan[n - 2]->Dispatch_0);
            let s4 = memory_model::after_launch(l.k, s3, plan[n - 1]->Dispatch_0);
            finished(l, x, s4)
        }),
{
    let plan = functions::layer_prefill(l.w, l.layer, l.batch, l.pos_start, l.c);
    let n = plan.len();
    let (nq, nkv, hd) = (l.c.n_q_heads as int, l.c.n_kv_heads as int, l.hd());
    lemma_parts(nq, nkv, hd, 0, nkv);
    let hidden = Buf::Prefill(PrefillBuf::Hidden);
    let normed = Buf::Prefill(PrefillBuf::Normed);
    let swiglu = Buf::Prefill(PrefillBuf::Swiglu);
    let out = Buf::Prefill(PrefillBuf::AttnOut);
    let (h, b, q) = (l.c.hidden_size as int, l.batch as int, nq * hd);
    let inter = l.c.intermediate_size as int;
    let s1 = memory_model::after_launch(l.k, x, plan[n - 4]->Dispatch_0);
    let s2 = memory_model::after_launch(l.k, s1, plan[n - 3]->Dispatch_0);
    let s3 = memory_model::after_launch(l.k, s2, plan[n - 2]->Dispatch_0);
    let s4 = memory_model::after_launch(l.k, s3, plan[n - 1]->Dispatch_0);
    assert forall|t: int| 0 <= t < b implies #[trigger] s4.vector(hidden, t * h, h) == l.output(
        t,
    ) by {
        assert(x.vector(out, t * q, q) == l.attended(t));
        assert(s1.vector(hidden, t * h, h) == l.middle(t)) by {
            let got = s1.vector(hidden, t * h, h);
            let goal = l.middle(t);
            assert forall|r: int| 0 <= r < h implies #[trigger] got[r] == goal[r] by {
                planes::lemma_matrix_index(t, r, b, h);
                assert((x.at)(hidden, t * h + r) == (l.s.at)(hidden, t * h + r));
            }
            assert(got =~= goal);
        }
        let weight = l.weight(weight_buf(l.w.ffn_norm), h);
        assert(s1.vector(weight_buf(l.w.ffn_norm), 0, h) =~= weight);
        assert(s2 == memory_model::norm_launched(
            l.k,
            s1,
            weight_buf(l.w.ffn_norm),
            l.c.eps,
            hidden,
            0,
            normed,
            h,
            b,
        ));
        memory_model::lemma_norm_row(
            l.k,
            s1,
            weight_buf(l.w.ffn_norm),
            l.c.eps,
            hidden,
            0,
            normed,
            h,
            b,
            t,
        );
        assert(0 + t * h == t * h);
        let x2 = normalised(l.k, weight, l.c.eps, l.middle(t));
        assert(s2.vector(normed, t * h, h) == x2);
        assert(s3.vector(swiglu, t * inter, inter) == l.activated(t)) by {
            let got = s3.vector(swiglu, t * inter, inter);
            let goal = l.activated(t);
            assert forall|i: int| 0 <= i < inter implies #[trigger] got[i] == goal[i] by {
                planes::lemma_matrix_index(t, i, b, inter);
            }
            assert(got =~= goal);
        }
        let got = s4.vector(hidden, t * h, h);
        let goal = l.output(t);
        assert forall|r: int| 0 <= r < h implies #[trigger] got[r] == goal[r] by {
            planes::lemma_matrix_index(t, r, b, h);
            assert(s1.vector(hidden, t * h, h)[r] == (s1.at)(hidden, t * h + r));
        }
        assert(got =~= goal);
    }
}

/// What is behind the attention, with ternary weights.
proof fn lemma_rest_ternary(l: LayerRun, x: DeviceMemory)
    requires
        l.wf(),
        l.ternary,
        l.attended_so_far(x, l.batch as int),
    ensures
        ({
            let plan = functions::layer_prefill_ternary(
                l.w,
                l.layer,
                l.batch,
                l.pos_start,
                l.c,
            );
            let n = plan.len();
            let s1 = memory_model::after_launch(l.k, x, plan[n - 7]->Dispatch_0);
            let s2 = memory_model::after_launch(l.k, s1, plan[n - 6]->Dispatch_0);
            let s3 = memory_model::after_launch(l.k, s2, plan[n - 5]->Dispatch_0);
            let s4 = memory_model::after_launch(l.k, s3, plan[n - 4]->Dispatch_0);
            let s5 = memory_model::after_launch(l.k, s4, plan[n - 3]->Dispatch_0);
            let s6 = memory_model::after_launch(l.k, s5, plan[n - 2]->Dispatch_0);
            let s7 = memory_model::after_launch(l.k, s6, plan[n - 1]->Dispatch_0);
            finished(l, x, s7)
        }),
{
    let plan = functions::layer_prefill_ternary(l.w, l.layer, l.batch, l.pos_start, l.c);
    let n = plan.len();
    let (nq, nkv, hd) = (l.c.n_q_heads as int, l.c.n_kv_heads as int, l.hd());
    lemma_parts(nq, nkv, hd, 0, nkv);
    let hidden = Buf::Prefill(PrefillBuf::Hidden);
    let normed = Buf::Prefill(PrefillBuf::Normed);
    let gate_up = Buf::Prefill(PrefillBuf::GateUp);
    let swiglu = Buf::Prefill(PrefillBuf::Swiglu);
    let out = Buf::Prefill(PrefillBuf::AttnOut);
    let (h, b, q) = (l.c.hidden_size as int, l.batch as int, nq * hd);
    let inter = l.c.intermediate_size as int;
    let s1 = memory_model::after_launch(l.k, x, plan[n - 7]->Dispatch_0);
    let s2 = memory_model::after_launch(l.k, s1, plan[n - 6]->Dispatch_0);
    let s3 = memory_model::after_launch(l.k, s2, plan[n - 5]->Dispatch_0);
    let s4 = memory_model::after_launch(l.k, s3, plan[n - 4]->Dispatch_0);
    let s5 = memory_model::after_launch(l.k, s4, plan[n - 3]->Dispatch_0);
    let s6 = memory_model::after_launch(l.k, s5, plan[n - 2]->Dispatch_0);
    let s7 = memory_model::after_launch(l.k, s6, plan[n - 1]->Dispatch_0);
    assert forall|t: int| 0 <= t < b implies #[trigger] s7.vector(hidden, t * h, h) == l.output(
        t,
    ) by {
        assert(x.vector(out, t * q, q) == l.attended(t));
        assert(0 + t * h == t * h && 0 + t * q == t * q && 0 + t * inter == t * inter && 0 + t
            * (2 * inter) == t * (2 * inter));
        memory_model::lemma_product_row(
            l.k,
            x,
            true,
            weight_buf(l.w.output_proj),
            out,
            0,
            normed,
            0,
            h,
            q,
            b,
            t,
        );
        let projected = rows_times(
            l.k,
            true,
            weight_buf(l.w.output_proj),
            0,
            h,
            l.attended(t),
        );
        assert(s1.vector(normed, t * h, h) == projected);
        assert(s2.vector(hidden, t * h, h) == l.middle(t)) by {
            let got = s2.vector(hidden, t * h, h);
            let goal = l.middle(t);
            assert forall|r: int| 0 <= r < h implies #[trigger] got[r] == goal[r] by {
                planes::lemma_matrix_index(t, r, b, h);
                assert((x.at)(hidden, t * h + r) == (l.s.at)(hidden, t * h + r));
                assert(s1.vector(normed, t * h, h)[r] == projected[r]);
            }
            assert(got =~= goal);
        }
        let weight = l.weight(weight_buf(l.w.ffn_norm), h);
        assert(s2.vector(weight_buf(l.w.ffn_norm), 0, h) =~= weight);
        memory_model::lemma_norm_row(
            l.k,
            s2,
            weight_buf(l.w.ffn_norm),
            l.c.eps,
            hidden,
            0,
            normed,
            h,
            b,
            t,
        );
        let x2 = normalised(l.k, weight, l.c.eps, l.middle(t));
        assert(s3.vector(normed, t * h, h) == x2);
        memory_model::lemma_product_row(
            l.k,
            s3,
            true,
            weight_buf(l.w.gate_up),
            normed,
            0,
            gate_up,
            0,
            2 * inter,
            h,
            b,
            t,
        );
        let both = rows_times(l.k, true, weight_buf(l.w.gate_up), 0, 2 * inter, x2);
        assert(s4.vector(gate_up, t * (2 * inter), 2 * inter) == both);
        assert(s5.vector(swiglu, t * inter, inter) == l.activated(t)) by {
            let got = s5.vector(swiglu, t * inter, inter);
            let goal = l.activated(t);
            assert forall|i: int| 0 <= i < inter implies #[trigger] got[i] == goal[i] by {
                planes::lemma_matrix_index(t, i, b, inter);
                let v = s4.vector(gate_up, t * (2 * inter), 2 * inter);
                assert(v[i] == both[i] && v[inter + i] == both[inter + i]);
                assert(t * (2 * inter) + (inter + i) == t * (2 * inter) + inter + i);
            }
            assert(got =~= goal);
        }
        memory_model::lemma_product_row(
            l.k,
            s5,
            true,
            weight_buf(l.w.down),
            swiglu,
            0,
            normed,
            0,
            h,
            inter,
            b,
            t,
        );
        let down = rows_times(l.k, true, weight_buf(l.w.down), 0, h, l.activated(t));
        assert(s6.vector(normed, t * h, h) == down);
        let got = s7.vector(hidden, t * h, h);
        let goal = l.output(t);
        assert forall|r: int| 0 <= r < h implies #[trigger] got[r] == goal[r] by {
            planes::lemma_matrix_index(t, r, b, h);
            assert(s2.vector(hidden, t * h, h)[r] == (s2.at)(hidden, t * h + r));
            assert(s6.vector(normed, t * h, h)[r] == down[r]);
        }
        assert(got =~= goal);
    }
}

/// A layer computes what a transformer layer should, token by token, with 1-bit and
/// with ternary weights: queries, keys and values are the first, second and third part
/// of the fused projection's rows, normalised hidden states times them; queries and
/// keys are normalised per head and turned by the token's angles; each query head
/// attends, over the key and value heads of its group, to the cached positions and to
/// the batch's up to its own; the projected attention is added to the hidden state,
/// and to that the down projection of SwiGLU of gate and up. The batch's keys and
/// values, and nothing else, are new in the cache.
pub proof fn law_layer_prefill(
    l: LayerRun,
    operands: spec_fn(Buf, int) -> u32,
    junk: spec_fn(Buf, int) -> u32,
)
    requires
        l.wf(),
    ensures
        ({
            let h = l.c.hidden_size as int;
            let y = memory_model::after_plan(
                l.k,
                operands,
                junk,
                l.s,
                causal::layer_plan(l.w, l.layer, l.batch, l.pos_start, l.c, l.ternary),
            );
            &&& forall|t: int|
                0 <= t < l.batch ==> #[trigger] y.vector(
                    Buf::Prefill(PrefillBuf::Hidden),
                    t * h,
                    h,
                ) == l.output(t)
            &&& forall|buf: Buf, a: int, g: int, p: int, d: int| #[trigger]
                (y.cache)(buf, a, g, p, d) == l.cache_after(l.batch as int, buf, a, g, p, d)
            &&& forall|b: u64, i: int| #[trigger]
                (y.at)(Buf::Weight(b), i) == (l.s.at)(Buf::Weight(b), i)
            &&& forall|i: int| #[trigger]
                (y.at)(Buf::Prefill(PrefillBuf::Cos), i) == (l.s.at)(
                    Buf::Prefill(PrefillBuf::Cos),
                    i,
                )
            &&& forall|i: int| #[trigger]
                (y.at)(Buf::Prefill(PrefillBuf::Sin), i) == (l.s.at)(
                    Buf::Prefill(PrefillBuf::Sin),
                    i,
                )
        }),
{
    let plan = causal::layer_plan(l.w, l.layer, l.batch, l.pos_start, l.c, l.ternary);
    let tokens = functions::tokens_attention(
        l.w,
        l.layer,
        l.batch as nat,
        l.pos_start as int,
        l.c,
    );
    let head = seq![plan[0], plan[1]];
    let rest = plan.skip(2 + tokens.len() as int);
    assert(plan =~= head + tokens + rest);
    memory_model::lemma_in_turn(l.k, operands, junk, l.s, head + tokens, rest);
    memory_model::lemma_in_turn(l.k, operands, junk, l.s, head, tokens);
    let s1 = memory_model::after_plan(l.k, operands, junk, l.s, head);
    let s2 = memory_model::after_plan(l.k, operands, junk, s1, tokens);
    let y = memory_model::after_plan(l.k, operands, junk, s2, rest);
    reveal_with_fuel(memory_model::after_some, 8);
    lemma_projected(l);
    lemma_tokens(l, operands, junk, s1, l.batch as nat);
    let n = plan.len();
    assert(forall|i: int|
        0 <= i < rest.len() ==> #[trigger] rest[i] == plan[n - rest.len() + i]);
    if l.ternary {
        assert(rest.len() == 7);
        lemma_rest_ternary(l, s2);
    } else {
        assert(rest.len() == 4);
        lemma_rest_one_bit(l, s2);
    }
    assert(finished(l, s2, y));
}

} // verus!

//! What a layer's prefill depends on and changes, given what its kernels read and
//! write.

use vstd::prelude::*;

use crate::gpu_backend::metal_graph::device::{Action, Buf, PrefillBuf, Step};
use crate::gpu_backend::metal_prefill::functions;
use crate::gpu_backend::metal_prefill::types::{LayerConfig, LayerWeightRefs};

verus! {

/// Contents of one column of a buffer.
pub type Column = Seq<u32>;

/// What the device holds during a layer: columns of buffers, and a key and a value
/// for every layer and position.
pub struct LayerState {
    /// Columns by buffer; a buffer of one token has one.
    pub columns: Map<Buf, Seq<Column>>,
    /// Cached keys.
    pub keys: Map<(int, int), Column>,
    /// Cached values.
    pub values: Map<(int, int), Column>,
}

/// What kernels make of the columns that they read. Weights and tables are the
/// kernels' own, and every launch may mean something else.
pub struct Meaning {
    /// Of one column.
    pub one: spec_fn(Step, Column) -> Column,
    /// Of one column, for a launch's second result.
    pub other: spec_fn(Step, Column) -> Column,
    /// Of two columns.
    pub two: spec_fn(Step, Column, Column) -> Column,
    /// Of one column and cache entries.
    pub many: spec_fn(Step, Column, Seq<Column>) -> Column,
}

impl LayerState {
    /// Column `c` of a buffer.
    pub open spec fn column(self, buf: Buf, c: int) -> Column {
        self.columns[buf][c]
    }

    /// With other columns in a buffer.
    pub open spec fn with(self, buf: Buf, columns: Seq<Column>) -> LayerState {
        LayerState { columns: self.columns.insert(buf, columns), ..self }
    }
}

/// The cache entries of a layer up to a position.
pub open spec fn entries(cache: Map<(int, int), Column>, layer: int, n: int) -> Seq<Column> {
    Seq::new(n as nat, |p: int| cache[(layer, p)])
}

/// The column that a byte offset falls into.
pub open spec fn column_at(offset: u64, rows: int) -> int {
    offset as int / (rows * 4)
}

/// The state after an action. Batched kernels take every column by itself; the
/// kernels of one token take the column that their offset falls into, and the
/// cache entries of the positions that they are told of.
pub open spec fn after_action(k: Meaning, c: LayerConfig, s: LayerState, a: Action) -> LayerState {
    let qkv = c.qkv_rows();
    match a {
        Action::Dispatch(step) => match step {
            Step::BatchedRmsNorm { input, output, batch, .. } => s.with(
                output,
                Seq::new(batch as nat, |i: int| (k.one)(step, s.column(input, i))),
            ),
            Step::GemmQ1V7 { input, output, batch, .. } => s.with(
                output,
                Seq::new(batch as nat, |i: int| (k.one)(step, s.column(input, i))),
            ),
            Step::GemmTq2V7 { input, output, batch, .. } => s.with(
                output,
                Seq::new(batch as nat, |i: int| (k.one)(step, s.column(input, i))),
            ),
            Step::FusedGateUpSwigluGemm { input, output, batch, .. } => s.with(
                output,
                Seq::new(batch as nat, |i: int| (k.one)(step, s.column(input, i))),
            ),
            Step::BatchedSwiglu { input, output, batch, .. } => s.with(
                output,
                Seq::new(batch as nat, |i: int| (k.one)(step, s.column(input, i))),
            ),
            Step::GemmQ1V7Residual { input, output, batch, residual, .. } => s.with(
                output,
                Seq::new(
                    batch as nat,
                    |i: int| (k.two)(step, s.column(input, i), s.column(residual, i)),
                ),
            ),
            Step::ResidualAdd { target, addend, .. } => s.with(
                target,
                Seq::new(
                    s.columns[target].len(),
                    |i: int| (k.two)(step, s.column(target, i), s.column(addend, i)),
                ),
            ),
            Step::FusedQkNorm { query, query_offset, key, key_offset, q_out, k_out, .. } => s.with(
                q_out,
                seq![(k.one)(step, s.column(query, column_at(query_offset, qkv)))],
            ).with(k_out, seq![(k.other)(step, s.column(key, column_at(key_offset, qkv)))]),
            Step::FusedQkRope { query, key, q_out, k_out, .. } => s.with(
                q_out,
                seq![(k.one)(step, s.column(query, 0))],
            ).with(k_out, seq![(k.other)(step, s.column(key, 0))]),
            Step::FusedKvStore { key, value, value_offset, pos, layer, .. } => LayerState {
                keys: s.keys.insert((layer as int, pos as int), s.column(key, 0)),
                values: s.values.insert(
                    (layer as int, pos as int),
                    (k.one)(step, s.column(value, column_at(value_offset, qkv))),
                ),
                ..s
            },
            Step::AttentionScores { query, scores, seq_len, layer, .. } => s.with(
                scores,
                seq![
                    (k.many)(
                        step,
                        s.column(query, 0),
                        entries(s.keys, layer as int, seq_len as int),
                    ),
                ],
            ),
            Step::BatchedSoftmax { scores, .. } => s.with(
                scores,
                seq![(k.one)(step, s.column(scores, 0))],
            ),
            Step::WeightedSum { scores, output, output_offset, seq_len, layer, .. } => s.with(
                output,
                s.columns[output].update(
                    column_at(output_offset, c.n_q_heads * c.head_dim),
                    (k.many)(
                        step,
                        s.column(scores, 0),
                        entries(s.values, layer as int, seq_len as int),
                    ),
                ),
            ),
            _ => s,
        },
        _ => s,
    }
}

/// The state after the first `n` actions of a plan.
pub open spec fn run(
    k: Meaning,
    c: LayerConfig,
    s: LayerState,
    plan: Seq<Action>,
    n: nat,
) -> LayerState
    decreases n,
{
    if n == 0 {
        s
    } else {
        after_action(k, c, run(k, c, s, plan, (n - 1) as nat), plan[n - 1])
    }
}

/// The state after a whole plan.
pub open spec fn run_all(k: Meaning, c: LayerConfig, s: LayerState, plan: Seq<Action>) -> LayerState {
    run(k, c, s, plan, plan.len())
}

proof fn lemma_run_prefix(
    k: Meaning,
    c: LayerConfig,
    s: LayerState,
    a: Seq<Action>,
    b: Seq<Action>,
    n: nat,
)
    requires
        n <= a.len(),
        n <= b.len(),
        forall|i: int| 0 <= i < n ==> a[i] == b[i],
    ensures
        run(k, c, s, a, n) == run(k, c, s, b, n),
    decreases n,
{
    if n > 0 {
        lemma_run_prefix(k, c, s, a, b, (n - 1) as nat);
    }
}

proof fn lemma_run_concat(
    k: Meaning,
    c: LayerConfig,
    s: LayerState,
    a: Seq<Action>,
    b: Seq<Action>,
    n: nat,
)
    requires
        n <= b.len(),
    ensures
        run(k, c, s, a + b, a.len() + n) == run(k, c, run_all(k, c, s, a), b, n),
    decreases n,
{
    if n == 0 {
        lemma_run_prefix(k, c, s, a + b, a, a.len());
    } else {
        lemma_run_concat(k, c, s, a, b, (n - 1) as nat);
        assert((a + b)[a.len() + n - 1] == b[n - 1]);
    }
}

/// A plan after another is run from where the first ended.
proof fn lemma_run_all_concat(
    k: Meaning,
    c: LayerConfig,
    s: LayerState,
    a: Seq<Action>,
    b: Seq<Action>,
)
    ensures
        run_all(k, c, s, a + b) == run_all(k, c, run_all(k, c, s, a), b),
{
    lemma_run_concat(k, c, s, a, b, b.len());
}

/// Sizes and positions are those that a kernel can be told of.
pub open spec fn tellable(c: LayerConfig, batch_size: usize, pos_start: usize) -> bool {
    &&& c.fits(batch_size, pos_start)
    &&& c.n_q_heads > 0
    &&& pos_start + batch_size <= u32::MAX
}

/// The hidden states.
pub open spec fn hidden() -> Buf {
    Buf::Prefill(PrefillBuf::Hidden)
}

/// The normalised hidden states.
pub open spec fn normed() -> Buf {
    Buf::Prefill(PrefillBuf::Normed)
}

/// The fused projections.
pub open spec fn qkv() -> Buf {
    Buf::Prefill(PrefillBuf::Qkv)
}

/// The attention outputs.
pub open spec fn attn_out() -> Buf {
    Buf::Prefill(PrefillBuf::AttnOut)
}

/// What the attention of token `t` leaves: its key and value at its position, its
/// own column of the output, and all other columns and entries as they were.
pub open spec fn token_effect(
    k: Meaning,
    c: LayerConfig,
    w: LayerWeightRefs,
    layer: usize,
    t: int,
    pos_start: int,
    s: LayerState,
    end: LayerState,
) -> bool {
    let plan = functions::token_attention(w, layer, t, pos_start, c);
    let pos = pos_start + t;
    let at = (layer as int, pos);
    let col = s.column(qkv(), t);
    let query = (k.one)(plan[1]->Dispatch_0, (k.one)(plan[0]->Dispatch_0, col));
    let key = (k.other)(plan[1]->Dispatch_0, (k.other)(plan[0]->Dispatch_0, col));
    let keys = s.keys.insert(at, key);
    let values = s.values.insert(at, (k.one)(plan[2]->Dispatch_0, col));
    let scores = (k.many)(plan[3]->Dispatch_0, query, entries(keys, layer as int, pos + 1));
    let shares = (k.one)(plan[4]->Dispatch_0, scores);
    let out = (k.many)(plan[5]->Dispatch_0, shares, entries(values, layer as int, pos + 1));
    &&& end.keys == keys
    &&& end.values == values
    &&& end.columns[hidden()] == s.columns[hidden()]
    &&& end.columns[qkv()] == s.columns[qkv()]
    &&& end.columns[attn_out()] == s.columns[attn_out()].update(t, out)
}

proof fn lemma_column_at(t: int, part: int, rows: int, offset: u64)
    requires
        0 <= t,
        0 <= part < rows,
        offset == t * rows * 4 + part * 4,
    ensures
        column_at(offset, rows) == t,
{
    assert(t * rows * 4 == t * (rows * 4)) by (nonlinear_arith);
    vstd::arithmetic::div_mod::lemma_fundamental_div_mod_converse(
        offset as int,
        rows * 4,
        t,
        part * 4,
    );
}

/// The attention of one token has the effect that it should.
proof fn lemma_token_effect(
    k: Meaning,
    c: LayerConfig,
    w: LayerWeightRefs,
    layer: usize,
    t: int,
    batch_size: usize,
    pos_start: usize,
    s: LayerState,
)
    requires
        tellable(c, batch_size, pos_start),
        0 <= t < batch_size,
        s.columns[attn_out()].len() == batch_size,
    ensures
        token_effect(
            k,
            c,
            w,
            layer,
            t,
            pos_start as int,
            s,
            run_all(k, c, s, functions::token_attention(w, layer, t, pos_start as int, c)),
        ),
{
    let plan = functions::token_attention(w, layer, t, pos_start as int, c);
    let (nq, nkv, hd) = (c.n_q_heads as int, c.n_kv_heads as int, c.head_dim as int);
    let rows = c.qkv_rows();
    let b = batch_size as int;
    functions::lemma_token_column(t, b, nq, nkv, hd);
    let q = nq * hd;
    assert(q > 0) by (nonlinear_arith)
        requires
            q == nq * hd,
            nq > 0,
            hd > 0,
    ;
    let kv = nkv * hd;
    assert(kv > 0) by (nonlinear_arith)
        requires
            kv == nkv * hd,
            nkv > 0,
            hd > 0,
    ;
    assert((nq + nkv) * hd == q + kv && rows == q + 2 * kv) by (nonlinear_arith)
        requires
            q == nq * hd,
            kv == nkv * hd,
            rows == (nq + 2 * nkv) * hd,
    ;
    assert(b * rows * 4 == b * (rows * 4)) by (nonlinear_arith);
    assert(t * rows + rows <= b * rows) by (nonlinear_arith)
        requires
            t + 1 <= b,
            rows >= 0,
    ;
    let col = t * rows * 4;
    assert(0 <= col && col + rows * 4 <= usize::MAX) by (nonlinear_arith)
        requires
            col == t * rows * 4,
            t * rows + rows <= b * rows,
            b * rows * 4 <= usize::MAX,
            t >= 0,
            rows > 0,
    ;
    lemma_column_at(t, 0, rows, col as u64);
    lemma_column_at(t, q, rows, (col + nq * hd * 4) as u64);
    lemma_column_at(t, q + kv, rows, (col + (nq + nkv) * hd * 4) as u64);
    assert(t * nq * hd == t * q) by (nonlinear_arith)
        requires
            q == nq * hd,
    ;
    assert(0 <= t * q * 4 <= col) by (nonlinear_arith)
        requires
            col == t * rows * 4,
            0 <= t,
            0 <= q <= rows,
    ;
    lemma_column_at(t, 0, q, (t * nq * hd * 4) as u64);
    reveal_with_fuel(run, 7);
    let s1 = after_action(k, c, s, plan[0]);
    let s2 = after_action(k, c, s1, plan[1]);
    let s3 = after_action(k, c, s2, plan[2]);
    let s4 = after_action(k, c, s3, plan[3]);
    let s5 = after_action(k, c, s4, plan[4]);
    let s6 = after_action(k, c, s5, plan[5]);
    assert(run_all(k, c, s, plan) == s6);
    assert(token_effect(k, c, w, layer, t, pos_start as int, s, s6));
}

/// A buffer has `batch` columns in both states, equal up to column `t`.
pub open spec fn agree(a: LayerState, b: LayerState, buf: Buf, batch: int, t: int) -> bool {
    &&& a.columns[buf].len() == batch
    &&& b.columns[buf].len() == batch
    &&& forall|i: int| 0 <= i < batch && i <= t ==> #[trigger] a.column(buf, i) == b.column(buf, i)
}

/// The caches are the same but for a layer's positions behind `last`.
pub open spec fn same_cache(a: LayerState, b: LayerState, layer: int, last: int) -> bool {
    forall|l: int, p: int|
        !(l == layer && p > last) ==> #[trigger] a.keys[(l, p)] == b.keys[(l, p)] && a.values[(
            l,
            p,
        )] == b.values[(l, p)]
}

/// The caches are the same but for a layer's positions from `first` to `end`.
pub open spec fn changed_only(
    before: LayerState,
    after: LayerState,
    layer: int,
    first: int,
    end: int,
) -> bool {
    forall|l: int, p: int|
        !(l == layer && first <= p < end) ==> #[trigger] after.keys[(l, p)] == before.keys[(l, p)]
            && after.values[(l, p)] == before.values[(l, p)]
}

/// Tokens in turn: up to token `t` both runs leave the same, and each changes its
/// own positions of the cache alone.
proof fn lemma_tokens_are_causal(
    k: Meaning,
    c: LayerConfig,
    w: LayerWeightRefs,
    layer: usize,
    n: nat,
    t: int,
    batch_size: usize,
    pos_start: usize,
    a: LayerState,
    b: LayerState,
)
    requires
        tellable(c, batch_size, pos_start),
        n <= batch_size,
        0 <= t < batch_size,
        agree(a, b, qkv(), batch_size as int, t),
        a.columns[attn_out()].len() == batch_size,
        b.columns[attn_out()].len() == batch_size,
        same_cache(a, b, layer as int, pos_start + t),
    ensures
        ({
            let plan = functions::tokens_attention(w, layer, n, pos_start as int, c);
            let x = run_all(k, c, a, plan);
            let y = run_all(k, c, b, plan);
            &&& x.columns[hidden()] == a.columns[hidden()]
            &&& y.columns[hidden()] == b.columns[hidden()]
            &&& x.columns[qkv()] == a.columns[qkv()]
            &&& y.columns[qkv()] == b.columns[qkv()]
            &&& x.columns[attn_out()].len() == batch_size
            &&& y.columns[attn_out()].len() == batch_size
            &&& forall|i: int|
                0 <= i < n && i <= t ==> #[trigger] x.column(attn_out(), i) == y.column(
                    attn_out(),
                    i,
                )
            &&& same_cache(x, y, layer as int, pos_start + t)
            &&& changed_only(a, x, layer as int, pos_start as int, pos_start + n)
        }),
    decreases n,
{
    if n > 0 {
        let u = n - 1;
        lemma_tokens_are_causal(k, c, w, layer, u as nat, t, batch_size, pos_start, a, b);
        let head = functions::tokens_attention(w, layer, u as nat, pos_start as int, c);
        let token = functions::token_attention(w, layer, u, pos_start as int, c);
        let (a1, b1) = (run_all(k, c, a, head), run_all(k, c, b, head));
        lemma_run_all_concat(k, c, a, head, token);
        lemma_run_all_concat(k, c, b, head, token);
        lemma_token_effect(k, c, w, layer, u, batch_size, pos_start, a1);
        lemma_token_effect(k, c, w, layer, u, batch_size, pos_start, b1);
        let (a2, b2) = (run_all(k, c, a1, token), run_all(k, c, b1, token));
        let plan = functions::tokens_attention(w, layer, n, pos_start as int, c);
        assert(plan == head + token);
        let l = layer as int;
        if u <= t {
            assert(a1.column(qkv(), u) == a.column(qkv(), u));
            assert(b1.column(qkv(), u) == b.column(qkv(), u));
            assert(a.column(qkv(), u) == b.column(qkv(), u));
            assert(entries(a2.keys, l, pos_start + u + 1) =~= entries(
                b2.keys,
                l,
                pos_start + u + 1,
            ));
            assert forall|p: int| 0 <= p < pos_start + u + 1 implies a2.values[(l, p)]
                == b2.values[(l, p)] by {
                assert(a1.keys[(l, p)] == b1.keys[(l, p)]);
            }
            assert(entries(a2.values, l, pos_start + u + 1) =~= entries(
                b2.values,
                l,
                pos_start + u + 1,
            ));
            assert(a2.column(attn_out(), u) == b2.column(attn_out(), u));
        }
        assert forall|i: int| 0 <= i < n && i <= t implies #[trigger] a2.column(attn_out(), i)
            == b2.column(attn_out(), i) by {
            if i < u {
                assert(a1.column(attn_out(), i) == b1.column(attn_out(), i));
            }
        }
        assert forall|m: int, p: int| !(m == l && p > pos_start + t) implies #[trigger] a2.keys[(
            m,
            p,
        )] == b2.keys[(m, p)] && a2.values[(m, p)] == b2.values[(m, p)] by {
            assert(a1.keys[(m, p)] == b1.keys[(m, p)]);
        }
        assert forall|m: int, p: int|
            !(m == l && pos_start <= p < pos_start + n) implies #[trigger] a2.keys[(m, p)]
            == a.keys[(m, p)] && a2.values[(m, p)] == a.values[(m, p)] by {
            assert(a1.keys[(m, p)] == a.keys[(m, p)]);
        }
    }
}

/// The plan of one layer.
pub open spec fn layer_plan(
    w: LayerWeightRefs,
    layer: usize,
    batch_size: usize,
    pos_start: usize,
    c: LayerConfig,
    ternary: bool,
) -> Seq<Action> {
    if ternary {
        functions::layer_prefill_ternary(w, layer, batch_size, pos_start, c)
    } else {
        functions::layer_prefill(w, layer, batch_size, pos_start, c)
    }
}

/// A batched kernel of one operand keeps columns equal that are.
proof fn lemma_one_keeps(
    k: Meaning,
    c: LayerConfig,
    a: LayerState,
    b: LayerState,
    action: Action,
    input: Buf,
    output: Buf,
    batch: u32,
    t: int,
)
    requires
        action matches Action::Dispatch(step) && match step {
            Step::BatchedRmsNorm { input: i, output: o, batch: n, .. } => i == input && o == output
                && n == batch,
            Step::GemmQ1V7 { input: i, output: o, batch: n, .. } => i == input && o == output && n
                == batch,
            Step::GemmTq2V7 { input: i, output: o, batch: n, .. } => i == input && o == output && n
                == batch,
            Step::FusedGateUpSwigluGemm { input: i, output: o, batch: n, .. } => i == input && o
                == output && n == batch,
            Step::BatchedSwiglu { input: i, output: o, batch: n, .. } => i == input && o == output
                && n == batch,
            _ => false,
        },
        agree(a, b, input, batch as int, t),
    ensures
        ({
            let x = after_action(k, c, a, action);
            let y = after_action(k, c, b, action);
            &&& agree(x, y, output, batch as int, t)
            &&& x == a.with(output, x.columns[output])
            &&& y == b.with(output, y.columns[output])
        }),
{
    let x = after_action(k, c, a, action);
    let y = after_action(k, c, b, action);
    assert forall|i: int| 0 <= i < batch && i <= t implies #[trigger] x.column(output, i)
        == y.column(output, i) by {
        assert(a.column(input, i) == b.column(input, i));
    }
}

/// A batched kernel of two operands keeps columns equal that are.
proof fn lemma_two_keeps(
    k: Meaning,
    c: LayerConfig,
    a: LayerState,
    b: LayerState,
    action: Action,
    input: Buf,
    output: Buf,
    batch: u32,
    t: int,
)
    requires
        action matches Action::Dispatch(step) && match step {
            Step::GemmQ1V7Residual { input: i, output: o, batch: n, residual: r, .. } => i == input
                && o == output && r == output && n == batch,
            Step::ResidualAdd { target: o, addend: i, .. } => i == input && o == output,
            _ => false,
        },
        agree(a, b, input, batch as int, t),
        agree(a, b, output, batch as int, t),
    ensures
        ({
            let x = after_action(k, c, a, action);
            let y = after_action(k, c, b, action);
            &&& agree(x, y, output, batch as int, t)
            &&& x == a.with(output, x.columns[output])
            &&& y == b.with(output, y.columns[output])
        }),
{
    let x = after_action(k, c, a, action);
    let y = after_action(k, c, b, action);
    assert forall|i: int| 0 <= i < batch && i <= t implies #[trigger] x.column(output, i)
        == y.column(output, i) by {
        assert(a.column(input, i) == b.column(input, i));
        assert(a.column(output, i) == b.column(output, i));
    }
}

/// Columns that are equal stay so where neither state changes them.
proof fn lemma_agree_stays(
    a: LayerState,
    b: LayerState,
    x: LayerState,
    y: LayerState,
    buf: Buf,
    batch: int,
    t: int,
)
    requires
        agree(a, b, buf, batch, t),
        x.columns[buf] == a.columns[buf],
        y.columns[buf] == b.columns[buf],
    ensures
        agree(x, y, buf, batch, t),
{
    assert forall|i: int| 0 <= i < batch && i <= t implies #[trigger] x.column(buf, i) == y.column(
        buf,
        i,
    ) by {
        assert(a.column(buf, i) == b.column(buf, i));
    }
}

/// The launches behind a layer's attention keep columns equal that are, and leave
/// the cache alone.
proof fn lemma_rest_is_causal(
    k: Meaning,
    c: LayerConfig,
    a: LayerState,
    b: LayerState,
    w: LayerWeightRefs,
    layer: usize,
    batch_size: usize,
    pos_start: usize,
    ternary: bool,
    t: int,
    rest: Seq<Action>,
)
    requires
        batch_size <= u32::MAX,
        agree(a, b, hidden(), batch_size as int, t),
        agree(a, b, attn_out(), batch_size as int, t),
        ({
            let plan = layer_plan(w, layer, batch_size, pos_start, c, ternary);
            &&& rest.len() == if ternary {
                7int
            } else {
                4int
            }
            &&& plan.len() >= rest.len()
            &&& rest == plan.skip(plan.len() - rest.len())
        }),
    ensures
        ({
            let x = run_all(k, c, a, rest);
            let y = run_all(k, c, b, rest);
            &&& agree(x, y, hidden(), batch_size as int, t)
            &&& x.keys == a.keys && x.values == a.values
            &&& y.keys == b.keys && y.values == b.values
        }),
{
    let n = batch_size as u32;
    let swiglu = Buf::Prefill(PrefillBuf::Swiglu);
    let gate_up = Buf::Prefill(PrefillBuf::GateUp);
    let tokens = functions::tokens_attention(w, layer, batch_size as nat, pos_start as int, c);
    let plan = layer_plan(w, layer, batch_size, pos_start, c, ternary);
    assert(plan.len() == 2 + tokens.len() + rest.len());
    assert(forall|i: int| 0 <= i < rest.len() ==> #[trigger] rest[i] == plan[2 + tokens.len() + i]);
    reveal_with_fuel(run, 8);
    let (a1, b1) = (after_action(k, c, a, rest[0]), after_action(k, c, b, rest[0]));
    let (a2, b2) = (after_action(k, c, a1, rest[1]), after_action(k, c, b1, rest[1]));
    let (a3, b3) = (after_action(k, c, a2, rest[2]), after_action(k, c, b2, rest[2]));
    let (a4, b4) = (after_action(k, c, a3, rest[3]), after_action(k, c, b3, rest[3]));
    if ternary {
        let (a5, b5) = (after_action(k, c, a4, rest[4]), after_action(k, c, b4, rest[4]));
        let (a6, b6) = (after_action(k, c, a5, rest[5]), after_action(k, c, b5, rest[5]));
        lemma_one_keeps(k, c, a, b, rest[0], attn_out(), normed(), n, t);
        lemma_agree_stays(a, b, a1, b1, hidden(), n as int, t);
        lemma_two_keeps(k, c, a1, b1, rest[1], normed(), hidden(), n, t);
        lemma_one_keeps(k, c, a2, b2, rest[2], hidden(), normed(), n, t);
        lemma_one_keeps(k, c, a3, b3, rest[3], normed(), gate_up, n, t);
        lemma_one_keeps(k, c, a4, b4, rest[4], gate_up, swiglu, n, t);
        lemma_one_keeps(k, c, a5, b5, rest[5], swiglu, normed(), n, t);
        lemma_agree_stays(a2, b2, a6, b6, hidden(), n as int, t);
        lemma_two_keeps(k, c, a6, b6, rest[6], normed(), hidden(), n, t);
        assert(run_all(k, c, a, rest) == after_action(k, c, a6, rest[6]));
        assert(run_all(k, c, b, rest) == after_action(k, c, b6, rest[6]));
    } else {
        lemma_two_keeps(k, c, a, b, rest[0], attn_out(), hidden(), n, t);
        lemma_one_keeps(k, c, a1, b1, rest[1], hidden(), normed(), n, t);
        lemma_one_keeps(k, c, a2, b2, rest[2], normed(), swiglu, n, t);
        lemma_agree_stays(a1, b1, a3, b3, hidden(), n as int, t);
        lemma_two_keeps(k, c, a3, b3, rest[3], swiglu, hidden(), n, t);
        assert(run_all(k, c, a, rest) == a4);
        assert(run_all(k, c, b, rest) == b4);
    }
}

/// A layer's prefill is causal: where two runs start from the same cache and
/// hidden states that are equal up to token `t`, the new hidden states are equal
/// up to token `t`. And it changes its own layer's cache at the batch's positions
/// alone.
pub proof fn law_layer_prefill_is_causal(
    k: Meaning,
    c: LayerConfig,
    w: LayerWeightRefs,
    layer: usize,
    batch_size: usize,
    pos_start: usize,
    ternary: bool,
    t: int,
    a: LayerState,
    b: LayerState,
)
    requires
        tellable(c, batch_size, pos_start),
        0 <= t < batch_size,
        agree(a, b, hidden(), batch_size as int, t),
        a.columns[attn_out()].len() == batch_size,
        b.columns[attn_out()].len() == batch_size,
        a.keys == b.keys,
        a.values == b.values,
    ensures
        ({
            let plan = layer_plan(w, layer, batch_size, pos_start, c, ternary);
            let x = run_all(k, c, a, plan);
            let y = run_all(k, c, b, plan);
            &&& agree(x, y, hidden(), batch_size as int, t)
            &&& changed_only(a, x, layer as int, pos_start as int, pos_start + batch_size)
        }),
{
    let n = batch_size as u32;
    let plan = layer_plan(w, layer, batch_size, pos_start, c, ternary);
    let tokens = functions::tokens_attention(w, layer, batch_size as nat, pos_start as int, c);
    let head = seq![plan[0], plan[1]];
    let rest = plan.skip(2 + tokens.len() as int);
    assert(plan =~= head + tokens + rest);
    lemma_run_all_concat(k, c, a, head + tokens, rest);
    lemma_run_all_concat(k, c, b, head + tokens, rest);
    lemma_run_all_concat(k, c, a, head, tokens);
    lemma_run_all_concat(k, c, b, head, tokens);
    reveal_with_fuel(run, 3);
    let (a1, b1) = (after_action(k, c, a, plan[0]), after_action(k, c, b, plan[0]));
    let (a2, b2) = (after_action(k, c, a1, plan[1]), after_action(k, c, b1, plan[1]));
    lemma_one_keeps(k, c, a, b, plan[0], hidden(), normed(), n, t);
    lemma_one_keeps(k, c, a1, b1, plan[1], normed(), qkv(), n, t);
    assert(run_all(k, c, a, head) == a2 && run_all(k, c, b, head) == b2);
    lemma_tokens_are_causal(
        k,
        c,
        w,
        layer,
        batch_size as nat,
        t,
        batch_size,
        pos_start,
        a2,
        b2,
    );
    let (a3, b3) = (run_all(k, c, a2, tokens), run_all(k, c, b2, tokens));
    assert forall|i: int| 0 <= i < batch_size && i <= t implies #[trigger] a3.column(hidden(), i)
        == b3.column(hidden(), i) by {
        assert(a.column(hidden(), i) == b.column(hidden(), i));
    }
    lemma_rest_is_causal(
        k,
        c,
        a3,
        b3,
        w,
        layer,
        batch_size,
        pos_start,
        ternary,
        t,
        rest,
    );
    let x = run_all(k, c, a, plan);
    assert forall|l: int, p: int|
        !(l == layer && pos_start <= p < pos_start + batch_size) implies #[trigger] x.keys[(l, p)]
        == a.keys[(l, p)] && x.values[(l, p)] == a.values[(l, p)] by {
        assert(a3.keys[(l, p)] == a2.keys[(l, p)]);
    }
}

} // verus!

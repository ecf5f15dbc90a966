//! Laws of the batch prefill.

use vstd::prelude::*;

use crate::gpu_backend::metal_graph::device::{Action, Resident, Step};
use crate::gpu_backend::metal_graph::graph::Residency;
use crate::gpu_backend::metal_graph::laws;
use crate::gpu_backend::metal_prefill::forward;
use crate::gpu_backend::metal_prefill::functions;
use crate::gpu_backend::metal_prefill::types::{LayerConfig, LayerWeightRefs, PrefillArgs};

verus! {

/// Token `t`'s query, key, value, attention output and RoPE rows lie inside
/// the buffers that the set allocates, in bytes, and its column of the fused
/// projections ends where the next token's starts.
pub proof fn law_token_rows_inside_buffers(a: PrefillArgs, t: int)
    requires
        0 <= t < a.batch_size,
        a.config.n_kv_heads > 0,
        a.config.head_dim > 0,
    ensures
        ({
            let c = a.config;
            let col = t * c.qkv_rows() * 4;
            let qkv_bytes = a.set().lens()[2].1 * 4;
            let attn_bytes = a.set().lens()[3].1 * 4;
            let rope_bytes = a.set().lens()[11].1 * 4;
            let k_off = col + c.n_q_heads * c.head_dim * 4;
            let v_off = col + (c.n_q_heads + c.n_kv_heads) * c.head_dim * 4;
            &&& 0 <= col <= k_off
            &&& k_off + c.n_kv_heads * c.head_dim * 4 == v_off
            &&& v_off + c.n_kv_heads * c.head_dim * 4 == (t + 1) * c.qkv_rows() * 4 <= qkv_bytes
            &&& t * c.n_q_heads * c.head_dim * 4 + c.n_q_heads * c.head_dim * 4 <= attn_bytes
            &&& t * (c.head_dim / 2) * 4 + (c.head_dim / 2) * 4 <= rope_bytes
        }),
{
    let c = a.config;
    let b = a.batch_size as int;
    let nq = c.n_q_heads as int;
    let nkv = c.n_kv_heads as int;
    let hd = c.head_dim as int;
    functions::lemma_token_column(t, b, nq, nkv, hd);
    let q = c.qkv_rows();
    assert((t + 1) * q == t * q + q) by (nonlinear_arith);
    assert(nq * hd + 2 * nkv * hd == (nq + 2 * nkv) * hd) by (nonlinear_arith);
    assert((nq + nkv) * hd == nq * hd + nkv * hd) by (nonlinear_arith);
    let qd = nq * hd;
    assert(t * qd + qd <= b * qd) by (nonlinear_arith)
        requires
            t + 1 <= b,
            qd >= 0,
    ;
    let half = hd / 2;
    assert(t * half + half <= b * half) by (nonlinear_arith)
        requires
            t + 1 <= b,
            half >= 0,
    ;
    assert(a.set().lens()[2].1 == b * q);
    assert(a.set().lens()[3].1 == b * qd);
    assert(a.set().lens()[11].1 == b * half);
}

/// The attention of `n` tokens is six launches per token, and token `t`'s are
/// the six from index `6 t` on.
pub proof fn law_tokens_in_order(
    w: LayerWeightRefs,
    layer: usize,
    n: nat,
    pos_start: int,
    c: LayerConfig,
)
    ensures
        functions::tokens_attention(w, layer, n, pos_start, c).len() == 6 * n,
        forall|t: int, j: int|
            #![trigger functions::token_attention(w, layer, t, pos_start, c)[j]]
            0 <= t < n && 0 <= j < 6 ==> functions::tokens_attention(w, layer, n, pos_start, c)[6
                * t + j] == functions::token_attention(w, layer, t, pos_start, c)[j],
    decreases n,
{
    if n > 0 {
        law_tokens_in_order(w, layer, (n - 1) as nat, pos_start, c);
        let head = functions::tokens_attention(w, layer, (n - 1) as nat, pos_start, c);
        let tail = functions::token_attention(w, layer, n - 1, pos_start, c);
        assert forall|t: int, j: int|
            #![trigger functions::token_attention(w, layer, t, pos_start, c)[j]]
            0 <= t < n && 0 <= j < 6 implies functions::tokens_attention(
            w,
            layer,
            n,
            pos_start,
            c,
        )[6 * t + j] == functions::token_attention(w, layer, t, pos_start, c)[j] by {
            if t < n - 1 {
                assert((head + tail)[6 * t + j] == head[6 * t + j]);
            } else {
                assert((head + tail)[6 * t + j] == tail[j]);
            }
        }
    }
}

/// Attention is causal: when token `t`'s scores are computed, the keys and
/// values of every token up to and including `t` have been stored, each at its
/// own position, and the scores cover exactly the positions up to `t`'s.
pub proof fn law_keys_stored_before_scores(
    w: LayerWeightRefs,
    layer: usize,
    n: nat,
    pos_start: int,
    c: LayerConfig,
    s: int,
    t: int,
)
    requires
        0 <= s <= t < n,
    ensures
        ({
            let plan = functions::tokens_attention(w, layer, n, pos_start, c);
            let stored = 6 * s + 2;
            let scored = 6 * t + 3;
            &&& 0 <= stored < scored < plan.len()
            &&& plan[stored] matches Action::Dispatch(st) && st matches Step::FusedKvStore {
                pos,
                layer: l,
                ..
            } && pos == (pos_start + s) as u32 && l == layer
            &&& plan[scored] matches Action::Dispatch(sc) && sc matches Step::AttentionScores {
                seq_len,
                layer: l,
                ..
            } && seq_len == (pos_start + t + 1) as u32 && l == layer
        }),
{
    law_tokens_in_order(w, layer, n, pos_start, c);
    assert(functions::token_attention(w, layer, s, pos_start, c)[2] is Dispatch);
    assert(functions::token_attention(w, layer, t, pos_start, c)[3] is Dispatch);
}

/// The ternary layer mirrors the 1-bit layer: the same norm first, the same
/// attention launches token by token, and only the projections differ.
pub proof fn law_ternary_layer_mirrors_one_bit(
    w: LayerWeightRefs,
    layer: usize,
    batch_size: usize,
    pos_start: usize,
    c: LayerConfig,
)
    ensures
        ({
            let q1 = functions::layer_prefill(w, layer, batch_size, pos_start, c);
            let tq2 = functions::layer_prefill_ternary(w, layer, batch_size, pos_start, c);
            let attn_end = 2 + 6 * batch_size;
            &&& q1.len() == attn_end + 4
            &&& tq2.len() == attn_end + 7
            &&& q1[0] == tq2[0]
            &&& q1.subrange(2, attn_end) == tq2.subrange(2, attn_end)
            &&& q1[attn_end + 1] == tq2[attn_end + 2]
        }),
{
    law_tokens_in_order(w, layer, batch_size as nat, pos_start as int, c);
    let q1 = functions::layer_prefill(w, layer, batch_size, pos_start, c);
    let tq2 = functions::layer_prefill_ternary(w, layer, batch_size, pos_start, c);
    let attn = functions::tokens_attention(w, layer, batch_size as nat, pos_start as int, c);
    assert(q1.subrange(2, 2 + 6 * batch_size) =~= attn);
    assert(tq2.subrange(2, 2 + 6 * batch_size) =~= attn);
}

/// The layers only launch kernels.
pub proof fn law_layers_only_dispatch(
    weights: Seq<LayerWeightRefs>,
    n: nat,
    a: PrefillArgs,
    ternary: bool,
)
    ensures
        forall|i: int|
            0 <= i < forward::layers_prefill(weights, n, a, ternary).len()
                ==> #[trigger] forward::layers_prefill(weights, n, a, ternary)[i] is Dispatch,
    decreases n,
{
    if n > 0 {
        let m = (n - 1) as nat;
        law_layers_only_dispatch(weights, m, a, ternary);
        let head = forward::layers_prefill(weights, m, a, ternary);
        let whole = forward::layers_prefill(weights, n, a, ternary);
        let w = weights[m as int];
        lemma_tokens_only_dispatch(w, m as usize, a.batch_size as nat, a.pos_start as int, a.config);
        assert forall|i: int| 0 <= i < whole.len() implies #[trigger] whole[i] is Dispatch by {
            if i < head.len() {
                assert(whole[i] == head[i]);
            }
        }
    }
}

proof fn lemma_tokens_only_dispatch(
    w: LayerWeightRefs,
    layer: usize,
    n: nat,
    pos_start: int,
    c: LayerConfig,
)
    ensures
        forall|i: int|
            0 <= i < functions::tokens_attention(w, layer, n, pos_start, c).len()
                ==> #[trigger] functions::tokens_attention(w, layer, n, pos_start, c)[i] is Dispatch,
    decreases n,
{
    if n > 0 {
        lemma_tokens_only_dispatch(w, layer, (n - 1) as nat, pos_start, c);
        let head = functions::tokens_attention(w, layer, (n - 1) as nat, pos_start, c);
        let whole = functions::tokens_attention(w, layer, n, pos_start, c);
        assert forall|i: int| 0 <= i < whole.len() implies #[trigger] whole[i] is Dispatch by {
            if i < head.len() {
                assert(whole[i] == head[i]);
            }
        }
    }
}

/// After a forward pass over a batch its buffers are resident: a second pass
/// with the same dimensions allocates none of the prefill set again.
pub proof fn law_prefill_buffers_are_reused(
    resident: Residency,
    a: PrefillArgs,
    rest: Seq<Action>,
)
    requires
        forall|i: int|
            0 <= i < rest.len() ==> (#[trigger] rest[i] matches Action::Keep(r)
                ==> r is Logits || r is TokenId),
    ensures
        !a.needs_set(resident.after(a.prologue(resident) + rest)),
        laws::allocates_nothing(a.prologue(resident.after(a.prologue(resident) + rest))),
{
    let pro = a.prologue(resident);
    laws::law_plans_compose(resident, pro, rest);
    let uploads = pro.skip(pro.len() - 4);
    if a.needs_set(resident) {
        let allocs = a.set().allocs();
        let keep = allocs.push(Action::Keep(Resident::Prefill(a.set())));
        assert(pro =~= keep + uploads);
        laws::law_keep_at_end(resident, allocs, Resident::Prefill(a.set()));
        laws::law_plans_compose(resident, keep, uploads);
        laws::law_no_keep_no_change(resident.after(keep), uploads);
    } else {
        laws::law_no_keep_no_change(resident, pro);
    }
    lemma_rest_keeps_prefill(resident.after(pro), rest);
}

proof fn lemma_rest_keeps_prefill(s: Residency, rest: Seq<Action>)
    requires
        forall|i: int|
            0 <= i < rest.len() ==> (#[trigger] rest[i] matches Action::Keep(r)
                ==> r is Logits || r is TokenId),
    ensures
        s.after(rest).prefill_buffers == s.prefill_buffers,
    decreases rest.len(),
{
    if rest.len() > 0 {
        let most = rest.drop_last();
        assert forall|i: int| 0 <= i < most.len() implies (#[trigger] most[i] matches Action::Keep(
            r,
        ) ==> r is Logits || r is TokenId) by {
            assert(most[i] == rest[i]);
        }
        lemma_rest_keeps_prefill(s, most);
        assert(rest[rest.len() - 1] == rest.last());
    }
}

/// Once the logits buffer has grown to a size, requests up to that size
/// allocate nothing.
pub proof fn law_logits_buffer_is_reused(resident: Residency, needed: u64, later: u64)
    requires
        later <= needed,
    ensures
        forward::grow_logits(resident.after(forward::grow_logits(resident, needed)), later).len()
            == 0,
        forward::grow_token_ids(
            resident.after(forward::grow_token_ids(resident, needed)),
            later,
        ).len() == 0,
{
    reveal_with_fuel(Residency::after, 3);
    let g = forward::grow_logits(resident, needed);
    let t = forward::grow_token_ids(resident, needed);
    if g.len() > 0 {
        assert(g.drop_last() =~= seq![g[0]]);
        assert(g.drop_last().drop_last() =~= Seq::<Action>::empty());
    }
    if t.len() > 0 {
        assert(t.drop_last() =~= seq![t[0]]);
        assert(t.drop_last().drop_last() =~= Seq::<Action>::empty());
    }
}

/// The verify tail writes each column's logits and token id to its own place:
/// columns do not overlap and stay inside the buffers grown for them.
pub proof fn law_verify_columns_disjoint(a: PrefillArgs, i: int, j: int)
    requires
        0 <= i < j < a.batch_size,
        0 < a.lm_head_out_features <= u32::MAX,
        a.batch_size * a.lm_head_out_features * 4 <= u64::MAX,
    ensures
        ({
            let row = a.lm_head_out_features * 4;
            &&& a.column_argmax(i) matches Action::Dispatch(si) && si matches Step::ArgmaxAt {
                logits_offset: li,
                token_offset: ti,
                ..
            } && a.column_argmax(j) matches Action::Dispatch(sj) && sj matches Step::ArgmaxAt {
                logits_offset: lj,
                token_offset: tj,
                ..
            } && li + row <= lj && ti + 4 <= tj && lj + row <= a.batch_size * row && tj + 4
                <= a.batch_size * 4
        }),
{
    let l = a.lm_head_out_features as int;
    let b = a.batch_size as int;
    assert((a.lm_head_out_features as u32) == l);
    assert(i * l + l <= j * l && j * l + l <= b * l && 0 <= i * l) by (nonlinear_arith)
        requires
            0 <= i,
            i + 1 <= j,
            j + 1 <= b,
            l >= 0,
    ;
    assert(b * (l * 4) == b * l * 4) by (nonlinear_arith);
    assert(b <= b * l) by (nonlinear_arith)
        requires
            b > 0,
            l > 0,
    ;
}

} // verus!

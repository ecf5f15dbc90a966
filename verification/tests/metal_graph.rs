//! Device plans, carried out by a host that stands in for the device.

use std::collections::HashMap;

use half::f16;
use pictor_kernels::arith::Arith;
use pictor_kernels::gpu_backend::metal_graph::attention::{AttnArgs, AttnCaps};
use pictor_kernels::gpu_backend::metal_graph::device::{
    Action, Buf, FfnBuf, PrefillBuf, ScratchBuf, Step,
};
use pictor_kernels::gpu_backend::metal_graph::error::{MetalGraphError, MetalWeightHandle};
use pictor_kernels::gpu_backend::metal_graph::ffn::FfnArgs;
use pictor_kernels::gpu_backend::metal_graph::graph::MetalGraph;
use pictor_kernels::gpu_backend::metal_graph::pipelines::{
    all_pipelines, build_combined_msl, cache_filename, library_sources, pipeline_for,
    LibrarySource, MetalPipelines, MslSources, Pipeline, PipelineBuild,
};
use pictor_kernels::gpu_backend::metal_graph::planes::{add_bias, scatter_tile, transpose};
use pictor_kernels::gpu_backend::metal_graph::reformat::{
    reformat_q1_aos_to_soa, reformat_tq2_aos_to_soa,
};
use pictor_kernels::gpu_backend::metal_graph::vae::{ConvArgs, ConvGeometry, ConvPlan};
use pictor_kernels::gpu_backend::metal_graph::weights::WeightData;
use pictor_kernels::gpu_backend::metal_prefill::functions_2::{
    try_metal_full_forward_prefill, try_metal_full_forward_prefill_ternary,
    try_metal_full_forward_prefill_verify, try_metal_full_forward_prefill_verify_ternary,
    FullForwardLayerParams, HeadParams,
};
use pictor_kernels::gpu_backend::metal_prefill::types::{LayerConfig, PrefillArgs};
use rayon::iter::{IntoParallelIterator, ParallelIterator};
use rayon::slice::ParallelSlice;

/// Arithmetic of the machine's single-precision numbers.
struct Native;

fn f(bits: u32) -> f32 {
    f32::from_bits(bits)
}

impl Arith for Native {
    fn sum(&self, a: u32, b: u32) -> u32 {
        (f(a) + f(b)).to_bits()
    }

    fn difference(&self, a: u32, b: u32) -> u32 {
        (f(a) - f(b)).to_bits()
    }

    fn product(&self, a: u32, b: u32) -> u32 {
        (f(a) * f(b)).to_bits()
    }

    fn quotient(&self, a: u32, b: u32) -> u32 {
        (f(a) / f(b)).to_bits()
    }

    fn fused(&self, a: u32, b: u32, c: u32) -> u32 {
        f(a).mul_add(f(b), f(c)).to_bits()
    }

    fn larger(&self, a: u32, b: u32) -> u32 {
        f(a).max(f(b)).to_bits()
    }

    fn vector_larger(&self, a: u32, b: u32) -> u32 {
        if f(a).is_nan() || f(b).is_nan() {
            f32::NAN.to_bits()
        } else {
            f(a).max(f(b)).to_bits()
        }
    }

    fn exponential(&self, a: u32) -> u32 {
        f(a).exp().to_bits()
    }

    fn square_root(&self, a: u32) -> u32 {
        f(a).sqrt().to_bits()
    }

    fn reciprocal_estimate(&self, a: u32) -> u32 {
        (1.0 / f(a)).to_bits() & 0xffff_8000
    }

    fn reciprocal_step(&self, a: u32, b: u32) -> u32 {
        let product = f(a) * f(b);
        if product.is_nan() && !f(a).is_nan() && !f(b).is_nan() {
            2.0f32.to_bits()
        } else {
            (2.0 - product).to_bits()
        }
    }

    fn greater(&self, a: u32, b: u32) -> bool {
        f(a) > f(b)
    }

    fn of_count(&self, n: usize) -> u32 {
        (n as f32).to_bits()
    }
}

fn bits(v: &[f32]) -> Vec<u32> {
    v.iter().map(|x| x.to_bits()).collect()
}

fn floats(v: &[u32]) -> Vec<f32> {
    v.iter().map(|x| f32::from_bits(*x)).collect()
}

/// Layout of a packed weight.
#[derive(Clone, Copy, PartialEq)]
enum Packed {
    OneBit,
    Ternary,
}

/// What a plan handed back.
#[derive(Default)]
struct Outcome {
    downloads: Vec<(Buf, Vec<f32>)>,
    plane: Vec<u32>,
    tokens: Vec<u32>,
    fresh: usize,
}

/// A host that carries plans out.
struct Host {
    graph: MetalGraph,
    weights: HashMap<u64, WeightData>,
    buffers: Vec<(Buf, Vec<f32>)>,
    kv: Option<(usize, usize, usize, usize)>,
    /// Rows of a matrix product that are computed.
    row_limit: usize,
    /// Operands and output of the last attention.
    attention: Option<([Vec<f32>; 3], Vec<f32>)>,
}

impl Host {
    fn new() -> Self {
        Host {
            graph: MetalGraph::new(),
            weights: HashMap::new(),
            buffers: Vec::new(),
            kv: None,
            row_limit: usize::MAX,
            attention: None,
        }
    }

    fn sync_weights(&mut self) {
        for upload in self.graph.take_uploads() {
            self.weights.insert(upload.buffer, upload.data);
        }
    }

    fn create(&mut self, buf: Buf, floats: usize) {
        self.buffers.retain(|(b, _)| *b != buf);
        self.buffers.push((buf, vec![0.0; floats]));
    }

    fn slot(&mut self, buf: Buf) -> &mut Vec<f32> {
        let i = self.buffers.iter().position(|(b, _)| *b == buf).unwrap();
        &mut self.buffers[i].1
    }

    fn read(&self, buf: Buf) -> Vec<f32> {
        if let Buf::Weight(id) = buf {
            return match &self.weights[&id] {
                WeightData::Floats(v) => floats(v),
                WeightData::Bytes(_) => panic!("packed weight read as numbers"),
            };
        }
        let i = self.buffers.iter().position(|(b, _)| *b == buf).unwrap();
        self.buffers[i].1.clone()
    }

    fn matrix(&self, buf: Buf, packed: Packed, n_rows: usize, k: usize) -> Vec<f32> {
        let id = match buf {
            Buf::Weight(id) => id,
            _ => panic!("not a weight"),
        };
        let bytes = match &self.weights[&id] {
            WeightData::Bytes(b) => b,
            WeightData::Floats(_) => panic!("numbers read as packed weight"),
        };
        let size = if packed == Packed::OneBit { 16 } else { 32 };
        let blocks = n_rows * k / 128;
        assert_eq!(bytes.len(), blocks * (2 + size));
        let mut out = vec![0.0; n_rows * k];
        for (i, slot) in out.iter_mut().enumerate() {
            let (b, j) = (i / 128, i % 128);
            let d = f16::from_le_bytes([bytes[2 * b], bytes[2 * b + 1]]).to_f32();
            let data = &bytes[2 * blocks + b * size..2 * blocks + (b + 1) * size];
            *slot = match packed {
                Packed::OneBit => {
                    if (data[j / 8] >> (j % 8)) & 1 == 1 {
                        d
                    } else {
                        -d
                    }
                }
                Packed::Ternary => match (data[j / 4] >> (2 * (j % 4))) & 3 {
                    0 => -d,
                    2 => d,
                    _ => 0.0,
                },
            };
        }
        out
    }

    fn product(&self, w: &[f32], x: &[f32], n_rows: usize, k: usize, batch: usize) -> Vec<f32> {
        all_products(w, &x[..batch * k], n_rows, k, n_rows.min(self.row_limit))
    }

    fn put(&mut self, buf: Buf, offset: usize, values: &[f32]) {
        self.slot(buf)[offset..offset + values.len()].copy_from_slice(values);
    }

    fn run(&mut self, plan: &[Action], operands: &[(Buf, &[f32])], conv: Option<(usize, usize, &[f32])>) -> Outcome {
        self.sync_weights();
        let mut out = Outcome::default();
        if let Some((channels, spatial, _)) = conv {
            out.plane = vec![0; channels * spatial];
        }
        for action in plan {
            match *action {
                Action::Alloc { buf, bytes, .. } => {
                    out.fresh += 1;
                    self.create(buf, bytes as usize / 4);
                }
                Action::Keep(r) => self.graph.keep(r),
                Action::AcquireKv { n_layers, nkv, max_seq, head_dim } => {
                    if self.kv != Some((n_layers, nkv, max_seq, head_dim)) {
                        let n = n_layers * nkv * max_seq * head_dim;
                        self.create(Buf::KCache, n);
                        self.create(Buf::VCache, n);
                        self.kv = Some((n_layers, nkv, max_seq, head_dim));
                    }
                }
                Action::Upload { buf, floats } => {
                    let data = operands.iter().find(|(b, _)| *b == buf).unwrap().1;
                    self.put(buf, 0, &data[..floats]);
                }
                Action::Dispatch(step) => self.launch(step),
                Action::Commit => {}
                Action::Download { buf, floats } => {
                    let data = self.read(buf)[..floats].to_vec();
                    if conv.is_some() && floats == out.plane.len() {
                        out.plane = bits(&data);
                    }
                    out.downloads.push((buf, data));
                }
                Action::ScatterTile { row_start, rows } => {
                    let (channels, spatial, _) = conv.unwrap();
                    let tile = bits(&out.downloads.last().unwrap().1);
                    scatter_tile(&mut out.plane, &tile, row_start, rows, channels, spatial);
                }
                Action::AddBias { channels, spatial } => {
                    add_bias(&Native, &mut out.plane, &bits(conv.unwrap().2), channels, spatial);
                }
                Action::ReadToken => out.tokens = vec![self.read(Buf::TokenId)[0] as u32],
                Action::ReadTokens { count } => {
                    out.tokens =
                        self.read(Buf::TokenId)[..count].iter().map(|t| *t as u32).collect();
                }
            }
        }
        out
    }

    fn launch(&mut self, step: Step) {
        assert!(all_pipelines().contains(&step.pipeline()));
        match step {
            Step::GemvQ1 { weight, input, output, n_rows, k } => {
                self.gemm(Packed::OneBit, weight, input, 0, output, 0, n_rows, k, 1, None)
            }
            Step::GemvTq2 { weight, input, output, n_rows, k } => {
                self.gemm(Packed::Ternary, weight, input, 0, output, 0, n_rows, k, 1, None)
            }
            Step::GemvTq2At { weight, input, input_offset, output, output_offset, n_rows, k, grid, threads } => {
                assert!(grid.x * 8 >= n_rows as u64 && threads.x == 256);
                let (i, o) = (input_offset as usize / 4, output_offset as usize / 4);
                self.gemm(Packed::Ternary, weight, input, i, output, o, n_rows, k, 1, None)
            }
            Step::GemmQ1V7 { weight, input, output, n_rows, k, batch } => {
                self.gemm(Packed::OneBit, weight, input, 0, output, 0, n_rows, k, batch, None)
            }
            Step::GemmQ1V7Residual { weight, input, output, n_rows, k, batch, residual } => {
                self.gemm(Packed::OneBit, weight, input, 0, output, 0, n_rows, k, batch, Some(residual))
            }
            Step::GemmTq2V7 { weight, input, output, n_rows, k, batch }
            | Step::GemmTq2V10 { weight, input, output, n_rows, k, batch } => {
                self.gemm(Packed::Ternary, weight, input, 0, output, 0, n_rows, k, batch, None)
            }
            Step::GemmF32 { weight, input, output, n_rows, k, batch } => {
                let (w, x) = (self.read(weight), self.read(input));
                let y = self.product(&w, &x, n_rows as usize, k as usize, batch as usize);
                self.put(output, 0, &y);
            }
            Step::RmsNorm { input, weight, output, eps, n } => {
                self.norm(input, 0, weight, output, eps, n as usize, 1)
            }
            Step::RmsNormAt { input, input_offset, weight, output, eps, n, .. } => {
                self.norm(input, input_offset as usize / 4, weight, output, eps, n as usize, 1)
            }
            Step::BatchedRmsNorm { input, weight, output, eps, n, batch } => {
                self.norm(input, 0, weight, output, eps, n as usize, batch as usize)
            }
            Step::ResidualAdd { target, addend, n } => {
                let addend = self.read(addend);
                let target = self.slot(target);
                for i in 0..n as usize {
                    target[i] += addend[i];
                }
            }
            Step::FusedGateUpSwiglu { weight, input, output, inter, k } => {
                self.gate_up(weight, input, output, inter as usize, k as usize, 1)
            }
            Step::FusedGateUpSwigluGemm { weight, input, output, inter, k, batch } => {
                self.gate_up(weight, input, output, inter as usize, k as usize, batch as usize)
            }
            Step::BatchedSwiglu { input, output, inter, batch } => {
                let x = self.read(input);
                let y = swiglu_columns(&x, inter as usize, batch as usize);
                self.put(output, 0, &y);
            }
            Step::FusedQkNorm { query, query_offset, key, key_offset, q_out, k_out, q_weight, k_weight, nq, nkv, head_dim, eps } => {
                let hd = head_dim as usize;
                let sides = [
                    (query, query_offset as usize / 4, q_out, q_weight, nq as usize),
                    (key, key_offset as usize / 4, k_out, k_weight, nkv as usize),
                ];
                for (from, at, to, w, heads) in sides {
                    let (x, w) = (self.read(from), self.read(w));
                    let y = rms_columns(&x[at..at + heads * hd], &w, eps, hd, heads);
                    self.put(to, 0, &y);
                }
            }
            Step::FusedQkRope { query, key, q_out, k_out, cos, cos_offset, sin, sin_offset, nq, nkv, half_dim, grid, threads } => {
                let half = half_dim as usize;
                assert!(grid.x * threads.x >= half as u64 && grid.y == (nq + nkv) as u64);
                let cos = self.read(cos)[cos_offset as usize / 4..].to_vec();
                let sin = self.read(sin)[sin_offset as usize / 4..].to_vec();
                for (from, to, heads) in [(query, q_out, nq as usize), (key, k_out, nkv as usize)] {
                    let x = self.read(from);
                    let mut y = vec![0.0; heads * 2 * half];
                    for h in 0..heads {
                        for i in 0..half {
                            let (a, b) = (x[h * 2 * half + i], x[h * 2 * half + half + i]);
                            y[h * 2 * half + i] = a * cos[i] - b * sin[i];
                            y[h * 2 * half + half + i] = a * sin[i] + b * cos[i];
                        }
                    }
                    self.put(to, 0, &y);
                }
            }
            Step::FusedKvStore { key, value, value_offset, k_cache, v_cache, nkv, head_dim, max_seq, pos, layer } => {
                let (nkv, hd, ms) = (nkv as usize, head_dim as usize, max_seq as usize);
                let at = value_offset as usize / 4;
                let (k, v) = (self.read(key), self.read(value)[at..at + nkv * hd].to_vec());
                for h in 0..nkv {
                    let to = ((layer * nkv + h) * ms + pos as usize) * hd;
                    self.put(k_cache, to, &k[h * hd..(h + 1) * hd]);
                    self.put(v_cache, to, &v[h * hd..(h + 1) * hd]);
                }
            }
            Step::AttentionScores { query, k_cache, scores, head_dim, nq, nkv, heads_per_group, max_seq, seq_len, scale_dim, layer } => {
                let (hd, ms) = (head_dim as usize, max_seq as usize);
                let (q, kc) = (self.read(query), self.read(k_cache));
                let mut y = self.read(scores);
                for h in 0..nq as usize {
                    let kv = h / heads_per_group as usize;
                    for s in 0..seq_len as usize {
                        let base = ((layer * nkv as usize + kv) * ms + s) * hd;
                        let dot: f32 = (0..hd).map(|d| q[h * hd + d] * kc[base + d]).sum();
                        y[h * ms + s] = dot / (scale_dim as f32).sqrt();
                    }
                }
                self.put(scores, 0, &y);
            }
            Step::BatchedSoftmax { scores, nq, max_seq, seq_len, grid, .. } => {
                assert_eq!(grid.x, nq as u64);
                let (ms, n) = (max_seq as usize, seq_len as usize);
                let y = self.slot(scores);
                for h in 0..nq as usize {
                    softmax_row(&mut y[h * ms..h * ms + n]);
                }
            }
            Step::WeightedSum { scores, v_cache, output, output_offset, head_dim, nq, nkv, heads_per_group, max_seq, seq_len, layer, grid, threads } => {
                assert!(grid.x * threads.x >= head_dim as u64 && grid.y == nq as u64);
                let (hd, ms) = (head_dim as usize, max_seq as usize);
                let (p, vc) = (self.read(scores), self.read(v_cache));
                let mut y = vec![0.0f32; nq as usize * hd];
                for h in 0..nq as usize {
                    let kv = h / heads_per_group as usize;
                    for s in 0..seq_len as usize {
                        let base = ((layer * nkv as usize + kv) * ms + s) * hd;
                        for d in 0..hd {
                            y[h * hd + d] += p[h * ms + s] * vc[base + d];
                        }
                    }
                }
                self.put(output, output_offset as usize / 4, &y);
            }
            Step::Argmax { logits, token, n } => self.argmax(logits, 0, token, 0, n as usize),
            Step::ArgmaxAt { logits, logits_offset, token, token_offset, n, .. } => {
                let (l, t) = (logits_offset as usize / 4, token_offset as usize / 4);
                self.argmax(logits, l, token, t, n as usize)
            }
            Step::Im2col { input, patches, c_in, h, w, k, pad, w_out, row_start, n_elems } => {
                let x = self.read(input);
                let patch = (k * k * c_in) as usize;
                let y: Vec<f32> = (0..n_elems as usize)
                    .map(|e| {
                        gather(&x, c_in, h, w, k, pad, w_out, row_start as usize + e / patch, e % patch)
                    })
                    .collect();
                self.put(patches, 0, &y);
            }
            Step::Conv2dImplicit { weight, input, output, c_out, spatial, patch_dim, c_in, h, w, k, pad, w_out } => {
                let (wt, x) = (self.read(weight), self.read(input));
                let (n, patch) = (spatial as usize, patch_dim as usize);
                let mut y = vec![0.0f32; c_out as usize * n];
                for oc in 0..c_out as usize {
                    for r in 0..n {
                        y[oc * n + r] = (0..patch)
                            .map(|e| wt[oc * patch + e] * gather(&x, c_in, h, w, k, pad, w_out, r, e))
                            .sum();
                    }
                }
                self.put(output, 0, &y);
            }
            Step::GroupNorm { x, weight, bias, channels, hw, num_groups, eps } => {
                let (w, b) = (self.read(weight), self.read(bias));
                let eps = f32::from_bits(eps);
                let data = self.slot(x);
                group_norm(data, &w, &b, channels as usize, hw as usize, num_groups as usize, eps);
            }
            Step::Silu { x, n } => {
                for v in self.slot(x)[..n as usize].iter_mut() {
                    *v /= 1.0 + (-*v).exp();
                }
            }
            Step::UpsampleNearest { input, output, h, w, n, .. } => {
                let x = self.read(input);
                let (h, w) = (h as usize, w as usize);
                let y: Vec<f32> = (0..n as usize)
                    .map(|i| {
                        let (c, r, col) = (i / (4 * h * w), i / (2 * w) % (2 * h), i % (2 * w));
                        x[c * h * w + r / 2 * w + col / 2]
                    })
                    .collect();
                self.put(output, 0, &y);
            }
            Step::JointAttentionFlash { query, key, value, out, num_heads, seq, head_dim, scale_dim } => {
                assert_eq!(scale_dim, head_dim as usize);
                let (heads, seq, dim) = (num_heads as usize, seq as usize, head_dim as usize);
                let n = heads * seq * dim;
                let qkv = [query, key, value].map(|b| self.read(b)[..n].to_vec());
                let y = match &self.attention {
                    Some((last, y)) if *last == qkv => y.clone(),
                    _ => online_attention(&qkv[0], &qkv[1], &qkv[2], heads, seq, dim),
                };
                self.put(out, 0, &y);
                self.attention = Some((qkv, y));
            }
        }
    }

    #[allow(clippy::too_many_arguments)]
    fn gemm(&mut self, p: Packed, weight: Buf, input: Buf, at: usize, output: Buf, to: usize, n_rows: u32, k: u32, batch: u32, residual: Option<Buf>) {
        let (n, k, b) = (n_rows as usize, k as usize, batch as usize);
        let w = self.matrix(weight, p, n, k);
        let x = self.read(input)[at..at + k * b].to_vec();
        let mut y = self.product(&w, &x, n, k, b);
        if let Some(r) = residual {
            for (a, c) in y.iter_mut().zip(self.read(r)) {
                *a += c;
            }
        }
        self.put(output, to, &y);
    }

    #[allow(clippy::too_many_arguments)]
    fn norm(&mut self, input: Buf, at: usize, weight: Buf, output: Buf, eps: u32, n: usize, batch: usize) {
        let (x, w) = (self.read(input), self.read(weight));
        let y = rms_columns(&x[at..at + n * batch], &w, eps, n, batch);
        self.put(output, 0, &y);
    }

    fn gate_up(&mut self, weight: Buf, input: Buf, output: Buf, inter: usize, k: usize, batch: usize) {
        let w = self.matrix(weight, Packed::OneBit, 2 * inter, k);
        let x = self.read(input);
        let both = self.product(&w, &x, 2 * inter, k, batch);
        let y = swiglu_columns(&both, inter, batch);
        self.put(output, 0, &y);
    }

    fn argmax(&mut self, logits: Buf, at: usize, token: Buf, to: usize, n: usize) {
        let x = self.read(logits);
        let mut best = 0;
        for i in 0..n {
            if x[at + i] > x[at + best] {
                best = i;
            }
        }
        self.put(token, to, &[best as f32]);
    }
}

fn rms_columns(x: &[f32], w: &[f32], eps: u32, n: usize, batch: usize) -> Vec<f32> {
    let mut y = vec![0.0; n * batch];
    for c in 0..batch {
        let col = &x[c * n..(c + 1) * n];
        let mean = col.iter().map(|v| v * v).sum::<f32>() / n as f32;
        let scale = 1.0 / (mean + f32::from_bits(eps)).sqrt();
        for i in 0..n {
            y[c * n + i] = col[i] * scale * w[i];
        }
    }
    y
}

fn swiglu_columns(x: &[f32], inter: usize, batch: usize) -> Vec<f32> {
    let mut y = vec![0.0; inter * batch];
    for c in 0..batch {
        for i in 0..inter {
            let (gate, up) = (x[c * 2 * inter + i], x[c * 2 * inter + inter + i]);
            y[c * inter + i] = gate / (1.0 + (-gate).exp()) * up;
        }
    }
    y
}

fn softmax_row(row: &mut [f32]) {
    let max = row.iter().fold(f32::NEG_INFINITY, |a, b| a.max(*b));
    let mut sum = 0.0;
    for v in row.iter_mut() {
        *v = (*v - max).exp();
        sum += *v;
    }
    for v in row.iter_mut() {
        *v /= sum;
    }
}

#[allow(clippy::too_many_arguments)]
fn gather(x: &[f32], c_in: u32, h: u32, w: u32, k: u32, pad: u32, w_out: u32, row: usize, e: usize) -> f32 {
    let (c_in, h, w) = (c_in as usize, h as usize, w as usize);
    let (k, pad, w_out) = (k as usize, pad as usize, w_out as usize);
    let (ci, kw, kh) = (e % c_in, e / c_in % k, e / c_in / k);
    let (ih, iw) = (row / w_out + kh, row % w_out + kw);
    if ih < pad || ih >= h + pad || iw < pad || iw >= w + pad {
        0.0
    } else {
        x[ci * h * w + (ih - pad) * w + (iw - pad)]
    }
}

fn group_norm(x: &mut [f32], w: &[f32], b: &[f32], channels: usize, hw: usize, groups: usize, eps: f32) {
    let size = channels / groups;
    for g in 0..groups {
        let group = &mut x[g * size * hw..(g + 1) * size * hw];
        let n = group.len() as f64;
        let mean = group.iter().map(|v| *v as f64).sum::<f64>() / n;
        let var = group.iter().map(|v| (*v as f64 - mean).powi(2)).sum::<f64>() / n;
        let scale = (1.0 / (var + eps as f64).sqrt()) as f32;
        for (i, v) in group.iter_mut().enumerate() {
            let c = g * size + i / hw;
            *v = (*v - mean as f32) * scale * w[c] + b[c];
        }
    }
}

/// Attention heads computed side by side, then laid out token by token.
fn by_head(heads: usize, seq: usize, dim: usize, head: &(dyn Fn(usize) -> Vec<f32> + Sync)) -> Vec<f32> {
    let parts: Vec<Vec<f32>> = (0..heads).into_par_iter().map(head).collect();
    let mut out = vec![0.0; heads * seq * dim];
    for (h, part) in parts.iter().enumerate() {
        for i in 0..seq {
            out[(i * heads + h) * dim..(i * heads + h + 1) * dim]
                .copy_from_slice(&part[i * dim..(i + 1) * dim]);
        }
    }
    out
}

fn dot_lanes(a: &[f32], b: &[f32]) -> f32 {
    let mut lanes = [0.0f32; 32];
    let (xs, ys) = (a.chunks_exact(32), b.chunks_exact(32));
    let rest: f32 = xs.remainder().iter().zip(ys.remainder()).map(|(p, q)| p * q).sum();
    for (x, y) in xs.zip(ys) {
        for l in 0..32 {
            lanes[l] += x[l] * y[l];
        }
    }
    lanes.iter().sum::<f32>() + rest
}

/// Products of all rows and columns, 32 columns at a time.
fn all_products(w: &[f32], x: &[f32], n_rows: usize, k: usize, rows: usize) -> Vec<f32> {
    let parts: Vec<Vec<f32>> = x
        .par_chunks(32 * k)
        .map(|columns| {
            let mut out = vec![0.0; columns.len() / k * n_rows];
            for (r, row) in w.chunks(k).take(rows).enumerate() {
                for (c, column) in columns.chunks(k).enumerate() {
                    out[c * n_rows + r] = dot_lanes(row, column);
                }
            }
            out
        })
        .collect();
    parts.concat()
}

/// Attention with a running maximum and sum.
fn online_attention(q: &[f32], k: &[f32], v: &[f32], heads: usize, seq: usize, dim: usize) -> Vec<f32> {
    let scale = 1.0 / (dim as f32).sqrt();
    by_head(heads, seq, dim, &|h| {
        let mut out = vec![0.0; seq * dim];
        for (i, acc) in out.chunks_mut(dim).enumerate() {
            let (mut max, mut sum) = (f32::NEG_INFINITY, 0.0f32);
            let row = &q[(h * seq + i) * dim..(h * seq + i + 1) * dim];
            for j in 0..seq {
                let at = (h * seq + j) * dim;
                let s = dot_lanes(row, &k[at..at + dim]) * scale;
                if s > max {
                    let keep = (max - s).exp();
                    sum *= keep;
                    acc.iter_mut().for_each(|a| *a *= keep);
                    max = s;
                }
                let add = (s - max).exp();
                sum += add;
                for (a, b) in acc.iter_mut().zip(&v[at..at + dim]) {
                    *a += add * b;
                }
            }
            acc.iter_mut().for_each(|a| *a /= sum);
        }
        out
    })
}

/// Attention with a full softmax row.
fn cpu_joint_attention_ref(q: &[f32], k: &[f32], v: &[f32], heads: usize, seq: usize, dim: usize) -> Vec<f32> {
    let scale = 1.0 / (dim as f32).sqrt();
    by_head(heads, seq, dim, &|h| {
        let mut out = vec![0.0; seq * dim];
        for (i, acc) in out.chunks_mut(dim).enumerate() {
            let row = &q[(h * seq + i) * dim..(h * seq + i + 1) * dim];
            let mut scores: Vec<f32> = k[h * seq * dim..(h + 1) * seq * dim]
                .chunks(dim)
                .map(|key| dot_lanes(row, key) * scale)
                .collect();
            softmax_row(&mut scores);
            for (s, value) in scores.iter().zip(v[h * seq * dim..].chunks(dim)) {
                for (a, b) in acc.iter_mut().zip(value) {
                    *a += s * b;
                }
            }
        }
        out
    })
}

fn cosine(a: &[f32], b: &[f32]) -> f64 {
    let dot: f64 = a.iter().zip(b).map(|(x, y)| *x as f64 * *y as f64).sum();
    let norm = |v: &[f32]| v.iter().map(|x| *x as f64 * *x as f64).sum::<f64>().sqrt();
    dot / (norm(a) * norm(b))
}

fn fill_deterministic(n: usize, seed_base: u64) -> Vec<f32> {
    let mut state = seed_base.wrapping_mul(6364136223846793005).wrapping_add(1);
    (0..n)
        .map(|_| {
            state = state.wrapping_mul(6364136223846793005).wrapping_add(1442695040888963407);
            let unit = ((state >> 33) as u32 as f32) / (u32::MAX as f32);
            unit * 2.0 - 1.0
        })
        .collect()
}

fn vae_fill(n: usize, seed: u32) -> Vec<f32> {
    let mut lcg: u32 = 0x9E37_79B9 ^ seed.wrapping_mul(2_654_435_761);
    (0..n)
        .map(|_| {
            lcg = lcg.wrapping_mul(1_664_525).wrapping_add(1_013_904_223);
            ((lcg >> 8) as f32 / (1u32 << 24) as f32) - 0.5
        })
        .collect()
}

fn err_stats(a: &[f32], b: &[f32]) -> (f32, f32) {
    let (mut max_abs, mut num, mut den) = (0f32, 0f64, 0f64);
    for (&x, &y) in a.iter().zip(b.iter()) {
        let e = (x - y).abs();
        max_abs = max_abs.max(e);
        num += (e as f64) * (e as f64);
        den += (x as f64) * (x as f64);
    }
    let rel = if den > 0.0 { num.sqrt() / den.sqrt() } else { num.sqrt() };
    (max_abs, rel as f32)
}

fn cpu_conv2d(input: &[f32], weight: &[f32], bias: &[f32], c_in: usize, c_out: usize, h: usize, w: usize, k: usize, pad: usize) -> Vec<f32> {
    let (h_out, w_out) = (h + 2 * pad + 1 - k, w + 2 * pad + 1 - k);
    let mut out = vec![0f32; c_out * h_out * w_out];
    for oc in 0..c_out {
        for oh in 0..h_out {
            for ow in 0..w_out {
                let mut acc = 0f32;
                for kh in 0..k {
                    for kw in 0..k {
                        let (ih, iw) = (oh + kh, ow + kw);
                        if ih < pad || ih >= h + pad || iw < pad || iw >= w + pad {
                            continue;
                        }
                        for ci in 0..c_in {
                            acc += input[(ci * h + ih - pad) * w + iw - pad]
                                * weight[((oc * k + kh) * k + kw) * c_in + ci];
                        }
                    }
                }
                out[(oc * h_out + oh) * w_out + ow] = acc + bias[oc];
            }
        }
    }
    out
}

/// Packs ternary blocks: 32 bytes of codes, then the scale.
fn ternary_bytes(n_blocks: usize, code: &mut dyn FnMut(usize, usize) -> u8, scale: &dyn Fn(usize) -> f32) -> Vec<u8> {
    let mut out = Vec::with_capacity(n_blocks * 34);
    for b in 0..n_blocks {
        for i in 0..32 {
            out.push(code(b, i));
        }
        out.extend_from_slice(&f16::from_f32(scale(b)).to_le_bytes());
    }
    out
}

/// Packs 1-bit blocks: the scale, then 16 bytes of signs.
fn one_bit_bytes(n_blocks: usize, seed: u32) -> Vec<u8> {
    let mut lcg = seed;
    let mut out = Vec::with_capacity(n_blocks * 18);
    for b in 0..n_blocks {
        out.extend_from_slice(&f16::from_f32(0.02 + 0.001 * (b % 7) as f32).to_le_bytes());
        for _ in 0..16 {
            lcg = lcg.wrapping_mul(1_664_525).wrapping_add(1_013_904_223);
            out.push((lcg >> 16) as u8);
        }
    }
    out
}

/// The weights of packed ternary blocks, straight from the blocks.
fn ternary_weights(aos: &[u8]) -> Vec<f32> {
    let mut out = Vec::new();
    for block in aos.chunks(34) {
        let d = f16::from_le_bytes([block[32], block[33]]).to_f32();
        for i in 0..128 {
            out.push(d * (((block[i / 4] >> (2 * (i % 4))) & 3) as f32 - 1.0));
        }
    }
    out
}

/// The weights of packed 1-bit blocks, straight from the blocks.
fn one_bit_weights(aos: &[u8]) -> Vec<f32> {
    let mut out = Vec::new();
    for block in aos.chunks(18) {
        let d = f16::from_le_bytes([block[0], block[1]]).to_f32();
        for i in 0..128 {
            out.push(if (block[2 + i / 8] >> (i % 8)) & 1 == 1 { d } else { -d });
        }
    }
    out
}

fn mat_vec(w: &[f32], x: &[f32]) -> Vec<f32> {
    w.chunks(x.len()).map(|row| row.iter().zip(x).map(|(a, b)| a * b).sum()).collect()
}

const INPUT: Buf = Buf::Scratch(ScratchBuf::Input);
const OUTPUT: Buf = Buf::Scratch(ScratchBuf::Output);

fn downloaded(out: &Outcome, buf: Buf) -> Vec<f32> {
    out.downloads.iter().rev().find(|(b, _)| *b == buf).unwrap().1.clone()
}

fn assert_close(expected: &[f32], got: &[f32], tol: f32) {
    assert_eq!(expected.len(), got.len());
    for (i, (a, b)) in expected.iter().zip(got).enumerate() {
        assert!((a - b).abs() < tol, "element {i}: expected {a}, got {b}");
    }
}

#[test]
fn test_metal_graph_creation() {
    let graph = MetalGraph::new();
    assert_eq!(graph.gemm_pool_alloc_count(), 0);
    assert_eq!(graph.joint_attn_pool_alloc_count(), 0);
}

#[test]
fn test_weight_upload() {
    let mut graph = MetalGraph::new();
    let data = vec![0u8; 1024];
    let handle = graph.upload_weight(&data);
    assert!(handle.is_ok());
    let handle = handle.expect("upload_weight failed");
    assert_eq!(handle.byte_len(), 1024);
    let uploads = graph.take_uploads();
    assert_eq!(uploads.len(), 1);
    assert_eq!(uploads[0].buffer, handle.buffer);
    assert!(matches!(&uploads[0].data, WeightData::Bytes(b) if *b == data));
    assert!(graph.take_uploads().is_empty());
}

#[test]
fn test_encode_gemv_tq2_matches_reference() {
    let (n_rows, k) = (16usize, 256usize);
    let per_row = k / 128;
    let aos = ternary_bytes(
        n_rows * per_row,
        &mut |b, i| {
            let seed = (b / per_row) * 31 + (b % per_row) * 17 + i;
            let c = |d: usize| ((seed / d) % 3) as u8;
            c(1) | (c(3) << 2) | (c(9) << 4) | (c(27) << 6)
        },
        &|b| 0.125 + 0.03125 * (b / per_row) as f32,
    );
    let input: Vec<f32> = (0..k).map(|i| (i as f32) * 0.01 - 0.5).collect();
    let expected = mat_vec(&ternary_weights(&aos), &input);
    let mut host = Host::new();
    let handle = host.graph.upload_tq2_weight_soa(&aos).expect("upload_tq2_weight_soa failed");
    let plan = host.graph.encode_gemv_tq2(&handle, k, n_rows, n_rows, k).expect("plan");
    let out = host.run(&plan, &[(INPUT, &input)], None);
    assert_close(&expected, &downloaded(&out, OUTPUT), 1e-3);
}

#[test]
fn one_bit_gemv_matches_reference() {
    let (n_rows, k) = (12usize, 384usize);
    let aos = one_bit_bytes(n_rows * k / 128, 77);
    let input = vae_fill(k, 5);
    let expected = mat_vec(&one_bit_weights(&aos), &input);
    let mut host = Host::new();
    let handle = host.graph.upload_q1_weight_soa(&aos).unwrap();
    for qkv in [false, true] {
        let plan = if qkv {
            host.graph.encode_qkv_phase(k, n_rows, &handle, n_rows, k).unwrap()
        } else {
            host.graph.encode_gemv(&handle, k, n_rows, n_rows, k).unwrap()
        };
        let out = host.run(&plan, &[(INPUT, &input)], None);
        assert_close(&expected, &downloaded(&out, OUTPUT), 1e-4);
    }
    let e = host.graph.encode_gemv(&handle, k - 1, n_rows, n_rows, k).unwrap_err();
    assert!(matches!(&e, MetalGraphError::EncodingFailed(_)));
}

fn pool_weight(host: &mut Host, key: u64, n_rows: usize, k: usize) -> MetalWeightHandle {
    let per_row = k / 128;
    let mut lcg: u32 = 0x9E37_79B9 ^ ((n_rows as u32) << 7) ^ (k as u32);
    let mut next = || {
        lcg = lcg.wrapping_mul(1_664_525).wrapping_add(1_013_904_223);
        ((lcg >> 16) % 3) as u8
    };
    let aos = ternary_bytes(
        n_rows * per_row,
        &mut |_, _| next() | (next() << 2) | (next() << 4) | (next() << 6),
        &|b| 0.05 + 0.003 * ((b / per_row) % 13) as f32 + 0.002 * (b % per_row) as f32,
    );
    host.graph.get_or_upload_tq2_weight_soa(key, &aos).unwrap()
}

#[test]
fn test_encode_gemm_tq2_matches_reference() {
    let (n_rows, k) = (40usize, 256usize);
    let per_row = k / 128;
    let mut lcg: u32 = 0x1234_5678;
    let mut next = || {
        lcg = lcg.wrapping_mul(1_664_525).wrapping_add(1_013_904_223);
        ((lcg >> 16) % 3) as u8
    };
    let aos = ternary_bytes(
        n_rows * per_row,
        &mut |_, _| next() | (next() << 2) | (next() << 4) | (next() << 6),
        &|b| 0.0625 + 0.0078125 * ((b / per_row) as f32 + 0.5 * (b % per_row) as f32),
    );
    let dequant_w = ternary_weights(&aos);
    let mut host = Host::new();
    let handle = host.graph.get_or_upload_tq2_weight_soa(7_700_001u64, &aos).unwrap();
    for &m in &[1usize, 7, 8, 9, 100] {
        let input: Vec<f32> = (0..m * k)
            .map(|i| (((i % k) as f32) * 0.013 - 0.4) + ((i / k) as f32) * 0.0007)
            .collect();
        let plan = host.graph.encode_gemm_tq2(&handle, m * k, m * n_rows, m, n_rows, k).unwrap();
        let out = host.run(&plan, &[(Buf::GemmInput, &input)], None);
        let got = downloaded(&out, Buf::GemmOutput);
        let expected: Vec<f32> =
            input.chunks(k).flat_map(|row| mat_vec(&dequant_w, row)).collect();
        assert_close(&expected, &got, 1e-3);
        assert!(got.iter().any(|v| v.abs() > 1e-6), "M={m}: output is all-zero");
    }
}

#[test]
fn test_encode_gemm_tq2_v8_tiled_parity() {
    let mut host = Host::new();
    let mut weight_key: u64 = 7_700_100;
    for &n_rows in &[8usize, 40, 3072] {
        for &k in &[128usize, 256, 3072] {
            let per_row = k / 128;
            let mut lcg: u32 = 0x9E37_79B1 ^ ((n_rows as u32) << 8) ^ (k as u32);
            let mut next = || {
                lcg = lcg.wrapping_mul(1_664_525).wrapping_add(1_013_904_223);
                ((lcg >> 16) % 3) as u8
            };
            let aos = ternary_bytes(
                n_rows * per_row,
                &mut |_, _| next() | (next() << 2) | (next() << 4) | (next() << 6),
                &|b| 0.05 + 0.003 * ((b / per_row) % 17) as f32 + 0.002 * (b % per_row) as f32,
            );
            let dequant_w = ternary_weights(&aos);
            let handle = host.graph.get_or_upload_tq2_weight_soa(weight_key, &aos).unwrap();
            weight_key += 1;
            for &m in &[1usize, 7, 8, 9, 32, 33, 100, 1536] {
                let input: Vec<f32> = (0..m * k)
                    .map(|i| (((i % k) as f32) * 0.011 - 0.37).sin() + ((i / k) as f32) * 0.0005)
                    .collect();
                let plan = host
                    .graph
                    .encode_gemm_tq2(&handle, m * k, m * n_rows, m, n_rows, k)
                    .expect("encode_gemm_tq2 failed");
                let out = host.run(&plan, &[(Buf::GemmInput, &input)], None);
                let got = downloaded(&out, Buf::GemmOutput);
                let expected = all_products(&dequant_w, &input, n_rows, k, n_rows);
                assert_close(&expected, &got, 1e-3);
                assert!(got.iter().any(|v| v.abs() > 1e-6), "N={n_rows} K={k} M={m}: all zero");
            }
        }
    }
}

#[test]
fn test_gemm_pool_alloc_count_is_constant_after_warmup() {
    let mut host = Host::new();
    let make_input = |m: usize, k: usize| -> Vec<f32> {
        (0..m * k)
            .map(|i| (((i % k) as f32) * 0.009 - 0.31).cos() + ((i / k) as f32) * 0.0004)
            .collect()
    };
    let (warm_m, warm_n, warm_k) = (1536usize, 3072usize, 3072usize);
    let warm = pool_weight(&mut host, 7_701_400u64, warm_n, warm_k);
    let input = make_input(warm_m, warm_k);
    let plan = host
        .graph
        .encode_gemm_tq2(&warm, warm_m * warm_k, warm_m * warm_n, warm_m, warm_n, warm_k)
        .unwrap();
    host.row_limit = 1;
    let out = host.run(&plan, &[(Buf::GemmInput, &input)], None);
    host.row_limit = usize::MAX;
    assert!(downloaded(&out, Buf::GemmOutput).iter().any(|v| v.abs() > 1e-6));
    assert_eq!(host.graph.gemm_pool_alloc_count(), 2);

    let (n_rows, k) = (64usize, 256usize);
    let small = pool_weight(&mut host, 7_701_500u64, n_rows, k);
    let before = host.graph.gemm_pool_alloc_count();
    for &m in &[1usize, 8, 9, 32, 100, 256, 512, 7, 64, 128, 512, 1] {
        let input = make_input(m, k);
        let plan = host.graph.encode_gemm_tq2(&small, m * k, m * n_rows, m, n_rows, k).unwrap();
        let out = host.run(&plan, &[(Buf::GemmInput, &input)], None);
        assert_eq!(out.fresh, 0);
        assert!(
            downloaded(&out, Buf::GemmOutput).iter().any(|v| v.abs() > 1e-6),
            "M={m}: pooled output is all-zero"
        );
    }
    assert_eq!(host.graph.gemm_pool_alloc_count() - before, 0);
}

#[test]
fn gemm_pool_grows_one_buffer_at_a_time() {
    let mut host = Host::new();
    let weight = vae_fill(8 * 16, 3);
    let handle = host.graph.get_or_upload_f32_weight(1, &bits(&weight)).unwrap();
    let mut counts = Vec::new();
    for (m, n_rows, k) in [(2usize, 4usize, 4usize), (3, 2, 4), (3, 8, 2), (1, 8, 16)] {
        let input = vae_fill(m * k, 9);
        let plan = host.graph.encode_gemm_f32(&handle, m * k, m * n_rows, m, n_rows, k);
        if 4 * n_rows * k > handle.byte_len() {
            assert!(plan.is_err());
            continue;
        }
        let out = host.run(&plan.unwrap(), &[(Buf::GemmInput, &input)], None);
        counts.push((out.fresh, host.graph.gemm_pool_alloc_count()));
    }
    assert_eq!(counts, vec![(2, 2), (1, 3), (1, 4), (1, 5)]);
}

#[test]
fn single_precision_gemm_matches_reference() {
    let (n_rows, k) = (40usize, 96usize);
    let weight = vae_fill(n_rows * k, 11);
    let mut host = Host::new();
    let handle = host.graph.get_or_upload_f32_weight(7_950_000, &bits(&weight)).unwrap();
    for m in [1usize, 7, 33] {
        let input = vae_fill(m * k, m as u32);
        let plan = host.graph.encode_gemm_f32(&handle, m * k, m * n_rows, m, n_rows, k).unwrap();
        let out = host.run(&plan, &[(Buf::GemmInput, &input)], None);
        let expected: Vec<f32> = input.chunks(k).flat_map(|row| mat_vec(&weight, row)).collect();
        assert_close(&expected, &downloaded(&out, Buf::GemmOutput), 1e-4);
    }
}

const CAPS: AttnCaps = AttnCaps { max_seq: 8192, max_head_dim: 128 };

fn attn_args(num_heads: usize, seq: usize, head_dim: usize) -> AttnArgs {
    let n = num_heads * seq * head_dim;
    AttnArgs { q_len: n, k_len: n, v_len: n, out_len: n, num_heads, seq, head_dim }
}

#[test]
fn test_joint_attention_flash_parity() {
    let mut host = Host::new();
    let shapes = [(2usize, 8usize, 128usize), (2, 40, 128), (1, 50, 128), (1, 64, 128), (24, 1536, 128)];
    for (hi, &(num_heads, seq, head_dim)) in shapes.iter().enumerate() {
        let n = num_heads * seq * head_dim;
        let q = fill_deterministic(n, 0x4000 + hi as u64);
        let k = fill_deterministic(n, 0x5000 + hi as u64);
        let v = fill_deterministic(n, 0x6000 + hi as u64);
        let expected = cpu_joint_attention_ref(&q, &k, &v, num_heads, seq, head_dim);
        let args = attn_args(num_heads, seq, head_dim);

        let plan = host.graph.encode_joint_attention_flash(&args, &CAPS).unwrap();
        let fresh = [
            (Buf::Scratch(ScratchBuf::Q), &q[..]),
            (Buf::Scratch(ScratchBuf::K), &k[..]),
            (Buf::Scratch(ScratchBuf::V), &v[..]),
        ];
        let standalone = downloaded(&host.run(&plan, &fresh, None), OUTPUT);
        assert_close(&expected, &standalone, 1e-3);
        assert!(cosine(&expected, &standalone) > 0.9999);

        let pool = [(Buf::AttnQ, &q[..]), (Buf::AttnK, &k[..]), (Buf::AttnV, &v[..])];
        let plan = host.graph.encode_joint_attention_flash_pooled(&args, &CAPS).unwrap();
        let pooled = downloaded(&host.run(&plan, &pool, None), Buf::AttnOut);
        assert_eq!(standalone, pooled);

        let plan = host.graph.joint_attn_resident_prepare(&args, &CAPS).unwrap();
        host.run(&plan, &pool, None);
        let plan =
            host.graph.joint_attn_flash_resident_dispatch(num_heads, seq, head_dim, &CAPS).unwrap();
        host.run(&plan, &[], None);
        let plan = host.graph.joint_attn_resident_download(n).unwrap();
        let resident = downloaded(&host.run(&plan, &[], None), Buf::AttnOut);
        assert_eq!(standalone, resident);
    }
}

#[test]
fn test_joint_attn_pool_alloc_count_is_constant_after_warmup() {
    let mut graph = MetalGraph::new();
    let args = attn_args(24, 1536, 128);
    let carry_out = |graph: &mut MetalGraph| {
        let plan = graph.encode_joint_attention_flash_pooled(&args, &CAPS).expect("pooled call");
        for action in &plan {
            if let Action::Keep(r) = action {
                graph.keep(*r);
            }
        }
    };
    carry_out(&mut graph);
    let before = graph.joint_attn_pool_alloc_count();
    assert_eq!(before, 4);
    for _ in 0..8 {
        carry_out(&mut graph);
    }
    assert_eq!(before, graph.joint_attn_pool_alloc_count());
}

#[test]
fn attention_rejects_what_it_cannot_hold() {
    let graph = MetalGraph::new();
    let mut args = attn_args(2, 8, 128);
    args.k_len -= 1;
    assert!(matches!(
        graph.encode_joint_attention_flash(&args, &CAPS),
        Err(MetalGraphError::InvalidDimensions(_))
    ));
    let wide = attn_args(1, 8, 136);
    assert!(graph.encode_joint_attention_flash(&wide, &CAPS).is_err());
    // Nothing was prepared, so nothing can be dispatched or read.
    assert!(graph.joint_attn_flash_resident_dispatch(2, 8, 128, &CAPS).is_err());
    assert!(graph.joint_attn_resident_download(8).is_err());
}

fn conv_case(host: &mut Host, key: u64, shape: (usize, usize, usize, usize), k: usize, pad: usize, seeds: (u32, u32, u32), implicit_disabled: bool) -> (Vec<f32>, Vec<f32>) {
    let (c_in, c_out, h, w) = shape;
    let input = vae_fill(c_in * h * w, seeds.0);
    let weight = vae_fill(c_out * k * k * c_in, seeds.1);
    let bias = vae_fill(c_out, seeds.2);
    let handle = host.graph.get_or_upload_f32_weight(key, &bits(&weight)).unwrap();
    let spatial = (h + 2 * pad + 1 - k) * (w + 2 * pad + 1 - k);
    let args = ConvArgs {
        weight: handle,
        input_len: c_in * h * w,
        bias_len: c_out,
        output_len: c_out * spatial,
        c_in,
        c_out,
        h,
        w,
        k,
        pad,
    };
    let plan = host.graph.encode_conv2d_f32(&args, implicit_disabled).expect("encode_conv2d_f32");
    let got = match plan {
        ConvPlan::Empty => Vec::new(),
        ConvPlan::ChannelMix(p) => {
            let rows = floats(&transpose(&bits(&input), c_in, spatial));
            let out = host.run(&p, &[(Buf::GemmInput, &rows)], None);
            let tile = bits(&downloaded(&out, Buf::GemmOutput));
            let mut planes = transpose(&tile, spatial, c_out);
            add_bias(&Native, &mut planes, &bits(&bias), c_out, spatial);
            floats(&planes)
        }
        ConvPlan::Implicit { plan, fallback } => {
            assert!(!implicit_disabled);
            let conv = Some((c_out, spatial, &bias[..]));
            let direct = floats(&host.run(&plan, &[(INPUT, &input)], conv).plane);
            let tiled = floats(&host.run(&fallback, &[(INPUT, &input)], conv).plane);
            assert_close(&direct, &tiled, 1e-3);
            direct
        }
        ConvPlan::Im2col(p) => {
            floats(&host.run(&p, &[(INPUT, &input)], Some((c_out, spatial, &bias))).plane)
        }
    };
    (cpu_conv2d(&input, &weight, &bias, c_in, c_out, h, w, k, pad), got)
}

#[test]
fn test_encode_conv2d_f32_k1_matches_cpu() {
    let mut host = Host::new();
    let cases = [
        (3usize, 8usize, 5usize, 7usize),
        (128, 32, 32, 32),
        (35, 17, 40, 40),
        (192, 96, 64, 64),
        (16, 3, 512, 512),
    ];
    for (idx, &(c_in, c_out, h, w)) in cases.iter().enumerate() {
        let seeds = (
            c_in as u32 * 31 + h as u32,
            c_out as u32 * 17 + c_in as u32,
            c_out as u32 * 7 + 3,
        );
        let (expected, got) =
            conv_case(&mut host, 8_100_000 + idx as u64, (c_in, c_out, h, w), 1, 0, seeds, false);
        assert_eq!(expected.len(), got.len());
        let (max_abs, rel_l2) = err_stats(&expected, &got);
        assert!(max_abs < 1e-3 && rel_l2 < 1e-4, "C_in={c_in} C_out={c_out} {h}x{w}: {max_abs}");
    }
}

#[test]
fn wide_convolutions_match_reference_on_both_paths() {
    let mut host = Host::new();
    let cases = [(4usize, 6usize, 6usize, 8usize, 3usize, 1usize), (5, 7, 9, 4, 3, 0), (2, 3, 7, 7, 5, 2)];
    for (idx, &(c_in, c_out, h, w, k, pad)) in cases.iter().enumerate() {
        for disabled in [false, true] {
            let (expected, got) = conv_case(
                &mut host,
                8_200_000 + idx as u64,
                (c_in, c_out, h, w),
                k,
                pad,
                (idx as u32, 41, 5),
                disabled,
            );
            assert_close(&expected, &got, 1e-3);
        }
    }
}

#[test]
fn im2col_tiles_cover_a_plane_that_exceeds_the_cap() {
    let graph = MetalGraph::new();
    // 192 channels at 512 x 512: 9 * 192 * 4 bytes a row, so several tiles.
    let weight = MetalWeightHandle { buffer: 0, byte_len: 192 * 9 * 192 * 4 };
    let g = ConvGeometry {
        c_in: 192,
        c_out: 192,
        h: 512,
        w: 512,
        k: 3,
        pad: 1,
        spatial: 512 * 512,
        patch_dim: 9 * 192,
        w_out: 512,
    };
    let plan = graph.encode_conv2d_f32_im2col(&weight, 192 * 512 * 512, &g);
    let mut next = 0;
    let mut tiles = 0;
    for action in &plan {
        if let Action::ScatterTile { row_start, rows } = action {
            assert_eq!(*row_start, next);
            assert!(*rows * 9 * 192 * 4 <= 268_435_456);
            next += rows;
            tiles += 1;
        }
    }
    assert_eq!(next, 512 * 512);
    assert_eq!(tiles, 7);
}

#[test]
fn convolution_rejects_bad_shapes() {
    let graph = MetalGraph::new();
    let base = ConvArgs {
        weight: MetalWeightHandle { buffer: 0, byte_len: 2 * 9 * 3 * 4 },
        input_len: 3 * 4 * 4,
        bias_len: 2,
        output_len: 2 * 4 * 4,
        c_in: 3,
        c_out: 2,
        h: 4,
        w: 4,
        k: 3,
        pad: 1,
    };
    assert!(matches!(graph.encode_conv2d_f32(&base, false), Ok(ConvPlan::Implicit { .. })));
    assert!(matches!(graph.encode_conv2d_f32(&base, true), Ok(ConvPlan::Im2col(_))));
    let no_kernel = graph.encode_conv2d_f32(&ConvArgs { k: 0, ..base }, false).unwrap_err();
    assert_eq!(
        no_kernel.message(),
        "Metal invalid dimensions: encode_conv2d_f32: kernel size k must be ≥ 1"
    );
    assert!(graph.encode_conv2d_f32(&ConvArgs { input_len: 47, ..base }, false).is_err());
    assert!(graph.encode_conv2d_f32(&ConvArgs { bias_len: 1, ..base }, false).is_err());
    assert!(graph.encode_conv2d_f32(&ConvArgs { output_len: 31, ..base }, false).is_err());
    // The kernel is larger than the padded plane.
    assert!(graph.encode_conv2d_f32(&ConvArgs { k: 7, ..base }, false).is_err());
    let small = MetalWeightHandle { buffer: 0, byte_len: 8 };
    assert!(graph.encode_conv2d_f32(&ConvArgs { weight: small, ..base }, false).is_err());
}

#[test]
fn test_encode_groupnorm_f32_matches_cpu() {
    let mut host = Host::new();
    let eps = 1e-6f32;
    let ng = 32usize;
    let cases =
        [(32usize, 8usize, 8usize), (384, 64, 64), (192, 128, 128), (96, 512, 512), (384, 32, 32)];
    for &(channels, h, w) in &cases {
        let hw = h * w;
        let x: Vec<f32> = vae_fill(channels * hw, channels as u32 * 23 + h as u32)
            .iter()
            .map(|v| v * 4.0 + 0.3)
            .collect();
        let weight: Vec<f32> =
            vae_fill(channels, channels as u32 * 13 + 1).iter().map(|v| v + 1.0).collect();
        let bias = vae_fill(channels, channels as u32 * 29 + 9);
        let plan = host
            .graph
            .encode_groupnorm_f32(channels * hw, channels, channels, channels, hw, ng, eps.to_bits())
            .expect("encode_groupnorm_f32");
        let operands = [
            (INPUT, &x[..]),
            (Buf::Scratch(ScratchBuf::Weight), &weight[..]),
            (Buf::Scratch(ScratchBuf::Bias), &bias[..]),
        ];
        let got = downloaded(&host.run(&plan, &operands, None), INPUT);
        let mut expected = x;
        group_norm(&mut expected, &weight, &bias, channels, hw, ng, eps);
        let (max_abs, rel_l2) = err_stats(&expected, &got);
        assert!(max_abs < 1e-3 && rel_l2 < 1e-4, "C={channels} {h}x{w}: {max_abs}");
    }
    assert!(host.graph.encode_groupnorm_f32(33 * 4, 33, 33, 33, 4, ng, 0).is_err());
    assert!(host.graph.encode_groupnorm_f32(4, 1, 1, 1, 4, 0, 0).is_err());
}

#[test]
fn test_encode_silu_f32_matches_cpu() {
    let mut host = Host::new();
    for &n in &[1usize, 255, 256, 257, 4096, 384 * 512 * 512] {
        let x: Vec<f32> = vae_fill(n, n as u32 * 3 + 1).iter().map(|v| v * 16.0).collect();
        let plan = host.graph.encode_silu_f32(n).expect("encode_silu_f32");
        let got = downloaded(&host.run(&plan, &[(INPUT, &x)], None), INPUT);
        let expected: Vec<f32> = x.iter().map(|&v| v / (1.0 + (-v).exp())).collect();
        let (max_abs, rel_l2) = err_stats(&expected, &got);
        assert!(max_abs < 1e-3 && rel_l2 < 1e-4, "n={n}: {max_abs}");
    }
    assert!(host.graph.encode_silu_f32(0).unwrap().is_empty());
}

#[test]
fn test_encode_upsample_nearest_f32_matches_cpu() {
    let mut host = Host::new();
    let cases =
        [(1usize, 1usize, 2usize), (35, 40, 40), (384, 64, 64), (192, 128, 128), (96, 256, 256)];
    for &(c, h, w) in &cases {
        let input = vae_fill(c * h * w, c as u32 * 19 + h as u32);
        let plan = host
            .graph
            .encode_upsample_nearest_f32(c * h * w, c * 4 * h * w, c, h, w)
            .expect("encode_upsample_nearest_f32");
        let got = downloaded(&host.run(&plan, &[(INPUT, &input)], None), OUTPUT);
        assert_eq!(got.len(), c * 4 * h * w);
        for ci in 0..c {
            for ho in 0..2 * h {
                for wo in 0..2 * w {
                    let expected = input[(ci * h + ho / 2) * w + wo / 2];
                    assert!(got[(ci * 2 * h + ho) * 2 * w + wo] == expected, "C={c} {h}x{w}");
                }
            }
        }
    }
    assert!(host.graph.encode_upsample_nearest_f32(4, 15, 1, 2, 2).is_err());
}

#[test]
fn ffn_phase_matches_reference() {
    let (hidden, inter) = (128usize, 256usize);
    let mut host = Host::new();
    let proj = one_bit_bytes(hidden, 1);
    let gate_up = one_bit_bytes(2 * inter, 2);
    let down = one_bit_bytes(hidden * 2, 3);
    let eps = 1e-5f32;
    let h = vae_fill(hidden, 1);
    let attn = vae_fill(hidden, 2);
    let norm: Vec<f32> = vae_fill(hidden, 3).iter().map(|v| v + 1.0).collect();
    let args = FfnArgs {
        hidden_len: hidden,
        attn_out_len: hidden,
        norm_weight_len: hidden,
        attn_proj_weight: host.graph.get_or_upload_q1_weight_soa(1, &proj).unwrap(),
        gate_up_weight: host.graph.get_or_upload_q1_weight_soa(2, &gate_up).unwrap(),
        down_weight: host.graph.get_or_upload_q1_weight_soa(3, &down).unwrap(),
        hidden_size: hidden,
        intermediate_size: inter,
        eps: eps.to_bits(),
    };
    let mut expected = h.clone();
    for (a, b) in expected.iter_mut().zip(mat_vec(&one_bit_weights(&proj), &attn)) {
        *a += b;
    }
    let normed = rms_columns(&expected, &norm, eps.to_bits(), hidden, 1);
    let both = mat_vec(&one_bit_weights(&gate_up), &normed);
    let swiglu = swiglu_columns(&both, inter, 1);
    for (a, b) in expected.iter_mut().zip(mat_vec(&one_bit_weights(&down), &swiglu)) {
        *a += b;
    }
    for round in 0..2 {
        let plan = host.graph.encode_ffn_phase(&args).unwrap();
        let operands = [
            (Buf::Ffn(FfnBuf::Hidden), &h[..]),
            (Buf::Ffn(FfnBuf::AttnOut), &attn[..]),
            (Buf::Ffn(FfnBuf::NormWeight), &norm[..]),
        ];
        let out = host.run(&plan, &operands, None);
        assert_eq!(out.fresh, if round == 0 { 7 } else { 0 });
        assert_close(&expected, &downloaded(&out, Buf::Ffn(FfnBuf::Hidden)), 1e-4);
    }
    let short = FfnArgs { hidden_len: 127, ..args };
    assert_eq!(
        host.graph.encode_ffn_phase(&short).unwrap_err().message(),
        "Metal encoding failed: hidden too short: need 128, got 127"
    );
    let none = FfnArgs { hidden_size: 0, ..args };
    assert!(matches!(
        host.graph.encode_ffn_phase(&none),
        Err(MetalGraphError::BufferCreationFailed)
    ));
}

/// A small model with packed weights.
struct Model {
    norms: Vec<Vec<u32>>,
    packed: Vec<Vec<u8>>,
    final_norm: Vec<u32>,
    lm_head: Vec<u8>,
    config: LayerConfig,
    ternary: bool,
}

const LAYERS: usize = 2;
const VOCAB: usize = 24;

fn model(ternary: bool) -> Model {
    let config = LayerConfig {
        hidden_size: 128,
        intermediate_size: 256,
        n_q_heads: 2,
        n_kv_heads: 1,
        head_dim: 64,
        eps: 1e-5f32.to_bits(),
        max_seq_len: 8,
    };
    let blocks = |n: usize, seed: u32| {
        if ternary {
            let mut lcg = seed;
            let mut next = || {
                lcg = lcg.wrapping_mul(1_664_525).wrapping_add(1_013_904_223);
                ((lcg >> 16) % 3) as u8
            };
            ternary_bytes(
                n,
                &mut |_, _| next() | (next() << 2) | (next() << 4) | (next() << 6),
                &|b| 0.03 + 0.001 * (b % 7) as f32,
            )
        } else {
            one_bit_bytes(n, seed)
        }
    };
    let ones = |n: usize, seed: u32| bits(&vae_fill(n, seed).iter().map(|v| v + 1.0).collect::<Vec<_>>());
    let mut norms = Vec::new();
    let mut packed = Vec::new();
    for l in 0..LAYERS as u32 {
        for (i, n) in [128usize, 64, 64, 128].iter().enumerate() {
            norms.push(ones(*n, 100 * l + i as u32));
        }
        for (i, n) in [256usize, 128, 256, 256, 256].iter().enumerate() {
            packed.push(blocks(*n, 1000 * l + i as u32));
        }
    }
    Model { norms, packed, final_norm: ones(128, 7), lm_head: blocks(VOCAB, 9), config, ternary }
}

/// Which outputs a prefill is asked for.
#[derive(Clone, Copy, PartialEq)]
enum Want {
    Logits,
    Token,
    Every,
}

fn layer_params(m: &Model) -> Vec<FullForwardLayerParams<'_>> {
    (0..LAYERS)
        .map(|l| FullForwardLayerParams {
            attn_norm_handle: 10 * l as u64,
            attn_norm_bits: &m.norms[4 * l],
            q_norm_handle: 10 * l as u64 + 1,
            q_norm_bits: &m.norms[4 * l + 1],
            k_norm_handle: 10 * l as u64 + 2,
            k_norm_bits: &m.norms[4 * l + 2],
            ffn_norm_handle: 10 * l as u64 + 3,
            ffn_norm_bits: &m.norms[4 * l + 3],
            fused_qkv_handle: 10 * l as u64 + 4,
            fused_qkv_bytes: &m.packed[5 * l],
            attn_proj_handle: 10 * l as u64 + 5,
            attn_proj_bytes: &m.packed[5 * l + 1],
            gate_up_handle: 10 * l as u64 + 6,
            gate_bytes: &m.packed[5 * l + 2],
            up_bytes: &m.packed[5 * l + 3],
            down_handle: 10 * l as u64 + 7,
            down_bytes: &m.packed[5 * l + 4],
        })
        .collect()
}

fn prefill_plan(host: &mut Host, m: &Model, args: &PrefillArgs, want: Want, device: Result<(), MetalGraphError>) -> Result<Vec<Action>, MetalGraphError> {
    let layers = layer_params(m);
    let head = HeadParams {
        final_norm_handle: Some(900),
        final_norm_bits: Some(&m.final_norm),
        lm_head_handle: Some(901),
        lm_head_bytes: Some(&m.lm_head),
    };
    let (logits, token) = (want == Want::Logits, want == Want::Token);
    let g = &mut host.graph;
    match (m.ternary, want) {
        (false, Want::Every) => try_metal_full_forward_prefill_verify(g, device, &layers, &head, args),
        (true, Want::Every) => try_metal_full_forward_prefill_verify_ternary(g, device, &layers, &head, args),
        (false, _) => try_metal_full_forward_prefill(g, device, &layers, &head, args, logits, token),
        (true, _) => try_metal_full_forward_prefill_ternary(g, device, &layers, &head, args, logits, token),
    }
}

fn prefill_args(m: &Model, batch: usize, pos_start: usize) -> PrefillArgs {
    PrefillArgs {
        hidden_len: batch * 128,
        pos_start,
        batch_size: batch,
        n_layers: LAYERS,
        cos_len: batch * 32,
        sin_len: batch * 32,
        config: m.config,
        final_norm_w: None,
        final_norm_eps: 1e-5f32.to_bits(),
        lm_head_w: None,
        lm_head_out_features: VOCAB,
    }
}

fn angles(pos: usize) -> Vec<f32> {
    (0..32).map(|i| pos as f32 / (1.0 + i as f32)).collect()
}

fn prefill(host: &mut Host, m: &Model, batch: usize, pos_start: usize, want: Want) -> Outcome {
    let hidden: Vec<f32> = (pos_start..pos_start + batch).flat_map(|p| vae_fill(128, p as u32 + 50)).collect();
    let table: Vec<f32> = (pos_start..pos_start + batch).flat_map(angles).collect();
    let cos: Vec<f32> = table.iter().map(|a| a.cos()).collect();
    let sin: Vec<f32> = table.iter().map(|a| a.sin()).collect();
    let args = prefill_args(m, batch, pos_start);
    let plan = prefill_plan(host, m, &args, want, Ok(())).unwrap();
    let operands = [
        (Buf::Prefill(PrefillBuf::Hidden), &hidden[..]),
        (Buf::Prefill(PrefillBuf::Cos), &cos[..]),
        (Buf::Prefill(PrefillBuf::Sin), &sin[..]),
    ];
    host.run(&plan, &operands, None)
}

fn batch_equals_tokens(ternary: bool) {
    let m = model(ternary);
    let mut one_by_one = Host::new();
    let mut logits = Vec::new();
    for t in 0..4 {
        let out = prefill(&mut one_by_one, &m, 1, t, Want::Logits);
        logits.push(downloaded(&out, Buf::Logits));
    }
    let greedy: Vec<u32> = logits
        .iter()
        .map(|l| (0..VOCAB).fold(0, |b, i| if l[i] > l[b] { i } else { b }) as u32)
        .collect();
    assert!(logits[0] != logits[3]);

    let mut batched = Host::new();
    let last = prefill(&mut batched, &m, 4, 0, Want::Logits);
    assert_eq!(downloaded(&last, Buf::Logits), logits[3]);
    let again = prefill(&mut batched, &m, 4, 0, Want::Token);
    assert_eq!(again.tokens, vec![greedy[3]]);
    // Only the token id buffer is new.
    assert_eq!(again.fresh, 1);
    let every = prefill(&mut batched, &m, 4, 0, Want::Every);
    assert_eq!(every.tokens, greedy);
    // Logits and token ids of four columns replace those of one.
    assert_eq!(every.fresh, 2);
    assert_eq!(prefill(&mut batched, &m, 4, 0, Want::Token).fresh, 0);

    // A batch that continues an earlier one sees its keys and values.
    let mut split = Host::new();
    prefill(&mut split, &m, 2, 0, Want::Logits);
    let rest = prefill(&mut split, &m, 2, 2, Want::Logits);
    assert_eq!(downloaded(&rest, Buf::Logits), logits[3]);
}

#[test]
fn one_bit_prefill_of_a_batch_equals_its_tokens_in_turn() {
    batch_equals_tokens(false);
}

#[test]
fn ternary_prefill_of_a_batch_equals_its_tokens_in_turn() {
    batch_equals_tokens(true);
}

#[test]
fn prefill_reports_what_is_missing() {
    let m = model(false);
    let mut host = Host::new();
    let fails = |host: &mut Host, args: &PrefillArgs| {
        prefill_plan(host, &m, args, Want::Logits, Ok(())).unwrap_err().message()
    };
    let args = prefill_args(&m, 2, 0);
    assert_eq!(
        fails(&mut host, &PrefillArgs { hidden_len: 255, ..args }),
        "Metal encoding failed: hidden_batch too short: need 256, got 255"
    );
    assert_eq!(
        fails(&mut host, &PrefillArgs { cos_len: 63, ..args }),
        "Metal encoding failed: cos_table too short: need 64, got 63"
    );
    assert_eq!(
        fails(&mut host, &PrefillArgs { sin_len: 0, ..args }),
        "Metal encoding failed: sin_table too short: need 64, got 0"
    );
    assert!(fails(&mut host, &PrefillArgs { n_layers: 3, ..args }).starts_with("Metal encoding failed: "));
    let lost = prefill_plan(&mut host, &m, &args, Want::Token, Err(MetalGraphError::DeviceNotFound));
    assert!(matches!(lost, Err(MetalGraphError::DeviceNotFound)));
}

#[test]
fn weights_are_uploaded_once_per_key() {
    let mut graph = MetalGraph::new();
    let a = graph.get_or_upload_weight(5, &[1, 2, 3, 4]).unwrap();
    let b = graph.get_or_upload_weight(5, &[9; 100]).unwrap();
    assert_eq!(a, b);
    let mut calls = 0;
    let c = graph
        .get_or_upload_weight_lazy(5, || {
            calls += 1;
            vec![0; 8]
        })
        .unwrap();
    assert_eq!((a, 0), (c, calls));
    let d = graph.get_or_upload_q1_weight_soa_lazy(6, || one_bit_bytes(2, 1)).unwrap();
    assert_eq!(d.byte_len(), 36);
    assert_ne!(a.buffer, d.buffer);
    assert_eq!(graph.take_uploads().len(), 2);
    assert!(graph.get_or_upload_q1_weight_soa(7, &[0; 17]).is_err());
    assert!(graph.get_or_upload_tq2_weight_soa(8, &[0; 33]).is_err());
    assert!(graph.take_uploads().is_empty());
}

#[test]
fn regrouping_puts_scales_first() {
    let q1: Vec<u8> = (0..36).collect();
    let soa = reformat_q1_aos_to_soa(&q1).unwrap();
    assert_eq!(&soa[..4], &[0, 1, 18, 19]);
    assert_eq!(&soa[4..6], &[2, 3]);
    assert_eq!(&soa[20..22], &[20, 21]);
    let tq2: Vec<u8> = (0..68).collect();
    let soa = reformat_tq2_aos_to_soa(&tq2).unwrap();
    assert_eq!(&soa[..4], &[32, 33, 66, 67]);
    assert_eq!(&soa[4..6], &[0, 1]);
    assert_eq!(&soa[36..38], &[34, 35]);
    assert!(reformat_q1_aos_to_soa(&[]).is_none());
    assert!(reformat_q1_aos_to_soa(&[0; 19]).is_none());
    assert!(reformat_tq2_aos_to_soa(&[0; 35]).is_none());
}

#[test]
fn scattered_tiles_are_the_transpose() {
    let rows: Vec<u32> = (0..15).collect();
    let whole = transpose(&rows, 5, 3);
    assert_eq!(&whole[..5], &[0, 3, 6, 9, 12]);
    assert_eq!(transpose(&whole, 3, 5), rows);
    let mut plane = vec![0; 15];
    scatter_tile(&mut plane, &rows[..6], 0, 2, 3, 5);
    scatter_tile(&mut plane, &rows[6..], 2, 3, 3, 5);
    assert_eq!(plane, whole);
}

/// A source for every pipeline that holds the kernel's name.
fn msl_sources() -> MslSources {
    let text = |name: &str| format!("kernel {name};");
    MslSources {
        gemv_q1_g128_v7: text("gemv_q1_g128_v7"),
        gemv_q1_g128_v7_residual: text("gemv_q1_g128_v7_residual"),
        rmsnorm_weighted_v2: text("rmsnorm_weighted_v2"),
        residual_add: text("residual_add"),
        fused_qk_norm: text("fused_qk_norm"),
        fused_qk_rope: text("fused_qk_rope"),
        fused_qk_norm_rope: text("fused_qk_norm_rope"),
        fused_kv_store: text("fused_kv_store"),
        fused_gate_up_swiglu_q1: text("fused_gate_up_swiglu_q1"),
        batched_attention_scores_v2: text("batched_attention_scores_v2"),
        batched_softmax: text("batched_softmax"),
        batched_attention_weighted_sum: text("batched_attention_weighted_sum"),
        argmax: text("argmax"),
        batched_rmsnorm_v2: text("batched_rmsnorm_v2"),
        batched_swiglu: text("batched_swiglu"),
        gemm_q1_g128_v7: text("gemm_q1_g128_v7"),
        gemm_q1_g128_v7_residual: text("gemm_q1_g128_v7_residual"),
        fused_gate_up_swiglu_gemm_q1: text("fused_gate_up_swiglu_gemm_q1"),
        gemv_tq2_g128_v1: text("gemv_tq2_g128_v1"),
        gemm_tq2_g128_v7: text("gemm_tq2_g128_v7"),
        gemm_tq2_g128_v8_tiled: text("gemm_tq2_g128_v8_tiled"),
        gemm_tq2_g128_v9_simdgroup: text("gemm_tq2_g128_v9_simdgroup"),
        gemm_tq2_g128_v10_simdgroup: text("gemm_tq2_g128_v10_simdgroup"),
        gemm_f32_simdgroup: text("gemm_f32_simdgroup"),
        im2col_f32: text("im2col_f32"),
        groupnorm_f32: text("groupnorm_f32"),
        silu_f32: text("silu_f32"),
        upsample_nearest_f32: text("upsample_nearest_f32"),
        conv2d_f32_implicit: text("conv2d_f32_implicit"),
        joint_attention_flash_f32: text("joint_attention_flash_f32"),
    }
}

#[test]
fn pipelines_and_their_failures() {
    let all = all_pipelines();
    assert_eq!(all[0].entry_point(), "gemv_q1_g128_v7");
    for (i, p) in all.iter().enumerate() {
        assert!(all[i + 1..].iter().all(|q| q.entry_point() != p.entry_point()));
        assert!(pipeline_for(*p, PipelineBuild::Built).is_ok());
    }
    let missing =
        pipeline_for(Pipeline::Argmax, PipelineBuild::NoFunction("gone".to_string())).unwrap_err();
    assert_eq!(missing.message(), "Metal encoding failed: function 'argmax': gone");
    assert!(matches!(
        pipeline_for(Pipeline::Argmax, PipelineBuild::NoState("bad".to_string())),
        Err(MetalGraphError::CompilationFailed(_))
    ));
    let mut progress = MetalPipelines::new();
    assert!(progress.compile(PipelineBuild::NoState("bad".to_string())).is_err());
    while let Some(p) = progress.wanted() {
        assert_eq!(p, all[progress.built.len()]);
        progress.compile(PipelineBuild::Built).unwrap();
    }
    assert_eq!(progress.built, all);
    let expected: String = all.iter().map(|p| format!("kernel {};\n", p.entry_point())).collect();
    assert_eq!(build_combined_msl(&msl_sources()), expected);
    assert_eq!(
        library_sources(true, true),
        vec![
            LibrarySource::Embedded,
            LibrarySource::Cached,
            LibrarySource::Offline,
            LibrarySource::Runtime
        ]
    );
    assert_eq!(library_sources(false, false), vec![LibrarySource::Runtime]);
    assert_eq!(cache_filename(0xab), "kernels_00000000000000ab.metallib");
}

//! Tiled products, with each tile computed by a kernel.

use half::f16;
use pictor_kernels::arith::Arith;
use pictor_kernels::blocks::{BlockQ1_0G128, BlockTQ2_0_g128};
use pictor_kernels::parallel_tiled::{
    gemm_adaptive_ternary, gemm_parallel_tiled, gemv_adaptive, gemv_adaptive_ternary,
    gemv_parallel_tiled, select_gemv_strategy, AdaptiveStrategy, ParallelConfig, Route, Tile,
    TiledRun, PAR_TILED_MIN_BATCH, PAR_TILED_MIN_ROWS,
};
use pictor_kernels::simd_avx2::{gemm_1bit_g128_avx2, gemv_1bit_g128_avx2, gemv_tq2_0_g128_avx2};
use pictor_kernels::KernelError;

/// Arithmetic of the machine's single-precision numbers.
struct Native;

fn f(bits: u32) -> f32 {
    f32::from_bits(bits)
}

impl Arith for Native {
    fn sum(&self, a: u32, b: u32) -> u32 {
        (f(a) + f(b)).to_bits()
    }

    fn difference(&self, a: u32, b: u32) -> u32 {
        (f(a) - f(b)).to_bits()
    }

    fn product(&self, a: u32, b: u32) -> u32 {
        (f(a) * f(b)).to_bits()
    }

    fn quotient(&self, a: u32, b: u32) -> u32 {
        (f(a) / f(b)).to_bits()
    }

    fn fused(&self, a: u32, b: u32, c: u32) -> u32 {
        f(a).mul_add(f(b), f(c)).to_bits()
    }

    fn larger(&self, a: u32, b: u32) -> u32 {
        f(a).max(f(b)).to_bits()
    }

    fn vector_larger(&self, a: u32, b: u32) -> u32 {
        if f(a).is_nan() || f(b).is_nan() {
            f32::NAN.to_bits()
        } else {
            f(a).max(f(b)).to_bits()
        }
    }

    fn exponential(&self, a: u32) -> u32 {
        f(a).exp().to_bits()
    }

    fn square_root(&self, a: u32) -> u32 {
        f(a).sqrt().to_bits()
    }

    fn reciprocal_estimate(&self, a: u32) -> u32 {
        (1.0 / f(a)).to_bits() & 0xffff_8000
    }

    fn reciprocal_step(&self, a: u32, b: u32) -> u32 {
        let product = f(a) * f(b);
        if product.is_nan() && !f(a).is_nan() && !f(b).is_nan() {
            2.0f32.to_bits()
        } else {
            (2.0 - product).to_bits()
        }
    }

    fn greater(&self, a: u32, b: u32) -> bool {
        f(a) > f(b)
    }

    fn of_count(&self, n: usize) -> u32 {
        (n as f32).to_bits()
    }
}

fn bits(v: &[f32]) -> Vec<u32> {
    v.iter().map(|x| x.to_bits()).collect()
}

fn floats(v: &[u32]) -> Vec<f32> {
    v.iter().map(|x| f32::from_bits(*x)).collect()
}

fn make_block(scale: f32, bits: [u8; 16]) -> BlockQ1_0G128 {
    BlockQ1_0G128 { d: f16::from_f32(scale).to_bits(), qs: bits }
}

fn make_test_data(n_rows: usize, k: usize) -> (Vec<BlockQ1_0G128>, Vec<f32>) {
    let blocks_per_row = k / 128;
    let mut blocks = Vec::with_capacity(n_rows * blocks_per_row);
    for row in 0..n_rows {
        for bi in 0..blocks_per_row {
            let qs = [((row * 37 + bi * 13) & 0xFF) as u8; 16];
            blocks.push(make_block(0.5 + (row as f32) * 0.01, qs));
        }
    }
    let input: Vec<f32> = (0..k).map(|i| (i as f32 * 0.01) - 1.28).collect();
    (blocks, input)
}

fn run_tile(blocks: &[BlockQ1_0G128], input: &[u32], output: &mut [u32], tile: &Tile, k: usize) {
    gemv_1bit_g128_avx2(
        &Native,
        &blocks[tile.block_start..tile.block_end],
        &input[tile.input_start..tile.input_start + k],
        &mut output[tile.out_start..tile.out_start + tile.rows],
        tile.rows,
        k,
    )
    .expect("tile");
}

fn run(
    run: &TiledRun,
    blocks: &[BlockQ1_0G128],
    input: &[u32],
    output: &mut [u32],
    m: usize,
    n_rows: usize,
    k: usize,
) {
    match run {
        TiledRun::Sequential => {
            gemm_1bit_g128_avx2(&Native, blocks, input, output, m, n_rows, k).expect("direct");
        }
        TiledRun::Parallel(groups) => {
            for tile in groups.iter().rev().flatten() {
                run_tile(blocks, input, output, tile, k);
            }
        }
    }
}

#[test]
fn parallel_tiled_gemv_matches_sequential() {
    let n_rows = 256;
    let k = 256;
    let (blocks, input) = make_test_data(n_rows, k);
    let x = bits(&input);
    let mut out_seq = vec![0u32; n_rows];
    let mut out_par = vec![0u32; n_rows];
    gemv_1bit_g128_avx2(&Native, &blocks, &x, &mut out_seq, n_rows, k).expect("direct gemv");
    let plan = gemv_parallel_tiled(blocks.len(), k, n_rows, n_rows, k, 24, 64, true).expect("plan");
    run(&plan, &blocks, &x, &mut out_par, 1, n_rows, k);
    let (seq, par) = (floats(&out_seq), floats(&out_par));
    for i in 0..n_rows {
        assert!((seq[i] - par[i]).abs() < 1e-4, "row {i}: seq={}, par_tiled={}", seq[i], par[i]);
    }
    assert_eq!(out_seq, out_par);
}

#[test]
fn tiles_make_the_product_with_any_row_kernel() {
    let (n_rows, k) = (200, 256);
    let (blocks, input) = make_test_data(n_rows, k);
    let row_kernel = |row: &[BlockQ1_0G128], x: &[f32]| -> f32 {
        row.iter().enumerate().fold(0.0, |acc, (b, block)| {
            let scale = f16::from_bits(block.d).to_f32();
            acc + (0..128)
                .map(|j| {
                    let up = block.qs[j / 8] >> (j % 8) & 1 == 1;
                    if up { scale * x[b * 128 + j] } else { -scale * x[b * 128 + j] }
                })
                .sum::<f32>()
        })
    };
    let per_row = k / 128;
    let direct: Vec<f32> =
        (0..n_rows).map(|r| row_kernel(&blocks[r * per_row..(r + 1) * per_row], &input)).collect();
    let plan = gemv_parallel_tiled(blocks.len(), k, n_rows, n_rows, k, 7, 30, true).expect("plan");
    let TiledRun::Parallel(groups) = plan else { panic!("enough rows for tiles") };
    let mut tiled = vec![0.0; n_rows];
    for tile in groups.iter().rev().flatten() {
        for r in 0..tile.rows {
            let start = tile.block_start + r * per_row;
            tiled[tile.out_start + r] =
                row_kernel(&blocks[start..start + per_row], &input[tile.input_start..]);
        }
    }
    assert_eq!(tiled, direct);
}

#[test]
fn parallel_tiled_gemv_small_fallback() {
    let n_rows = 16;
    let k = 128;
    let (blocks, input) = make_test_data(n_rows, k);
    let x = bits(&input);
    let mut out_seq = vec![0u32; n_rows];
    let mut out_par = vec![0u32; n_rows];
    gemv_1bit_g128_avx2(&Native, &blocks, &x, &mut out_seq, n_rows, k).expect("direct gemv");
    let plan = gemv_parallel_tiled(blocks.len(), k, n_rows, n_rows, k, 24, 64, true).expect("plan");
    assert!(matches!(plan, TiledRun::Sequential));
    run(&plan, &blocks, &x, &mut out_par, 1, n_rows, k);
    let (seq, par) = (floats(&out_seq), floats(&out_par));
    for i in 0..n_rows {
        assert!((seq[i] - par[i]).abs() < f32::EPSILON, "row {i}: seq={}, par={}", seq[i], par[i]);
    }
}

#[test]
fn parallel_tiled_gemm_matches_sequential() {
    let m = 8;
    let n_rows = 32;
    let k = 128;
    let blocks_per_row = k / 128;
    let mut blocks = Vec::new();
    for ni in 0..n_rows {
        for bi in 0..blocks_per_row {
            let qs = [((ni * 17 + bi * 7) & 0xFF) as u8; 16];
            blocks.push(make_block(1.0 + ni as f32 * 0.2, qs));
        }
    }
    let input: Vec<f32> = (0..m * k).map(|i| (i as f32 * 0.005) - 0.32).collect();
    let x = bits(&input);
    let mut out_seq = vec![0u32; m * n_rows];
    let mut out_par = vec![0u32; m * n_rows];
    gemm_1bit_g128_avx2(&Native, &blocks, &x, &mut out_seq, m, n_rows, k).expect("direct gemm");
    let plan = gemm_parallel_tiled(blocks.len(), x.len(), out_par.len(), m, n_rows, k, 5, true)
        .expect("plan");
    run(&plan, &blocks, &x, &mut out_par, m, n_rows, k);
    let (seq, par) = (floats(&out_seq), floats(&out_par));
    for i in 0..(m * n_rows) {
        assert!((seq[i] - par[i]).abs() < 1e-3, "idx {i}: seq={}, par_tiled={}", seq[i], par[i]);
    }
    assert_eq!(out_seq, out_par);
}

#[test]
fn adaptive_selects_direct_for_small() {
    let strategy = select_gemv_strategy(16, 128);
    assert_eq!(strategy, AdaptiveStrategy::Direct);
}

#[test]
fn adaptive_selects_parallel_row_for_medium() {
    let strategy = select_gemv_strategy(128, 256);
    assert_eq!(strategy, AdaptiveStrategy::ParallelRow);
}

#[test]
fn adaptive_selects_parallel_tiled_for_large() {
    let strategy = select_gemv_strategy(512, 4096);
    assert_eq!(strategy, AdaptiveStrategy::ParallelTiled);
}

#[test]
fn adaptive_turns_at_its_thresholds() {
    assert_eq!(select_gemv_strategy(32, 128), AdaptiveStrategy::Direct);
    assert_eq!(select_gemv_strategy(33, 128), AdaptiveStrategy::ParallelRow);
    assert_eq!(select_gemv_strategy(256, 128), AdaptiveStrategy::ParallelRow);
    assert_eq!(select_gemv_strategy(257, 128), AdaptiveStrategy::ParallelTiled);
}

#[test]
fn adaptive_gemv_matches_direct() {
    let k = 256;
    for n_rows in [16usize, 64, 300] {
        let (blocks, input) = make_test_data(n_rows, k);
        let x = bits(&input);
        let mut out_direct = vec![0u32; n_rows];
        let mut out_adaptive = vec![0u32; n_rows];
        gemv_1bit_g128_avx2(&Native, &blocks, &x, &mut out_direct, n_rows, k).expect("direct gemv");
        match gemv_adaptive(blocks.len(), k, n_rows, n_rows, k, 7, 100, true).expect("route") {
            Route::Tiled(plan) => run(&plan, &blocks, &x, &mut out_adaptive, 1, n_rows, k),
            Route::Direct | Route::Parallel => {
                gemv_1bit_g128_avx2(&Native, &blocks, &x, &mut out_adaptive, n_rows, k).expect("gemv");
            }
        }
        let (direct, adaptive) = (floats(&out_direct), floats(&out_adaptive));
        for i in 0..n_rows {
            assert!(
                (direct[i] - adaptive[i]).abs() < 1e-4,
                "row {i}: direct={}, adaptive={}",
                direct[i],
                adaptive[i]
            );
        }
    }
}

fn ternary(n_rows: usize) -> (Vec<BlockTQ2_0_g128>, Vec<u32>) {
    let blocks = vec![BlockTQ2_0_g128 { qs: [0xAAu8; 32], d: f16::ONE.to_bits() }; n_rows];
    let input: Vec<f32> = (0..128).map(|i| (i as f32 * 0.01) - 1.28).collect();
    (blocks, bits(&input))
}

#[test]
fn adaptive_ternary_gemv_small_is_direct() -> Result<(), KernelError> {
    let n_rows = 16;
    assert!(matches!(gemv_adaptive_ternary(n_rows, 128), Route::Direct));
    let (blocks, input) = ternary(n_rows);
    let mut output = vec![0u32; n_rows];
    gemv_tq2_0_g128_avx2(&Native, &blocks, &input, &mut output, n_rows, 128)
}

#[test]
fn adaptive_ternary_gemv_large_is_parallel() -> Result<(), KernelError> {
    let n_rows = 512;
    assert!(matches!(gemv_adaptive_ternary(n_rows, 128), Route::Parallel));
    let (blocks, input) = ternary(n_rows);
    let mut output = vec![0u32; n_rows];
    gemv_tq2_0_g128_avx2(&Native, &blocks, &input, &mut output, n_rows, 128)
}

#[test]
fn adaptive_ternary_gemm_turns_at_four_vectors() {
    assert!(matches!(gemm_adaptive_ternary(3, 8, 128), Route::Direct));
    assert!(matches!(gemm_adaptive_ternary(4, 8, 128), Route::Parallel));
}

#[test]
fn parallel_config_default() {
    let config = ParallelConfig::default();
    assert!(config.num_threads >= 1);
    assert_eq!(config.num_threads, rayon::current_num_threads());
    assert_eq!(config.gemv_threshold, PAR_TILED_MIN_ROWS);
    assert_eq!(config.gemm_threshold, PAR_TILED_MIN_BATCH);
    assert!(config.use_tiling);
}

#[test]
fn parallel_config_single_threaded() {
    let config = ParallelConfig::single_threaded();
    assert_eq!(config.num_threads, 1);
    assert!(!config.use_tiling);
    assert!(!config.should_parallelize_gemv(1_000_000));
    assert!(!config.should_parallelize_gemm(1_000_000));
}

#[test]
fn parallel_config_threshold_checks() {
    let config = ParallelConfig::default();
    if config.num_threads > 1 {
        assert!(!config.should_parallelize_gemv(64));
        assert!(config.should_parallelize_gemv(256));
        assert!(!config.should_parallelize_gemm(2));
        assert!(config.should_parallelize_gemm(8));
    }
    let config = ParallelConfig::with_threads(8);
    assert!(!config.should_parallelize_gemv(127));
    assert!(config.should_parallelize_gemv(128));
    assert!(!config.should_parallelize_gemm(3));
    assert!(config.should_parallelize_gemm(4));
}

#[test]
fn validation_errors_propagate() {
    let result = gemv_parallel_tiled(1, 128, 1, 1, 100, 8, 64, true);
    assert!(result.is_err());
    assert_eq!(result.err(), Some(KernelError::NotBlockAligned { count: 100, block_size: 128 }));
    let result = gemm_parallel_tiled(1, 128, 1, 1, 1, 100, 8, true);
    assert!(result.is_err());
    assert_eq!(result.err(), Some(KernelError::NotBlockAligned { count: 100, block_size: 128 }));
}

#[test]
fn every_row_is_in_one_tile() {
    let (n_rows, k) = (200usize, 128usize);
    let plan = gemv_parallel_tiled(n_rows, k, n_rows, n_rows, k, 9, 50, true).expect("plan");
    let mut seen = vec![0; n_rows];
    if let TiledRun::Parallel(groups) = plan {
        assert_eq!(groups.len(), 4);
        for tile in groups.iter().flatten() {
            assert_eq!(tile.block_end - tile.block_start, tile.rows);
            for r in tile.out_start..tile.out_start + tile.rows {
                seen[r] += 1;
            }
        }
    }
    assert!(seen.iter().all(|&n| n == 1));
}

#[test]
fn without_threads_nothing_is_spread() {
    let plan = gemv_parallel_tiled(512, 128, 512, 512, 128, 9, 50, false).expect("plan");
    assert!(matches!(plan, TiledRun::Sequential));
    let plan = gemm_parallel_tiled(8, 128 * 8, 64, 8, 8, 128, 9, false).expect("plan");
    assert!(matches!(plan, TiledRun::Sequential));
}

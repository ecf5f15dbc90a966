//! Backends: buffers, launch geometry, the processor, GPU contexts and choice.

use half::f16;
use pictor_kernels::arith::Arith;
use pictor_kernels::blocks::BlockTQ2_0_g128;
use pictor_kernels::gpu_backend::backend::{
    gemm_q1_g128, gpu_matmul, GpuBackendTrait, GpuWeightHandle, ScalarBackend,
};
use pictor_kernels::gpu_backend::cpu::{cpu_gemv_1bit_fallback, CpuBackend};
use pictor_kernels::gpu_backend::error::GpuError;
use pictor_kernels::gpu_backend::launch::{DeviceBuffer, LaunchConfig};
use pictor_kernels::gpu_backend::metal_graph::reformat::reformat_tq2_aos_to_soa;
use pictor_kernels::gpu_backend::scirs2_backend::backend::{
    HandleIds, KernelSources, PhaseSizes, Scirs2Backend, SourceSet,
};
use pictor_kernels::gpu_backend::scirs2_backend::context::{
    choose_device, convert_error, memory_figures, BuildFeatures, ContextFault, DeviceKind,
};
use pictor_kernels::gpu_backend::scirs2_backend::operations::Work;
use pictor_kernels::gpu_backend::scirs2_backend::phases::{batched, split_qkv, FfnWeights};
use pictor_kernels::gpu_backend::scirs2_backend::steps::{
    workgroups_1d, workgroups_simd, DeviceStep, HostArg, Kernel, PhaseBuf, Slot,
};
use pictor_kernels::gpu_backend::select::{
    choose_backend, gpu_gemv_1bit, select_backend, Choice, GemvWork, Probe, Selected,
};
use pictor_kernels::gpu_backend::stubs::{CudaBackend, MetalBackend};

/// Arithmetic of the machine's single-precision numbers.
struct Native;

fn f(bits: u32) -> f32 {
    f32::from_bits(bits)
}

impl Arith for Native {
    fn sum(&self, a: u32, b: u32) -> u32 {
        (f(a) + f(b)).to_bits()
    }

    fn difference(&self, a: u32, b: u32) -> u32 {
        (f(a) - f(b)).to_bits()
    }

    fn product(&self, a: u32, b: u32) -> u32 {
        (f(a) * f(b)).to_bits()
    }

    fn quotient(&self, a: u32, b: u32) -> u32 {
        (f(a) / f(b)).to_bits()
    }

    fn fused(&self, a: u32, b: u32, c: u32) -> u32 {
        f(a).mul_add(f(b), f(c)).to_bits()
    }

    fn larger(&self, a: u32, b: u32) -> u32 {
        f(a).max(f(b)).to_bits()
    }

    fn vector_larger(&self, a: u32, b: u32) -> u32 {
        if f(a).is_nan() || f(b).is_nan() {
            f32::NAN.to_bits()
        } else {
            f(a).max(f(b)).to_bits()
        }
    }

    fn exponential(&self, a: u32) -> u32 {
        f(a).exp().to_bits()
    }

    fn square_root(&self, a: u32) -> u32 {
        f(a).sqrt().to_bits()
    }

    fn reciprocal_estimate(&self, a: u32) -> u32 {
        (1.0 / f(a)).to_bits() & 0xffff_8000
    }

    fn reciprocal_step(&self, a: u32, b: u32) -> u32 {
        let product = f(a) * f(b);
        if product.is_nan() && !f(a).is_nan() && !f(b).is_nan() {
            2.0f32.to_bits()
        } else {
            (2.0 - product).to_bits()
        }
    }

    fn greater(&self, a: u32, b: u32) -> bool {
        f(a) > f(b)
    }

    fn of_count(&self, n: usize) -> u32 {
        (n as f32).to_bits()
    }
}

fn bits(v: &[f32]) -> Vec<u32> {
    v.iter().map(|x| x.to_bits()).collect()
}

fn floats(v: &[u32]) -> Vec<f32> {
    v.iter().map(|x| f32::from_bits(*x)).collect()
}

#[test]
fn device_buffer_new_zeroed() {
    let buf = DeviceBuffer::new(4, 0);
    assert_eq!(buf.size(), 4);
    assert_eq!(buf.device_id(), 0);
    assert!(floats(&buf.data).iter().all(|&v| v == 0.0));
}

#[test]
fn device_buffer_from_slice_roundtrip() {
    let src = [1.0_f32, 2.0, 3.0];
    let buf = DeviceBuffer::from_slice(&bits(&src), 1);
    assert_eq!(floats(&buf.to_vec()), src);
    assert_eq!(buf.device_id(), 1);
}

#[test]
fn launch_config_for_zero_elements() {
    let cfg = LaunchConfig::for_n_elements(0);
    assert_eq!(cfg.grid_dim.0, 1);
}

#[test]
fn launch_config_rounds_up() {
    let cfg = LaunchConfig::for_n_elements(1000);
    assert_eq!(cfg.grid_dim, (4, 1, 1));
    assert_eq!(cfg.block_dim, (256, 1, 1));
    assert_eq!(cfg.shared_mem_bytes, 0);
    assert_eq!(LaunchConfig::for_n_elements(256).grid_dim.0, 1);
    assert_eq!(LaunchConfig::for_n_elements(257).grid_dim.0, 2);
    assert_eq!(LaunchConfig::default_1d(), LaunchConfig::for_n_elements(1));
}

#[test]
fn cpu_softmax_empty() {
    let backend = CpuBackend::new();
    let buf = DeviceBuffer::new(0, 0);
    let out = backend.softmax(&Native, &buf, 0, 0).expect("softmax empty");
    assert_eq!(out.size(), 0);
}

#[test]
fn cpu_gemv_1bit_identity_scale() {
    let scale_bytes = f16::from_f32(1.0).to_bits().to_le_bytes();
    let mut block = vec![0u8; 18];
    block[0] = scale_bytes[0];
    block[1] = scale_bytes[1];
    block[2..18].fill(0xFF);
    let input: Vec<f32> = (0..128).map(|i| i as f32).collect();
    let expected: f32 = input.iter().sum();
    let result = cpu_gemv_1bit_fallback(&Native, &block, &bits(&input), 1, 128)
        .expect("cpu_gemv_1bit_fallback");
    let got = floats(&result)[0];
    assert!((got - expected).abs() < 1e-2, "got {got} expected {expected}");
}

#[test]
fn cpu_gemv_1bit_negative_scale() {
    let scale_bytes = f16::from_f32(1.0).to_bits().to_le_bytes();
    let mut block = vec![0u8; 18];
    block[0] = scale_bytes[0];
    block[1] = scale_bytes[1];
    let input = vec![1.0_f32; 128];
    let result = cpu_gemv_1bit_fallback(&Native, &block, &bits(&input), 1, 128)
        .expect("cpu_gemv_1bit_fallback");
    let got = floats(&result)[0];
    assert!((got - (-128.0)).abs() < 1e-2, "got {got} expected -128");
}

#[test]
fn cpu_gemv_1bit_bad_k() {
    let result = cpu_gemv_1bit_fallback(&Native, &[], &[], 0, 64);
    assert!(result.is_err());
    assert_eq!(
        result.err().map(|e| e.message()),
        Some("invalid argument: k=64 must be a positive multiple of 128".to_string()),
    );
    let result = cpu_gemv_1bit_fallback(&Native, &[], &[0; 5], 1, 128);
    assert_eq!(
        result.err().map(|e| e.message()),
        Some("invalid argument: input.len()=5 != k=128".to_string()),
    );
    let result = cpu_gemv_1bit_fallback(&Native, &[0; 17], &[0; 128], 1, 128);
    assert_eq!(
        result.err().map(|e| e.message()),
        Some("invalid argument: block_bytes too small: 17 < 18".to_string()),
    );
}

fn ones_block() -> Vec<u8> {
    let scale_bytes = f16::from_f32(1.0).to_bits().to_le_bytes();
    let mut block = vec![0u8; 18];
    block[0] = scale_bytes[0];
    block[1] = scale_bytes[1];
    block[2..18].fill(0xFF);
    block
}

#[test]
fn gpu_gemv_1bit_without_gpu() {
    let block = ones_block();
    let input: Vec<f32> = vec![1.0_f32; 128];
    let mut kept = None;
    for build in [no_devices(), BuildFeatures { gpu: false, metal: false, cuda: false }] {
        let result =
            gpu_gemv_1bit(&Native, &mut kept, build, sources(), &block, &bits(&input), 1, 128)
                .expect("gpu_gemv_1bit");
        match result {
            GemvWork::Host(v) => {
                let got = floats(&v)[0];
                assert!((got - 128.0).abs() < 1e-2, "got {got}");
            }
            GemvWork::Device(_) => panic!("no device is accelerated"),
        }
        assert!(kept.is_some(), "the backend is opened once and kept");
    }
}

#[test]
fn gpu_gemv_1bit_checks_its_operands() {
    let mut kept = None;
    let build = BuildFeatures { gpu: false, metal: false, cuda: false };
    let input = bits(&[1.0; 128]);
    let short = gpu_gemv_1bit(&Native, &mut kept, build, sources(), &[0; 17], &input, 1, 128);
    assert!(short.is_err());
    let ragged = gpu_gemv_1bit(&Native, &mut kept, build, sources(), &[], &input, 1, 127);
    assert!(ragged.is_err());
    assert!(kept.is_none());
}

#[test]
fn the_kept_backend_is_opened_once() {
    let mut kept = None;
    Scirs2Backend::global(&mut kept, no_devices(), sources()).expect("open");
    assert_eq!(kept.as_ref().map(|b| b.name()), Some("scirs2-cpu"));
    let mut kept = Some(with_metal_kernels());
    let mut ids = HandleIds::new();
    kept.as_mut().expect("kept").upload_weights(&mut ids, &[1, 2]).expect("upload");
    Scirs2Backend::global(&mut kept, no_devices(), sources()).expect("keep");
    assert_eq!(kept.as_ref().map(|b| b.name()), Some("scirs2-metal"));
    assert_eq!(kept.as_ref().map(|b| b.cached_weight_count()), Some(1));
}

fn no_devices() -> BuildFeatures {
    BuildFeatures { gpu: true, metal: false, cuda: false }
}

fn source_set() -> SourceSet {
    SourceSet {
        matvec: "matvec".to_string(),
        relu: "relu".to_string(),
        softmax: "softmax".to_string(),
        rmsnorm: "rmsnorm".to_string(),
        silu: "silu".to_string(),
        gemv_q1: "gemv_q1".to_string(),
        gemm_q1: "gemm_q1".to_string(),
        gemv_tq2: "gemv_tq2".to_string(),
        swiglu: "swiglu".to_string(),
        residual_add: "residual_add".to_string(),
        rmsnorm_weighted: "rmsnorm_weighted".to_string(),
    }
}

fn sources() -> KernelSources {
    KernelSources { msl: source_set(), cuda: source_set() }
}

fn make_backend(build: BuildFeatures) -> Option<Scirs2Backend> {
    match Scirs2Backend::new(build, sources()) {
        Ok(b) => Some(b),
        Err(e) => {
            println!("Scirs2Backend not available: {}", e.message());
            None
        }
    }
}

/// A processor's context that answers as a build with CUDA kernels does.
fn with_kernels() -> Scirs2Backend {
    let build = BuildFeatures { gpu: true, metal: false, cuda: true };
    match Scirs2Backend::with_backend(DeviceKind::Cpu, build, sources()) {
        Ok(b) => b,
        Err(e) => panic!("{}", e.message()),
    }
}

/// A processor's context that answers as a build with Metal kernels does.
fn with_metal_kernels() -> Scirs2Backend {
    let build = BuildFeatures { gpu: true, metal: true, cuda: false };
    match Scirs2Backend::with_backend(DeviceKind::Cpu, build, sources()) {
        Ok(b) => b,
        Err(e) => panic!("{}", e.message()),
    }
}

#[test]
fn scirs2_backend_creation() {
    let backend = make_backend(no_devices());
    assert!(backend.is_some());
}

#[test]
fn scirs2_backend_name_is_not_empty() {
    if let Some(b) = make_backend(no_devices()) {
        assert!(!b.name().is_empty());
        assert_eq!(b.name(), "scirs2-cpu");
        assert_eq!(b.backend_name(), "CPU");
        assert!(!b.is_accelerated());
        assert_eq!(b.device_count(), 1);
    }
    assert_eq!(with_kernels().name(), "scirs2-cuda");
    assert_eq!(with_metal_kernels().name(), "scirs2-metal");
    assert!(!with_metal_kernels().is_accelerated());
}

#[test]
fn scirs2_backend_alloc() {
    let b = make_backend(no_devices()).expect("backend");
    let buf = b.allocate(64, 0).expect("alloc");
    assert_eq!(buf.size(), 64);
    assert_eq!(buf.to_vec(), vec![0; 64]);
}

#[test]
fn scirs2_backend_host_roundtrip() {
    let b = make_backend(no_devices()).expect("backend");
    let src = vec![1.0_f32, 2.0, 3.0, 4.0];
    let buf = b.host_to_device(&bits(&src), 0).expect("h2d");
    let out = b.device_to_host(&buf).expect("d2h");
    assert_eq!(floats(&out), src);
}

#[test]
fn tq2_upload_ternary_creates_handle() {
    let mut b = with_metal_kernels();
    let mut ids = HandleIds::new();
    let block = BlockTQ2_0_g128 { qs: [0xAAu8; 32], d: f16::from_f32(1.0).to_bits() };
    let handle = b.upload_weights_ternary(&mut ids, &[block]);
    assert!(handle.is_ok(), "ternary upload should succeed");
    assert_eq!(b.cached_weight_count(), 1);
}

#[test]
fn tq2_gemv_all_positive_weights() {
    let mut b = with_metal_kernels();
    let mut ids = HandleIds::new();
    let block = BlockTQ2_0_g128 { qs: [0xAAu8; 32], d: f16::from_f32(1.0).to_bits() };
    let upload = b.upload_weights_ternary(&mut ids, &[block]).expect("upload should succeed");
    let input = vec![1.0f32; 128];
    let steps = b
        .gemv_tq2_g128_cached(upload.handle, input.len(), 1, 128)
        .expect("cached ternary GEMV should succeed");
    let out = run_ternary(&steps, &upload.bytes, &input);
    assert_eq!(out.len(), 1);
    assert!((out[0] - 128.0).abs() < 1.0, "expected ~128.0, got {}", out[0]);
}

/// Carries out the steps of a ternary product on the host.
fn run_ternary(steps: &[DeviceStep], weights: &[u8], input: &[f32]) -> Vec<f32> {
    let mut out = Vec::new();
    for step in steps {
        match step {
            DeviceStep::Create { len, .. } => out = vec![0.0; *len],
            DeviceStep::Run(l) => {
                assert_eq!(l.kernel, Kernel::Tq2Gemv);
                let per_row = l.k.expect("k") as usize / 128;
                let n_blocks = l.n as usize * per_row;
                for (r, o) in out.iter_mut().enumerate() {
                    for j in 0..per_row * 128 {
                        let b = r * per_row + j / 128;
                        let d = f16::from_le_bytes([weights[2 * b], weights[2 * b + 1]]).to_f32();
                        let byte = weights[2 * n_blocks + 32 * b + (j % 128) / 4];
                        let code = (byte >> (2 * (j % 4))) & 3;
                        *o += d * (code as f32 - 1.0) * input[j];
                    }
                }
            }
            DeviceStep::Read { count, .. } => out.truncate(*count),
            _ => {}
        }
    }
    out
}

#[test]
fn ternary_weights_are_regrouped() {
    let mut b = with_metal_kernels();
    let mut ids = HandleIds::new();
    let blocks: Vec<BlockTQ2_0_g128> = (0..3u8)
        .map(|i| {
            let mut qs = [0u8; 32];
            for (j, q) in qs.iter_mut().enumerate() {
                *q = i * 50 + j as u8;
            }
            BlockTQ2_0_g128 { qs, d: 0x0102 * (i as u16 + 1) }
        })
        .collect();
    let mut raw = Vec::new();
    for block in &blocks {
        raw.extend_from_slice(&block.qs);
        raw.extend_from_slice(&block.d.to_le_bytes());
    }
    let upload = b.upload_weights_ternary(&mut ids, &blocks).expect("upload");
    assert_eq!(Some(upload.bytes), reformat_tq2_aos_to_soa(&raw));
}

#[test]
fn handles_count_up_and_missing_ones_are_refused() {
    let mut b = with_kernels();
    let mut ids = HandleIds::new();
    let first = b.upload_weights(&mut ids, &[1, 2, 3]).expect("upload");
    let second = b.upload_weights_raw(&mut ids, &[4]).expect("upload");
    assert_eq!(first.handle, GpuWeightHandle(1));
    assert_eq!(second.handle, GpuWeightHandle(2));
    assert_eq!(first.bytes, vec![1, 2, 3]);
    assert_eq!(b.cached_weight_count(), 2);
    let missing = b.gemv_q1_g128_cached(GpuWeightHandle(9), 128, 1, 128);
    assert_eq!(
        missing.err().map(|e| e.message()),
        Some("invalid argument: invalid weight handle: GpuWeightHandle(9)".to_string()),
    );
    let missing = b.gemv_tq2_g128_cached(GpuWeightHandle(9), 128, 1, 128);
    assert_eq!(
        missing.err().map(|e| e.message()),
        Some("invalid argument: invalid ternary weight handle: GpuWeightHandle(9)".to_string()),
    );
    let bad = b.gemv_q1_g128_cached(GpuWeightHandle(1), 127, 1, 128);
    assert_eq!(
        bad.err().map(|e| e.message()),
        Some("invalid argument: input.len()=127 != k=128".to_string()),
    );
}

#[test]
fn ternary_kernels_need_metal() {
    let mut b = with_kernels();
    let mut ids = HandleIds::new();
    let w = b.upload_weights(&mut ids, &[0; 34]).expect("upload");
    let r = b.gemv_tq2_g128_cached(w.handle, 128, 1, 128);
    assert_eq!(
        r.err().map(|e| e.message()),
        Some(
            "kernel launch failed: TQ2_0_g128 GPU GEMV is only implemented for Metal (macOS); no CUDA ternary kernel available"
                .to_string()
        ),
    );
    assert!(matches!(b.kernels.tq2, Some(Err(_))));
}

#[test]
fn layer_kernels_need_a_device() {
    let mut b = make_backend(no_devices()).expect("backend");
    let r = b.batch_attn_phase(0, GpuWeightHandle(1), 4, 2, 8);
    assert_eq!(
        r.err().map(|e| e.message()),
        Some(
            "GPU not available: helper kernel compile: no GPU backend available for helper kernels"
                .to_string()
        ),
    );
}

#[test]
fn one_bit_product_reuses_its_buffers() {
    let mut b = with_kernels();
    let steps = b.gemv_q1_g128(18 * 300, 128, 300, 128).expect("plan");
    assert_eq!(
        steps[..3],
        [
            DeviceStep::Upload { slot: Slot::Blocks, from: HostArg::Blocks },
            DeviceStep::Create { slot: Slot::PoolInput, len: 16384 },
            DeviceStep::CopyIn { slot: Slot::PoolInput, from: HostArg::Input },
        ],
    );
    let again = b.gemv_q1_g128(18 * 300, 128, 300, 128).expect("plan");
    assert!(again.iter().all(|s| !matches!(s, DeviceStep::Create { .. })));
    match again[2] {
        DeviceStep::Run(l) => {
            assert_eq!(l.kernel, Kernel::Q1Gemv);
            assert_eq!((l.n, l.k, l.groups_x), (300, Some(128), 2));
        }
        _ => panic!("a launch is due"),
    }
    let grown = b.gemm_q1_g128(18 * 300, 128 * 200, 200, 300, 128).expect("plan");
    assert_eq!(grown[1], DeviceStep::Create { slot: Slot::PoolInput, len: 32768 });
    assert_eq!(grown[3], DeviceStep::Create { slot: Slot::PoolOutput, len: 60000 });
    assert_eq!(b.state.input.capacity, 32768);
}

#[test]
fn one_bit_arguments_are_checked_in_order() {
    let mut b = with_kernels();
    let text = |r: Result<Vec<DeviceStep>, GpuError>| r.err().map(|e| e.message()).unwrap_or_default();
    assert_eq!(
        text(b.gemv_q1_g128(0, 0, 2, 64)),
        "invalid argument: k=64 must be a positive multiple of 128",
    );
    assert_eq!(
        text(b.gemv_q1_g128(35, 0, 2, 128)),
        "invalid argument: block_bytes.len()=35 < expected 36 (n_rows=2, blocks_per_row=1)",
    );
    assert_eq!(text(b.gemv_q1_g128(36, 1, 2, 128)), "invalid argument: input.len()=1 != k=128");
    assert_eq!(
        text(b.gemm_q1_g128(35, 0, 2, 2, 128)),
        "invalid argument: block_bytes.len()=35 < expected 36",
    );
    assert_eq!(
        text(b.gemm_q1_g128(36, 0, 2, 2, 128)),
        "invalid argument: input.len()=0 != m*k=256",
    );
    assert_eq!(text(b.rmsnorm(4, 5, 0)), "invalid argument: weight.len()=5 != input.len()=4");
    assert!(b.kernels.q1.is_none());
}

#[test]
fn element_operations_upload_launch_and_read() {
    let mut b = with_kernels();
    let steps = b.silu(600).expect("plan");
    assert_eq!(steps.len(), 4);
    match steps[2] {
        DeviceStep::Run(l) => {
            assert_eq!(l.kernel, Kernel::Silu);
            assert_eq!((l.n, l.groups_x, l.groups_y), (600, 3, 1));
        }
        _ => panic!("a launch is due"),
    }
    assert_eq!(steps[3], DeviceStep::Read { slot: Slot::Fresh, count: 600 });
    let norm = b.rmsnorm(600, 600, 1e-6f32.to_bits()).expect("plan");
    match norm[3] {
        DeviceStep::Run(l) => assert_eq!(l.alpha.map(f32::from_bits), Some(1e-6)),
        _ => panic!("a launch is due"),
    }
}

#[test]
fn buffer_operations_go_to_the_device() {
    let mut b = with_kernels();
    let a = DeviceBuffer::from_slice(&bits(&[1.0, 2.0, 3.0, 4.0]), 0);
    let x = DeviceBuffer::from_slice(&bits(&[5.0, 6.0]), 0);
    match b.matvec(&Native, &a, &x, 2, 2, 0).expect("matvec") {
        Work::Device(steps) => assert_eq!(steps.len(), 5),
        Work::Host(_) => panic!("kernels are there"),
    }
    assert!(matches!(b.relu(&Native, &a, 0), Ok(Work::Device(_))));
    assert!(matches!(b.softmax(&Native, &a, 4, 0), Ok(Work::Device(_))));
    match b.softmax(&Native, &DeviceBuffer::new(0, 3), 0, 3).expect("softmax") {
        Work::Host(buf) => assert_eq!((buf.size(), buf.device_id()), (0, 3)),
        Work::Device(_) => panic!("nothing to launch"),
    }
    assert_eq!(
        b.softmax(&Native, &a, 3, 0).err().map(|e| e.message()),
        Some("invalid argument: buffer size 4 does not match size=3".to_string()),
    );
    assert_eq!(
        b.matvec(&Native, &a, &x, 3, 2, 0).err().map(|e| e.message()),
        Some("invalid argument: matrix buffer size 4 does not match m=3 k=2".to_string()),
    );
    assert_eq!(
        b.matvec(&Native, &a, &x, 1, 4, 0).err().map(|e| e.message()),
        Some("invalid argument: vector buffer size 2 does not match k=4".to_string()),
    );
}

#[test]
fn feed_forward_phase_launches_seven_kernels_in_order() {
    let mut b = with_kernels();
    let mut ids = HandleIds::new();
    let sizes = PhaseSizes { h: 512, attn_out: 256, intermediate: 1024 };
    let w = FfnWeights {
        attn_proj: b.upload_weights(&mut ids, &[1]).expect("upload").handle,
        gate_up: b.upload_weights(&mut ids, &[2]).expect("upload").handle,
        down: b.upload_weights(&mut ids, &[3]).expect("upload").handle,
    };
    let steps = b.batch_ffn_phase(1e-5f32.to_bits(), w, sizes, sizes.h).expect("plan");
    assert_eq!(steps.len(), 8 + 3 + 7 + 1);
    let launches: Vec<_> = steps
        .iter()
        .filter_map(|s| match s {
            DeviceStep::Run(l) => Some(*l),
            _ => None,
        })
        .collect();
    let kernels: Vec<Kernel> = launches.iter().map(|l| l.kernel).collect();
    assert_eq!(
        kernels,
        vec![
            Kernel::Q1Gemv,
            Kernel::ResidualAdd,
            Kernel::RmsnormWeighted,
            Kernel::Q1Gemv,
            Kernel::Swiglu,
            Kernel::Q1Gemv,
            Kernel::ResidualAdd,
        ],
    );
    assert_eq!(launches[3].n, 2048);
    assert_eq!(launches[3].groups_x, 256);
    assert_eq!(launches[6].y, Some(Slot::Phase(PhaseBuf::Down)));
    let again = b.batch_ffn_phase(0, w, sizes, 100).expect("plan");
    assert_eq!(again.len(), 3 + 7 + 1);
    assert_eq!(
        again.last(),
        Some(&DeviceStep::Read { slot: Slot::Phase(PhaseBuf::Hidden), count: 100 }),
    );
    let bad = FfnWeights { down: GpuWeightHandle(77), ..w };
    assert_eq!(
        b.batch_ffn_phase(0, bad, sizes, sizes.h).err().map(|e| e.message()),
        Some("invalid argument: invalid weight handle: GpuWeightHandle(77)".to_string()),
    );
}

#[test]
fn attention_phase_projects_and_splits() {
    let mut b = with_kernels();
    let mut ids = HandleIds::new();
    let qkv = b.upload_weights(&mut ids, &[1]).expect("upload").handle;
    let steps = b.batch_attn_phase(0, qkv, 4, 2, 256).expect("plan");
    assert_eq!(steps.len(), 7);
    assert_eq!(steps[6], DeviceStep::Read { slot: Slot::Fresh, count: 8 });
    let (q, k, v) = split_qkv(&[1, 2, 3, 4, 5, 6, 7, 8], 4, 2);
    assert_eq!((q, k, v), (vec![1, 2, 3, 4], vec![5, 6], vec![7, 8]));
    assert!(matches!(batched(Ok(3)), Ok(Some(3))));
    assert!(matches!(batched::<u32>(Err(GpuError::NotAvailable("x".to_string()))), Ok(None)));
}

#[test]
fn contexts_open_for_the_processor_and_not_for_cuda() {
    assert!(Scirs2Backend::with_backend(DeviceKind::Cpu, no_devices(), sources()).is_ok());
    let cuda = Scirs2Backend::with_backend(DeviceKind::Cuda, no_devices(), sources());
    assert!(matches!(cuda, Err(GpuError::NotAvailable(_))));
    let opencl = Scirs2Backend::with_backend(DeviceKind::OpenCl, no_devices(), sources());
    assert!(matches!(opencl, Err(GpuError::NotAvailable(ref m)) if m == "OpenCL"));
    let build = BuildFeatures { gpu: true, metal: false, cuda: true };
    assert_eq!(Scirs2Backend::detect_backend(build), DeviceKind::Cpu);
}

#[test]
fn context_errors_are_converted() {
    let text = |f| convert_error(f).message();
    assert_eq!(text(ContextFault::BackendNotAvailable("a".to_string())), "GPU not available: a");
    assert_eq!(
        text(ContextFault::OutOfMemory),
        "out of device memory: requested 0 bytes on device 0",
    );
    assert_eq!(
        text(ContextFault::KernelCompilation("b".to_string())),
        "kernel launch failed: compilation: b",
    );
    assert_eq!(
        text(ContextFault::KernelExecution("c".to_string())),
        "kernel launch failed: execution: c",
    );
    assert_eq!(text(ContextFault::InvalidParameter("d".to_string())), "invalid argument: d");
    assert_eq!(text(ContextFault::Other("e".to_string())), "GPU not available: e");
    assert_eq!(
        GpuError::SyncFailed("late".to_string()).message(),
        "device synchronization failed: late",
    );
}

#[test]
fn memory_of_contexts_and_the_processor() {
    let b = make_backend(no_devices()).expect("backend");
    let (free, total) = b.memory_info(0).expect("memory");
    assert_eq!((free, total), (1 << 30, 1 << 32));
    assert_eq!(Some(total), b.gpu_context().get_total_memory());
    assert_eq!(memory_figures(Some(10), Some(4)), (4, 10));
    assert_eq!(memory_figures(Some(10), None), (5, 10));
    assert_eq!(memory_figures(None, None), (1 << 31, 1 << 32));
    assert_eq!(CpuBackend::new().memory_info(0).expect("memory"), (1 << 31, 1 << 32));
    assert_eq!(CpuBackend::with_memory(9).memory_info(0).expect("memory"), (4, 9));
    assert_eq!(CpuBackend::default().simulated_memory_bytes, 1 << 32);
    assert!(b.synchronize(0).is_ok());
}

#[test]
fn workgroups_round_up() {
    assert_eq!(workgroups_1d(0), 0);
    assert_eq!(workgroups_1d(256), 1);
    assert_eq!(workgroups_1d(257), 2);
    assert_eq!(workgroups_simd(8), 1);
    assert_eq!(workgroups_simd(9), 2);
}

#[test]
fn devices_are_tried_metal_first() {
    let all = BuildFeatures { gpu: true, metal: true, cuda: true };
    assert_eq!(choose_device(all, true, true), DeviceKind::Metal);
    assert_eq!(choose_device(all, false, true), DeviceKind::Cuda);
    assert_eq!(choose_device(all, false, false), DeviceKind::Cpu);
    assert_eq!(choose_device(no_devices(), true, true), DeviceKind::Cpu);
}

#[test]
fn best_backend_wins() {
    assert_eq!(choose_backend(Probe::Ready, Probe::Ready, Probe::Ready, Probe::Ready), Choice::Scirs2);
    assert_eq!(choose_backend(Probe::NotAccelerated, Probe::Ready, Probe::Ready, Probe::Ready), Choice::NativeCuda);
    assert_eq!(choose_backend(Probe::Failed, Probe::Failed, Probe::Ready, Probe::Ready), Choice::Cuda);
    assert_eq!(choose_backend(Probe::Failed, Probe::Absent, Probe::Absent, Probe::Ready), Choice::Metal);
    assert_eq!(choose_backend(Probe::Absent, Probe::Absent, Probe::Absent, Probe::Absent), Choice::Cpu);
}

#[test]
fn a_backend_is_always_selected() {
    let none = BuildFeatures { gpu: false, metal: false, cuda: false };
    let mut kept = None;
    match select_backend(&mut kept, none, sources(), Probe::Absent) {
        Selected::Cpu(b) => assert_eq!(b.name(), "cpu"),
        _ => panic!("only the processor is there"),
    }
    assert!(kept.is_none());
    let cuda = BuildFeatures { gpu: true, metal: false, cuda: true };
    match select_backend(&mut kept, cuda, sources(), Probe::Failed) {
        Selected::Cuda(b) => assert_eq!((b.name(), b.device_count()), ("cuda", 1)),
        _ => panic!("the stub is there"),
    }
    assert!(kept.is_some(), "the context that is not accelerated stays open");
    let native = select_backend(&mut kept, cuda, sources(), Probe::Ready);
    assert!(matches!(native, Selected::NativeCuda));
}

#[test]
fn stubs_work_on_the_processor() {
    let cuda = CudaBackend::new().expect("cuda");
    let metal = MetalBackend::new().expect("metal");
    assert_eq!((cuda.name(), metal.name()), ("cuda", "metal"));
    assert!(!cuda.is_accelerated() && !metal.is_accelerated());
    let x = cuda.host_to_device(&bits(&[-1.0, 2.0]), 1).expect("h2d");
    assert_eq!(floats(&cuda.relu(&Native, &x, 1).expect("relu").to_vec()), vec![0.0, 2.0]);
    let shares = metal.softmax(&Native, &x, 2, 1).expect("softmax");
    assert!((floats(&shares.data)[1] - 0.952_574_1).abs() < 1e-6);
    assert_eq!(metal.allocate(3, 2).expect("allocate").device_id(), 2);
    let y = metal.matvec(&Native, &x, &x, 1, 2, 0).expect("matvec");
    assert_eq!(floats(&metal.device_to_host(&y).expect("d2h")), vec![5.0]);
    assert!(cuda.synchronize(0).is_ok());
    assert_eq!(metal.memory_info(0).expect("memory"), (1 << 31, 1 << 32));
}

#[test]
fn cpu_softmax_shares_out_evenly_where_nothing_is_left() {
    let cpu = CpuBackend::new();
    let x = DeviceBuffer::from_slice(&bits(&[f32::INFINITY, 1.0]), 0);
    let y = cpu.softmax(&Native, &x, 2, 0).expect("softmax");
    assert!(floats(&y.data)[0].is_nan());
    let x = DeviceBuffer::from_slice(&bits(&[2.0, 2.0, 2.0, 2.0]), 0);
    let y = cpu.softmax(&Native, &x, 4, 0).expect("softmax");
    assert_eq!(floats(&y.data), vec![0.25; 4]);
}

fn scalar() -> ScalarBackend<Native> {
    ScalarBackend { cpu: CpuBackend::new(), arith: Native }
}

#[test]
fn matmul_goes_column_by_column() {
    let a = bits(&[1.0, 2.0, 3.0, 4.0, 5.0, 6.0]);
    let b = bits(&[7.0, 8.0, 9.0, 10.0, 11.0, 12.0]);
    let c = gpu_matmul(&scalar(), &a, &b, 2, 3, 2, 0).expect("matmul");
    assert_eq!(floats(&c), vec![58.0, 64.0, 139.0, 154.0]);
    assert_eq!(
        gpu_matmul(&scalar(), &a, &b, 3, 3, 2, 0).err().map(|e| e.message()),
        Some("invalid argument: a.len()=6 does not match m=3 k=3".to_string()),
    );
    assert_eq!(
        gpu_matmul(&scalar(), &a, &b, 2, 3, 3, 0).err().map(|e| e.message()),
        Some("invalid argument: b.len()=6 does not match k=3 n=3".to_string()),
    );
}

#[test]
fn raw_products_with_many_vectors() {
    let mut block_bytes = ones_block();
    block_bytes.extend(ones_block().iter().enumerate().map(|(i, &b)| if i < 2 { b } else { 0 }));
    let mut input = vec![1.0f32; 128];
    input.extend(vec![0.5f32; 128]);
    let out = gemm_q1_g128(&scalar(), &block_bytes, &bits(&input), 2, 2, 128).expect("gemm");
    assert_eq!(floats(&out), vec![128.0, -128.0, 64.0, -64.0]);
    let err = gemm_q1_g128(&scalar(), &block_bytes[..20], &bits(&input), 2, 2, 128);
    assert_eq!(
        err.err().map(|e| e.message()),
        Some("invalid argument: block_bytes too small: 20 < 36".to_string()),
    );
}

#[test]
fn plain_backends_refuse_resident_weights() {
    let b = scalar();
    let text = |e: Option<GpuError>| e.map(|e| e.message()).unwrap_or_default();
    assert_eq!(
        text(b.upload_weights_raw(&[]).err()),
        "GPU not available: weight caching not supported by this backend",
    );
    assert_eq!(
        text(b.gemv_q1_g128_cached(GpuWeightHandle(1), &[], 0, 0).err()),
        "GPU not available: cached GEMV not supported by this backend",
    );
    assert_eq!(
        text(b.upload_weights_ternary(&[]).err()),
        "GPU not available: ternary weight upload not supported by this backend",
    );
    assert_eq!(
        text(b.gemv_tq2_g128_cached(GpuWeightHandle(1), &[], 0, 0).err()),
        "GPU not available: cached ternary GEMV not supported by this backend",
    );
    let h = GpuWeightHandle(1);
    assert!(matches!(b.batch_attn_phase(&[], &[], 0, h, 0, 0, 0), Ok(None)));
    let mut hidden = vec![3u32];
    assert!(matches!(b.batch_ffn_phase(&mut hidden, &[], &[], 0, h, h, h, 0, 0, 0), Ok(false)));
    assert_eq!(hidden, vec![3]);
    assert_eq!((b.name(), b.device_count(), b.is_accelerated()), ("cpu", 1, false));
    assert_eq!(b.allocate(2, 5).expect("allocate").device_id(), 5);
}

//! Aligned buffers, block packing and prefetch hints.

use half::f16;
use pictor_kernels::blocks::BlockQ1_0G128;
use pictor_kernels::packing;
use pictor_kernels::packing::{
    estimate_working_set_bytes, fits_in_l1, fits_in_l2, pack_blocks_for_gemv,
    unpack_blocks_from_gemv, AlignedBuffer,
};
use pictor_kernels::prefetch::{
    prefetch_range_read, prefetch_read, prefetch_write, Arch, Hint, Prefetch, PrefetchConfig,
    PrefetchLocality, PrefetchStrategy,
};
use pictor_kernels::KernelError;

fn make_block(scale: f32, bits: [u8; 16]) -> BlockQ1_0G128 {
    BlockQ1_0G128 { d: f16::from_f32(scale).to_bits(), qs: bits }
}

fn read(buf: &AlignedBuffer, i: usize) -> f32 {
    f32::from_bits(buf.as_slice()[i])
}

#[test]
fn aligned_buffer_creation() {
    let buf = AlignedBuffer::new(256);
    assert_eq!(buf.len(), 256);
    assert!(!buf.is_empty());
    assert!(buf.is_aligned(), "buffer should be 64-byte aligned");
}

#[test]
fn aligned_buffer_elements_start_on_a_cache_line() {
    let bufs: Vec<AlignedBuffer> = (0..40).map(|n| AlignedBuffer::new(n * 3 + 1)).collect();
    for buf in &bufs {
        assert_eq!(buf.as_slice().as_ptr() as usize % 64, 0);
        assert!(buf.is_aligned());
    }
}

#[test]
fn aligned_buffer_zero_initialized() {
    let buf = AlignedBuffer::new(128);
    for &v in buf.as_slice() {
        assert_eq!(f32::from_bits(v), 0.0);
    }
}

#[test]
fn aligned_buffer_read_write() {
    let mut buf = AlignedBuffer::new(4);
    {
        let slice = buf.as_mut_slice();
        slice[0] = 1.0f32.to_bits();
        slice[1] = 2.0f32.to_bits();
        slice[2] = 3.0f32.to_bits();
        slice[3] = 4.0f32.to_bits();
    }
    assert!((read(&buf, 0) - 1.0).abs() < f32::EPSILON);
    assert!((read(&buf, 1) - 2.0).abs() < f32::EPSILON);
    assert!((read(&buf, 2) - 3.0).abs() < f32::EPSILON);
    assert!((read(&buf, 3) - 4.0).abs() < f32::EPSILON);
}

#[test]
fn aligned_buffer_copy_from_slice() {
    let mut buf = AlignedBuffer::new(4);
    let src: Vec<u32> = [10.0f32, 20.0, 30.0, 40.0].iter().map(|x| x.to_bits()).collect();
    buf.copy_from_slice(&src);
    assert!((read(&buf, 2) - 30.0).abs() < f32::EPSILON);
}

#[test]
fn aligned_buffer_copies_as_much_as_fits() {
    let mut buf = AlignedBuffer::new(3);
    buf.copy_from_slice(&[1, 2, 3, 4, 5]);
    assert_eq!(buf.as_slice(), &[1, 2, 3]);
    buf.copy_from_slice(&[9]);
    assert_eq!(buf.as_slice(), &[9, 2, 3]);
}

#[test]
fn aligned_buffer_empty() {
    let buf = AlignedBuffer::new(0);
    assert!(buf.is_empty());
    assert_eq!(buf.len(), 0);
}

fn numbered(n_rows: usize, per_row: usize) -> Vec<BlockQ1_0G128> {
    let mut blocks = Vec::new();
    for row in 0..n_rows {
        for bi in 0..per_row {
            let bits = [((row * 37 + bi * 13) & 0xFF) as u8; 16];
            blocks.push(make_block(0.5 + row as f32 * 0.1, bits));
        }
    }
    blocks
}

#[test]
fn pack_unpack_roundtrip() {
    let n_rows = 10;
    let k = 256;
    let blocks = numbered(n_rows, k / 128);
    let packed = pack_blocks_for_gemv(&blocks, n_rows, k).expect("packing should succeed");
    let unpacked = unpack_blocks_from_gemv(&packed, n_rows, k).expect("unpacking should succeed");
    assert_eq!(blocks.len(), unpacked.len());
    for (i, (orig, restored)) in blocks.iter().zip(unpacked.iter()).enumerate() {
        assert_eq!(
            f16::from_bits(orig.d).to_f32(),
            f16::from_bits(restored.d).to_f32(),
            "scale mismatch at block {i}"
        );
        assert_eq!(orig.qs, restored.qs, "bits mismatch at block {i}");
    }
}

#[test]
fn tiles_of_thirty_two_rows_are_interleaved() {
    let n_rows = 70;
    let per_row = 3;
    let blocks: Vec<BlockQ1_0G128> =
        (0..n_rows * per_row).map(|i| BlockQ1_0G128 { d: i as u16, qs: [0; 16] }).collect();
    let packed = pack_blocks_for_gemv(&blocks, n_rows, per_row * 128).expect("pack");
    let mut want = Vec::new();
    let mut start = 0;
    while start < n_rows {
        let rows = (n_rows - start).min(32);
        for b in 0..per_row {
            for r in 0..rows {
                want.push(blocks[(start + r) * per_row + b]);
            }
        }
        start += rows;
    }
    assert_eq!(packed, want);
    assert_eq!(unpack_blocks_from_gemv(&packed, n_rows, per_row * 128).expect("unpack"), blocks);
    let again = unpack_blocks_from_gemv(&blocks, n_rows, per_row * 128).expect("unpack");
    assert_eq!(pack_blocks_for_gemv(&again, n_rows, per_row * 128).expect("pack"), blocks);
}

#[test]
fn pack_single_row() {
    let blocks = vec![make_block(1.0, [0xAA; 16])];
    let packed = pack_blocks_for_gemv(&blocks, 1, 128).expect("pack should succeed");
    assert_eq!(packed.len(), 1);
    assert_eq!(packed[0].qs, [0xAA; 16]);
}

#[test]
fn pack_validation_errors() {
    let blocks = vec![make_block(1.0, [0xFF; 16])];
    let result = pack_blocks_for_gemv(&blocks, 1, 100);
    assert!(result.is_err());
    assert_eq!(result, Err(KernelError::NotBlockAligned { count: 100, block_size: 128 }));
    let result = pack_blocks_for_gemv(&blocks, 2, 128);
    assert!(result.is_err());
    assert_eq!(result, Err(KernelError::BufferTooSmall { needed: 2, available: 1 }));
    let result = unpack_blocks_from_gemv(&blocks, 2, 128);
    assert_eq!(result, Err(KernelError::BufferTooSmall { needed: 2, available: 1 }));
}

#[test]
fn working_set_estimation() {
    let ws = estimate_working_set_bytes(32, 128);
    let expected = 32 * 18 + 128 * 4 + 32 * 4;
    assert_eq!(ws, expected);
}

#[test]
fn fits_in_l1_small() {
    assert!(fits_in_l1(4, 128));
}

#[test]
fn fits_in_l1_large() {
    assert!(!fits_in_l1(1000, 4096));
}

#[test]
fn fits_in_l2_moderate() {
    assert!(fits_in_l2(64, 256));
}

#[test]
fn second_cache_holds_more_than_the_first() {
    assert!(!fits_in_l1(2000, 128));
    assert!(fits_in_l2(2000, 128));
    assert!(!fits_in_l2(20000, 128));
}

#[test]
fn prefetch_does_not_crash() {
    let data = vec![1.0f32; 64];
    let at = data.as_ptr() as usize;
    let read = packing::prefetch_read(Arch::X86_64, at);
    assert_eq!(read, Some(Prefetch { address: at, hint: Hint::X86T0 }));
    let write = packing::prefetch_write(Arch::Aarch64, at);
    assert_eq!(write, Some(Prefetch { address: at, hint: Hint::Arm { write: true, locality: 3 } }));
    assert_eq!(packing::prefetch_read(Arch::Other, at), None);
    assert_eq!(packing::prefetch_write(Arch::Other, at), None);
}

#[test]
fn prefetch_config_defaults() {
    let config = PrefetchConfig::default();
    assert_eq!(config.lookahead_blocks, 4);
    assert_eq!(config.strategy, PrefetchStrategy::Temporal);
}

#[test]
fn prefetch_config_for_gemv() {
    let config = PrefetchConfig::for_gemv();
    assert_eq!(config.strategy, PrefetchStrategy::Temporal);
    assert!(config.lookahead_blocks > 0);
}

#[test]
fn prefetch_config_for_gemm_small_batch() {
    let config = PrefetchConfig::for_gemm(4);
    assert_eq!(config.strategy, PrefetchStrategy::Temporal);
}

#[test]
fn prefetch_config_for_gemm_large_batch() {
    let config = PrefetchConfig::for_gemm(64);
    assert_eq!(config.strategy, PrefetchStrategy::NonTemporal);
    assert!(config.lookahead_blocks > 4);
}

#[test]
fn prefetch_config_turns_at_thirty_two() {
    assert_eq!(PrefetchConfig::for_gemm(32).lookahead_blocks, 4);
    assert_eq!(PrefetchConfig::for_gemm(33).lookahead_blocks, 8);
}

#[test]
fn prefetch_config_none() {
    let config = PrefetchConfig::none();
    assert_eq!(config.lookahead_blocks, 0);
    assert_eq!(config.strategy, PrefetchStrategy::Off);
}

#[test]
fn prefetch_read_smoke_test() {
    let data = [1.0f32, 2.0, 3.0, 4.0];
    let at = data.as_ptr() as usize;
    let hint = |arch, locality| prefetch_read(arch, at, locality).map(|p| p.hint);
    assert_eq!(hint(Arch::X86_64, PrefetchLocality::High), Some(Hint::X86T0));
    assert_eq!(hint(Arch::X86_64, PrefetchLocality::Medium), Some(Hint::X86T1));
    assert_eq!(hint(Arch::X86_64, PrefetchLocality::Low), Some(Hint::X86Nta));
    assert_eq!(
        hint(Arch::Aarch64, PrefetchLocality::Medium),
        Some(Hint::Arm { write: false, locality: 2 }),
    );
    assert_eq!(hint(Arch::Other, PrefetchLocality::High), None);
}

#[test]
fn prefetch_write_smoke_test() {
    let mut data = [0.0f32; 16];
    let at = data.as_mut_ptr() as usize;
    let hint = |arch, locality| prefetch_write(arch, at, locality).map(|p| p.hint);
    assert_eq!(
        hint(Arch::Aarch64, PrefetchLocality::High),
        Some(Hint::Arm { write: true, locality: 3 }),
    );
    assert_eq!(hint(Arch::X86_64, PrefetchLocality::Medium), Some(Hint::X86T1));
    assert_eq!(
        hint(Arch::Aarch64, PrefetchLocality::Low),
        Some(Hint::Arm { write: true, locality: 0 }),
    );
    data[0] = 42.0;
    assert!((data[0] - 42.0).abs() < f32::EPSILON);
}

#[test]
fn prefetch_range_read_smoke_test() {
    let data = vec![0.0f32; 1024];
    let byte_count = data.len() * std::mem::size_of::<f32>();
    let at = data.as_ptr() as usize;
    let high = prefetch_range_read(Arch::X86_64, at, byte_count, PrefetchLocality::High);
    let low = prefetch_range_read(Arch::X86_64, at, byte_count, PrefetchLocality::Low);
    assert_eq!(high.len(), 64);
    assert_eq!(low.len(), 64);
    assert_eq!(high[5], Prefetch { address: at + 320, hint: Hint::X86T0 });
    assert_eq!(low[63].hint, Hint::X86Nta);
    assert_eq!(prefetch_range_read(Arch::X86_64, at, 65, PrefetchLocality::High).len(), 2);
    assert!(prefetch_range_read(Arch::Other, at, byte_count, PrefetchLocality::High).is_empty());
}

#[test]
fn prefetch_strategy_equality() {
    assert_eq!(PrefetchStrategy::Off, PrefetchStrategy::Off);
    assert_ne!(PrefetchStrategy::Temporal, PrefetchStrategy::NonTemporal);
}

#[test]
fn prefetch_locality_equality() {
    assert_eq!(PrefetchLocality::High, PrefetchLocality::High);
    assert_ne!(PrefetchLocality::High, PrefetchLocality::Low);
}

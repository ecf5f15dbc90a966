//! Software prefetch: when to ask for it, and what to ask of the processor.
//!
//! A prefetch is a hint. The functions here say which instruction with which
//! address carries it; issuing that instruction changes no result.

use vstd::prelude::*;

verus! {

/// Blocks that kernels look ahead by default.
pub const DEFAULT_LOOKAHEAD_BLOCKS: usize = 4;

/// Where prefetched lines are to go.
#[derive(Debug, Clone, Copy, PartialEq, Eq, Structural)]
pub enum PrefetchStrategy {
    /// Nothing is prefetched.
    Off,
    /// To the nearest cache, for data that is used again soon.
    Temporal,
    /// Past the nearest cache, for data that is used once.
    NonTemporal,
}

/// How soon prefetched data is used again.
#[derive(Debug, Clone, Copy, PartialEq, Eq, Structural)]
pub enum PrefetchLocality {
    /// At once.
    High,
    /// Perhaps.
    Medium,
    /// Hardly.
    Low,
}

/// How a kernel prefetches.
#[derive(Debug, Clone, Copy)]
pub struct PrefetchConfig {
    /// Blocks to look ahead.
    pub lookahead_blocks: usize,
    /// Where the lines are to go.
    pub strategy: PrefetchStrategy,
}

impl Default for PrefetchConfig {
    fn default() -> (c: Self)
        ensures
            c.lookahead_blocks == 4,
            c.strategy is Temporal,
    {
        PrefetchConfig {
            lookahead_blocks: DEFAULT_LOOKAHEAD_BLOCKS,
            strategy: PrefetchStrategy::Temporal,
        }
    }
}

impl PrefetchConfig {
    /// For products with one vector.
    pub fn for_gemv() -> (c: Self)
        ensures
            c.lookahead_blocks == 4,
            c.strategy is Temporal,
    {
        PrefetchConfig { lookahead_blocks: 4, strategy: PrefetchStrategy::Temporal }
    }

    /// For products with `batch_size` vectors: more than 32 stream the weights.
    pub fn for_gemm(batch_size: usize) -> (c: Self)
        ensures
            batch_size > 32 ==> c.lookahead_blocks == 8 && c.strategy is NonTemporal,
            batch_size <= 32 ==> c.lookahead_blocks == 4 && c.strategy is Temporal,
    {
        if batch_size > 32 {
            PrefetchConfig { lookahead_blocks: 8, strategy: PrefetchStrategy::NonTemporal }
        } else {
            PrefetchConfig { lookahead_blocks: 4, strategy: PrefetchStrategy::Temporal }
        }
    }

    /// No prefetching.
    pub fn none() -> (c: Self)
        ensures
            c.lookahead_blocks == 0,
            c.strategy is Off,
    {
        PrefetchConfig { lookahead_blocks: 0, strategy: PrefetchStrategy::Off }
    }
}

/// Processor architectures that are told apart.
#[derive(Debug, Clone, Copy, PartialEq, Eq, Structural)]
pub enum Arch {
    /// 64-bit x86.
    X86_64,
    /// 64-bit ARM.
    Aarch64,
    /// Any other, without prefetch.
    Other,
}

/// Prefetch instructions.
#[derive(Debug, Clone, Copy, PartialEq, Eq, Structural)]
pub enum Hint {
    /// x86, to all caches.
    X86T0,
    /// x86, to the second cache on.
    X86T1,
    /// x86, non-temporal.
    X86Nta,
    /// ARM, for a read or a write, with the level of locality.
    Arm {
        /// The line is to be written.
        write: bool,
        /// Locality, from zero for non-temporal to three for all caches.
        locality: u8,
    },
}

/// A prefetch instruction and the address it is for.
#[derive(Debug, Clone, Copy, PartialEq, Eq, Structural)]
pub struct Prefetch {
    /// The address.
    pub address: usize,
    /// The instruction.
    pub hint: Hint,
}

/// The ARM level of a locality.
pub open spec fn arm_level(locality: PrefetchLocality) -> u8 {
    match locality {
        PrefetchLocality::High => 3,
        PrefetchLocality::Medium => 2,
        PrefetchLocality::Low => 0,
    }
}

/// The x86 instruction of a locality; there is none for writes of their own.
pub open spec fn x86_hint(locality: PrefetchLocality) -> Hint {
    match locality {
        PrefetchLocality::High => Hint::X86T0,
        PrefetchLocality::Medium => Hint::X86T1,
        PrefetchLocality::Low => Hint::X86Nta,
    }
}

/// The prefetch of an address, where the architecture has one.
pub open spec fn prefetch_of(
    arch: Arch,
    address: usize,
    write: bool,
    locality: PrefetchLocality,
) -> Option<Prefetch> {
    match arch {
        Arch::X86_64 => Some(Prefetch { address, hint: x86_hint(locality) }),
        Arch::Aarch64 => Some(
            Prefetch { address, hint: Hint::Arm { write, locality: arm_level(locality) } },
        ),
        Arch::Other => None,
    }
}

/// Prefetch of an address that is to be read.
pub fn prefetch_read(arch: Arch, address: usize, locality: PrefetchLocality) -> (p: Option<
    Prefetch,
>)
    ensures
        p == prefetch_of(arch, address, false, locality),
{
    match arch {
        Arch::X86_64 => Some(Prefetch { address, hint: prefetch_read_x86(locality) }),
        Arch::Aarch64 => Some(Prefetch { address, hint: prefetch_aarch64(false, locality) }),
        Arch::Other => None,
    }
}

/// Prefetch of an address that is to be written.
pub fn prefetch_write(arch: Arch, address: usize, locality: PrefetchLocality) -> (p: Option<
    Prefetch,
>)
    ensures
        p == prefetch_of(arch, address, true, locality),
{
    match arch {
        Arch::X86_64 => Some(Prefetch { address, hint: prefetch_read_x86(locality) }),
        Arch::Aarch64 => Some(Prefetch { address, hint: prefetch_aarch64(true, locality) }),
        Arch::Other => None,
    }
}

fn prefetch_read_x86(locality: PrefetchLocality) -> (h: Hint)
    ensures
        h == x86_hint(locality),
{
    match locality {
        PrefetchLocality::High => Hint::X86T0,
        PrefetchLocality::Medium => Hint::X86T1,
        PrefetchLocality::Low => Hint::X86Nta,
    }
}

fn prefetch_aarch64(write: bool, locality: PrefetchLocality) -> (h: Hint)
    ensures
        h == (Hint::Arm { write, locality: arm_level(locality) }),
{
    match locality {
        PrefetchLocality::High => Hint::Arm { write, locality: 3 },
        PrefetchLocality::Medium => Hint::Arm { write, locality: 2 },
        PrefetchLocality::Low => Hint::Arm { write, locality: 0 },
    }
}

/// Cache lines that `byte_count` bytes from the start of a line touch.
pub open spec fn line_count(byte_count: usize) -> nat {
    ((byte_count + 63) / 64) as nat
}

/// Prefetches of the lines of a range: every 64 bytes from its start.
pub fn prefetch_range_read(
    arch: Arch,
    address: usize,
    byte_count: usize,
    locality: PrefetchLocality,
) -> (v: Vec<Prefetch>)
    requires
        address + byte_count + 63 <= usize::MAX,
    ensures
        arch is Other ==> v@.len() == 0,
        !(arch is Other) ==> v@ == Seq::new(
            line_count(byte_count),
            |i: int| prefetch_of(arch, (address + 64 * i) as usize, false, locality)->0,
        ),
{
    let mut v: Vec<Prefetch> = Vec::new();
    let mut offset: usize = 0;
    let ghost mut n: nat = 0;
    while offset < byte_count
        invariant
            address + byte_count + 63 <= usize::MAX,
            offset == 64 * n,
            offset < byte_count + 64,
            arch is Other ==> v@.len() == 0,
            !(arch is Other) ==> v@ == Seq::new(
                n,
                |i: int| prefetch_of(arch, (address + 64 * i) as usize, false, locality)->0,
            ),
        decreases byte_count + 64 - offset,
    {
        if let Some(p) = prefetch_read(arch, address + offset, locality) {
            v.push(p);
        }
        offset += 64;
        proof {
            n = n + 1;
            if !(arch is Other) {
                assert(v@ =~= Seq::new(
                    n,
                    |i: int| prefetch_of(arch, (address + 64 * i) as usize, false, locality)->0,
                ));
            }
        }
    }
    assert(n == line_count(byte_count));
    v
}

/// The lines that a range's prefetches name hold every byte of the range.
pub proof fn law_range_is_covered(address: int, byte_count: usize, b: int)
    requires
        0 <= b < byte_count,
    ensures
        ({
            let i = b / 64;
            &&& 0 <= i < line_count(byte_count)
            &&& address + 64 * i <= address + b < address + 64 * i + 64
        }),
{
}

} // verus!

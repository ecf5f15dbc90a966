//! Device buffers and kernel launch geometry.

use vstd::prelude::*;

verus! {

/// Device memory buffer, backed by host memory. Holds the bits of
/// single-precision numbers.
#[derive(Debug)]
pub struct DeviceBuffer {
    /// Backing store.
    pub data: Vec<u32>,
    /// Number of elements in the buffer.
    pub size: usize,
    /// Logical device index this buffer is associated with.
    pub device_id: usize,
}

impl DeviceBuffer {
    /// The recorded size is that of the backing store.
    pub open spec fn wf(&self) -> bool {
        self.size == self.data@.len()
    }

    /// The buffer holds these elements on that device.
    pub open spec fn holds(&self, data: Seq<u32>, device_id: usize) -> bool {
        self.wf() && self.data@ == data && self.device_id == device_id
    }

    /// Allocates a buffer of `size` zeros on `device_id`.
    pub fn new(size: usize, device_id: usize) -> (b: Self)
        ensures
            b.holds(Seq::new(size as nat, |i: int| 0u32), device_id),
    {
        let mut data: Vec<u32> = Vec::with_capacity(size);
        let mut i: usize = 0;
        while i < size
            invariant
                i <= size,
                data@ == Seq::new(i as nat, |j: int| 0u32),
            decreases size - i,
        {
            data.push(0);
            i += 1;
            assert(data@ =~= Seq::new(i as nat, |j: int| 0u32));
        }
        DeviceBuffer { data, size, device_id }
    }

    /// Creates a buffer that holds a host slice.
    pub fn from_slice(data: &[u32], device_id: usize) -> (b: Self)
        ensures
            b.holds(data@, device_id),
    {
        let size: usize = data.len();
        let mut v: Vec<u32> = Vec::with_capacity(size);
        v.extend_from_slice(data);
        assert(v@ =~= data@);
        DeviceBuffer { data: v, size, device_id }
    }

    /// Copies the buffer back to the host.
    pub fn to_vec(&self) -> (v: Vec<u32>)
        ensures
            v@ == self.data@,
    {
        let mut v: Vec<u32> = Vec::with_capacity(self.data.len());
        v.extend_from_slice(self.data.as_slice());
        assert(v@ =~= self.data@);
        v
    }

    /// Number of elements stored in this buffer.
    pub fn size(&self) -> (n: usize)
        ensures
            n == self.size,
    {
        self.size
    }

    /// Logical device index this buffer is bound to.
    pub fn device_id(&self) -> (n: usize)
        ensures
            n == self.device_id,
    {
        self.device_id
    }
}

/// Kernel launch configuration: a grid of thread blocks.
#[derive(Debug, Clone, Copy, PartialEq, Eq)]
pub struct LaunchConfig {
    /// Number of thread blocks (x, y, z).
    pub grid_dim: (u32, u32, u32),
    /// Threads per block (x, y, z).
    pub block_dim: (u32, u32, u32),
    /// Dynamic shared memory per block in bytes.
    pub shared_mem_bytes: u32,
}

/// Threads per block of [`LaunchConfig::for_n_elements`].
pub const DEFAULT_BLOCK_SIZE: u32 = 256;

/// Blocks that cover `n` elements, at least one, as far as a grid can count
/// them.
pub open spec fn blocks_for(n: int) -> int {
    let ceil = (n + 255) / 256;
    if ceil < 1 {
        1
    } else if ceil > u32::MAX {
        u32::MAX as int
    } else {
        ceil
    }
}

impl LaunchConfig {
    /// A one-dimensional launch of 256-thread blocks that covers `n` elements,
    /// without shared memory.
    pub fn for_n_elements(n: usize) -> (c: Self)
        ensures
            c.grid_dim == (blocks_for(n as int) as u32, 1u32, 1u32),
            c.block_dim == (256u32, 1u32, 1u32),
            c.shared_mem_bytes == 0,
            n <= u32::MAX * 256 ==> c.grid_dim.0 * c.block_dim.0 >= n,
    {
        let whole: usize = n / 256;
        let ceil: usize = if n % 256 == 0 {
            whole
        } else {
            whole + 1
        };
        let grid: u32 = if ceil < 1 {
            1
        } else if ceil > u32::MAX as usize {
            u32::MAX
        } else {
            ceil as u32
        };
        LaunchConfig {
            grid_dim: (grid, 1, 1),
            block_dim: (DEFAULT_BLOCK_SIZE, 1, 1),
            shared_mem_bytes: 0,
        }
    }

    /// One block of 256 threads.
    pub fn default_1d() -> (c: Self)
        ensures
            c.grid_dim == (1u32, 1u32, 1u32),
            c.block_dim == (256u32, 1u32, 1u32),
            c.shared_mem_bytes == 0,
    {
        LaunchConfig {
            grid_dim: (1, 1, 1),
            block_dim: (DEFAULT_BLOCK_SIZE, 1, 1),
            shared_mem_bytes: 0,
        }
    }
}

} // verus!

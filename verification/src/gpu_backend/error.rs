//! Errors of GPU backends.

use vstd::prelude::*;

use crate::text;
use crate::text::Msg;

verus! {

/// Error type for GPU backend operations.
#[derive(Debug)]
pub enum GpuError {
    /// The requested GPU or backend is not present or not compiled in.
    NotAvailable(String),
    /// A device-side allocation failed due to insufficient memory.
    OutOfMemory {
        /// Requested allocation size in bytes.
        requested: usize,
        /// Device index that was targeted.
        device: usize,
    },
    /// A kernel could not be launched.
    KernelLaunch(String),
    /// The device failed to synchronise after kernel execution.
    SyncFailed(String),
    /// A parameter value is out of range or logically inconsistent.
    InvalidArgument(String),
}

/// What a [`GpuError`] says.
pub enum GpuFault {
    /// View of [`GpuError::NotAvailable`].
    NotAvailable(Seq<char>),
    /// View of [`GpuError::OutOfMemory`].
    OutOfMemory {
        /// Requested allocation size in bytes.
        requested: usize,
        /// Device index that was targeted.
        device: usize,
    },
    /// View of [`GpuError::KernelLaunch`].
    KernelLaunch(Seq<char>),
    /// View of [`GpuError::SyncFailed`].
    SyncFailed(Seq<char>),
    /// View of [`GpuError::InvalidArgument`].
    InvalidArgument(Seq<char>),
}

impl View for GpuError {
    type V = GpuFault;

    open spec fn view(&self) -> GpuFault {
        match self {
            GpuError::NotAvailable(m) => GpuFault::NotAvailable(m@),
            GpuError::OutOfMemory { requested, device } => GpuFault::OutOfMemory {
                requested: *requested,
                device: *device,
            },
            GpuError::KernelLaunch(m) => GpuFault::KernelLaunch(m@),
            GpuError::SyncFailed(m) => GpuFault::SyncFailed(m@),
            GpuError::InvalidArgument(m) => GpuFault::InvalidArgument(m@),
        }
    }
}

impl GpuFault {
    /// The error as a line of text.
    pub open spec fn text(self) -> Seq<char> {
        match self {
            GpuFault::NotAvailable(m) => "GPU not available: "@ + m,
            GpuFault::OutOfMemory { requested, device } => "out of device memory: requested "@
                + text::dec(requested as nat) + " bytes on device "@ + text::dec(device as nat),
            GpuFault::KernelLaunch(m) => "kernel launch failed: "@ + m,
            GpuFault::SyncFailed(m) => "device synchronization failed: "@ + m,
            GpuFault::InvalidArgument(m) => "invalid argument: "@ + m,
        }
    }
}

impl GpuError {
    /// The error as a line of text.
    pub fn message(&self) -> (s: String)
        ensures
            s@ == self@.text(),
    {
        match self {
            GpuError::NotAvailable(m) => Msg::new("GPU not available: ").lit(m.as_str()).done(),
            GpuError::OutOfMemory { requested, device } => Msg::new(
                "out of device memory: requested ",
            ).num(*requested).lit(" bytes on device ").num(*device).done(),
            GpuError::KernelLaunch(m) => Msg::new("kernel launch failed: ").lit(m.as_str()).done(),
            GpuError::SyncFailed(m) => {
                Msg::new("device synchronization failed: ").lit(m.as_str()).done()
            },
            GpuError::InvalidArgument(m) => Msg::new("invalid argument: ").lit(m.as_str()).done(),
        }
    }
}

/// A [`GpuError::InvalidArgument`] with the given message.
pub fn invalid_argument(m: Msg) -> (e: GpuError)
    ensures
        e@ == GpuFault::InvalidArgument(m@),
{
    GpuError::InvalidArgument(m.done())
}

/// A [`GpuError::NotAvailable`] with the given message.
pub fn not_available(m: Msg) -> (e: GpuError)
    ensures
        e@ == GpuFault::NotAvailable(m@),
{
    GpuError::NotAvailable(m.done())
}

/// The outcome of a check: an error exactly when the check names a fault, and
/// then that fault.
pub open spec fn reports<T>(r: Result<T, GpuError>, fault: Option<GpuFault>) -> bool {
    match r {
        Ok(_) => fault is None,
        Err(e) => fault == Some(e@),
    }
}

} // verus!

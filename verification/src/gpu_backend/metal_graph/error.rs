//! Error type and weight handle of the Metal graph.

use vstd::prelude::*;

use crate::text::Msg;

verus! {

/// Errors raised by the Metal graph dispatch engine.
#[derive(Debug)]
pub enum MetalGraphError {
    /// No Metal-capable GPU device was found on the system.
    DeviceNotFound,
    /// MSL shader compilation failed.
    CompilationFailed(String),
    /// A GPU buffer could not be allocated.
    BufferCreationFailed,
    /// An encoding operation failed (pipeline not found, slice too short).
    EncodingFailed(String),
    /// A command buffer execution failed or timed out.
    ExecutionFailed(String),
    /// Supplied dimensions or buffer lengths are inconsistent.
    InvalidDimensions(String),
}

/// What a [`MetalGraphError`] says.
pub enum MetalFault {
    /// View of [`MetalGraphError::DeviceNotFound`].
    DeviceNotFound,
    /// View of [`MetalGraphError::CompilationFailed`].
    CompilationFailed(Seq<char>),
    /// View of [`MetalGraphError::BufferCreationFailed`].
    BufferCreationFailed,
    /// View of [`MetalGraphError::EncodingFailed`].
    EncodingFailed(Seq<char>),
    /// View of [`MetalGraphError::ExecutionFailed`].
    ExecutionFailed(Seq<char>),
    /// View of [`MetalGraphError::InvalidDimensions`].
    InvalidDimensions(Seq<char>),
}

impl View for MetalGraphError {
    type V = MetalFault;

    open spec fn view(&self) -> MetalFault {
        match self {
            MetalGraphError::DeviceNotFound => MetalFault::DeviceNotFound,
            MetalGraphError::CompilationFailed(m) => MetalFault::CompilationFailed(m@),
            MetalGraphError::BufferCreationFailed => MetalFault::BufferCreationFailed,
            MetalGraphError::EncodingFailed(m) => MetalFault::EncodingFailed(m@),
            MetalGraphError::ExecutionFailed(m) => MetalFault::ExecutionFailed(m@),
            MetalGraphError::InvalidDimensions(m) => MetalFault::InvalidDimensions(m@),
        }
    }
}

impl MetalFault {
    /// The error as a line of text.
    pub open spec fn text(self) -> Seq<char> {
        match self {
            MetalFault::DeviceNotFound => "no Metal-capable GPU device found"@,
            MetalFault::CompilationFailed(m) => "MSL compilation failed: "@ + m,
            MetalFault::BufferCreationFailed => "Metal buffer allocation failed"@,
            MetalFault::EncodingFailed(m) => "Metal encoding failed: "@ + m,
            MetalFault::ExecutionFailed(m) => "Metal execution failed: "@ + m,
            MetalFault::InvalidDimensions(m) => "Metal invalid dimensions: "@ + m,
        }
    }
}

impl MetalGraphError {
    /// The error as a line of text.
    pub fn message(&self) -> (s: String)
        ensures
            s@ == self@.text(),
    {
        match self {
            MetalGraphError::DeviceNotFound => {
                Msg::new("no Metal-capable GPU device found").done()
            },
            MetalGraphError::CompilationFailed(m) => {
                Msg::new("MSL compilation failed: ").lit(m.as_str()).done()
            },
            MetalGraphError::BufferCreationFailed => {
                Msg::new("Metal buffer allocation failed").done()
            },
            MetalGraphError::EncodingFailed(m) => {
                Msg::new("Metal encoding failed: ").lit(m.as_str()).done()
            },
            MetalGraphError::ExecutionFailed(m) => {
                Msg::new("Metal execution failed: ").lit(m.as_str()).done()
            },
            MetalGraphError::InvalidDimensions(m) => {
                Msg::new("Metal invalid dimensions: ").lit(m.as_str()).done()
            },
        }
    }
}

/// An [`MetalGraphError::EncodingFailed`] with the given message.
pub fn encoding_failed(m: Msg) -> (e: MetalGraphError)
    ensures
        e@ == MetalFault::EncodingFailed(m@),
{
    MetalGraphError::EncodingFailed(m.done())
}

/// An [`MetalGraphError::ExecutionFailed`] with the given message.
pub fn execution_failed(m: Msg) -> (e: MetalGraphError)
    ensures
        e@ == MetalFault::ExecutionFailed(m@),
{
    MetalGraphError::ExecutionFailed(m.done())
}

/// An [`MetalGraphError::InvalidDimensions`] with the given message.
pub fn invalid_dimensions(m: Msg) -> (e: MetalGraphError)
    ensures
        e@ == MetalFault::InvalidDimensions(m@),
{
    MetalGraphError::InvalidDimensions(m.done())
}

/// The outcome of a check: an error exactly when the check names a fault, and
/// then that fault.
pub open spec fn reports<T>(r: Result<T, MetalGraphError>, fault: Option<MetalFault>) -> bool {
    match r {
        Ok(_) => fault is None,
        Err(e) => fault == Some(e@),
    }
}

/// Handle to a weight buffer already resident on the GPU.
#[derive(Debug, Clone, Copy, PartialEq, Eq, Structural)]
pub struct MetalWeightHandle {
    /// Number of the resident buffer.
    pub buffer: u64,
    /// Size of the weight data in bytes.
    pub byte_len: usize,
}

impl MetalWeightHandle {
    /// Size of the weight data in bytes.
    pub fn byte_len(&self) -> (n: usize)
        ensures
            n == self.byte_len,
    {
        self.byte_len
    }
}

} // verus!

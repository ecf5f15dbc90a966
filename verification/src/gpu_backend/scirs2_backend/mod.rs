//! Backend on the GPU contexts of `scirs2_core`: context and kernels, resident
//! weights, reusable buffers, and the device work of each operation.

pub mod backend;
pub mod context;
pub mod device_model;
pub mod memory;
pub mod operations;
pub mod phases;
pub mod steps;
pub mod weights;

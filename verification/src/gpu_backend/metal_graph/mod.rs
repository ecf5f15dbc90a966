//! Direct Metal dispatch: what is allocated, uploaded, encoded and read back.
//!
//! Every `encode_*` function checks its arguments and returns the exact
//! sequence of [`device::Action`]s that carries the operation out; a driver
//! performs the actions on the device in that order.

pub mod acceptance;
pub mod attention;
pub mod buffers;
pub mod convolution;
pub mod convolution_plans;
pub mod device;
pub mod error;
pub mod ffn;
pub mod gemm;
pub mod graph;
pub mod laws;
pub mod machine;
pub mod memory;
pub mod memory_laws;
pub mod memory_model;
pub mod ordering;
pub mod pipelines;
pub mod planes;
pub mod reformat;
pub mod storage;
pub mod vae;
pub mod weights;

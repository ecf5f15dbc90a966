//! Batched prefill: plans that run all prompt tokens through the model.

pub mod causal;
pub mod entry_laws;
pub mod fetching;
pub mod forward;
pub mod functions;
pub mod functions_2;
pub mod geometry;
pub mod laws;
pub mod memory;
pub mod pass;
pub mod types;
pub mod whole_pass;

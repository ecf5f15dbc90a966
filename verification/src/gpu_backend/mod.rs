//! GPU backends: buffers, launch geometry, device plans and backend choice.

pub mod backend;
pub mod backend_laws;
pub mod cpu;
pub mod error;
pub mod launch;
pub mod metal_graph;
pub mod metal_prefill;
pub mod scirs2_backend;
pub mod select;
pub mod stubs;

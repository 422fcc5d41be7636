//! Work for the GPU, described as data: buffers, kernel calls, plans and launches.

pub mod launch;
pub mod launch_laws;
pub mod op;
pub mod op_laws;
pub mod plan;

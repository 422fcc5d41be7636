//! A decoder layer of the talker: its weights, its dimensions and its device plans.

pub mod dims;
pub mod plan;
pub mod laws;
pub mod shapes;
pub mod mlp;
pub mod step_laws;
pub mod call_laws;

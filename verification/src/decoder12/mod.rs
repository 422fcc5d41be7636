//! The 12 Hz decoder on the host: its dimensions, its tensors and its index work.

pub mod config;
pub mod index;
pub mod parts;
pub mod part_laws;

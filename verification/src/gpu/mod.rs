//! Decisions around the calls into the ROCm libraries.

pub mod blas;
pub mod buffer;
pub mod library;
pub mod profile;
pub mod status;

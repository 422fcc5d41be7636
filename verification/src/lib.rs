//! The host-side logic of a Qwen3 text-to-speech runtime for AMD GPUs.

pub mod archive;
pub mod codec;
pub mod decoder12;
pub mod device;
pub mod error;
pub mod file_laws;
pub mod fixtures;
pub mod generation;
pub mod gpu;
pub mod host_laws;
pub mod layer;
mod lists;
pub mod npy;
pub mod numbers;
pub mod scan;
pub mod server;
pub mod tensor;
pub mod text;
pub mod text_laws;
pub mod wav;

//! The fixed dimensions of the 12 Hz speech codec.

use vstd::prelude::*;

verus! {

/// Codes per frame.
pub const CODE_GROUPS: usize = 16;

/// Entries per codebook.
pub const CODEBOOK_SIZE: usize = 2048;

/// Width of a codebook entry.
pub const CODEBOOK_DIM: usize = 256;

/// Width of a projected codebook entry.
pub const PROJECTED_DIM: usize = 512;

/// Output channels of the convolution in front of the transformer.
pub const PRE_CONV_OUT: usize = 1024;

pub const PRE_CONV_KERNEL: usize = 3;

pub const PRE_CONV_PADDING: usize = 2;

pub const TRANSFORMER_HIDDEN: usize = 512;

pub const TRANSFORMER_LAYERS: usize = 8;

pub const TRANSFORMER_HEADS: usize = 16;

pub const TRANSFORMER_HEAD_DIM: usize = 64;

/// All heads side by side.
pub const TRANSFORMER_Q_OUT: usize = 1024;

pub const TRANSFORMER_INTERMEDIATE: usize = 1024;

/// The bits of the transformer's norm epsilon, `1e-5`.
pub const TRANSFORMER_EPSILON: u32 = 0x3727_c5ac;

/// The bits of the rotary base, ten thousand.
pub const TRANSFORMER_THETA: u32 = 0x461c_4000;

/// The bits of one over the square root of the head width, one eighth.
pub const TRANSFORMER_SCALE: u32 = 0x3e00_0000;

pub const UPSAMPLE_CHANNELS: usize = 1024;

pub const UPSAMPLE_RATIO: usize = 2;

pub const UPSAMPLE_STAGES: usize = 2;

pub const CONVNEXT_KERNEL: usize = 7;

pub const CONVNEXT_PADDING: usize = 6;

pub const CONVNEXT_INTERMEDIATE: usize = 4096;

pub const DECODER_BLOCKS: usize = 4;

pub const DECODER_INIT_CHANNELS: usize = 1536;

pub const DECODER_FINAL_CHANNELS: usize = 96;

pub const DECODER_INIT_KERNEL: usize = 7;

pub const DECODER_FINAL_KERNEL: usize = 7;

pub const RESIDUAL_KERNEL: usize = 7;

pub const RESIDUAL_POINTWISE_KERNEL: usize = 1;

/// Samples per code frame: the product of all upsampling ratios.
pub const SAMPLES_PER_FRAME: usize = 1920;

} // verus!

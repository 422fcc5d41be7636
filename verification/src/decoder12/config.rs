//! The dimensions of the decoder.

use vstd::prelude::*;

verus! {

/// What the configuration file of a speech tokenizer says of its decoder. Floating-point
/// entries are given by their 64 bits.
#[derive(Debug)]
pub struct SpeechDecoderConfig {
    pub latent_dim: usize,
    pub codebook_size: usize,
    pub decoder_dim: usize,
    pub hidden_size: usize,
    pub intermediate_size: usize,
    pub head_dim: usize,
    pub num_attention_heads: usize,
    pub num_hidden_layers: usize,
    pub num_quantizers: usize,
    pub rms_norm_eps: u64,
    pub rope_theta: u64,
    pub upsample_rates: Vec<usize>,
    pub upsampling_ratios: Vec<usize>,
    pub vector_quantization_hidden_dimension: usize,
}

/// The dimensions of the decoder. Floating-point entries are given by their 64 bits.
#[derive(Debug)]
pub struct Decoder12HzConfig {
    pub codebook_dim: usize,
    pub projected_dim: usize,
    pub latent_dim: usize,
    pub transformer_dim: usize,
    pub transformer_layers: usize,
    pub transformer_heads: usize,
    pub transformer_head_dim: usize,
    pub transformer_intermediate: usize,
    pub rms_norm_eps: u64,
    pub rope_theta: u64,
    pub upsampling_ratios: Vec<usize>,
    pub decoder_dim: usize,
    pub decoder_upsample_rates: Vec<usize>,
    pub num_quantizers: usize,
    pub codebook_size: usize,
}

/// The channels behind `blocks` blocks, each of which halves them.
pub open spec fn halved(channels: nat, blocks: nat) -> nat
    decreases blocks,
{
    if blocks == 0 {
        channels
    } else {
        halved(channels, (blocks - 1) as nat) / 2
    }
}

impl Decoder12HzConfig {
    /// The dimensions that a configuration file leads to. The width of a codebook entry is
    /// always 256: that is what the codebooks and their projections have, though the file
    /// may name another number.
    pub fn from_speech_config(decoder: SpeechDecoderConfig) -> (config: Decoder12HzConfig)
        ensures
            config.codebook_dim == 256,
            config.projected_dim == decoder.vector_quantization_hidden_dimension,
            config.latent_dim == decoder.latent_dim,
            config.transformer_dim == decoder.hidden_size,
            config.transformer_layers == decoder.num_hidden_layers,
            config.transformer_heads == decoder.num_attention_heads,
            config.transformer_head_dim == decoder.head_dim,
            config.transformer_intermediate == decoder.intermediate_size,
            config.rms_norm_eps == decoder.rms_norm_eps,
            config.rope_theta == decoder.rope_theta,
            config.upsampling_ratios == decoder.upsampling_ratios,
            config.decoder_dim == decoder.decoder_dim,
            config.decoder_upsample_rates == decoder.upsample_rates,
            config.num_quantizers == decoder.num_quantizers,
            config.codebook_size == decoder.codebook_size,
    {
        Decoder12HzConfig {
            codebook_dim: 256,
            projected_dim: decoder.vector_quantization_hidden_dimension,
            latent_dim: decoder.latent_dim,
            transformer_dim: decoder.hidden_size,
            transformer_layers: decoder.num_hidden_layers,
            transformer_heads: decoder.num_attention_heads,
            transformer_head_dim: decoder.head_dim,
            transformer_intermediate: decoder.intermediate_size,
            rms_norm_eps: decoder.rms_norm_eps,
            rope_theta: decoder.rope_theta,
            upsampling_ratios: decoder.upsampling_ratios,
            decoder_dim: decoder.decoder_dim,
            decoder_upsample_rates: decoder.upsample_rates,
            num_quantizers: decoder.num_quantizers,
            codebook_size: decoder.codebook_size,
        }
    }

    /// The input and output channels of every block.
    pub fn decoder_block_channels(&self) -> (channels: Vec<(usize, usize)>)
        ensures
            channels@.len() == self.decoder_upsample_rates@.len(),
            forall|i: int|
                0 <= i < channels@.len() ==> {
                    &&& (#[trigger] channels@[i]).0 == halved(self.decoder_dim as nat, i as nat)
                    &&& channels@[i].1 == halved(self.decoder_dim as nat, (i + 1) as nat)
                },
    {
        let blocks: usize = self.decoder_upsample_rates.len();
        let mut list: Vec<(usize, usize)> = Vec::new();
        let mut channels: usize = self.decoder_dim;
        let mut index: usize = 0;
        while index < blocks
            invariant
                index <= blocks,
                list@.len() == index,
                channels == halved(self.decoder_dim as nat, index as nat),
                forall|i: int|
                    0 <= i < index ==> {
                        &&& (#[trigger] list@[i]).0 == halved(self.decoder_dim as nat, i as nat)
                        &&& list@[i].1 == halved(self.decoder_dim as nat, (i + 1) as nat)
                    },
            decreases blocks - index,
        {
            list.push((channels, channels / 2));
            channels = channels / 2;
            index += 1;
        }
        list
    }

    /// The channels behind the last block.
    pub fn final_decoder_channels(&self) -> (channels: usize)
        ensures
            channels == halved(
                self.decoder_dim as nat,
                self.decoder_upsample_rates@.len(),
            ),
    {
        let list: Vec<(usize, usize)> = self.decoder_block_channels();
        if list.len() == 0 {
            self.decoder_dim
        } else {
            list[list.len() - 1].1
        }
    }

    /// The width of all attention heads side by side.
    pub fn attention_width(&self) -> (width: usize)
        requires
            self.transformer_heads * self.transformer_head_dim <= usize::MAX,
        ensures
            width == self.transformer_heads * self.transformer_head_dim,
    {
        self.transformer_heads * self.transformer_head_dim
    }
}

/// The output frames that are cut off behind a transposed convolution.
pub open spec fn right_trim_of(kernel_size: int, stride: int) -> int {
    if kernel_size >= stride {
        kernel_size - stride
    } else {
        0
    }
}

/// The output frames that are cut off behind a transposed convolution.
pub fn right_trim(kernel_size: usize, stride: usize) -> (trim: usize)
    ensures
        trim == right_trim_of(kernel_size as int, stride as int),
{
    if kernel_size >= stride {
        kernel_size - stride
    } else {
        0
    }
}

/// The output frames that are kept.
pub fn kept_length(length: usize, trim: usize) -> (kept: usize)
    ensures
        kept == if length >= trim {
            length - trim
        } else {
            0
        },
{
    if length >= trim {
        length - trim
    } else {
        0
    }
}

/// A transposed convolution gives `(frames - 1) * stride + kernel` frames. Where its kernel
/// is at least as long as its stride, what is kept of them is exactly `stride` frames for
/// every input frame.
pub proof fn upsampling_is_exact(frames: int, kernel_size: int, stride: int)
    requires
        frames > 0,
        0 < stride <= kernel_size,
    ensures
        (frames - 1) * stride + kernel_size - right_trim_of(kernel_size, stride) == frames
            * stride,
{
    assert((frames - 1) * stride + stride == frames * stride) by (nonlinear_arith);
}

} // verus!

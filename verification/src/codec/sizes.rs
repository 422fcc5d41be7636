//! How many elements each tensor of the codec has.

use vstd::prelude::*;

use crate::device::op::{LayerWeight, Operand, ResidualWeight, UpsampleWeight, Weight};

verus! {

/// The input channels, output channels and stride of decoder block `block`.
pub open spec fn block_dims(block: int) -> (usize, usize, usize) {
    if block == 0 {
        (1536, 768, 8)
    } else if block == 1 {
        (768, 384, 5)
    } else if block == 2 {
        (384, 192, 4)
    } else {
        (192, 96, 3)
    }
}

/// The number of elements of a tensor of a transformer layer.
pub open spec fn layer_len(part: LayerWeight) -> nat {
    match part {
        LayerWeight::Query | LayerWeight::Key | LayerWeight::Value | LayerWeight::Output => (512
            * 1024) as nat,
        LayerWeight::Gate | LayerWeight::Up | LayerWeight::Down => (512 * 1024) as nat,
        _ => 512,
    }
}

/// The number of elements of a tensor of an upsampling stage.
pub open spec fn upsample_len(part: UpsampleWeight) -> nat {
    match part {
        UpsampleWeight::TransWeight => (1024 * 1024 * 2) as nat,
        UpsampleWeight::DepthwiseWeight => (1024 * 7) as nat,
        UpsampleWeight::Pointwise1Weight | UpsampleWeight::Pointwise2Weight => (1024
            * 4096) as nat,
        UpsampleWeight::Pointwise1Bias => 4096,
        _ => 1024,
    }
}

/// The number of elements of a tensor of a residual unit on `channels` channels.
pub open spec fn residual_len(channels: usize, part: ResidualWeight) -> nat {
    match part {
        ResidualWeight::Conv1Weight => (channels * channels * 7) as nat,
        ResidualWeight::Conv2Weight => (channels * channels) as nat,
        _ => channels as nat,
    }
}

/// The number of elements of a tensor of the model.
pub open spec fn weight_len(w: Weight) -> nat {
    match w {
        Weight::FirstCodebook => (2048 * 256) as nat,
        Weight::RestCodebooks => (15 * 2048 * 256) as nat,
        Weight::FirstProjection | Weight::RestProjection => (512 * 256) as nat,
        Weight::PreConvWeight => (1024 * 512 * 3) as nat,
        Weight::PreConvBias => 1024,
        Weight::InputProjection | Weight::OutputProjection => (1024 * 512) as nat,
        Weight::InputBias | Weight::FinalNorm => 512,
        Weight::OutputBias => 1024,
        Weight::Layer { part, .. } => layer_len(part),
        Weight::Upsample { tensor, .. } => upsample_len(tensor),
        Weight::DecoderInitWeight => (1536 * 1024 * 7) as nat,
        Weight::DecoderInitBias => 1536,
        Weight::BlockAlpha { block } => block_dims(block as int).0 as nat,
        Weight::BlockBeta { block } => block_dims(block as int).0 as nat,
        Weight::BlockTransWeight { block } => {
            let (input, output, stride) = block_dims(block as int);
            (input * output * (stride * 2)) as nat
        },
        Weight::BlockTransBias { block } => block_dims(block as int).1 as nat,
        Weight::Residual { block, role, .. } => residual_len(block_dims(block as int).1, role),
        Weight::FinalAlpha | Weight::FinalBeta => 96,
        Weight::FinalConvWeight => (96 * 7) as nat,
        Weight::FinalConvBias => 1,
    }
}

/// The number of elements of the buffers that a plan does not make itself, where
/// `input` are the lengths of the caller's.
pub open spec fn outer_len(input: Seq<nat>) -> spec_fn(Operand) -> nat {
    |o: Operand|
        match o {
            Operand::Input(i) => if i < input.len() {
                input[i as int]
            } else {
                0
            },
            Operand::Weight(w) => weight_len(w),
            Operand::Scratch(_) => 0,
        }
}

} // verus!

//! The waveform decoder, as a device plan.

use vstd::prelude::*;

use crate::codec::dims::{
    DECODER_FINAL_CHANNELS, DECODER_FINAL_KERNEL, DECODER_INIT_CHANNELS, DECODER_INIT_KERNEL,
    PRE_CONV_OUT, RESIDUAL_KERNEL, RESIDUAL_POINTWISE_KERNEL,
};
use crate::codec::sizes;
use crate::device::op::{Call, Inputs, Op, Operand, ResidualWeight, Weight};
use crate::device::op;
use crate::device::plan::Plan;

verus! {

/// The buffers that the decoder leaves behind, and their frame counts.
#[derive(Clone, Copy, PartialEq, Eq, Structural, Debug)]
pub struct HipCodecDecoderOutputs {
    pub decoder_0: Operand,
    pub decoder_1: Operand,
    pub decoder_2: Operand,
    pub decoder_3: Operand,
    pub decoder_4: Operand,
    pub decoder_5: Operand,
    pub decoder_6: Operand,
    pub waveform: Operand,
    pub frames_0: usize,
    pub frames_1: usize,
    pub frames_2: usize,
    pub frames_3: usize,
    pub frames_4: usize,
}

/// The zero frames that a causal convolution puts in front of its input.
pub open spec fn causal_padding_of(kernel_size: usize, dilation: usize) -> int {
    if kernel_size == 0 {
        0
    } else {
        dilation * (kernel_size - 1)
    }
}

/// The zero frames that a causal convolution puts in front of its input.
pub fn causal_padding(kernel_size: usize, dilation: usize) -> (padding: usize)
    requires
        causal_padding_of(kernel_size, dilation) <= usize::MAX,
    ensures
        padding == causal_padding_of(kernel_size, dilation),
{
    if kernel_size == 0 {
        0
    } else {
        dilation * (kernel_size - 1)
    }
}

/// The input channels, output channels and stride of decoder block `block`.
pub fn block_channels(block: usize) -> (dims: (usize, usize, usize))
    ensures
        dims == sizes::block_dims(block as int),
{
    if block == 0 {
        (1536, 768, 8)
    } else if block == 1 {
        (768, 384, 5)
    } else if block == 2 {
        (384, 192, 4)
    } else {
        (192, 96, 3)
    }
}

/// The dilation of residual unit `unit` of a block.
pub open spec fn unit_dilation(unit: int) -> usize {
    if unit == 0 {
        1
    } else if unit == 1 {
        3
    } else {
        9
    }
}

pub open spec fn unit_weight(block: usize, unit: usize, role: ResidualWeight) -> Operand {
    Operand::Weight(Weight::Residual { block, unit, role })
}

pub open spec fn dilated(
    frames: usize,
    in_channels: usize,
    out_channels: usize,
    kernel_size: usize,
    dilation: usize,
) -> Call {
    Call::DilatedConv1d {
        frames,
        in_channels,
        out_channels,
        kernel_size,
        dilation,
        causal_padding: causal_padding_of(kernel_size, dilation) as usize,
    }
}

/// The scratch buffers of a residual unit.
pub open spec fn unit_buffers(channels: usize, frames: usize) -> Seq<Op> {
    let buffer = op::make(channels * frames);
    seq![buffer, buffer, buffer, buffer]
}

/// The steps of a residual unit behind its allocations, numbered from `base` on.
pub open spec fn unit_steps(
    base: usize,
    block: usize,
    unit: usize,
    channels: usize,
    frames: usize,
    input: Operand,
    output: Operand,
) -> Seq<Op> {
    let act1 = op::scratch(base);
    let conv1 = op::scratch((base + 1) as usize);
    let act2 = op::scratch((base + 2) as usize);
    let conv2 = op::scratch((base + 3) as usize);
    let snake = Call::SnakeBeta { channels, frames };
    seq![
        op::run3(
            snake,
            input,
            unit_weight(block, unit, ResidualWeight::Alpha1),
            unit_weight(block, unit, ResidualWeight::Beta1),
            act1,
        ),
        op::run3(
            dilated(frames, channels, channels, RESIDUAL_KERNEL, unit_dilation(unit as int)),
            act1,
            unit_weight(block, unit, ResidualWeight::Conv1Weight),
            unit_weight(block, unit, ResidualWeight::Conv1Bias),
            conv1,
        ),
        op::run3(
            snake,
            conv1,
            unit_weight(block, unit, ResidualWeight::Alpha2),
            unit_weight(block, unit, ResidualWeight::Beta2),
            act2,
        ),
        op::run3(
            dilated(frames, channels, channels, RESIDUAL_POINTWISE_KERNEL, 1),
            act2,
            unit_weight(block, unit, ResidualWeight::Conv2Weight),
            unit_weight(block, unit, ResidualWeight::Conv2Bias),
            conv2,
        ),
        op::run2(
            Call::ResidualAdd { total: (channels * frames) as usize },
            input,
            conv2,
            output,
        ),
    ]
}

/// All steps of a residual unit.
pub open spec fn unit_ops(
    base: usize,
    block: usize,
    unit: usize,
    channels: usize,
    frames: usize,
    input: Operand,
    output: Operand,
) -> Seq<Op> {
    unit_buffers(channels, frames) + unit_steps(
        base,
        block,
        unit,
        channels,
        frames,
        input,
        output,
    )
}

/// The steps of a block in front of its first residual unit, with scratch buffers from
/// `base` on: the activation, the transposed convolution and the buffer of the unit.
pub open spec fn block_head(base: usize, block: usize, in_frames: usize, input: Operand) -> Seq<
    Op,
> {
    let (in_channels, out_channels, stride) = sizes::block_dims(block as int);
    let out_frames = (in_frames * stride) as usize;
    let snake = op::scratch(base);
    let trans = op::scratch((base + 1) as usize);
    seq![
        op::make(in_channels * in_frames),
        op::run3(
            Call::SnakeBeta { channels: in_channels, frames: in_frames },
            input,
            Operand::Weight(Weight::BlockAlpha { block }),
            Operand::Weight(Weight::BlockBeta { block }),
            snake,
        ),
        op::make(out_channels * out_frames),
        op::run3(
            Call::TransConvChannels {
                in_frames,
                out_frames,
                in_channels,
                out_channels,
                kernel_size: (stride * 2) as usize,
                stride,
            },
            snake,
            Operand::Weight(Weight::BlockTransWeight { block }),
            Operand::Weight(Weight::BlockTransBias { block }),
            trans,
        ),
        op::make(out_channels * out_frames),
    ]
}

/// All steps of a decoder block, with scratch buffers from `base` on.
pub open spec fn block_ops(
    base: usize,
    block: usize,
    in_frames: usize,
    input: Operand,
    output: Operand,
) -> Seq<Op> {
    let (in_channels, out_channels, stride) = sizes::block_dims(block as int);
    let out_frames = (in_frames * stride) as usize;
    let trans = op::scratch((base + 1) as usize);
    let res1 = op::scratch((base + 2) as usize);
    let res2 = op::scratch((base + 7) as usize);
    block_head(base, block, in_frames, input) + unit_ops(
        (base + 3) as usize,
        block,
        0,
        out_channels,
        out_frames,
        trans,
        res1,
    ) + seq![op::make(out_channels * out_frames)] + unit_ops(
        (base + 8) as usize,
        block,
        1,
        out_channels,
        out_frames,
        res1,
        res2,
    ) + unit_ops((base + 12) as usize, block, 2, out_channels, out_frames, res2, output)
}

/// The number of scratch buffers of a block.
pub const BLOCK_BUFFERS: usize = 16;

/// The number of output frames per input frame behind the first `count` blocks.
pub open spec fn ratio(count: int) -> int {
    if count <= 0 {
        1
    } else if count == 1 {
        8
    } else if count == 2 {
        40
    } else if count == 3 {
        160
    } else {
        480
    }
}

/// The buffer that stage `stage` of the decoder leaves behind.
pub open spec fn stage_buffer(stage: int) -> Operand {
    op::scratch(
        if stage == 0 {
            0
        } else {
            (17 * stage - 16) as usize
        },
    )
}

/// The convolution in front of the blocks.
pub open spec fn decoder_head(frames: usize) -> Seq<Op> {
    seq![
        op::make(DECODER_INIT_CHANNELS * frames),
        op::run3(
            dilated(frames, PRE_CONV_OUT, DECODER_INIT_CHANNELS, DECODER_INIT_KERNEL, 1),
            Operand::Input(0),
            Operand::Weight(Weight::DecoderInitWeight),
            Operand::Weight(Weight::DecoderInitBias),
            op::scratch(0),
        ),
    ]
}

/// Block `block` with its result buffer, on `frames` codec frames.
pub open spec fn block_stage(block: usize, frames: usize) -> Seq<Op> {
    let in_frames = (frames * ratio(block as int)) as usize;
    let out_channels = sizes::block_dims(block as int).1;
    seq![op::make(out_channels * (frames * ratio(block + 1)))] + block_ops(
        (17 * block + 2) as usize,
        block,
        in_frames,
        stage_buffer(block as int),
        stage_buffer(block + 1),
    )
}

/// The steps of the first `count` blocks.
pub open spec fn blocks_ops(count: nat, frames: usize) -> Seq<Op>
    decreases count,
{
    if count == 0 {
        Seq::empty()
    } else {
        blocks_ops((count - 1) as nat, frames) + block_stage((count - 1) as usize, frames)
    }
}

/// The steps behind the blocks, on `samples` samples.
pub open spec fn decoder_tail(samples: usize) -> Seq<Op> {
    seq![
        op::make(DECODER_FINAL_CHANNELS * samples),
        op::run3(
            Call::SnakeBeta { channels: DECODER_FINAL_CHANNELS, frames: samples },
            stage_buffer(4),
            Operand::Weight(Weight::FinalAlpha),
            Operand::Weight(Weight::FinalBeta),
            op::scratch(69),
        ),
        op::make(samples as int),
        op::run3(
            dilated(samples, DECODER_FINAL_CHANNELS, 1, DECODER_FINAL_KERNEL, 1),
            op::scratch(69),
            Operand::Weight(Weight::FinalConvWeight),
            Operand::Weight(Weight::FinalConvBias),
            op::scratch(70),
        ),
        op::make(samples as int),
        op::run1(Call::Clamp { total: samples }, op::scratch(70), op::scratch(71)),
    ]
}

/// All steps of the decoder on `frames` frames.
pub open spec fn decoder_ops(frames: usize) -> Seq<Op> {
    decoder_head(frames) + blocks_ops(4, frames) + decoder_tail((frames * 480) as usize)
}

/// What the decoder leaves behind.
pub open spec fn decoder_outputs(frames: usize) -> HipCodecDecoderOutputs {
    HipCodecDecoderOutputs {
        decoder_0: stage_buffer(0),
        decoder_1: stage_buffer(1),
        decoder_2: stage_buffer(2),
        decoder_3: stage_buffer(3),
        decoder_4: stage_buffer(4),
        decoder_5: op::scratch(69),
        decoder_6: op::scratch(70),
        waveform: op::scratch(71),
        frames_0: frames,
        frames_1: (frames * 8) as usize,
        frames_2: (frames * 40) as usize,
        frames_3: (frames * 160) as usize,
        frames_4: (frames * 480) as usize,
    }
}

/// Adds a causal convolution.
fn run_causal_conv(
    plan: &mut Plan,
    input: Operand,
    weight: Weight,
    bias: Weight,
    output: Operand,
    frames: usize,
    in_channels: usize,
    out_channels: usize,
    kernel_size: usize,
    dilation: usize,
)
    requires
        old(plan).wf(),
        causal_padding_of(kernel_size, dilation) <= usize::MAX,
    ensures
        final(plan).wf(),
        final(plan).buffers == old(plan).buffers,
        final(plan)@ == old(plan)@.push(
            op::run3(
                dilated(frames, in_channels, out_channels, kernel_size, dilation),
                input,
                Operand::Weight(weight),
                Operand::Weight(bias),
                output,
            ),
        ),
{
    let padding: usize = causal_padding(kernel_size, dilation);
    plan.run(
        Call::DilatedConv1d {
            frames,
            in_channels,
            out_channels,
            kernel_size,
            dilation,
            causal_padding: padding,
        },
        Inputs::Three(input, Operand::Weight(weight), Operand::Weight(bias)),
        output,
    );
}

/// Adds a residual unit.
fn run_residual_unit(
    plan: &mut Plan,
    block: usize,
    unit: usize,
    channels: usize,
    frames: usize,
    input: Operand,
    output: Operand,
)
    requires
        old(plan).wf(),
        old(plan).buffers <= usize::MAX - 4,
        channels * frames <= usize::MAX,
    ensures
        final(plan).wf(),
        final(plan).buffers == old(plan).buffers + 4,
        final(plan)@ == old(plan)@ + unit_ops(
            old(plan).buffers,
            block,
            unit,
            channels,
            frames,
            input,
            output,
        ),
{
    let ghost before = plan@;
    let dilation: usize = if unit == 0 {
        1
    } else if unit == 1 {
        3
    } else {
        9
    };
    let len: usize = channels * frames;
    let act1 = plan.scratch(len);
    let conv1 = plan.scratch(len);
    let act2 = plan.scratch(len);
    let conv2 = plan.scratch(len);
    let snake = Call::SnakeBeta { channels, frames };
    let alpha1 = Operand::Weight(Weight::Residual { block, unit, role: ResidualWeight::Alpha1 });
    let beta1 = Operand::Weight(Weight::Residual { block, unit, role: ResidualWeight::Beta1 });
    plan.run(snake, Inputs::Three(input, alpha1, beta1), act1);
    run_causal_conv(
        plan,
        act1,
        Weight::Residual { block, unit, role: ResidualWeight::Conv1Weight },
        Weight::Residual { block, unit, role: ResidualWeight::Conv1Bias },
        conv1,
        frames,
        channels,
        channels,
        RESIDUAL_KERNEL,
        dilation,
    );
    let alpha2 = Operand::Weight(Weight::Residual { block, unit, role: ResidualWeight::Alpha2 });
    let beta2 = Operand::Weight(Weight::Residual { block, unit, role: ResidualWeight::Beta2 });
    plan.run(snake, Inputs::Three(conv1, alpha2, beta2), act2);
    run_causal_conv(
        plan,
        act2,
        Weight::Residual { block, unit, role: ResidualWeight::Conv2Weight },
        Weight::Residual { block, unit, role: ResidualWeight::Conv2Bias },
        conv2,
        frames,
        channels,
        channels,
        RESIDUAL_POINTWISE_KERNEL,
        1,
    );
    plan.run(Call::ResidualAdd { total: len }, Inputs::Two(input, conv2), output);
    proof {
        assert(plan@ =~= before + unit_ops(
            old(plan).buffers,
            block,
            unit,
            channels,
            frames,
            input,
            output,
        ));
    }
}

/// Adds a decoder block.
fn run_decoder_block(
    plan: &mut Plan,
    block: usize,
    in_frames: usize,
    input: Operand,
    output: Operand,
)
    requires
        old(plan).wf(),
        old(plan).buffers <= usize::MAX - 16,
        block_fits(block as int, in_frames as int),
    ensures
        final(plan).wf(),
        final(plan).buffers == old(plan).buffers + BLOCK_BUFFERS,
        final(plan)@ == old(plan)@ + block_ops(
            old(plan).buffers,
            block,
            in_frames,
            input,
            output,
        ),
{
    let ghost before = plan@;
    let ghost base = plan.buffers;
    let (in_channels, out_channels, stride) = block_channels(block);
    let snake = plan.scratch(in_channels * in_frames);
    plan.run(
        Call::SnakeBeta { channels: in_channels, frames: in_frames },
        Inputs::Three(
            input,
            Operand::Weight(Weight::BlockAlpha { block }),
            Operand::Weight(Weight::BlockBeta { block }),
        ),
        snake,
    );
    let out_frames: usize = in_frames * stride;
    let out_len: usize = out_channels * out_frames;
    let trans = plan.scratch(out_len);
    plan.run(
        Call::TransConvChannels {
            in_frames,
            out_frames,
            in_channels,
            out_channels,
            kernel_size: stride * 2,
            stride,
        },
        Inputs::Three(
            snake,
            Operand::Weight(Weight::BlockTransWeight { block }),
            Operand::Weight(Weight::BlockTransBias { block }),
        ),
        trans,
    );
    let res1 = plan.scratch(out_len);
    proof {
        assert(plan@ =~= before + block_head(base, block, in_frames, input));
    }
    run_residual_unit(plan, block, 0, out_channels, out_frames, trans, res1);
    let ghost middle = plan@;
    let res2 = plan.scratch(out_len);
    proof {
        assert(plan@ =~= middle + seq![op::make(out_channels * out_frames)]);
    }
    run_residual_unit(plan, block, 1, out_channels, out_frames, res1, res2);
    run_residual_unit(plan, block, 2, out_channels, out_frames, res2, output);
    proof {
        assert(plan@ =~= before + block_ops(base, block, in_frames, input, output));
    }
}

/// Adds block `block` and its result buffer.
fn run_block_stage(plan: &mut Plan, block: usize, frames: usize, in_frames: usize, input: Operand)
    -> (result: (Operand, usize))
    requires
        old(plan).wf(),
        old(plan).buffers == 17 * block + 1,
        block < 4,
        frames * 46080 <= usize::MAX,
        in_frames == frames * ratio(block as int),
        input == stage_buffer(block as int),
    ensures
        final(plan).wf(),
        final(plan).buffers == 17 * block + 18,
        final(plan)@ == old(plan)@ + block_stage(block, frames),
        result.0 == stage_buffer(block + 1),
        result.1 == frames * ratio(block + 1),
{
    let ghost before = plan@;
    let (_, out_channels, stride) = block_channels(block);
    proof {
        lemma_block_fits(block as int, frames as int);
    }
    let out_frames: usize = in_frames * stride;
    let output = plan.scratch(out_channels * out_frames);
    run_decoder_block(plan, block, in_frames, input, output);
    proof {
        assert(plan@ =~= before + block_stage(block, frames));
    }
    (output, out_frames)
}

/// The buffer sizes of block `block` fit in a machine word.
pub open spec fn block_fits(block: int, in_frames: int) -> bool {
    let (in_channels, out_channels, stride) = sizes::block_dims(block);
    &&& in_channels * in_frames <= usize::MAX
    &&& in_frames * stride <= usize::MAX
    &&& out_channels * (in_frames * stride) <= usize::MAX
}

/// Every block fits where the last one's result does, and each block multiplies the
/// frames by its stride.
pub proof fn lemma_block_fits(block: int, frames: int)
    requires
        0 <= block < 4,
        0 <= frames,
        frames * 46080 <= usize::MAX,
    ensures
        block_fits(block, frames * ratio(block)),
        frames * ratio(block) * sizes::block_dims(block).2 == frames * ratio(block + 1),
{
    assert(block == 0 || block == 1 || block == 2 || block == 3);
    assert(768 * (frames * 1 * 8) == 6144 * frames);
    assert(384 * (frames * 8 * 5) == 15360 * frames);
    assert(192 * (frames * 40 * 4) == 30720 * frames);
    assert(96 * (frames * 160 * 3) == 46080 * frames);
}

/// One more block behind `front` and the blocks before it.
proof fn lemma_blocks_grow(front: Seq<Op>, count: nat, frames: usize)
    requires
        count < 4,
    ensures
        front + blocks_ops(count, frames) + block_stage(count as usize, frames) == front
            + blocks_ops((count + 1) as nat, frames),
{
    let blocks = blocks_ops(count, frames);
    let stage = block_stage(count as usize, frames);
    assert(front + blocks + stage =~= front + (blocks + stage));
}

/// Adds the four blocks and gives, for each, its result buffer and frame count.
fn run_blocks(plan: &mut Plan, frames: usize, decoder_0: Operand) -> (results: [(
    Operand,
    usize,
); 4])
    requires
        old(plan).wf(),
        old(plan).buffers == 1,
        frames * 46080 <= usize::MAX,
        decoder_0 == stage_buffer(0),
    ensures
        final(plan).wf(),
        final(plan).buffers == 69,
        final(plan)@ == old(plan)@ + blocks_ops(4, frames),
        results@ == seq![
            (stage_buffer(1), (frames * 8) as usize),
            (stage_buffer(2), (frames * 40) as usize),
            (stage_buffer(3), (frames * 160) as usize),
            (stage_buffer(4), (frames * 480) as usize),
        ],
{
    let ghost front = plan@;
    proof {
        assert(front + blocks_ops(0, frames) =~= front);
    }
    let first = run_block_stage(plan, 0, frames, frames, decoder_0);
    proof {
        lemma_blocks_grow(front, 0, frames);
    }
    let second = run_block_stage(plan, 1, frames, first.1, first.0);
    proof {
        lemma_blocks_grow(front, 1, frames);
    }
    let third = run_block_stage(plan, 2, frames, second.1, second.0);
    proof {
        lemma_blocks_grow(front, 2, frames);
    }
    let fourth = run_block_stage(plan, 3, frames, third.1, third.0);
    proof {
        lemma_blocks_grow(front, 3, frames);
    }
    [first, second, third, fourth]
}

/// Adds the steps behind the blocks and gives their three result buffers.
fn run_tail(plan: &mut Plan, decoder_4: Operand, samples: usize) -> (results: (
    Operand,
    Operand,
    Operand,
))
    requires
        old(plan).wf(),
        old(plan).buffers == 69,
        decoder_4 == stage_buffer(4),
        DECODER_FINAL_CHANNELS * samples <= usize::MAX,
    ensures
        final(plan).wf(),
        final(plan)@ == old(plan)@ + decoder_tail(samples),
        results == (op::scratch(69), op::scratch(70), op::scratch(71)),
{
    let ghost body = plan@;
    let decoder_5 = plan.scratch(DECODER_FINAL_CHANNELS * samples);
    plan.run(
        Call::SnakeBeta { channels: DECODER_FINAL_CHANNELS, frames: samples },
        Inputs::Three(
            decoder_4,
            Operand::Weight(Weight::FinalAlpha),
            Operand::Weight(Weight::FinalBeta),
        ),
        decoder_5,
    );
    let decoder_6 = plan.scratch(samples);
    run_causal_conv(
        plan,
        decoder_5,
        Weight::FinalConvWeight,
        Weight::FinalConvBias,
        decoder_6,
        samples,
        DECODER_FINAL_CHANNELS,
        1,
        DECODER_FINAL_KERNEL,
        1,
    );
    let waveform = plan.scratch(samples);
    plan.run(Call::Clamp { total: samples }, Inputs::One(decoder_6), waveform);
    proof {
        assert(plan@ =~= body + decoder_tail(samples));
    }
    (decoder_5, decoder_6, waveform)
}

/// The plan of the decoder on `frames` frames.
pub fn decoder_plan(frames: usize) -> (planned: (Plan, HipCodecDecoderOutputs))
    requires
        frames * 46080 <= usize::MAX,
    ensures
        planned.0.wf(),
        planned.0@ == decoder_ops(frames),
        planned.1 == decoder_outputs(frames),
{
    let mut plan = Plan::new();
    let decoder_0 = plan.scratch(DECODER_INIT_CHANNELS * frames);
    run_causal_conv(
        &mut plan,
        Operand::Input(0),
        Weight::DecoderInitWeight,
        Weight::DecoderInitBias,
        decoder_0,
        frames,
        PRE_CONV_OUT,
        DECODER_INIT_CHANNELS,
        DECODER_INIT_KERNEL,
        1,
    );
    proof {
        assert(plan@ =~= decoder_head(frames));
    }
    let stages: [(Operand, usize); 4] = run_blocks(&mut plan, frames, decoder_0);
    let (decoder_1, frames_1) = stages[0];
    let (decoder_2, frames_2) = stages[1];
    let (decoder_3, frames_3) = stages[2];
    let (decoder_4, frames_4) = stages[3];
    let (decoder_5, decoder_6, waveform) = run_tail(&mut plan, decoder_4, frames_4);
    (
        plan,
        HipCodecDecoderOutputs {
            decoder_0,
            decoder_1,
            decoder_2,
            decoder_3,
            decoder_4,
            decoder_5,
            decoder_6,
            waveform,
            frames_0: frames,
            frames_1,
            frames_2,
            frames_3,
            frames_4,
        },
    )
}

} // verus!

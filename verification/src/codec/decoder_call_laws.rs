//! What the calls of the decoder are told, and what each of its tensors is for.

use vstd::prelude::*;

use crate::codec::decoder;
use crate::codec::decoder_laws::{self, decoder_plan_computes_decoder};
use crate::device::op::{self, Call, Inputs, Memory, Op, Operand, ResidualWeight, Weight};
use crate::device::op_laws;

verus! {

/// The channels in front of block `block`; every block halves them.
pub open spec fn width(block: int) -> int {
    if block == 0 {
        1536
    } else if block == 1 {
        768
    } else if block == 2 {
        384
    } else if block == 3 {
        192
    } else {
        96
    }
}

/// How many times as many frames a block gives as it takes.
pub open spec fn stride(block: int) -> int {
    if block == 0 {
        8
    } else if block == 1 {
        5
    } else if block == 2 {
        4
    } else {
        3
    }
}

/// How many frames there are in front of block `block` for one frame of the decoder.
pub open spec fn rate(block: int) -> int {
    if block == 0 {
        1
    } else if block == 1 {
        8
    } else if block == 2 {
        8int * 5
    } else if block == 3 {
        8int * 5 * 4
    } else {
        8int * 5 * 4 * 3
    }
}

/// Three to the power of the number of a residual unit.
pub open spec fn reach(unit: int) -> int {
    if unit == 0 {
        1
    } else if unit == 1 {
        3
    } else {
        9
    }
}

/// A causal convolution of `taps` taps that lie `apart` frames apart.
pub open spec fn convolution(
    frames: int,
    in_channels: int,
    out_channels: int,
    taps: int,
    apart: int,
) -> Call {
    Call::DilatedConv1d {
        frames: frames as usize,
        in_channels: in_channels as usize,
        out_channels: out_channels as usize,
        kernel_size: taps as usize,
        dilation: apart as usize,
        causal_padding: (apart * (taps - 1)) as usize,
    }
}

pub open spec fn activation(channels: int, frames: int) -> Call {
    Call::SnakeBeta { channels: channels as usize, frames: frames as usize }
}

/// The call that reads a tensor of the decoder, and the tensor that goes with it, for
/// `frames` frames.
pub open spec fn call_of_tensor(frames: usize, w: Weight) -> Option<(Call, Weight)> {
    match w {
        Weight::DecoderInitWeight => Some(
            (convolution(frames as int, 1024, 1536, 7, 1), Weight::DecoderInitBias),
        ),
        Weight::BlockAlpha { block } => Some(
            (
                activation(width(block as int), frames * rate(block as int)),
                Weight::BlockBeta { block },
            ),
        ),
        Weight::BlockTransWeight { block } => Some(
            (
                Call::TransConvChannels {
                    in_frames: (frames * rate(block as int)) as usize,
                    out_frames: (frames * rate(block + 1)) as usize,
                    in_channels: width(block as int) as usize,
                    out_channels: width(block + 1) as usize,
                    kernel_size: (2 * stride(block as int)) as usize,
                    stride: stride(block as int) as usize,
                },
                Weight::BlockTransBias { block },
            ),
        ),
        Weight::Residual { block, unit, role } => {
            let channels = width(block + 1);
            let long = frames * rate(block + 1);
            match role {
                ResidualWeight::Alpha1 => Some(
                    (
                        activation(channels, long),
                        Weight::Residual { block, unit, role: ResidualWeight::Beta1 },
                    ),
                ),
                ResidualWeight::Conv1Weight => Some(
                    (
                        convolution(long, channels, channels, 7, reach(unit as int)),
                        Weight::Residual { block, unit, role: ResidualWeight::Conv1Bias },
                    ),
                ),
                ResidualWeight::Alpha2 => Some(
                    (
                        activation(channels, long),
                        Weight::Residual { block, unit, role: ResidualWeight::Beta2 },
                    ),
                ),
                ResidualWeight::Conv2Weight => Some(
                    (
                        convolution(long, channels, channels, 1, 1),
                        Weight::Residual { block, unit, role: ResidualWeight::Conv2Bias },
                    ),
                ),
                _ => None,
            }
        },
        Weight::FinalAlpha => Some((activation(96, frames * 480), Weight::FinalBeta)),
        Weight::FinalConvWeight => Some(
            (convolution(frames * 480, 96, 1, 7, 1), Weight::FinalConvBias),
        ),
        _ => None,
    }
}

/// A step of the decoder on `frames` frames is told what it works on.
pub open spec fn is_told(frames: usize, op: Op) -> bool {
    match op {
        Op::Alloc { .. } => true,
        Op::Run { call, inputs, .. } => match op_laws::weight_read(op) {
            Some(w) => call_of_tensor(frames, w) matches Some((expected, partner)) && call
                == expected && (inputs matches Inputs::Three(_, _, third) && third
                == Operand::Weight(partner)),
            None => {
                ||| call == Call::Clamp { total: (frames * 480) as usize }
                ||| exists|block: int|
                    0 <= block < 4 && call == Call::ResidualAdd {
                        total: (#[trigger] width(block + 1) * (frames * rate(block + 1))) as usize,
                    }
            },
        },
    }
}

/// The step reads that tensor.
pub open spec fn uses(w: Weight, op: Op) -> bool {
    op_laws::weight_read(op) == Some(w)
}

#[verifier::spinoff_prover]
#[verifier::rlimit(60)]
proof fn lemma_unit_is_told(
    frames: usize,
    base: usize,
    block: usize,
    unit: usize,
    channels: usize,
    long: usize,
    input: Operand,
    output: Operand,
)
    requires
        block < 4,
        unit < 3,
        channels == width(block + 1),
        long == (frames * rate(block + 1)) as usize,
        frames * 480 <= usize::MAX,
        !(input is Weight),
    ensures
        op_laws::every(
            decoder::unit_ops(base, block, unit, channels, long, input, output),
            |op: Op| is_told(frames, op),
        ),
{
    let p = |op: Op| is_told(frames, op);
    let buffers = decoder::unit_buffers(channels, long);
    let steps = decoder::unit_steps(base, block, unit, channels, long, input, output);
    assert(frames * rate(block + 1) <= frames * 480) by (nonlinear_arith)
        requires
            rate(block + 1) <= 480,
            0 <= frames,
    ;
    assert(0 <= frames * rate(block + 1)) by (nonlinear_arith)
        requires
            rate(block + 1) >= 0,
            0 <= frames,
    ;
    assert(p(steps[4])) by {
        assert(width(block as int + 1) == channels);
    }
    op_laws::lemma_every_concat(buffers, steps, p);
}

proof fn lemma_block_frames(frames: usize, block: usize)
    requires
        block < 4,
        frames * 480 <= usize::MAX,
    ensures
        ({
            let (in_channels, out_channels, s) = crate::codec::sizes::block_dims(block as int);
            let in_frames = (frames * decoder::ratio(block as int)) as usize;
            &&& in_frames == frames * rate(block as int)
            &&& (in_frames * s) as usize == frames * rate(block + 1)
            &&& in_channels == width(block as int)
            &&& out_channels == width(block + 1)
            &&& s == stride(block as int)
        }),
{
    if block == 0 {
    } else if block == 1 {
        assert((frames * 8) * 5 == frames * 40);
    } else if block == 2 {
        assert((frames * 40) * 4 == frames * 160);
    } else {
        assert((frames * 160) * 3 == frames * 480);
    }
}

#[verifier::spinoff_prover]
#[verifier::rlimit(60)]
proof fn lemma_block_is_told(frames: usize, block: usize)
    requires
        block < 4,
        frames * 480 <= usize::MAX,
    ensures
        op_laws::every(decoder::block_stage(block, frames), |op: Op| is_told(frames, op)),
{
    let p = |op: Op| is_told(frames, op);
    let in_frames = (frames * decoder::ratio(block as int)) as usize;
    let base = (17 * block + 2) as usize;
    let input = decoder::stage_buffer(block as int);
    let output = decoder::stage_buffer(block + 1);
    let (in_channels, out_channels, s) = crate::codec::sizes::block_dims(block as int);
    let out_frames = (in_frames * s) as usize;
    let trans = op::scratch((base + 1) as usize);
    let res1 = op::scratch((base + 2) as usize);
    let res2 = op::scratch((base + 7) as usize);
    assert(in_frames == frames * rate(block as int));
    lemma_block_frames(frames, block);
    let first = seq![op::make(out_channels * (frames * decoder::ratio(block + 1)))];
    let head = decoder::block_head(base, block, in_frames, input);
    let u0 = decoder::unit_ops((base + 3) as usize, block, 0, out_channels, out_frames, trans, res1);
    let more = seq![op::make(out_channels * out_frames)];
    let u1 = decoder::unit_ops((base + 8) as usize, block, 1, out_channels, out_frames, res1, res2);
    let u2 = decoder::unit_ops((base + 12) as usize, block, 2, out_channels, out_frames, res2, output);
    assert(op_laws::every(head, p));
    lemma_unit_is_told(
        frames,
        (base + 3) as usize,
        block,
        0,
        out_channels,
        out_frames,
        trans,
        res1,
    );
    lemma_unit_is_told(
        frames,
        (base + 8) as usize,
        block,
        1,
        out_channels,
        out_frames,
        res1,
        res2,
    );
    lemma_unit_is_told(
        frames,
        (base + 12) as usize,
        block,
        2,
        out_channels,
        out_frames,
        res2,
        output,
    );
    op_laws::lemma_every_concat(head, u0, p);
    op_laws::lemma_every_concat(head + u0, more, p);
    op_laws::lemma_every_concat(head + u0 + more, u1, p);
    op_laws::lemma_every_concat(head + u0 + more + u1, u2, p);
    op_laws::lemma_every_concat(first, head + u0 + more + u1 + u2, p);
}

proof fn lemma_blocks_are_told(frames: usize, count: nat)
    requires
        count <= 4,
        frames * 480 <= usize::MAX,
    ensures
        op_laws::every(decoder::blocks_ops(count, frames), |op: Op| is_told(frames, op)),
    decreases count,
{
    if count > 0 {
        lemma_blocks_are_told(frames, (count - 1) as nat);
        lemma_block_is_told(frames, (count - 1) as usize);
        op_laws::lemma_every_concat(
            decoder::blocks_ops((count - 1) as nat, frames),
            decoder::block_stage((count - 1) as usize, frames),
            |op: Op| is_told(frames, op),
        );
    }
}

/// Every step of the decoder is told what it works on. The seven taps of the long
/// convolution of residual unit 0, 1 and 2 of a block lie 1, 3 and 9 frames apart; all
/// convolutions are padded in front so that they look at no later frame; the blocks have
/// 8, 5, 4 and 3 times as many frames as they take, and half the channels.
pub proof fn decoder_calls_are_told(frames: usize)
    requires
        frames * 480 <= usize::MAX,
    ensures
        op_laws::every(decoder::decoder_ops(frames), |op: Op| is_told(frames, op)),
{
    let p = |op: Op| is_told(frames, op);
    let head = decoder::decoder_head(frames);
    let blocks = decoder::blocks_ops(4, frames);
    let tail = decoder::decoder_tail((frames * 480) as usize);
    lemma_blocks_are_told(frames, 4);
    assert(op_laws::every(head, p));
    assert(op_laws::every(tail, p));
    op_laws::lemma_every_concat(head, blocks, p);
    op_laws::lemma_every_concat(head + blocks, tail, p);
}

/// The frame that tap `tap` of a causal convolution reads for frame `t`.
pub open spec fn frame_read(call: Call, t: int, tap: int) -> int {
    match call {
        Call::DilatedConv1d { dilation, causal_padding, .. } => t + tap * dilation - causal_padding,
        _ => t,
    }
}

/// The long convolution of residual unit `unit` of a block reads for every frame the frame
/// itself with its last tap, and with each tap before it the frame one, three or nine frames
/// further back, as the number of the unit says.
pub proof fn residual_units_reach_back(
    frames: usize,
    i: int,
    block: usize,
    unit: usize,
    t: int,
    tap: int,
)
    requires
        frames * 480 <= usize::MAX,
        0 <= i < decoder::decoder_ops(frames).len(),
        uses(
            Weight::Residual { block, unit, role: ResidualWeight::Conv1Weight },
            decoder::decoder_ops(frames)[i],
        ),
        block < 4,
        unit < 3,
    ensures
        decoder::decoder_ops(frames)[i] matches Op::Run { call, .. } && (call
            matches Call::DilatedConv1d { kernel_size, .. } && kernel_size == 7) && frame_read(
            call,
            t,
            tap,
        ) == t - (if unit == 0 {
            1int
        } else if unit == 1 {
            3
        } else {
            9
        }) * (6 - tap),
{
    decoder_calls_are_told(frames);
    assert(is_told(frames, decoder::decoder_ops(frames)[i]));
    let far = reach(unit as int);
    assert(t + tap * far - far * 6 == t - far * (6 - tap)) by (nonlinear_arith);
}

proof fn lemma_unit_uses(
    base: usize,
    block: usize,
    unit: usize,
    role: ResidualWeight,
    channels: usize,
    long: usize,
    input: Operand,
    output: Operand,
)
    requires
        role == ResidualWeight::Alpha1 || role == ResidualWeight::Conv1Weight || role
            == ResidualWeight::Alpha2 || role == ResidualWeight::Conv2Weight,
    ensures
        op_laws::some(
            decoder::unit_ops(base, block, unit, channels, long, input, output),
            |op: Op| uses(Weight::Residual { block, unit, role }, op),
        ),
{
    let p = |op: Op| uses(Weight::Residual { block, unit, role }, op);
    let steps = decoder::unit_steps(base, block, unit, channels, long, input, output);
    let at = match role {
        ResidualWeight::Alpha1 => 0int,
        ResidualWeight::Conv1Weight => 1,
        ResidualWeight::Alpha2 => 2,
        _ => 3,
    };
    assert(p(steps[at]));
    op_laws::lemma_some_concat(decoder::unit_buffers(channels, long), steps, p);
}

/// The decoder has all twelve residual units: each block has its three, and each of them
/// uses its two activations and its two convolutions.
pub proof fn decoders_use_all_residual_units(
    frames: usize,
    block: usize,
    unit: usize,
    role: ResidualWeight,
)
    requires
        block < 4,
        unit < 3,
        role == ResidualWeight::Alpha1 || role == ResidualWeight::Conv1Weight || role
            == ResidualWeight::Alpha2 || role == ResidualWeight::Conv2Weight,
    ensures
        op_laws::some(
            decoder::decoder_ops(frames),
            |op: Op| uses(Weight::Residual { block, unit, role }, op),
        ),
{
    let p = |op: Op| uses(Weight::Residual { block, unit, role }, op);
    let in_frames = (frames * decoder::ratio(block as int)) as usize;
    let base = (17 * block + 2) as usize;
    let input = decoder::stage_buffer(block as int);
    let output = decoder::stage_buffer(block + 1);
    let (in_channels, out_channels, s) = crate::codec::sizes::block_dims(block as int);
    let out_frames = (in_frames * s) as usize;
    let trans = op::scratch((base + 1) as usize);
    let res1 = op::scratch((base + 2) as usize);
    let res2 = op::scratch((base + 7) as usize);
    let first = seq![op::make(out_channels * (frames * decoder::ratio(block + 1)))];
    let head = decoder::block_head(base, block, in_frames, input);
    let b0 = (base + 3) as usize;
    let b1 = (base + 8) as usize;
    let b2 = (base + 12) as usize;
    let u0 = decoder::unit_ops(b0, block, 0, out_channels, out_frames, trans, res1);
    let more = seq![op::make(out_channels * out_frames)];
    let u1 = decoder::unit_ops(b1, block, 1, out_channels, out_frames, res1, res2);
    let u2 = decoder::unit_ops(b2, block, 2, out_channels, out_frames, res2, output);
    if unit == 0 {
        lemma_unit_uses(b0, block, unit, role, out_channels, out_frames, trans, res1);
        op_laws::lemma_some_concat(head, u0, p);
        op_laws::lemma_some_concat(head + u0, more, p);
        op_laws::lemma_some_concat(head + u0 + more, u1, p);
    } else if unit == 1 {
        lemma_unit_uses(b1, block, unit, role, out_channels, out_frames, res1, res2);
        op_laws::lemma_some_concat(head + u0 + more, u1, p);
    } else {
        lemma_unit_uses(b2, block, unit, role, out_channels, out_frames, res2, output);
    }
    op_laws::lemma_some_concat(head + u0 + more + u1, u2, p);
    op_laws::lemma_some_concat(first, head + u0 + more + u1 + u2, p);
    lemma_stage_in_blocks(frames, block, 4, p);
    let blocks = decoder::blocks_ops(4, frames);
    op_laws::lemma_some_concat(decoder::decoder_head(frames), blocks, p);
    op_laws::lemma_some_concat(
        decoder::decoder_head(frames) + blocks,
        decoder::decoder_tail((frames * 480) as usize),
        p,
    );
}

proof fn lemma_stage_in_blocks(frames: usize, block: usize, count: nat, p: spec_fn(Op) -> bool)
    requires
        block < count <= 4,
        op_laws::some(decoder::block_stage(block, frames), p),
    ensures
        op_laws::some(decoder::blocks_ops(count, frames), p),
    decreases count,
{
    let before = decoder::blocks_ops((count - 1) as nat, frames);
    let stage = decoder::block_stage((count - 1) as usize, frames);
    if block < count - 1 {
        lemma_stage_in_blocks(frames, block, (count - 1) as nat, p);
    }
    op_laws::lemma_some_concat(before, stage, p);
}

/// What the call that reads a tensor of the decoder computes from `x`.
pub open spec fn applied<V>(
    f: spec_fn(Call, Seq<V>) -> V,
    s: Memory<V>,
    frames: usize,
    w: Weight,
    x: V,
) -> V {
    let (call, partner) = call_of_tensor(frames, w)->0;
    f(call, seq![x, s[Operand::Weight(w)], s[Operand::Weight(partner)]])
}

proof fn lemma_widened<V>(
    f: spec_fn(Call, Seq<V>) -> V,
    s: Memory<V>,
    frames: usize,
    block: usize,
    x: V,
)
    requires
        block < 4,
        frames * 480 <= usize::MAX,
    ensures
        decoder_laws::widened_value(
            f,
            s,
            block,
            (frames * decoder::ratio(block as int)) as usize,
            x,
        ) == applied(
            f,
            s,
            frames,
            Weight::BlockTransWeight { block },
            applied(f, s, frames, Weight::BlockAlpha { block }, x),
        ),
{
    lemma_block_frames(frames, block);
}

/// Where the short convolutions of the residual units give nothing, and to add nothing
/// changes nothing, a block gives what its transposed convolution gives: the residual units
/// add to what they are given. From there on the decoder is its opening convolution, the
/// activation and the transposed convolution of every block, and the closing activation and
/// convolution, whose result is clamped.
#[verifier::spinoff_prover]
#[verifier::rlimit(60)]
pub proof fn residual_units_add_to_their_input<V>(
    f: spec_fn(Call, Seq<V>) -> V,
    s: Memory<V>,
    frames: usize,
    nothing: V,
)
    requires
        frames * 480 <= usize::MAX,
        forall|call: Call, args: Seq<V>|
            (call matches Call::DilatedConv1d { kernel_size, .. } && kernel_size == 1)
                ==> #[trigger] f(call, args) == nothing,
        forall|call: Call, args: Seq<V>|
            args.len() == 2 && call is ResidualAdd && args[1] == nothing ==> #[trigger] f(
                call,
                args,
            ) == args[0],
    ensures
        ({
            let end = op::run(f, s, decoder::decoder_ops(frames));
            let out = decoder::decoder_outputs(frames);
            let block = |b: usize, x: V|
                applied(
                    f,
                    s,
                    frames,
                    Weight::BlockTransWeight { block: b },
                    applied(f, s, frames, Weight::BlockAlpha { block: b }, x),
                );
            &&& end[out.decoder_0] == applied(f, s, frames, Weight::DecoderInitWeight, s[Operand::Input(0)])
            &&& end[out.decoder_1] == block(0, end[out.decoder_0])
            &&& end[out.decoder_2] == block(1, end[out.decoder_1])
            &&& end[out.decoder_3] == block(2, end[out.decoder_2])
            &&& end[out.decoder_4] == block(3, end[out.decoder_3])
            &&& end[out.decoder_5] == applied(f, s, frames, Weight::FinalAlpha, end[out.decoder_4])
            &&& end[out.decoder_6] == applied(f, s, frames, Weight::FinalConvWeight, end[out.decoder_5])
            &&& end[out.waveform] == f(
                Call::Clamp { total: (frames * 480) as usize },
                seq![end[out.decoder_6]],
            )
        }),
{
    decoder_plan_computes_decoder(f, s, frames);
    let x = s[Operand::Input(0)];
    assert forall|block: usize, unit: usize, channels: usize, long: usize, y: V| #[trigger]
        decoder_laws::unit_value(f, s, block, unit, channels, long, y) == y by {}
    reveal_with_fuel(decoder_laws::blocks_value, 2);
    let v0 = decoder_laws::blocks_value(f, s, 0, frames, x);
    let v1 = decoder_laws::blocks_value(f, s, 1, frames, x);
    let v2 = decoder_laws::blocks_value(f, s, 2, frames, x);
    let v3 = decoder_laws::blocks_value(f, s, 3, frames, x);
    let v4 = decoder_laws::blocks_value(f, s, 4, frames, x);
    lemma_widened(f, s, frames, 0, v0);
    lemma_widened(f, s, frames, 1, v1);
    lemma_widened(f, s, frames, 2, v2);
    lemma_widened(f, s, frames, 3, v3);
    let ratio = |b: int| (frames * decoder::ratio(b)) as usize;
    assert(v1 == decoder_laws::widened_value(f, s, 0, ratio(0), v0));
    assert(v2 == decoder_laws::widened_value(f, s, 1, ratio(1), v1));
    assert(v3 == decoder_laws::widened_value(f, s, 2, ratio(2), v2));
    assert(v4 == decoder_laws::widened_value(f, s, 3, ratio(3), v3));
}

/// The two activations and convolutions of a residual unit, one behind the other.
pub open spec fn convolved<V>(
    f: spec_fn(Call, Seq<V>) -> V,
    s: Memory<V>,
    frames: usize,
    block: usize,
    unit: usize,
    x: V,
) -> V {
    let tensor = |role: ResidualWeight| Weight::Residual { block, unit, role };
    let active = applied(f, s, frames, tensor(ResidualWeight::Alpha1), x);
    let long = applied(f, s, frames, tensor(ResidualWeight::Conv1Weight), active);
    let again = applied(f, s, frames, tensor(ResidualWeight::Alpha2), long);
    applied(f, s, frames, tensor(ResidualWeight::Conv2Weight), again)
}

proof fn lemma_unit_convolves<V>(
    f: spec_fn(Call, Seq<V>) -> V,
    s: Memory<V>,
    frames: usize,
    block: usize,
    unit: usize,
    x: V,
)
    requires
        block < 4,
        unit < 3,
        frames * 480 <= usize::MAX,
        forall|call: Call, args: Seq<V>|
            args.len() == 2 && call is ResidualAdd ==> #[trigger] f(call, args) == args[1],
    ensures
        decoder_laws::unit_value(
            f,
            s,
            block,
            unit,
            width(block + 1) as usize,
            (frames * rate(block + 1)) as usize,
            x,
        ) == convolved(f, s, frames, block, unit, x),
{
}

proof fn lemma_block_convolves<V>(
    f: spec_fn(Call, Seq<V>) -> V,
    s: Memory<V>,
    frames: usize,
    block: usize,
    x: V,
)
    requires
        block < 4,
        frames * 480 <= usize::MAX,
        forall|call: Call, args: Seq<V>|
            args.len() == 2 && call is ResidualAdd ==> #[trigger] f(call, args) == args[1],
    ensures
        decoder_laws::block_value(
            f,
            s,
            block,
            (frames * decoder::ratio(block as int)) as usize,
            x,
        ) == convolved_block(f, s, frames, block, x),
{
    lemma_block_frames(frames, block);
    lemma_widened(f, s, frames, block, x);
    let in_frames = (frames * decoder::ratio(block as int)) as usize;
    let wide = decoder_laws::widened_value(f, s, block, in_frames, x);
    lemma_unit_convolves(f, s, frames, block, 0, wide);
    let one = convolved(f, s, frames, block, 0, wide);
    lemma_unit_convolves(f, s, frames, block, 1, one);
    let two = convolved(f, s, frames, block, 1, one);
    lemma_unit_convolves(f, s, frames, block, 2, two);
}

/// The activation and the transposed convolution of a block, and behind them the
/// convolutions of its three residual units in their order.
pub open spec fn convolved_block<V>(
    f: spec_fn(Call, Seq<V>) -> V,
    s: Memory<V>,
    frames: usize,
    block: usize,
    x: V,
) -> V {
    let wide = applied(
        f,
        s,
        frames,
        Weight::BlockTransWeight { block },
        applied(f, s, frames, Weight::BlockAlpha { block }, x),
    );
    let one = convolved(f, s, frames, block, 0, wide);
    let two = convolved(f, s, frames, block, 1, one);
    convolved(f, s, frames, block, 2, two)
}

/// What the residual units of a block add: where an addition keeps only what is added, each
/// block gives what its three units convolve, one behind the other, from what its transposed
/// convolution gives.
#[verifier::spinoff_prover]
#[verifier::rlimit(60)]
pub proof fn residual_units_add_what_they_convolve<V>(
    f: spec_fn(Call, Seq<V>) -> V,
    s: Memory<V>,
    frames: usize,
)
    requires
        frames * 480 <= usize::MAX,
        forall|call: Call, args: Seq<V>|
            args.len() == 2 && call is ResidualAdd ==> #[trigger] f(call, args) == args[1],
    ensures
        ({
            let end = op::run(f, s, decoder::decoder_ops(frames));
            let out = decoder::decoder_outputs(frames);
            &&& end[out.decoder_1] == convolved_block(f, s, frames, 0, end[out.decoder_0])
            &&& end[out.decoder_2] == convolved_block(f, s, frames, 1, end[out.decoder_1])
            &&& end[out.decoder_3] == convolved_block(f, s, frames, 2, end[out.decoder_2])
            &&& end[out.decoder_4] == convolved_block(f, s, frames, 3, end[out.decoder_3])
        }),
{
    decoder_plan_computes_decoder(f, s, frames);
    let x = s[Operand::Input(0)];
    let v = |n: nat| decoder_laws::blocks_value(f, s, n, frames, x);
    lemma_block_convolves(f, s, frames, 0, v(0));
    lemma_block_convolves(f, s, frames, 1, v(1));
    lemma_block_convolves(f, s, frames, 2, v(2));
    lemma_block_convolves(f, s, frames, 3, v(3));
    let ratio = |b: int| (frames * decoder::ratio(b)) as usize;
    assert(v(1) == decoder_laws::block_value(f, s, 0, ratio(0), v(0)));
    assert(v(2) == decoder_laws::block_value(f, s, 1, ratio(1), v(1)));
    assert(v(3) == decoder_laws::block_value(f, s, 2, ratio(2), v(2)));
    assert(v(4) == decoder_laws::block_value(f, s, 3, ratio(3), v(3)));
}

/// The decoder gives 480 samples for every frame it is given, the upsampling stages four
/// frames for every code frame: 1920 samples for every code frame, 80 milliseconds at the
/// rate of the codec.
pub proof fn code_frames_last_80_milliseconds(frames: usize)
    requires
        frames * 1920 <= usize::MAX,
    ensures
        ({
            let wide = crate::codec::upsample::upsample_outputs(frames).frames_1;
            let out = decoder::decoder_outputs(wide);
            &&& crate::codec::upsample::upsample_outputs(frames).frames_0 == 2 * frames
            &&& wide == 4 * frames
            &&& out.frames_0 == 4 * frames
            &&& out.frames_1 == 32 * frames
            &&& out.frames_2 == 160 * frames
            &&& out.frames_3 == 640 * frames
            &&& out.frames_4 == 1920 * frames
            &&& crate::codec::dims::SAMPLES_PER_FRAME == 1920
            &&& out.frames_4 * 1000 == 80 * frames * crate::generation::options::SAMPLE_RATE
        }),
{
}

} // verus!

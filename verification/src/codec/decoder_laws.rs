//! What the decoder plan computes, and that it stays within its buffers.

use vstd::prelude::*;

use crate::codec::decoder::{self};
use crate::codec::dims::{
    DECODER_FINAL_CHANNELS, DECODER_FINAL_KERNEL, DECODER_INIT_CHANNELS, DECODER_INIT_KERNEL,
    PRE_CONV_OUT, RESIDUAL_KERNEL, RESIDUAL_POINTWISE_KERNEL,
};
use crate::codec::sizes;
use crate::codec::transformer_laws;
use crate::device::op::{self, Call, Memory, Op, Operand, ResidualWeight, Weight};
use crate::device::plan;

verus! {

/// A residual unit as a function of its input.
pub open spec fn unit_value<V>(
    f: spec_fn(Call, Seq<V>) -> V,
    w: Memory<V>,
    block: usize,
    unit: usize,
    channels: usize,
    frames: usize,
    x: V,
) -> V {
    let snake = Call::SnakeBeta { channels, frames };
    let act1 = f(
        snake,
        seq![
            x,
            w[decoder::unit_weight(block, unit, ResidualWeight::Alpha1)],
            w[decoder::unit_weight(block, unit, ResidualWeight::Beta1)],
        ],
    );
    let conv1 = f(
        decoder::dilated(
            frames,
            channels,
            channels,
            RESIDUAL_KERNEL,
            decoder::unit_dilation(unit as int),
        ),
        seq![
            act1,
            w[decoder::unit_weight(block, unit, ResidualWeight::Conv1Weight)],
            w[decoder::unit_weight(block, unit, ResidualWeight::Conv1Bias)],
        ],
    );
    let act2 = f(
        snake,
        seq![
            conv1,
            w[decoder::unit_weight(block, unit, ResidualWeight::Alpha2)],
            w[decoder::unit_weight(block, unit, ResidualWeight::Beta2)],
        ],
    );
    let conv2 = f(
        decoder::dilated(frames, channels, channels, RESIDUAL_POINTWISE_KERNEL, 1),
        seq![
            act2,
            w[decoder::unit_weight(block, unit, ResidualWeight::Conv2Weight)],
            w[decoder::unit_weight(block, unit, ResidualWeight::Conv2Bias)],
        ],
    );
    f(Call::ResidualAdd { total: (channels * frames) as usize }, seq![x, conv2])
}

/// The activation and the transposed convolution of a block.
pub open spec fn widened_value<V>(
    f: spec_fn(Call, Seq<V>) -> V,
    w: Memory<V>,
    block: usize,
    in_frames: usize,
    x: V,
) -> V {
    let (in_channels, out_channels, stride) = sizes::block_dims(block as int);
    let snake = f(
        Call::SnakeBeta { channels: in_channels, frames: in_frames },
        seq![
            x,
            w[Operand::Weight(Weight::BlockAlpha { block })],
            w[Operand::Weight(Weight::BlockBeta { block })],
        ],
    );
    f(
        Call::TransConvChannels {
            in_frames,
            out_frames: (in_frames * stride) as usize,
            in_channels,
            out_channels,
            kernel_size: (stride * 2) as usize,
            stride,
        },
        seq![
            snake,
            w[Operand::Weight(Weight::BlockTransWeight { block })],
            w[Operand::Weight(Weight::BlockTransBias { block })],
        ],
    )
}

/// A decoder block as a function of its input: widen, then three residual units.
pub open spec fn block_value<V>(
    f: spec_fn(Call, Seq<V>) -> V,
    w: Memory<V>,
    block: usize,
    in_frames: usize,
    x: V,
) -> V {
    let (in_channels, out_channels, stride) = sizes::block_dims(block as int);
    let out_frames = (in_frames * stride) as usize;
    let trans = widened_value(f, w, block, in_frames, x);
    let res1 = unit_value(f, w, block, 0, out_channels, out_frames, trans);
    let res2 = unit_value(f, w, block, 1, out_channels, out_frames, res1);
    unit_value(f, w, block, 2, out_channels, out_frames, res2)
}

/// What the first `stage` blocks give on `frames` frames.
pub open spec fn blocks_value<V>(
    f: spec_fn(Call, Seq<V>) -> V,
    w: Memory<V>,
    stage: nat,
    frames: usize,
    x: V,
) -> V
    decreases stage,
{
    if stage == 0 {
        f(
            decoder::dilated(frames, PRE_CONV_OUT, DECODER_INIT_CHANNELS, DECODER_INIT_KERNEL, 1),
            seq![
                x,
                w[Operand::Weight(Weight::DecoderInitWeight)],
                w[Operand::Weight(Weight::DecoderInitBias)],
            ],
        )
    } else {
        block_value(
            f,
            w,
            (stage - 1) as usize,
            (frames * decoder::ratio(stage - 1)) as usize,
            blocks_value(f, w, (stage - 1) as nat, frames, x),
        )
    }
}

/// The activation behind the blocks.
pub open spec fn final_activation<V>(
    f: spec_fn(Call, Seq<V>) -> V,
    w: Memory<V>,
    samples: usize,
    x: V,
) -> V {
    f(
        Call::SnakeBeta { channels: DECODER_FINAL_CHANNELS, frames: samples },
        seq![
            x,
            w[Operand::Weight(Weight::FinalAlpha)],
            w[Operand::Weight(Weight::FinalBeta)],
        ],
    )
}

/// The convolution to one channel.
pub open spec fn final_convolution<V>(
    f: spec_fn(Call, Seq<V>) -> V,
    w: Memory<V>,
    samples: usize,
    x: V,
) -> V {
    f(
        decoder::dilated(samples, DECODER_FINAL_CHANNELS, 1, DECODER_FINAL_KERNEL, 1),
        seq![
            x,
            w[Operand::Weight(Weight::FinalConvWeight)],
            w[Operand::Weight(Weight::FinalConvBias)],
        ],
    )
}

/// A buffer that is neither `output` nor a scratch buffer numbered from `low` up to
/// but not including `high`.
pub open spec fn outside(low: int, high: int, output: Operand, o: Operand) -> bool {
    &&& o != output
    &&& !(o is Scratch && low <= o->Scratch_0 < high)
}

/// Every step writes to `output` or to a scratch buffer from `low` up to but not
/// including `high`.
pub open spec fn writes_within(ops: Seq<Op>, low: int, high: int, output: Operand) -> bool {
    forall|i: int|
        0 <= i < ops.len() ==> (#[trigger] ops[i] matches Op::Run { output: o, .. } ==> !outside(
            low,
            high,
            output,
            o,
        ))
}

proof fn lemma_writes_within<V>(
    f: spec_fn(Call, Seq<V>) -> V,
    s: Memory<V>,
    ops: Seq<Op>,
    low: int,
    high: int,
    output: Operand,
)
    requires
        writes_within(ops, low, high, output),
    ensures
        forall|o: Operand| #[trigger]
            outside(low, high, output, o) ==> op::run(f, s, ops)[o] == s[o],
{
    assert forall|o: Operand| #[trigger] outside(low, high, output, o) implies op::run(
        f,
        s,
        ops,
    )[o] == s[o] by {
        op::lemma_leaves_alone(f, s, ops, o);
    }
}

#[verifier::spinoff_prover]
#[verifier::rlimit(40)]
proof fn lemma_unit_value<V>(
    f: spec_fn(Call, Seq<V>) -> V,
    s: Memory<V>,
    base: usize,
    block: usize,
    unit: usize,
    channels: usize,
    frames: usize,
    input: usize,
    output: usize,
)
    requires
        base <= usize::MAX - 4,
        input < base,
        output < base,
        input != output,
    ensures
        ({
            let ops = decoder::unit_ops(
                base,
                block,
                unit,
                channels,
                frames,
                op::scratch(input),
                op::scratch(output),
            );
            let end = op::run(f, s, ops);
            &&& end[op::scratch(output)] == unit_value(
                f,
                s,
                block,
                unit,
                channels,
                frames,
                s[op::scratch(input)],
            )
            &&& writes_within(ops, base as int, base + 4, op::scratch(output))
        }),
{
    let buffers = decoder::unit_buffers(channels, frames);
    let steps = decoder::unit_steps(
        base,
        block,
        unit,
        channels,
        frames,
        op::scratch(input),
        op::scratch(output),
    );
    op::lemma_run_concat(f, s, buffers, steps);
    transformer_laws::lemma_allocations_keep_memory(f, s, buffers);
    reveal_with_fuel(op::run_from, 6);
}

proof fn lemma_same_unit<V>(
    f: spec_fn(Call, Seq<V>) -> V,
    s: Memory<V>,
    w: Memory<V>,
    block: usize,
    unit: usize,
    channels: usize,
    frames: usize,
    x: V,
)
    requires
        transformer_laws::same_model(s, w),
    ensures
        unit_value(f, s, block, unit, channels, frames, x) == unit_value(
            f,
            w,
            block,
            unit,
            channels,
            frames,
            x,
        ),
{
}

#[verifier::spinoff_prover]
#[verifier::rlimit(40)]
proof fn lemma_head_value<V>(
    f: spec_fn(Call, Seq<V>) -> V,
    s: Memory<V>,
    base: usize,
    block: usize,
    in_frames: usize,
    input: usize,
)
    requires
        base <= usize::MAX - 16,
        input < base,
    ensures
        ({
            let ops = decoder::block_head(base, block, in_frames, op::scratch(input));
            let trans = op::scratch((base + 1) as usize);
            &&& op::run(f, s, ops)[trans] == widened_value(
                f,
                s,
                block,
                in_frames,
                s[op::scratch(input)],
            )
            &&& writes_within(ops, base as int, base + 2, trans)
        }),
{
    reveal_with_fuel(op::run_from, 6);
}

/// A block leaves in its output what the block computes, and touches nothing but its
/// output and its own scratch buffers.
proof fn lemma_block_value<V>(
    f: spec_fn(Call, Seq<V>) -> V,
    s: Memory<V>,
    base: usize,
    block: usize,
    in_frames: usize,
    input: usize,
    output: usize,
)
    requires
        base <= usize::MAX - 16,
        input < base,
        output < base,
        input != output,
    ensures
        ({
            let ops = decoder::block_ops(
                base,
                block,
                in_frames,
                op::scratch(input),
                op::scratch(output),
            );
            let end = op::run(f, s, ops);
            &&& end[op::scratch(output)] == block_value(
                f,
                s,
                block,
                in_frames,
                s[op::scratch(input)],
            )
            &&& forall|o: Operand| #[trigger]
                outside(base as int, base + 16, op::scratch(output), o) ==> end[o] == s[o]
        }),
{
    let (in_channels, out_channels, stride) = sizes::block_dims(block as int);
    let out_frames = (in_frames * stride) as usize;
    let trans = (base + 1) as usize;
    let res1 = (base + 2) as usize;
    let res2 = (base + 7) as usize;
    let out = op::scratch(output);
    let head = decoder::block_head(base, block, in_frames, op::scratch(input));
    let unit1 = decoder::unit_ops(
        (base + 3) as usize,
        block,
        0,
        out_channels,
        out_frames,
        op::scratch(trans),
        op::scratch(res1),
    );
    let more = seq![op::make(out_channels * out_frames)];
    let unit2 = decoder::unit_ops(
        (base + 8) as usize,
        block,
        1,
        out_channels,
        out_frames,
        op::scratch(res1),
        op::scratch(res2),
    );
    let unit3 = decoder::unit_ops(
        (base + 12) as usize,
        block,
        2,
        out_channels,
        out_frames,
        op::scratch(res2),
        out,
    );
    op::lemma_run_concat(f, s, head, unit1);
    op::lemma_run_concat(f, s, head + unit1, more);
    op::lemma_run_concat(f, s, head + unit1 + more, unit2);
    op::lemma_run_concat(f, s, head + unit1 + more + unit2, unit3);
    let s1 = op::run(f, s, head);
    lemma_head_value(f, s, base, block, in_frames, input);
    lemma_writes_within(f, s, head, base as int, base + 2, op::scratch(trans));
    let s2 = op::run(f, s1, unit1);
    lemma_unit_value(
        f,
        s1,
        (base + 3) as usize,
        block,
        0,
        out_channels,
        out_frames,
        trans,
        res1,
    );
    lemma_writes_within(f, s1, unit1, base + 3, base + 7, op::scratch(res1));
    transformer_laws::lemma_allocations_keep_memory(f, s2, more);
    let s3 = op::run(f, s2, unit2);
    lemma_unit_value(
        f,
        s2,
        (base + 8) as usize,
        block,
        1,
        out_channels,
        out_frames,
        res1,
        res2,
    );
    lemma_writes_within(f, s2, unit2, base + 8, base + 12, op::scratch(res2));
    let s4 = op::run(f, s3, unit3);
    lemma_unit_value(
        f,
        s3,
        (base + 12) as usize,
        block,
        2,
        out_channels,
        out_frames,
        res2,
        output,
    );
    lemma_writes_within(f, s3, unit3, base + 12, base + 16, out);
    assert forall|o: Operand| #[trigger]
        outside(base as int, base + 16, out, o) implies s4[o] == s[o] by {
        assert(outside(base as int, base + 2, op::scratch(trans), o));
        assert(outside(base + 3, base + 7, op::scratch(res1), o));
        assert(outside(base + 8, base + 12, op::scratch(res2), o));
        assert(outside(base + 12, base + 16, out, o));
    }
    assert forall|w: Weight| #[trigger] s1[Operand::Weight(w)] == s[Operand::Weight(w)] by {
        assert(outside(base as int, base + 2, op::scratch(trans), Operand::Weight(w)));
    }
    assert forall|w: Weight| #[trigger] s2[Operand::Weight(w)] == s[Operand::Weight(w)] by {
        assert(outside(base + 3, base + 7, op::scratch(res1), Operand::Weight(w)));
    }
    assert forall|w: Weight| #[trigger] s3[Operand::Weight(w)] == s[Operand::Weight(w)] by {
        assert(outside(base + 8, base + 12, op::scratch(res2), Operand::Weight(w)));
    }
    let trans_v = s1[op::scratch(trans)];
    lemma_same_unit(f, s1, s, block, 0, out_channels, out_frames, trans_v);
    lemma_same_unit(f, s2, s, block, 1, out_channels, out_frames, s2[op::scratch(res1)]);
    lemma_same_unit(f, s3, s, block, 2, out_channels, out_frames, s3[op::scratch(res2)]);
}

proof fn lemma_same_block<V>(
    f: spec_fn(Call, Seq<V>) -> V,
    s: Memory<V>,
    w: Memory<V>,
    block: usize,
    in_frames: usize,
    x: V,
)
    requires
        transformer_laws::same_model(s, w),
    ensures
        block_value(f, s, block, in_frames, x) == block_value(f, w, block, in_frames, x),
{
    let (in_channels, out_channels, stride) = sizes::block_dims(block as int);
    let out_frames = (in_frames * stride) as usize;
    let trans = widened_value(f, w, block, in_frames, x);
    assert(widened_value(f, s, block, in_frames, x) == trans);
    lemma_same_unit(f, s, w, block, 0, out_channels, out_frames, trans);
    let res1 = unit_value(f, w, block, 0, out_channels, out_frames, trans);
    lemma_same_unit(f, s, w, block, 1, out_channels, out_frames, res1);
    let res2 = unit_value(f, w, block, 1, out_channels, out_frames, res1);
    lemma_same_unit(f, s, w, block, 2, out_channels, out_frames, res2);
}

proof fn lemma_blocks_value<V>(
    f: spec_fn(Call, Seq<V>) -> V,
    s: Memory<V>,
    w: Memory<V>,
    count: nat,
    frames: usize,
    x: V,
)
    requires
        transformer_laws::same_model(s, w),
        count <= 4,
        s[decoder::stage_buffer(0)] == blocks_value(f, w, 0, frames, x),
    ensures
        ({
            let end = op::run(f, s, decoder::blocks_ops(count, frames));
            &&& forall|k: nat|
                k <= count ==> end[#[trigger] decoder::stage_buffer(k as int)] == blocks_value(
                    f,
                    w,
                    k,
                    frames,
                    x,
                )
            &&& transformer_laws::same_model(end, w)
        }),
    decreases count,
{
    if count > 0 {
        let before = decoder::blocks_ops((count - 1) as nat, frames);
        let block = (count - 1) as usize;
        let stage = decoder::block_stage(block, frames);
        lemma_blocks_value(f, s, w, (count - 1) as nat, frames, x);
        op::lemma_run_concat(f, s, before, stage);
        let s1 = op::run(f, s, before);
        let in_frames = (frames * decoder::ratio(block as int)) as usize;
        let base = (17 * block + 2) as usize;
        let input = decoder::stage_buffer(block as int)->Scratch_0;
        let output = (17 * block + 1) as usize;
        let result = seq![
            op::make(
                sizes::block_dims(block as int).1 * (frames * decoder::ratio(block + 1)),
            ),
        ];
        let body = decoder::block_ops(
            base,
            block,
            in_frames,
            op::scratch(input),
            op::scratch(output),
        );
        assert(stage == result + body);
        op::lemma_run_concat(f, s1, result, body);
        transformer_laws::lemma_allocations_keep_memory(f, s1, result);
        lemma_block_value(f, s1, base, block, in_frames, input, output);
        lemma_same_block(f, s1, w, block, in_frames, s1[op::scratch(input)]);
        let end = op::run(f, s1, body);
        assert forall|k: nat| k <= count implies end[#[trigger] decoder::stage_buffer(k as int)]
            == blocks_value(f, w, k, frames, x) by {
            if k < count {
                assert(outside(
                    base as int,
                    base + 16,
                    op::scratch(output),
                    decoder::stage_buffer(k as int),
                ));
            }
        }
        assert forall|v: Weight| #[trigger] end[Operand::Weight(v)] == w[Operand::Weight(v)] by {
            assert(outside(base as int, base + 16, op::scratch(output), Operand::Weight(v)));
        }
    } else {
        assert(op::run(f, s, decoder::blocks_ops(count, frames)) == s);
    }
}

/// The decoder plan leaves in its eight result buffers what the decoder computes from
/// the first input: the opening convolution, each block applied to what came before,
/// the final activation, the convolution to one channel, and the clamped waveform.
pub proof fn decoder_plan_computes_decoder<V>(
    f: spec_fn(Call, Seq<V>) -> V,
    s: Memory<V>,
    frames: usize,
)
    ensures
        ({
            let end = op::run(f, s, decoder::decoder_ops(frames));
            let out = decoder::decoder_outputs(frames);
            let x = s[Operand::Input(0)];
            let last = blocks_value(f, s, 4, frames, x);
            let active = final_activation(f, s, out.frames_4, last);
            let mono = final_convolution(f, s, out.frames_4, active);
            &&& end[out.decoder_0] == blocks_value(f, s, 0, frames, x)
            &&& end[out.decoder_1] == blocks_value(f, s, 1, frames, x)
            &&& end[out.decoder_2] == blocks_value(f, s, 2, frames, x)
            &&& end[out.decoder_3] == blocks_value(f, s, 3, frames, x)
            &&& end[out.decoder_4] == last
            &&& end[out.decoder_5] == active
            &&& end[out.decoder_6] == mono
            &&& end[out.waveform] == f(Call::Clamp { total: out.frames_4 }, seq![mono])
        }),
{
    let x = s[Operand::Input(0)];
    let samples = (frames * 480) as usize;
    let head = decoder::decoder_head(frames);
    let blocks = decoder::blocks_ops(4, frames);
    let tail = decoder::decoder_tail(samples);
    op::lemma_run_concat(f, s, head, blocks);
    op::lemma_run_concat(f, s, head + blocks, tail);
    let s1 = op::run(f, s, head);
    assert(s1[op::scratch(0)] == blocks_value(f, s, 0, frames, x)) by {
        reveal_with_fuel(op::run_from, 3);
    }
    assert(transformer_laws::keeps_model(head));
    transformer_laws::lemma_keeps_model(f, s, head);
    lemma_blocks_value(f, s1, s, 4, frames, x);
    let s2 = op::run(f, s1, blocks);
    let last = s2[decoder::stage_buffer(4)];
    let active = final_activation(f, s2, samples, last);
    let mono = final_convolution(f, s2, samples, active);
    let end = op::run(f, s2, tail);
    assert(end[op::scratch(69)] == active && end[op::scratch(70)] == mono && end[op::scratch(71)]
        == f(Call::Clamp { total: samples }, seq![mono])) by {
        reveal_with_fuel(op::run_from, 7);
    }
    op::lemma_leaves_alone(f, s2, tail, decoder::stage_buffer(0));
    op::lemma_leaves_alone(f, s2, tail, decoder::stage_buffer(1));
    op::lemma_leaves_alone(f, s2, tail, decoder::stage_buffer(2));
    op::lemma_leaves_alone(f, s2, tail, decoder::stage_buffer(3));
    op::lemma_leaves_alone(f, s2, tail, decoder::stage_buffer(4));
    assert(s2[decoder::stage_buffer(0 as nat as int)] == blocks_value(f, s, 0, frames, x));
    assert(s2[decoder::stage_buffer(1 as nat as int)] == blocks_value(f, s, 1, frames, x));
    assert(s2[decoder::stage_buffer(2 as nat as int)] == blocks_value(f, s, 2, frames, x));
    assert(s2[decoder::stage_buffer(3 as nat as int)] == blocks_value(f, s, 3, frames, x));
    assert(s2[decoder::stage_buffer(4 as nat as int)] == blocks_value(f, s, 4, frames, x));
}

proof fn lemma_positive(a: int, b: int)
    by (nonlinear_arith)
    requires
        a > 0,
        b > 0,
    ensures
        a * b > 0,
{
}

/// Four buffers of the same length.
pub open spec fn four(len: int) -> Seq<usize> {
    seq![len as usize, len as usize, len as usize, len as usize]
}

#[verifier::spinoff_prover]
#[verifier::rlimit(40)]
proof fn lemma_unit_in_bounds(
    lens: Seq<usize>,
    outer: spec_fn(Operand) -> nat,
    input_len: Seq<nat>,
    base: usize,
    block: usize,
    unit: usize,
    frames: usize,
    input: usize,
    output: usize,
)
    requires
        outer == sizes::outer_len(input_len),
        lens.len() == base,
        base <= usize::MAX - 4,
        input < base,
        output < base,
        0 < sizes::block_dims(block as int).1 * frames <= usize::MAX,
        lens[input as int] == sizes::block_dims(block as int).1 * frames,
        lens[output as int] == sizes::block_dims(block as int).1 * frames,
    ensures
        ({
            let channels = sizes::block_dims(block as int).1;
            let ops = decoder::unit_ops(
                base,
                block,
                unit,
                channels,
                frames,
                op::scratch(input),
                op::scratch(output),
            );
            &&& plan::in_bounds(ops, lens, outer)
            &&& plan::alloc_lens(ops) == four(channels * frames)
        }),
{
    let channels = sizes::block_dims(block as int).1;
    let buffers = decoder::unit_buffers(channels, frames);
    let steps = decoder::unit_steps(
        base,
        block,
        unit,
        channels,
        frames,
        op::scratch(input),
        op::scratch(output),
    );
    let none = Seq::<usize>::empty();
    plan::lemma_only_allocs(buffers, lens, outer);
    assert(plan::alloc_lens(buffers) =~= four(channels * frames));
    let grown = lens + four(channels * frames);
    assert(grown[base as int] == channels * frames);
    assert(grown[base + 1] == channels * frames);
    assert(grown[base + 2] == channels * frames);
    assert(grown[base + 3] == channels * frames);
    assert(grown[input as int] == lens[input as int]);
    assert(grown[output as int] == lens[output as int]);
    assert(channels * channels * 1 == channels * channels);
    assert forall|i: int| 0 <= i < steps.len() implies plan::fits(
        grown,
        outer,
        #[trigger] steps[i],
    ) by {
        plan::lemma_fits(grown, outer, steps[i]);
    }
    plan::lemma_in_bounds_runs(steps, grown, outer);
    assert(four(channels * frames) + none =~= four(channels * frames));
    plan::lemma_alloc_lens_concat(buffers, steps);
    plan::lemma_in_bounds_concat(buffers, steps, lens, outer);
}

/// The lengths of the scratch buffers of a block.
pub open spec fn block_lens(block: usize, in_frames: usize) -> Seq<usize> {
    let (in_channels, out_channels, stride) = sizes::block_dims(block as int);
    let len = out_channels * ((in_frames * stride) as usize);
    seq![(in_channels * in_frames) as usize, len as usize, len as usize] + four(len) + seq![
        len as usize,
    ] + four(len) + four(len)
}

#[verifier::spinoff_prover]
#[verifier::rlimit(40)]
proof fn lemma_block_head_in_bounds(
    lens: Seq<usize>,
    outer: spec_fn(Operand) -> nat,
    input_len: Seq<nat>,
    base: usize,
    block: usize,
    in_frames: usize,
    input: usize,
)
    requires
        outer == sizes::outer_len(input_len),
        lens.len() == base,
        base <= usize::MAX - 16,
        input < base,
        in_frames > 0,
        decoder::block_fits(block as int, in_frames as int),
        lens[input as int] == sizes::block_dims(block as int).0 * in_frames,
    ensures
        ({
            let ops = decoder::block_head(base, block, in_frames, op::scratch(input));
            &&& plan::in_bounds(ops, lens, outer)
            &&& plan::alloc_lens(ops) == block_lens(block, in_frames).take(3)
        }),
{
    let (in_channels, out_channels, stride) = sizes::block_dims(block as int);
    let out_frames = (in_frames * stride) as usize;
    let ops = decoder::block_head(base, block, in_frames, op::scratch(input));
    let len = (out_channels * out_frames) as usize;
    let lens_1 = lens.push((in_channels * in_frames) as usize);
    let lens_2 = lens_1.push(len);
    lemma_positive(in_channels as int, in_frames as int);
    lemma_positive(in_frames as int, stride as int);
    lemma_positive(out_channels as int, out_frames as int);
    assert(in_channels * out_channels * (stride * 2) == sizes::weight_len(
        Weight::BlockTransWeight { block },
    ));
    plan::lemma_fits(lens_1, outer, ops[1]);
    plan::lemma_fits(lens_2, outer, ops[3]);
    reveal_with_fuel(plan::in_bounds_from, 6);
    reveal_with_fuel(plan::alloc_lens, 6);
    assert(ops.drop_last().drop_last().drop_last().drop_last().drop_last() =~= Seq::<Op>::empty());
    assert(plan::alloc_lens(ops) =~= block_lens(block, in_frames).take(3));
}

/// A block stays within its buffers when its input and its output have the lengths
/// that its dimensions ask for.
#[verifier::spinoff_prover]
#[verifier::rlimit(60)]
proof fn lemma_block_in_bounds(
    lens: Seq<usize>,
    outer: spec_fn(Operand) -> nat,
    input_len: Seq<nat>,
    base: usize,
    block: usize,
    in_frames: usize,
    input: usize,
    output: usize,
)
    requires
        outer == sizes::outer_len(input_len),
        lens.len() == base,
        base <= usize::MAX - 16,
        input < base,
        output < base,
        in_frames > 0,
        decoder::block_fits(block as int, in_frames as int),
        lens[input as int] == sizes::block_dims(block as int).0 * in_frames,
        lens[output as int] == sizes::block_dims(block as int).1 * (in_frames * sizes::block_dims(
            block as int,
        ).2),
    ensures
        ({
            let ops = decoder::block_ops(
                base,
                block,
                in_frames,
                op::scratch(input),
                op::scratch(output),
            );
            &&& plan::in_bounds(ops, lens, outer)
            &&& plan::alloc_lens(ops) == block_lens(block, in_frames)
        }),
{
    let (in_channels, out_channels, stride) = sizes::block_dims(block as int);
    let out_frames = (in_frames * stride) as usize;
    let len = (out_channels * out_frames) as usize;
    let trans = (base + 1) as usize;
    let res1 = (base + 2) as usize;
    let res2 = (base + 7) as usize;
    let head = decoder::block_head(base, block, in_frames, op::scratch(input));
    let unit1 = decoder::unit_ops(
        (base + 3) as usize,
        block,
        0,
        out_channels,
        out_frames,
        op::scratch(trans),
        op::scratch(res1),
    );
    let more = seq![op::make(out_channels * out_frames)];
    let unit2 = decoder::unit_ops(
        (base + 8) as usize,
        block,
        1,
        out_channels,
        out_frames,
        op::scratch(res1),
        op::scratch(res2),
    );
    let unit3 = decoder::unit_ops(
        (base + 12) as usize,
        block,
        2,
        out_channels,
        out_frames,
        op::scratch(res2),
        op::scratch(output),
    );
    lemma_positive(in_frames as int, stride as int);
    lemma_positive(out_channels as int, out_frames as int);
    let all = block_lens(block, in_frames);
    lemma_block_head_in_bounds(lens, outer, input_len, base, block, in_frames, input);
    let grown_1 = lens + all.take(3);
    lemma_unit_in_bounds(
        grown_1,
        outer,
        input_len,
        (base + 3) as usize,
        block,
        0,
        out_frames,
        trans,
        res1,
    );
    plan::lemma_in_bounds_concat(head, unit1, lens, outer);
    plan::lemma_alloc_lens_concat(head, unit1);
    assert(all.take(3) + four(out_channels * out_frames) =~= all.take(7));
    let grown_2 = lens + all.take(7);
    plan::lemma_only_allocs(more, grown_2, outer);
    assert(plan::alloc_lens(more) =~= seq![len]);
    plan::lemma_in_bounds_concat(head + unit1, more, lens, outer);
    plan::lemma_alloc_lens_concat(head + unit1, more);
    assert(all.take(7) + seq![len] =~= all.take(8));
    let grown_3 = lens + all.take(8);
    lemma_unit_in_bounds(
        grown_3,
        outer,
        input_len,
        (base + 8) as usize,
        block,
        1,
        out_frames,
        res1,
        res2,
    );
    plan::lemma_in_bounds_concat(head + unit1 + more, unit2, lens, outer);
    plan::lemma_alloc_lens_concat(head + unit1 + more, unit2);
    assert(all.take(8) + four(out_channels * out_frames) =~= all.take(12));
    let grown_4 = lens + all.take(12);
    lemma_unit_in_bounds(
        grown_4,
        outer,
        input_len,
        (base + 12) as usize,
        block,
        2,
        out_frames,
        res2,
        output,
    );
    plan::lemma_in_bounds_concat(head + unit1 + more + unit2, unit3, lens, outer);
    plan::lemma_alloc_lens_concat(head + unit1 + more + unit2, unit3);
    assert(all.take(12) + four(out_channels * out_frames) =~= all);
}

/// The lengths of all scratch buffers behind `count` blocks.
pub open spec fn decoder_lens(count: nat, frames: usize) -> Seq<usize>
    decreases count,
{
    if count == 0 {
        seq![(DECODER_INIT_CHANNELS * frames) as usize]
    } else {
        let block = (count - 1) as usize;
        let len = result_len(block as int, frames);
        decoder_lens((count - 1) as nat, frames) + seq![len as usize] + block_lens(
            block,
            (frames * decoder::ratio(block as int)) as usize,
        )
    }
}

/// The length of the result of block `block`.
pub open spec fn result_len(block: int, frames: usize) -> int {
    sizes::block_dims(block).1 * (frames * decoder::ratio(block + 1))
}

#[verifier::spinoff_prover]
#[verifier::rlimit(40)]
proof fn lemma_block_stage_in_bounds(
    lens: Seq<usize>,
    outer: spec_fn(Operand) -> nat,
    input_len: Seq<nat>,
    block: usize,
    frames: usize,
)
    requires
        outer == sizes::outer_len(input_len),
        frames > 0,
        frames * 46080 <= usize::MAX,
        block < 4,
        lens.len() == 17 * block + 1,
        lens[decoder::stage_buffer(block as int)->Scratch_0 as int] == sizes::block_dims(
            block as int,
        ).0 * (frames * decoder::ratio(block as int)),
    ensures
        plan::in_bounds(decoder::block_stage(block, frames), lens, outer),
        plan::alloc_lens(decoder::block_stage(block, frames)) == seq![
            result_len(block as int, frames) as usize,
        ] + block_lens(block, (frames * decoder::ratio(block as int)) as usize),
        0 < result_len(block as int, frames) <= usize::MAX,
        sizes::block_dims(block + 1).0 == sizes::block_dims(block as int).1 || block == 3,
{
    decoder::lemma_block_fits(block as int, frames as int);
    let in_frames = (frames * decoder::ratio(block as int)) as usize;
    let len = result_len(block as int, frames);
    let result = seq![op::make(len)];
    lemma_positive(frames as int, decoder::ratio(block as int));
    lemma_positive(frames as int, decoder::ratio(block + 1));
    lemma_positive(sizes::block_dims(block as int).1 as int, frames * decoder::ratio(block + 1));
    let base = (17 * block + 2) as usize;
    let input = decoder::stage_buffer(block as int)->Scratch_0;
    let output = (17 * block + 1) as usize;
    let body = decoder::block_ops(
        base,
        block,
        in_frames,
        op::scratch(input),
        op::scratch(output),
    );
    plan::lemma_only_allocs(result, lens, outer);
    assert(plan::alloc_lens(result) =~= seq![len as usize]);
    let grown = lens + seq![len as usize];
    assert(grown[input as int] == lens[input as int]);
    assert(grown[output as int] == len);
    lemma_block_in_bounds(grown, outer, input_len, base, block, in_frames, input, output);
    plan::lemma_in_bounds_concat(result, body, lens, outer);
    plan::lemma_alloc_lens_concat(result, body);
    assert(decoder::block_stage(block, frames) == result + body);
}

proof fn lemma_blocks_in_bounds(
    outer: spec_fn(Operand) -> nat,
    input_len: Seq<nat>,
    count: nat,
    frames: usize,
)
    requires
        outer == sizes::outer_len(input_len),
        frames > 0,
        frames * 46080 <= usize::MAX,
        count <= 4,
    ensures
        plan::in_bounds(decoder::blocks_ops(count, frames), decoder_lens(0, frames), outer),
        decoder_lens(0, frames) + plan::alloc_lens(decoder::blocks_ops(count, frames))
            == decoder_lens(count, frames),
        decoder_lens(count, frames).len() == 17 * count + 1,
        count == 0 ==> decoder_lens(count, frames)[0] == 1536 * (frames * 1),
        count > 0 ==> decoder_lens(count, frames)[17 * count - 16] == result_len(
            count - 1,
            frames,
        ),
    decreases count,
{
    let first = decoder_lens(0, frames);
    if count == 0 {
        assert(first + Seq::<usize>::empty() =~= first);
    } else {
        lemma_blocks_in_bounds(outer, input_len, (count - 1) as nat, frames);
        let block = (count - 1) as usize;
        let before = decoder::blocks_ops((count - 1) as nat, frames);
        let lens = decoder_lens((count - 1) as nat, frames);
        lemma_block_stage_in_bounds(lens, outer, input_len, block, frames);
        let stage = decoder::block_stage(block, frames);
        plan::lemma_in_bounds_concat(before, stage, first, outer);
        plan::lemma_alloc_lens_concat(before, stage);
        let len = seq![result_len(block as int, frames) as usize];
        let inner = block_lens(block, (frames * decoder::ratio(block as int)) as usize);
        assert(first + (plan::alloc_lens(before) + (len + inner)) =~= first + plan::alloc_lens(
            before,
        ) + len + inner);
        assert(decoder_lens(count, frames) == lens + len + inner);
        assert((lens + len + inner)[lens.len() as int] == len[0]);
    }
}

/// Every step of the decoder plan stays within its buffers, and no buffer is empty. The
/// buffer of the waveform has room for the samples and no more.
#[verifier::spinoff_prover]
#[verifier::rlimit(40)]
pub proof fn decoder_plan_in_bounds(frames: usize)
    requires
        frames > 0,
        frames * 46080 <= usize::MAX,
    ensures
        plan::in_bounds(
            decoder::decoder_ops(frames),
            Seq::empty(),
            sizes::outer_len(seq![(PRE_CONV_OUT * frames) as nat]),
        ),
        plan::alloc_lens(decoder::decoder_ops(frames)).len() == 72,
        plan::alloc_lens(decoder::decoder_ops(frames))[71] == frames * 480,
{
    let input_len = seq![(PRE_CONV_OUT * frames) as nat];
    let outer = sizes::outer_len(input_len);
    let none = Seq::<usize>::empty();
    let samples = (frames * 480) as usize;
    let head = decoder::decoder_head(frames);
    let blocks = decoder::blocks_ops(4, frames);
    let tail = decoder::decoder_tail(samples);
    let first = decoder_lens(0, frames);
    assert(none.push((DECODER_INIT_CHANNELS * frames) as usize) =~= first);
    plan::lemma_fits(first, outer, head[1]);
    assert(plan::in_bounds(head, none, outer)) by {
        reveal_with_fuel(plan::in_bounds_from, 3);
    }
    assert(plan::alloc_lens(head) =~= first) by {
        reveal_with_fuel(plan::alloc_lens, 3);
        assert(head.drop_last().drop_last() =~= Seq::<Op>::empty());
    }
    assert(none + first =~= first);
    lemma_blocks_in_bounds(outer, input_len, 4, frames);
    plan::lemma_in_bounds_concat(head, blocks, none, outer);
    plan::lemma_alloc_lens_concat(head, blocks);
    let lens = decoder_lens(4, frames);
    assert(none + lens =~= lens);
    let lens_1 = lens.push((DECODER_FINAL_CHANNELS * samples) as usize);
    let lens_2 = lens_1.push(samples);
    let lens_3 = lens_2.push(samples);
    assert(lens_1[52] == lens[52]);
    assert(lens_1[69] == DECODER_FINAL_CHANNELS * samples);
    assert(lens_2[69] == DECODER_FINAL_CHANNELS * samples);
    assert(lens_2[70] == samples);
    assert(1 * samples == samples);
    assert(lens_3[70] == samples);
    assert(lens_3[71] == samples);
    plan::lemma_fits(lens_1, outer, tail[1]);
    plan::lemma_fits(lens_2, outer, tail[3]);
    plan::lemma_fits(lens_3, outer, tail[5]);
    assert(plan::in_bounds(tail, lens, outer)) by {
        reveal_with_fuel(plan::in_bounds_from, 7);
    }
    plan::lemma_in_bounds_concat(head + blocks, tail, none, outer);
    plan::lemma_alloc_lens_concat(head + blocks, tail);
    lemma_tail_lens(samples);
}

proof fn lemma_tail_lens(samples: usize)
    ensures
        plan::alloc_lens(decoder::decoder_tail(samples)) == seq![
            (DECODER_FINAL_CHANNELS * samples) as usize,
            samples,
            samples,
        ],
{
    let tail = decoder::decoder_tail(samples);
    reveal_with_fuel(plan::alloc_lens, 7);
    assert(tail.drop_last().drop_last().drop_last().drop_last().drop_last().drop_last()
        =~= Seq::<Op>::empty());
    assert(plan::alloc_lens(tail) =~= seq![
        (DECODER_FINAL_CHANNELS * samples) as usize,
        samples,
        samples,
    ]);
}

/// One code frame becomes 1920 samples: the two upsampling stages multiply the frames
/// by four and the decoder by another 480.
pub proof fn samples_per_frame(frames: usize)
    requires
        frames * 1920 <= usize::MAX,
    ensures
        ({
            let wide = crate::codec::upsample::upsample_outputs(frames).frames_1;
            decoder::decoder_outputs(wide).frames_4 == frames
                * crate::codec::dims::SAMPLES_PER_FRAME
        }),
{
}

} // verus!

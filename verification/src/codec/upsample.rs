//! The two upsampling stages, as a device plan.

use vstd::prelude::*;

use crate::codec::dims::{CONVNEXT_INTERMEDIATE, UPSAMPLE_CHANNELS, UPSAMPLE_RATIO};
use crate::codec::sizes;
use crate::codec::transformer_laws;
use crate::device::op::{self, Call, Inputs, Memory, Op, Operand, UpsampleWeight, Weight};
use crate::device::plan::{self, Plan};

verus! {

/// The buffers that the upsampling stages leave behind, and their frame counts.
#[derive(Clone, Copy, PartialEq, Eq, Structural, Debug)]
pub struct HipCodecUpsampleOutputs {
    pub upsample_0_0: Operand,
    pub upsample_0_1: Operand,
    pub upsample_1_0: Operand,
    pub upsample_1_1: Operand,
    pub frames_0: usize,
    pub frames_1: usize,
}

pub open spec fn stage_weight(stage: usize, tensor: UpsampleWeight) -> Operand {
    Operand::Weight(Weight::Upsample { stage, tensor })
}

/// The scratch buffers of a stage: the depthwise convolution, its transpose, the norm,
/// the two pointwise layers with the activation between them.
pub open spec fn stage_buffers(out_frames: usize) -> Seq<Op> {
    let narrow = op::make(out_frames * UPSAMPLE_CHANNELS);
    let wide = op::make(out_frames * CONVNEXT_INTERMEDIATE);
    seq![narrow, narrow, narrow, wide, wide, narrow]
}

/// The steps of a stage behind its allocations, which are numbered from `base` on.
pub open spec fn stage_block(
    base: usize,
    stage: usize,
    out_frames: usize,
    trans_output: Operand,
    block_output: Operand,
) -> Seq<Op> {
    let dw = op::scratch(base);
    let dw_tc = op::scratch((base + 1) as usize);
    let norm = op::scratch((base + 2) as usize);
    let pw1 = op::scratch((base + 3) as usize);
    let gelu = op::scratch((base + 4) as usize);
    let pw2 = op::scratch((base + 5) as usize);
    seq![
        op::run3(
            Call::DepthwiseConv1d { frames: out_frames },
            trans_output,
            stage_weight(stage, UpsampleWeight::DepthwiseWeight),
            stage_weight(stage, UpsampleWeight::DepthwiseBias),
            dw,
        ),
        op::run1(
            Call::TransposeCtToTc { channels: UPSAMPLE_CHANNELS, frames: out_frames },
            dw,
            dw_tc,
        ),
        op::run3(
            Call::LayerNorm { rows: out_frames, cols: UPSAMPLE_CHANNELS },
            dw_tc,
            stage_weight(stage, UpsampleWeight::NormGamma),
            stage_weight(stage, UpsampleWeight::NormBeta),
            norm,
        ),
        op::run2(
            op::gemm(out_frames, CONVNEXT_INTERMEDIATE, UPSAMPLE_CHANNELS),
            norm,
            stage_weight(stage, UpsampleWeight::Pointwise1Weight),
            pw1,
        ),
        op::run2(
            Call::BiasAdd { rows: out_frames, cols: CONVNEXT_INTERMEDIATE },
            pw1,
            stage_weight(stage, UpsampleWeight::Pointwise1Bias),
            pw1,
        ),
        op::run1(
            Call::Gelu { total: (out_frames * CONVNEXT_INTERMEDIATE) as usize },
            pw1,
            gelu,
        ),
        op::run2(
            op::gemm(out_frames, UPSAMPLE_CHANNELS, CONVNEXT_INTERMEDIATE),
            gelu,
            stage_weight(stage, UpsampleWeight::Pointwise2Weight),
            pw2,
        ),
        op::run2(
            Call::BiasAdd { rows: out_frames, cols: UPSAMPLE_CHANNELS },
            pw2,
            stage_weight(stage, UpsampleWeight::Pointwise2Bias),
            pw2,
        ),
        op::run3(
            Call::ConvNextResidual { frames: out_frames },
            trans_output,
            pw2,
            stage_weight(stage, UpsampleWeight::Gamma),
            block_output,
        ),
    ]
}

/// The transposed convolution that opens a stage.
pub open spec fn stage_trans(
    stage: usize,
    in_frames: usize,
    input: Operand,
    trans_output: Operand,
) -> Seq<Op> {
    let out_frames = (in_frames * UPSAMPLE_RATIO) as usize;
    seq![
        op::run3(
            Call::TransConv1d { in_frames, out_frames },
            input,
            stage_weight(stage, UpsampleWeight::TransWeight),
            stage_weight(stage, UpsampleWeight::TransBias),
            trans_output,
        ),
    ]
}

/// All steps of a stage.
pub open spec fn stage_ops(
    base: usize,
    stage: usize,
    in_frames: usize,
    input: Operand,
    trans_output: Operand,
    block_output: Operand,
) -> Seq<Op> {
    let out_frames = (in_frames * UPSAMPLE_RATIO) as usize;
    stage_trans(stage, in_frames, input, trans_output) + stage_buffers(out_frames) + stage_block(
        base,
        stage,
        out_frames,
        trans_output,
        block_output,
    )
}

/// The two result buffers of a stage.
pub open spec fn stage_results(out_frames: usize) -> Seq<Op> {
    let result = op::make(UPSAMPLE_CHANNELS * out_frames);
    seq![result, result]
}

/// All steps of the two stages.
pub open spec fn upsample_ops(frames: usize) -> Seq<Op> {
    let frames_0 = (frames * UPSAMPLE_RATIO) as usize;
    let frames_1 = (frames_0 * UPSAMPLE_RATIO) as usize;
    stage_results(frames_0) + stage_ops(
        2,
        0,
        frames,
        Operand::Input(0),
        op::scratch(0),
        op::scratch(1),
    ) + stage_results(frames_1) + stage_ops(
        10,
        1,
        frames_0,
        op::scratch(1),
        op::scratch(8),
        op::scratch(9),
    )
}

/// What the two stages leave behind.
pub open spec fn upsample_outputs(frames: usize) -> HipCodecUpsampleOutputs {
    HipCodecUpsampleOutputs {
        upsample_0_0: op::scratch(0),
        upsample_0_1: op::scratch(1),
        upsample_1_0: op::scratch(8),
        upsample_1_1: op::scratch(9),
        frames_0: (frames * 2) as usize,
        frames_1: (frames * 4) as usize,
    }
}

/// Adds one upsampling stage.
fn run_upsample_stage(
    plan: &mut Plan,
    stage: usize,
    in_frames: usize,
    input: Operand,
    trans_output: Operand,
    block_output: Operand,
)
    requires
        old(plan).wf(),
        old(plan).buffers <= usize::MAX - 6,
        in_frames * UPSAMPLE_RATIO * CONVNEXT_INTERMEDIATE <= usize::MAX,
    ensures
        final(plan).wf(),
        final(plan).buffers == old(plan).buffers + 6,
        final(plan)@ == old(plan)@ + stage_ops(
            old(plan).buffers,
            stage,
            in_frames,
            input,
            trans_output,
            block_output,
        ),
{
    let ghost before = plan@;
    let out_frames: usize = in_frames * UPSAMPLE_RATIO;
    let trans_weight = Operand::Weight(
        Weight::Upsample { stage, tensor: UpsampleWeight::TransWeight },
    );
    let trans_bias = Operand::Weight(Weight::Upsample { stage, tensor: UpsampleWeight::TransBias });
    plan.run(
        Call::TransConv1d { in_frames, out_frames },
        Inputs::Three(input, trans_weight, trans_bias),
        trans_output,
    );
    let dw = plan.scratch(UPSAMPLE_CHANNELS * out_frames);
    let dw_tc = plan.scratch(out_frames * UPSAMPLE_CHANNELS);
    let norm = plan.scratch(out_frames * UPSAMPLE_CHANNELS);
    let pw1 = plan.scratch(out_frames * CONVNEXT_INTERMEDIATE);
    let gelu = plan.scratch(out_frames * CONVNEXT_INTERMEDIATE);
    let pw2 = plan.scratch(out_frames * UPSAMPLE_CHANNELS);
    let dw_weight = Operand::Weight(
        Weight::Upsample { stage, tensor: UpsampleWeight::DepthwiseWeight },
    );
    let dw_bias = Operand::Weight(
        Weight::Upsample { stage, tensor: UpsampleWeight::DepthwiseBias },
    );
    plan.run(
        Call::DepthwiseConv1d { frames: out_frames },
        Inputs::Three(trans_output, dw_weight, dw_bias),
        dw,
    );
    plan.run(
        Call::TransposeCtToTc { channels: UPSAMPLE_CHANNELS, frames: out_frames },
        Inputs::One(dw),
        dw_tc,
    );
    let norm_gamma = Operand::Weight(Weight::Upsample { stage, tensor: UpsampleWeight::NormGamma });
    let norm_beta = Operand::Weight(Weight::Upsample { stage, tensor: UpsampleWeight::NormBeta });
    plan.run(
        Call::LayerNorm { rows: out_frames, cols: UPSAMPLE_CHANNELS },
        Inputs::Three(dw_tc, norm_gamma, norm_beta),
        norm,
    );
    let pw1_weight = Operand::Weight(
        Weight::Upsample { stage, tensor: UpsampleWeight::Pointwise1Weight },
    );
    plan.run(
        Call::Gemm { m: out_frames, n: CONVNEXT_INTERMEDIATE, k: UPSAMPLE_CHANNELS },
        Inputs::Two(norm, pw1_weight),
        pw1,
    );
    let pw1_bias = Operand::Weight(
        Weight::Upsample { stage, tensor: UpsampleWeight::Pointwise1Bias },
    );
    plan.run(
        Call::BiasAdd { rows: out_frames, cols: CONVNEXT_INTERMEDIATE },
        Inputs::Two(pw1, pw1_bias),
        pw1,
    );
    plan.run(
        Call::Gelu { total: out_frames * CONVNEXT_INTERMEDIATE },
        Inputs::One(pw1),
        gelu,
    );
    let pw2_weight = Operand::Weight(
        Weight::Upsample { stage, tensor: UpsampleWeight::Pointwise2Weight },
    );
    plan.run(
        Call::Gemm { m: out_frames, n: UPSAMPLE_CHANNELS, k: CONVNEXT_INTERMEDIATE },
        Inputs::Two(gelu, pw2_weight),
        pw2,
    );
    let pw2_bias = Operand::Weight(
        Weight::Upsample { stage, tensor: UpsampleWeight::Pointwise2Bias },
    );
    plan.run(
        Call::BiasAdd { rows: out_frames, cols: UPSAMPLE_CHANNELS },
        Inputs::Two(pw2, pw2_bias),
        pw2,
    );
    let gamma = Operand::Weight(Weight::Upsample { stage, tensor: UpsampleWeight::Gamma });
    plan.run(
        Call::ConvNextResidual { frames: out_frames },
        Inputs::Three(trans_output, pw2, gamma),
        block_output,
    );
    proof {
        assert(plan@ =~= before + stage_ops(
            old(plan).buffers,
            stage,
            in_frames,
            input,
            trans_output,
            block_output,
        ));
    }
}

/// The plan of the two upsampling stages on `frames` frames.
pub fn upsample_plan(frames: usize) -> (planned: (Plan, HipCodecUpsampleOutputs))
    requires
        frames * 4 * CONVNEXT_INTERMEDIATE <= usize::MAX,
    ensures
        planned.0.wf(),
        planned.0@ == upsample_ops(frames),
        planned.1 == upsample_outputs(frames),
{
    let mut plan = Plan::new();
    let frames_0: usize = frames * UPSAMPLE_RATIO;
    let upsample_0_0 = plan.scratch(UPSAMPLE_CHANNELS * frames_0);
    let upsample_0_1 = plan.scratch(UPSAMPLE_CHANNELS * frames_0);
    proof {
        assert(plan@ =~= stage_results(frames_0));
    }
    run_upsample_stage(&mut plan, 0, frames, Operand::Input(0), upsample_0_0, upsample_0_1);
    let ghost middle = plan@;
    let frames_1: usize = frames_0 * UPSAMPLE_RATIO;
    let upsample_1_0 = plan.scratch(UPSAMPLE_CHANNELS * frames_1);
    let upsample_1_1 = plan.scratch(UPSAMPLE_CHANNELS * frames_1);
    proof {
        assert(plan@ =~= middle + stage_results(frames_1));
    }
    run_upsample_stage(&mut plan, 1, frames_0, upsample_0_1, upsample_1_0, upsample_1_1);
    (
        plan,
        HipCodecUpsampleOutputs {
            upsample_0_0,
            upsample_0_1,
            upsample_1_0,
            upsample_1_1,
            frames_0,
            frames_1,
        },
    )
}

/// What the transposed convolution of a stage gives, as a function of its input.
pub open spec fn trans_value<V>(
    f: spec_fn(Call, Seq<V>) -> V,
    w: Memory<V>,
    stage: usize,
    in_frames: usize,
    x: V,
) -> V {
    f(
        Call::TransConv1d { in_frames, out_frames: (in_frames * UPSAMPLE_RATIO) as usize },
        seq![
            x,
            w[stage_weight(stage, UpsampleWeight::TransWeight)],
            w[stage_weight(stage, UpsampleWeight::TransBias)],
        ],
    )
}

/// What a stage gives, as a function of what its transposed convolution gave.
pub open spec fn convnext_value<V>(
    f: spec_fn(Call, Seq<V>) -> V,
    w: Memory<V>,
    stage: usize,
    frames: usize,
    x: V,
) -> V {
    let dw = f(
        Call::DepthwiseConv1d { frames },
        seq![
            x,
            w[stage_weight(stage, UpsampleWeight::DepthwiseWeight)],
            w[stage_weight(stage, UpsampleWeight::DepthwiseBias)],
        ],
    );
    let rows = f(Call::TransposeCtToTc { channels: UPSAMPLE_CHANNELS, frames }, seq![dw]);
    let norm = f(
        Call::LayerNorm { rows: frames, cols: UPSAMPLE_CHANNELS },
        seq![
            rows,
            w[stage_weight(stage, UpsampleWeight::NormGamma)],
            w[stage_weight(stage, UpsampleWeight::NormBeta)],
        ],
    );
    let wide = f(
        Call::BiasAdd { rows: frames, cols: CONVNEXT_INTERMEDIATE },
        seq![
            f(
                op::gemm(frames, CONVNEXT_INTERMEDIATE, UPSAMPLE_CHANNELS),
                seq![norm, w[stage_weight(stage, UpsampleWeight::Pointwise1Weight)]],
            ),
            w[stage_weight(stage, UpsampleWeight::Pointwise1Bias)],
        ],
    );
    let active = f(
        Call::Gelu { total: (frames * CONVNEXT_INTERMEDIATE) as usize },
        seq![wide],
    );
    let update = f(
        Call::BiasAdd { rows: frames, cols: UPSAMPLE_CHANNELS },
        seq![
            f(
                op::gemm(frames, UPSAMPLE_CHANNELS, CONVNEXT_INTERMEDIATE),
                seq![active, w[stage_weight(stage, UpsampleWeight::Pointwise2Weight)]],
            ),
            w[stage_weight(stage, UpsampleWeight::Pointwise2Bias)],
        ],
    );
    f(
        Call::ConvNextResidual { frames },
        seq![x, update, w[stage_weight(stage, UpsampleWeight::Gamma)]],
    )
}

/// A buffer that a stage with scratch buffers from `base` on neither makes nor writes.
pub open spec fn outside_stage(
    base: usize,
    trans_output: Operand,
    block_output: Operand,
    o: Operand,
) -> bool {
    &&& o != trans_output
    &&& o != block_output
    &&& forall|i: usize| base <= i < base + 6 ==> o != #[trigger] op::scratch(i)
}

#[verifier::spinoff_prover]
#[verifier::rlimit(60)]
proof fn lemma_stage_value<V>(
    f: spec_fn(Call, Seq<V>) -> V,
    s: Memory<V>,
    base: usize,
    stage: usize,
    in_frames: usize,
    input: Operand,
    t: usize,
    b: usize,
)
    requires
        t < base,
        b < base,
        t != b,
        base <= usize::MAX - 6,
        !(input is Scratch) || input->Scratch_0 < base,
    ensures
        ({
            let end = op::run(
                f,
                s,
                stage_ops(base, stage, in_frames, input, op::scratch(t), op::scratch(b)),
            );
            let out_frames = (in_frames * UPSAMPLE_RATIO) as usize;
            let trans = trans_value(f, s, stage, in_frames, s[input]);
            &&& end[op::scratch(t)] == trans
            &&& end[op::scratch(b)] == convnext_value(f, s, stage, out_frames, trans)
            &&& transformer_laws::same_model(end, s)
            &&& forall|o: Operand| #[trigger]
                outside_stage(base, op::scratch(t), op::scratch(b), o) ==> end[o] == s[o]
        }),
{
    let out_frames = (in_frames * UPSAMPLE_RATIO) as usize;
    let trans = stage_trans(stage, in_frames, input, op::scratch(t));
    let buffers = stage_buffers(out_frames);
    let block = stage_block(base, stage, out_frames, op::scratch(t), op::scratch(b));
    let whole = stage_ops(base, stage, in_frames, input, op::scratch(t), op::scratch(b));
    op::lemma_run_concat(f, s, trans, buffers);
    op::lemma_run_concat(f, s, trans + buffers, block);
    let s1 = op::run(f, s, trans);
    assert(s1 == s.insert(op::scratch(t), trans_value(f, s, stage, in_frames, s[input]))) by {
        reveal_with_fuel(op::run_from, 2);
    }
    transformer_laws::lemma_allocations_keep_memory(f, s1, buffers);
    assert(op::run(f, s1, block)[op::scratch(b)] == convnext_value(
        f,
        s1,
        stage,
        out_frames,
        s1[op::scratch(t)],
    )) by {
        reveal_with_fuel(op::run_from, 10);
    }
    assert(op::leaves_alone(block, op::scratch(t)));
    op::lemma_leaves_alone(f, s1, block, op::scratch(t));
    assert(transformer_laws::keeps_model(whole));
    transformer_laws::lemma_keeps_model(f, s, whole);
    assert forall|o: Operand| #[trigger]
        outside_stage(base, op::scratch(t), op::scratch(b), o) implies op::run(f, s, whole)[o]
        == s[o] by {
        assert(o != op::scratch(base));
        assert(o != op::scratch((base + 1) as usize));
        assert(o != op::scratch((base + 2) as usize));
        assert(o != op::scratch((base + 3) as usize));
        assert(o != op::scratch((base + 4) as usize));
        assert(o != op::scratch((base + 5) as usize));
        op::lemma_leaves_alone(f, s, whole, o);
    }
}

/// The plan of the upsampling stages leaves in its four result buffers what the stages
/// compute from the first input: each stage is a transposed convolution and a ConvNeXt
/// block, and the second one works on what the first one gave.
pub proof fn upsample_plan_computes_stages<V>(
    f: spec_fn(Call, Seq<V>) -> V,
    s: Memory<V>,
    frames: usize,
)
    requires
        frames * 4 <= usize::MAX,
    ensures
        ({
            let end = op::run(f, s, upsample_ops(frames));
            let out = upsample_outputs(frames);
            let trans_0 = trans_value(f, s, 0, frames, s[Operand::Input(0)]);
            let block_0 = convnext_value(f, s, 0, out.frames_0, trans_0);
            let trans_1 = trans_value(f, s, 1, out.frames_0, block_0);
            &&& end[out.upsample_0_0] == trans_0
            &&& end[out.upsample_0_1] == block_0
            &&& end[out.upsample_1_0] == trans_1
            &&& end[out.upsample_1_1] == convnext_value(f, s, 1, out.frames_1, trans_1)
        }),
{
    let frames_0 = (frames * UPSAMPLE_RATIO) as usize;
    let frames_1 = (frames_0 * UPSAMPLE_RATIO) as usize;
    let results_0 = stage_results(frames_0);
    let stage_0 = stage_ops(2, 0, frames, Operand::Input(0), op::scratch(0), op::scratch(1));
    let results_1 = stage_results(frames_1);
    let stage_1 = stage_ops(10, 1, frames_0, op::scratch(1), op::scratch(8), op::scratch(9));
    op::lemma_run_concat(f, s, results_0, stage_0);
    op::lemma_run_concat(f, s, results_0 + stage_0, results_1);
    op::lemma_run_concat(f, s, results_0 + stage_0 + results_1, stage_1);
    transformer_laws::lemma_allocations_keep_memory(f, s, results_0);
    lemma_stage_value(f, s, 2, 0, frames, Operand::Input(0), 0, 1);
    let s1 = op::run(f, s, stage_0);
    transformer_laws::lemma_allocations_keep_memory(f, s1, results_1);
    lemma_stage_value(f, s1, 10, 1, frames_0, op::scratch(1), 8, 9);
    assert(outside_stage(10, op::scratch(8), op::scratch(9), op::scratch(0)));
    assert(outside_stage(10, op::scratch(8), op::scratch(9), op::scratch(1)));
}

/// The lengths of the scratch buffers of a stage.
pub open spec fn stage_lens(out_frames: usize) -> Seq<usize> {
    let narrow = (out_frames * UPSAMPLE_CHANNELS) as usize;
    let wide = (out_frames * CONVNEXT_INTERMEDIATE) as usize;
    seq![narrow, narrow, narrow, wide, wide, narrow]
}

#[verifier::spinoff_prover]
#[verifier::rlimit(60)]
proof fn lemma_stage_in_bounds(
    lens: Seq<usize>,
    outer: spec_fn(Operand) -> nat,
    input_len: Seq<nat>,
    base: usize,
    stage: usize,
    in_frames: usize,
    input: Operand,
    t: usize,
    b: usize,
)
    requires
        outer == sizes::outer_len(input_len),
        lens.len() == base,
        base <= usize::MAX - 6,
        in_frames > 0,
        in_frames * UPSAMPLE_RATIO * CONVNEXT_INTERMEDIATE <= usize::MAX,
        t < base,
        b < base,
        lens[t as int] == in_frames * 2048,
        lens[b as int] == in_frames * 2048,
        plan::operand_len(lens, outer, input) == in_frames * 1024,
        input is Weight || input is Input || input->Scratch_0 < base,
    ensures
        plan::in_bounds(
            stage_ops(base, stage, in_frames, input, op::scratch(t), op::scratch(b)),
            lens,
            outer,
        ),
        plan::alloc_lens(
            stage_ops(base, stage, in_frames, input, op::scratch(t), op::scratch(b)),
        ) == stage_lens((in_frames * UPSAMPLE_RATIO) as usize),
{
    let out_frames = (in_frames * UPSAMPLE_RATIO) as usize;
    let trans = stage_trans(stage, in_frames, input, op::scratch(t));
    let buffers = stage_buffers(out_frames);
    let block = stage_block(base, stage, out_frames, op::scratch(t), op::scratch(b));
    let none = Seq::<usize>::empty();
    assert forall|i: int| 0 <= i < trans.len() implies plan::fits(
        lens,
        outer,
        #[trigger] trans[i],
    ) by {
        plan::lemma_fits(lens, outer, trans[i]);
    }
    plan::lemma_in_bounds_runs(trans, lens, outer);
    plan::lemma_only_allocs(buffers, lens, outer);
    assert(plan::alloc_lens(buffers) =~= stage_lens(out_frames));
    let grown = lens + stage_lens(out_frames);
    assert(grown[base as int] == out_frames * UPSAMPLE_CHANNELS);
    assert(grown[base + 1] == out_frames * UPSAMPLE_CHANNELS);
    assert(grown[base + 2] == out_frames * UPSAMPLE_CHANNELS);
    assert(grown[base + 3] == out_frames * CONVNEXT_INTERMEDIATE);
    assert(grown[base + 4] == out_frames * CONVNEXT_INTERMEDIATE);
    assert(grown[base + 5] == out_frames * UPSAMPLE_CHANNELS);
    assert(grown[t as int] == lens[t as int]);
    assert(grown[b as int] == lens[b as int]);
    assert forall|i: int| 0 <= i < block.len() implies plan::fits(
        grown,
        outer,
        #[trigger] block[i],
    ) by {
        plan::lemma_fits(grown, outer, block[i]);
    }
    plan::lemma_in_bounds_runs(block, grown, outer);
    assert(lens + none =~= lens);
    assert(none + stage_lens(out_frames) =~= stage_lens(out_frames));
    assert(stage_lens(out_frames) + none =~= stage_lens(out_frames));
    plan::lemma_alloc_lens_concat(trans, buffers);
    plan::lemma_alloc_lens_concat(trans + buffers, block);
    plan::lemma_in_bounds_concat(trans, buffers, lens, outer);
    plan::lemma_in_bounds_concat(trans + buffers, block, lens, outer);
}

/// Every step of the upsampling plan stays within its buffers, and no buffer is empty.
pub proof fn upsample_plan_in_bounds(frames: usize)
    requires
        frames > 0,
        frames * 4 * CONVNEXT_INTERMEDIATE <= usize::MAX,
    ensures
        plan::in_bounds(
            upsample_ops(frames),
            Seq::empty(),
            sizes::outer_len(seq![(UPSAMPLE_CHANNELS * frames) as nat]),
        ),
{
    let input_len = seq![(UPSAMPLE_CHANNELS * frames) as nat];
    let outer = sizes::outer_len(input_len);
    let none = Seq::<usize>::empty();
    let frames_0 = (frames * UPSAMPLE_RATIO) as usize;
    let frames_1 = (frames_0 * UPSAMPLE_RATIO) as usize;
    let results_0 = stage_results(frames_0);
    let stage_0 = stage_ops(2, 0, frames, Operand::Input(0), op::scratch(0), op::scratch(1));
    let results_1 = stage_results(frames_1);
    let stage_1 = stage_ops(10, 1, frames_0, op::scratch(1), op::scratch(8), op::scratch(9));
    plan::lemma_only_allocs(results_0, none, outer);
    let lens_0 = seq![(frames * 2048) as usize, (frames * 2048) as usize];
    assert(plan::alloc_lens(results_0) =~= lens_0);
    assert(none + lens_0 =~= lens_0);
    lemma_stage_in_bounds(lens_0, outer, input_len, 2, 0, frames, Operand::Input(0), 0, 1);
    plan::lemma_in_bounds_concat(results_0, stage_0, none, outer);
    plan::lemma_alloc_lens_concat(results_0, stage_0);
    let lens_1 = lens_0 + stage_lens(frames_0);
    assert(none + lens_1 =~= lens_1);
    plan::lemma_only_allocs(results_1, lens_1, outer);
    let pair = seq![(frames * 4096) as usize, (frames * 4096) as usize];
    assert(plan::alloc_lens(results_1) =~= pair);
    plan::lemma_in_bounds_concat(results_0 + stage_0, results_1, none, outer);
    plan::lemma_alloc_lens_concat(results_0 + stage_0, results_1);
    let lens_2 = lens_1 + pair;
    assert(none + lens_2 =~= lens_2);
    lemma_stage_in_bounds(lens_2, outer, input_len, 10, 1, frames_0, op::scratch(1), 8, 9);
    plan::lemma_in_bounds_concat(results_0 + stage_0 + results_1, stage_1, none, outer);
}

} // verus!

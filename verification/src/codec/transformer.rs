//! The transformer in front of the upsampling stages, as a device plan.

use vstd::prelude::*;

use crate::codec::dims::{
    PRE_CONV_OUT, TRANSFORMER_EPSILON, TRANSFORMER_HEADS, TRANSFORMER_HEAD_DIM, TRANSFORMER_HIDDEN,
    TRANSFORMER_INTERMEDIATE, TRANSFORMER_Q_OUT, TRANSFORMER_SCALE, TRANSFORMER_THETA,
};
use crate::device::op::{self, Call, Inputs, LayerWeight, Op, Operand, Weight};
use crate::device::plan::Plan;

verus! {

/// The scratch buffers of the plan, by number.
pub const INPUT_TC: usize = 0;

pub const HIDDEN_A: usize = 1;

pub const HIDDEN_B: usize = 2;

pub const NORMED: usize = 3;

pub const Q_PROJ: usize = 4;

pub const K_PROJ: usize = 5;

pub const V_PROJ: usize = 6;

pub const Q_BHSD: usize = 7;

pub const K_BHSD: usize = 8;

pub const V_BHSD: usize = 9;

pub const Q_ROPE: usize = 10;

pub const K_ROPE: usize = 11;

pub const SCORES: usize = 12;

pub const PROBS: usize = 13;

pub const ATTENDED: usize = 14;

pub const PROJECTED: usize = 15;

pub const ATTN_OUTPUT: usize = 16;

pub const POST_NORM: usize = 17;

pub const GATE: usize = 18;

pub const UP: usize = 19;

pub const SWIGLU: usize = 20;

pub const MLP_DOWN: usize = 21;

pub const OUTPUT_TC: usize = 22;

/// The buffer that holds the result.
pub const OUTPUT_CT: usize = 23;

pub open spec fn layer_weight(index: usize, part: LayerWeight) -> Operand {
    Operand::Weight(Weight::Layer { index, part })
}

/// The scratch buffers that the transformer works in.
pub open spec fn transformer_buffers(frames: usize) -> Seq<Op> {
    let wide = op::make(frames * PRE_CONV_OUT);
    let hidden = op::make(frames * TRANSFORMER_HIDDEN);
    let heads = op::make(frames * TRANSFORMER_Q_OUT);
    let square = op::make(TRANSFORMER_HEADS * frames * frames);
    let mlp = op::make(frames * TRANSFORMER_INTERMEDIATE);
    seq![
        wide, hidden, hidden, hidden, heads, heads, heads, heads, heads, heads, heads, heads,
        square, square, heads, hidden, hidden, hidden, mlp, mlp, mlp, hidden, wide, wide,
    ]
}

pub open spec fn norm_call(frames: usize) -> Call {
    Call::RmsNorm { rows: frames, cols: TRANSFORMER_HIDDEN, epsilon: TRANSFORMER_EPSILON }
}

pub open spec fn permute_call(frames: usize) -> Call {
    Call::Permute {
        batch: 1,
        steps: frames,
        heads: TRANSFORMER_HEADS,
        head_dim: TRANSFORMER_HEAD_DIM,
    }
}

pub open spec fn rope_call(frames: usize) -> Call {
    Call::Rope {
        total: (TRANSFORMER_HEADS * frames * TRANSFORMER_HEAD_DIM) as usize,
        heads: TRANSFORMER_HEADS,
        steps: frames,
        head_dim: TRANSFORMER_HEAD_DIM,
        offset: 0,
        theta: TRANSFORMER_THETA,
    }
}

pub open spec fn scores_call(frames: usize) -> Call {
    Call::AttentionScores {
        batch: 1,
        q_heads: TRANSFORMER_HEADS,
        kv_heads: TRANSFORMER_HEADS,
        query_steps: frames,
        key_steps: frames,
        head_dim: TRANSFORMER_HEAD_DIM,
        offset: 0,
        scale: TRANSFORMER_SCALE,
    }
}

pub open spec fn softmax_call(frames: usize) -> Call {
    Call::Softmax { rows: (TRANSFORMER_HEADS * frames) as usize, cols: frames }
}

pub open spec fn apply_call(frames: usize) -> Call {
    Call::ApplyValue {
        batch: 1,
        q_heads: TRANSFORMER_HEADS,
        kv_heads: TRANSFORMER_HEADS,
        query_steps: frames,
        key_steps: frames,
        head_dim: TRANSFORMER_HEAD_DIM,
    }
}

pub open spec fn scaled_add_call(frames: usize) -> Call {
    Call::ScaledResidualAdd { rows: frames, cols: TRANSFORMER_HIDDEN }
}

pub open spec fn swiglu_call(frames: usize) -> Call {
    Call::Swiglu { total: (frames * TRANSFORMER_INTERMEDIATE) as usize }
}

/// The steps in front of the first layer.
pub open spec fn transformer_head(frames: usize) -> Seq<Op> {
    seq![
        op::run1(
            Call::TransposeCtToTc { channels: PRE_CONV_OUT, frames },
            Operand::Input(0),
            op::scratch(INPUT_TC),
        ),
        op::run2(
            op::gemm(frames, TRANSFORMER_HIDDEN, PRE_CONV_OUT),
            op::scratch(INPUT_TC),
            Operand::Weight(Weight::InputProjection),
            op::scratch(HIDDEN_A),
        ),
        op::run2(
            Call::BiasAdd { rows: frames, cols: TRANSFORMER_HIDDEN },
            op::scratch(HIDDEN_A),
            Operand::Weight(Weight::InputBias),
            op::scratch(HIDDEN_A),
        ),
    ]
}

/// The attention half of layer `index`.
pub open spec fn attention_ops(frames: usize, index: usize, input: Operand) -> Seq<Op> {
    let project = op::gemm(frames, TRANSFORMER_Q_OUT, TRANSFORMER_HIDDEN);
    seq![
        op::run2(
            norm_call(frames),
            input,
            layer_weight(index, LayerWeight::InputGamma),
            op::scratch(NORMED),
        ),
        op::run2(project, op::scratch(NORMED), layer_weight(index, LayerWeight::Query), op::scratch(Q_PROJ)),
        op::run2(project, op::scratch(NORMED), layer_weight(index, LayerWeight::Key), op::scratch(K_PROJ)),
        op::run2(project, op::scratch(NORMED), layer_weight(index, LayerWeight::Value), op::scratch(V_PROJ)),
        op::run1(permute_call(frames), op::scratch(Q_PROJ), op::scratch(Q_BHSD)),
        op::run1(permute_call(frames), op::scratch(K_PROJ), op::scratch(K_BHSD)),
        op::run1(permute_call(frames), op::scratch(V_PROJ), op::scratch(V_BHSD)),
        op::run1(rope_call(frames), op::scratch(Q_BHSD), op::scratch(Q_ROPE)),
        op::run1(rope_call(frames), op::scratch(K_BHSD), op::scratch(K_ROPE)),
        op::run2(scores_call(frames), op::scratch(Q_ROPE), op::scratch(K_ROPE), op::scratch(SCORES)),
        op::run1(softmax_call(frames), op::scratch(SCORES), op::scratch(PROBS)),
        op::run2(apply_call(frames), op::scratch(PROBS), op::scratch(V_BHSD), op::scratch(ATTENDED)),
        op::run2(
            op::gemm(frames, TRANSFORMER_HIDDEN, TRANSFORMER_Q_OUT),
            op::scratch(ATTENDED),
            layer_weight(index, LayerWeight::Output),
            op::scratch(PROJECTED),
        ),
        op::run3(
            scaled_add_call(frames),
            input,
            op::scratch(PROJECTED),
            layer_weight(index, LayerWeight::AttentionScale),
            op::scratch(ATTN_OUTPUT),
        ),
    ]
}

/// The feed-forward half of layer `index`.
pub open spec fn mlp_ops(frames: usize, index: usize, output: Operand) -> Seq<Op> {
    let widen = op::gemm(frames, TRANSFORMER_INTERMEDIATE, TRANSFORMER_HIDDEN);
    seq![
        op::run2(
            norm_call(frames),
            op::scratch(ATTN_OUTPUT),
            layer_weight(index, LayerWeight::PostGamma),
            op::scratch(POST_NORM),
        ),
        op::run2(widen, op::scratch(POST_NORM), layer_weight(index, LayerWeight::Gate), op::scratch(GATE)),
        op::run2(widen, op::scratch(POST_NORM), layer_weight(index, LayerWeight::Up), op::scratch(UP)),
        op::run2(swiglu_call(frames), op::scratch(GATE), op::scratch(UP), op::scratch(SWIGLU)),
        op::run2(
            op::gemm(frames, TRANSFORMER_HIDDEN, TRANSFORMER_INTERMEDIATE),
            op::scratch(SWIGLU),
            layer_weight(index, LayerWeight::Down),
            op::scratch(MLP_DOWN),
        ),
        op::run3(
            scaled_add_call(frames),
            op::scratch(ATTN_OUTPUT),
            op::scratch(MLP_DOWN),
            layer_weight(index, LayerWeight::MlpScale),
            output,
        ),
    ]
}

/// The buffer that holds the hidden state in front of layer `index`: the two hidden
/// buffers take turns.
pub open spec fn hidden(index: int) -> Operand {
    if index % 2 == 0 {
        op::scratch(HIDDEN_A)
    } else {
        op::scratch(HIDDEN_B)
    }
}

/// The steps of the first `count` layers.
pub open spec fn layers_ops(frames: usize, count: nat) -> Seq<Op>
    decreases count,
{
    if count == 0 {
        Seq::empty()
    } else {
        let index = (count - 1) as usize;
        layers_ops(frames, (count - 1) as nat) + attention_ops(frames, index, hidden(index as int))
            + mlp_ops(frames, index, hidden(count as int))
    }
}

/// The steps behind the last of `layers` layers.
pub open spec fn transformer_tail(frames: usize, layers: nat) -> Seq<Op> {
    seq![
        op::run2(
            norm_call(frames),
            hidden(layers as int),
            Operand::Weight(Weight::FinalNorm),
            op::scratch(NORMED),
        ),
        op::run2(
            op::gemm(frames, PRE_CONV_OUT, TRANSFORMER_HIDDEN),
            op::scratch(NORMED),
            Operand::Weight(Weight::OutputProjection),
            op::scratch(OUTPUT_TC),
        ),
        op::run2(
            Call::BiasAdd { rows: frames, cols: PRE_CONV_OUT },
            op::scratch(OUTPUT_TC),
            Operand::Weight(Weight::OutputBias),
            op::scratch(OUTPUT_TC),
        ),
        op::run1(
            Call::TransposeTcToCt { frames, channels: PRE_CONV_OUT },
            op::scratch(OUTPUT_TC),
            op::scratch(OUTPUT_CT),
        ),
    ]
}

/// All steps of the transformer with `layers` layers.
pub open spec fn transformer_ops(frames: usize, layers: nat) -> Seq<Op> {
    transformer_buffers(frames) + transformer_head(frames) + layers_ops(frames, layers)
        + transformer_tail(frames, layers)
}

fn push_buffers(plan: &mut Plan, frames: usize)
    requires
        old(plan).wf(),
        old(plan).buffers == 0,
        frames * PRE_CONV_OUT <= usize::MAX,
        TRANSFORMER_HEADS * frames * frames <= usize::MAX,
    ensures
        final(plan).wf(),
        final(plan).buffers == 24,
        final(plan)@ == old(plan)@ + transformer_buffers(frames),
{
    let wide: usize = frames * PRE_CONV_OUT;
    let hidden: usize = frames * TRANSFORMER_HIDDEN;
    let heads: usize = frames * TRANSFORMER_Q_OUT;
    let square: usize = TRANSFORMER_HEADS * frames * frames;
    let mlp: usize = frames * TRANSFORMER_INTERMEDIATE;
    let lens: [usize; 24] = [
        wide, hidden, hidden, hidden, heads, heads, heads, heads, heads, heads, heads, heads,
        square, square, heads, hidden, hidden, hidden, mlp, mlp, mlp, hidden, wide, wide,
    ];
    let ghost before = plan@;
    let mut index: usize = 0;
    while index < 24
        invariant
            index <= 24,
            plan.wf(),
            plan.buffers == index,
            plan@ == before + lens@.take(index as int).map_values(|len: usize| Op::Alloc { len }),
        decreases 24 - index,
    {
        plan.scratch(lens[index]);
        index += 1;
        proof {
            assert(plan@ =~= before + lens@.take(index as int).map_values(
                |len: usize| Op::Alloc { len },
            ));
        }
    }
    proof {
        assert(lens@.take(24) =~= lens@);
        assert(plan@ =~= before + transformer_buffers(frames));
    }
}

fn push_attention(plan: &mut Plan, frames: usize, index: usize, input: Operand)
    requires
        old(plan).wf(),
        frames * PRE_CONV_OUT <= usize::MAX,
        TRANSFORMER_HEADS * frames * TRANSFORMER_HEAD_DIM <= usize::MAX,
    ensures
        final(plan).wf(),
        final(plan).buffers == old(plan).buffers,
        final(plan)@ == old(plan)@ + attention_ops(frames, index, input),
{
    let ghost before = plan@;
    let norm = Call::RmsNorm {
        rows: frames,
        cols: TRANSFORMER_HIDDEN,
        epsilon: TRANSFORMER_EPSILON,
    };
    let project = Call::Gemm { m: frames, n: TRANSFORMER_Q_OUT, k: TRANSFORMER_HIDDEN };
    let permute = Call::Permute {
        batch: 1,
        steps: frames,
        heads: TRANSFORMER_HEADS,
        head_dim: TRANSFORMER_HEAD_DIM,
    };
    let rope = Call::Rope {
        total: TRANSFORMER_HEADS * frames * TRANSFORMER_HEAD_DIM,
        heads: TRANSFORMER_HEADS,
        steps: frames,
        head_dim: TRANSFORMER_HEAD_DIM,
        offset: 0,
        theta: TRANSFORMER_THETA,
    };
    let scores = Call::AttentionScores {
        batch: 1,
        q_heads: TRANSFORMER_HEADS,
        kv_heads: TRANSFORMER_HEADS,
        query_steps: frames,
        key_steps: frames,
        head_dim: TRANSFORMER_HEAD_DIM,
        offset: 0,
        scale: TRANSFORMER_SCALE,
    };
    let softmax = Call::Softmax { rows: TRANSFORMER_HEADS * frames, cols: frames };
    let apply = Call::ApplyValue {
        batch: 1,
        q_heads: TRANSFORMER_HEADS,
        kv_heads: TRANSFORMER_HEADS,
        query_steps: frames,
        key_steps: frames,
        head_dim: TRANSFORMER_HEAD_DIM,
    };
    let normed = Operand::Scratch(NORMED);
    let gamma = Operand::Weight(Weight::Layer { index, part: LayerWeight::InputGamma });
    plan.run(norm, Inputs::Two(input, gamma), normed);
    let query = Operand::Weight(Weight::Layer { index, part: LayerWeight::Query });
    plan.run(project, Inputs::Two(normed, query), Operand::Scratch(Q_PROJ));
    let key = Operand::Weight(Weight::Layer { index, part: LayerWeight::Key });
    plan.run(project, Inputs::Two(normed, key), Operand::Scratch(K_PROJ));
    let value = Operand::Weight(Weight::Layer { index, part: LayerWeight::Value });
    plan.run(project, Inputs::Two(normed, value), Operand::Scratch(V_PROJ));
    plan.run(permute, Inputs::One(Operand::Scratch(Q_PROJ)), Operand::Scratch(Q_BHSD));
    plan.run(permute, Inputs::One(Operand::Scratch(K_PROJ)), Operand::Scratch(K_BHSD));
    plan.run(permute, Inputs::One(Operand::Scratch(V_PROJ)), Operand::Scratch(V_BHSD));
    plan.run(rope, Inputs::One(Operand::Scratch(Q_BHSD)), Operand::Scratch(Q_ROPE));
    plan.run(rope, Inputs::One(Operand::Scratch(K_BHSD)), Operand::Scratch(K_ROPE));
    plan.run(
        scores,
        Inputs::Two(Operand::Scratch(Q_ROPE), Operand::Scratch(K_ROPE)),
        Operand::Scratch(SCORES),
    );
    plan.run(softmax, Inputs::One(Operand::Scratch(SCORES)), Operand::Scratch(PROBS));
    plan.run(
        apply,
        Inputs::Two(Operand::Scratch(PROBS), Operand::Scratch(V_BHSD)),
        Operand::Scratch(ATTENDED),
    );
    let output = Operand::Weight(Weight::Layer { index, part: LayerWeight::Output });
    plan.run(
        Call::Gemm { m: frames, n: TRANSFORMER_HIDDEN, k: TRANSFORMER_Q_OUT },
        Inputs::Two(Operand::Scratch(ATTENDED), output),
        Operand::Scratch(PROJECTED),
    );
    let scale = Operand::Weight(Weight::Layer { index, part: LayerWeight::AttentionScale });
    plan.run(
        Call::ScaledResidualAdd { rows: frames, cols: TRANSFORMER_HIDDEN },
        Inputs::Three(input, Operand::Scratch(PROJECTED), scale),
        Operand::Scratch(ATTN_OUTPUT),
    );
    proof {
        assert(plan@ =~= before + attention_ops(frames, index, input));
    }
}

fn push_mlp(plan: &mut Plan, frames: usize, index: usize, output: Operand)
    requires
        old(plan).wf(),
        frames * PRE_CONV_OUT <= usize::MAX,
    ensures
        final(plan).wf(),
        final(plan).buffers == old(plan).buffers,
        final(plan)@ == old(plan)@ + mlp_ops(frames, index, output),
{
    let ghost before = plan@;
    let widen = Call::Gemm { m: frames, n: TRANSFORMER_INTERMEDIATE, k: TRANSFORMER_HIDDEN };
    let gamma = Operand::Weight(Weight::Layer { index, part: LayerWeight::PostGamma });
    plan.run(
        Call::RmsNorm { rows: frames, cols: TRANSFORMER_HIDDEN, epsilon: TRANSFORMER_EPSILON },
        Inputs::Two(Operand::Scratch(ATTN_OUTPUT), gamma),
        Operand::Scratch(POST_NORM),
    );
    let gate = Operand::Weight(Weight::Layer { index, part: LayerWeight::Gate });
    plan.run(widen, Inputs::Two(Operand::Scratch(POST_NORM), gate), Operand::Scratch(GATE));
    let up = Operand::Weight(Weight::Layer { index, part: LayerWeight::Up });
    plan.run(widen, Inputs::Two(Operand::Scratch(POST_NORM), up), Operand::Scratch(UP));
    plan.run(
        Call::Swiglu { total: frames * TRANSFORMER_INTERMEDIATE },
        Inputs::Two(Operand::Scratch(GATE), Operand::Scratch(UP)),
        Operand::Scratch(SWIGLU),
    );
    let down = Operand::Weight(Weight::Layer { index, part: LayerWeight::Down });
    plan.run(
        Call::Gemm { m: frames, n: TRANSFORMER_HIDDEN, k: TRANSFORMER_INTERMEDIATE },
        Inputs::Two(Operand::Scratch(SWIGLU), down),
        Operand::Scratch(MLP_DOWN),
    );
    let scale = Operand::Weight(Weight::Layer { index, part: LayerWeight::MlpScale });
    plan.run(
        Call::ScaledResidualAdd { rows: frames, cols: TRANSFORMER_HIDDEN },
        Inputs::Three(Operand::Scratch(ATTN_OUTPUT), Operand::Scratch(MLP_DOWN), scale),
        output,
    );
    proof {
        assert(plan@ =~= before + mlp_ops(frames, index, output));
    }
}

/// The plan of the transformer with `layers` layers on `frames` frames.
pub fn transformer_plan(frames: usize, layers: usize) -> (plan: Plan)
    requires
        frames * PRE_CONV_OUT <= usize::MAX,
        TRANSFORMER_HEADS * frames * frames <= usize::MAX,
    ensures
        plan.wf(),
        plan@ == transformer_ops(frames, layers as nat),
{
    let mut plan = Plan::new();
    push_buffers(&mut plan, frames);
    let hidden_a = Operand::Scratch(HIDDEN_A);
    let hidden_b = Operand::Scratch(HIDDEN_B);
    plan.run(
        Call::TransposeCtToTc { channels: PRE_CONV_OUT, frames },
        Inputs::One(Operand::Input(0)),
        Operand::Scratch(INPUT_TC),
    );
    plan.run(
        Call::Gemm { m: frames, n: TRANSFORMER_HIDDEN, k: PRE_CONV_OUT },
        Inputs::Two(Operand::Scratch(INPUT_TC), Operand::Weight(Weight::InputProjection)),
        hidden_a,
    );
    plan.run(
        Call::BiasAdd { rows: frames, cols: TRANSFORMER_HIDDEN },
        Inputs::Two(hidden_a, Operand::Weight(Weight::InputBias)),
        hidden_a,
    );
    let ghost front = transformer_buffers(frames) + transformer_head(frames);
    proof {
        assert(plan@ =~= front);
        assert(front + layers_ops(frames, 0) =~= front);
    }
    let mut current_a: bool = true;
    let mut index: usize = 0;
    while index < layers
        invariant
            index <= layers,
            current_a == (index % 2 == 0),
            hidden_a == op::scratch(HIDDEN_A),
            hidden_b == op::scratch(HIDDEN_B),
            plan.wf(),
            frames * PRE_CONV_OUT <= usize::MAX,
            plan@ == front + layers_ops(frames, index as nat),
        decreases layers - index,
    {
        let (input, output) = if current_a {
            (hidden_a, hidden_b)
        } else {
            (hidden_b, hidden_a)
        };
        let ghost before = plan@;
        push_attention(&mut plan, frames, index, input);
        push_mlp(&mut plan, frames, index, output);
        current_a = !current_a;
        index += 1;
        proof {
            assert(output == hidden(index as int));
            assert(plan@ =~= front + layers_ops(frames, index as nat));
        }
    }
    let final_hidden = if current_a {
        hidden_a
    } else {
        hidden_b
    };
    let ghost before_tail = plan@;
    plan.run(
        Call::RmsNorm { rows: frames, cols: TRANSFORMER_HIDDEN, epsilon: TRANSFORMER_EPSILON },
        Inputs::Two(final_hidden, Operand::Weight(Weight::FinalNorm)),
        Operand::Scratch(NORMED),
    );
    plan.run(
        Call::Gemm { m: frames, n: PRE_CONV_OUT, k: TRANSFORMER_HIDDEN },
        Inputs::Two(Operand::Scratch(NORMED), Operand::Weight(Weight::OutputProjection)),
        Operand::Scratch(OUTPUT_TC),
    );
    plan.run(
        Call::BiasAdd { rows: frames, cols: PRE_CONV_OUT },
        Inputs::Two(Operand::Scratch(OUTPUT_TC), Operand::Weight(Weight::OutputBias)),
        Operand::Scratch(OUTPUT_TC),
    );
    plan.run(
        Call::TransposeTcToCt { frames, channels: PRE_CONV_OUT },
        Inputs::One(Operand::Scratch(OUTPUT_TC)),
        Operand::Scratch(OUTPUT_CT),
    );
    proof {
        assert(plan@ =~= before_tail + transformer_tail(frames, layers as nat));
    }
    plan
}

} // verus!

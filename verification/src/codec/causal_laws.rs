//! The transformer looks at no frame that is still to come.

use vstd::prelude::*;

use crate::codec::dims::{
    PRE_CONV_OUT, TRANSFORMER_HEADS, TRANSFORMER_HEAD_DIM, TRANSFORMER_HIDDEN,
    TRANSFORMER_INTERMEDIATE, TRANSFORMER_LAYERS, TRANSFORMER_Q_OUT,
};
use crate::codec::transformer::{self, OUTPUT_CT};
use crate::codec::transformer_laws::{self, transformer_plan_computes_transformer};
use crate::device::op::{self, Call, LayerWeight, Memory, Op, Operand, Weight};
use crate::device::plan::{self, Plan};

verus! {

/// How the frames lie in a buffer of the transformer.
pub enum Layout {
    /// Channel after channel, each with all its frames.
    Channels { channels: usize },
    /// Frame after frame, each with all its numbers.
    Rows { width: usize },
    /// Head after head, each with all its frames.
    Heads,
    /// For every head and frame, how much each frame matters to it, before the scores of
    /// a frame are weighed against one another.
    Scores,
    /// For every head and frame, the share that each frame has in it.
    Shares,
}

/// The layouts of what a call of the transformer reads; `None` for a tensor of the model.
pub open spec fn reads(call: Call) -> Seq<Option<Layout>> {
    match call {
        Call::TransposeCtToTc { channels, .. } => seq![Some(Layout::Channels { channels })],
        Call::TransposeTcToCt { channels, .. } => seq![Some(Layout::Rows { width: channels })],
        Call::Gemm { k, .. } => seq![Some(Layout::Rows { width: k }), None],
        Call::BiasAdd { cols, .. } => seq![Some(Layout::Rows { width: cols }), None],
        Call::RmsNorm { cols, .. } => seq![Some(Layout::Rows { width: cols }), None],
        Call::Permute { .. } => seq![Some(Layout::Rows { width: TRANSFORMER_Q_OUT })],
        Call::Rope { .. } => seq![Some(Layout::Heads)],
        Call::AttentionScores { .. } => seq![Some(Layout::Heads), Some(Layout::Heads)],
        Call::Softmax { .. } => seq![Some(Layout::Scores)],
        Call::ApplyValue { .. } => seq![Some(Layout::Shares), Some(Layout::Heads)],
        Call::ScaledResidualAdd { cols, .. } => seq![
            Some(Layout::Rows { width: cols }),
            Some(Layout::Rows { width: cols }),
            None,
        ],
        Call::Swiglu { .. } => seq![
            Some(Layout::Rows { width: TRANSFORMER_INTERMEDIATE }),
            Some(Layout::Rows { width: TRANSFORMER_INTERMEDIATE }),
        ],
        _ => Seq::empty(),
    }
}

/// The layout of what a call of the transformer gives.
pub open spec fn gives(call: Call) -> Layout {
    match call {
        Call::TransposeCtToTc { channels, .. } => Layout::Rows { width: channels },
        Call::TransposeTcToCt { channels, .. } => Layout::Channels { channels },
        Call::Gemm { n, .. } => Layout::Rows { width: n },
        Call::BiasAdd { cols, .. } => Layout::Rows { width: cols },
        Call::RmsNorm { cols, .. } => Layout::Rows { width: cols },
        Call::AttentionScores { .. } => Layout::Scores,
        Call::Softmax { .. } => Layout::Shares,
        Call::ApplyValue { .. } => Layout::Rows { width: TRANSFORMER_Q_OUT },
        Call::ScaledResidualAdd { cols, .. } => Layout::Rows { width: cols },
        Call::Swiglu { .. } => Layout::Rows { width: TRANSFORMER_INTERMEDIATE },
        _ => Layout::Heads,
    }
}

/// The calls that the transformer makes for `frames` frames.
pub open spec fn is_call(frames: usize, call: Call) -> bool {
    ||| call == Call::TransposeCtToTc { channels: PRE_CONV_OUT, frames }
    ||| call == op::gemm(frames, TRANSFORMER_HIDDEN, PRE_CONV_OUT)
    ||| call == op::gemm(frames, TRANSFORMER_Q_OUT, TRANSFORMER_HIDDEN)
    ||| call == op::gemm(frames, TRANSFORMER_HIDDEN, TRANSFORMER_Q_OUT)
    ||| call == op::gemm(frames, TRANSFORMER_INTERMEDIATE, TRANSFORMER_HIDDEN)
    ||| call == op::gemm(frames, TRANSFORMER_HIDDEN, TRANSFORMER_INTERMEDIATE)
    ||| call == op::gemm(frames, PRE_CONV_OUT, TRANSFORMER_HIDDEN)
    ||| call == Call::BiasAdd { rows: frames, cols: TRANSFORMER_HIDDEN }
    ||| call == Call::BiasAdd { rows: frames, cols: PRE_CONV_OUT }
    ||| call == transformer::norm_call(frames)
    ||| call == transformer::permute_call(frames)
    ||| call == transformer::rope_call(frames)
    ||| call == transformer::scores_call(frames)
    ||| call == transformer::softmax_call(frames)
    ||| call == transformer::apply_call(frames)
    ||| call == transformer::scaled_add_call(frames)
    ||| call == transformer::swiglu_call(frames)
    ||| call == Call::TransposeTcToCt { frames, channels: PRE_CONV_OUT }
}

/// Two lists of arguments of a call are alike: the tensors of the model are the same, and
/// the rest is alike in its layout.
pub open spec fn args_alike<V>(
    alike: spec_fn(Layout, V, V) -> bool,
    call: Call,
    a: Seq<V>,
    b: Seq<V>,
) -> bool {
    &&& a.len() == reads(call).len()
    &&& b.len() == reads(call).len()
    &&& forall|i: int|
        0 <= i < a.len() ==> match #[trigger] reads(call)[i] {
            None => a[i] == b[i],
            Some(layout) => alike(layout, a[i], b[i]),
        }
}

/// Every single call of the transformer gives what is alike for arguments that are alike.
pub open spec fn calls_keep_alike<V>(
    f: spec_fn(Call, Seq<V>) -> V,
    alike: spec_fn(Layout, V, V) -> bool,
    frames: usize,
) -> bool {
    forall|call: Call, a: Seq<V>, b: Seq<V>|
        #![trigger f(call, a), f(call, b)]
        is_call(frames, call) && args_alike(alike, call, a, b) ==> alike(
            gives(call),
            f(call, a),
            f(call, b),
        )
}

proof fn lemma_one<V>(
    f: spec_fn(Call, Seq<V>) -> V,
    alike: spec_fn(Layout, V, V) -> bool,
    frames: usize,
    call: Call,
    a: V,
    b: V,
)
    requires
        calls_keep_alike(f, alike, frames),
        is_call(frames, call),
        reads(call).len() == 1,
        reads(call)[0] is Some,
        alike(reads(call)[0]->0, a, b),
    ensures
        alike(gives(call), f(call, seq![a]), f(call, seq![b])),
{
    assert(args_alike(alike, call, seq![a], seq![b]));
}

proof fn lemma_weighted<V>(
    f: spec_fn(Call, Seq<V>) -> V,
    alike: spec_fn(Layout, V, V) -> bool,
    frames: usize,
    call: Call,
    a: V,
    b: V,
    weight: V,
)
    requires
        calls_keep_alike(f, alike, frames),
        is_call(frames, call),
        reads(call).len() == 2,
        reads(call)[0] is Some,
        reads(call)[1] is None,
        alike(reads(call)[0]->0, a, b),
    ensures
        alike(gives(call), f(call, seq![a, weight]), f(call, seq![b, weight])),
{
    assert(args_alike(alike, call, seq![a, weight], seq![b, weight]));
}

proof fn lemma_two<V>(
    f: spec_fn(Call, Seq<V>) -> V,
    alike: spec_fn(Layout, V, V) -> bool,
    frames: usize,
    call: Call,
    a: (V, V),
    b: (V, V),
)
    requires
        calls_keep_alike(f, alike, frames),
        is_call(frames, call),
        reads(call).len() == 2,
        reads(call)[0] is Some,
        reads(call)[1] is Some,
        alike(reads(call)[0]->0, a.0, b.0),
        alike(reads(call)[1]->0, a.1, b.1),
    ensures
        alike(gives(call), f(call, seq![a.0, a.1]), f(call, seq![b.0, b.1])),
{
    assert(args_alike(alike, call, seq![a.0, a.1], seq![b.0, b.1]));
}

proof fn lemma_scaled<V>(
    f: spec_fn(Call, Seq<V>) -> V,
    alike: spec_fn(Layout, V, V) -> bool,
    frames: usize,
    a: (V, V),
    b: (V, V),
    scale: V,
)
    requires
        calls_keep_alike(f, alike, frames),
        alike(Layout::Rows { width: TRANSFORMER_HIDDEN }, a.0, b.0),
        alike(Layout::Rows { width: TRANSFORMER_HIDDEN }, a.1, b.1),
    ensures
        alike(
            Layout::Rows { width: TRANSFORMER_HIDDEN },
            f(transformer::scaled_add_call(frames), seq![a.0, a.1, scale]),
            f(transformer::scaled_add_call(frames), seq![b.0, b.1, scale]),
        ),
{
    assert(args_alike(
        alike,
        transformer::scaled_add_call(frames),
        seq![a.0, a.1, scale],
        seq![b.0, b.1, scale],
    ));
}

proof fn lemma_heads<V>(
    f: spec_fn(Call, Seq<V>) -> V,
    alike: spec_fn(Layout, V, V) -> bool,
    frames: usize,
    a: V,
    b: V,
    weight: V,
)
    requires
        calls_keep_alike(f, alike, frames),
        alike(Layout::Rows { width: TRANSFORMER_HIDDEN }, a, b),
    ensures
        alike(
            Layout::Heads,
            transformer_laws::heads_value(f, frames, a, weight),
            transformer_laws::heads_value(f, frames, b, weight),
        ),
{
    let project = op::gemm(frames, TRANSFORMER_Q_OUT, TRANSFORMER_HIDDEN);
    lemma_weighted(f, alike, frames, project, a, b, weight);
    lemma_one(
        f,
        alike,
        frames,
        transformer::permute_call(frames),
        f(project, seq![a, weight]),
        f(project, seq![b, weight]),
    );
}

proof fn lemma_attention_alike<V>(
    f: spec_fn(Call, Seq<V>) -> V,
    alike: spec_fn(Layout, V, V) -> bool,
    w: Memory<V>,
    frames: usize,
    index: usize,
    a: V,
    b: V,
)
    requires
        calls_keep_alike(f, alike, frames),
        alike(Layout::Rows { width: TRANSFORMER_HIDDEN }, a, b),
    ensures
        alike(
            Layout::Rows { width: TRANSFORMER_HIDDEN },
            transformer_laws::attention_value(f, w, frames, index, a),
            transformer_laws::attention_value(f, w, frames, index, b),
        ),
{
    let gamma = w[transformer::layer_weight(index, LayerWeight::InputGamma)];
    let query = w[transformer::layer_weight(index, LayerWeight::Query)];
    let key = w[transformer::layer_weight(index, LayerWeight::Key)];
    let value = w[transformer::layer_weight(index, LayerWeight::Value)];
    let output = w[transformer::layer_weight(index, LayerWeight::Output)];
    let scale = w[transformer::layer_weight(index, LayerWeight::AttentionScale)];
    let norm = transformer::norm_call(frames);
    let rope = transformer::rope_call(frames);
    lemma_weighted(f, alike, frames, norm, a, b, gamma);
    let n_a = f(norm, seq![a, gamma]);
    let n_b = f(norm, seq![b, gamma]);
    lemma_heads(f, alike, frames, n_a, n_b, query);
    lemma_heads(f, alike, frames, n_a, n_b, key);
    lemma_heads(f, alike, frames, n_a, n_b, value);
    let hq_a = transformer_laws::heads_value(f, frames, n_a, query);
    let hq_b = transformer_laws::heads_value(f, frames, n_b, query);
    let hk_a = transformer_laws::heads_value(f, frames, n_a, key);
    let hk_b = transformer_laws::heads_value(f, frames, n_b, key);
    let v_a = transformer_laws::heads_value(f, frames, n_a, value);
    let v_b = transformer_laws::heads_value(f, frames, n_b, value);
    lemma_one(f, alike, frames, rope, hq_a, hq_b);
    lemma_one(f, alike, frames, rope, hk_a, hk_b);
    let q_a = f(rope, seq![hq_a]);
    let q_b = f(rope, seq![hq_b]);
    let k_a = f(rope, seq![hk_a]);
    let k_b = f(rope, seq![hk_b]);
    let scores = transformer::scores_call(frames);
    lemma_two(f, alike, frames, scores, (q_a, k_a), (q_b, k_b));
    let s_a = f(scores, seq![q_a, k_a]);
    let s_b = f(scores, seq![q_b, k_b]);
    let softmax = transformer::softmax_call(frames);
    lemma_one(f, alike, frames, softmax, s_a, s_b);
    let p_a = f(softmax, seq![s_a]);
    let p_b = f(softmax, seq![s_b]);
    let apply = transformer::apply_call(frames);
    lemma_two(f, alike, frames, apply, (p_a, v_a), (p_b, v_b));
    let t_a = f(apply, seq![p_a, v_a]);
    let t_b = f(apply, seq![p_b, v_b]);
    let project = op::gemm(frames, TRANSFORMER_HIDDEN, TRANSFORMER_Q_OUT);
    lemma_weighted(f, alike, frames, project, t_a, t_b, output);
    lemma_scaled(
        f,
        alike,
        frames,
        (a, f(project, seq![t_a, output])),
        (b, f(project, seq![t_b, output])),
        scale,
    );
}

proof fn lemma_mlp_alike<V>(
    f: spec_fn(Call, Seq<V>) -> V,
    alike: spec_fn(Layout, V, V) -> bool,
    w: Memory<V>,
    frames: usize,
    index: usize,
    a: V,
    b: V,
)
    requires
        calls_keep_alike(f, alike, frames),
        alike(Layout::Rows { width: TRANSFORMER_HIDDEN }, a, b),
    ensures
        alike(
            Layout::Rows { width: TRANSFORMER_HIDDEN },
            transformer_laws::mlp_value(f, w, frames, index, a),
            transformer_laws::mlp_value(f, w, frames, index, b),
        ),
{
    let gamma = w[transformer::layer_weight(index, LayerWeight::PostGamma)];
    let gate = w[transformer::layer_weight(index, LayerWeight::Gate)];
    let up = w[transformer::layer_weight(index, LayerWeight::Up)];
    let down = w[transformer::layer_weight(index, LayerWeight::Down)];
    let scale = w[transformer::layer_weight(index, LayerWeight::MlpScale)];
    let norm = transformer::norm_call(frames);
    lemma_weighted(f, alike, frames, norm, a, b, gamma);
    let n_a = f(norm, seq![a, gamma]);
    let n_b = f(norm, seq![b, gamma]);
    let widen = op::gemm(frames, TRANSFORMER_INTERMEDIATE, TRANSFORMER_HIDDEN);
    lemma_weighted(f, alike, frames, widen, n_a, n_b, gate);
    lemma_weighted(f, alike, frames, widen, n_a, n_b, up);
    let g_a = f(widen, seq![n_a, gate]);
    let g_b = f(widen, seq![n_b, gate]);
    let u_a = f(widen, seq![n_a, up]);
    let u_b = f(widen, seq![n_b, up]);
    let swiglu = transformer::swiglu_call(frames);
    lemma_two(f, alike, frames, swiglu, (g_a, u_a), (g_b, u_b));
    let x_a = f(swiglu, seq![g_a, u_a]);
    let x_b = f(swiglu, seq![g_b, u_b]);
    let narrow = op::gemm(frames, TRANSFORMER_HIDDEN, TRANSFORMER_INTERMEDIATE);
    lemma_weighted(f, alike, frames, narrow, x_a, x_b, down);
    lemma_scaled(
        f,
        alike,
        frames,
        (a, f(narrow, seq![x_a, down])),
        (b, f(narrow, seq![x_b, down])),
        scale,
    );
}

proof fn lemma_layers_alike<V>(
    f: spec_fn(Call, Seq<V>) -> V,
    alike: spec_fn(Layout, V, V) -> bool,
    w: Memory<V>,
    frames: usize,
    count: nat,
    a: V,
    b: V,
)
    requires
        calls_keep_alike(f, alike, frames),
        alike(Layout::Rows { width: TRANSFORMER_HIDDEN }, a, b),
    ensures
        alike(
            Layout::Rows { width: TRANSFORMER_HIDDEN },
            transformer_laws::layers_value(f, w, frames, count, a),
            transformer_laws::layers_value(f, w, frames, count, b),
        ),
    decreases count,
{
    if count > 0 {
        let fewer = (count - 1) as nat;
        let index = fewer as usize;
        lemma_layers_alike(f, alike, w, frames, fewer, a, b);
        let x_a = transformer_laws::layers_value(f, w, frames, fewer, a);
        let x_b = transformer_laws::layers_value(f, w, frames, fewer, b);
        lemma_attention_alike(f, alike, w, frames, index, x_a, x_b);
        lemma_mlp_alike(
            f,
            alike,
            w,
            frames,
            index,
            transformer_laws::attention_value(f, w, frames, index, x_a),
            transformer_laws::attention_value(f, w, frames, index, x_b),
        );
    }
}

proof fn lemma_transformer_alike<V>(
    f: spec_fn(Call, Seq<V>) -> V,
    alike: spec_fn(Layout, V, V) -> bool,
    w: Memory<V>,
    frames: usize,
    layers: nat,
    a: V,
    b: V,
)
    requires
        calls_keep_alike(f, alike, frames),
        alike(Layout::Channels { channels: PRE_CONV_OUT }, a, b),
    ensures
        alike(
            Layout::Channels { channels: PRE_CONV_OUT },
            transformer_laws::transformer_value(f, w, frames, layers, a),
            transformer_laws::transformer_value(f, w, frames, layers, b),
        ),
{
    let transpose = Call::TransposeCtToTc { channels: PRE_CONV_OUT, frames };
    lemma_one(f, alike, frames, transpose, a, b);
    let r_a = f(transpose, seq![a]);
    let r_b = f(transpose, seq![b]);
    let enter = op::gemm(frames, TRANSFORMER_HIDDEN, PRE_CONV_OUT);
    let enter_weight = w[Operand::Weight(Weight::InputProjection)];
    lemma_weighted(f, alike, frames, enter, r_a, r_b, enter_weight);
    let bias = Call::BiasAdd { rows: frames, cols: TRANSFORMER_HIDDEN };
    lemma_weighted(
        f,
        alike,
        frames,
        bias,
        f(enter, seq![r_a, enter_weight]),
        f(enter, seq![r_b, enter_weight]),
        w[Operand::Weight(Weight::InputBias)],
    );
    let e_a = transformer_laws::embedded_value(f, w, frames, a);
    let e_b = transformer_laws::embedded_value(f, w, frames, b);
    lemma_layers_alike(f, alike, w, frames, layers, e_a, e_b);
    let x_a = transformer_laws::layers_value(f, w, frames, layers, e_a);
    let x_b = transformer_laws::layers_value(f, w, frames, layers, e_b);
    let norm = transformer::norm_call(frames);
    let gamma = w[Operand::Weight(Weight::FinalNorm)];
    lemma_weighted(f, alike, frames, norm, x_a, x_b, gamma);
    let n_a = f(norm, seq![x_a, gamma]);
    let n_b = f(norm, seq![x_b, gamma]);
    let leave = op::gemm(frames, PRE_CONV_OUT, TRANSFORMER_HIDDEN);
    let leave_weight = w[Operand::Weight(Weight::OutputProjection)];
    lemma_weighted(f, alike, frames, leave, n_a, n_b, leave_weight);
    let p_a = f(leave, seq![n_a, leave_weight]);
    let p_b = f(leave, seq![n_b, leave_weight]);
    let last_bias = Call::BiasAdd { rows: frames, cols: PRE_CONV_OUT };
    let last_weight = w[Operand::Weight(Weight::OutputBias)];
    lemma_weighted(f, alike, frames, last_bias, p_a, p_b, last_weight);
    lemma_one(
        f,
        alike,
        frames,
        Call::TransposeTcToCt { frames, channels: PRE_CONV_OUT },
        f(last_bias, seq![p_a, last_weight]),
        f(last_bias, seq![p_b, last_weight]),
    );
}

/// Every step writes to a scratch buffer.
pub open spec fn writes_scratch(ops: Seq<Op>) -> bool {
    forall|i: int|
        0 <= i < ops.len() ==> (#[trigger] ops[i] matches Op::Run { output, .. } ==> output
            is Scratch)
}

proof fn lemma_layers_write_scratch(frames: usize, count: nat)
    ensures
        writes_scratch(transformer::layers_ops(frames, count)),
    decreases count,
{
    if count > 0 {
        let index = (count - 1) as usize;
        lemma_layers_write_scratch(frames, (count - 1) as nat);
        assert(writes_scratch(
            transformer::attention_ops(frames, index, transformer::hidden(index as int)),
        ));
        assert(writes_scratch(
            transformer::mlp_ops(frames, index, transformer::hidden(count as int)),
        ));
    }
}

/// The transformer plan changes nothing but its scratch buffers: its input and the model
/// are as they were.
pub proof fn transformer_plan_keeps_its_input<V>(
    f: spec_fn(Call, Seq<V>) -> V,
    s: Memory<V>,
    frames: usize,
    layers: usize,
    o: Operand,
)
    requires
        !(o is Scratch),
    ensures
        op::run(f, s, transformer::transformer_ops(frames, layers as nat))[o] == s[o],
{
    let ops = transformer::transformer_ops(frames, layers as nat);
    lemma_layers_write_scratch(frames, layers as nat);
    assert(writes_scratch(transformer::transformer_head(frames)));
    assert(writes_scratch(transformer::transformer_tail(frames, layers as nat)));
    assert(writes_scratch(transformer::transformer_buffers(frames)));
    assert(op::leaves_alone(ops, o));
    op::lemma_leaves_alone(f, s, ops, o);
}

/// Whatever it means for two buffers to be alike: where every single call gives what is
/// alike for arguments that are alike, the plan with the same model and inputs that are
/// alike leaves results that are alike.
pub proof fn transformer_plan_keeps_alike<V>(
    f: spec_fn(Call, Seq<V>) -> V,
    alike: spec_fn(Layout, V, V) -> bool,
    s: Memory<V>,
    t: Memory<V>,
    frames: usize,
    layers: usize,
)
    requires
        calls_keep_alike(f, alike, frames),
        transformer_laws::same_model(s, t),
        alike(
            Layout::Channels { channels: PRE_CONV_OUT },
            s[Operand::Input(0)],
            t[Operand::Input(0)],
        ),
    ensures
        ({
            let ops = transformer::transformer_ops(frames, layers as nat);
            alike(
                Layout::Channels { channels: PRE_CONV_OUT },
                op::run(f, s, ops)[op::scratch(OUTPUT_CT)],
                op::run(f, t, ops)[op::scratch(OUTPUT_CT)],
            )
        }),
{
    let b = t[Operand::Input(0)];
    transformer_plan_computes_transformer(f, s, frames, layers);
    transformer_plan_computes_transformer(f, t, frames, layers);
    transformer_laws::lemma_same_transformer(f, t, s, frames, layers, b);
    lemma_transformer_alike(f, alike, s, frames, layers as nat, s[Operand::Input(0)], b);
}

/// The number of channel `c` at frame `j`.
pub open spec fn by_channel<T>(a: Seq<T>, frames: int, c: int, j: int) -> T {
    a[c * frames + j]
}

/// Number `k` of frame `j`.
pub open spec fn by_frame<T>(a: Seq<T>, width: int, j: int, k: int) -> T {
    a[j * width + k]
}

/// Number `d` of head `h` at frame `j`.
pub open spec fn by_head<T>(a: Seq<T>, frames: int, h: int, j: int, d: int) -> T {
    a[(h * frames + j) * TRANSFORMER_HEAD_DIM + d]
}

/// What frame `k` has to do with frame `j`, in head `h`.
pub open spec fn by_pair<T>(a: Seq<T>, frames: int, h: int, j: int, k: int) -> T {
    a[(h * frames + j) * frames + k]
}

/// In the first `known` frames, the same for both, no frame has to do with a later one.
pub open spec fn pairs_agree<T>(frames: int, known: int, none: T, a: Seq<T>, b: Seq<T>) -> bool {
    forall|h: int, j: int, k: int|
        0 <= h < TRANSFORMER_HEADS && 0 <= j < known && 0 <= k < frames ==> {
            &&& #[trigger] by_pair(a, frames, h, j, k) == by_pair(b, frames, h, j, k)
            &&& k > j ==> by_pair(a, frames, h, j, k) == none
        }
}

/// Two buffers agree on the first `known` of `frames` frames. A score of `masked` and a
/// share of `zero` stand for a frame that has no say.
pub open spec fn agree<T>(
    layout: Layout,
    frames: int,
    known: int,
    masked: T,
    zero: T,
    a: Seq<T>,
    b: Seq<T>,
) -> bool {
    match layout {
        Layout::Channels { channels } => forall|c: int, j: int|
            0 <= c < channels && 0 <= j < known ==> #[trigger] by_channel(a, frames, c, j)
                == by_channel(b, frames, c, j),
        Layout::Rows { width } => forall|j: int, k: int|
            0 <= j < known && 0 <= k < width ==> #[trigger] by_frame(a, width as int, j, k)
                == by_frame(b, width as int, j, k),
        Layout::Heads => forall|h: int, j: int, d: int|
            0 <= h < TRANSFORMER_HEADS && 0 <= j < known && 0 <= d < TRANSFORMER_HEAD_DIM
                ==> #[trigger] by_head(a, frames, h, j, d) == by_head(b, frames, h, j, d),
        Layout::Scores => pairs_agree(frames, known, masked, a, b),
        Layout::Shares => pairs_agree(frames, known, zero, a, b),
    }
}

/// Every single call of the transformer works frame by frame or looks back: what it gives
/// for the first `known` frames rests on what its arguments hold for them.
pub open spec fn calls_look_back<T>(
    f: spec_fn(Call, Seq<Seq<T>>) -> Seq<T>,
    frames: usize,
    known: int,
    masked: T,
    zero: T,
) -> bool {
    calls_keep_alike(
        f,
        |layout: Layout, a: Seq<T>, b: Seq<T>|
            agree(layout, frames as int, known, masked, zero, a, b),
        frames,
    )
}

/// The transformer is causal: with the same model, inputs that agree on their first
/// `known` frames in every channel give results that agree on their first `known` frames
/// in every channel, whatever the later frames hold, provided that every single call looks
/// at no later frame either. The inputs themselves are left as they were.
pub proof fn transformer_looks_at_no_later_frame<T>(
    f: spec_fn(Call, Seq<Seq<T>>) -> Seq<T>,
    s: Memory<Seq<T>>,
    t: Memory<Seq<T>>,
    frames: usize,
    layers: usize,
    known: int,
    masked: T,
    zero: T,
)
    requires
        0 <= known <= frames,
        calls_look_back(f, frames, known, masked, zero),
        transformer_laws::same_model(s, t),
        forall|c: int, j: int|
            0 <= c < PRE_CONV_OUT && 0 <= j < known ==> #[trigger] by_channel(
                s[Operand::Input(0)],
                frames as int,
                c,
                j,
            ) == by_channel(t[Operand::Input(0)], frames as int, c, j),
    ensures
        ({
            let ops = transformer::transformer_ops(frames, layers as nat);
            let left = op::run(f, s, ops);
            let right = op::run(f, t, ops);
            &&& forall|c: int, j: int|
                0 <= c < PRE_CONV_OUT && 0 <= j < known ==> #[trigger] by_channel(
                    left[op::scratch(OUTPUT_CT)],
                    frames as int,
                    c,
                    j,
                ) == by_channel(right[op::scratch(OUTPUT_CT)], frames as int, c, j)
            &&& left[Operand::Input(0)] == s[Operand::Input(0)]
            &&& right[Operand::Input(0)] == t[Operand::Input(0)]
        }),
{
    let alike = |layout: Layout, a: Seq<T>, b: Seq<T>|
        agree(layout, frames as int, known, masked, zero, a, b);
    transformer_plan_keeps_alike(f, alike, s, t, frames, layers);
    transformer_plan_keeps_its_input(f, s, frames, layers, Operand::Input(0));
    transformer_plan_keeps_its_input(f, t, frames, layers, Operand::Input(0));
}

/// What the planned transformer does with the result of the convolution, 1024 channels of
/// `frames` frames each: it leaves as many numbers and the result of the convolution as it
/// was, and where two such results agree on their first `known` frames in every channel, so
/// does what it makes of them.
pub proof fn planned_transformer_looks_at_no_later_frame<T>(
    plan: Plan,
    output: Operand,
    f: spec_fn(Call, Seq<Seq<T>>) -> Seq<T>,
    s: Memory<Seq<T>>,
    t: Memory<Seq<T>>,
    frames: usize,
    known: int,
    masked: T,
    zero: T,
)
    requires
        transformer_laws::transformer_fits_memory(frames),
        plan@ == transformer::transformer_ops(frames, TRANSFORMER_LAYERS as nat),
        output == op::scratch(OUTPUT_CT),
        0 <= known <= frames,
        calls_look_back(f, frames, known, masked, zero),
        transformer_laws::same_model(s, t),
        agree(
            Layout::Channels { channels: PRE_CONV_OUT },
            frames as int,
            known,
            masked,
            zero,
            s[Operand::Input(0)],
            t[Operand::Input(0)],
        ),
    ensures
        plan::made_len(plan@, output) == PRE_CONV_OUT * frames,
        op::run(f, s, plan@)[Operand::Input(0)] == s[Operand::Input(0)],
        op::run(f, t, plan@)[Operand::Input(0)] == t[Operand::Input(0)],
        agree(
            Layout::Channels { channels: PRE_CONV_OUT },
            frames as int,
            known,
            masked,
            zero,
            op::run(f, s, plan@)[output],
            op::run(f, t, plan@)[output],
        ),
{
    transformer_laws::transformer_plan_in_bounds(frames, TRANSFORMER_LAYERS);
    transformer_looks_at_no_later_frame(
        f,
        s,
        t,
        frames,
        TRANSFORMER_LAYERS,
        known,
        masked,
        zero,
    );
}

} // verus!

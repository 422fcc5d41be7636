//! What the transformer plan computes, and that it stays within its buffers.

use vstd::prelude::*;

use crate::codec::dims::{
    PRE_CONV_OUT, TRANSFORMER_HEADS, TRANSFORMER_HIDDEN, TRANSFORMER_INTERMEDIATE,
    TRANSFORMER_Q_OUT,
};
use crate::codec::sizes;
use crate::codec::transformer::{self, ATTN_OUTPUT, HIDDEN_A, HIDDEN_B, OUTPUT_CT};
use crate::device::op::{self, Call, LayerWeight, Memory, Op, Operand, Weight};
use crate::device::plan;

verus! {

/// A projection of the normed input, split into heads.
pub open spec fn heads_value<V>(
    f: spec_fn(Call, Seq<V>) -> V,
    frames: usize,
    normed: V,
    weight: V,
) -> V {
    f(
        transformer::permute_call(frames),
        seq![f(op::gemm(frames, TRANSFORMER_Q_OUT, TRANSFORMER_HIDDEN), seq![normed, weight])],
    )
}

/// The attention half of a layer as a function of the hidden state `x`, where `f` says
/// what a call computes and `w` what the model holds.
pub open spec fn attention_value<V>(
    f: spec_fn(Call, Seq<V>) -> V,
    w: Memory<V>,
    frames: usize,
    index: usize,
    x: V,
) -> V {
    let normed = f(
        transformer::norm_call(frames),
        seq![x, w[transformer::layer_weight(index, LayerWeight::InputGamma)]],
    );
    let q = f(
        transformer::rope_call(frames),
        seq![heads_value(f, frames, normed, w[transformer::layer_weight(index, LayerWeight::Query)])],
    );
    let k = f(
        transformer::rope_call(frames),
        seq![heads_value(f, frames, normed, w[transformer::layer_weight(index, LayerWeight::Key)])],
    );
    let v = heads_value(f, frames, normed, w[transformer::layer_weight(index, LayerWeight::Value)]);
    let scores = f(transformer::scores_call(frames), seq![q, k]);
    let probs = f(transformer::softmax_call(frames), seq![scores]);
    let attended = f(transformer::apply_call(frames), seq![probs, v]);
    let projected = f(
        op::gemm(frames, TRANSFORMER_HIDDEN, TRANSFORMER_Q_OUT),
        seq![attended, w[transformer::layer_weight(index, LayerWeight::Output)]],
    );
    f(
        transformer::scaled_add_call(frames),
        seq![x, projected, w[transformer::layer_weight(index, LayerWeight::AttentionScale)]],
    )
}

/// The feed-forward half of a layer as a function of what the attention half gives.
pub open spec fn mlp_value<V>(
    f: spec_fn(Call, Seq<V>) -> V,
    w: Memory<V>,
    frames: usize,
    index: usize,
    x: V,
) -> V {
    let widen = op::gemm(frames, TRANSFORMER_INTERMEDIATE, TRANSFORMER_HIDDEN);
    let normed = f(
        transformer::norm_call(frames),
        seq![x, w[transformer::layer_weight(index, LayerWeight::PostGamma)]],
    );
    let gate = f(widen, seq![normed, w[transformer::layer_weight(index, LayerWeight::Gate)]]);
    let up = f(widen, seq![normed, w[transformer::layer_weight(index, LayerWeight::Up)]]);
    let down = f(
        op::gemm(frames, TRANSFORMER_HIDDEN, TRANSFORMER_INTERMEDIATE),
        seq![
            f(transformer::swiglu_call(frames), seq![gate, up]),
            w[transformer::layer_weight(index, LayerWeight::Down)],
        ],
    );
    f(
        transformer::scaled_add_call(frames),
        seq![x, down, w[transformer::layer_weight(index, LayerWeight::MlpScale)]],
    )
}

/// The hidden state behind `count` layers, each one applied to what the one before gave.
pub open spec fn layers_value<V>(
    f: spec_fn(Call, Seq<V>) -> V,
    w: Memory<V>,
    frames: usize,
    count: nat,
    x: V,
) -> V
    decreases count,
{
    if count == 0 {
        x
    } else {
        let before = layers_value(f, w, frames, (count - 1) as nat, x);
        let index = (count - 1) as usize;
        mlp_value(f, w, frames, index, attention_value(f, w, frames, index, before))
    }
}

/// The hidden state in front of the first layer.
pub open spec fn embedded_value<V>(
    f: spec_fn(Call, Seq<V>) -> V,
    w: Memory<V>,
    frames: usize,
    pre_conv: V,
) -> V {
    let rows = f(Call::TransposeCtToTc { channels: PRE_CONV_OUT, frames }, seq![pre_conv]);
    let projected = f(
        op::gemm(frames, TRANSFORMER_HIDDEN, PRE_CONV_OUT),
        seq![rows, w[Operand::Weight(Weight::InputProjection)]],
    );
    f(
        Call::BiasAdd { rows: frames, cols: TRANSFORMER_HIDDEN },
        seq![projected, w[Operand::Weight(Weight::InputBias)]],
    )
}

/// What stands behind the last layer, as a function of the hidden state `x`.
pub open spec fn projected_value<V>(
    f: spec_fn(Call, Seq<V>) -> V,
    w: Memory<V>,
    frames: usize,
    x: V,
) -> V {
    let normed = f(
        transformer::norm_call(frames),
        seq![x, w[Operand::Weight(Weight::FinalNorm)]],
    );
    let projected = f(
        op::gemm(frames, PRE_CONV_OUT, TRANSFORMER_HIDDEN),
        seq![normed, w[Operand::Weight(Weight::OutputProjection)]],
    );
    let biased = f(
        Call::BiasAdd { rows: frames, cols: PRE_CONV_OUT },
        seq![projected, w[Operand::Weight(Weight::OutputBias)]],
    );
    f(Call::TransposeTcToCt { frames, channels: PRE_CONV_OUT }, seq![biased])
}

/// The transformer as a function: embed, apply the layers in order, project.
pub open spec fn transformer_value<V>(
    f: spec_fn(Call, Seq<V>) -> V,
    w: Memory<V>,
    frames: usize,
    layers: nat,
    pre_conv: V,
) -> V {
    projected_value(
        f,
        w,
        frames,
        layers_value(f, w, frames, layers, embedded_value(f, w, frames, pre_conv)),
    )
}

/// Two memories hold the same model.
pub open spec fn same_model<V>(a: Memory<V>, b: Memory<V>) -> bool {
    forall|w: Weight| #[trigger] a[Operand::Weight(w)] == b[Operand::Weight(w)]
}

/// No step writes to a tensor of the model.
pub open spec fn keeps_model(ops: Seq<Op>) -> bool {
    forall|i: int|
        0 <= i < ops.len() ==> (#[trigger] ops[i] matches Op::Run { output, .. }
            ==> !(output is Weight))
}

/// A plan that writes to no tensor of the model leaves the model as it was.
pub proof fn lemma_keeps_model<V>(f: spec_fn(Call, Seq<V>) -> V, s: Memory<V>, ops: Seq<Op>)
    requires
        keeps_model(ops),
    ensures
        same_model(op::run(f, s, ops), s),
{
    assert forall|w: Weight| #[trigger]
        op::run(f, s, ops)[Operand::Weight(w)] == s[Operand::Weight(w)] by {
        op::lemma_leaves_alone(f, s, ops, Operand::Weight(w));
    }
}

#[verifier::spinoff_prover]
#[verifier::rlimit(60)]
proof fn lemma_attention_value<V>(
    f: spec_fn(Call, Seq<V>) -> V,
    s: Memory<V>,
    frames: usize,
    index: usize,
    input: Operand,
)
    requires
        input == op::scratch(HIDDEN_A) || input == op::scratch(HIDDEN_B),
    ensures
        ({
            let end = op::run(f, s, transformer::attention_ops(frames, index, input));
            &&& end[op::scratch(ATTN_OUTPUT)] == attention_value(f, s, frames, index, s[input])
            &&& same_model(end, s)
        }),
{
    let ops = transformer::attention_ops(frames, index, input);
    lemma_keeps_model(f, s, ops);
    reveal_with_fuel(op::run_from, 15);
}

#[verifier::spinoff_prover]
#[verifier::rlimit(30)]
proof fn lemma_mlp_value<V>(
    f: spec_fn(Call, Seq<V>) -> V,
    s: Memory<V>,
    frames: usize,
    index: usize,
    output: Operand,
)
    requires
        output == op::scratch(HIDDEN_A) || output == op::scratch(HIDDEN_B),
    ensures
        ({
            let end = op::run(f, s, transformer::mlp_ops(frames, index, output));
            &&& end[output] == mlp_value(f, s, frames, index, s[op::scratch(ATTN_OUTPUT)])
            &&& same_model(end, s)
        }),
{
    let ops = transformer::mlp_ops(frames, index, output);
    lemma_keeps_model(f, s, ops);
    reveal_with_fuel(op::run_from, 7);
}

proof fn lemma_layers_value<V>(
    f: spec_fn(Call, Seq<V>) -> V,
    s: Memory<V>,
    w: Memory<V>,
    frames: usize,
    count: nat,
)
    requires
        same_model(s, w),
        count <= usize::MAX,
    ensures
        ({
            let end = op::run(f, s, transformer::layers_ops(frames, count));
            &&& end[transformer::hidden(count as int)] == layers_value(
                f,
                w,
                frames,
                count,
                s[op::scratch(HIDDEN_A)],
            )
            &&& same_model(end, w)
        }),
    decreases count,
{
    if count > 0 {
        let index = (count - 1) as usize;
        let before = transformer::layers_ops(frames, (count - 1) as nat);
        let attention = transformer::attention_ops(
            frames,
            index,
            transformer::hidden(index as int),
        );
        let mlp = transformer::mlp_ops(frames, index, transformer::hidden(count as int));
        lemma_layers_value(f, s, w, frames, (count - 1) as nat);
        op::lemma_run_concat(f, s, before, attention);
        op::lemma_run_concat(f, s, before + attention, mlp);
        let s1 = op::run(f, s, before);
        lemma_attention_value(f, s1, frames, index, transformer::hidden(index as int));
        let s2 = op::run(f, s1, attention);
        lemma_mlp_value(f, s2, frames, index, transformer::hidden(count as int));
        lemma_same_layer(f, s1, w, frames, index, s1[transformer::hidden(index as int)]);
        lemma_same_layer(f, s2, w, frames, index, s2[op::scratch(ATTN_OUTPUT)]);
    }
}

proof fn lemma_same_layer<V>(
    f: spec_fn(Call, Seq<V>) -> V,
    s: Memory<V>,
    w: Memory<V>,
    frames: usize,
    index: usize,
    x: V,
)
    requires
        same_model(s, w),
    ensures
        attention_value(f, s, frames, index, x) == attention_value(f, w, frames, index, x),
        mlp_value(f, s, frames, index, x) == mlp_value(f, w, frames, index, x),
{
}

/// The transformer computes the same with the same model.
pub proof fn lemma_same_transformer<V>(
    f: spec_fn(Call, Seq<V>) -> V,
    s: Memory<V>,
    w: Memory<V>,
    frames: usize,
    layers: usize,
    x: V,
)
    requires
        same_model(s, w),
    ensures
        transformer_value(f, s, frames, layers as nat, x) == transformer_value(
            f,
            w,
            frames,
            layers as nat,
            x,
        ),
{
    lemma_same_layers(f, s, w, frames, layers as nat, embedded_value(f, s, frames, x));
}

proof fn lemma_same_layers<V>(
    f: spec_fn(Call, Seq<V>) -> V,
    s: Memory<V>,
    w: Memory<V>,
    frames: usize,
    count: nat,
    x: V,
)
    requires
        same_model(s, w),
    ensures
        layers_value(f, s, frames, count, x) == layers_value(f, w, frames, count, x),
    decreases count,
{
    if count > 0 {
        let fewer = (count - 1) as nat;
        let index = fewer as usize;
        let before = layers_value(f, w, frames, fewer, x);
        lemma_same_layers(f, s, w, frames, fewer, x);
        lemma_same_layer(f, s, w, frames, index, before);
        lemma_same_layer(f, s, w, frames, index, attention_value(f, w, frames, index, before));
    }
}

/// The transformer plan leaves in its result buffer what the transformer computes from
/// the first input, whatever the scratch buffers held before and whatever the kernels
/// compute. So no buffer is read before it is written, none is overwritten too early,
/// and the two hidden buffers take turns in the right order.
pub proof fn transformer_plan_computes_transformer<V>(
    f: spec_fn(Call, Seq<V>) -> V,
    s: Memory<V>,
    frames: usize,
    layers: usize,
)
    ensures
        op::run(f, s, transformer::transformer_ops(frames, layers as nat))[op::scratch(OUTPUT_CT)]
            == transformer_value(f, s, frames, layers as nat, s[Operand::Input(0)]),
{
    let buffers = transformer::transformer_buffers(frames);
    let head = transformer::transformer_head(frames);
    let middle = transformer::layers_ops(frames, layers as nat);
    let tail = transformer::transformer_tail(frames, layers as nat);
    op::lemma_run_concat(f, s, buffers, head);
    op::lemma_run_concat(f, s, buffers + head, middle);
    op::lemma_run_concat(f, s, buffers + head + middle, tail);
    lemma_allocations_keep_memory(f, s, buffers);
    assert(op::run(f, s, head)[op::scratch(HIDDEN_A)] == embedded_value(
        f,
        s,
        frames,
        s[Operand::Input(0)],
    )) by {
        reveal_with_fuel(op::run_from, 4);
    }
    lemma_keeps_model(f, s, head);
    let s1 = op::run(f, s, head);
    lemma_layers_value(f, s1, s, frames, layers as nat);
    let s2 = op::run(f, s1, middle);
    assert(op::run(f, s2, tail)[op::scratch(OUTPUT_CT)] == projected_value(
        f,
        s2,
        frames,
        s2[transformer::hidden(layers as int)],
    )) by {
        reveal_with_fuel(op::run_from, 5);
    }
}

/// Allocations do not change what the buffers hold.
pub proof fn lemma_allocations_keep_memory<V>(
    f: spec_fn(Call, Seq<V>) -> V,
    s: Memory<V>,
    ops: Seq<Op>,
)
    requires
        forall|i: int| 0 <= i < ops.len() ==> #[trigger] ops[i] is Alloc,
    ensures
        op::run(f, s, ops) == s,
{
    lemma_allocations_from(f, s, ops, 0);
}

proof fn lemma_allocations_from<V>(
    f: spec_fn(Call, Seq<V>) -> V,
    s: Memory<V>,
    ops: Seq<Op>,
    from: int,
)
    requires
        forall|i: int| 0 <= i < ops.len() ==> #[trigger] ops[i] is Alloc,
        0 <= from <= ops.len(),
    ensures
        op::run_from(f, s, ops, from) == s,
    decreases ops.len() - from,
{
    if from < ops.len() {
        lemma_allocations_from(f, s, ops, from + 1);
    }
}

/// The lengths of the transformer's scratch buffers.
pub open spec fn transformer_lens(frames: usize) -> Seq<usize> {
    let wide = (frames * PRE_CONV_OUT) as usize;
    let hidden = (frames * TRANSFORMER_HIDDEN) as usize;
    let heads = (frames * TRANSFORMER_Q_OUT) as usize;
    let square = (TRANSFORMER_HEADS * frames * frames) as usize;
    let mlp = (frames * TRANSFORMER_INTERMEDIATE) as usize;
    seq![
        wide, hidden, hidden, hidden, heads, heads, heads, heads, heads, heads, heads, heads,
        square, square, heads, hidden, hidden, hidden, mlp, mlp, mlp, hidden, wide, wide,
    ]
}

/// The frame count is one for which the plan can be made.
pub open spec fn transformer_fits_memory(frames: usize) -> bool {
    &&& frames > 0
    &&& frames * PRE_CONV_OUT <= usize::MAX
    &&& TRANSFORMER_HEADS * frames * frames <= usize::MAX
}

/// The products of the head dimensions, in the orders in which the calls form them.
proof fn lemma_transformer_products(frames: int)
    ensures
        1 * frames * 16 * 64 == frames * 1024,
        1 * 16 * frames * 64 == frames * 1024,
        1 * 16 * frames * frames == 16 * frames * frames,
        (16 * frames) * frames == 16 * frames * frames,
        16 * frames * 64 == frames * 1024,
{
}

#[verifier::spinoff_prover]
#[verifier::rlimit(60)]
proof fn lemma_attention_in_bounds(
    frames: usize,
    index: usize,
    input: Operand,
    outer: spec_fn(Operand) -> nat,
)
    requires
        transformer_fits_memory(frames),
        outer == sizes::outer_len(seq![(frames * PRE_CONV_OUT) as nat]),
        input == op::scratch(HIDDEN_A) || input == op::scratch(HIDDEN_B),
    ensures
        plan::in_bounds(
            transformer::attention_ops(frames, index, input),
            transformer_lens(frames),
            outer,
        ),
        plan::alloc_lens(transformer::attention_ops(frames, index, input)) == Seq::<
            usize,
        >::empty(),
{
    let ops = transformer::attention_ops(frames, index, input);
    let lens = transformer_lens(frames);
    lemma_transformer_products(frames as int);
    assert forall|i: int| 0 <= i < ops.len() implies plan::fits(
        lens,
        outer,
        #[trigger] ops[i],
    ) by {
        plan::lemma_fits(lens, outer, ops[i]);
    }
    plan::lemma_in_bounds_runs(ops, lens, outer);
}

#[verifier::spinoff_prover]
#[verifier::rlimit(30)]
proof fn lemma_mlp_in_bounds(
    frames: usize,
    index: usize,
    output: Operand,
    outer: spec_fn(Operand) -> nat,
)
    requires
        transformer_fits_memory(frames),
        outer == sizes::outer_len(seq![(frames * PRE_CONV_OUT) as nat]),
        output == op::scratch(HIDDEN_A) || output == op::scratch(HIDDEN_B),
    ensures
        plan::in_bounds(
            transformer::mlp_ops(frames, index, output),
            transformer_lens(frames),
            outer,
        ),
        plan::alloc_lens(transformer::mlp_ops(frames, index, output)) == Seq::<usize>::empty(),
{
    let ops = transformer::mlp_ops(frames, index, output);
    let lens = transformer_lens(frames);
    assert forall|i: int| 0 <= i < ops.len() implies plan::fits(
        lens,
        outer,
        #[trigger] ops[i],
    ) by {
        plan::lemma_fits(lens, outer, ops[i]);
    }
    plan::lemma_in_bounds_runs(ops, lens, outer);
}

proof fn lemma_layers_in_bounds(frames: usize, count: nat, outer: spec_fn(Operand) -> nat)
    requires
        transformer_fits_memory(frames),
        outer == sizes::outer_len(seq![(frames * PRE_CONV_OUT) as nat]),
        count <= usize::MAX,
    ensures
        plan::in_bounds(
            transformer::layers_ops(frames, count),
            transformer_lens(frames),
            outer,
        ),
        plan::alloc_lens(transformer::layers_ops(frames, count)) == Seq::<usize>::empty(),
    decreases count,
{
    if count > 0 {
        let lens = transformer_lens(frames);
        let index = (count - 1) as usize;
        let before = transformer::layers_ops(frames, (count - 1) as nat);
        let attention = transformer::attention_ops(
            frames,
            index,
            transformer::hidden(index as int),
        );
        let mlp = transformer::mlp_ops(frames, index, transformer::hidden(count as int));
        lemma_layers_in_bounds(frames, (count - 1) as nat, outer);
        lemma_attention_in_bounds(frames, index, transformer::hidden(index as int), outer);
        lemma_mlp_in_bounds(frames, index, transformer::hidden(count as int), outer);
        assert(lens + Seq::<usize>::empty() =~= lens);
        plan::lemma_alloc_lens_concat(before, attention);
        plan::lemma_alloc_lens_concat(before + attention, mlp);
        plan::lemma_in_bounds_concat(before, attention, lens, outer);
        plan::lemma_in_bounds_concat(before + attention, mlp, lens, outer);
    }
}

/// Every kernel and every matrix product of the transformer plan stays within its
/// buffers, the products have matrices of exactly their size, and no buffer is empty.
#[verifier::spinoff_prover]
#[verifier::rlimit(40)]
pub proof fn transformer_plan_in_bounds(frames: usize, layers: usize)
    requires
        transformer_fits_memory(frames),
    ensures
        plan::in_bounds(
            transformer::transformer_ops(frames, layers as nat),
            Seq::empty(),
            sizes::outer_len(seq![(frames * PRE_CONV_OUT) as nat]),
        ),
        plan::alloc_lens(transformer::transformer_ops(frames, layers as nat)) == transformer_lens(
            frames,
        ),
{
    let outer = sizes::outer_len(seq![(frames * PRE_CONV_OUT) as nat]);
    let lens = transformer_lens(frames);
    let none = Seq::<usize>::empty();
    let buffers = transformer::transformer_buffers(frames);
    let head = transformer::transformer_head(frames);
    let middle = transformer::layers_ops(frames, layers as nat);
    let tail = transformer::transformer_tail(frames, layers as nat);
    assert(TRANSFORMER_HEADS * frames * frames > 0) by (nonlinear_arith)
        requires
            frames > 0,
            TRANSFORMER_HEADS == 16,
    ;
    plan::lemma_only_allocs(buffers, none, outer);
    assert(plan::alloc_lens(buffers) =~= lens);
    assert forall|i: int| 0 <= i < head.len() implies plan::fits(
        lens,
        outer,
        #[trigger] head[i],
    ) by {
        plan::lemma_fits(lens, outer, head[i]);
    }
    plan::lemma_in_bounds_runs(head, lens, outer);
    lemma_layers_in_bounds(frames, layers as nat, outer);
    assert forall|i: int| 0 <= i < tail.len() implies plan::fits(
        lens,
        outer,
        #[trigger] tail[i],
    ) by {
        plan::lemma_fits(lens, outer, tail[i]);
    }
    plan::lemma_in_bounds_runs(tail, lens, outer);
    assert(none + lens =~= lens);
    assert(lens + none =~= lens);
    plan::lemma_alloc_lens_concat(buffers, head);
    plan::lemma_alloc_lens_concat(buffers + head, middle);
    plan::lemma_alloc_lens_concat(buffers + head + middle, tail);
    plan::lemma_in_bounds_concat(buffers, head, none, outer);
    plan::lemma_in_bounds_concat(buffers + head, middle, none, outer);
    plan::lemma_in_bounds_concat(buffers + head + middle, tail, none, outer);
}

} // verus!

//! What the calls of the quantiser, the transformer and the upsampling stages are told, and
//! what their tensors are for.

use vstd::prelude::*;

use crate::codec::initial::{self, initial_plan_computes_convolution};
use crate::codec::transformer::{self, OUTPUT_CT};
use crate::codec::transformer_laws::{self, transformer_plan_computes_transformer};
use crate::codec::upsample::{self, upsample_plan_computes_stages};
use crate::device::op::{self, Call, LayerWeight, Memory, Op, Operand, UpsampleWeight, Weight};
use crate::device::op_laws;

verus! {

/// What stage `stage` of the upsampling computes from `x`: a transposed convolution that
/// doubles the frames.
pub open spec fn doubled_frames<V>(
    f: spec_fn(Call, Seq<V>) -> V,
    s: Memory<V>,
    stage: usize,
    in_frames: int,
    x: V,
) -> V {
    let m = |tensor: UpsampleWeight| s[Operand::Weight(Weight::Upsample { stage, tensor })];
    f(
        Call::TransConv1d {
            in_frames: in_frames as usize,
            out_frames: (2 * in_frames) as usize,
        },
        seq![x, m(UpsampleWeight::TransWeight), m(UpsampleWeight::TransBias)],
    )
}

/// What a stage adds to that: a convolution of every channel by itself, a norm over the
/// channels, and two products with an activation between them, the first of which has four
/// times as many channels.
pub open spec fn refined<V>(
    f: spec_fn(Call, Seq<V>) -> V,
    s: Memory<V>,
    stage: usize,
    frames: int,
    x: V,
) -> V {
    let m = |tensor: UpsampleWeight| s[Operand::Weight(Weight::Upsample { stage, tensor })];
    let rows = frames as usize;
    let smoothed = f(
        Call::DepthwiseConv1d { frames: rows },
        seq![x, m(UpsampleWeight::DepthwiseWeight), m(UpsampleWeight::DepthwiseBias)],
    );
    let turned = f(Call::TransposeCtToTc { channels: 1024, frames: rows }, seq![smoothed]);
    let normed = f(
        Call::LayerNorm { rows, cols: 1024 },
        seq![turned, m(UpsampleWeight::NormGamma), m(UpsampleWeight::NormBeta)],
    );
    let wide = f(
        Call::BiasAdd { rows, cols: 4096 },
        seq![
            f(
                Call::Gemm { m: rows, n: 4096, k: 1024 },
                seq![normed, m(UpsampleWeight::Pointwise1Weight)],
            ),
            m(UpsampleWeight::Pointwise1Bias),
        ],
    );
    let active = f(Call::Gelu { total: (4096 * frames) as usize }, seq![wide]);
    f(
        Call::BiasAdd { rows, cols: 1024 },
        seq![
            f(
                Call::Gemm { m: rows, n: 1024, k: 4096 },
                seq![active, m(UpsampleWeight::Pointwise2Weight)],
            ),
            m(UpsampleWeight::Pointwise2Bias),
        ],
    )
}

/// Each of the two upsampling stages doubles the frames of 1024 channels and then adds to
/// what it has so far what it refines from it, scaled by its gamma; the second one works on
/// what the first one gave.
pub proof fn upsampling_doubles_and_refines_twice<V>(
    f: spec_fn(Call, Seq<V>) -> V,
    s: Memory<V>,
    frames: usize,
)
    requires
        frames * 16384 <= usize::MAX,
    ensures
        ({
            let end = op::run(f, s, upsample::upsample_ops(frames));
            let out = upsample::upsample_outputs(frames);
            let gamma = |stage: usize|
                s[Operand::Weight(Weight::Upsample { stage, tensor: UpsampleWeight::Gamma })];
            &&& end[out.upsample_0_0] == doubled_frames(
                f,
                s,
                0,
                frames as int,
                s[Operand::Input(0)],
            )
            &&& end[out.upsample_0_1] == f(
                Call::ConvNextResidual { frames: (2 * frames) as usize },
                seq![
                    end[out.upsample_0_0],
                    refined(f, s, 0, 2 * frames, end[out.upsample_0_0]),
                    gamma(0),
                ],
            )
            &&& end[out.upsample_1_0] == doubled_frames(
                f,
                s,
                1,
                2 * frames,
                end[out.upsample_0_1],
            )
            &&& end[out.upsample_1_1] == f(
                Call::ConvNextResidual { frames: (4 * frames) as usize },
                seq![
                    end[out.upsample_1_0],
                    refined(f, s, 1, 4 * frames, end[out.upsample_1_0]),
                    gamma(1),
                ],
            )
            &&& out.frames_0 == 2 * frames
            &&& out.frames_1 == 4 * frames
        }),
{
    upsample_plan_computes_stages(f, s, frames);
}

/// The call that reads a tensor of the transformer, for `frames` frames.
pub open spec fn call_of_tensor(frames: usize, w: Weight) -> Option<Call> {
    let norm = Call::RmsNorm { rows: frames, cols: 512, epsilon: 0x3727_c5ac };
    let product = |n: usize, k: usize| Call::Gemm { m: frames, n, k };
    match w {
        Weight::InputProjection => Some(product(512, 1024)),
        Weight::InputBias => Some(Call::BiasAdd { rows: frames, cols: 512 }),
        Weight::OutputProjection => Some(product(1024, 512)),
        Weight::OutputBias => Some(Call::BiasAdd { rows: frames, cols: 1024 }),
        Weight::FinalNorm => Some(norm),
        Weight::Layer { part, .. } => match part {
            LayerWeight::InputGamma | LayerWeight::PostGamma => Some(norm),
            LayerWeight::Query | LayerWeight::Key | LayerWeight::Value => Some(product(1024, 512)),
            LayerWeight::Output => Some(product(512, 1024)),
            LayerWeight::Gate | LayerWeight::Up => Some(product(1024, 512)),
            LayerWeight::Down => Some(product(512, 1024)),
            LayerWeight::AttentionScale | LayerWeight::MlpScale => Some(
                Call::ScaledResidualAdd { rows: frames, cols: 512 },
            ),
            _ => None,
        },
        _ => None,
    }
}

/// A step of the transformer on `frames` frames is told what it works on: sixteen heads of
/// 64, scores scaled by one eighth, rotations from the first position on.
pub open spec fn is_told(frames: usize, op: Op) -> bool {
    match op {
        Op::Alloc { .. } => true,
        Op::Run { call, .. } => match op_laws::weight_read(op) {
            Some(w) => Some(call) == call_of_tensor(frames, w),
            None => {
                ||| call == Call::TransposeCtToTc { channels: 1024, frames }
                ||| call == Call::TransposeTcToCt { frames, channels: 1024 }
                ||| call == Call::Permute { batch: 1, steps: frames, heads: 16, head_dim: 64 }
                ||| call == Call::Rope {
                    total: (1024 * frames) as usize,
                    heads: 16,
                    steps: frames,
                    head_dim: 64,
                    offset: 0,
                    theta: 0x461c_4000,
                }
                ||| call == Call::AttentionScores {
                    batch: 1,
                    q_heads: 16,
                    kv_heads: 16,
                    query_steps: frames,
                    key_steps: frames,
                    head_dim: 64,
                    offset: 0,
                    scale: 0x3e00_0000,
                }
                ||| call == Call::Softmax { rows: (16 * frames) as usize, cols: frames }
                ||| call == Call::ApplyValue {
                    batch: 1,
                    q_heads: 16,
                    kv_heads: 16,
                    query_steps: frames,
                    key_steps: frames,
                    head_dim: 64,
                }
                ||| call == Call::Swiglu { total: (1024 * frames) as usize }
            },
        },
    }
}

/// The number of the layer whose tensors a step reads.
pub open spec fn layer_read(op: Op) -> Option<int> {
    match op_laws::weight_read(op) {
        Some(Weight::Layer { index, .. }) => Some(index as int),
        _ => None,
    }
}

/// The steps read no tensor of a layer behind those of a later layer, and none of a layer
/// from number `count` on.
pub open spec fn layers_in_order(ops: Seq<Op>, count: int) -> bool {
    &&& forall|i: int|
        0 <= i < ops.len() ==> (layer_read(#[trigger] ops[i]) matches Some(a) ==> a < count)
    &&& forall|i: int, j: int|
        0 <= i < j < ops.len() ==> (layer_read(#[trigger] ops[i]) matches Some(a) ==> (layer_read(
            #[trigger] ops[j],
        ) matches Some(b) ==> a <= b))
}

/// The step reads that tensor.
pub open spec fn uses(w: Weight, op: Op) -> bool {
    op_laws::weight_read(op) == Some(w)
}

/// The parts that a layer of the transformer has.
pub open spec fn is_part(part: LayerWeight) -> bool {
    part != LayerWeight::QueryGamma && part != LayerWeight::KeyGamma
}

#[verifier::spinoff_prover]
#[verifier::rlimit(60)]
proof fn lemma_halves_are_told(frames: usize, index: usize, input: Operand, output: Operand)
    requires
        !(input is Weight),
    ensures
        ({
            let p = |op: Op| is_told(frames, op);
            let a = transformer::attention_ops(frames, index, input);
            let b = transformer::mlp_ops(frames, index, output);
            &&& op_laws::every(a, p)
            &&& op_laws::every(b, p)
            &&& op_laws::every(a, |op: Op| layer_read(op) matches Some(i) ==> i == index)
            &&& op_laws::every(b, |op: Op| layer_read(op) matches Some(i) ==> i == index)
        }),
{
}

proof fn lemma_halves_use(
    frames: usize,
    index: usize,
    input: Operand,
    output: Operand,
    part: LayerWeight,
)
    requires
        is_part(part),
        !(input is Weight),
    ensures
        op_laws::some(
            transformer::attention_ops(frames, index, input) + transformer::mlp_ops(
                frames,
                index,
                output,
            ),
            |op: Op| uses(Weight::Layer { index, part }, op),
        ),
{
    let p = |op: Op| uses(Weight::Layer { index, part }, op);
    let a = transformer::attention_ops(frames, index, input);
    let b = transformer::mlp_ops(frames, index, output);
    match part {
        LayerWeight::InputGamma => assert(p(a[0])),
        LayerWeight::Query => assert(p(a[1])),
        LayerWeight::Key => assert(p(a[2])),
        LayerWeight::Value => assert(p(a[3])),
        LayerWeight::Output => assert(p(a[12])),
        LayerWeight::AttentionScale => assert(p(a[13])),
        LayerWeight::PostGamma => assert(p(b[0])),
        LayerWeight::Gate => assert(p(b[1])),
        LayerWeight::Up => assert(p(b[2])),
        LayerWeight::Down => assert(p(b[4])),
        LayerWeight::MlpScale => assert(p(b[5])),
        _ => {},
    }
    op_laws::lemma_some_concat(a, b, p);
}

proof fn lemma_layers_are_told(frames: usize, count: nat)
    requires
        count <= usize::MAX,
    ensures
        op_laws::every(transformer::layers_ops(frames, count), |op: Op| is_told(frames, op)),
        layers_in_order(transformer::layers_ops(frames, count), count as int),
        forall|index: usize, part: LayerWeight|
            index < count && is_part(part) ==> op_laws::some(
                transformer::layers_ops(frames, count),
                #[trigger] user(index, part),
            ),
    decreases count,
{
    if count > 0 {
        let p = |op: Op| is_told(frames, op);
        let last = (count - 1) as usize;
        let before = transformer::layers_ops(frames, (count - 1) as nat);
        let input = transformer::hidden(last as int);
        let output = transformer::hidden(count as int);
        let a = transformer::attention_ops(frames, last, input);
        let b = transformer::mlp_ops(frames, last, output);
        lemma_layers_are_told(frames, (count - 1) as nat);
        lemma_halves_are_told(frames, last, input, output);
        op_laws::lemma_every_concat(before, a, p);
        op_laws::lemma_every_concat(before + a, b, p);
        let ops = before + a + b;
        let n = before.len() as int;
        assert forall|i: int| 0 <= i < ops.len() implies (if i < n {
            ops[i] == before[i]
        } else {
            layer_read(#[trigger] ops[i]) matches Some(k) ==> k == last
        }) by {
            if i >= n {
                if i < n + a.len() {
                    assert(ops[i] == a[i - n]);
                } else {
                    assert(ops[i] == b[i - n - a.len()]);
                }
            }
        }
        assert(layers_in_order(ops, count as int));
        assert forall|index: usize, part: LayerWeight|
            index < count && is_part(part) implies op_laws::some(
            ops,
            #[trigger] user(index, part),
        ) by {
            let q = user(index, part);
            if index < last {
                op_laws::lemma_some_concat(before, a, q);
                op_laws::lemma_some_concat(before + a, b, q);
            } else {
                lemma_halves_use(frames, index, input, output, part);
                let r = |op: Op| uses(Weight::Layer { index, part }, op);
                let i = choose|i: int| 0 <= i < (a + b).len() && r(#[trigger] (a + b)[i]);
                assert(ops[n + i] == (a + b)[i]);
                assert(q(ops[n + i]));
            }
        }
    }
}

/// Whether a step reads a tensor of a layer.
pub open spec fn user(index: usize, part: LayerWeight) -> spec_fn(Op) -> bool {
    |op: Op| uses(Weight::Layer { index, part }, op)
}

/// Every step of the transformer is told what it works on; its layers come in their order,
/// and each of them reads all its eleven tensors.
pub proof fn transformer_calls_are_told(frames: usize, layers: usize)
    ensures
        ({
            let ops = transformer::transformer_ops(frames, layers as nat);
            &&& op_laws::every(ops, |op: Op| is_told(frames, op))
            &&& layers_in_order(ops, layers as int)
            &&& forall|index: usize, part: LayerWeight|
                index < layers && is_part(part) ==> op_laws::some(
                    ops,
                    #[trigger] user(index, part),
                )
        }),
{
    let p = |op: Op| is_told(frames, op);
    let buffers = transformer::transformer_buffers(frames);
    let head = transformer::transformer_head(frames);
    let middle = transformer::layers_ops(frames, layers as nat);
    let tail = transformer::transformer_tail(frames, layers as nat);
    lemma_layers_are_told(frames, layers as nat);
    assert(op_laws::every(buffers, p));
    assert(op_laws::every(head, p));
    assert(op_laws::every(tail, p));
    op_laws::lemma_every_concat(buffers, head, p);
    op_laws::lemma_every_concat(buffers + head, middle, p);
    op_laws::lemma_every_concat(buffers + head + middle, tail, p);
    let ops = buffers + head + middle + tail;
    let n = buffers.len() + head.len() as int;
    assert forall|i: int| 0 <= i < ops.len() implies (if n <= i < n + middle.len() {
        #[trigger] ops[i] == middle[i - n]
    } else {
        layer_read(ops[i]) is None
    }) by {
        if i < buffers.len() {
            assert(ops[i] == buffers[i]);
        } else if i < n {
            assert(ops[i] == head[i - buffers.len()]);
        } else if i >= n + middle.len() {
            assert(ops[i] == tail[i - n - middle.len()]);
        }
    }
    assert(layers_in_order(ops, layers as int));
    assert forall|index: usize, part: LayerWeight|
        index < layers && is_part(part) implies op_laws::some(ops, #[trigger] user(index, part)) by {
        let q = user(index, part);
        op_laws::lemma_some_concat(buffers + head, middle, q);
        op_laws::lemma_some_concat(buffers + head + middle, tail, q);
    }
}

proof fn lemma_layers_keep<V>(
    f: spec_fn(Call, Seq<V>) -> V,
    w: Memory<V>,
    frames: usize,
    count: nat,
    x: V,
)
    requires
        forall|call: Call, args: Seq<V>|
            args.len() == 3 && call is ScaledResidualAdd ==> #[trigger] f(call, args) == args[0],
    ensures
        transformer_laws::layers_value(f, w, frames, count, x) == x,
    decreases count,
{
    if count > 0 {
        lemma_layers_keep(f, w, frames, (count - 1) as nat, x);
    }
}

/// The layers of the transformer add to what they are given: where to add something scaled
/// changes nothing, the transformer is its two transpositions with the projection into the
/// width of the layers, the norm and the projection out of it between them.
pub proof fn transformer_layers_add_to_their_input<V>(
    f: spec_fn(Call, Seq<V>) -> V,
    s: Memory<V>,
    frames: usize,
    layers: usize,
)
    requires
        forall|call: Call, args: Seq<V>|
            args.len() == 3 && call is ScaledResidualAdd ==> #[trigger] f(call, args) == args[0],
    ensures
        ({
            let end = op::run(f, s, transformer::transformer_ops(frames, layers as nat));
            let with = |w: Weight, x: V|
                f(call_of_tensor(frames, w)->0, seq![x, s[Operand::Weight(w)]]);
            let rows = f(
                Call::TransposeCtToTc { channels: 1024, frames },
                seq![s[Operand::Input(0)]],
            );
            let inside = with(Weight::InputBias, with(Weight::InputProjection, rows));
            let outside = with(
                Weight::OutputBias,
                with(Weight::OutputProjection, with(Weight::FinalNorm, inside)),
            );
            end[op::scratch(OUTPUT_CT)] == f(
                Call::TransposeTcToCt { frames, channels: 1024 },
                seq![outside],
            )
        }),
{
    transformer_plan_computes_transformer(f, s, frames, layers);
    lemma_layers_keep(
        f,
        s,
        frames,
        layers as nat,
        transformer_laws::embedded_value(f, s, frames, s[Operand::Input(0)]),
    );
}

/// Two memories that differ in one tensor of a layer at most.
pub open spec fn differ_in<V>(s: Memory<V>, t: Memory<V>, index: usize, part: LayerWeight) -> bool {
    &&& s[Operand::Input(0)] == t[Operand::Input(0)]
    &&& forall|w: Weight|
        w != (Weight::Layer { index, part }) ==> #[trigger] s[Operand::Weight(w)]
            == t[Operand::Weight(w)]
}

/// No call of that kind looks at one of its two arguments.
pub open spec fn ignores<V>(
    f: spec_fn(Call, Seq<V>) -> V,
    kind: spec_fn(Call) -> bool,
    first: bool,
) -> bool {
    forall|call: Call, a: Seq<V>, b: Seq<V>|
        #![trigger f(call, a), f(call, b)]
        kind(call) && a.len() == 2 && b.len() == 2 && (if first {
            a[1] == b[1]
        } else {
            a[0] == b[0]
        }) ==> f(call, a) == f(call, b)
}

/// What hides a tensor of a layer from the result.
pub open spec fn hides<V>(f: spec_fn(Call, Seq<V>) -> V, part: LayerWeight) -> bool {
    match part {
        LayerWeight::Query => ignores(f, |c: Call| c is AttentionScores, true),
        LayerWeight::Key => ignores(f, |c: Call| c is AttentionScores, false),
        LayerWeight::Value => ignores(f, |c: Call| c is ApplyValue, false),
        LayerWeight::Gate => ignores(f, |c: Call| c is Swiglu, true),
        LayerWeight::Up => ignores(f, |c: Call| c is Swiglu, false),
        _ => false,
    }
}

#[verifier::spinoff_prover]
#[verifier::rlimit(60)]
proof fn lemma_layer_hides<V>(
    f: spec_fn(Call, Seq<V>) -> V,
    s: Memory<V>,
    t: Memory<V>,
    frames: usize,
    at: usize,
    index: usize,
    part: LayerWeight,
    x: V,
)
    requires
        differ_in(s, t, index, part),
        hides(f, part),
    ensures
        transformer_laws::attention_value(f, s, frames, at, x) == transformer_laws::attention_value(
            f,
            t,
            frames,
            at,
            x,
        ),
        transformer_laws::mlp_value(f, s, frames, at, x) == transformer_laws::mlp_value(
            f,
            t,
            frames,
            at,
            x,
        ),
{
    assert forall|p: LayerWeight| p != part || at != index implies #[trigger]
        s[transformer::layer_weight(at, p)] == t[transformer::layer_weight(at, p)] by {
        assert((Weight::Layer { index: at, part: p }) != (Weight::Layer { index, part }));
    }
    if at == index {
        let norm = transformer::norm_call(frames);
        let n = f(norm, seq![x, s[transformer::layer_weight(at, LayerWeight::InputGamma)]]);
        let rope = transformer::rope_call(frames);
        let heads = |m: Memory<V>, p: LayerWeight|
            transformer_laws::heads_value(f, frames, n, m[transformer::layer_weight(at, p)]);
        let score = transformer::scores_call(frames);
        let q_s = f(rope, seq![heads(s, LayerWeight::Query)]);
        let q_t = f(rope, seq![heads(t, LayerWeight::Query)]);
        let k_s = f(rope, seq![heads(s, LayerWeight::Key)]);
        let k_t = f(rope, seq![heads(t, LayerWeight::Key)]);
        assert(f(score, seq![q_s, k_s]) == f(score, seq![q_t, k_t]));
        let share = f(transformer::softmax_call(frames), seq![f(score, seq![q_s, k_s])]);
        let apply = transformer::apply_call(frames);
        assert(f(apply, seq![share, heads(s, LayerWeight::Value)]) == f(
            apply,
            seq![share, heads(t, LayerWeight::Value)],
        ));
        let widen = op::gemm(frames, 1024, 512);
        let y = f(norm, seq![x, s[transformer::layer_weight(at, LayerWeight::PostGamma)]]);
        let product = |m: Memory<V>, p: LayerWeight|
            f(widen, seq![y, m[transformer::layer_weight(at, p)]]);
        let gated = transformer::swiglu_call(frames);
        assert(f(gated, seq![product(s, LayerWeight::Gate), product(s, LayerWeight::Up)]) == f(
            gated,
            seq![product(t, LayerWeight::Gate), product(t, LayerWeight::Up)],
        ));
    }
}

proof fn lemma_layers_hide<V>(
    f: spec_fn(Call, Seq<V>) -> V,
    s: Memory<V>,
    t: Memory<V>,
    frames: usize,
    count: nat,
    index: usize,
    part: LayerWeight,
    x: V,
)
    requires
        differ_in(s, t, index, part),
        hides(f, part),
    ensures
        transformer_laws::layers_value(f, s, frames, count, x) == transformer_laws::layers_value(
            f,
            t,
            frames,
            count,
            x,
        ),
    decreases count,
{
    if count > 0 {
        let at = (count - 1) as usize;
        lemma_layers_hide(f, s, t, frames, (count - 1) as nat, index, part, x);
        let before = transformer_laws::layers_value(f, s, frames, (count - 1) as nat, x);
        lemma_layer_hides(f, s, t, frames, at, index, part, before);
        let middle = transformer_laws::attention_value(f, s, frames, at, before);
        lemma_layer_hides(f, s, t, frames, at, index, part, middle);
    }
}

/// The queries of a layer reach the result as the first argument of the scores and in no
/// other way, the keys as the second one, the values as the second argument of the weighted
/// sums, and the two factors of the activated product as its first and its second argument.
pub proof fn tensors_go_where_they_belong<V>(
    f: spec_fn(Call, Seq<V>) -> V,
    s: Memory<V>,
    t: Memory<V>,
    frames: usize,
    layers: usize,
    index: usize,
    part: LayerWeight,
)
    requires
        differ_in(s, t, index, part),
        hides(f, part),
    ensures
        op::run(f, s, transformer::transformer_ops(frames, layers as nat))[op::scratch(OUTPUT_CT)]
            == op::run(f, t, transformer::transformer_ops(frames, layers as nat))[op::scratch(
            OUTPUT_CT,
        )],
{
    let x = s[Operand::Input(0)];
    transformer_plan_computes_transformer(f, s, frames, layers);
    transformer_plan_computes_transformer(f, t, frames, layers);
    assert(transformer_laws::embedded_value(f, s, frames, x) == transformer_laws::embedded_value(
        f,
        t,
        frames,
        x,
    ));
    lemma_layers_hide(
        f,
        s,
        t,
        frames,
        layers as nat,
        index,
        part,
        transformer_laws::embedded_value(f, s, frames, x),
    );
}

/// The quantiser looks up the first code of a frame in the first codebook and the others in
/// the rest, and projects each with its own projection; the convolution works on what it
/// gives. They leave 512 and 1024 numbers for every frame.
pub proof fn codes_are_looked_up_and_convolved<V>(
    f: spec_fn(Call, Seq<V>) -> V,
    s: Memory<V>,
    frames: usize,
)
    requires
        1024 * frames <= usize::MAX,
    ensures
        ({
            let ops = initial::initial_ops(frames);
            let end = op::run(f, s, ops);
            let m = |w: Weight| s[Operand::Weight(w)];
            &&& ops[0] == Op::Alloc { len: (512 * frames) as usize }
            &&& ops[1] == Op::Alloc { len: (1024 * frames) as usize }
            &&& end[op::scratch(0)] == f(
                Call::RvqProject { frames },
                seq![
                    s[Operand::Input(0)],
                    m(Weight::FirstCodebook),
                    m(Weight::RestCodebooks),
                    m(Weight::FirstProjection),
                    m(Weight::RestProjection),
                ],
            )
            &&& end[op::scratch(1)] == f(
                Call::CausalConv1d { frames },
                seq![end[op::scratch(0)], m(Weight::PreConvWeight), m(Weight::PreConvBias)],
            )
        }),
{
    initial_plan_computes_convolution(f, s, frames);
}

/// The codec has eight layers, numbered from zero, and no others.
pub proof fn the_codec_has_eight_layers(frames: usize, index: usize, part: LayerWeight)
    requires
        is_part(part),
    ensures
        ({
            let ops = transformer::transformer_ops(
                frames,
                crate::codec::dims::TRANSFORMER_LAYERS as nat,
            );
            op_laws::some(ops, user(index, part)) <==> index < 8
        }),
{
    let layers = crate::codec::dims::TRANSFORMER_LAYERS;
    let ops = transformer::transformer_ops(frames, layers as nat);
    transformer_calls_are_told(frames, layers);
    if index < 8 {
        assert(op_laws::some(ops, user(index, part)));
    } else if op_laws::some(ops, user(index, part)) {
        let q = user(index, part);
        let i = choose|i: int| 0 <= i < ops.len() && q(#[trigger] ops[i]);
        assert(layer_read(ops[i]) == Some(index as int));
    }
}

/// The hidden rows behind layer `index` of the transformer: two halves, each of which adds
/// what it makes of the norm of its rows to these rows, scaled column by column.
pub open spec fn behind_layer<V>(
    f: spec_fn(Call, Seq<V>) -> V,
    s: Memory<V>,
    frames: usize,
    index: usize,
    x: V,
) -> V {
    let m = |part: LayerWeight| s[Operand::Weight(Weight::Layer { index, part })];
    let norm = Call::RmsNorm { rows: frames, cols: 512, epsilon: 0x3727_c5ac };
    let up = Call::Gemm { m: frames, n: 1024, k: 512 };
    let down = Call::Gemm { m: frames, n: 512, k: 1024 };
    let add = Call::ScaledResidualAdd { rows: frames, cols: 512 };
    let split = Call::Permute { batch: 1, steps: frames, heads: 16, head_dim: 64 };
    let turn = Call::Rope {
        total: (16 * frames * 64) as usize,
        heads: 16,
        steps: frames,
        head_dim: 64,
        offset: 0,
        theta: 0x461c_4000,
    };
    let rows = f(norm, seq![x, m(LayerWeight::InputGamma)]);
    let heads = |part: LayerWeight| f(split, seq![f(up, seq![rows, m(part)])]);
    let scores = f(
        Call::AttentionScores {
            batch: 1,
            q_heads: 16,
            kv_heads: 16,
            query_steps: frames,
            key_steps: frames,
            head_dim: 64,
            offset: 0,
            scale: 0x3e00_0000,
        },
        seq![f(turn, seq![heads(LayerWeight::Query)]), f(turn, seq![heads(LayerWeight::Key)])],
    );
    let shares = f(Call::Softmax { rows: (16 * frames) as usize, cols: frames }, seq![scores]);
    let attended = f(
        Call::ApplyValue {
            batch: 1,
            q_heads: 16,
            kv_heads: 16,
            query_steps: frames,
            key_steps: frames,
            head_dim: 64,
        },
        seq![shares, heads(LayerWeight::Value)],
    );
    let middle = f(
        add,
        seq![
            x,
            f(down, seq![attended, m(LayerWeight::Output)]),
            m(LayerWeight::AttentionScale),
        ],
    );
    let again = f(norm, seq![middle, m(LayerWeight::PostGamma)]);
    let activated = f(
        Call::Swiglu { total: (frames * 1024) as usize },
        seq![f(up, seq![again, m(LayerWeight::Gate)]), f(up, seq![again, m(LayerWeight::Up)])],
    );
    f(
        add,
        seq![middle, f(down, seq![activated, m(LayerWeight::Down)]), m(LayerWeight::MlpScale)],
    )
}

/// Layer after layer, from the first one on.
pub open spec fn behind_layers<V>(
    f: spec_fn(Call, Seq<V>) -> V,
    s: Memory<V>,
    frames: usize,
    from: nat,
    to: nat,
    x: V,
) -> V
    decreases to - from,
{
    if from >= to {
        x
    } else {
        behind_layers(
            f,
            s,
            frames,
            from + 1,
            to,
            behind_layer(f, s, frames, from as usize, x),
        )
    }
}

#[verifier::spinoff_prover]
#[verifier::rlimit(60)]
proof fn lemma_behind_layer<V>(
    f: spec_fn(Call, Seq<V>) -> V,
    s: Memory<V>,
    frames: usize,
    index: usize,
    x: V,
)
    ensures
        transformer_laws::mlp_value(
            f,
            s,
            frames,
            index,
            transformer_laws::attention_value(f, s, frames, index, x),
        ) == behind_layer(f, s, frames, index, x),
{
}

proof fn lemma_behind_last<V>(
    f: spec_fn(Call, Seq<V>) -> V,
    s: Memory<V>,
    frames: usize,
    from: nat,
    to: nat,
    x: V,
)
    requires
        from <= to,
    ensures
        behind_layers(f, s, frames, from, to + 1, x) == behind_layer(
            f,
            s,
            frames,
            to as usize,
            behind_layers(f, s, frames, from, to, x),
        ),
    decreases to - from,
{
    if from < to {
        lemma_behind_last(
            f,
            s,
            frames,
            from + 1,
            to,
            behind_layer(f, s, frames, from as usize, x),
        );
    } else {
        reveal_with_fuel(behind_layers, 2);
    }
}

proof fn lemma_behind_layers<V>(
    f: spec_fn(Call, Seq<V>) -> V,
    s: Memory<V>,
    frames: usize,
    count: nat,
    x: V,
)
    ensures
        transformer_laws::layers_value(f, s, frames, count, x) == behind_layers(
            f,
            s,
            frames,
            0,
            count,
            x,
        ),
    decreases count,
{
    if count > 0 {
        let fewer = (count - 1) as nat;
        lemma_behind_layers(f, s, frames, fewer, x);
        lemma_behind_layer(
            f,
            s,
            frames,
            fewer as usize,
            transformer_laws::layers_value(f, s, frames, fewer, x),
        );
        lemma_behind_last(f, s, frames, 0, fewer, x);
    }
}

/// The transformer turns channels into rows, projects them into the width of its layers, runs
/// its layers in their order, norms and projects the rows back, and turns them into channels
/// again.
pub proof fn transformers_run_their_layers_in_order<V>(
    f: spec_fn(Call, Seq<V>) -> V,
    s: Memory<V>,
    frames: usize,
    layers: usize,
)
    ensures
        ({
            let end = op::run(f, s, transformer::transformer_ops(frames, layers as nat));
            let with = |w: Weight, x: V|
                f(call_of_tensor(frames, w)->0, seq![x, s[Operand::Weight(w)]]);
            let rows = f(
                Call::TransposeCtToTc { channels: 1024, frames },
                seq![s[Operand::Input(0)]],
            );
            let inside = with(Weight::InputBias, with(Weight::InputProjection, rows));
            let done = behind_layers(f, s, frames, 0, layers as nat, inside);
            let outside = with(
                Weight::OutputBias,
                with(Weight::OutputProjection, with(Weight::FinalNorm, done)),
            );
            end[op::scratch(23)] == f(
                Call::TransposeTcToCt { frames, channels: 1024 },
                seq![outside],
            )
        }),
{
    transformer_plan_computes_transformer(f, s, frames, layers);
    lemma_behind_layers(
        f,
        s,
        frames,
        layers as nat,
        transformer_laws::embedded_value(f, s, frames, s[Operand::Input(0)]),
    );
}

} // verus!

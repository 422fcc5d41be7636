//! What the layer plans compute, and that they stay within their buffers.

use vstd::prelude::*;

use crate::codec::transformer_laws;
use crate::device::op::{self, Call, LayerWeight, Memory, Operand, Weight};
use crate::device::plan;
use crate::layer::dims::Dims;
use crate::layer::plan::{
    self as layer_plan, Span, ATTENDED, HIDDEN, K_CACHE, K_ROPE, Q_ROPE, RESULT, V_BHSD, V_CACHE,
};

verus! {

/// A projection of the hidden state, normed per head, split into heads.
pub open spec fn head_value<V>(
    f: spec_fn(Call, Seq<V>) -> V,
    d: Dims,
    span: Span,
    heads: usize,
    width: usize,
    normed: V,
    weight: V,
    gamma: V,
) -> V {
    let projected = f(layer_plan::gemm(span.rows(), width, d.hidden), seq![normed, weight]);
    let scaled = f(layer_plan::norm(span.rows() * heads, d.head_dim), seq![projected, gamma]);
    f(layer_plan::permute(d, span, heads), seq![scaled])
}

/// The normed hidden state.
pub open spec fn normed_value<V>(
    f: spec_fn(Call, Seq<V>) -> V,
    w: Memory<V>,
    d: Dims,
    span: Span,
    index: usize,
    x: V,
) -> V {
    f(
        layer_plan::norm(span.rows(), d.hidden),
        seq![x, w[layer_plan::part(index, LayerWeight::InputGamma)]],
    )
}

/// The rotated queries of a layer as a function of the hidden state.
pub open spec fn query_value<V>(
    f: spec_fn(Call, Seq<V>) -> V,
    w: Memory<V>,
    d: Dims,
    span: Span,
    index: usize,
    x: V,
) -> V {
    let heads = head_value(
        f,
        d,
        span,
        d.q_heads,
        d.q_out,
        normed_value(f, w, d, span, index, x),
        w[layer_plan::part(index, LayerWeight::Query)],
        w[layer_plan::part(index, LayerWeight::QueryGamma)],
    );
    f(layer_plan::rope(d, span, d.q_heads, d.q_out), seq![heads])
}

/// The rotated keys of a layer as a function of the hidden state.
pub open spec fn key_value<V>(
    f: spec_fn(Call, Seq<V>) -> V,
    w: Memory<V>,
    d: Dims,
    span: Span,
    index: usize,
    x: V,
) -> V {
    let heads = head_value(
        f,
        d,
        span,
        d.kv_heads,
        d.kv_out,
        normed_value(f, w, d, span, index, x),
        w[layer_plan::part(index, LayerWeight::Key)],
        w[layer_plan::part(index, LayerWeight::KeyGamma)],
    );
    f(layer_plan::rope(d, span, d.kv_heads, d.kv_out), seq![heads])
}

/// The values of a layer by head, as a function of the hidden state.
pub open spec fn value_value<V>(
    f: spec_fn(Call, Seq<V>) -> V,
    w: Memory<V>,
    d: Dims,
    span: Span,
    index: usize,
    x: V,
) -> V {
    let projected = f(
        layer_plan::gemm(span.rows(), d.kv_out, d.hidden),
        seq![
            normed_value(f, w, d, span, index, x),
            w[layer_plan::part(index, LayerWeight::Value)],
        ],
    );
    f(layer_plan::permute(d, span, d.kv_heads), seq![projected])
}

/// Attention of queries to keys and values.
pub open spec fn attended_value<V>(
    f: spec_fn(Call, Seq<V>) -> V,
    d: Dims,
    span: Span,
    q: V,
    k: V,
    v: V,
) -> V {
    let scores = f(layer_plan::scores(d, span), seq![q, k]);
    f(layer_plan::apply(d, span), seq![f(layer_plan::softmax(d, span), seq![scores]), v])
}

/// The hidden state behind a layer, from the one in front of it and what attention gave.
pub open spec fn finished_value<V>(
    f: spec_fn(Call, Seq<V>) -> V,
    w: Memory<V>,
    d: Dims,
    span: Span,
    index: usize,
    x: V,
    attended: V,
) -> V {
    let projected = f(
        layer_plan::gemm(span.rows(), d.hidden, d.q_out),
        seq![attended, w[layer_plan::part(index, LayerWeight::Output)]],
    );
    let middle = f(layer_plan::residual(d, span), seq![x, projected]);
    let normed = f(
        layer_plan::norm(span.rows(), d.hidden),
        seq![middle, w[layer_plan::part(index, LayerWeight::PostGamma)]],
    );
    let widen = layer_plan::gemm(span.rows(), d.intermediate, d.hidden);
    let gate = f(widen, seq![normed, w[layer_plan::part(index, LayerWeight::Gate)]]);
    let up = f(widen, seq![normed, w[layer_plan::part(index, LayerWeight::Up)]]);
    let down = f(
        layer_plan::gemm(span.rows(), d.hidden, d.intermediate),
        seq![
            f(layer_plan::swiglu(d, span), seq![gate, up]),
            w[layer_plan::part(index, LayerWeight::Down)],
        ],
    );
    f(layer_plan::residual(d, span), seq![middle, down])
}

/// A layer on whole sequences as a function of the hidden state.
pub open spec fn layer_value<V>(
    f: spec_fn(Call, Seq<V>) -> V,
    w: Memory<V>,
    d: Dims,
    span: Span,
    index: usize,
    x: V,
) -> V {
    let attended = attended_value(
        f,
        d,
        span,
        query_value(f, w, d, span, index, x),
        key_value(f, w, d, span, index, x),
        value_value(f, w, d, span, index, x),
    );
    finished_value(f, w, d, span, index, x, attended)
}

#[verifier::spinoff_prover]
#[verifier::rlimit(60)]
proof fn lemma_projection<V>(
    f: spec_fn(Call, Seq<V>) -> V,
    s: Memory<V>,
    d: Dims,
    span: Span,
    index: usize,
)
    ensures
        ({
            let ops = layer_plan::projection_ops(d, span, index);
            let end = op::run(f, s, ops);
            let x = s[Operand::Input(HIDDEN)];
            &&& end[op::scratch(Q_ROPE)] == query_value(f, s, d, span, index, x)
            &&& end[op::scratch(K_ROPE)] == key_value(f, s, d, span, index, x)
            &&& end[op::scratch(V_BHSD)] == value_value(f, s, d, span, index, x)
            &&& forall|o: Operand| !(o is Scratch) ==> #[trigger] end[o] == s[o]
        }),
{
    let ops = layer_plan::projection_ops(d, span, index);
    assert forall|o: Operand| !(o is Scratch) implies #[trigger] op::run(f, s, ops)[o] == s[o] by {
        op::lemma_leaves_alone(f, s, ops, o);
    }
    reveal_with_fuel(op::run_from, 12);
}

#[verifier::spinoff_prover]
#[verifier::rlimit(40)]
proof fn lemma_attention<V>(
    f: spec_fn(Call, Seq<V>) -> V,
    s: Memory<V>,
    d: Dims,
    span: Span,
    keys: Operand,
    values: Operand,
)
    requires
        keys == op::scratch(K_ROPE) || keys == Operand::Input(K_CACHE),
        values == op::scratch(V_BHSD) || values == Operand::Input(V_CACHE),
    ensures
        ({
            let end = op::run(f, s, layer_plan::attention_ops(d, span, keys, values));
            &&& end[op::scratch(ATTENDED)] == attended_value(
                f,
                d,
                span,
                s[op::scratch(Q_ROPE)],
                s[keys],
                s[values],
            )
            &&& forall|o: Operand| !(o is Scratch) ==> #[trigger] end[o] == s[o]
        }),
{
    let ops = layer_plan::attention_ops(d, span, keys, values);
    assert forall|o: Operand| !(o is Scratch) implies #[trigger] op::run(f, s, ops)[o] == s[o] by {
        op::lemma_leaves_alone(f, s, ops, o);
    }
    reveal_with_fuel(op::run_from, 4);
}

#[verifier::spinoff_prover]
#[verifier::rlimit(60)]
proof fn lemma_finish<V>(
    f: spec_fn(Call, Seq<V>) -> V,
    s: Memory<V>,
    d: Dims,
    span: Span,
    index: usize,
)
    ensures
        ({
            let end = op::run(f, s, layer_plan::finish_ops(d, span, index));
            &&& end[Operand::Input(RESULT)] == finished_value(
                f,
                s,
                d,
                span,
                index,
                s[Operand::Input(HIDDEN)],
                s[op::scratch(ATTENDED)],
            )
            &&& forall|o: Operand|
                !(o is Scratch) && o != Operand::Input(RESULT) ==> #[trigger] end[o] == s[o]
        }),
{
    let ops = layer_plan::finish_ops(d, span, index);
    assert forall|o: Operand|
        !(o is Scratch) && o != Operand::Input(RESULT) implies #[trigger] op::run(f, s, ops)[o]
        == s[o] by {
        op::lemma_leaves_alone(f, s, ops, o);
    }
    reveal_with_fuel(op::run_from, 9);
}

/// The plan of a layer on whole sequences leaves in its second input what the layer
/// computes from its first, and leaves its other inputs and the model alone.
pub proof fn layer_plan_computes_layer<V>(
    f: spec_fn(Call, Seq<V>) -> V,
    s: Memory<V>,
    d: Dims,
    span: Span,
    index: usize,
)
    ensures
        ({
            let end = op::run(f, s, layer_plan::layer_ops(d, span, index));
            &&& end[Operand::Input(RESULT)] == layer_value(
                f,
                s,
                d,
                span,
                index,
                s[Operand::Input(HIDDEN)],
            )
            &&& forall|o: Operand|
                !(o is Scratch) && o != Operand::Input(RESULT) ==> #[trigger] end[o] == s[o]
        }),
{
    let keys = op::scratch(K_ROPE);
    let values = op::scratch(V_BHSD);
    let a = layer_plan::projection_ops(d, span, index);
    let b = layer_plan::attention_ops(d, span, keys, values);
    let c = layer_plan::finish_ops(d, span, index);
    op::lemma_run_concat(f, s, a, b);
    op::lemma_run_concat(f, s, a + b, c);
    lemma_projection(f, s, d, span, index);
    let s1 = op::run(f, s, a);
    lemma_attention(f, s1, d, span, keys, values);
    let s2 = op::run(f, s1, b);
    lemma_finish(f, s2, d, span, index);
    lemma_same_finish(f, s2, s, d, span, index);
}

proof fn lemma_same_finish<V>(
    f: spec_fn(Call, Seq<V>) -> V,
    s: Memory<V>,
    w: Memory<V>,
    d: Dims,
    span: Span,
    index: usize,
)
    requires
        forall|o: Operand|
            !(o is Scratch) && o != Operand::Input(K_CACHE) && o != Operand::Input(V_CACHE)
                ==> #[trigger] s[o] == w[o],
    ensures
        forall|x: V, a: V| #[trigger]
            finished_value(f, s, d, span, index, x, a) == finished_value(
                f,
                w,
                d,
                span,
                index,
                x,
                a,
            ),
{
    assert forall|x: V, a: V| #[trigger]
        finished_value(f, s, d, span, index, x, a) == finished_value(f, w, d, span, index, x, a) by {
        assert(s[layer_plan::part(index, LayerWeight::Output)] == w[layer_plan::part(
            index,
            LayerWeight::Output,
        )]);
        assert(s[layer_plan::part(index, LayerWeight::PostGamma)] == w[layer_plan::part(
            index,
            LayerWeight::PostGamma,
        )]);
        assert(s[layer_plan::part(index, LayerWeight::Gate)] == w[layer_plan::part(
            index,
            LayerWeight::Gate,
        )]);
        assert(s[layer_plan::part(index, LayerWeight::Up)] == w[layer_plan::part(
            index,
            LayerWeight::Up,
        )]);
        assert(s[layer_plan::part(index, LayerWeight::Down)] == w[layer_plan::part(
            index,
            LayerWeight::Down,
        )]);
    }
}

/// The cache of keys behind one decoding step.
pub open spec fn new_k_cache<V>(
    f: spec_fn(Call, Seq<V>) -> V,
    s: Memory<V>,
    d: Dims,
    span: Span,
    index: usize,
) -> V {
    let x = s[Operand::Input(HIDDEN)];
    f(
        layer_plan::write(d, span),
        seq![key_value(f, s, d, span, index, x), s[Operand::Input(K_CACHE)]],
    )
}

/// The cache of values behind one decoding step.
pub open spec fn new_v_cache<V>(
    f: spec_fn(Call, Seq<V>) -> V,
    s: Memory<V>,
    d: Dims,
    span: Span,
    index: usize,
) -> V {
    let x = s[Operand::Input(HIDDEN)];
    f(
        layer_plan::write(d, span),
        seq![value_value(f, s, d, span, index, x), s[Operand::Input(V_CACHE)]],
    )
}

/// One decoding step puts its key and its value into the caches, lets its query attend
/// to the caches as they are then, and leaves the hidden state behind the layer in its
/// second input.
pub proof fn decode_plan_computes_step<V>(
    f: spec_fn(Call, Seq<V>) -> V,
    s: Memory<V>,
    d: Dims,
    offset: usize,
    cache_steps: usize,
    index: usize,
)
    ensures
        ({
            let span = layer_plan::one_step(offset, cache_steps);
            let end = op::run(f, s, layer_plan::decode_ops(d, offset, cache_steps, index));
            let x = s[Operand::Input(HIDDEN)];
            let k = new_k_cache(f, s, d, span, index);
            let v = new_v_cache(f, s, d, span, index);
            let attended = attended_value(f, d, span, query_value(f, s, d, span, index, x), k, v);
            &&& end[Operand::Input(K_CACHE)] == k
            &&& end[Operand::Input(V_CACHE)] == v
            &&& end[Operand::Input(RESULT)] == finished_value(f, s, d, span, index, x, attended)
            &&& end[Operand::Input(HIDDEN)] == x
            &&& transformer_laws::same_model(end, s)
        }),
{
    let span = layer_plan::one_step(offset, cache_steps);
    let keys = Operand::Input(K_CACHE);
    let values = Operand::Input(V_CACHE);
    let buffers = layer_plan::layer_buffers(d, span);
    let a = layer_plan::projection_ops(d, span, index);
    let c = layer_plan::cache_ops(d, span);
    let b = layer_plan::attention_ops(d, span, keys, values);
    let e = layer_plan::finish_ops(d, span, index);
    op::lemma_run_concat(f, s, buffers, a);
    op::lemma_run_concat(f, s, buffers + a, c);
    op::lemma_run_concat(f, s, buffers + a + c, b);
    op::lemma_run_concat(f, s, buffers + a + c + b, e);
    transformer_laws::lemma_allocations_keep_memory(f, s, buffers);
    lemma_projection(f, s, d, span, index);
    let s1 = op::run(f, s, a);
    let s2 = op::run(f, s1, c);
    assert(s2 == s1.insert(keys, new_k_cache(f, s, d, span, index)).insert(
        values,
        new_v_cache(f, s, d, span, index),
    )) by {
        reveal_with_fuel(op::run_from, 3);
        assert(seq![s1[op::scratch(K_ROPE)]].push(s1[keys]) =~= seq![
            s1[op::scratch(K_ROPE)],
            s1[keys],
        ]);
        assert(seq![s1[op::scratch(V_BHSD)]].push(s1[values]) =~= seq![
            s1[op::scratch(V_BHSD)],
            s1[values],
        ]);
    }
    lemma_attention(f, s2, d, span, keys, values);
    let s3 = op::run(f, s2, b);
    lemma_finish(f, s3, d, span, index);
    lemma_same_finish(f, s3, s, d, span, index);
}

/// The number of elements of a tensor of a layer.
pub open spec fn part_len(d: Dims, p: LayerWeight) -> nat {
    match p {
        LayerWeight::Query => (d.hidden * d.q_out) as nat,
        LayerWeight::Key | LayerWeight::Value => (d.hidden * d.kv_out) as nat,
        LayerWeight::Output => (d.q_out * d.hidden) as nat,
        LayerWeight::Gate | LayerWeight::Up => (d.hidden * d.intermediate) as nat,
        LayerWeight::Down => (d.intermediate * d.hidden) as nat,
        LayerWeight::QueryGamma | LayerWeight::KeyGamma => d.head_dim as nat,
        _ => d.hidden as nat,
    }
}

/// The number of elements of the buffers that a layer plan does not make: the hidden
/// states, the caches and the tensors of the layers.
pub open spec fn outer_len(d: Dims, span: Span) -> spec_fn(Operand) -> nat {
    |o: Operand|
        match o {
            Operand::Input(i) => if i == K_CACHE || i == V_CACHE {
                (d.kv_heads * span.key_steps * d.head_dim) as nat
            } else {
                (span.rows() * d.hidden) as nat
            },
            Operand::Weight(Weight::Layer { part, .. }) => part_len(d, part),
            _ => 0,
        }
}

/// The lengths of the scratch buffers of a layer.
pub open spec fn layer_lens(d: Dims, span: Span) -> Seq<usize> {
    let rows = span.rows();
    let hidden = (rows * d.hidden) as usize;
    let q = (rows * d.q_out) as usize;
    let kv = (rows * d.kv_out) as usize;
    let square = (span.batch * d.q_heads * span.steps * span.key_steps) as usize;
    let mlp = (rows * d.intermediate) as usize;
    seq![
        hidden, q, kv, kv, q, kv, q, kv, kv, q, kv, square, square, q, hidden, hidden, hidden,
        mlp, mlp, mlp, hidden,
    ]
}

/// A number of heads and the width of a head, multiplied in the orders in which the
/// calls multiply them.
proof fn lemma_heads(batch: int, steps: int, heads: int, head_dim: int, width: int)
    requires
        width == heads * head_dim,
    ensures
        (batch * steps * heads) * head_dim == (batch * steps) * width,
        batch * heads * steps * head_dim == (batch * steps) * width,
{
    assert((batch * steps * heads) * head_dim == (batch * steps) * (heads * head_dim))
        by (nonlinear_arith);
    assert(batch * heads * steps * head_dim == (batch * steps) * (heads * head_dim))
        by (nonlinear_arith);
}

#[verifier::spinoff_prover]
#[verifier::rlimit(80)]
proof fn lemma_projection_in_bounds(d: Dims, span: Span, index: usize)
    requires
        d.wf(),
        layer_plan::countable(d, span),
    ensures
        plan::in_bounds(
            layer_plan::projection_ops(d, span, index),
            layer_lens(d, span),
            outer_len(d, span),
        ),
        plan::alloc_lens(layer_plan::projection_ops(d, span, index)) == Seq::<usize>::empty(),
{
    let ops = layer_plan::projection_ops(d, span, index);
    let lens = layer_lens(d, span);
    let outer = outer_len(d, span);
    lemma_heads(
        span.batch as int,
        span.steps as int,
        d.q_heads as int,
        d.head_dim as int,
        d.q_out as int,
    );
    lemma_heads(
        span.batch as int,
        span.steps as int,
        d.kv_heads as int,
        d.head_dim as int,
        d.kv_out as int,
    );
    assert forall|i: int| 0 <= i < ops.len() implies plan::fits(
        lens,
        outer,
        #[trigger] ops[i],
    ) by {
        plan::lemma_fits(lens, outer, ops[i]);
    }
    plan::lemma_in_bounds_runs(ops, lens, outer);
}

#[verifier::spinoff_prover]
#[verifier::rlimit(80)]
proof fn lemma_finish_in_bounds(d: Dims, span: Span, index: usize)
    requires
        d.wf(),
        layer_plan::countable(d, span),
    ensures
        plan::in_bounds(
            layer_plan::finish_ops(d, span, index),
            layer_lens(d, span),
            outer_len(d, span),
        ),
        plan::alloc_lens(layer_plan::finish_ops(d, span, index)) == Seq::<usize>::empty(),
{
    let ops = layer_plan::finish_ops(d, span, index);
    let lens = layer_lens(d, span);
    let outer = outer_len(d, span);
    assert forall|i: int| 0 <= i < ops.len() implies plan::fits(
        lens,
        outer,
        #[trigger] ops[i],
    ) by {
        plan::lemma_fits(lens, outer, ops[i]);
    }
    plan::lemma_in_bounds_runs(ops, lens, outer);
}

#[verifier::spinoff_prover]
#[verifier::rlimit(80)]
proof fn lemma_attention_in_bounds(d: Dims, span: Span, keys: Operand, values: Operand)
    requires
        d.wf(),
        layer_plan::countable(d, span),
        plan::operand_len(layer_lens(d, span), outer_len(d, span), keys) == span.batch * d.kv_heads
            * span.key_steps * d.head_dim,
        plan::operand_len(layer_lens(d, span), outer_len(d, span), values) == span.batch
            * d.kv_heads * span.key_steps * d.head_dim,
    ensures
        plan::in_bounds(
            layer_plan::attention_ops(d, span, keys, values),
            layer_lens(d, span),
            outer_len(d, span),
        ),
        plan::alloc_lens(layer_plan::attention_ops(d, span, keys, values)) == Seq::<
            usize,
        >::empty(),
{
    let ops = layer_plan::attention_ops(d, span, keys, values);
    let lens = layer_lens(d, span);
    let outer = outer_len(d, span);
    lemma_heads(
        span.batch as int,
        span.steps as int,
        d.q_heads as int,
        d.head_dim as int,
        d.q_out as int,
    );
    assert forall|i: int| 0 <= i < ops.len() implies plan::fits(
        lens,
        outer,
        #[trigger] ops[i],
    ) by {
        plan::lemma_fits(lens, outer, ops[i]);
    }
    plan::lemma_in_bounds_runs(ops, lens, outer);
}

/// On whole sequences every step of a layer stays within the workspace, the hidden
/// states and the tensors of the layer.
pub proof fn layer_plan_in_bounds(d: Dims, span: Span, index: usize)
    requires
        d.wf(),
        layer_plan::countable(d, span),
        span.key_steps == span.steps,
    ensures
        plan::in_bounds(
            layer_plan::layer_ops(d, span, index),
            layer_lens(d, span),
            outer_len(d, span),
        ),
{
    let lens = layer_lens(d, span);
    let outer = outer_len(d, span);
    let keys = op::scratch(K_ROPE);
    let values = op::scratch(V_BHSD);
    let a = layer_plan::projection_ops(d, span, index);
    let b = layer_plan::attention_ops(d, span, keys, values);
    let c = layer_plan::finish_ops(d, span, index);
    lemma_heads(
        span.batch as int,
        span.steps as int,
        d.kv_heads as int,
        d.head_dim as int,
        d.kv_out as int,
    );
    lemma_projection_in_bounds(d, span, index);
    lemma_attention_in_bounds(d, span, keys, values);
    lemma_finish_in_bounds(d, span, index);
    assert(lens + Seq::<usize>::empty() =~= lens);
    plan::lemma_alloc_lens_concat(a, b);
    plan::lemma_in_bounds_concat(a, b, lens, outer);
    plan::lemma_in_bounds_concat(a + b, c, lens, outer);
}

/// A decoding step at a position inside the caches stays within its buffers and the
/// caches.
#[verifier::spinoff_prover]
#[verifier::rlimit(60)]
pub proof fn decode_plan_in_bounds(d: Dims, offset: usize, cache_steps: usize, index: usize)
    requires
        d.wf(),
        layer_plan::countable(d, layer_plan::one_step(offset, cache_steps)),
        offset < cache_steps,
        d.q_heads > 0,
        d.kv_heads > 0,
        d.intermediate > 0,
    ensures
        plan::in_bounds(
            layer_plan::decode_ops(d, offset, cache_steps, index),
            Seq::empty(),
            outer_len(d, layer_plan::one_step(offset, cache_steps)),
        ),
{
    let span = layer_plan::one_step(offset, cache_steps);
    let lens = layer_lens(d, span);
    let none = Seq::<usize>::empty();
    let outer = outer_len(d, span);
    let keys = Operand::Input(K_CACHE);
    let values = Operand::Input(V_CACHE);
    let buffers = layer_plan::layer_buffers(d, span);
    let a = layer_plan::projection_ops(d, span, index);
    let c = layer_plan::cache_ops(d, span);
    let b = layer_plan::attention_ops(d, span, keys, values);
    let e = layer_plan::finish_ops(d, span, index);
    assert(span.rows() == 1) by {
        assert(1usize * 1usize == 1);
    }
    assert(1 * d.hidden == d.hidden && 1 * d.q_out == d.q_out && 1 * d.kv_out == d.kv_out && 1
        * d.intermediate == d.intermediate);
    assert(d.q_out > 0 && d.kv_out > 0) by (nonlinear_arith)
        requires
            d.wf(),
            d.q_heads > 0,
            d.kv_heads > 0,
            d.q_out == d.q_heads * d.head_dim,
            d.kv_out == d.kv_heads * d.head_dim,
            d.head_dim > 0,
    ;
    assert(1 * d.q_heads * 1 * cache_steps > 0) by (nonlinear_arith)
        requires
            d.q_heads > 0,
            cache_steps > 0,
    ;
    plan::lemma_only_allocs(buffers, none, outer);
    assert(plan::alloc_lens(buffers) =~= lens);
    lemma_projection_in_bounds(d, span, index);
    assert(1 * d.kv_heads * cache_steps * d.head_dim == d.kv_heads * cache_steps * d.head_dim);
    assert(0 <= d.kv_heads * cache_steps * d.head_dim) by (nonlinear_arith);
    lemma_attention_in_bounds(d, span, keys, values);
    lemma_finish_in_bounds(d, span, index);
    assert(d.kv_heads * 1 * d.head_dim == d.kv_out);
    assert(((d.kv_heads - 1) * cache_steps + offset + 1) * d.head_dim <= d.kv_heads * cache_steps
        * d.head_dim) by (nonlinear_arith)
        requires
            d.kv_heads > 0,
            offset + 1 <= cache_steps,
            d.head_dim > 0,
    ;
    assert forall|i: int| 0 <= i < c.len() implies plan::fits(lens, outer, #[trigger] c[i]) by {
        plan::lemma_fits(lens, outer, c[i]);
    }
    plan::lemma_in_bounds_runs(c, lens, outer);
    assert(none + lens =~= lens);
    assert(lens + none =~= lens);
    plan::lemma_alloc_lens_concat(buffers, a);
    plan::lemma_alloc_lens_concat(buffers + a, c);
    plan::lemma_alloc_lens_concat(buffers + a + c, b);
    plan::lemma_in_bounds_concat(buffers, a, none, outer);
    plan::lemma_in_bounds_concat(buffers + a, c, none, outer);
    plan::lemma_in_bounds_concat(buffers + a + c, b, none, outer);
    plan::lemma_in_bounds_concat(buffers + a + c + b, e, none, outer);
}

/// A prefill puts the keys and the values of its prefix into the caches, computed just as
/// a decoding step computes those of its own position, and leaves its input alone.
#[verifier::spinoff_prover]
#[verifier::rlimit(40)]
pub proof fn prefill_plan_fills_caches<V>(
    f: spec_fn(Call, Seq<V>) -> V,
    s: Memory<V>,
    d: Dims,
    steps: usize,
    cache_steps: usize,
    index: usize,
)
    ensures
        ({
            let span = layer_plan::prefix_span(steps, cache_steps);
            let ops = layer_plan::prefill_buffers(d, span) + layer_plan::prefill_steps(
                d,
                span,
                index,
            );
            let end = op::run(f, s, ops);
            &&& end[Operand::Input(K_CACHE)] == new_k_cache(f, s, d, span, index)
            &&& end[Operand::Input(V_CACHE)] == new_v_cache(f, s, d, span, index)
            &&& end[Operand::Input(HIDDEN)] == s[Operand::Input(HIDDEN)]
            &&& transformer_laws::same_model(end, s)
        }),
{
    let span = layer_plan::prefix_span(steps, cache_steps);
    let buffers = layer_plan::prefill_buffers(d, span);
    let ops = layer_plan::prefill_steps(d, span, index);
    op::lemma_run_concat(f, s, buffers, ops);
    transformer_laws::lemma_allocations_keep_memory(f, s, buffers);
    reveal_with_fuel(op::run_from, 10);
    let k = key_value(f, s, d, span, index, s[Operand::Input(HIDDEN)]);
    let v = value_value(f, s, d, span, index, s[Operand::Input(HIDDEN)]);
    assert(seq![k].push(s[Operand::Input(K_CACHE)]) =~= seq![k, s[Operand::Input(K_CACHE)]]);
    assert(seq![v].push(s[Operand::Input(V_CACHE)]) =~= seq![v, s[Operand::Input(V_CACHE)]]);
}

/// A prefill of a prefix that the caches can hold stays within its buffers and the caches.
#[verifier::spinoff_prover]
#[verifier::rlimit(60)]
pub proof fn prefill_plan_in_bounds(d: Dims, steps: usize, cache_steps: usize, index: usize)
    requires
        d.wf(),
        layer_plan::countable(d, layer_plan::prefix_span(steps, cache_steps)),
        0 < steps <= cache_steps,
        d.kv_heads > 0,
    ensures
        ({
            let span = layer_plan::prefix_span(steps, cache_steps);
            plan::in_bounds(
                layer_plan::prefill_buffers(d, span) + layer_plan::prefill_steps(d, span, index),
                Seq::empty(),
                outer_len(d, span),
            )
        }),
{
    let span = layer_plan::prefix_span(steps, cache_steps);
    let none = Seq::<usize>::empty();
    let outer = outer_len(d, span);
    let buffers = layer_plan::prefill_buffers(d, span);
    let ops = layer_plan::prefill_steps(d, span, index);
    let hidden = (span.rows() * d.hidden) as usize;
    let kv = (span.rows() * d.kv_out) as usize;
    let lens = seq![hidden, kv, kv, kv, kv, kv, kv];
    assert(span.batch * span.steps == steps) by (nonlinear_arith)
        requires
            span.batch == 1,
            span.steps == steps,
    ;
    assert(steps * d.hidden > 0 && d.kv_out > 0 && steps * d.kv_out > 0) by (nonlinear_arith)
        requires
            steps > 0,
            d.hidden > 0,
            d.kv_heads > 0,
            d.head_dim > 0,
            d.kv_out == d.kv_heads * d.head_dim,
    ;
    lemma_heads(1, steps as int, d.kv_heads as int, d.head_dim as int, d.kv_out as int);
    assert(d.kv_heads * steps * d.head_dim == steps * d.kv_out) by (nonlinear_arith)
        requires
            d.kv_out == d.kv_heads * d.head_dim,
    ;
    assert(((d.kv_heads - 1) * cache_steps + 0 + steps) * d.head_dim <= d.kv_heads * cache_steps
        * d.head_dim) by (nonlinear_arith)
        requires
            d.kv_heads > 0,
            steps <= cache_steps,
            d.head_dim > 0,
    ;
    assert(0 <= d.kv_heads * cache_steps * d.head_dim) by (nonlinear_arith);
    plan::lemma_only_allocs(buffers, none, outer);
    assert(plan::alloc_lens(buffers) =~= lens) by {
        reveal_with_fuel(plan::alloc_lens, 8);
    }
    assert forall|i: int| 0 <= i < ops.len() implies plan::fits(
        lens,
        outer,
        #[trigger] ops[i],
    ) by {
        plan::lemma_fits(lens, outer, ops[i]);
    }
    plan::lemma_in_bounds_runs(ops, lens, outer);
    assert(none + lens =~= lens);
    plan::lemma_in_bounds_concat(buffers, ops, none, outer);
}

} // verus!

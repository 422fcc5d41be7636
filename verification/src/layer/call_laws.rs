//! What the calls of a layer are told, and what each tensor of a layer is for.

use vstd::prelude::*;

use crate::codec::transformer_laws;
use crate::device::op::{self, Call, LayerWeight, Memory, Op, Operand, Weight};
use crate::device::op_laws;
use crate::layer::dims::Dims;
use crate::layer::laws::{self, layer_plan_computes_layer};
use crate::layer::plan::{self as layer_plan, Span};

verus! {

/// The call that reads a tensor of a layer, for `rows` rows.
pub open spec fn call_of_tensor(d: Dims, rows: int, part: LayerWeight) -> Option<Call> {
    let norm = |count: int, cols: usize|
        Some(Call::RmsNorm { rows: count as usize, cols, epsilon: 0x3586_37bd });
    let product = |n: usize, k: usize| Some(Call::Gemm { m: rows as usize, n, k });
    match part {
        LayerWeight::InputGamma | LayerWeight::PostGamma => norm(rows, d.hidden),
        LayerWeight::QueryGamma => norm(rows * d.q_heads, d.head_dim),
        LayerWeight::KeyGamma => norm(rows * d.kv_heads, d.head_dim),
        LayerWeight::Query => product(d.q_out, d.hidden),
        LayerWeight::Key | LayerWeight::Value => product(d.kv_out, d.hidden),
        LayerWeight::Output => product(d.hidden, d.q_out),
        LayerWeight::Gate | LayerWeight::Up => product(d.intermediate, d.hidden),
        LayerWeight::Down => product(d.hidden, d.intermediate),
        _ => None,
    }
}

/// A step of layer `index` on `steps` steps of `batch` sequences, from position `offset` on,
/// against keys of `key_steps` steps, is told what it works on.
pub open spec fn is_told(
    d: Dims,
    batch: usize,
    steps: usize,
    key_steps: usize,
    offset: usize,
    index: usize,
    op: Op,
) -> bool {
    &&& op_laws::weight_read(op) matches Some(w) ==> {
        &&& w matches Weight::Layer { index: i, part } && i == index && (op matches Op::Run {
            call,
            ..
        } && Some(call) == call_of_tensor(d, batch * steps, part))
    }
    &&& op matches Op::Run { call, .. } ==> match call {
        Call::Rope { total, heads, steps: s, head_dim, offset: at, theta } => {
            &&& at == offset
            &&& s == steps
            &&& head_dim == d.head_dim
            &&& theta == 0x461c_4000
            &&& (heads == d.q_heads && total == (batch * steps * d.q_out) as usize) || (heads
                == d.kv_heads && total == (batch * steps * d.kv_out) as usize)
        },
        Call::AttentionScores {
            batch: b,
            q_heads,
            kv_heads,
            query_steps,
            key_steps: k,
            head_dim,
            offset: at,
            scale,
        } => {
            &&& at == offset
            &&& b == batch && query_steps == steps && k == key_steps
            &&& q_heads == d.q_heads && kv_heads == d.kv_heads && head_dim == d.head_dim
            &&& scale == d.scale
        },
        Call::Softmax { rows, cols } => rows == (batch * d.q_heads * steps) as usize && cols
            == key_steps,
        Call::ApplyValue { batch: b, q_heads, kv_heads, query_steps, key_steps: k, head_dim } => {
            &&& b == batch && query_steps == steps && k == key_steps
            &&& q_heads == d.q_heads && kv_heads == d.kv_heads && head_dim == d.head_dim
        },
        Call::WriteCache { heads, input_steps, cache_steps, head_dim, offset: at } => {
            &&& at == offset
            &&& heads == d.kv_heads && head_dim == d.head_dim
            &&& input_steps == steps && cache_steps == key_steps
        },
        Call::Permute { batch: b, steps: s, heads, head_dim } => {
            &&& b == batch && s == steps && head_dim == d.head_dim
            &&& heads == d.q_heads || heads == d.kv_heads
        },
        Call::ResidualAdd { total } => total == (batch * steps * d.hidden) as usize,
        Call::Swiglu { total } => total == (batch * steps * d.intermediate) as usize,
        Call::RmsNorm { epsilon, .. } => epsilon == 0x3586_37bd,
        Call::Gemm { m, .. } => m == (batch * steps) as usize,
        _ => false,
    }
}

/// A step rotates the heads that it names.
pub open spec fn rotates(heads: usize, offset: usize, op: Op) -> bool {
    op matches Op::Run { call: Call::Rope { heads: h, offset: at, .. }, .. } && h == heads && at
        == offset
}

/// A step writes a cache at a position.
pub open spec fn writes(cache: usize, offset: usize, op: Op) -> bool {
    op matches Op::Run { call: Call::WriteCache { offset: at, .. }, output, .. } && at == offset
        && output == Operand::Input(cache)
}

/// A step masks what lies behind a position.
pub open spec fn masks(offset: usize, op: Op) -> bool {
    op matches Op::Run { call: Call::AttentionScores { offset: at, .. }, .. } && at == offset
}

/// A step reads that tensor of the layer.
pub open spec fn uses(index: usize, part: LayerWeight, op: Op) -> bool {
    op_laws::weight_read(op) == Some(Weight::Layer { index, part })
}

#[verifier::spinoff_prover]
#[verifier::rlimit(60)]
proof fn lemma_parts_are_told(d: Dims, span: Span, index: usize, keys: Operand, values: Operand)
    requires
        !(keys is Weight),
        !(values is Weight),
    ensures
        ({
            let p = |op: Op|
                is_told(d, span.batch, span.steps, span.key_steps, span.offset, index, op);
            &&& op_laws::every(layer_plan::layer_buffers(d, span), p)
            &&& op_laws::every(layer_plan::projection_ops(d, span, index), p)
            &&& op_laws::every(layer_plan::cache_ops(d, span), p)
            &&& op_laws::every(layer_plan::attention_ops(d, span, keys, values), p)
            &&& op_laws::every(layer_plan::finish_ops(d, span, index), p)
            &&& op_laws::every(layer_plan::prefill_buffers(d, span), p)
            &&& op_laws::every(layer_plan::prefill_steps(d, span, index), p)
        }),
{
}

/// Every step of a layer on whole sequences is told what it works on: dimensions, positions,
/// the scale of the scores and the constants of the norms and rotations.
pub proof fn layer_calls_are_told(d: Dims, span: Span, index: usize)
    ensures
        op_laws::every(
            layer_plan::layer_ops(d, span, index),
            |op: Op| is_told(d, span.batch, span.steps, span.key_steps, span.offset, index, op),
        ),
{
    let p = |op: Op| is_told(d, span.batch, span.steps, span.key_steps, span.offset, index, op);
    let keys = op::scratch(layer_plan::K_ROPE);
    let values = op::scratch(layer_plan::V_BHSD);
    lemma_parts_are_told(d, span, index, keys, values);
    let a = layer_plan::projection_ops(d, span, index);
    let b = layer_plan::attention_ops(d, span, keys, values);
    op_laws::lemma_every_concat(a, b, p);
    op_laws::lemma_every_concat(a + b, layer_plan::finish_ops(d, span, index), p);
}

/// A decoding step has one position: it rotates its query and its key for it, writes its
/// key and its value into the caches at it, and masks what lies behind it. All its calls are
/// told to work on one step against the whole cache.
pub proof fn decoding_steps_have_one_position(
    d: Dims,
    offset: usize,
    cache_steps: usize,
    index: usize,
)
    ensures
        ({
            let ops = layer_plan::decode_ops(d, offset, cache_steps, index);
            &&& op_laws::every(ops, |op: Op| is_told(d, 1, 1, cache_steps, offset, index, op))
            &&& op_laws::some(ops, |op: Op| rotates(d.q_heads, offset, op))
            &&& op_laws::some(ops, |op: Op| rotates(d.kv_heads, offset, op))
            &&& op_laws::some(ops, |op: Op| writes(2, offset, op))
            &&& op_laws::some(ops, |op: Op| writes(3, offset, op))
            &&& op_laws::some(ops, |op: Op| masks(offset, op))
        }),
{
    let span = layer_plan::one_step(offset, cache_steps);
    let p = |op: Op| is_told(d, 1, 1, cache_steps, offset, index, op);
    let keys = Operand::Input(layer_plan::K_CACHE);
    let values = Operand::Input(layer_plan::V_CACHE);
    lemma_parts_are_told(d, span, index, keys, values);
    let a = layer_plan::layer_buffers(d, span);
    let b = layer_plan::projection_ops(d, span, index);
    let c = layer_plan::cache_ops(d, span);
    let e = layer_plan::attention_ops(d, span, keys, values);
    let g = layer_plan::finish_ops(d, span, index);
    op_laws::lemma_every_concat(a, b, p);
    op_laws::lemma_every_concat(a + b, c, p);
    op_laws::lemma_every_concat(a + b + c, e, p);
    op_laws::lemma_every_concat(a + b + c + e, g, p);
    let ops = a + b + c + e + g;
    assert(ops[a.len() as int + 9] == b[9]);
    assert(ops[a.len() as int + 10] == b[10]);
    assert(ops[a.len() as int + b.len()] == c[0]);
    assert(ops[a.len() as int + b.len() + 1] == c[1]);
    assert(ops[a.len() as int + b.len() + c.len()] == e[0]);
    assert(rotates(d.q_heads, offset, ops[a.len() as int + 9]));
    assert(rotates(d.kv_heads, offset, ops[a.len() as int + 10]));
    assert(writes(2, offset, ops[a.len() as int + b.len()]));
    assert(writes(3, offset, ops[a.len() as int + b.len() + 1]));
    assert(masks(offset, ops[a.len() as int + b.len() + c.len()]));
}

/// A prefill starts at the first position: it rotates the keys of its prefix from there and
/// writes all its steps into the caches from there.
pub proof fn prefills_start_at_the_first_position(
    d: Dims,
    steps: usize,
    cache_steps: usize,
    index: usize,
)
    ensures
        ({
            let span = layer_plan::prefix_span(steps, cache_steps);
            let ops = layer_plan::prefill_buffers(d, span) + layer_plan::prefill_steps(
                d,
                span,
                index,
            );
            &&& op_laws::every(ops, |op: Op| is_told(d, 1, steps, cache_steps, 0, index, op))
            &&& op_laws::some(ops, |op: Op| rotates(d.kv_heads, 0, op))
            &&& op_laws::some(ops, |op: Op| writes(2, 0, op))
            &&& op_laws::some(ops, |op: Op| writes(3, 0, op))
        }),
{
    let span = layer_plan::prefix_span(steps, cache_steps);
    let p = |op: Op| is_told(d, 1, steps, cache_steps, 0, index, op);
    let keys = Operand::Input(layer_plan::K_CACHE);
    lemma_parts_are_told(d, span, index, keys, keys);
    let a = layer_plan::prefill_buffers(d, span);
    let b = layer_plan::prefill_steps(d, span, index);
    op_laws::lemma_every_concat(a, b, p);
    let ops = a + b;
    assert(ops[a.len() as int + 6] == b[6]);
    assert(ops[a.len() as int + 7] == b[7]);
    assert(ops[a.len() as int + 8] == b[8]);
    assert(rotates(d.kv_heads, 0, ops[a.len() as int + 6]));
    assert(writes(2, 0, ops[a.len() as int + 7]));
    assert(writes(3, 0, ops[a.len() as int + 8]));
}

/// A layer reads each of its eleven tensors.
pub proof fn layers_use_all_their_tensors(d: Dims, span: Span, index: usize, part: LayerWeight)
    requires
        part != LayerWeight::AttentionScale,
        part != LayerWeight::MlpScale,
    ensures
        op_laws::some(layer_plan::layer_ops(d, span, index), |op: Op| uses(index, part, op)),
{
    let p = |op: Op| uses(index, part, op);
    let a = layer_plan::projection_ops(d, span, index);
    let b = layer_plan::attention_ops(
        d,
        span,
        op::scratch(layer_plan::K_ROPE),
        op::scratch(layer_plan::V_BHSD),
    );
    let c = layer_plan::finish_ops(d, span, index);
    let ops = layer_plan::layer_ops(d, span, index);
    let n = a.len() as int + b.len();
    let at = match part {
        LayerWeight::InputGamma => 0int,
        LayerWeight::Query => 1,
        LayerWeight::Key => 2,
        LayerWeight::Value => 3,
        LayerWeight::QueryGamma => 4,
        LayerWeight::KeyGamma => 5,
        LayerWeight::Output => n,
        LayerWeight::PostGamma => n + 2,
        LayerWeight::Gate => n + 3,
        LayerWeight::Up => n + 4,
        _ => n + 6,
    };
    if at < a.len() {
        assert(ops[at] == a[at]);
    } else {
        assert(ops[at] == c[at - n]);
    }
    assert(p(ops[at]));
}

/// A layer adds to what it is given: where the products with the output and the down
/// projection are nothing, and to add nothing changes nothing, the layer leaves what it was
/// given.
#[verifier::spinoff_prover]
pub proof fn layers_add_to_their_input<V>(
    f: spec_fn(Call, Seq<V>) -> V,
    s: Memory<V>,
    d: Dims,
    span: Span,
    index: usize,
    nothing: V,
)
    requires
        forall|call: Call, args: Seq<V>|
            args.len() == 2 && call is Gemm && (args[1] == s[Operand::Weight(
                Weight::Layer { index, part: LayerWeight::Output },
            )] || args[1] == s[Operand::Weight(
                Weight::Layer { index, part: LayerWeight::Down },
            )]) ==> #[trigger] f(call, args) == nothing,
        forall|call: Call, args: Seq<V>|
            args.len() == 2 && call is ResidualAdd && args[1] == nothing ==> #[trigger] f(
                call,
                args,
            ) == args[0],
    ensures
        op::run(f, s, layer_plan::layer_ops(d, span, index))[Operand::Input(1)]
            == s[Operand::Input(0)],
{
    layer_plan_computes_layer(f, s, d, span, index);
}

/// Two memories that differ in one tensor of a layer at most.
pub open spec fn differ_in<V>(s: Memory<V>, t: Memory<V>, index: usize, part: LayerWeight) -> bool {
    &&& s[Operand::Input(0)] == t[Operand::Input(0)]
    &&& forall|w: Weight|
        w != (Weight::Layer { index, part }) ==> #[trigger] s[Operand::Weight(w)]
            == t[Operand::Weight(w)]
}

/// A call does not look at one of its two arguments.
pub open spec fn ignores<V>(f: spec_fn(Call, Seq<V>) -> V, call: Call, first: bool) -> bool {
    forall|a: Seq<V>, b: Seq<V>|
        #![trigger f(call, a), f(call, b)]
        a.len() == 2 && b.len() == 2 && (if first {
            a[1] == b[1]
        } else {
            a[0] == b[0]
        }) ==> f(call, a) == f(call, b)
}

/// The queries reach the result as the first argument of the scores and in no other way,
/// the keys as the second one, the values as the second argument of the weighted sums, the
/// gate as the first argument of the gated product, and what it gates as the second one.
#[verifier::spinoff_prover]
#[verifier::rlimit(60)]
pub proof fn tensors_go_where_they_belong<V>(
    f: spec_fn(Call, Seq<V>) -> V,
    s: Memory<V>,
    t: Memory<V>,
    d: Dims,
    span: Span,
    index: usize,
    part: LayerWeight,
)
    requires
        differ_in(s, t, index, part),
        match part {
            LayerWeight::Query | LayerWeight::QueryGamma => ignores(
                f,
                layer_plan::scores(d, span),
                true,
            ),
            LayerWeight::Key | LayerWeight::KeyGamma => ignores(
                f,
                layer_plan::scores(d, span),
                false,
            ),
            LayerWeight::Value => ignores(f, layer_plan::apply(d, span), false),
            LayerWeight::Gate => ignores(f, layer_plan::swiglu(d, span), true),
            LayerWeight::Up => ignores(f, layer_plan::swiglu(d, span), false),
            _ => false,
        },
    ensures
        op::run(f, s, layer_plan::layer_ops(d, span, index))[Operand::Input(1)] == op::run(
            f,
            t,
            layer_plan::layer_ops(d, span, index),
        )[Operand::Input(1)],
{
    layer_plan_computes_layer(f, s, d, span, index);
    layer_plan_computes_layer(f, t, d, span, index);
    let x = s[Operand::Input(0)];
    assert forall|p: LayerWeight| p != part implies #[trigger] s[layer_plan::part(index, p)]
        == t[layer_plan::part(index, p)] by {
        assert((Weight::Layer { index, part: p }) != (Weight::Layer { index, part }));
    }
    assert(laws::normed_value(f, s, d, span, index, x) == laws::normed_value(
        f,
        t,
        d,
        span,
        index,
        x,
    ));
    let q_s = laws::query_value(f, s, d, span, index, x);
    let q_t = laws::query_value(f, t, d, span, index, x);
    let k_s = laws::key_value(f, s, d, span, index, x);
    let k_t = laws::key_value(f, t, d, span, index, x);
    let v_s = laws::value_value(f, s, d, span, index, x);
    let v_t = laws::value_value(f, t, d, span, index, x);
    let score = layer_plan::scores(d, span);
    assert(f(score, seq![q_s, k_s]) == f(score, seq![q_t, k_t]));
    let share = f(layer_plan::softmax(d, span), seq![f(score, seq![q_s, k_s])]);
    assert(f(layer_plan::apply(d, span), seq![share, v_s]) == f(
        layer_plan::apply(d, span),
        seq![share, v_t],
    ));
}

/// The rotated heads that a projection of normed rows gives: projected, normed head by head,
/// put in the order of the heads, and rotated for their positions.
pub open spec fn rotated<V>(
    f: spec_fn(Call, Seq<V>) -> V,
    d: Dims,
    span: Span,
    heads: usize,
    width: usize,
    rows: V,
    weight: V,
    gamma: V,
) -> V {
    let count = span.batch * span.steps;
    let projected = f(Call::Gemm { m: count as usize, n: width, k: d.hidden }, seq![rows, weight]);
    let normed = f(
        Call::RmsNorm {
            rows: (count * heads) as usize,
            cols: d.head_dim,
            epsilon: 0x3586_37bd,
        },
        seq![projected, gamma],
    );
    let split = f(
        Call::Permute { batch: span.batch, steps: span.steps, heads, head_dim: d.head_dim },
        seq![normed],
    );
    f(
        Call::Rope {
            total: (count * width) as usize,
            heads,
            steps: span.steps,
            head_dim: d.head_dim,
            offset: span.offset,
            theta: 0x461c_4000,
        },
        seq![split],
    )
}

/// A layer is two halves, each of which adds what it makes of the norm of its rows to these
/// rows: the first one what the rows attend to, the second one the activated product of two
/// projections of what the first one gave. Queries and keys are normed and rotated, values
/// are not.
#[verifier::spinoff_prover]
#[verifier::rlimit(60)]
pub proof fn layers_have_two_halves<V>(
    f: spec_fn(Call, Seq<V>) -> V,
    s: Memory<V>,
    d: Dims,
    span: Span,
    index: usize,
)
    ensures
        ({
            let end = op::run(f, s, layer_plan::layer_ops(d, span, index));
            let count = span.batch * span.steps;
            let x = s[Operand::Input(0)];
            let m = |part: LayerWeight| s[Operand::Weight(Weight::Layer { index, part })];
            let norm = Call::RmsNorm {
                rows: count as usize,
                cols: d.hidden,
                epsilon: 0x3586_37bd,
            };
            let product = |n: usize, k: usize| Call::Gemm { m: count as usize, n, k };
            let add = Call::ResidualAdd { total: (count * d.hidden) as usize };
            let rows = f(norm, seq![x, m(LayerWeight::InputGamma)]);
            let queries = rotated(
                f,
                d,
                span,
                d.q_heads,
                d.q_out,
                rows,
                m(LayerWeight::Query),
                m(LayerWeight::QueryGamma),
            );
            let keys = rotated(
                f,
                d,
                span,
                d.kv_heads,
                d.kv_out,
                rows,
                m(LayerWeight::Key),
                m(LayerWeight::KeyGamma),
            );
            let values = f(
                Call::Permute {
                    batch: span.batch,
                    steps: span.steps,
                    heads: d.kv_heads,
                    head_dim: d.head_dim,
                },
                seq![f(product(d.kv_out, d.hidden), seq![rows, m(LayerWeight::Value)])],
            );
            let scores = f(
                Call::AttentionScores {
                    batch: span.batch,
                    q_heads: d.q_heads,
                    kv_heads: d.kv_heads,
                    query_steps: span.steps,
                    key_steps: span.key_steps,
                    head_dim: d.head_dim,
                    offset: span.offset,
                    scale: d.scale,
                },
                seq![queries, keys],
            );
            let shares = f(
                Call::Softmax {
                    rows: (span.batch * d.q_heads * span.steps) as usize,
                    cols: span.key_steps,
                },
                seq![scores],
            );
            let attended = f(
                Call::ApplyValue {
                    batch: span.batch,
                    q_heads: d.q_heads,
                    kv_heads: d.kv_heads,
                    query_steps: span.steps,
                    key_steps: span.key_steps,
                    head_dim: d.head_dim,
                },
                seq![shares, values],
            );
            let middle = f(
                add,
                seq![x, f(product(d.hidden, d.q_out), seq![attended, m(LayerWeight::Output)])],
            );
            let again = f(norm, seq![middle, m(LayerWeight::PostGamma)]);
            let wide = product(d.intermediate, d.hidden);
            let activated = f(
                Call::Swiglu { total: (count * d.intermediate) as usize },
                seq![
                    f(wide, seq![again, m(LayerWeight::Gate)]),
                    f(wide, seq![again, m(LayerWeight::Up)]),
                ],
            );
            end[Operand::Input(1)] == f(
                add,
                seq![
                    middle,
                    f(product(d.hidden, d.intermediate), seq![activated, m(LayerWeight::Down)]),
                ],
            )
        }),
{
    layer_plan_computes_layer(f, s, d, span, index);
}

} // verus!

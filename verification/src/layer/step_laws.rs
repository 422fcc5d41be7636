//! One step behind a cached prefix does what the layer does on the whole sequence.

use vstd::prelude::*;

use crate::codec::transformer_laws;
use crate::device::op::{self, Call, LayerWeight, Memory, Operand, Weight};
use crate::layer::dims::Dims;
use crate::layer::laws::{
    self, decode_plan_computes_step, layer_plan_computes_layer, prefill_plan_fills_caches,
};
use crate::layer::plan::{self as layer_plan, Span};

verus! {

/// What a buffer of the whole sequence of `steps` steps has to do with one of the prefix or
/// of the step at position `at`.
pub enum Kind {
    /// The row of the step.
    Row { width: usize },
    /// The heads of the step.
    Head { heads: usize },
    /// What the step thinks of every step up to itself.
    Scores,
    /// The share that every step up to itself has in the step.
    Shares,
    /// The rows of the prefix.
    PrefixRow { width: usize },
    /// The heads of the prefix.
    PrefixHead,
    /// A cache that holds the prefix.
    Kept,
    /// A cache that holds the prefix and the step.
    Cached,
}

/// The kinds of work in a layer.
pub enum Work {
    Norm,
    Project { width: usize },
    HeadNorm { heads: usize, width: usize },
    Permute { heads: usize, width: usize },
    Rope { heads: usize, width: usize },
    Score,
    Weigh,
    Apply,
    Merge,
    Residual,
    Widen,
    Gate,
    Narrow,
}

/// How that work is called for `steps` steps from position `offset` on, against keys of
/// `key_steps` steps.
pub open spec fn call_for(w: Work, d: Dims, steps: usize, key_steps: usize, offset: usize) -> Call {
    match w {
        Work::Norm => Call::RmsNorm { rows: steps, cols: d.hidden, epsilon: 0x3586_37bd },
        Work::Project { width } => Call::Gemm { m: steps, n: width, k: d.hidden },
        Work::HeadNorm { heads, .. } => Call::RmsNorm {
            rows: (steps * heads) as usize,
            cols: d.head_dim,
            epsilon: 0x3586_37bd,
        },
        Work::Permute { heads, .. } => Call::Permute {
            batch: 1,
            steps,
            heads,
            head_dim: d.head_dim,
        },
        Work::Rope { heads, width } => Call::Rope {
            total: (steps * width) as usize,
            heads,
            steps,
            head_dim: d.head_dim,
            offset,
            theta: 0x461c_4000,
        },
        Work::Score => Call::AttentionScores {
            batch: 1,
            q_heads: d.q_heads,
            kv_heads: d.kv_heads,
            query_steps: steps,
            key_steps,
            head_dim: d.head_dim,
            offset,
            scale: d.scale,
        },
        Work::Weigh => Call::Softmax { rows: (d.q_heads * steps) as usize, cols: key_steps },
        Work::Apply => Call::ApplyValue {
            batch: 1,
            q_heads: d.q_heads,
            kv_heads: d.kv_heads,
            query_steps: steps,
            key_steps,
            head_dim: d.head_dim,
        },
        Work::Merge => Call::Gemm { m: steps, n: d.hidden, k: d.q_out },
        Work::Residual => Call::ResidualAdd { total: (steps * d.hidden) as usize },
        Work::Widen => Call::Gemm { m: steps, n: d.intermediate, k: d.hidden },
        Work::Gate => Call::Swiglu { total: (steps * d.intermediate) as usize },
        Work::Narrow => Call::Gemm { m: steps, n: d.hidden, k: d.intermediate },
    }
}

/// What the step takes for that work; `None` for a tensor of the layer.
pub open spec fn takes(w: Work, d: Dims) -> Seq<Option<Kind>> {
    match w {
        Work::Norm => seq![Some(Kind::Row { width: d.hidden }), None],
        Work::Project { .. } => seq![Some(Kind::Row { width: d.hidden }), None],
        Work::HeadNorm { width, .. } => seq![Some(Kind::Row { width }), None],
        Work::Permute { width, .. } => seq![Some(Kind::Row { width })],
        Work::Rope { heads, .. } => seq![Some(Kind::Head { heads })],
        Work::Score => seq![Some(Kind::Head { heads: d.q_heads }), Some(Kind::Cached)],
        Work::Weigh => seq![Some(Kind::Scores)],
        Work::Apply => seq![Some(Kind::Shares), Some(Kind::Cached)],
        Work::Merge => seq![Some(Kind::Row { width: d.q_out }), None],
        Work::Residual => seq![
            Some(Kind::Row { width: d.hidden }),
            Some(Kind::Row { width: d.hidden }),
        ],
        Work::Widen => seq![Some(Kind::Row { width: d.hidden }), None],
        Work::Gate => seq![
            Some(Kind::Row { width: d.intermediate }),
            Some(Kind::Row { width: d.intermediate }),
        ],
        Work::Narrow => seq![Some(Kind::Row { width: d.intermediate }), None],
    }
}

/// What that work gives for the step.
pub open spec fn gives(w: Work, d: Dims) -> Kind {
    match w {
        Work::Norm | Work::Merge | Work::Residual | Work::Narrow => Kind::Row { width: d.hidden },
        Work::Project { width } => Kind::Row { width },
        Work::HeadNorm { width, .. } => Kind::Row { width },
        Work::Permute { heads, .. } => Kind::Head { heads },
        Work::Rope { heads, .. } => Kind::Head { heads },
        Work::Score => Kind::Scores,
        Work::Weigh => Kind::Shares,
        Work::Apply => Kind::Row { width: d.q_out },
        Work::Widen | Work::Gate => Kind::Row { width: d.intermediate },
    }
}

/// Arguments for the whole sequence and for the step go together.
pub open spec fn args_match<V>(
    alike: spec_fn(Kind, V, V) -> bool,
    kinds: Seq<Option<Kind>>,
    whole: Seq<V>,
    step: Seq<V>,
) -> bool {
    &&& whole.len() == kinds.len()
    &&& step.len() == kinds.len()
    &&& forall|i: int|
        0 <= i < kinds.len() ==> match #[trigger] kinds[i] {
            None => whole[i] == step[i],
            Some(kind) => alike(kind, whole[i], step[i]),
        }
}

/// Every single call does for the step at position `at` what it does for that step of the
/// whole sequence.
pub open spec fn calls_match_step<V>(
    f: spec_fn(Call, Seq<V>) -> V,
    alike: spec_fn(Kind, V, V) -> bool,
    d: Dims,
    steps: usize,
    at: usize,
    cache_steps: usize,
) -> bool {
    forall|w: Work, whole: Seq<V>, step: Seq<V>|
        #![trigger f(call_for(w, d, steps, steps, 0), whole), f(call_for(w, d, 1, cache_steps, at), step)]
        args_match(alike, takes(w, d), whole, step) ==> alike(
            gives(w, d),
            f(call_for(w, d, steps, steps, 0), whole),
            f(call_for(w, d, 1, cache_steps, at), step),
        )
}

/// A kind as the prefix has it.
pub open spec fn in_prefix(kind: Kind) -> Kind {
    match kind {
        Kind::Row { width } => Kind::PrefixRow { width },
        Kind::Head { .. } => Kind::PrefixHead,
        other => other,
    }
}

/// The work that a prefill does: keys and values, no queries.
pub open spec fn is_prefill(w: Work, d: Dims) -> bool {
    ||| w == Work::Norm
    ||| w == Work::Project { width: d.kv_out }
    ||| w == Work::HeadNorm { heads: d.kv_heads, width: d.kv_out }
    ||| w == Work::Permute { heads: d.kv_heads, width: d.kv_out }
    ||| w == Work::Rope { heads: d.kv_heads, width: d.kv_out }
}

/// Every single call of a prefill does for the steps in front of position `at` what it does
/// for these steps of the whole sequence.
pub open spec fn calls_match_prefix<V>(
    f: spec_fn(Call, Seq<V>) -> V,
    alike: spec_fn(Kind, V, V) -> bool,
    d: Dims,
    steps: usize,
    at: usize,
) -> bool {
    forall|w: Work, whole: Seq<V>, prefix: Seq<V>|
        #![trigger f(call_for(w, d, steps, steps, 0), whole), f(call_for(w, d, at, at, 0), prefix)]
        is_prefill(w, d) && args_match(
            alike,
            takes(w, d).map_values(
                |kind: Option<Kind>|
                    match kind {
                        Some(k) => Some(in_prefix(k)),
                        None => None,
                    },
            ),
            whole,
            prefix,
        ) ==> alike(
            in_prefix(gives(w, d)),
            f(call_for(w, d, steps, steps, 0), whole),
            f(call_for(w, d, at, at, 0), prefix),
        )
}

/// The call that writes `steps` steps into a cache, from step `offset` on.
pub open spec fn write_at(d: Dims, steps: usize, cache_steps: usize, offset: usize) -> Call {
    Call::WriteCache {
        heads: d.kv_heads,
        input_steps: steps,
        cache_steps,
        head_dim: d.head_dim,
        offset,
    }
}

/// A cache holds the prefix once that was written from its first step on, whatever it held
/// before, and the step as well once that was written at its position.
pub open spec fn writes_match<V>(
    f: spec_fn(Call, Seq<V>) -> V,
    alike: spec_fn(Kind, V, V) -> bool,
    d: Dims,
    at: usize,
    cache_steps: usize,
) -> bool {
    &&& forall|whole: V, written: Seq<V>|
        #![trigger alike(Kind::PrefixHead, whole, written[0]), f(write_at(d, at, cache_steps, 0), written)]
        written.len() == 2 && alike(Kind::PrefixHead, whole, written[0]) ==> alike(
            Kind::Kept,
            whole,
            f(write_at(d, at, cache_steps, 0), written),
        )
    &&& forall|whole: V, written: Seq<V>|
        #![trigger alike(Kind::Kept, whole, written[1]), f(write_at(d, 1, cache_steps, at), written)]
        written.len() == 2 && alike(Kind::Kept, whole, written[1]) && alike(
            Kind::Head { heads: d.kv_heads },
            whole,
            written[0],
        ) ==> alike(Kind::Cached, whole, f(write_at(d, 1, cache_steps, at), written))
}

proof fn lemma_step_1<V>(
    f: spec_fn(Call, Seq<V>) -> V,
    alike: spec_fn(Kind, V, V) -> bool,
    d: Dims,
    steps: usize,
    at: usize,
    cache_steps: usize,
    w: Work,
    a: V,
    b: V,
)
    requires
        calls_match_step(f, alike, d, steps, at, cache_steps),
        takes(w, d).len() == 1,
        takes(w, d)[0] is Some,
        alike(takes(w, d)[0]->0, a, b),
    ensures
        alike(
            gives(w, d),
            f(call_for(w, d, steps, steps, 0), seq![a]),
            f(call_for(w, d, 1, cache_steps, at), seq![b]),
        ),
{
    assert(args_match(alike, takes(w, d), seq![a], seq![b]));
}

proof fn lemma_step_w<V>(
    f: spec_fn(Call, Seq<V>) -> V,
    alike: spec_fn(Kind, V, V) -> bool,
    d: Dims,
    steps: usize,
    at: usize,
    cache_steps: usize,
    w: Work,
    a: V,
    b: V,
    weight: V,
)
    requires
        calls_match_step(f, alike, d, steps, at, cache_steps),
        takes(w, d).len() == 2,
        takes(w, d)[0] is Some,
        takes(w, d)[1] is None,
        alike(takes(w, d)[0]->0, a, b),
    ensures
        alike(
            gives(w, d),
            f(call_for(w, d, steps, steps, 0), seq![a, weight]),
            f(call_for(w, d, 1, cache_steps, at), seq![b, weight]),
        ),
{
    assert(args_match(alike, takes(w, d), seq![a, weight], seq![b, weight]));
}

proof fn lemma_step_2<V>(
    f: spec_fn(Call, Seq<V>) -> V,
    alike: spec_fn(Kind, V, V) -> bool,
    d: Dims,
    steps: usize,
    at: usize,
    cache_steps: usize,
    w: Work,
    a: (V, V),
    b: (V, V),
)
    requires
        calls_match_step(f, alike, d, steps, at, cache_steps),
        takes(w, d).len() == 2,
        takes(w, d)[0] is Some,
        takes(w, d)[1] is Some,
        alike(takes(w, d)[0]->0, a.0, b.0),
        alike(takes(w, d)[1]->0, a.1, b.1),
    ensures
        alike(
            gives(w, d),
            f(call_for(w, d, steps, steps, 0), seq![a.0, a.1]),
            f(call_for(w, d, 1, cache_steps, at), seq![b.0, b.1]),
        ),
{
    assert(args_match(alike, takes(w, d), seq![a.0, a.1], seq![b.0, b.1]));
}

proof fn lemma_prefix_1<V>(
    f: spec_fn(Call, Seq<V>) -> V,
    alike: spec_fn(Kind, V, V) -> bool,
    d: Dims,
    steps: usize,
    at: usize,
    w: Work,
    a: V,
    b: V,
)
    requires
        calls_match_prefix(f, alike, d, steps, at),
        is_prefill(w, d),
        takes(w, d).len() == 1,
        takes(w, d)[0] is Some,
        alike(in_prefix(takes(w, d)[0]->0), a, b),
    ensures
        alike(
            in_prefix(gives(w, d)),
            f(call_for(w, d, steps, steps, 0), seq![a]),
            f(call_for(w, d, at, at, 0), seq![b]),
        ),
{
    assert(f(call_for(w, d, steps, steps, 0), seq![a]) == f(
        call_for(w, d, steps, steps, 0),
        seq![a],
    ));
}

proof fn lemma_prefix_w<V>(
    f: spec_fn(Call, Seq<V>) -> V,
    alike: spec_fn(Kind, V, V) -> bool,
    d: Dims,
    steps: usize,
    at: usize,
    w: Work,
    a: V,
    b: V,
    weight: V,
)
    requires
        calls_match_prefix(f, alike, d, steps, at),
        is_prefill(w, d),
        takes(w, d).len() == 2,
        takes(w, d)[0] is Some,
        takes(w, d)[1] is None,
        alike(in_prefix(takes(w, d)[0]->0), a, b),
    ensures
        alike(
            in_prefix(gives(w, d)),
            f(call_for(w, d, steps, steps, 0), seq![a, weight]),
            f(call_for(w, d, at, at, 0), seq![b, weight]),
        ),
{
    assert(f(call_for(w, d, steps, steps, 0), seq![a, weight]) == f(
        call_for(w, d, steps, steps, 0),
        seq![a, weight],
    ));
}

/// The calls of a layer on `steps` steps of one sequence.
proof fn lemma_calls(d: Dims, steps: usize, key_steps: usize, offset: usize)
    ensures
        ({
            let span = Span { batch: 1, steps, key_steps, offset };
            let c = |w: Work| call_for(w, d, steps, key_steps, offset);
            &&& span.rows() == steps
            &&& layer_plan::norm(span.rows(), d.hidden) == c(Work::Norm)
            &&& forall|width: usize| #[trigger]
                layer_plan::gemm(span.rows(), width, d.hidden) == c(Work::Project { width })
            &&& forall|heads: usize, width: usize|
                #![trigger c(Work::HeadNorm { heads, width })]
                layer_plan::norm(span.rows() * heads, d.head_dim) == c(
                    Work::HeadNorm { heads, width },
                )
            &&& forall|heads: usize, width: usize|
                #![trigger c(Work::Permute { heads, width })]
                layer_plan::permute(d, span, heads) == c(Work::Permute { heads, width })
            &&& forall|heads: usize, width: usize| #[trigger]
                layer_plan::rope(d, span, heads, width) == c(Work::Rope { heads, width })
            &&& layer_plan::scores(d, span) == c(Work::Score)
            &&& layer_plan::softmax(d, span) == c(Work::Weigh)
            &&& layer_plan::apply(d, span) == c(Work::Apply)
            &&& layer_plan::gemm(span.rows(), d.hidden, d.q_out) == c(Work::Merge)
            &&& layer_plan::residual(d, span) == c(Work::Residual)
            &&& layer_plan::gemm(span.rows(), d.intermediate, d.hidden) == c(Work::Widen)
            &&& layer_plan::swiglu(d, span) == c(Work::Gate)
            &&& layer_plan::gemm(span.rows(), d.hidden, d.intermediate) == c(Work::Narrow)
            &&& layer_plan::write(d, span) == write_at(d, steps, key_steps, offset)
        }),
{
    let span = Span { batch: 1, steps, key_steps, offset };
    assert(span.rows() == steps) by (nonlinear_arith)
        requires
            span.batch == 1,
            span.steps == steps,
            span.rows() == span.batch * span.steps,
    ;
    assert(span.batch * d.q_heads * span.steps == d.q_heads * steps) by (nonlinear_arith)
        requires
            span.batch == 1,
            span.steps == steps,
    ;
}

/// The keys that a prefill writes are those of the whole sequence.
proof fn lemma_prefix_keys<V>(
    f: spec_fn(Call, Seq<V>) -> V,
    alike: spec_fn(Kind, V, V) -> bool,
    w: Memory<V>,
    d: Dims,
    steps: usize,
    at: usize,
    cache_steps: usize,
    index: usize,
    x: V,
    y: V,
)
    requires
        calls_match_prefix(f, alike, d, steps, at),
        alike(Kind::PrefixRow { width: d.hidden }, x, y),
    ensures
        ({
            let whole = Span { batch: 1, steps, key_steps: steps, offset: 0 };
            let prefix = layer_plan::prefix_span(at, cache_steps);
            &&& alike(
                Kind::PrefixHead,
                laws::key_value(f, w, d, whole, index, x),
                laws::key_value(f, w, d, prefix, index, y),
            )
            &&& alike(
                Kind::PrefixHead,
                laws::value_value(f, w, d, whole, index, x),
                laws::value_value(f, w, d, prefix, index, y),
            )
        }),
{
    lemma_calls(d, steps, steps, 0);
    lemma_calls(d, at, cache_steps, 0);
    let norm = Work::Norm;
    let project = Work::Project { width: d.kv_out };
    let head_norm = Work::HeadNorm { heads: d.kv_heads, width: d.kv_out };
    let permute = Work::Permute { heads: d.kv_heads, width: d.kv_out };
    let rope = Work::Rope { heads: d.kv_heads, width: d.kv_out };
    let gamma = w[layer_plan::part(index, LayerWeight::InputGamma)];
    let key = w[layer_plan::part(index, LayerWeight::Key)];
    let key_gamma = w[layer_plan::part(index, LayerWeight::KeyGamma)];
    let value = w[layer_plan::part(index, LayerWeight::Value)];
    let big = |k: Work| call_for(k, d, steps, steps, 0);
    let small = |k: Work| call_for(k, d, at, at, 0);
    lemma_prefix_w(f, alike, d, steps, at, norm, x, y, gamma);
    let n_a = f(big(norm), seq![x, gamma]);
    let n_b = f(small(norm), seq![y, gamma]);
    lemma_prefix_w(f, alike, d, steps, at, project, n_a, n_b, key);
    let p_a = f(big(project), seq![n_a, key]);
    let p_b = f(small(project), seq![n_b, key]);
    lemma_prefix_w(f, alike, d, steps, at, head_norm, p_a, p_b, key_gamma);
    let h_a = f(big(head_norm), seq![p_a, key_gamma]);
    let h_b = f(small(head_norm), seq![p_b, key_gamma]);
    lemma_prefix_1(f, alike, d, steps, at, permute, h_a, h_b);
    let m_a = f(big(permute), seq![h_a]);
    let m_b = f(small(permute), seq![h_b]);
    lemma_prefix_1(f, alike, d, steps, at, rope, m_a, m_b);
    lemma_prefix_w(f, alike, d, steps, at, project, n_a, n_b, value);
    lemma_prefix_1(
        f,
        alike,
        d,
        steps,
        at,
        permute,
        f(big(project), seq![n_a, value]),
        f(small(project), seq![n_b, value]),
    );
}

/// The query, key and value of the step are those of the whole sequence.
proof fn lemma_step_heads<V>(
    f: spec_fn(Call, Seq<V>) -> V,
    alike: spec_fn(Kind, V, V) -> bool,
    w: Memory<V>,
    d: Dims,
    steps: usize,
    at: usize,
    cache_steps: usize,
    index: usize,
    x: V,
    y: V,
)
    requires
        calls_match_step(f, alike, d, steps, at, cache_steps),
        alike(Kind::Row { width: d.hidden }, x, y),
    ensures
        ({
            let whole = Span { batch: 1, steps, key_steps: steps, offset: 0 };
            let step = layer_plan::one_step(at, cache_steps);
            &&& alike(
                Kind::Head { heads: d.q_heads },
                laws::query_value(f, w, d, whole, index, x),
                laws::query_value(f, w, d, step, index, y),
            )
            &&& alike(
                Kind::Head { heads: d.kv_heads },
                laws::key_value(f, w, d, whole, index, x),
                laws::key_value(f, w, d, step, index, y),
            )
            &&& alike(
                Kind::Head { heads: d.kv_heads },
                laws::value_value(f, w, d, whole, index, x),
                laws::value_value(f, w, d, step, index, y),
            )
        }),
{
    lemma_calls(d, steps, steps, 0);
    lemma_calls(d, 1, cache_steps, at);
    let big = |k: Work| call_for(k, d, steps, steps, 0);
    let small = |k: Work| call_for(k, d, 1, cache_steps, at);
    let norm = Work::Norm;
    let gamma = w[layer_plan::part(index, LayerWeight::InputGamma)];
    lemma_step_w(f, alike, d, steps, at, cache_steps, norm, x, y, gamma);
    let n_a = f(big(norm), seq![x, gamma]);
    let n_b = f(small(norm), seq![y, gamma]);
    lemma_rotated(
        f,
        alike,
        d,
        steps,
        at,
        cache_steps,
        d.q_heads,
        d.q_out,
        n_a,
        n_b,
        w[layer_plan::part(index, LayerWeight::Query)],
        w[layer_plan::part(index, LayerWeight::QueryGamma)],
    );
    lemma_rotated(
        f,
        alike,
        d,
        steps,
        at,
        cache_steps,
        d.kv_heads,
        d.kv_out,
        n_a,
        n_b,
        w[layer_plan::part(index, LayerWeight::Key)],
        w[layer_plan::part(index, LayerWeight::KeyGamma)],
    );
    let project = Work::Project { width: d.kv_out };
    let permute = Work::Permute { heads: d.kv_heads, width: d.kv_out };
    let value = w[layer_plan::part(index, LayerWeight::Value)];
    lemma_step_w(f, alike, d, steps, at, cache_steps, project, n_a, n_b, value);
    lemma_step_1(
        f,
        alike,
        d,
        steps,
        at,
        cache_steps,
        permute,
        f(big(project), seq![n_a, value]),
        f(small(project), seq![n_b, value]),
    );
}

proof fn lemma_rotated<V>(
    f: spec_fn(Call, Seq<V>) -> V,
    alike: spec_fn(Kind, V, V) -> bool,
    d: Dims,
    steps: usize,
    at: usize,
    cache_steps: usize,
    heads: usize,
    width: usize,
    n_a: V,
    n_b: V,
    weight: V,
    gamma: V,
)
    requires
        calls_match_step(f, alike, d, steps, at, cache_steps),
        alike(Kind::Row { width: d.hidden }, n_a, n_b),
    ensures
        ({
            let whole = Span { batch: 1, steps, key_steps: steps, offset: 0 };
            let step = layer_plan::one_step(at, cache_steps);
            alike(
                Kind::Head { heads },
                f(
                    layer_plan::rope(d, whole, heads, width),
                    seq![laws::head_value(f, d, whole, heads, width, n_a, weight, gamma)],
                ),
                f(
                    layer_plan::rope(d, step, heads, width),
                    seq![laws::head_value(f, d, step, heads, width, n_b, weight, gamma)],
                ),
            )
        }),
{
    lemma_calls(d, steps, steps, 0);
    lemma_calls(d, 1, cache_steps, at);
    let big = |k: Work| call_for(k, d, steps, steps, 0);
    let small = |k: Work| call_for(k, d, 1, cache_steps, at);
    let project = Work::Project { width };
    let head_norm = Work::HeadNorm { heads, width };
    let permute = Work::Permute { heads, width };
    let rope = Work::Rope { heads, width };
    lemma_step_w(f, alike, d, steps, at, cache_steps, project, n_a, n_b, weight);
    let p_a = f(big(project), seq![n_a, weight]);
    let p_b = f(small(project), seq![n_b, weight]);
    lemma_step_w(f, alike, d, steps, at, cache_steps, head_norm, p_a, p_b, gamma);
    let h_a = f(big(head_norm), seq![p_a, gamma]);
    let h_b = f(small(head_norm), seq![p_b, gamma]);
    lemma_step_1(f, alike, d, steps, at, cache_steps, permute, h_a, h_b);
    let m_a = f(big(permute), seq![h_a]);
    let m_b = f(small(permute), seq![h_b]);
    lemma_step_1(f, alike, d, steps, at, cache_steps, rope, m_a, m_b);
}

/// What stands behind the attention.
proof fn lemma_step_finish<V>(
    f: spec_fn(Call, Seq<V>) -> V,
    alike: spec_fn(Kind, V, V) -> bool,
    w: Memory<V>,
    d: Dims,
    steps: usize,
    at: usize,
    cache_steps: usize,
    index: usize,
    x: V,
    y: V,
    a: V,
    b: V,
)
    requires
        calls_match_step(f, alike, d, steps, at, cache_steps),
        alike(Kind::Row { width: d.hidden }, x, y),
        alike(Kind::Row { width: d.q_out }, a, b),
    ensures
        ({
            let whole = Span { batch: 1, steps, key_steps: steps, offset: 0 };
            let step = layer_plan::one_step(at, cache_steps);
            alike(
                Kind::Row { width: d.hidden },
                laws::finished_value(f, w, d, whole, index, x, a),
                laws::finished_value(f, w, d, step, index, y, b),
            )
        }),
{
    lemma_calls(d, steps, steps, 0);
    lemma_calls(d, 1, cache_steps, at);
    let big = |k: Work| call_for(k, d, steps, steps, 0);
    let small = |k: Work| call_for(k, d, 1, cache_steps, at);
    let output = w[layer_plan::part(index, LayerWeight::Output)];
    let gamma = w[layer_plan::part(index, LayerWeight::PostGamma)];
    let gate = w[layer_plan::part(index, LayerWeight::Gate)];
    let up = w[layer_plan::part(index, LayerWeight::Up)];
    let down = w[layer_plan::part(index, LayerWeight::Down)];
    lemma_step_w(f, alike, d, steps, at, cache_steps, Work::Merge, a, b, output);
    let o_a = f(big(Work::Merge), seq![a, output]);
    let o_b = f(small(Work::Merge), seq![b, output]);
    lemma_step_2(f, alike, d, steps, at, cache_steps, Work::Residual, (x, o_a), (y, o_b));
    let r_a = f(big(Work::Residual), seq![x, o_a]);
    let r_b = f(small(Work::Residual), seq![y, o_b]);
    lemma_step_w(f, alike, d, steps, at, cache_steps, Work::Norm, r_a, r_b, gamma);
    let n_a = f(big(Work::Norm), seq![r_a, gamma]);
    let n_b = f(small(Work::Norm), seq![r_b, gamma]);
    lemma_step_w(f, alike, d, steps, at, cache_steps, Work::Widen, n_a, n_b, gate);
    lemma_step_w(f, alike, d, steps, at, cache_steps, Work::Widen, n_a, n_b, up);
    let g_a = f(big(Work::Widen), seq![n_a, gate]);
    let g_b = f(small(Work::Widen), seq![n_b, gate]);
    let u_a = f(big(Work::Widen), seq![n_a, up]);
    let u_b = f(small(Work::Widen), seq![n_b, up]);
    lemma_step_2(f, alike, d, steps, at, cache_steps, Work::Gate, (g_a, u_a), (g_b, u_b));
    let s_a = f(big(Work::Gate), seq![g_a, u_a]);
    let s_b = f(small(Work::Gate), seq![g_b, u_b]);
    lemma_step_w(f, alike, d, steps, at, cache_steps, Work::Narrow, s_a, s_b, down);
    let d_a = f(big(Work::Narrow), seq![s_a, down]);
    let d_b = f(small(Work::Narrow), seq![s_b, down]);
    lemma_step_2(f, alike, d, steps, at, cache_steps, Work::Residual, (r_a, d_a), (r_b, d_b));
}

/// A prefix and a step behind it give what the whole sequence gives for that step: where the
/// prefill runs on the first `at` steps of a sequence, and one decoding step runs at position
/// `at` on the caches that the prefill left, the step leaves what the layer leaves for that
/// step of the sequence, and caches that hold its key and value as well. This holds of all
/// kernels that each do for the steps of a prefix, and for a step at its position, what they
/// do for these steps of the sequence.
pub proof fn prefix_and_step_give_the_whole<V>(
    f: spec_fn(Call, Seq<V>) -> V,
    alike: spec_fn(Kind, V, V) -> bool,
    s: Memory<V>,
    r: Memory<V>,
    t: Memory<V>,
    d: Dims,
    steps: usize,
    at: usize,
    cache_steps: usize,
    index: usize,
)
    requires
        at < steps,
        at < cache_steps,
        calls_match_step(f, alike, d, steps, at, cache_steps),
        calls_match_prefix(f, alike, d, steps, at),
        writes_match(f, alike, d, at, cache_steps),
        transformer_laws::same_model(r, s),
        transformer_laws::same_model(t, s),
        alike(
            Kind::PrefixRow { width: d.hidden },
            s[Operand::Input(0)],
            r[Operand::Input(0)],
        ),
        alike(Kind::Row { width: d.hidden }, s[Operand::Input(0)], t[Operand::Input(0)]),
        ({
            let span = layer_plan::prefix_span(at, cache_steps);
            let filled = op::run(
                f,
                r,
                layer_plan::prefill_buffers(d, span) + layer_plan::prefill_steps(d, span, index),
            );
            &&& t[Operand::Input(2)] == filled[Operand::Input(2)]
            &&& t[Operand::Input(3)] == filled[Operand::Input(3)]
        }),
    ensures
        ({
            let whole = Span { batch: 1, steps, key_steps: steps, offset: 0 };
            let left = op::run(f, s, layer_plan::layer_ops(d, whole, index));
            let step = op::run(f, t, layer_plan::decode_ops(d, at, cache_steps, index));
            &&& alike(
                Kind::Row { width: d.hidden },
                left[Operand::Input(1)],
                step[Operand::Input(1)],
            )
            &&& alike(
                Kind::Cached,
                laws::key_value(f, s, d, whole, index, s[Operand::Input(0)]),
                step[Operand::Input(2)],
            )
            &&& alike(
                Kind::Cached,
                laws::value_value(f, s, d, whole, index, s[Operand::Input(0)]),
                step[Operand::Input(3)],
            )
        }),
{
    let whole = Span { batch: 1, steps, key_steps: steps, offset: 0 };
    let prefix = layer_plan::prefix_span(at, cache_steps);
    let one = layer_plan::one_step(at, cache_steps);
    let x = s[Operand::Input(0)];
    let z = r[Operand::Input(0)];
    let y = t[Operand::Input(0)];
    layer_plan_computes_layer(f, s, d, whole, index);
    prefill_plan_fills_caches(f, r, d, at, cache_steps, index);
    decode_plan_computes_step(f, t, d, at, cache_steps, index);
    lemma_calls(d, steps, steps, 0);
    lemma_calls(d, at, cache_steps, 0);
    lemma_calls(d, 1, cache_steps, at);
    lemma_same_values(f, r, s, d, prefix, index, z, z);
    lemma_same_values(f, t, s, d, one, index, y, y);
    lemma_prefix_keys(f, alike, s, d, steps, at, cache_steps, index, x, z);
    lemma_step_heads(f, alike, s, d, steps, at, cache_steps, index, x, y);
    let q_a = laws::query_value(f, s, d, whole, index, x);
    let k_a = laws::key_value(f, s, d, whole, index, x);
    let v_a = laws::value_value(f, s, d, whole, index, x);
    let q_b = laws::query_value(f, s, d, one, index, y);
    let k_b = laws::key_value(f, s, d, one, index, y);
    let v_b = laws::value_value(f, s, d, one, index, y);
    let k_p = laws::key_value(f, s, d, prefix, index, z);
    let v_p = laws::value_value(f, s, d, prefix, index, z);
    let k_old = f(write_at(d, at, cache_steps, 0), seq![k_p, r[Operand::Input(2)]]);
    let v_old = f(write_at(d, at, cache_steps, 0), seq![v_p, r[Operand::Input(3)]]);
    assert(alike(Kind::PrefixHead, k_a, seq![k_p, r[Operand::Input(2)]][0]));
    assert(alike(Kind::PrefixHead, v_a, seq![v_p, r[Operand::Input(3)]][0]));
    assert(alike(Kind::Kept, k_a, k_old));
    assert(alike(Kind::Kept, v_a, v_old));
    assert(t[Operand::Input(2)] == k_old);
    assert(t[Operand::Input(3)] == v_old);
    let k_new = f(write_at(d, 1, cache_steps, at), seq![k_b, k_old]);
    let v_new = f(write_at(d, 1, cache_steps, at), seq![v_b, v_old]);
    assert(alike(Kind::Kept, k_a, seq![k_b, k_old][1]));
    assert(alike(Kind::Kept, v_a, seq![v_b, v_old][1]));
    assert(alike(Kind::Cached, k_a, k_new));
    assert(alike(Kind::Cached, v_a, v_new));
    let big = |k: Work| call_for(k, d, steps, steps, 0);
    let small = |k: Work| call_for(k, d, 1, cache_steps, at);
    lemma_step_2(f, alike, d, steps, at, cache_steps, Work::Score, (q_a, k_a), (q_b, k_new));
    let s_a = f(big(Work::Score), seq![q_a, k_a]);
    let s_b = f(small(Work::Score), seq![q_b, k_new]);
    lemma_step_1(f, alike, d, steps, at, cache_steps, Work::Weigh, s_a, s_b);
    let p_a = f(big(Work::Weigh), seq![s_a]);
    let p_b = f(small(Work::Weigh), seq![s_b]);
    lemma_step_2(f, alike, d, steps, at, cache_steps, Work::Apply, (p_a, v_a), (p_b, v_new));
    lemma_step_finish(
        f,
        alike,
        s,
        d,
        steps,
        at,
        cache_steps,
        index,
        x,
        y,
        f(big(Work::Apply), seq![p_a, v_a]),
        f(small(Work::Apply), seq![p_b, v_new]),
    );
    let step = op::run(f, t, layer_plan::decode_ops(d, at, cache_steps, index));
    assert(step[Operand::Input(2)] == k_new);
    assert(step[Operand::Input(3)] == v_new);
}

/// A layer computes the same with the same tensors.
proof fn lemma_same_values<V>(
    f: spec_fn(Call, Seq<V>) -> V,
    s: Memory<V>,
    w: Memory<V>,
    d: Dims,
    span: Span,
    index: usize,
    x: V,
    a: V,
)
    requires
        transformer_laws::same_model(s, w),
    ensures
        laws::query_value(f, s, d, span, index, x) == laws::query_value(f, w, d, span, index, x),
        laws::key_value(f, s, d, span, index, x) == laws::key_value(f, w, d, span, index, x),
        laws::value_value(f, s, d, span, index, x) == laws::value_value(f, w, d, span, index, x),
        forall|b: V| #[trigger]
            laws::finished_value(f, s, d, span, index, x, b) == laws::finished_value(
                f,
                w,
                d,
                span,
                index,
                x,
                b,
            ),
{
    assert forall|p: LayerWeight| #[trigger]
        s[layer_plan::part(index, p)] == w[layer_plan::part(index, p)] by {
        assert(s[Operand::Weight(Weight::Layer { index, part: p })] == w[Operand::Weight(
            Weight::Layer { index, part: p },
        )]);
    }
}

} // verus!

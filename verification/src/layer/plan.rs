//! A talker layer as device plans: on whole sequences, and one step at a time with a cache.

use vstd::prelude::*;

use crate::device::op::{self, Call, Inputs, LayerWeight, Op, Operand, Weight};
use crate::device::plan::Plan;
use crate::layer::dims::{Dims, EPSILON, THETA};

verus! {

/// The scratch buffers of a layer, by number.
pub const NORMED: usize = 0;

pub const Q_PROJ: usize = 1;

pub const K_PROJ: usize = 2;

pub const V_PROJ: usize = 3;

pub const Q_NORM: usize = 4;

pub const K_NORM: usize = 5;

pub const Q_BHSD: usize = 6;

pub const K_BHSD: usize = 7;

pub const V_BHSD: usize = 8;

pub const Q_ROPE: usize = 9;

pub const K_ROPE: usize = 10;

pub const SCORES: usize = 11;

pub const PROBS: usize = 12;

pub const ATTENDED: usize = 13;

pub const PROJECTED: usize = 14;

pub const ATTENTION_OUTPUT: usize = 15;

pub const POST_NORM: usize = 16;

pub const GATE: usize = 17;

pub const UP: usize = 18;

pub const SWIGLU: usize = 19;

pub const MLP_DOWN: usize = 20;

/// The hidden state that a plan starts from.
pub const HIDDEN: usize = 0;

/// The hidden state that a plan leaves.
pub const RESULT: usize = 1;

/// The cache of keys, of a plan that has one.
pub const K_CACHE: usize = 2;

/// The cache of values, of a plan that has one.
pub const V_CACHE: usize = 3;

/// How much a layer works on: `batch` sequences of `steps` steps, the first of which has
/// position `offset`, against keys of `key_steps` steps.
#[derive(Clone, Copy, PartialEq, Eq, Structural, Debug)]
pub struct Span {
    pub batch: usize,
    pub steps: usize,
    pub key_steps: usize,
    pub offset: usize,
}

impl Span {
    pub open spec fn rows(&self) -> int {
        self.batch * self.steps
    }
}

/// All products of the dimensions that a plan forms fit in a machine word.
pub open spec fn countable(d: Dims, span: Span) -> bool {
    let rows = span.rows();
    &&& rows <= usize::MAX
    &&& rows * d.hidden <= usize::MAX
    &&& rows * d.q_out <= usize::MAX
    &&& rows * d.kv_out <= usize::MAX
    &&& rows * d.intermediate <= usize::MAX
    &&& rows * d.q_heads <= usize::MAX
    &&& rows * d.kv_heads <= usize::MAX
    &&& span.batch * d.q_heads <= usize::MAX
    &&& span.batch * d.q_heads * span.steps <= usize::MAX
    &&& span.batch * d.q_heads * span.steps * span.key_steps <= usize::MAX
}

pub open spec fn part(index: usize, p: LayerWeight) -> Operand {
    Operand::Weight(Weight::Layer { index, part: p })
}

/// The scratch buffers of a layer.
pub open spec fn layer_buffers(d: Dims, span: Span) -> Seq<Op> {
    let rows = span.rows();
    let hidden = op::make(rows * d.hidden);
    let q = op::make(rows * d.q_out);
    let kv = op::make(rows * d.kv_out);
    let square = op::make(span.batch * d.q_heads * span.steps * span.key_steps);
    let mlp = op::make(rows * d.intermediate);
    seq![
        hidden, q, kv, kv, q, kv, q, kv, kv, q, kv, square, square, q, hidden, hidden, hidden,
        mlp, mlp, mlp, hidden,
    ]
}

pub open spec fn norm(rows: int, cols: usize) -> Call {
    Call::RmsNorm { rows: rows as usize, cols, epsilon: EPSILON }
}

pub open spec fn gemm(rows: int, n: usize, k: usize) -> Call {
    Call::Gemm { m: rows as usize, n, k }
}

pub open spec fn permute(d: Dims, span: Span, heads: usize) -> Call {
    Call::Permute { batch: span.batch, steps: span.steps, heads, head_dim: d.head_dim }
}

pub open spec fn rope(d: Dims, span: Span, heads: usize, width: usize) -> Call {
    Call::Rope {
        total: (span.rows() * width) as usize,
        heads,
        steps: span.steps,
        head_dim: d.head_dim,
        offset: span.offset,
        theta: THETA,
    }
}

pub open spec fn scores(d: Dims, span: Span) -> Call {
    Call::AttentionScores {
        batch: span.batch,
        q_heads: d.q_heads,
        kv_heads: d.kv_heads,
        query_steps: span.steps,
        key_steps: span.key_steps,
        head_dim: d.head_dim,
        offset: span.offset,
        scale: d.scale,
    }
}

pub open spec fn softmax(d: Dims, span: Span) -> Call {
    Call::Softmax {
        rows: (span.batch * d.q_heads * span.steps) as usize,
        cols: span.key_steps,
    }
}

pub open spec fn apply(d: Dims, span: Span) -> Call {
    Call::ApplyValue {
        batch: span.batch,
        q_heads: d.q_heads,
        kv_heads: d.kv_heads,
        query_steps: span.steps,
        key_steps: span.key_steps,
        head_dim: d.head_dim,
    }
}

pub open spec fn write(d: Dims, span: Span) -> Call {
    Call::WriteCache {
        heads: d.kv_heads,
        input_steps: span.steps,
        cache_steps: span.key_steps,
        head_dim: d.head_dim,
        offset: span.offset,
    }
}

pub open spec fn residual(d: Dims, span: Span) -> Call {
    Call::ResidualAdd { total: (span.rows() * d.hidden) as usize }
}

pub open spec fn swiglu(d: Dims, span: Span) -> Call {
    Call::Swiglu { total: (span.rows() * d.intermediate) as usize }
}

/// From the hidden state to rotated queries and keys, and values by head.
pub open spec fn projection_ops(d: Dims, span: Span, index: usize) -> Seq<Op> {
    let rows = span.rows();
    seq![
        op::run2(
            norm(rows, d.hidden),
            Operand::Input(HIDDEN),
            part(index, LayerWeight::InputGamma),
            op::scratch(NORMED),
        ),
        op::run2(
            gemm(rows, d.q_out, d.hidden),
            op::scratch(NORMED),
            part(index, LayerWeight::Query),
            op::scratch(Q_PROJ),
        ),
        op::run2(
            gemm(rows, d.kv_out, d.hidden),
            op::scratch(NORMED),
            part(index, LayerWeight::Key),
            op::scratch(K_PROJ),
        ),
        op::run2(
            gemm(rows, d.kv_out, d.hidden),
            op::scratch(NORMED),
            part(index, LayerWeight::Value),
            op::scratch(V_PROJ),
        ),
        op::run2(
            norm(rows * d.q_heads, d.head_dim),
            op::scratch(Q_PROJ),
            part(index, LayerWeight::QueryGamma),
            op::scratch(Q_NORM),
        ),
        op::run2(
            norm(rows * d.kv_heads, d.head_dim),
            op::scratch(K_PROJ),
            part(index, LayerWeight::KeyGamma),
            op::scratch(K_NORM),
        ),
        op::run1(permute(d, span, d.q_heads), op::scratch(Q_NORM), op::scratch(Q_BHSD)),
        op::run1(permute(d, span, d.kv_heads), op::scratch(K_NORM), op::scratch(K_BHSD)),
        op::run1(permute(d, span, d.kv_heads), op::scratch(V_PROJ), op::scratch(V_BHSD)),
        op::run1(rope(d, span, d.q_heads, d.q_out), op::scratch(Q_BHSD), op::scratch(Q_ROPE)),
        op::run1(rope(d, span, d.kv_heads, d.kv_out), op::scratch(K_BHSD), op::scratch(K_ROPE)),
    ]
}

/// Attention of the queries to `keys` and `values`.
pub open spec fn attention_ops(d: Dims, span: Span, keys: Operand, values: Operand) -> Seq<Op> {
    seq![
        op::run2(scores(d, span), op::scratch(Q_ROPE), keys, op::scratch(SCORES)),
        op::run1(softmax(d, span), op::scratch(SCORES), op::scratch(PROBS)),
        op::run2(apply(d, span), op::scratch(PROBS), values, op::scratch(ATTENDED)),
    ]
}

/// From what attention gave to the hidden state behind the layer.
pub open spec fn finish_ops(d: Dims, span: Span, index: usize) -> Seq<Op> {
    let rows = span.rows();
    seq![
        op::run2(
            gemm(rows, d.hidden, d.q_out),
            op::scratch(ATTENDED),
            part(index, LayerWeight::Output),
            op::scratch(PROJECTED),
        ),
        op::run2(
            residual(d, span),
            Operand::Input(HIDDEN),
            op::scratch(PROJECTED),
            op::scratch(ATTENTION_OUTPUT),
        ),
        op::run2(
            norm(rows, d.hidden),
            op::scratch(ATTENTION_OUTPUT),
            part(index, LayerWeight::PostGamma),
            op::scratch(POST_NORM),
        ),
        op::run2(
            gemm(rows, d.intermediate, d.hidden),
            op::scratch(POST_NORM),
            part(index, LayerWeight::Gate),
            op::scratch(GATE),
        ),
        op::run2(
            gemm(rows, d.intermediate, d.hidden),
            op::scratch(POST_NORM),
            part(index, LayerWeight::Up),
            op::scratch(UP),
        ),
        op::run2(swiglu(d, span), op::scratch(GATE), op::scratch(UP), op::scratch(SWIGLU)),
        op::run2(
            gemm(rows, d.hidden, d.intermediate),
            op::scratch(SWIGLU),
            part(index, LayerWeight::Down),
            op::scratch(MLP_DOWN),
        ),
        op::run2(
            residual(d, span),
            op::scratch(ATTENTION_OUTPUT),
            op::scratch(MLP_DOWN),
            Operand::Input(RESULT),
        ),
    ]
}

/// The steps of a layer on whole sequences, in a workspace that exists already.
pub open spec fn layer_ops(d: Dims, span: Span, index: usize) -> Seq<Op> {
    projection_ops(d, span, index) + attention_ops(
        d,
        span,
        op::scratch(K_ROPE),
        op::scratch(V_BHSD),
    ) + finish_ops(d, span, index)
}

/// The steps that put new keys and values into the caches.
pub open spec fn cache_ops(d: Dims, span: Span) -> Seq<Op> {
    seq![
        op::run1(write(d, span), op::scratch(K_ROPE), Operand::Input(K_CACHE)),
        op::run1(write(d, span), op::scratch(V_BHSD), Operand::Input(V_CACHE)),
    ]
}

/// The span of one step at position `offset`, with caches of `cache_steps` steps.
pub open spec fn one_step(offset: usize, cache_steps: usize) -> Span {
    Span { batch: 1, steps: 1, key_steps: cache_steps, offset }
}

/// All steps of one decoding step.
pub open spec fn decode_ops(d: Dims, offset: usize, cache_steps: usize, index: usize) -> Seq<Op> {
    let span = one_step(offset, cache_steps);
    layer_buffers(d, span) + projection_ops(d, span, index) + cache_ops(d, span) + attention_ops(
        d,
        span,
        Operand::Input(K_CACHE),
        Operand::Input(V_CACHE),
    ) + finish_ops(d, span, index)
}

fn push_buffers(plan: &mut Plan, d: Dims, span: Span)
    requires
        old(plan).wf(),
        old(plan).buffers == 0,
        countable(d, span),
    ensures
        final(plan).wf(),
        final(plan)@ == old(plan)@ + layer_buffers(d, span),
{
    let rows: usize = span.batch * span.steps;
    let hidden: usize = rows * d.hidden;
    let q: usize = rows * d.q_out;
    let kv: usize = rows * d.kv_out;
    let square: usize = span.batch * d.q_heads * span.steps * span.key_steps;
    let mlp: usize = rows * d.intermediate;
    let lens: [usize; 21] = [
        hidden, q, kv, kv, q, kv, q, kv, kv, q, kv, square, square, q, hidden, hidden, hidden,
        mlp, mlp, mlp, hidden,
    ];
    let ghost before = plan@;
    let mut index: usize = 0;
    while index < 21
        invariant
            index <= 21,
            plan.wf(),
            plan.buffers == index,
            plan@ == before + lens@.take(index as int).map_values(|len: usize| Op::Alloc { len }),
        decreases 21 - index,
    {
        plan.scratch(lens[index]);
        index += 1;
        proof {
            assert(plan@ =~= before + lens@.take(index as int).map_values(
                |len: usize| Op::Alloc { len },
            ));
        }
    }
    proof {
        assert(lens@.take(21) =~= lens@);
        assert(plan@ =~= before + layer_buffers(d, span));
    }
}

fn weight(index: usize, p: LayerWeight) -> (operand: Operand)
    ensures
        operand == part(index, p),
{
    Operand::Weight(Weight::Layer { index, part: p })
}

fn push_projection(plan: &mut Plan, d: Dims, span: Span, index: usize)
    requires
        old(plan).wf(),
        countable(d, span),
    ensures
        final(plan).wf(),
        final(plan).buffers == old(plan).buffers,
        final(plan)@ == old(plan)@ + projection_ops(d, span, index),
{
    let ghost before = plan@;
    let rows: usize = span.batch * span.steps;
    let input = Operand::Input(HIDDEN);
    let normed = Operand::Scratch(NORMED);
    plan.run(
        Call::RmsNorm { rows, cols: d.hidden, epsilon: EPSILON },
        Inputs::Two(input, weight(index, LayerWeight::InputGamma)),
        normed,
    );
    plan.run(
        Call::Gemm { m: rows, n: d.q_out, k: d.hidden },
        Inputs::Two(normed, weight(index, LayerWeight::Query)),
        Operand::Scratch(Q_PROJ),
    );
    plan.run(
        Call::Gemm { m: rows, n: d.kv_out, k: d.hidden },
        Inputs::Two(normed, weight(index, LayerWeight::Key)),
        Operand::Scratch(K_PROJ),
    );
    plan.run(
        Call::Gemm { m: rows, n: d.kv_out, k: d.hidden },
        Inputs::Two(normed, weight(index, LayerWeight::Value)),
        Operand::Scratch(V_PROJ),
    );
    plan.run(
        Call::RmsNorm { rows: rows * d.q_heads, cols: d.head_dim, epsilon: EPSILON },
        Inputs::Two(Operand::Scratch(Q_PROJ), weight(index, LayerWeight::QueryGamma)),
        Operand::Scratch(Q_NORM),
    );
    plan.run(
        Call::RmsNorm { rows: rows * d.kv_heads, cols: d.head_dim, epsilon: EPSILON },
        Inputs::Two(Operand::Scratch(K_PROJ), weight(index, LayerWeight::KeyGamma)),
        Operand::Scratch(K_NORM),
    );
    let queries = Call::Permute {
        batch: span.batch,
        steps: span.steps,
        heads: d.q_heads,
        head_dim: d.head_dim,
    };
    let keys = Call::Permute {
        batch: span.batch,
        steps: span.steps,
        heads: d.kv_heads,
        head_dim: d.head_dim,
    };
    plan.run(queries, Inputs::One(Operand::Scratch(Q_NORM)), Operand::Scratch(Q_BHSD));
    plan.run(keys, Inputs::One(Operand::Scratch(K_NORM)), Operand::Scratch(K_BHSD));
    plan.run(keys, Inputs::One(Operand::Scratch(V_PROJ)), Operand::Scratch(V_BHSD));
    plan.run(
        Call::Rope {
            total: rows * d.q_out,
            heads: d.q_heads,
            steps: span.steps,
            head_dim: d.head_dim,
            offset: span.offset,
            theta: THETA,
        },
        Inputs::One(Operand::Scratch(Q_BHSD)),
        Operand::Scratch(Q_ROPE),
    );
    plan.run(
        Call::Rope {
            total: rows * d.kv_out,
            heads: d.kv_heads,
            steps: span.steps,
            head_dim: d.head_dim,
            offset: span.offset,
            theta: THETA,
        },
        Inputs::One(Operand::Scratch(K_BHSD)),
        Operand::Scratch(K_ROPE),
    );
    proof {
        assert(plan@ =~= before + projection_ops(d, span, index));
    }
}

fn push_attention(plan: &mut Plan, d: Dims, span: Span, keys: Operand, values: Operand)
    requires
        old(plan).wf(),
        countable(d, span),
    ensures
        final(plan).wf(),
        final(plan).buffers == old(plan).buffers,
        final(plan)@ == old(plan)@ + attention_ops(d, span, keys, values),
{
    let ghost before = plan@;
    plan.run(
        Call::AttentionScores {
            batch: span.batch,
            q_heads: d.q_heads,
            kv_heads: d.kv_heads,
            query_steps: span.steps,
            key_steps: span.key_steps,
            head_dim: d.head_dim,
            offset: span.offset,
            scale: d.scale,
        },
        Inputs::Two(Operand::Scratch(Q_ROPE), keys),
        Operand::Scratch(SCORES),
    );
    plan.run(
        Call::Softmax { rows: span.batch * d.q_heads * span.steps, cols: span.key_steps },
        Inputs::One(Operand::Scratch(SCORES)),
        Operand::Scratch(PROBS),
    );
    plan.run(
        Call::ApplyValue {
            batch: span.batch,
            q_heads: d.q_heads,
            kv_heads: d.kv_heads,
            query_steps: span.steps,
            key_steps: span.key_steps,
            head_dim: d.head_dim,
        },
        Inputs::Two(Operand::Scratch(PROBS), values),
        Operand::Scratch(ATTENDED),
    );
    proof {
        assert(plan@ =~= before + attention_ops(d, span, keys, values));
    }
}

fn push_finish(plan: &mut Plan, d: Dims, span: Span, index: usize)
    requires
        old(plan).wf(),
        countable(d, span),
    ensures
        final(plan).wf(),
        final(plan).buffers == old(plan).buffers,
        final(plan)@ == old(plan)@ + finish_ops(d, span, index),
{
    let ghost before = plan@;
    let rows: usize = span.batch * span.steps;
    let sum = Call::ResidualAdd { total: rows * d.hidden };
    let widen = Call::Gemm { m: rows, n: d.intermediate, k: d.hidden };
    let middle = Operand::Scratch(ATTENTION_OUTPUT);
    plan.run(
        Call::Gemm { m: rows, n: d.hidden, k: d.q_out },
        Inputs::Two(Operand::Scratch(ATTENDED), weight(index, LayerWeight::Output)),
        Operand::Scratch(PROJECTED),
    );
    plan.run(sum, Inputs::Two(Operand::Input(HIDDEN), Operand::Scratch(PROJECTED)), middle);
    plan.run(
        Call::RmsNorm { rows, cols: d.hidden, epsilon: EPSILON },
        Inputs::Two(middle, weight(index, LayerWeight::PostGamma)),
        Operand::Scratch(POST_NORM),
    );
    plan.run(
        widen,
        Inputs::Two(Operand::Scratch(POST_NORM), weight(index, LayerWeight::Gate)),
        Operand::Scratch(GATE),
    );
    plan.run(
        widen,
        Inputs::Two(Operand::Scratch(POST_NORM), weight(index, LayerWeight::Up)),
        Operand::Scratch(UP),
    );
    plan.run(
        Call::Swiglu { total: rows * d.intermediate },
        Inputs::Two(Operand::Scratch(GATE), Operand::Scratch(UP)),
        Operand::Scratch(SWIGLU),
    );
    plan.run(
        Call::Gemm { m: rows, n: d.hidden, k: d.intermediate },
        Inputs::Two(Operand::Scratch(SWIGLU), weight(index, LayerWeight::Down)),
        Operand::Scratch(MLP_DOWN),
    );
    plan.run(
        sum,
        Inputs::Two(middle, Operand::Scratch(MLP_DOWN)),
        Operand::Input(RESULT),
    );
    proof {
        assert(plan@ =~= before + finish_ops(d, span, index));
    }
}

/// The plan that makes the workspace of a layer.
pub fn workspace_plan(d: Dims, span: Span) -> (plan: Plan)
    requires
        d.wf(),
        countable(d, span),
    ensures
        plan.wf(),
        plan@ == layer_buffers(d, span),
{
    let mut plan = Plan::new();
    push_buffers(&mut plan, d, span);
    proof {
        assert(plan@ =~= layer_buffers(d, span));
    }
    plan
}

/// The plan of layer `index` on whole sequences, behind the plan of its workspace. The
/// first input holds the hidden state, the second receives the result.
pub fn run_layer_gpu(d: Dims, span: Span, index: usize) -> (plan: Plan)
    requires
        d.wf(),
        countable(d, span),
    ensures
        plan.wf(),
        plan@ == layer_ops(d, span, index),
{
    let mut plan = Plan::new();
    push_projection(&mut plan, d, span, index);
    push_attention(
        &mut plan,
        d,
        span,
        Operand::Scratch(K_ROPE),
        Operand::Scratch(V_BHSD),
    );
    push_finish(&mut plan, d, span, index);
    proof {
        assert(plan@ =~= layer_ops(d, span, index));
    }
    plan
}

/// The plan of one decoding step of layer `index` at position `offset`. The first input
/// holds the hidden state, the second receives the result, the third and fourth are the
/// caches of keys and values.
pub fn run_decode_step(d: Dims, offset: usize, cache_steps: usize, index: usize) -> (plan: Plan)
    requires
        d.wf(),
        countable(d, one_step(offset, cache_steps)),
    ensures
        plan.wf(),
        plan@ == decode_ops(d, offset, cache_steps, index),
{
    let span = Span { batch: 1, steps: 1, key_steps: cache_steps, offset };
    let mut plan = Plan::new();
    push_buffers(&mut plan, d, span);
    push_projection(&mut plan, d, span, index);
    let store = Call::WriteCache {
        heads: d.kv_heads,
        input_steps: 1,
        cache_steps,
        head_dim: d.head_dim,
        offset,
    };
    let ghost before = plan@;
    plan.run(store, Inputs::One(Operand::Scratch(K_ROPE)), Operand::Input(K_CACHE));
    plan.run(store, Inputs::One(Operand::Scratch(V_BHSD)), Operand::Input(V_CACHE));
    proof {
        assert(plan@ =~= before + cache_ops(d, span));
    }
    push_attention(&mut plan, d, span, Operand::Input(K_CACHE), Operand::Input(V_CACHE));
    push_finish(&mut plan, d, span, index);
    proof {
        assert(plan@ =~= decode_ops(d, offset, cache_steps, index));
    }
    plan
}

/// The scratch buffers of a prefill: the norm, the projections, and the keys and values
/// by head.
pub open spec fn prefill_buffers(d: Dims, span: Span) -> Seq<Op> {
    let rows = span.rows();
    let kv = op::make(rows * d.kv_out);
    seq![op::make(rows * d.hidden), kv, kv, kv, kv, kv, kv]
}

/// The steps of a prefill: the keys and values of a prefix go into the caches.
pub open spec fn prefill_steps(d: Dims, span: Span, index: usize) -> Seq<Op> {
    let rows = span.rows();
    seq![
        op::run2(
            norm(rows, d.hidden),
            Operand::Input(HIDDEN),
            part(index, LayerWeight::InputGamma),
            op::scratch(0),
        ),
        op::run2(
            gemm(rows, d.kv_out, d.hidden),
            op::scratch(0),
            part(index, LayerWeight::Key),
            op::scratch(1),
        ),
        op::run2(
            gemm(rows, d.kv_out, d.hidden),
            op::scratch(0),
            part(index, LayerWeight::Value),
            op::scratch(2),
        ),
        op::run2(
            norm(rows * d.kv_heads, d.head_dim),
            op::scratch(1),
            part(index, LayerWeight::KeyGamma),
            op::scratch(3),
        ),
        op::run1(permute(d, span, d.kv_heads), op::scratch(3), op::scratch(4)),
        op::run1(permute(d, span, d.kv_heads), op::scratch(2), op::scratch(5)),
        op::run1(rope(d, span, d.kv_heads, d.kv_out), op::scratch(4), op::scratch(6)),
        op::run1(write(d, span), op::scratch(6), Operand::Input(K_CACHE)),
        op::run1(write(d, span), op::scratch(5), Operand::Input(V_CACHE)),
    ]
}

/// The span of a prefix of `steps` steps, with caches of `cache_steps` steps.
pub open spec fn prefix_span(steps: usize, cache_steps: usize) -> Span {
    Span { batch: 1, steps, key_steps: cache_steps, offset: 0 }
}

/// The plan that fills the caches of layer `index` from a prefix of `steps` steps. The
/// first input holds the hidden states of the prefix.
pub fn prefill_cache(d: Dims, steps: usize, cache_steps: usize, index: usize) -> (plan: Plan)
    requires
        d.wf(),
        countable(d, prefix_span(steps, cache_steps)),
    ensures
        plan.wf(),
        plan@ == prefill_buffers(d, prefix_span(steps, cache_steps)) + prefill_steps(
            d,
            prefix_span(steps, cache_steps),
            index,
        ),
{
    let ghost span = prefix_span(steps, cache_steps);
    proof {
        assert(1 * steps == steps);
    }
    let mut plan = Plan::new();
    let normed = plan.scratch(steps * d.hidden);
    let k_proj = plan.scratch(steps * d.kv_out);
    let v_proj = plan.scratch(steps * d.kv_out);
    let k_norm = plan.scratch(steps * d.kv_out);
    let k_bhsd = plan.scratch(steps * d.kv_out);
    let v_bhsd = plan.scratch(steps * d.kv_out);
    let k_rope = plan.scratch(steps * d.kv_out);
    proof {
        assert(plan@ =~= prefill_buffers(d, span));
    }
    plan.run(
        Call::RmsNorm { rows: steps, cols: d.hidden, epsilon: EPSILON },
        Inputs::Two(Operand::Input(HIDDEN), weight(index, LayerWeight::InputGamma)),
        normed,
    );
    let project = Call::Gemm { m: steps, n: d.kv_out, k: d.hidden };
    plan.run(project, Inputs::Two(normed, weight(index, LayerWeight::Key)), k_proj);
    plan.run(project, Inputs::Two(normed, weight(index, LayerWeight::Value)), v_proj);
    plan.run(
        Call::RmsNorm { rows: steps * d.kv_heads, cols: d.head_dim, epsilon: EPSILON },
        Inputs::Two(k_proj, weight(index, LayerWeight::KeyGamma)),
        k_norm,
    );
    let by_head = Call::Permute { batch: 1, steps, heads: d.kv_heads, head_dim: d.head_dim };
    plan.run(by_head, Inputs::One(k_norm), k_bhsd);
    plan.run(by_head, Inputs::One(v_proj), v_bhsd);
    plan.run(
        Call::Rope {
            total: steps * d.kv_out,
            heads: d.kv_heads,
            steps,
            head_dim: d.head_dim,
            offset: 0,
            theta: THETA,
        },
        Inputs::One(k_bhsd),
        k_rope,
    );
    let store = Call::WriteCache {
        heads: d.kv_heads,
        input_steps: steps,
        cache_steps,
        head_dim: d.head_dim,
        offset: 0,
    };
    plan.run(store, Inputs::One(k_rope), Operand::Input(K_CACHE));
    plan.run(store, Inputs::One(v_bhsd), Operand::Input(V_CACHE));
    proof {
        assert(plan@ =~= prefill_buffers(d, span) + prefill_steps(d, span, index));
    }
    plan
}

} // verus!

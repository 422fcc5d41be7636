//! The feed-forward block of a layer by itself, as a device plan.

use vstd::prelude::*;

use crate::device::op::{self, Call, Inputs, Memory, Op, Operand};
use crate::device::plan::{self, Plan};
use crate::layer::dims::EPSILON;

verus! {

/// The scratch buffer that holds the result.
pub const BLOCK_OUTPUT: usize = 5;

/// The scratch buffers of the block.
pub open spec fn block_buffers(rows: usize, hidden: usize, inner: usize) -> Seq<Op> {
    let narrow = op::make(rows * hidden);
    let wide = op::make(rows * inner);
    seq![narrow, wide, wide, wide, narrow, narrow]
}

/// The calls of the block. Its inputs are, in this order, the rows, the weights of the norm,
/// and the matrices that widen for the two factors of the product and narrow again.
pub open spec fn block_steps(rows: usize, hidden: usize, inner: usize) -> Seq<Op> {
    let norm = Call::RmsNorm { rows, cols: hidden, epsilon: EPSILON };
    let widen = op::gemm(rows, inner, hidden);
    let narrow = op::gemm(rows, hidden, inner);
    let gated = Call::Swiglu { total: (rows * inner) as usize };
    let added = Call::ResidualAdd { total: (rows * hidden) as usize };
    seq![
        op::run2(norm, Operand::Input(0), Operand::Input(1), op::scratch(0)),
        op::run2(widen, op::scratch(0), Operand::Input(2), op::scratch(1)),
        op::run2(widen, op::scratch(0), Operand::Input(3), op::scratch(2)),
        op::run2(gated, op::scratch(1), op::scratch(2), op::scratch(3)),
        op::run2(narrow, op::scratch(3), Operand::Input(4), op::scratch(4)),
        op::run2(added, Operand::Input(0), op::scratch(4), op::scratch(BLOCK_OUTPUT)),
    ]
}

/// The plan of a feed-forward block on so many rows; `None` where a machine word cannot
/// count its buffers.
pub fn mlp_block_plan(rows: usize, hidden: usize, inner: usize) -> (planned: Option<Plan>)
    ensures
        match planned {
            None => rows * hidden > usize::MAX || rows * inner > usize::MAX,
            Some(plan) => {
                &&& rows * hidden <= usize::MAX
                &&& rows * inner <= usize::MAX
                &&& plan.wf()
                &&& plan@ == block_buffers(rows, hidden, inner) + block_steps(rows, hidden, inner)
            },
        },
{
    let narrow_len: usize = match rows.checked_mul(hidden) {
        Some(len) => len,
        None => {
            return None;
        },
    };
    let wide_len: usize = match rows.checked_mul(inner) {
        Some(len) => len,
        None => {
            return None;
        },
    };
    let mut plan = Plan::new();
    let normed = plan.scratch(narrow_len);
    let gate = plan.scratch(wide_len);
    let up = plan.scratch(wide_len);
    let gated = plan.scratch(wide_len);
    let down = plan.scratch(narrow_len);
    let output = plan.scratch(narrow_len);
    let widen = Call::Gemm { m: rows, n: inner, k: hidden };
    plan.run(
        Call::RmsNorm { rows, cols: hidden, epsilon: EPSILON },
        Inputs::Two(Operand::Input(0), Operand::Input(1)),
        normed,
    );
    plan.run(widen, Inputs::Two(normed, Operand::Input(2)), gate);
    plan.run(widen, Inputs::Two(normed, Operand::Input(3)), up);
    plan.run(Call::Swiglu { total: wide_len }, Inputs::Two(gate, up), gated);
    plan.run(
        Call::Gemm { m: rows, n: hidden, k: inner },
        Inputs::Two(gated, Operand::Input(4)),
        down,
    );
    plan.run(
        Call::ResidualAdd { total: narrow_len },
        Inputs::Two(Operand::Input(0), down),
        output,
    );
    proof {
        assert(plan@ =~= block_buffers(rows, hidden, inner) + block_steps(rows, hidden, inner));
    }
    Some(plan)
}

/// The block as a function of the hidden states `x` and the tensors of its layer.
pub open spec fn block_value<V>(
    f: spec_fn(Call, Seq<V>) -> V,
    rows: usize,
    hidden: usize,
    inner: usize,
    x: V,
    gamma: V,
    gate: V,
    up: V,
    down: V,
) -> V {
    let widen = op::gemm(rows, inner, hidden);
    let normed = f(Call::RmsNorm { rows, cols: hidden, epsilon: EPSILON }, seq![x, gamma]);
    let gated = f(
        Call::Swiglu { total: (rows * inner) as usize },
        seq![f(widen, seq![normed, gate]), f(widen, seq![normed, up])],
    );
    f(
        Call::ResidualAdd { total: (rows * hidden) as usize },
        seq![x, f(op::gemm(rows, hidden, inner), seq![gated, down])],
    )
}

/// The plan leaves in its result buffer what the block computes from its inputs, which it
/// leaves as they were.
pub proof fn mlp_block_plan_computes_block<V>(
    f: spec_fn(Call, Seq<V>) -> V,
    s: Memory<V>,
    rows: usize,
    hidden: usize,
    inner: usize,
)
    ensures
        ({
            let end = op::run(
                f,
                s,
                block_buffers(rows, hidden, inner) + block_steps(rows, hidden, inner),
            );
            &&& end[op::scratch(BLOCK_OUTPUT)] == block_value(
                f,
                rows,
                hidden,
                inner,
                s[Operand::Input(0)],
                s[Operand::Input(1)],
                s[Operand::Input(2)],
                s[Operand::Input(3)],
                s[Operand::Input(4)],
            )
            &&& forall|i: usize| #[trigger] end[Operand::Input(i)] == s[Operand::Input(i)]
        }),
{
    let buffers = block_buffers(rows, hidden, inner);
    let steps = block_steps(rows, hidden, inner);
    op::lemma_run_concat(f, s, buffers, steps);
    crate::codec::transformer_laws::lemma_allocations_keep_memory(f, s, buffers);
    assert forall|i: usize| #[trigger]
        op::run(f, s, steps)[Operand::Input(i)] == s[Operand::Input(i)] by {
        op::lemma_leaves_alone(f, s, steps, Operand::Input(i));
    }
    reveal_with_fuel(op::run_from, 7);
}

/// The number of elements of the inputs of the block.
pub open spec fn input_len(rows: usize, hidden: usize, inner: usize) -> spec_fn(Operand) -> nat {
    |o: Operand|
        match o {
            Operand::Input(0) => (rows * hidden) as nat,
            Operand::Input(1) => hidden as nat,
            Operand::Input(2) | Operand::Input(3) => (hidden * inner) as nat,
            Operand::Input(4) => (inner * hidden) as nat,
            _ => 0,
        }
}

/// Every step of the plan stays within its buffers, and no buffer is empty.
pub proof fn mlp_block_plan_in_bounds(rows: usize, hidden: usize, inner: usize)
    requires
        rows > 0,
        hidden > 0,
        inner > 0,
        rows * hidden <= usize::MAX,
        rows * inner <= usize::MAX,
    ensures
        plan::in_bounds(
            block_buffers(rows, hidden, inner) + block_steps(rows, hidden, inner),
            Seq::empty(),
            input_len(rows, hidden, inner),
        ),
{
    let none = Seq::<usize>::empty();
    let outer = input_len(rows, hidden, inner);
    let buffers = block_buffers(rows, hidden, inner);
    let steps = block_steps(rows, hidden, inner);
    let narrow = (rows * hidden) as usize;
    let wide = (rows * inner) as usize;
    let lens = seq![narrow, wide, wide, wide, narrow, narrow];
    assert(rows * hidden > 0 && rows * inner > 0) by (nonlinear_arith)
        requires
            rows > 0,
            hidden > 0,
            inner > 0,
    ;
    plan::lemma_only_allocs(buffers, none, outer);
    assert(plan::alloc_lens(buffers) =~= lens) by {
        reveal_with_fuel(plan::alloc_lens, 7);
    }
    assert forall|i: int| 0 <= i < steps.len() implies plan::fits(
        lens,
        outer,
        #[trigger] steps[i],
    ) by {
        plan::lemma_fits(lens, outer, steps[i]);
    }
    plan::lemma_in_bounds_runs(steps, lens, outer);
    assert(none + lens =~= lens);
    plan::lemma_in_bounds_concat(buffers, steps, none, outer);
}

/// The block adds to what it is given what it narrows again: where an addition keeps what it
/// adds to, the block leaves its rows as they are, and where it keeps what is added, the
/// block gives what its last matrix makes of the activated product. The first factor of
/// that product comes from the third input, the second one from the fourth.
pub proof fn blocks_add_what_they_narrow<V>(
    f: spec_fn(Call, Seq<V>) -> V,
    s: Memory<V>,
    rows: usize,
    hidden: usize,
    inner: usize,
)
    ensures
        ({
            let end = op::run(
                f,
                s,
                block_buffers(rows, hidden, inner) + block_steps(rows, hidden, inner),
            );
            let given = |i: usize| s[Operand::Input(i)];
            let add = Call::ResidualAdd { total: (rows * hidden) as usize };
            let normed = f(
                Call::RmsNorm { rows, cols: hidden, epsilon: 0x3586_37bd },
                seq![given(0), given(1)],
            );
            let wide = |m: V| f(Call::Gemm { m: rows, n: inner, k: hidden }, seq![normed, m]);
            let narrow = f(
                Call::Gemm { m: rows, n: hidden, k: inner },
                seq![
                    f(
                        Call::Swiglu { total: (rows * inner) as usize },
                        seq![wide(given(2)), wide(given(3))],
                    ),
                    given(4),
                ],
            );
            &&& (forall|args: Seq<V>| args.len() == 2 ==> #[trigger] f(add, args) == args[0])
                ==> end[op::scratch(5)] == given(0)
            &&& (forall|args: Seq<V>| args.len() == 2 ==> #[trigger] f(add, args) == args[1])
                ==> end[op::scratch(5)] == narrow
        }),
{
    mlp_block_plan_computes_block(f, s, rows, hidden, inner);
}

} // verus!

//! Plans: lists of device operations, with their scratch buffers.

use vstd::prelude::*;

use crate::device::op::{Call, Inputs, Op, Operand};

verus! {

/// A list of device operations under construction.
#[derive(Debug)]
pub struct Plan {
    pub ops: Vec<Op>,
    /// How many scratch buffers the operations make.
    pub buffers: usize,
}

impl View for Plan {
    type V = Seq<Op>;

    open spec fn view(&self) -> Seq<Op> {
        self.ops@
    }
}

/// The lengths of the buffers that `ops` makes, in order.
pub open spec fn alloc_lens(ops: Seq<Op>) -> Seq<usize>
    decreases ops.len(),
{
    if ops.len() == 0 {
        Seq::empty()
    } else {
        let before = alloc_lens(ops.drop_last());
        match ops.last() {
            Op::Alloc { len } => before.push(len),
            Op::Run { .. } => before,
        }
    }
}

/// The length of a scratch buffer that `ops` make.
pub open spec fn made_len(ops: Seq<Op>, o: Operand) -> nat {
    match o {
        Operand::Scratch(index) => alloc_lens(ops)[index as int] as nat,
        _ => 0,
    }
}

/// The buffers of two lists, one after the other.
pub proof fn lemma_alloc_lens_concat(a: Seq<Op>, b: Seq<Op>)
    ensures
        alloc_lens(a + b) == alloc_lens(a) + alloc_lens(b),
    decreases b.len(),
{
    if b.len() == 0 {
        assert(a + b =~= a);
    } else {
        lemma_alloc_lens_concat(a, b.drop_last());
        assert((a + b).drop_last() =~= a + b.drop_last());
        assert((a + b).last() == b.last());
    }
}

impl Plan {
    /// The scratch buffers are counted.
    pub open spec fn wf(&self) -> bool {
        self.buffers == alloc_lens(self@).len()
    }

    /// A plan that does nothing.
    pub fn new() -> (plan: Plan)
        ensures
            plan.wf(),
            plan@ == Seq::<Op>::empty(),
            plan.buffers == 0,
    {
        Plan { ops: Vec::new(), buffers: 0 }
    }

    /// Adds the allocation of a scratch buffer of `len` elements.
    pub fn scratch(&mut self, len: usize) -> (buffer: Operand)
        requires
            old(self).wf(),
            old(self).buffers < usize::MAX,
        ensures
            final(self).wf(),
            final(self)@ == old(self)@.push(Op::Alloc { len }),
            final(self).buffers == old(self).buffers + 1,
            buffer == Operand::Scratch(old(self).buffers),
    {
        let buffer = Operand::Scratch(self.buffers);
        self.ops.push(Op::Alloc { len });
        self.buffers += 1;
        proof {
            assert(self@.drop_last() =~= old(self)@);
        }
        buffer
    }

    /// Adds the run of a call.
    pub fn run(&mut self, call: Call, inputs: Inputs, output: Operand)
        requires
            old(self).wf(),
        ensures
            final(self).wf(),
            final(self)@ == old(self)@.push(Op::Run { call, inputs, output }),
            final(self).buffers == old(self).buffers,
    {
        self.ops.push(Op::Run { call, inputs, output });
        proof {
            assert(self@.drop_last() =~= old(self)@);
        }
    }
}

/// The number of elements of a buffer, where `lens` are the lengths of the scratch
/// buffers made so far and `outer` those of the buffers that are not scratch.
pub open spec fn operand_len(
    lens: Seq<usize>,
    outer: spec_fn(Operand) -> nat,
    o: Operand,
) -> nat {
    match o {
        Operand::Scratch(i) => if i < lens.len() {
            lens[i as int] as nat
        } else {
            0
        },
        _ => outer(o),
    }
}

/// How many elements of its inputs, and then of its output, a call touches at most.
pub open spec fn extents(call: Call) -> Seq<nat> {
    match call {
        Call::Gemm { m, n, k } => seq![(m * k) as nat, (k * n) as nat, (m * n) as nat],
        Call::RvqProject { frames } => seq![
            (frames * 16) as nat,
            (2048 * 256) as nat,
            (15 * 2048 * 256) as nat,
            (512 * 256) as nat,
            (512 * 256) as nat,
            (512 * frames) as nat,
        ],
        Call::CausalConv1d { frames } => seq![
            (512 * frames) as nat,
            (1024 * 512 * 3) as nat,
            1024,
            (1024 * frames) as nat,
        ],
        Call::TransposeCtToTc { channels, frames } => seq![
            (channels * frames) as nat,
            (channels * frames) as nat,
        ],
        Call::TransposeTcToCt { frames, channels } => seq![
            (channels * frames) as nat,
            (channels * frames) as nat,
        ],
        Call::ScaledResidualAdd { rows, cols } => seq![
            (rows * cols) as nat,
            (rows * cols) as nat,
            cols as nat,
            (rows * cols) as nat,
        ],
        Call::BiasAdd { rows, cols } => seq![
            (rows * cols) as nat,
            cols as nat,
            (rows * cols) as nat,
        ],
        Call::Gelu { total } => seq![total as nat, total as nat],
        Call::LayerNorm { rows, cols } => seq![
            (rows * cols) as nat,
            cols as nat,
            cols as nat,
            (rows * cols) as nat,
        ],
        Call::TransConv1d { in_frames, out_frames } => seq![
            (1024 * in_frames) as nat,
            (1024 * 1024 * 2) as nat,
            1024,
            (1024 * out_frames) as nat,
        ],
        Call::DepthwiseConv1d { frames } => seq![
            (1024 * frames) as nat,
            (1024 * 7) as nat,
            1024,
            (1024 * frames) as nat,
        ],
        Call::ConvNextResidual { frames } => seq![
            (1024 * frames) as nat,
            (1024 * frames) as nat,
            1024,
            (1024 * frames) as nat,
        ],
        Call::SnakeBeta { channels, frames } => seq![
            (channels * frames) as nat,
            channels as nat,
            channels as nat,
            (channels * frames) as nat,
        ],
        Call::DilatedConv1d { frames, in_channels, out_channels, kernel_size, .. } => seq![
            (in_channels * frames) as nat,
            (out_channels * in_channels * kernel_size) as nat,
            out_channels as nat,
            (out_channels * frames) as nat,
        ],
        Call::TransConvChannels {
            in_frames,
            out_frames,
            in_channels,
            out_channels,
            kernel_size,
            ..
        } => seq![
            (in_channels * in_frames) as nat,
            (in_channels * out_channels * kernel_size) as nat,
            out_channels as nat,
            (out_channels * out_frames) as nat,
        ],
        Call::Clamp { total } => seq![total as nat, total as nat],
        Call::RmsNorm { rows, cols, .. } => seq![
            (rows * cols) as nat,
            cols as nat,
            (rows * cols) as nat,
        ],
        Call::Rope { total, .. } => seq![total as nat, total as nat],
        Call::Permute { batch, steps, heads, head_dim } => seq![
            (batch * steps * heads * head_dim) as nat,
            (batch * steps * heads * head_dim) as nat,
        ],
        Call::Softmax { rows, cols } => seq![(rows * cols) as nat, (rows * cols) as nat],
        Call::AttentionScores {
            batch,
            q_heads,
            kv_heads,
            query_steps,
            key_steps,
            head_dim,
            ..
        } => seq![
            (batch * q_heads * query_steps * head_dim) as nat,
            (batch * kv_heads * key_steps * head_dim) as nat,
            (batch * q_heads * query_steps * key_steps) as nat,
        ],
        Call::ApplyValue { batch, q_heads, kv_heads, query_steps, key_steps, head_dim } => seq![
            (batch * q_heads * query_steps * key_steps) as nat,
            (batch * kv_heads * key_steps * head_dim) as nat,
            (batch * query_steps * q_heads * head_dim) as nat,
        ],
        Call::WriteCache { heads, input_steps, cache_steps, head_dim, offset } => seq![
            (heads * input_steps * head_dim) as nat,
            if heads == 0 {
                0
            } else {
                (((heads - 1) * cache_steps + offset + input_steps) * head_dim) as nat
            },
        ],
        Call::ResidualAdd { total } => seq![total as nat, total as nat, total as nat],
        Call::Swiglu { total } => seq![total as nat, total as nat, total as nat],
    }
}

/// The buffers of a step are at least as long as the call needs them to be; the
/// matrices of a product have exactly the size of the product.
pub open spec fn fits(lens: Seq<usize>, outer: spec_fn(Operand) -> nat, op: Op) -> bool {
    match op {
        Op::Alloc { len } => len > 0,
        Op::Run { call, inputs, output } => {
            let used = inputs.operands().push(output);
            &&& used.len() == extents(call).len()
            &&& forall|i: int|
                0 <= i < used.len() ==> #[trigger] extents(call)[i] <= operand_len(
                    lens,
                    outer,
                    used[i],
                )
            &&& call is Gemm ==> forall|i: int|
                0 <= i < used.len() ==> #[trigger] extents(call)[i] == operand_len(
                    lens,
                    outer,
                    used[i],
                )
        },
    }
}

/// The lengths of the scratch buffers after one more step.
pub open spec fn grow(lens: Seq<usize>, op: Op) -> Seq<usize> {
    match op {
        Op::Alloc { len } => lens.push(len),
        Op::Run { .. } => lens,
    }
}

/// Every step from position `from` on only touches elements that exist by then, and
/// every buffer that it makes is non-empty.
pub open spec fn in_bounds_from(
    ops: Seq<Op>,
    lens: Seq<usize>,
    outer: spec_fn(Operand) -> nat,
    from: int,
) -> bool
    decreases ops.len() - from,
{
    if from < 0 || from >= ops.len() {
        true
    } else {
        fits(lens, outer, ops[from]) && in_bounds_from(ops, grow(lens, ops[from]), outer, from + 1)
    }
}

/// The steps of `ops` stay within their buffers when `lens` are the scratch buffers
/// that exist before them.
pub open spec fn in_bounds(
    ops: Seq<Op>,
    lens: Seq<usize>,
    outer: spec_fn(Operand) -> nat,
) -> bool {
    in_bounds_from(ops, lens, outer, 0)
}

/// Two lists of steps stay within their buffers when each does, the second one after
/// the buffers of the first.
pub proof fn lemma_in_bounds_concat(
    a: Seq<Op>,
    b: Seq<Op>,
    lens: Seq<usize>,
    outer: spec_fn(Operand) -> nat,
)
    requires
        in_bounds(a, lens, outer),
        in_bounds(b, lens + alloc_lens(a), outer),
    ensures
        in_bounds(a + b, lens, outer),
{
    assert(a.take(0) =~= Seq::<Op>::empty());
    assert(lens + alloc_lens(a.take(0)) =~= lens);
    lemma_in_bounds_from_concat(a, b, lens, outer, 0);
}

proof fn lemma_in_bounds_from_concat(
    a: Seq<Op>,
    b: Seq<Op>,
    lens: Seq<usize>,
    outer: spec_fn(Operand) -> nat,
    from: int,
)
    requires
        0 <= from <= a.len(),
        in_bounds_from(a, lens + alloc_lens(a.take(from)), outer, from),
        in_bounds(b, lens + alloc_lens(a), outer),
    ensures
        in_bounds_from(a + b, lens + alloc_lens(a.take(from)), outer, from),
    decreases a.len() - from,
{
    if from < a.len() {
        assert((a + b)[from] == a[from]);
        assert(a.take(from + 1).drop_last() =~= a.take(from));
        assert(a.take(from + 1).last() == a[from]);
        assert(lens + alloc_lens(a.take(from + 1)) =~= grow(
            lens + alloc_lens(a.take(from)),
            a[from],
        ));
        lemma_in_bounds_from_concat(a, b, lens, outer, from + 1);
    } else {
        assert(a.take(from) =~= a);
        lemma_in_bounds_shift(a, b, lens + alloc_lens(a), outer, 0);
    }
}

proof fn lemma_in_bounds_shift(
    a: Seq<Op>,
    b: Seq<Op>,
    lens: Seq<usize>,
    outer: spec_fn(Operand) -> nat,
    from: int,
)
    requires
        0 <= from <= b.len(),
        in_bounds_from(b, lens, outer, from),
    ensures
        in_bounds_from(a + b, lens, outer, a.len() + from),
    decreases b.len() - from,
{
    if from < b.len() {
        assert((a + b)[a.len() + from] == b[from]);
        lemma_in_bounds_shift(a, b, grow(lens, b[from]), outer, from + 1);
    }
}

/// Calls on one to three inputs fit when each of their buffers is long enough.
pub proof fn lemma_fits(lens: Seq<usize>, outer: spec_fn(Operand) -> nat, op: Op)
    requires
        op is Run,
        ({
            let used = op->inputs.operands().push(op->output);
            let need = extents(op->call);
            &&& used.len() == need.len()
            &&& used.len() >= 1 ==> sized(lens, outer, op->call, used[0], need[0])
            &&& used.len() >= 2 ==> sized(lens, outer, op->call, used[1], need[1])
            &&& used.len() >= 3 ==> sized(lens, outer, op->call, used[2], need[2])
            &&& used.len() >= 4 ==> sized(lens, outer, op->call, used[3], need[3])
            &&& used.len() >= 5 ==> sized(lens, outer, op->call, used[4], need[4])
            &&& used.len() >= 6 ==> sized(lens, outer, op->call, used[5], need[5])
        }),
    ensures
        fits(lens, outer, op),
{
    let used = op->inputs.operands().push(op->output);
    assert(used.len() <= 6);
    assert forall|i: int| 0 <= i < used.len() implies sized(
        lens,
        outer,
        op->call,
        used[i],
        #[trigger] extents(op->call)[i],
    ) by {
        assert(i == 0 || i == 1 || i == 2 || i == 3 || i == 4 || i == 5);
    }
}

/// A buffer is long enough for what `call` needs of it.
pub open spec fn sized(
    lens: Seq<usize>,
    outer: spec_fn(Operand) -> nat,
    call: Call,
    o: Operand,
    need: nat,
) -> bool {
    if call is Gemm {
        operand_len(lens, outer, o) == need
    } else {
        operand_len(lens, outer, o) >= need
    }
}

/// Steps that make no buffers stay within bounds when each of them does.
pub proof fn lemma_in_bounds_runs(
    ops: Seq<Op>,
    lens: Seq<usize>,
    outer: spec_fn(Operand) -> nat,
)
    requires
        forall|i: int| 0 <= i < ops.len() ==> #[trigger] ops[i] is Run,
        forall|i: int| 0 <= i < ops.len() ==> fits(lens, outer, #[trigger] ops[i]),
    ensures
        in_bounds(ops, lens, outer),
        alloc_lens(ops) == Seq::<usize>::empty(),
{
    lemma_in_bounds_runs_from(ops, lens, outer, 0);
    lemma_no_allocs(ops);
}

proof fn lemma_in_bounds_runs_from(
    ops: Seq<Op>,
    lens: Seq<usize>,
    outer: spec_fn(Operand) -> nat,
    from: int,
)
    requires
        forall|i: int| 0 <= i < ops.len() ==> #[trigger] ops[i] is Run,
        forall|i: int| 0 <= i < ops.len() ==> fits(lens, outer, #[trigger] ops[i]),
        0 <= from <= ops.len(),
    ensures
        in_bounds_from(ops, lens, outer, from),
    decreases ops.len() - from,
{
    if from < ops.len() {
        lemma_in_bounds_runs_from(ops, lens, outer, from + 1);
    }
}

/// Steps that are all runs make no buffers.
pub proof fn lemma_no_allocs(ops: Seq<Op>)
    requires
        forall|i: int| 0 <= i < ops.len() ==> #[trigger] ops[i] is Run,
    ensures
        alloc_lens(ops) == Seq::<usize>::empty(),
    decreases ops.len(),
{
    if ops.len() > 0 {
        let rest = ops.drop_last();
        assert forall|i: int| 0 <= i < rest.len() implies #[trigger] rest[i] is Run by {
            assert(rest[i] == ops[i]);
        }
        lemma_no_allocs(rest);
    }
}

/// Steps that only make buffers make exactly those, and stay within bounds when none
/// of them is empty.
pub proof fn lemma_only_allocs(ops: Seq<Op>, lens: Seq<usize>, outer: spec_fn(Operand) -> nat)
    requires
        forall|i: int|
            0 <= i < ops.len() ==> (#[trigger] ops[i] matches Op::Alloc { len } && len > 0),
    ensures
        in_bounds(ops, lens, outer),
        alloc_lens(ops) == ops.map_values(|op: Op| op->len),
    decreases ops.len(),
{
    if ops.len() == 0 {
        assert(ops.map_values(|op: Op| op->len) =~= Seq::<usize>::empty());
    } else {
        let rest = ops.drop_last();
        let last = seq![ops.last()];
        assert forall|i: int| 0 <= i < rest.len() implies (#[trigger] rest[i] matches Op::Alloc {
            len,
        } && len > 0) by {
            assert(rest[i] == ops[i]);
        }
        lemma_only_allocs(rest, lens, outer);
        assert(ops =~= rest + last);
        assert(in_bounds(last, lens + alloc_lens(rest), outer)) by {
            reveal_with_fuel(in_bounds_from, 2);
        }
        lemma_in_bounds_concat(rest, last, lens, outer);
        assert(ops.map_values(|op: Op| op->len) =~= rest.map_values(|op: Op| op->len).push(
            ops.last()->len,
        ));
    }
}

} // verus!

//! Properties that all steps of a plan have.

use vstd::prelude::*;

use crate::device::op::{Inputs, Op, Operand, Weight};

verus! {

/// Every step has the property.
pub open spec fn every(ops: Seq<Op>, p: spec_fn(Op) -> bool) -> bool {
    forall|i: int| 0 <= i < ops.len() ==> p(#[trigger] ops[i])
}

/// Some step has the property.
pub open spec fn some(ops: Seq<Op>, p: spec_fn(Op) -> bool) -> bool {
    exists|i: int| 0 <= i < ops.len() && p(#[trigger] ops[i])
}

/// The first tensor of the model that a step reads.
pub open spec fn weight_read(op: Op) -> Option<Weight> {
    match op {
        Op::Run { inputs: Inputs::Two(_, Operand::Weight(w)), .. } => Some(w),
        Op::Run { inputs: Inputs::Three(_, Operand::Weight(w), _), .. } => Some(w),
        Op::Run { inputs: Inputs::Three(_, _, Operand::Weight(w)), .. } => Some(w),
        Op::Run { inputs: Inputs::Five(_, Operand::Weight(w), _, _, _), .. } => Some(w),
        _ => None,
    }
}

/// What holds of every step of two lists holds of every step of both.
pub proof fn lemma_every_concat(a: Seq<Op>, b: Seq<Op>, p: spec_fn(Op) -> bool)
    requires
        every(a, p),
        every(b, p),
    ensures
        every(a + b, p),
{
    assert forall|i: int| 0 <= i < (a + b).len() implies p(#[trigger] (a + b)[i]) by {
        if i < a.len() {
            assert((a + b)[i] == a[i]);
        } else {
            assert((a + b)[i] == b[i - a.len()]);
        }
    }
}

/// What some step of one of two lists has, some step of both has.
pub proof fn lemma_some_concat(a: Seq<Op>, b: Seq<Op>, p: spec_fn(Op) -> bool)
    requires
        some(a, p) || some(b, p),
    ensures
        some(a + b, p),
{
    if some(a, p) {
        let i = choose|i: int| 0 <= i < a.len() && p(#[trigger] a[i]);
        assert((a + b)[i] == a[i]);
    } else {
        let i = choose|i: int| 0 <= i < b.len() && p(#[trigger] b[i]);
        assert((a + b)[i + a.len()] == b[i]);
    }
}

} // verus!

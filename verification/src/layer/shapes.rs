//! Whether the tensors of decoder layers go together.

use vstd::prelude::*;

use crate::error::{self, Error};
use crate::text::{self, push_usize};

verus! {

/// The widths of a linear layer.
#[derive(Clone, Copy, PartialEq, Eq, Structural, Debug)]
pub struct Widths {
    pub inputs: usize,
    pub outputs: usize,
}

/// The lengths of the norms and the widths of the linear layers of a decoder layer.
#[derive(Clone, Copy, PartialEq, Eq, Structural, Debug)]
pub struct LayerShapes {
    pub hidden: usize,
    pub q_norm: usize,
    pub k_norm: usize,
    pub q: Widths,
    pub k: Widths,
    pub v: Widths,
    pub o: Widths,
    pub post_norm: usize,
    pub gate: Widths,
    pub up: Widths,
    pub down: Widths,
}

/// Widths as they are printed.
pub open spec fn pair_text(w: Widths) -> Seq<char> {
    "("@ + text::decimal(w.inputs as nat) + ","@ + text::decimal(w.outputs as nat) + ")"@
}

fn push_pair(out: &mut String, w: Widths)
    ensures
        final(out)@ == old(out)@ + pair_text(w),
{
    let ghost before = out@;
    out.append("(");
    push_usize(out, w.inputs);
    out.append(",");
    push_usize(out, w.outputs);
    out.append(")");
    proof {
        assert(out@ =~= before + pair_text(w));
    }
}

fn push_number(out: &mut String, label: &str, n: usize)
    ensures
        final(out)@ == old(out)@ + label@ + text::decimal(n as nat),
{
    out.append(label);
    push_usize(out, n);
}

fn push_widths(out: &mut String, label: &str, w: Widths)
    ensures
        final(out)@ == old(out)@ + label@ + pair_text(w),
{
    out.append(label);
    push_pair(out, w);
}

impl LayerShapes {
    /// The linear layers of the attention work on the width of the layer.
    pub open spec fn attention_on_hidden(&self) -> bool {
        &&& self.q.inputs == self.hidden
        &&& self.k.inputs == self.hidden
        &&& self.v.inputs == self.hidden
        &&& self.o.outputs == self.hidden
    }

    /// The heads of the attention have the width of their norms.
    pub open spec fn heads_fit(&self) -> bool {
        &&& self.k_norm == self.q_norm
        &&& self.q.outputs % self.q_norm == 0
        &&& self.k.outputs % self.q_norm == 0
        &&& self.v.outputs == self.k.outputs
    }

    /// The parts of the feed-forward block go together.
    pub open spec fn mlp_fits(&self) -> bool {
        &&& self.post_norm == self.hidden
        &&& self.gate.inputs == self.hidden
        &&& self.up.inputs == self.hidden
        &&& self.gate.outputs == self.up.outputs
        &&& self.down.inputs == self.gate.outputs
        &&& self.down.outputs == self.hidden
    }

    /// The text for an attention of another width.
    pub open spec fn hidden_text(&self) -> Seq<char> {
        "attention hidden shape mismatch: hidden="@ + text::decimal(self.hidden as nat)
            + ", q_in="@ + text::decimal(self.q.inputs as nat) + ", k_in="@ + text::decimal(
            self.k.inputs as nat,
        ) + ", v_in="@ + text::decimal(self.v.inputs as nat) + ", o_out="@ + text::decimal(
            self.o.outputs as nat,
        )
    }

    /// The text for heads of another width.
    pub open spec fn heads_text(&self) -> Seq<char> {
        "attention head shape mismatch: q_out="@ + text::decimal(self.q.outputs as nat)
            + ", k_out="@ + text::decimal(self.k.outputs as nat) + ", v_out="@ + text::decimal(
            self.v.outputs as nat,
        ) + ", q_norm="@ + text::decimal(self.q_norm as nat) + ", k_norm="@ + text::decimal(
            self.k_norm as nat,
        )
    }

    /// The text for an output projection of another width.
    pub open spec fn output_text(&self) -> Seq<char> {
        "o_proj input "@ + text::decimal(self.o.inputs as nat)
            + " does not match q heads * head dim "@ + text::decimal(self.q.outputs as nat)
    }

    /// The text for a feed-forward block that does not go together.
    pub open spec fn mlp_text(&self) -> Seq<char> {
        "MLP shape mismatch: post_norm="@ + text::decimal(self.post_norm as nat) + ", gate="@
            + pair_text(self.gate) + ", up="@ + pair_text(self.up) + ", down="@ + pair_text(
            self.down,
        ) + ", hidden="@ + text::decimal(self.hidden as nat)
    }

    /// The first reason why the tensors of a layer do not go together.
    pub open spec fn fault(&self) -> Option<Seq<char>> {
        if !self.attention_on_hidden() {
            Some(self.hidden_text())
        } else if !self.heads_fit() {
            Some(self.heads_text())
        } else if self.o.inputs != self.q.outputs {
            Some(self.output_text())
        } else if !self.mlp_fits() {
            Some(self.mlp_text())
        } else {
            None
        }
    }

    /// Checks that the tensors of a layer go together. All heads of the queries together
    /// are what the output projection takes.
    pub fn check(&self) -> (checked: Result<(), Error>)
        requires
            self.q_norm == 0 ==> !self.attention_on_hidden() || self.k_norm != 0,
        ensures
            match (checked, self.fault()) {
                (Ok(_), None) => true,
                (Err(e), Some(why)) => error::is_invalid(e, why),
                _ => false,
            },
    {
        if self.q.inputs != self.hidden || self.k.inputs != self.hidden || self.v.inputs
            != self.hidden || self.o.outputs != self.hidden {
            let mut text = String::new();
            push_number(&mut text, "attention hidden shape mismatch: hidden=", self.hidden);
            push_number(&mut text, ", q_in=", self.q.inputs);
            push_number(&mut text, ", k_in=", self.k.inputs);
            push_number(&mut text, ", v_in=", self.v.inputs);
            push_number(&mut text, ", o_out=", self.o.outputs);
            proof {
                assert(text@ =~= self.hidden_text());
            }
            return Err(Error::InvalidInput(text));
        }
        if self.k_norm != self.q_norm || self.q.outputs % self.q_norm != 0 || self.k.outputs
            % self.q_norm != 0 || self.v.outputs != self.k.outputs {
            let mut text = String::new();
            push_number(&mut text, "attention head shape mismatch: q_out=", self.q.outputs);
            push_number(&mut text, ", k_out=", self.k.outputs);
            push_number(&mut text, ", v_out=", self.v.outputs);
            push_number(&mut text, ", q_norm=", self.q_norm);
            push_number(&mut text, ", k_norm=", self.k_norm);
            proof {
                assert(text@ =~= self.heads_text());
            }
            return Err(Error::InvalidInput(text));
        }
        if self.o.inputs != self.q.outputs {
            let mut text = String::new();
            push_number(&mut text, "o_proj input ", self.o.inputs);
            push_number(&mut text, " does not match q heads * head dim ", self.q.outputs);
            proof {
                assert(text@ =~= self.output_text());
            }
            return Err(Error::InvalidInput(text));
        }
        if self.post_norm != self.hidden || self.gate.inputs != self.hidden || self.up.inputs
            != self.hidden || self.gate.outputs != self.up.outputs || self.down.inputs
            != self.gate.outputs || self.down.outputs != self.hidden {
            let mut text = String::new();
            push_number(&mut text, "MLP shape mismatch: post_norm=", self.post_norm);
            push_widths(&mut text, ", gate=", self.gate);
            push_widths(&mut text, ", up=", self.up);
            push_widths(&mut text, ", down=", self.down);
            push_number(&mut text, ", hidden=", self.hidden);
            proof {
                assert(text@ =~= self.mlp_text());
            }
            return Err(Error::InvalidInput(text));
        }
        Ok(())
    }

    /// The text for a layer of other dimensions than the one in front of it.
    pub open spec fn second_text(&self) -> Seq<char> {
        "second layer shape mismatch: q="@ + pair_text(self.q) + ", k="@ + pair_text(self.k)
            + ", v="@ + pair_text(self.v) + ", o="@ + pair_text(self.o) + ", gate="@ + pair_text(
            self.gate,
        ) + ", up="@ + pair_text(self.up) + ", down="@ + pair_text(self.down)
    }

    /// Checks that the layer has the dimensions of the layer in front of it, whose own
    /// tensors go together.
    pub fn check_behind(&self, first: &LayerShapes) -> (checked: Result<(), Error>)
        requires
            first.fault() is None,
        ensures
            match checked {
                Ok(_) => *self == *first,
                Err(e) => *self != *first && error::is_invalid(e, self.second_text()),
            },
    {
        let same: bool = self.hidden == first.hidden && self.q_norm == first.q_norm && self.k_norm
            == first.q_norm && self.q.inputs == first.hidden && self.k.inputs == first.hidden
            && self.v.inputs == first.hidden && self.q.outputs == first.q.outputs
            && self.k.outputs == first.k.outputs && self.v.outputs == first.v.outputs
            && self.o.inputs == first.o.inputs && self.o.outputs == first.o.outputs
            && self.post_norm == first.hidden && self.gate.inputs == first.hidden
            && self.up.inputs == first.hidden && self.gate.outputs == first.gate.outputs
            && self.up.outputs == first.gate.outputs && self.down.inputs == first.gate.outputs
            && self.down.outputs == first.hidden;
        if same {
            return Ok(());
        }
        let mut text = String::new();
        push_widths(&mut text, "second layer shape mismatch: q=", self.q);
        push_widths(&mut text, ", k=", self.k);
        push_widths(&mut text, ", v=", self.v);
        push_widths(&mut text, ", o=", self.o);
        push_widths(&mut text, ", gate=", self.gate);
        push_widths(&mut text, ", up=", self.up);
        push_widths(&mut text, ", down=", self.down);
        proof {
            assert(text@ =~= self.second_text());
        }
        Err(Error::InvalidInput(text))
    }
}

/// The text for a gate and an up projection that do not go together.
pub open spec fn gate_text(gamma: usize, gate: Widths, up: Widths) -> Seq<char> {
    "gate/up shape mismatch: gamma="@ + text::decimal(gamma as nat) + ", gate="@ + pair_text(gate)
        + ", up="@ + pair_text(up)
}

/// The text for a down projection that does not go with the others.
pub open spec fn down_text(gamma: usize, gate: Widths, down: Widths) -> Seq<char> {
    "down shape mismatch: down="@ + pair_text(down) + ", hidden="@ + text::decimal(gamma as nat)
        + ", intermediate="@ + text::decimal(gate.outputs as nat)
}

/// The first reason why the parts of a feed-forward block do not go together.
pub open spec fn block_fault(gamma: usize, gate: Widths, up: Widths, down: Widths) -> Option<
    Seq<char>,
> {
    if gate.inputs != gamma || up.inputs != gamma || gate.outputs != up.outputs {
        Some(gate_text(gamma, gate, up))
    } else if down.inputs != gate.outputs || down.outputs != gamma {
        Some(down_text(gamma, gate, down))
    } else {
        None
    }
}

/// Checks that the parts of a feed-forward block behind a norm of `gamma` entries go
/// together.
pub fn check_mlp_block(gamma: usize, gate: Widths, up: Widths, down: Widths) -> (checked: Result<
    (),
    Error,
>)
    ensures
        match (checked, block_fault(gamma, gate, up, down)) {
            (Ok(_), None) => true,
            (Err(e), Some(why)) => error::is_invalid(e, why),
            _ => false,
        },
{
    if gate.inputs != gamma || up.inputs != gamma || gate.outputs != up.outputs {
        let mut text = String::new();
        push_number(&mut text, "gate/up shape mismatch: gamma=", gamma);
        push_widths(&mut text, ", gate=", gate);
        push_widths(&mut text, ", up=", up);
        proof {
            assert(text@ =~= gate_text(gamma, gate, up));
        }
        return Err(Error::InvalidInput(text));
    }
    if down.inputs != gate.outputs || down.outputs != gamma {
        let mut text = String::new();
        push_widths(&mut text, "down shape mismatch: down=", down);
        push_number(&mut text, ", hidden=", gamma);
        push_number(&mut text, ", intermediate=", gate.outputs);
        proof {
            assert(text@ =~= down_text(gamma, gate, down));
        }
        return Err(Error::InvalidInput(text));
    }
    Ok(())
}

/// Where entry `d` of head `h` of step `s` lies in numbers that are ordered by step.
pub open spec fn by_step(s: int, h: int, d: int, heads: int, head_dim: int) -> int {
    (s * heads + h) * head_dim + d
}

/// Where it lies in numbers that are ordered by head.
pub open spec fn by_head(s: int, h: int, d: int, steps: int, head_dim: int) -> int {
    (h * steps + s) * head_dim + d
}

/// Numbers that are ordered by step, put in the order of the heads. The numbers are given
/// by their bits.
pub fn permute_bshd_to_bhsd(input: &[u32], steps: usize, heads: usize, head_dim: usize) -> (output:
    Vec<u32>)
    requires
        input@.len() == steps * heads * head_dim,
    ensures
        output@.len() == heads * steps * head_dim,
        forall|s: int, h: int, d: int|
            0 <= s < steps && 0 <= h < heads && 0 <= d < head_dim ==> output@[#[trigger] by_head(
                s,
                h,
                d,
                steps as int,
                head_dim as int,
            )] == input@[by_step(s, h, d, heads as int, head_dim as int)],
{
    let mut output: Vec<u32> = Vec::new();
    if head_dim == 0 {
        proof {
            assert(heads * steps * head_dim == 0) by (nonlinear_arith)
                requires
                    head_dim == 0,
            ;
        }
        return output;
    }
    let mut h: usize = 0;
    proof {
        assert(0 * steps * head_dim == 0) by (nonlinear_arith);
    }
    while h < heads
        invariant
            h <= heads,
            head_dim > 0,
            input@.len() == steps * heads * head_dim,
            output@.len() == h * steps * head_dim,
            forall|s: int, g: int, d: int|
                0 <= s < steps && 0 <= g < h && 0 <= d < head_dim ==> output@[#[trigger] by_head(
                    s,
                    g,
                    d,
                    steps as int,
                    head_dim as int,
                )] == input@[by_step(s, g, d, heads as int, head_dim as int)],
        decreases heads - h,
    {
        push_head(&mut output, input, h, steps, heads, head_dim);
        h += 1;
    }
    output
}

/// A place in front of head `h` and step `s` is a place in what is already there.
proof fn lemma_before(t: int, g: int, d: int, s: int, h: int, steps: int, head_dim: int)
    requires
        0 <= t < steps,
        0 <= g,
        0 <= d < head_dim,
        0 <= s <= steps,
        g < h || (g == h && t < s),
    ensures
        0 <= by_head(t, g, d, steps, head_dim) < (h * steps + s) * head_dim,
{
    let a = g * steps + t;
    let b = h * steps + s;
    if g < h {
        assert(g * steps + steps <= h * steps) by (nonlinear_arith)
            requires
                g + 1 <= h,
                steps >= 0,
        ;
    }
    assert(0 <= g * steps) by (nonlinear_arith)
        requires
            0 <= g,
            0 <= steps,
    ;
    assert(0 <= a && a + 1 <= b);
    assert(0 <= a * head_dim + d < b * head_dim) by (nonlinear_arith)
        requires
            0 <= a,
            a + 1 <= b,
            0 <= d < head_dim,
    ;
}

fn push_head(
    output: &mut Vec<u32>,
    input: &[u32],
    h: usize,
    steps: usize,
    heads: usize,
    head_dim: usize,
)
    requires
        h < heads,
        head_dim > 0,
        input@.len() == steps * heads * head_dim,
        old(output)@.len() == h * steps * head_dim,
        forall|s: int, g: int, d: int|
            0 <= s < steps && 0 <= g < h && 0 <= d < head_dim ==> old(output)@[#[trigger] by_head(
                s,
                g,
                d,
                steps as int,
                head_dim as int,
            )] == input@[by_step(s, g, d, heads as int, head_dim as int)],
    ensures
        final(output)@.len() == (h + 1) * steps * head_dim,
        forall|s: int, g: int, d: int|
            0 <= s < steps && 0 <= g < h + 1 && 0 <= d < head_dim
                ==> final(output)@[#[trigger] by_head(s, g, d, steps as int, head_dim as int)]
                == input@[by_step(s, g, d, heads as int, head_dim as int)],
{
    let size: usize = input.len();
    let mut s: usize = 0;
    proof {
        assert((h * steps + 0) * head_dim == h * steps * head_dim) by (nonlinear_arith);
    }
    while s < steps
        invariant
            s <= steps,
            h < heads,
            head_dim > 0,
            size == input@.len(),
            input@.len() == steps * heads * head_dim,
            output@.len() == (h * steps + s) * head_dim,
            forall|t: int, g: int, d: int|
                0 <= t < steps && 0 <= g && 0 <= d < head_dim && (g < h || (g == h && t < s))
                    ==> output@[#[trigger] by_head(t, g, d, steps as int, head_dim as int)]
                    == input@[by_step(t, g, d, heads as int, head_dim as int)],
        decreases steps - s,
    {
        let ghost before = output@;
        proof {
            lemma_step(s as int, h as int, steps as int, heads as int, head_dim as int);
        }
        let start: usize = (s * heads + h) * head_dim;
        let mut d: usize = 0;
        while d < head_dim
            invariant
                d <= head_dim,
                size == input@.len(),
                start == (s * heads + h) * head_dim,
                start + head_dim <= size,
                before.len() == (h * steps + s) * head_dim,
                output@.len() == before.len() + d,
                forall|i: int| 0 <= i < before.len() ==> output@[i] == before[i],
                forall|e: int|
                    0 <= e < d ==> #[trigger] output@[before.len() + e] == input@[start + e],
            decreases head_dim - d,
        {
            output.push(input[start + d]);
            d += 1;
        }
        proof {
            assert((h * steps + s) * head_dim + head_dim == (h * steps + (s + 1)) * head_dim)
                by (nonlinear_arith);
            assert forall|t: int, g: int, e: int|
                0 <= t < steps && 0 <= g && 0 <= e < head_dim && (g < h || (g == h && t < s + 1))
                implies output@[#[trigger] by_head(t, g, e, steps as int, head_dim as int)]
                == input@[by_step(t, g, e, heads as int, head_dim as int)] by {
                if g < h || t < s {
                    lemma_before(t, g, e, s as int, h as int, steps as int, head_dim as int);
                } else {
                    assert(output@[before.len() + e] == input@[start + e]);
                }
            }
        }
        s += 1;
    }
    proof {
        assert((h * steps + steps) * head_dim == (h + 1) * steps * head_dim)
            by (nonlinear_arith);
    }
}

proof fn lemma_step(s: int, h: int, steps: int, heads: int, head_dim: int)
    requires
        0 <= s < steps,
        0 <= h < heads,
        0 <= head_dim,
    ensures
        0 <= s * heads,
        0 <= (s * heads + h) * head_dim,
        s * heads + h < steps * heads,
        (s * heads + h) * head_dim + head_dim <= steps * heads * head_dim,
        s * heads <= steps * heads,
        head_dim > 0 ==> steps * heads <= steps * heads * head_dim,
{
    assert(0 <= s * heads) by (nonlinear_arith)
        requires
            0 <= s,
            0 <= heads,
    ;
    assert(s * heads + heads <= steps * heads) by (nonlinear_arith)
        requires
            s + 1 <= steps,
            0 <= heads,
    ;
    let a = s * heads + h;
    let b = steps * heads;
    if head_dim > 0 {
        assert(b <= b * head_dim) by (nonlinear_arith)
            requires
                0 <= b,
                1 <= head_dim,
        ;
    }
    assert(0 <= a * head_dim) by (nonlinear_arith)
        requires
            0 <= a,
            0 <= head_dim,
    ;
    assert(a * head_dim + head_dim <= b * head_dim) by (nonlinear_arith)
        requires
            a + 1 <= b,
            0 <= head_dim,
    ;
}

} // verus!

//! The weights of a talker layer on the host, and the dimensions that follow from them.

use vstd::prelude::*;

use crate::archive::{self, TensorArchive};
use crate::codec::weights::{
    self, fetch_all, joined, numbered, Form, FormModel, LoadedTensor, Request, RequestModel, Slot,
};
use crate::device::op::{LayerWeight, Weight};
use crate::error::{self, invalid, Error};
use crate::text::{self, push_usize};

verus! {

/// The bits of the norm epsilon of the talker, `1e-6`.
pub const EPSILON: u32 = 0x3586_37bd;

/// The bits of the rotary base, ten thousand.
pub const THETA: u32 = 0x461c_4000;

/// The weights of a layer, each tensor given by the bits of its numbers.
#[derive(Debug)]
pub struct HostLayer {
    pub input_gamma: Vec<u32>,
    pub q_gamma: Vec<u32>,
    pub k_gamma: Vec<u32>,
    pub q_weight: Vec<u32>,
    pub k_weight: Vec<u32>,
    pub v_weight: Vec<u32>,
    pub o_weight: Vec<u32>,
    pub post_attention_gamma: Vec<u32>,
    pub gate_weight: Vec<u32>,
    pub up_weight: Vec<u32>,
    pub down_weight: Vec<u32>,
}

/// The dimensions of a layer. `scale` are the bits of the attention scale.
#[derive(Clone, Copy, PartialEq, Eq, Structural, Debug)]
pub struct Dims {
    pub hidden: usize,
    pub q_heads: usize,
    pub kv_heads: usize,
    pub head_dim: usize,
    pub q_out: usize,
    pub kv_out: usize,
    pub intermediate: usize,
    pub scale: u32,
}

impl Dims {
    /// The widths of the projections are whole numbers of heads.
    pub open spec fn wf(&self) -> bool {
        &&& self.hidden > 0
        &&& self.head_dim > 0
        &&& self.q_out == self.q_heads * self.head_dim
        &&& self.kv_out == self.kv_heads * self.head_dim
    }
}

impl HostLayer {
    /// The tensors in the order in which they are loaded.
    pub open spec fn tensors(&self) -> Seq<Seq<u32>> {
        seq![
            self.input_gamma@,
            self.q_gamma@,
            self.k_gamma@,
            self.q_weight@,
            self.k_weight@,
            self.v_weight@,
            self.o_weight@,
            self.post_attention_gamma@,
            self.gate_weight@,
            self.up_weight@,
            self.down_weight@,
        ]
    }

    /// The sizes of the tensors belong to one layer.
    pub open spec fn consistent(&self) -> bool {
        let hidden = self.input_gamma@.len() as int;
        let head_dim = self.q_gamma@.len() as int;
        let q_out = self.q_weight@.len() as int / hidden;
        let kv_out = self.k_weight@.len() as int / hidden;
        let intermediate = self.gate_weight@.len() as int / hidden;
        &&& head_dim != 0
        &&& q_out % head_dim == 0
        &&& kv_out % head_dim == 0
        &&& self.k_gamma@.len() == head_dim
        &&& self.v_weight@.len() == hidden * kv_out
        &&& self.o_weight@.len() == q_out * hidden
        &&& self.post_attention_gamma@.len() == hidden
        &&& self.up_weight@.len() == hidden * intermediate
        &&& self.down_weight@.len() == intermediate * hidden
    }

    /// The dimensions that follow from the sizes of the tensors.
    pub open spec fn dims(&self, scale: u32) -> Dims {
        let hidden = self.input_gamma@.len() as int;
        let head_dim = self.q_gamma@.len() as int;
        let q_out = self.q_weight@.len() as int / hidden;
        let kv_out = self.k_weight@.len() as int / hidden;
        Dims {
            hidden: hidden as usize,
            q_heads: (q_out / head_dim) as usize,
            kv_heads: (kv_out / head_dim) as usize,
            head_dim: head_dim as usize,
            q_out: q_out as usize,
            kv_out: kv_out as usize,
            intermediate: (self.gate_weight@.len() as int / hidden) as usize,
            scale,
        }
    }
}

/// A request for a vector of layer `index`.
pub open spec fn vector_request(index: usize, part: LayerWeight, name: Seq<char>) -> RequestModel {
    RequestModel { slot: Slot::Tensor(Weight::Layer { index, part }), name, form: FormModel::Vector }
}

/// A request for a matrix of layer `index`.
pub open spec fn matrix_request(index: usize, part: LayerWeight, name: Seq<char>) -> RequestModel {
    RequestModel { slot: Slot::Tensor(Weight::Layer { index, part }), name, form: FormModel::Linear }
}

/// The tensors of layer `index` of the talker, in the order in which they are asked for.
pub open spec fn talker_requests(index: usize) -> Seq<RequestModel> {
    let prefix = "talker.model.layers."@ + text::decimal(index as nat) + ""@;
    seq![
        vector_request(index, LayerWeight::InputGamma, prefix + ".input_layernorm.weight"@),
        vector_request(index, LayerWeight::QueryGamma, prefix + ".self_attn.q_norm.weight"@),
        vector_request(index, LayerWeight::KeyGamma, prefix + ".self_attn.k_norm.weight"@),
        matrix_request(index, LayerWeight::Query, prefix + ".self_attn.q_proj.weight"@),
        matrix_request(index, LayerWeight::Key, prefix + ".self_attn.k_proj.weight"@),
        matrix_request(index, LayerWeight::Value, prefix + ".self_attn.v_proj.weight"@),
        matrix_request(index, LayerWeight::Output, prefix + ".self_attn.o_proj.weight"@),
        vector_request(index, LayerWeight::PostGamma, prefix + ".post_attention_layernorm.weight"@),
        matrix_request(index, LayerWeight::Gate, prefix + ".mlp.gate_proj.weight"@),
        matrix_request(index, LayerWeight::Up, prefix + ".mlp.up_proj.weight"@),
        matrix_request(index, LayerWeight::Down, prefix + ".mlp.down_proj.weight"@),
    ]
}

fn request(index: usize, part: LayerWeight, prefix: &str, suffix: &str, form: Form) -> (r: Request)
    ensures
        r@ == (RequestModel {
            slot: Slot::Tensor(Weight::Layer { index, part }),
            name: prefix@ + suffix@,
            form: form@,
        }),
{
    Request {
        slot: Slot::Tensor(Weight::Layer { index, part }),
        name: joined(prefix, suffix),
        form,
    }
}

fn list_layer(index: usize) -> (list: Vec<Request>)
    ensures
        weights::models(list@) == talker_requests(index),
{
    let prefix: String = numbered("talker.model.layers.", index, "");
    let p: &str = prefix.as_str();
    let mut list: Vec<Request> = Vec::new();
    list.push(
        request(index, LayerWeight::InputGamma, p, ".input_layernorm.weight", Form::Vector),
    );
    list.push(
        request(index, LayerWeight::QueryGamma, p, ".self_attn.q_norm.weight", Form::Vector),
    );
    list.push(
        request(index, LayerWeight::KeyGamma, p, ".self_attn.k_norm.weight", Form::Vector),
    );
    list.push(request(index, LayerWeight::Query, p, ".self_attn.q_proj.weight", Form::Linear));
    list.push(request(index, LayerWeight::Key, p, ".self_attn.k_proj.weight", Form::Linear));
    list.push(request(index, LayerWeight::Value, p, ".self_attn.v_proj.weight", Form::Linear));
    list.push(request(index, LayerWeight::Output, p, ".self_attn.o_proj.weight", Form::Linear));
    list.push(
        request(
            index,
            LayerWeight::PostGamma,
            p,
            ".post_attention_layernorm.weight",
            Form::Vector,
        ),
    );
    list.push(request(index, LayerWeight::Gate, p, ".mlp.gate_proj.weight", Form::Linear));
    list.push(request(index, LayerWeight::Up, p, ".mlp.up_proj.weight", Form::Linear));
    list.push(request(index, LayerWeight::Down, p, ".mlp.down_proj.weight", Form::Linear));
    proof {
        assert(weights::models(list@) =~= talker_requests(index));
    }
    list
}

fn take_last(list: &mut Vec<LoadedTensor>) -> (values: Vec<u32>)
    requires
        old(list)@.len() > 0,
    ensures
        values@ == old(list)@.last().values@,
        final(list)@ == old(list)@.drop_last(),
{
    match list.pop() {
        Some(tensor) => tensor.values,
        None => Vec::new(),
    }
}

/// The numbers of loaded tensors, without what they are for.
pub open spec fn numbers(list: Seq<(Slot, Seq<u32>)>) -> Seq<Seq<u32>> {
    list.map_values(|t: (Slot, Seq<u32>)| t.1)
}

/// Reads the tensors of layer `index` of the talker. The first one that is missing or
/// unusable decides the error.
pub fn load_layer(archive: &TensorArchive, index: usize) -> (layer: Result<HostLayer, Error>)
    ensures
        archive.contents() is None ==> (layer matches Err(e) && archive::is_parse_error(e)),
        archive.contents() matches Some(tensors) ==> match (
            layer,
            weights::fetched_all(tensors, talker_requests(index)),
        ) {
            (Ok(got), Ok(expected)) => got.tensors() == numbers(expected),
            (Err(e), Err(why)) => error::is_invalid(e, why),
            _ => false,
        },
{
    let requests: Vec<Request> = list_layer(index);
    proof {
        assert(requests@.len() == talker_requests(index).len());
    }
    let mut list: Vec<LoadedTensor> = match fetch_all(archive, &requests) {
        Ok(list) => list,
        Err(e) => {
            return Err(e);
        },
    };
    let ghost all = list@;
    let down_weight = take_last(&mut list);
    let up_weight = take_last(&mut list);
    let gate_weight = take_last(&mut list);
    let post_attention_gamma = take_last(&mut list);
    let o_weight = take_last(&mut list);
    let v_weight = take_last(&mut list);
    let k_weight = take_last(&mut list);
    let q_weight = take_last(&mut list);
    let k_gamma = take_last(&mut list);
    let q_gamma = take_last(&mut list);
    let input_gamma = take_last(&mut list);
    let layer = HostLayer {
        input_gamma,
        q_gamma,
        k_gamma,
        q_weight,
        k_weight,
        v_weight,
        o_weight,
        post_attention_gamma,
        gate_weight,
        up_weight,
        down_weight,
    };
    proof {
        assert(layer.tensors() =~= numbers(weights::loaded(all)));
    }
    Ok(layer)
}

/// The dimensions of a layer, where its tensors belong together. `scale` are the bits of
/// the attention scale, one over the square root of the width of a head.
pub fn infer_dims(layer: &HostLayer, scale: u32) -> (dims: Result<Dims, Error>)
    requires
        layer.input_gamma@.len() > 0,
    ensures
        match dims {
            Ok(d) => layer.consistent() && d == layer.dims(scale) && d.wf(),
            Err(e) => !layer.consistent() && error::is_invalid(e, "invalid layer dimensions"@),
        },
{
    let hidden: usize = layer.input_gamma.len();
    let head_dim: usize = layer.q_gamma.len();
    let q_out: usize = layer.q_weight.len() / hidden;
    let kv_out: usize = layer.k_weight.len() / hidden;
    let intermediate: usize = layer.gate_weight.len() / hidden;
    proof {
        lemma_quotient(layer.q_weight@.len() as int, hidden as int);
        lemma_quotient(layer.k_weight@.len() as int, hidden as int);
        lemma_quotient(layer.gate_weight@.len() as int, hidden as int);
    }
    if head_dim == 0 || q_out % head_dim != 0 || kv_out % head_dim != 0 || layer.k_gamma.len()
        != head_dim || layer.v_weight.len() != hidden * kv_out || layer.o_weight.len() != q_out
        * hidden || layer.post_attention_gamma.len() != hidden || layer.up_weight.len() != hidden
        * intermediate || layer.down_weight.len() != intermediate * hidden {
        return Err(invalid("invalid layer dimensions"));
    }
    proof {
        vstd::arithmetic::div_mod::lemma_fundamental_div_mod(q_out as int, head_dim as int);
        vstd::arithmetic::div_mod::lemma_fundamental_div_mod(kv_out as int, head_dim as int);
        assert(head_dim * (q_out / head_dim) == (q_out / head_dim) * head_dim)
            by (nonlinear_arith);
        assert(head_dim * (kv_out / head_dim) == (kv_out / head_dim) * head_dim)
            by (nonlinear_arith);
    }
    Ok(
        Dims {
            hidden,
            q_heads: q_out / head_dim,
            kv_heads: kv_out / head_dim,
            head_dim,
            q_out,
            kv_out,
            intermediate,
            scale,
        },
    )
}

proof fn lemma_quotient(len: int, width: int)
    requires
        0 <= len <= usize::MAX,
        width > 0,
    ensures
        0 <= width * (len / width) <= len,
        (len / width) * width == width * (len / width),
{
    vstd::arithmetic::div_mod::lemma_fundamental_div_mod(len, width);
    assert((len / width) * width == width * (len / width)) by (nonlinear_arith);
    assert(width * (len / width) >= 0) by (nonlinear_arith)
        requires
            width > 0,
            len / width >= 0,
    ;
}

/// Two layers have the same dimensions, as far as a stack of layers asks.
pub open spec fn same_dims(a: Dims, b: Dims) -> bool {
    &&& a.hidden == b.hidden
    &&& a.q_heads == b.q_heads
    &&& a.kv_heads == b.kv_heads
    &&& a.head_dim == b.head_dim
    &&& a.intermediate == b.intermediate
}

/// The text for a layer whose dimensions differ from those of the first.
pub open spec fn mismatch_text(index: nat, d: Dims) -> Seq<char> {
    "layer "@ + text::decimal(index) + " dims mismatch: hidden="@ + text::decimal(d.hidden as nat)
        + ", q_heads="@ + text::decimal(d.q_heads as nat) + ", kv_heads="@ + text::decimal(
        d.kv_heads as nat,
    ) + ", head_dim="@ + text::decimal(d.head_dim as nat) + ", intermediate="@ + text::decimal(
        d.intermediate as nat,
    )
}

/// Checks that layer `index` has the dimensions of the first layer.
pub fn validate_dims(index: usize, actual: Dims, expected: Dims) -> (checked: Result<(), Error>)
    ensures
        match checked {
            Ok(_) => same_dims(actual, expected),
            Err(e) => !same_dims(actual, expected) && error::is_invalid(
                e,
                mismatch_text(index as nat, actual),
            ),
        },
{
    if actual.hidden != expected.hidden || actual.q_heads != expected.q_heads || actual.kv_heads
        != expected.kv_heads || actual.head_dim != expected.head_dim || actual.intermediate
        != expected.intermediate {
        let mut text = "layer ".to_owned();
        push_usize(&mut text, index);
        text.append(" dims mismatch: hidden=");
        push_usize(&mut text, actual.hidden);
        text.append(", q_heads=");
        push_usize(&mut text, actual.q_heads);
        text.append(", kv_heads=");
        push_usize(&mut text, actual.kv_heads);
        text.append(", head_dim=");
        push_usize(&mut text, actual.head_dim);
        text.append(", intermediate=");
        push_usize(&mut text, actual.intermediate);
        return Err(Error::InvalidInput(text));
    }
    Ok(())
}

/// Reads layer `index` of a stack and checks that it fits the others, if `expected` says
/// what those have.
pub fn load_host_layer(
    archive: &TensorArchive,
    index: usize,
    expected: Option<Dims>,
    scale: u32,
) -> (layer: Result<HostLayer, Error>)
    ensures
        archive.contents() is None ==> (layer matches Err(e) && archive::is_parse_error(e)),
        archive.contents() matches Some(tensors) ==> match weights::fetched_all(
            tensors,
            talker_requests(index),
        ) {
            Err(why) => layer matches Err(e) && error::is_invalid(e, why),
            Ok(found) => match layer {
                Ok(got) => {
                    &&& got.tensors() == numbers(found)
                    &&& got.input_gamma@.len() > 0
                    &&& got.consistent()
                    &&& expected matches Some(others) ==> same_dims(got.dims(scale), others)
                },
                Err(e) => exists|got: HostLayer| #[trigger]
                    got.tensors() == numbers(found) && refused(got, index, expected, scale, e),
            },
        },
{
    let layer: HostLayer = match load_layer(archive, index) {
        Ok(layer) => layer,
        Err(e) => {
            return Err(e);
        },
    };
    if layer.input_gamma.len() == 0 {
        let e = invalid("invalid layer dimensions");
        proof {
            assert(refused(layer, index, expected, scale, e));
        }
        return Err(e);
    }
    let dims: Dims = match infer_dims(&layer, scale) {
        Ok(dims) => dims,
        Err(e) => {
            proof {
                assert(refused(layer, index, expected, scale, e));
            }
            return Err(e);
        },
    };
    match expected {
        Some(others) => match validate_dims(index, dims, others) {
            Ok(_) => Ok(layer),
            Err(e) => {
                proof {
                    assert(refused(layer, index, expected, scale, e));
                }
                Err(e)
            },
        },
        None => Ok(layer),
    }
}

/// Why a layer that could be read is not usable.
pub open spec fn refused(
    layer: HostLayer,
    index: usize,
    expected: Option<Dims>,
    scale: u32,
    e: Error,
) -> bool {
    if layer.input_gamma@.len() == 0 || !layer.consistent() {
        error::is_invalid(e, "invalid layer dimensions"@)
    } else {
        &&& expected is Some
        &&& !same_dims(layer.dims(scale), expected->0)
        &&& error::is_invalid(e, mismatch_text(index as nat, layer.dims(scale)))
    }
}

/// The first `selected` columns of a matrix of `in_dim` rows and `out_dim` columns.
pub open spec fn leading_columns(
    values: Seq<u32>,
    in_dim: int,
    out_dim: int,
    selected: int,
) -> Seq<u32> {
    Seq::new(
        (in_dim * selected) as nat,
        |i: int| values[(i / selected) * out_dim + i % selected],
    )
}

/// The first `selected` columns of a matrix of `in_dim` rows and `out_dim` columns.
pub fn select_output_columns(values: &[u32], in_dim: usize, out_dim: usize, selected: usize)
    -> (out: Vec<u32>)
    requires
        in_dim * selected <= usize::MAX,
        in_dim == 0 || selected == 0 || (in_dim - 1) * out_dim + selected <= values@.len(),
    ensures
        out@ == leading_columns(values@, in_dim as int, out_dim as int, selected as int),
{
    let size: usize = values.len();
    let mut out: Vec<u32> = Vec::new();
    let mut row: usize = 0;
    proof {
        assert(0 * selected == 0);
    }
    while row < in_dim
        invariant
            row <= in_dim,
            size == values@.len(),
            in_dim == 0 || selected == 0 || (in_dim - 1) * out_dim + selected <= values@.len(),
            out@.len() == row * selected,
            forall|i: int|
                0 <= i < row * selected ==> #[trigger] out@[i] == values@[(i / (selected as int))
                    * out_dim + i % (selected as int)],
        decreases in_dim - row,
    {
        let mut col: usize = 0;
        while col < selected
            invariant
                row < in_dim,
                col <= selected,
                size == values@.len(),
                in_dim == 0 || selected == 0 || (in_dim - 1) * out_dim + selected <= values@.len(),
                out@.len() == row * selected + col,
                forall|i: int|
                    0 <= i < row * selected + col ==> #[trigger] out@[i] == values@[(i / (
                    selected as int)) * out_dim + i % (selected as int)],
            decreases selected - col,
        {
            proof {
                assert(0 <= row * out_dim <= (in_dim - 1) * out_dim) by (nonlinear_arith)
                    requires
                        0 <= row <= in_dim - 1,
                        0 <= out_dim,
                ;
                crate::tensor::lemma_split(row as int, selected as int, col as int);
            }
            out.push(values[row * out_dim + col]);
            col += 1;
        }
        proof {
            assert(row * selected + selected == (row + 1) * selected) by (nonlinear_arith);
        }
        row += 1;
    }
    proof {
        assert(out@ =~= leading_columns(
            values@,
            in_dim as int,
            out_dim as int,
            selected as int,
        ));
    }
    out
}

} // verus!

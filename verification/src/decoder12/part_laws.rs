//! The decoder on the host reads the tensors that the codec on the device reads.

use vstd::prelude::*;

use crate::codec::weight_laws::{leaf, root};
use crate::codec::weights::Slot;
use crate::decoder12::parts::{self, PartModel};
use crate::device::op::{LayerWeight, ResidualWeight, UpsampleWeight, Weight};
use crate::text;

verus! {

/// A list has a part of that name and rank, which may be missing or not.
pub open spec fn has_part(
    list: Seq<PartModel>,
    name: Seq<char>,
    rank: usize,
    optional: bool,
) -> bool {
    exists|i: int|
        0 <= i < list.len() && #[trigger] list[i] == (PartModel { name, rank, optional })
}

proof fn lemma_concat(a: Seq<PartModel>, b: Seq<PartModel>)
    ensures
        forall|name: Seq<char>, rank: usize, optional: bool| #[trigger]
            has_part(a + b, name, rank, optional) <==> has_part(a, name, rank, optional)
                || has_part(b, name, rank, optional),
{
    assert forall|name: Seq<char>, rank: usize, optional: bool| #[trigger]
        has_part(a + b, name, rank, optional) <==> has_part(a, name, rank, optional) || has_part(
        b,
        name,
        rank,
        optional,
    ) by {
        let part = PartModel { name, rank, optional };
        if has_part(a, name, rank, optional) {
            let i = choose|i: int| 0 <= i < a.len() && #[trigger] a[i] == part;
            assert((a + b)[i] == a[i]);
        }
        if has_part(b, name, rank, optional) {
            let i = choose|i: int| 0 <= i < b.len() && #[trigger] b[i] == part;
            assert((a + b)[i + a.len()] == b[i]);
        }
        if has_part(a + b, name, rank, optional) {
            let i = choose|i: int| 0 <= i < (a + b).len() && #[trigger] (a + b)[i] == part;
            if i < a.len() {
                assert(a[i] == part);
            } else {
                assert(b[i - a.len()] == part);
            }
        }
    }
}

proof fn lemma_need(name: Seq<char>, rank: usize)
    ensures
        has_part(parts::need(name, rank), name, rank, false),
        has_part(parts::may(name, rank), name, rank, true),
{
    assert(parts::need(name, rank)[0] == (PartModel { name, rank, optional: false }));
    assert(parts::may(name, rank)[0] == (PartModel { name, rank, optional: true }));
}

proof fn lemma_two(
    a: Seq<PartModel>,
    first: Seq<char>,
    m: usize,
    second: Seq<char>,
    n: usize,
    optional: bool,
)
    requires
        a == parts::need(first, m) + (if optional {
            parts::may(second, n)
        } else {
            parts::need(second, n)
        }),
    ensures
        has_part(a, first, m, false),
        has_part(a, second, n, optional),
{
    lemma_need(first, m);
    lemma_need(second, n);
    lemma_concat(
        parts::need(first, m),
        if optional {
            parts::may(second, n)
        } else {
            parts::need(second, n)
        },
    );
}

proof fn lemma_snake(prefix: Seq<char>)
    ensures
        has_part(parts::snake_parts(prefix), prefix + ".alpha"@, 1, false),
        has_part(parts::snake_parts(prefix), prefix + ".beta"@, 1, false),
{
    lemma_two(parts::snake_parts(prefix), prefix + ".alpha"@, 1, prefix + ".beta"@, 1, false);
}

proof fn lemma_conv(prefix: Seq<char>)
    ensures
        has_part(parts::causal_conv_parts(prefix), prefix + ".conv.weight"@, 3, false),
        has_part(parts::causal_conv_parts(prefix), prefix + ".conv.bias"@, 1, true),
        has_part(parts::trans_conv_parts(prefix), prefix + ".conv.weight"@, 3, false),
        has_part(parts::trans_conv_parts(prefix), prefix + ".conv.bias"@, 1, true),
{
    let weight = prefix + ".conv.weight"@;
    let bias = prefix + ".conv.bias"@;
    lemma_two(parts::causal_conv_parts(prefix), weight, 3, bias, 1, true);
    lemma_two(parts::trans_conv_parts(prefix), weight, 3, bias, 1, true);
}

/// What a residual unit reads on the host.
proof fn lemma_residual(block: usize, unit: usize, role: ResidualWeight, prefix: Seq<char>)
    requires
        prefix == root(
            Slot::Tensor(Weight::Residual { block, unit, role: ResidualWeight::Alpha1 }),
        ),
    ensures
        ({
            let slot = Slot::Tensor(Weight::Residual { block, unit, role });
            has_part(
                parts::residual_parts(prefix),
                root(slot) + leaf(slot),
                if role == ResidualWeight::Conv1Weight || role == ResidualWeight::Conv2Weight {
                    3
                } else {
                    1
                },
                role == ResidualWeight::Conv1Bias || role == ResidualWeight::Conv2Bias,
            )
        }),
{
    reveal_strlit(".act1");
    reveal_strlit(".act2");
    reveal_strlit(".conv1");
    reveal_strlit(".conv2");
    reveal_strlit(".alpha");
    reveal_strlit(".beta");
    reveal_strlit(".conv.weight");
    reveal_strlit(".conv.bias");
    reveal_strlit(".act1.alpha");
    reveal_strlit(".act1.beta");
    reveal_strlit(".act2.alpha");
    reveal_strlit(".act2.beta");
    reveal_strlit(".conv1.conv.weight");
    reveal_strlit(".conv1.conv.bias");
    reveal_strlit(".conv2.conv.weight");
    reveal_strlit(".conv2.conv.bias");
    assert(prefix + ".act1"@ + ".alpha"@ =~= prefix + ".act1.alpha"@);
    assert(prefix + ".act1"@ + ".beta"@ =~= prefix + ".act1.beta"@);
    assert(prefix + ".act2"@ + ".alpha"@ =~= prefix + ".act2.alpha"@);
    assert(prefix + ".act2"@ + ".beta"@ =~= prefix + ".act2.beta"@);
    assert(prefix + ".conv1"@ + ".conv.weight"@ =~= prefix + ".conv1.conv.weight"@);
    assert(prefix + ".conv1"@ + ".conv.bias"@ =~= prefix + ".conv1.conv.bias"@);
    assert(prefix + ".conv2"@ + ".conv.weight"@ =~= prefix + ".conv2.conv.weight"@);
    assert(prefix + ".conv2"@ + ".conv.bias"@ =~= prefix + ".conv2.conv.bias"@);
    let a = parts::snake_parts(prefix + ".act1"@);
    let b = parts::causal_conv_parts(prefix + ".conv1"@);
    let c = parts::snake_parts(prefix + ".act2"@);
    let d = parts::causal_conv_parts(prefix + ".conv2"@);
    lemma_snake(prefix + ".act1"@);
    lemma_conv(prefix + ".conv1"@);
    lemma_snake(prefix + ".act2"@);
    lemma_conv(prefix + ".conv2"@);
    lemma_concat(a, b);
    lemma_concat(a + b, c);
    lemma_concat(a + b + c, d);
}

proof fn lemma_block(block: usize, unit: usize, role: ResidualWeight, count: nat)
    requires
        unit < 3,
        block < count,
    ensures
        ({
            let slot = Slot::Tensor(Weight::Residual { block, unit, role });
            has_part(
                parts::blocks_parts(count),
                root(slot) + leaf(slot),
                if role == ResidualWeight::Conv1Weight || role == ResidualWeight::Conv2Weight {
                    3
                } else {
                    1
                },
                role == ResidualWeight::Conv1Bias || role == ResidualWeight::Conv2Bias,
            )
        }),
    decreases count,
{
    let prefix = "decoder.decoder."@ + text::decimal(count) + ".block"@;
    let before = parts::blocks_parts((count - 1) as nat);
    if block < count - 1 {
        lemma_block(block, unit, role, (count - 1) as nat);
    } else {
        let a = parts::snake_parts(prefix + ".0"@);
        let b = parts::trans_conv_parts(prefix + ".1"@);
        let c = parts::residual_parts(prefix + ".2"@);
        let d = parts::residual_parts(prefix + ".3"@);
        let e = parts::residual_parts(prefix + ".4"@);
        if unit == 0 {
            lemma_residual(block, unit, role, prefix + ".2"@);
        } else if unit == 1 {
            lemma_residual(block, unit, role, prefix + ".3"@);
        } else {
            lemma_residual(block, unit, role, prefix + ".4"@);
        }
        lemma_concat(a, b);
        lemma_concat(a + b, c);
        lemma_concat(a + b + c, d);
        lemma_concat(a + b + c + d, e);
    }
    lemma_concat(before, parts::block_parts(prefix));
}

/// The rank that a tensor of a layer is stored with.
pub open spec fn layer_rank(part: LayerWeight) -> usize {
    match part {
        LayerWeight::Query | LayerWeight::Key | LayerWeight::Value | LayerWeight::Output
        | LayerWeight::Gate | LayerWeight::Up | LayerWeight::Down => 2,
        _ => 1,
    }
}

proof fn lemma_layer(index: usize, part: LayerWeight, prefix: Seq<char>)
    requires
        part != LayerWeight::QueryGamma,
        part != LayerWeight::KeyGamma,
        prefix == root(Slot::Tensor(Weight::Layer { index, part })),
    ensures
        ({
            let slot = Slot::Tensor(Weight::Layer { index, part });
            has_part(parts::layer_parts(prefix), root(slot) + leaf(slot), layer_rank(part), false)
        }),
{
    reveal_strlit(".weight");
    reveal_strlit(".input_layernorm");
    reveal_strlit(".input_layernorm.weight");
    reveal_strlit(".post_attention_layernorm");
    reveal_strlit(".post_attention_layernorm.weight");
    reveal_strlit(".self_attn.q_proj");
    reveal_strlit(".self_attn.q_proj.weight");
    reveal_strlit(".self_attn.k_proj");
    reveal_strlit(".self_attn.k_proj.weight");
    reveal_strlit(".self_attn.v_proj");
    reveal_strlit(".self_attn.v_proj.weight");
    reveal_strlit(".self_attn.o_proj");
    reveal_strlit(".self_attn.o_proj.weight");
    reveal_strlit(".mlp.gate_proj");
    reveal_strlit(".mlp.gate_proj.weight");
    reveal_strlit(".mlp.up_proj");
    reveal_strlit(".mlp.up_proj.weight");
    reveal_strlit(".mlp.down_proj");
    reveal_strlit(".mlp.down_proj.weight");
    let w = ".weight"@;
    assert(prefix + ".input_layernorm"@ + w =~= prefix + ".input_layernorm.weight"@);
    assert(prefix + ".post_attention_layernorm"@ + w =~= prefix
        + ".post_attention_layernorm.weight"@);
    assert(prefix + ".self_attn.q_proj"@ + w =~= prefix + ".self_attn.q_proj.weight"@);
    assert(prefix + ".self_attn.k_proj"@ + w =~= prefix + ".self_attn.k_proj.weight"@);
    assert(prefix + ".self_attn.v_proj"@ + w =~= prefix + ".self_attn.v_proj.weight"@);
    assert(prefix + ".self_attn.o_proj"@ + w =~= prefix + ".self_attn.o_proj.weight"@);
    assert(prefix + ".mlp.gate_proj"@ + w =~= prefix + ".mlp.gate_proj.weight"@);
    assert(prefix + ".mlp.up_proj"@ + w =~= prefix + ".mlp.up_proj.weight"@);
    assert(prefix + ".mlp.down_proj"@ + w =~= prefix + ".mlp.down_proj.weight"@);
    let a = parts::rms_norm_parts(prefix + ".input_layernorm"@);
    let b = parts::rms_norm_parts(prefix + ".post_attention_layernorm"@);
    let c = parts::plain_linear_parts(prefix + ".self_attn.q_proj"@);
    let d = parts::plain_linear_parts(prefix + ".self_attn.k_proj"@);
    let e = parts::plain_linear_parts(prefix + ".self_attn.v_proj"@);
    let f = parts::plain_linear_parts(prefix + ".self_attn.o_proj"@);
    let g = parts::need(prefix + ".self_attn_layer_scale.scale"@, 1);
    let h = parts::plain_linear_parts(prefix + ".mlp.gate_proj"@);
    let i = parts::plain_linear_parts(prefix + ".mlp.up_proj"@);
    let j = parts::plain_linear_parts(prefix + ".mlp.down_proj"@);
    let k = parts::need(prefix + ".mlp_layer_scale.scale"@, 1);
    let slot = Slot::Tensor(Weight::Layer { index, part });
    lemma_need(root(slot) + leaf(slot), layer_rank(part));
    lemma_concat(a, b);
    lemma_concat(a + b, c);
    lemma_concat(a + b + c, d);
    lemma_concat(a + b + c + d, e);
    lemma_concat(a + b + c + d + e, f);
    lemma_concat(a + b + c + d + e + f, g);
    lemma_concat(a + b + c + d + e + f + g, h);
    lemma_concat(a + b + c + d + e + f + g + h, i);
    lemma_concat(a + b + c + d + e + f + g + h + i, j);
    lemma_concat(a + b + c + d + e + f + g + h + i + j, k);
}

proof fn lemma_layers(index: usize, part: LayerWeight, count: nat)
    requires
        part != LayerWeight::QueryGamma,
        part != LayerWeight::KeyGamma,
        index < count,
    ensures
        ({
            let slot = Slot::Tensor(Weight::Layer { index, part });
            has_part(parts::layers_parts(count), root(slot) + leaf(slot), layer_rank(part), false)
        }),
    decreases count,
{
    reveal_strlit("");
    let plain = "decoder.pre_transformer.layers."@ + text::decimal((count - 1) as nat);
    assert(plain + ""@ =~= plain);
    if index < count - 1 {
        lemma_layers(index, part, (count - 1) as nat);
    } else {
        lemma_layer(index, part, plain);
    }
    lemma_concat(parts::layers_parts((count - 1) as nat), parts::layer_parts(plain));
}

proof fn lemma_codebooks(index: usize, count: nat)
    requires
        0 < index <= count,
    ensures
        has_part(
            parts::rest_codebooks_parts(count),
            root(Slot::Codebook(index)) + ".embedding_sum"@,
            2,
            false,
        ),
        has_part(
            parts::rest_codebooks_parts(count),
            root(Slot::Usage(index)) + ".cluster_usage"@,
            1,
            false,
        ),
    decreases count,
{
    let prefix = "decoder.quantizer.rvq_rest.vq.layers."@ + text::decimal((count - 1) as nat)
        + "._codebook"@;
    if index < count {
        lemma_codebooks(index, (count - 1) as nat);
    } else {
        lemma_two(
            parts::codebook_parts(prefix),
            prefix + ".embedding_sum"@,
            2,
            prefix + ".cluster_usage"@,
            1,
            false,
        );
    }
    lemma_concat(parts::rest_codebooks_parts((count - 1) as nat), parts::codebook_parts(prefix));
}

/// The rank that a tensor of an upsampling stage is stored with.
pub open spec fn stage_rank(tensor: UpsampleWeight) -> usize {
    match tensor {
        UpsampleWeight::TransWeight | UpsampleWeight::DepthwiseWeight => 3,
        UpsampleWeight::Pointwise1Weight | UpsampleWeight::Pointwise2Weight => 2,
        _ => 1,
    }
}

/// The biases of a stage that may be missing.
pub open spec fn may_be_missing(tensor: UpsampleWeight) -> bool {
    tensor == UpsampleWeight::TransBias || tensor == UpsampleWeight::DepthwiseBias || tensor
        == UpsampleWeight::Pointwise1Bias || tensor == UpsampleWeight::Pointwise2Bias
}

proof fn lemma_stage(stage: usize, tensor: UpsampleWeight, prefix: Seq<char>)
    requires
        prefix == root(Slot::Tensor(Weight::Upsample { stage, tensor })),
    ensures
        ({
            let slot = Slot::Tensor(Weight::Upsample { stage, tensor });
            has_part(
                parts::stage_parts(prefix),
                root(slot) + leaf(slot),
                stage_rank(tensor),
                may_be_missing(tensor),
            )
        }),
{
    reveal_strlit(".0");
    reveal_strlit(".1");
    reveal_strlit(".conv.weight");
    reveal_strlit(".conv.bias");
    reveal_strlit(".0.conv.weight");
    reveal_strlit(".0.conv.bias");
    reveal_strlit(".dwconv");
    reveal_strlit(".1.dwconv.conv.weight");
    reveal_strlit(".1.dwconv.conv.bias");
    reveal_strlit(".norm");
    reveal_strlit(".weight");
    reveal_strlit(".bias");
    reveal_strlit(".1.norm.weight");
    reveal_strlit(".1.norm.bias");
    reveal_strlit(".pwconv1");
    reveal_strlit(".pwconv2");
    reveal_strlit(".1.pwconv1.weight");
    reveal_strlit(".1.pwconv1.bias");
    reveal_strlit(".1.pwconv2.weight");
    reveal_strlit(".1.pwconv2.bias");
    reveal_strlit(".gamma");
    reveal_strlit(".1.gamma");
    let zero = prefix + ".0"@;
    let one = prefix + ".1"@;
    assert(zero + ".conv.weight"@ =~= prefix + ".0.conv.weight"@);
    assert(zero + ".conv.bias"@ =~= prefix + ".0.conv.bias"@);
    assert(one + ".dwconv"@ + ".conv.weight"@ =~= prefix + ".1.dwconv.conv.weight"@);
    assert(one + ".dwconv"@ + ".conv.bias"@ =~= prefix + ".1.dwconv.conv.bias"@);
    assert(one + ".norm"@ + ".weight"@ =~= prefix + ".1.norm.weight"@);
    assert(one + ".norm"@ + ".bias"@ =~= prefix + ".1.norm.bias"@);
    assert(one + ".pwconv1"@ + ".weight"@ =~= prefix + ".1.pwconv1.weight"@);
    assert(one + ".pwconv1"@ + ".bias"@ =~= prefix + ".1.pwconv1.bias"@);
    assert(one + ".pwconv2"@ + ".weight"@ =~= prefix + ".1.pwconv2.weight"@);
    assert(one + ".pwconv2"@ + ".bias"@ =~= prefix + ".1.pwconv2.bias"@);
    assert(one + ".gamma"@ =~= prefix + ".1.gamma"@);
    let a = parts::causal_conv_parts(one + ".dwconv"@);
    let b = parts::layer_norm_parts(one + ".norm"@);
    let c = parts::linear_parts(one + ".pwconv1"@);
    let d = parts::linear_parts(one + ".pwconv2"@);
    let e = parts::need(one + ".gamma"@, 1);
    lemma_conv(zero);
    lemma_conv(one + ".dwconv"@);
    lemma_two(b, one + ".norm"@ + ".weight"@, 1, one + ".norm"@ + ".bias"@, 1, false);
    lemma_two(c, one + ".pwconv1"@ + ".weight"@, 2, one + ".pwconv1"@ + ".bias"@, 1, true);
    lemma_two(d, one + ".pwconv2"@ + ".weight"@, 2, one + ".pwconv2"@ + ".bias"@, 1, true);
    lemma_need(one + ".gamma"@, 1);
    lemma_concat(a, b);
    lemma_concat(a + b, c);
    lemma_concat(a + b + c, d);
    lemma_concat(a + b + c + d, e);
    lemma_concat(parts::trans_conv_parts(zero), parts::convnext_parts(one));
}

proof fn lemma_stages(stage: usize, tensor: UpsampleWeight, count: nat)
    requires
        stage < count,
    ensures
        ({
            let slot = Slot::Tensor(Weight::Upsample { stage, tensor });
            has_part(
                parts::stages_parts(count),
                root(slot) + leaf(slot),
                stage_rank(tensor),
                may_be_missing(tensor),
            )
        }),
    decreases count,
{
    reveal_strlit("");
    let plain = "decoder.upsample."@ + text::decimal((count - 1) as nat);
    assert(plain + ""@ =~= plain);
    if stage < count - 1 {
        lemma_stages(stage, tensor, (count - 1) as nat);
    } else {
        lemma_stage(stage, tensor, plain);
    }
    lemma_concat(parts::stages_parts((count - 1) as nat), parts::stage_parts(plain));
}

/// The decoder on the host reads the same stored tensors as the codec on the device, with the
/// rank that each of them has: the codebooks with their usage, the tensors of the layers and
/// of the upsampling stages, and those of the three residual units of every block, for as many
/// of each as there are. Only the biases of convolutions and of linear layers may be missing.
pub proof fn host_and_device_read_the_same_tensors(
    rest: nat,
    layers: nat,
    stages: nat,
    blocks: nat,
    codebook: usize,
    layer: usize,
    part: LayerWeight,
    stage: usize,
    tensor: UpsampleWeight,
    block: usize,
    unit: usize,
    role: ResidualWeight,
)
    requires
        stage < stages,
        codebook <= rest,
        layer < layers,
        part != LayerWeight::QueryGamma,
        part != LayerWeight::KeyGamma,
        block < blocks,
        unit < 3,
    ensures
        ({
            let list = parts::decoder_parts(rest, layers, stages, blocks);
            let name = |slot: Slot| root(slot) + leaf(slot);
            &&& has_part(list, name(Slot::Codebook(codebook)), 2, false)
            &&& has_part(list, name(Slot::Usage(codebook)), 1, false)
            &&& has_part(
                list,
                name(Slot::Tensor(Weight::Layer { index: layer, part })),
                layer_rank(part),
                false,
            )
            &&& has_part(
                list,
                name(Slot::Tensor(Weight::Upsample { stage, tensor })),
                stage_rank(tensor),
                may_be_missing(tensor),
            )
            &&& has_part(
                list,
                name(Slot::Tensor(Weight::Residual { block, unit, role })),
                if role == ResidualWeight::Conv1Weight || role == ResidualWeight::Conv2Weight {
                    3
                } else {
                    1
                },
                role == ResidualWeight::Conv1Bias || role == ResidualWeight::Conv2Bias,
            )
        }),
{
    let first = "decoder.quantizer.rvq_first.vq.layers.0._codebook"@;
    let a = parts::codebook_parts(first);
    let b = parts::rest_codebooks_parts(rest);
    let c = parts::projection_parts("decoder.quantizer.rvq_first.output_proj"@);
    let d = parts::projection_parts("decoder.quantizer.rvq_rest.output_proj"@);
    let e = parts::causal_conv_parts("decoder.pre_conv"@);
    let f = parts::linear_parts("decoder.pre_transformer.input_proj"@);
    let g = parts::layers_parts(layers);
    let h = parts::rms_norm_parts("decoder.pre_transformer.norm"@);
    let i = parts::linear_parts("decoder.pre_transformer.output_proj"@);
    let j = parts::stages_parts(stages);
    let k = parts::causal_conv_parts("decoder.decoder.0"@);
    let l = parts::blocks_parts(blocks);
    let m = parts::snake_parts("decoder.decoder.5"@);
    let n = parts::causal_conv_parts("decoder.decoder.6"@);
    if codebook == 0 {
        lemma_two(a, first + ".embedding_sum"@, 2, first + ".cluster_usage"@, 1, false);
    } else {
        lemma_codebooks(codebook, rest);
    }
    lemma_layers(layer, part, layers);
    lemma_stages(stage, tensor, stages);
    lemma_block(block, unit, role, blocks);
    lemma_concat(a, b);
    lemma_concat(a + b, c);
    lemma_concat(a + b + c, d);
    lemma_concat(a + b + c + d, e);
    lemma_concat(a + b + c + d + e, f);
    lemma_concat(a + b + c + d + e + f, g);
    lemma_concat(a + b + c + d + e + f + g, h);
    lemma_concat(a + b + c + d + e + f + g + h, i);
    lemma_concat(a + b + c + d + e + f + g + h + i, j);
    lemma_concat(a + b + c + d + e + f + g + h + i + j, k);
    lemma_concat(a + b + c + d + e + f + g + h + i + j + k, l);
    lemma_concat(a + b + c + d + e + f + g + h + i + j + k + l, m);
    lemma_concat(a + b + c + d + e + f + g + h + i + j + k + l + m, n);
}

} // verus!

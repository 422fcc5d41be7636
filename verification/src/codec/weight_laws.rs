//! Which stored tensor each tensor of the codec is.

use vstd::prelude::*;

use crate::codec::weights::{self, FormModel, RequestModel, Slot};
use crate::device::op::{LayerWeight, ResidualWeight, UpsampleWeight, Weight};
use crate::text;

verus! {

/// Where the tensors of a part of the codec are stored.
pub open spec fn root(slot: Slot) -> Seq<char> {
    match slot {
        Slot::Codebook(0) | Slot::Usage(0) => "decoder.quantizer.rvq_first.vq.layers.0._codebook"@,
        Slot::Codebook(index) | Slot::Usage(index) => "decoder.quantizer.rvq_rest.vq.layers."@
            + text::decimal((index - 1) as nat) + "._codebook"@,
        Slot::Tensor(w) => match w {
            Weight::FirstProjection => "decoder.quantizer.rvq_first.output_proj"@,
            Weight::RestProjection => "decoder.quantizer.rvq_rest.output_proj"@,
            Weight::PreConvWeight | Weight::PreConvBias => "decoder.pre_conv.conv"@,
            Weight::InputProjection | Weight::InputBias => "decoder.pre_transformer.input_proj"@,
            Weight::OutputProjection | Weight::OutputBias => "decoder.pre_transformer.output_proj"@,
            Weight::FinalNorm => "decoder.pre_transformer.norm"@,
            Weight::Layer { index, .. } => "decoder.pre_transformer.layers."@ + text::decimal(
                index as nat,
            ),
            Weight::Upsample { stage, .. } => "decoder.upsample."@ + text::decimal(stage as nat),
            Weight::DecoderInitWeight | Weight::DecoderInitBias => "decoder.decoder.0.conv"@,
            Weight::BlockAlpha { block } | Weight::BlockBeta { block }
            | Weight::BlockTransWeight { block } | Weight::BlockTransBias { block } => {
                "decoder.decoder."@ + text::decimal((block + 1) as nat) + ".block"@
            },
            Weight::Residual { block, unit, .. } => "decoder.decoder."@ + text::decimal(
                (block + 1) as nat,
            ) + ".block"@ + (if unit == 0 {
                ".2"@
            } else if unit == 1 {
                ".3"@
            } else {
                ".4"@
            }),
            Weight::FinalAlpha | Weight::FinalBeta => "decoder.decoder.5"@,
            Weight::FinalConvWeight | Weight::FinalConvBias => "decoder.decoder.6.conv"@,
            _ => Seq::empty(),
        },
    }
}

/// What a tensor is called there.
pub open spec fn leaf(slot: Slot) -> Seq<char> {
    match slot {
        Slot::Codebook(_) => ".embedding_sum"@,
        Slot::Usage(_) => ".cluster_usage"@,
        Slot::Tensor(w) => match w {
            Weight::PreConvBias | Weight::InputBias | Weight::OutputBias | Weight::DecoderInitBias
            | Weight::FinalConvBias => ".bias"@,
            Weight::FinalAlpha => ".alpha"@,
            Weight::FinalBeta => ".beta"@,
            Weight::BlockAlpha { .. } => ".0.alpha"@,
            Weight::BlockBeta { .. } => ".0.beta"@,
            Weight::BlockTransWeight { .. } => ".1.conv.weight"@,
            Weight::BlockTransBias { .. } => ".1.conv.bias"@,
            Weight::Layer { part, .. } => match part {
                LayerWeight::InputGamma => ".input_layernorm.weight"@,
                LayerWeight::Query => ".self_attn.q_proj.weight"@,
                LayerWeight::Key => ".self_attn.k_proj.weight"@,
                LayerWeight::Value => ".self_attn.v_proj.weight"@,
                LayerWeight::Output => ".self_attn.o_proj.weight"@,
                LayerWeight::AttentionScale => ".self_attn_layer_scale.scale"@,
                LayerWeight::PostGamma => ".post_attention_layernorm.weight"@,
                LayerWeight::Gate => ".mlp.gate_proj.weight"@,
                LayerWeight::Up => ".mlp.up_proj.weight"@,
                LayerWeight::Down => ".mlp.down_proj.weight"@,
                LayerWeight::MlpScale => ".mlp_layer_scale.scale"@,
                _ => Seq::empty(),
            },
            Weight::Upsample { tensor, .. } => match tensor {
                UpsampleWeight::TransWeight => ".0.conv.weight"@,
                UpsampleWeight::TransBias => ".0.conv.bias"@,
                UpsampleWeight::DepthwiseWeight => ".1.dwconv.conv.weight"@,
                UpsampleWeight::DepthwiseBias => ".1.dwconv.conv.bias"@,
                UpsampleWeight::NormGamma => ".1.norm.weight"@,
                UpsampleWeight::NormBeta => ".1.norm.bias"@,
                UpsampleWeight::Pointwise1Weight => ".1.pwconv1.weight"@,
                UpsampleWeight::Pointwise1Bias => ".1.pwconv1.bias"@,
                UpsampleWeight::Pointwise2Weight => ".1.pwconv2.weight"@,
                UpsampleWeight::Pointwise2Bias => ".1.pwconv2.bias"@,
                UpsampleWeight::Gamma => ".1.gamma"@,
            },
            Weight::Residual { role, .. } => match role {
                ResidualWeight::Alpha1 => ".act1.alpha"@,
                ResidualWeight::Beta1 => ".act1.beta"@,
                ResidualWeight::Conv1Weight => ".conv1.conv.weight"@,
                ResidualWeight::Conv1Bias => ".conv1.conv.bias"@,
                ResidualWeight::Alpha2 => ".act2.alpha"@,
                ResidualWeight::Beta2 => ".act2.beta"@,
                ResidualWeight::Conv2Weight => ".conv2.conv.weight"@,
                ResidualWeight::Conv2Bias => ".conv2.conv.bias"@,
            },
            _ => ".weight"@,
        },
    }
}

/// The matrices of linear layers, which are stored by their outputs and so are transposed.
pub open spec fn is_linear(slot: Slot) -> bool {
    match slot {
        Slot::Tensor(w) => match w {
            Weight::InputProjection | Weight::OutputProjection => true,
            Weight::Layer { part, .. } => match part {
                LayerWeight::Query | LayerWeight::Key | LayerWeight::Value | LayerWeight::Output
                | LayerWeight::Gate | LayerWeight::Up | LayerWeight::Down => true,
                _ => false,
            },
            Weight::Upsample { tensor, .. } => tensor == UpsampleWeight::Pointwise1Weight || tensor
                == UpsampleWeight::Pointwise2Weight,
            _ => false,
        },
        _ => false,
    }
}

/// A request asks for the tensor that is stored for its slot, and for its transpose where it
/// is the matrix of a linear layer.
pub open spec fn asks_for_its_own(r: RequestModel) -> bool {
    &&& r.name == root(r.slot) + leaf(r.slot)
    &&& is_linear(r.slot) == !(r.form is Shape)
    &&& !(r.form is Vector)
}

/// Some request is for the slot.
pub open spec fn has_request(list: Seq<RequestModel>, slot: Slot) -> bool {
    exists|i: int| 0 <= i < list.len() && (#[trigger] list[i]).slot == slot
}

pub open spec fn all_ask(list: Seq<RequestModel>) -> bool {
    forall|i: int| 0 <= i < list.len() ==> asks_for_its_own(#[trigger] list[i])
}

proof fn lemma_concat(a: Seq<RequestModel>, b: Seq<RequestModel>)
    ensures
        all_ask(a) && all_ask(b) ==> all_ask(a + b),
        forall|slot: Slot| #[trigger]
            has_request(a + b, slot) <==> has_request(a, slot) || has_request(b, slot),
{
    assert forall|i: int| 0 <= i < (a + b).len() implies (#[trigger] (a + b)[i]) == if i < a.len() {
        a[i]
    } else {
        b[i - a.len()]
    } by {}
    assert forall|slot: Slot| #[trigger] has_request(a + b, slot) <==> has_request(a, slot)
        || has_request(b, slot) by {
        if has_request(a, slot) {
            let i = choose|i: int| 0 <= i < a.len() && (#[trigger] a[i]).slot == slot;
            assert((a + b)[i] == a[i]);
        }
        if has_request(b, slot) {
            let i = choose|i: int| 0 <= i < b.len() && (#[trigger] b[i]).slot == slot;
            assert((a + b)[i + a.len()] == b[i]);
        }
        if has_request(a + b, slot) {
            let i = choose|i: int| 0 <= i < (a + b).len() && (#[trigger] (a + b)[i]).slot == slot;
            if i < a.len() {
                assert(a[i].slot == slot);
            } else {
                assert(b[i - a.len()].slot == slot);
            }
        }
    }
}

proof fn lemma_codebooks(count: nat)
    requires
        count <= usize::MAX,
    ensures
        all_ask(weights::codebooks_requests(count)),
        forall|index: usize|
            index < count ==> #[trigger] has_request(
                weights::codebooks_requests(count),
                Slot::Codebook(index),
            ),
        forall|index: usize|
            index < count ==> #[trigger] has_request(
                weights::codebooks_requests(count),
                Slot::Usage(index),
            ),
    decreases count,
{
    if count > 0 {
        let last = (count - 1) as usize;
        let one = weights::codebook_requests(last);
        lemma_codebooks((count - 1) as nat);
        lemma_concat(weights::codebooks_requests((count - 1) as nat), one);
        assert(one[0].slot == Slot::Codebook(last));
        assert(one[1].slot == Slot::Usage(last));
    }
}

proof fn lemma_layer(index: usize)
    ensures
        all_ask(weights::layer_requests(index)),
        forall|part: LayerWeight|
            part != LayerWeight::QueryGamma && part != LayerWeight::KeyGamma
                ==> #[trigger] has_request(
                weights::layer_requests(index),
                Slot::Tensor(Weight::Layer { index, part }),
            ),
{
    reveal_strlit("");
    let list = weights::layer_requests(index);
    let prefix = "decoder.pre_transformer.layers."@ + text::decimal(index as nat);
    assert(prefix + ""@ =~= prefix);
    assert forall|part: LayerWeight|
        part != LayerWeight::QueryGamma && part != LayerWeight::KeyGamma implies #[trigger]
        has_request(list, Slot::Tensor(Weight::Layer { index, part })) by {
        let at = match part {
            LayerWeight::InputGamma => 0int,
            LayerWeight::Query => 1,
            LayerWeight::Key => 2,
            LayerWeight::Value => 3,
            LayerWeight::Output => 4,
            LayerWeight::AttentionScale => 5,
            LayerWeight::PostGamma => 6,
            LayerWeight::Gate => 7,
            LayerWeight::Up => 8,
            LayerWeight::Down => 9,
            _ => 10,
        };
        assert(list[at].slot == Slot::Tensor(Weight::Layer { index, part }));
    }
}

proof fn lemma_layers(count: nat)
    requires
        count <= usize::MAX,
    ensures
        all_ask(weights::layers_requests(count)),
        forall|index: usize, part: LayerWeight|
            index < count && part != LayerWeight::QueryGamma && part != LayerWeight::KeyGamma
                ==> #[trigger] has_request(
                weights::layers_requests(count),
                Slot::Tensor(Weight::Layer { index, part }),
            ),
    decreases count,
{
    if count > 0 {
        let last = (count - 1) as usize;
        lemma_layers((count - 1) as nat);
        lemma_layer(last);
        lemma_concat(
            weights::layers_requests((count - 1) as nat),
            weights::layer_requests(last),
        );
    }
}

proof fn lemma_stage(stage: usize)
    ensures
        all_ask(weights::stage_requests(stage)),
        forall|tensor: UpsampleWeight| #[trigger]
            has_request(
                weights::stage_requests(stage),
                Slot::Tensor(Weight::Upsample { stage, tensor }),
            ),
{
    reveal_strlit("");
    let list = weights::stage_requests(stage);
    let prefix = "decoder.upsample."@ + text::decimal(stage as nat);
    assert(prefix + ""@ =~= prefix);
    assert forall|tensor: UpsampleWeight| #[trigger]
        has_request(list, Slot::Tensor(Weight::Upsample { stage, tensor })) by {
        let at = match tensor {
            UpsampleWeight::TransWeight => 0int,
            UpsampleWeight::TransBias => 1,
            UpsampleWeight::DepthwiseWeight => 2,
            UpsampleWeight::DepthwiseBias => 3,
            UpsampleWeight::NormGamma => 4,
            UpsampleWeight::NormBeta => 5,
            UpsampleWeight::Pointwise1Weight => 6,
            UpsampleWeight::Pointwise1Bias => 7,
            UpsampleWeight::Pointwise2Weight => 8,
            UpsampleWeight::Pointwise2Bias => 9,
            UpsampleWeight::Gamma => 10,
        };
        assert(list[at].slot == Slot::Tensor(Weight::Upsample { stage, tensor }));
    }
}

proof fn lemma_unit(block: usize, unit: usize, prefix: Seq<char>, channels: usize)
    requires
        prefix == root(
            Slot::Tensor(Weight::Residual { block, unit, role: ResidualWeight::Alpha1 }),
        ),
    ensures
        all_ask(weights::unit_requests(block, unit, prefix, channels)),
        forall|role: ResidualWeight| #[trigger]
            has_request(
                weights::unit_requests(block, unit, prefix, channels),
                Slot::Tensor(Weight::Residual { block, unit, role }),
            ),
{
    let list = weights::unit_requests(block, unit, prefix, channels);
    assert forall|role: ResidualWeight| #[trigger]
        has_request(list, Slot::Tensor(Weight::Residual { block, unit, role })) by {
        let at = match role {
            ResidualWeight::Alpha1 => 0int,
            ResidualWeight::Beta1 => 1,
            ResidualWeight::Conv1Weight => 2,
            ResidualWeight::Conv1Bias => 3,
            ResidualWeight::Alpha2 => 4,
            ResidualWeight::Beta2 => 5,
            ResidualWeight::Conv2Weight => 6,
            ResidualWeight::Conv2Bias => 7,
        };
        assert(list[at].slot == Slot::Tensor(Weight::Residual { block, unit, role }));
    }
}

proof fn lemma_block(block: usize)
    ensures
        all_ask(weights::block_requests(block)),
        forall|unit: usize, role: ResidualWeight|
            unit < 3 ==> #[trigger] has_request(
                weights::block_requests(block),
                Slot::Tensor(Weight::Residual { block, unit, role }),
            ),
        has_request(
            weights::block_requests(block),
            Slot::Tensor(Weight::BlockTransWeight { block }),
        ),
        has_request(weights::block_requests(block), Slot::Tensor(Weight::BlockTransBias { block })),
        has_request(weights::block_requests(block), Slot::Tensor(Weight::BlockAlpha { block })),
        has_request(weights::block_requests(block), Slot::Tensor(Weight::BlockBeta { block })),
{
    let prefix = weights::block_prefix(block);
    let (in_channels, channels, stride) = crate::codec::sizes::block_dims(block as int);
    let list = weights::block_requests(block);
    let u0 = weights::unit_requests(block, 0, prefix + ".2"@, channels);
    let u1 = weights::unit_requests(block, 1, prefix + ".3"@, channels);
    let u2 = weights::unit_requests(block, 2, prefix + ".4"@, channels);
    let head = list.take(4);
    assert(list =~= head + u0 + u1 + u2);
    assert(head[0] == list[0] && head[1] == list[1] && head[2] == list[2] && head[3] == list[3]);
    assert(all_ask(head));
    lemma_unit(block, 0, prefix + ".2"@, channels);
    lemma_unit(block, 1, prefix + ".3"@, channels);
    lemma_unit(block, 2, prefix + ".4"@, channels);
    lemma_concat(head, u0);
    lemma_concat(head + u0, u1);
    lemma_concat(head + u0 + u1, u2);
    assert(list[0].slot == Slot::Tensor(Weight::BlockTransWeight { block }));
    assert(list[1].slot == Slot::Tensor(Weight::BlockTransBias { block }));
    assert(list[2].slot == Slot::Tensor(Weight::BlockAlpha { block }));
    assert(list[3].slot == Slot::Tensor(Weight::BlockBeta { block }));
    assert forall|unit: usize, role: ResidualWeight| unit < 3 implies #[trigger] has_request(
        list,
        Slot::Tensor(Weight::Residual { block, unit, role }),
    ) by {
        let slot = Slot::Tensor(Weight::Residual { block, unit, role });
        assert(has_request(u0, slot) || has_request(u1, slot) || has_request(u2, slot));
        assert(has_request(head + u0 + u1 + u2, slot));
    }
}

proof fn lemma_blocks(count: nat)
    requires
        count <= usize::MAX,
    ensures
        all_ask(weights::blocks_requests(count)),
        forall|block: usize, unit: usize, role: ResidualWeight|
            block < count && unit < 3 ==> #[trigger] has_request(
                weights::blocks_requests(count),
                Slot::Tensor(Weight::Residual { block, unit, role }),
            ),
        forall|block: usize|
            block < count ==> #[trigger] has_request(
                weights::blocks_requests(count),
                Slot::Tensor(Weight::BlockTransWeight { block }),
            ),
        forall|block: usize|
            block < count ==> #[trigger] has_request(
                weights::blocks_requests(count),
                Slot::Tensor(Weight::BlockAlpha { block }),
            ),
    decreases count,
{
    if count > 0 {
        lemma_blocks((count - 1) as nat);
        lemma_block((count - 1) as usize);
        lemma_concat(
            weights::blocks_requests((count - 1) as nat),
            weights::block_requests((count - 1) as usize),
        );
    }
}

/// Every request of the codec asks for the tensor that is stored for its slot, and there is
/// one for each of the sixteen codebooks, for every tensor of the eight layers, of the two
/// upsampling stages and of the three residual units of the four blocks, and for the
/// activation and the transposed convolution of every block.
pub proof fn codecs_ask_for_all_their_tensors(
    codebook: usize,
    layer: usize,
    part: LayerWeight,
    stage: usize,
    tensor: UpsampleWeight,
    block: usize,
    unit: usize,
    role: ResidualWeight,
)
    requires
        codebook < 16,
        layer < 8,
        part != LayerWeight::QueryGamma,
        part != LayerWeight::KeyGamma,
        stage < 2,
        block < 4,
        unit < 3,
    ensures
        ({
            let list = weights::codec_requests();
            &&& all_ask(list)
            &&& has_request(list, Slot::Codebook(codebook))
            &&& has_request(list, Slot::Usage(codebook))
            &&& has_request(list, Slot::Tensor(Weight::Layer { index: layer, part }))
            &&& has_request(list, Slot::Tensor(Weight::Upsample { stage, tensor }))
            &&& has_request(list, Slot::Tensor(Weight::Residual { block, unit, role }))
            &&& has_request(list, Slot::Tensor(Weight::BlockAlpha { block }))
            &&& has_request(list, Slot::Tensor(Weight::BlockTransWeight { block }))
        }),
{
    let a = weights::codebooks_requests(16);
    let b = weights::front_requests();
    let c = weights::layers_requests(8);
    let d = weights::stage_requests(0);
    let e = weights::stage_requests(1);
    let f = weights::opening_requests();
    let g = weights::blocks_requests(4);
    let h = weights::closing_requests();
    lemma_codebooks(16);
    assert(all_ask(b));
    lemma_layers(8);
    lemma_stage(0);
    lemma_stage(1);
    assert(all_ask(f));
    lemma_blocks(4);
    assert(all_ask(h));
    lemma_concat(a, b);
    lemma_concat(a + b, c);
    lemma_concat(a + b + c, d);
    lemma_concat(a + b + c + d, e);
    lemma_concat(a + b + c + d + e, f);
    lemma_concat(a + b + c + d + e + f, g);
    lemma_concat(a + b + c + d + e + f + g, h);
    let list = a + b + c + d + e + f + g + h;
    assert(list == weights::codec_requests());
    assert(has_request(list, Slot::Codebook(codebook)));
    assert(has_request(list, Slot::Usage(codebook)));
    assert(has_request(list, Slot::Tensor(Weight::Layer { index: layer, part })));
    assert(has_request(if stage == 0 {
        d
    } else {
        e
    }, Slot::Tensor(Weight::Upsample { stage, tensor })));
    assert(has_request(list, Slot::Tensor(Weight::Upsample { stage, tensor })));
    assert(has_request(list, Slot::Tensor(Weight::Residual { block, unit, role })));
    assert(has_request(list, Slot::Tensor(Weight::BlockAlpha { block })));
    assert(has_request(list, Slot::Tensor(Weight::BlockTransWeight { block })));
}

/// Everything that the codec asks for comes out of the archive under its own name, in the
/// order of the requests, or nothing does: the first tensor that is missing or unusable
/// decides the error.
pub proof fn tensors_come_out_under_their_own_names(
    tensors: Map<Seq<char>, crate::archive::TensorModel>,
    requests: Seq<RequestModel>,
)
    ensures
        match weights::fetched_all(tensors, requests) {
            Ok(all) => {
                &&& all.len() == requests.len()
                &&& forall|i: int|
                    0 <= i < requests.len() ==> {
                        &&& tensors.contains_key((#[trigger] requests[i]).name)
                        &&& all[i].0 == requests[i].slot
                        &&& weights::fetched(tensors, requests[i]) == Ok::<Seq<u32>, Seq<char>>(
                            all[i].1,
                        )
                    }
            },
            Err(why) => exists|i: int|
                0 <= i < requests.len() && weights::fetched(tensors, #[trigger] requests[i]) == Err::<
                    Seq<u32>,
                    Seq<char>,
                >(why) && forall|j: int|
                    0 <= j < i ==> weights::fetched(tensors, #[trigger] requests[j]) is Ok,
        },
    decreases requests.len(),
{
    if requests.len() > 0 {
        let before = requests.drop_last();
        tensors_come_out_under_their_own_names(tensors, before);
        match weights::fetched_all(tensors, before) {
            Ok(all) => {
                assert forall|i: int| 0 <= i < before.len() implies weights::fetched(
                    tensors,
                    #[trigger] requests[i],
                ) is Ok by {
                    assert(before[i] == requests[i]);
                }
                if weights::fetched(tensors, requests.last()) is Ok {
                    let full = weights::fetched_all(tensors, requests)->Ok_0;
                    assert forall|i: int| 0 <= i < requests.len() implies {
                        &&& tensors.contains_key((#[trigger] requests[i]).name)
                        &&& full[i].0 == requests[i].slot
                        &&& weights::fetched(tensors, requests[i]) == Ok::<Seq<u32>, Seq<char>>(
                            full[i].1,
                        )
                    } by {
                        if i < before.len() {
                            assert(before[i] == requests[i]);
                            assert(full[i] == all[i]);
                        }
                    }
                } else {
                    assert(requests[requests.len() - 1] == requests.last());
                }
            },
            Err(why) => {
                let i = choose|i: int|
                    0 <= i < before.len() && weights::fetched(tensors, #[trigger] before[i])
                        == Err::<Seq<u32>, Seq<char>>(why) && forall|j: int|
                        0 <= j < i ==> weights::fetched(tensors, #[trigger] before[j]) is Ok;
                assert(requests[i] == before[i]);
                assert forall|j: int| 0 <= j < i implies weights::fetched(
                    tensors,
                    #[trigger] requests[j],
                ) is Ok by {
                    assert(before[j] == requests[j]);
                }
            },
        }
    }
}

} // verus!

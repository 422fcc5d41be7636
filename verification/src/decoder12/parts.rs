//! Which tensors of a speech tokenizer the decoder asks for, and loading them.

use vstd::prelude::*;

use crate::archive::{self, StoredTensor, TensorArchive, TensorModel};
use crate::codec::weights::{joined, numbered};
use crate::decoder12::config::Decoder12HzConfig;
use crate::error::{self, Error};
use crate::tensor::{self, element_count, rank_error, tensor_to_f32};
use crate::text;

verus! {

/// A tensor that the decoder asks for: its name, its number of dimensions, and whether the
/// decoder can do without it.
#[derive(Debug)]
pub struct Part {
    pub name: String,
    pub rank: usize,
    pub optional: bool,
}

/// A tensor that the decoder asks for, as a model.
pub struct PartModel {
    pub name: Seq<char>,
    pub rank: usize,
    pub optional: bool,
}

impl View for Part {
    type V = PartModel;

    open spec fn view(&self) -> PartModel {
        PartModel { name: self.name@, rank: self.rank, optional: self.optional }
    }
}

/// The models of a list of parts.
pub open spec fn models(list: Seq<Part>) -> Seq<PartModel> {
    list.map_values(|p: Part| p@)
}

/// A tensor that must be there.
pub open spec fn need(name: Seq<char>, rank: usize) -> Seq<PartModel> {
    seq![PartModel { name, rank, optional: false }]
}

/// A tensor that may be missing.
pub open spec fn may(name: Seq<char>, rank: usize) -> Seq<PartModel> {
    seq![PartModel { name, rank, optional: true }]
}

fn ask(list: &mut Vec<Part>, prefix: &str, suffix: &str, rank: usize, optional: bool)
    ensures
        models(final(list)@) == models(old(list)@) + seq![
            PartModel { name: prefix@ + suffix@, rank, optional },
        ],
{
    list.push(Part { name: joined(prefix, suffix), rank, optional });
    proof {
        assert(models(list@) =~= models(old(list)@) + seq![
            PartModel { name: prefix@ + suffix@, rank, optional },
        ]);
    }
}

/// The two tensors of a codebook: the summed embeddings and how often each was used.
pub open spec fn codebook_parts(prefix: Seq<char>) -> Seq<PartModel> {
    need(prefix + ".embedding_sum"@, 2)
        + need(prefix + ".cluster_usage"@, 1)
}

fn ask_codebook(list: &mut Vec<Part>, prefix: &str)
    ensures
        models(final(list)@) == models(old(list)@) + codebook_parts(prefix@),
{
    let ghost before = models(list@);
    ask(list, prefix, ".embedding_sum", 2, false);
    ask(list, prefix, ".cluster_usage", 1, false);
    proof {
        assert(models(list@) =~= before + codebook_parts(prefix@));
    }
}

/// A convolution without a bias.
pub open spec fn projection_parts(prefix: Seq<char>) -> Seq<PartModel> {
    need(prefix + ".weight"@, 3)
}

fn ask_projection(list: &mut Vec<Part>, prefix: &str)
    ensures
        models(final(list)@) == models(old(list)@) + projection_parts(prefix@),
{
    ask(list, prefix, ".weight", 3, false);
}

/// A causal convolution.
pub open spec fn causal_conv_parts(prefix: Seq<char>) -> Seq<PartModel> {
    need(prefix + ".conv.weight"@, 3)
        + may(prefix + ".conv.bias"@, 1)
}

fn ask_causal_conv(list: &mut Vec<Part>, prefix: &str)
    ensures
        models(final(list)@) == models(old(list)@) + causal_conv_parts(prefix@),
{
    let ghost before = models(list@);
    ask(list, prefix, ".conv.weight", 3, false);
    ask(list, prefix, ".conv.bias", 1, true);
    proof {
        assert(models(list@) =~= before + causal_conv_parts(prefix@));
    }
}

/// A transposed convolution.
pub open spec fn trans_conv_parts(prefix: Seq<char>) -> Seq<PartModel> {
    need(prefix + ".conv.weight"@, 3)
        + may(prefix + ".conv.bias"@, 1)
}

fn ask_trans_conv(list: &mut Vec<Part>, prefix: &str)
    ensures
        models(final(list)@) == models(old(list)@) + trans_conv_parts(prefix@),
{
    let ghost before = models(list@);
    ask(list, prefix, ".conv.weight", 3, false);
    ask(list, prefix, ".conv.bias", 1, true);
    proof {
        assert(models(list@) =~= before + trans_conv_parts(prefix@));
    }
}

/// A linear layer with a bias.
pub open spec fn linear_parts(prefix: Seq<char>) -> Seq<PartModel> {
    need(prefix + ".weight"@, 2)
        + may(prefix + ".bias"@, 1)
}

fn ask_linear(list: &mut Vec<Part>, prefix: &str)
    ensures
        models(final(list)@) == models(old(list)@) + linear_parts(prefix@),
{
    let ghost before = models(list@);
    ask(list, prefix, ".weight", 2, false);
    ask(list, prefix, ".bias", 1, true);
    proof {
        assert(models(list@) =~= before + linear_parts(prefix@));
    }
}

/// A linear layer without a bias.
pub open spec fn plain_linear_parts(prefix: Seq<char>) -> Seq<PartModel> {
    need(prefix + ".weight"@, 2)
}

fn ask_plain_linear(list: &mut Vec<Part>, prefix: &str)
    ensures
        models(final(list)@) == models(old(list)@) + plain_linear_parts(prefix@),
{
    ask(list, prefix, ".weight", 2, false);
}

/// A root-mean-square norm.
pub open spec fn rms_norm_parts(prefix: Seq<char>) -> Seq<PartModel> {
    need(prefix + ".weight"@, 1)
}

fn ask_rms_norm(list: &mut Vec<Part>, prefix: &str)
    ensures
        models(final(list)@) == models(old(list)@) + rms_norm_parts(prefix@),
{
    ask(list, prefix, ".weight", 1, false);
}

/// A layer norm.
pub open spec fn layer_norm_parts(prefix: Seq<char>) -> Seq<PartModel> {
    need(prefix + ".weight"@, 1)
        + need(prefix + ".bias"@, 1)
}

fn ask_layer_norm(list: &mut Vec<Part>, prefix: &str)
    ensures
        models(final(list)@) == models(old(list)@) + layer_norm_parts(prefix@),
{
    let ghost before = models(list@);
    ask(list, prefix, ".weight", 1, false);
    ask(list, prefix, ".bias", 1, false);
    proof {
        assert(models(list@) =~= before + layer_norm_parts(prefix@));
    }
}

/// A snake activation.
pub open spec fn snake_parts(prefix: Seq<char>) -> Seq<PartModel> {
    need(prefix + ".alpha"@, 1)
        + need(prefix + ".beta"@, 1)
}

fn ask_snake(list: &mut Vec<Part>, prefix: &str)
    ensures
        models(final(list)@) == models(old(list)@) + snake_parts(prefix@),
{
    let ghost before = models(list@);
    ask(list, prefix, ".alpha", 1, false);
    ask(list, prefix, ".beta", 1, false);
    proof {
        assert(models(list@) =~= before + snake_parts(prefix@));
    }
}

/// A residual unit.
pub open spec fn residual_parts(prefix: Seq<char>) -> Seq<PartModel> {
    snake_parts(prefix + ".act1"@)
        + causal_conv_parts(prefix + ".conv1"@)
        + snake_parts(prefix + ".act2"@)
        + causal_conv_parts(prefix + ".conv2"@)
}

fn ask_residual(list: &mut Vec<Part>, prefix: &str)
    ensures
        models(final(list)@) == models(old(list)@) + residual_parts(prefix@),
{
    let ghost before = models(list@);
    ask_snake(list, joined(prefix, ".act1").as_str());
    ask_causal_conv(list, joined(prefix, ".conv1").as_str());
    ask_snake(list, joined(prefix, ".act2").as_str());
    ask_causal_conv(list, joined(prefix, ".conv2").as_str());
    proof {
        assert(models(list@) =~= before + residual_parts(prefix@));
    }
}

/// A decoder block.
pub open spec fn block_parts(prefix: Seq<char>) -> Seq<PartModel> {
    snake_parts(prefix + ".0"@)
        + trans_conv_parts(prefix + ".1"@)
        + residual_parts(prefix + ".2"@)
        + residual_parts(prefix + ".3"@)
        + residual_parts(prefix + ".4"@)
}

fn ask_block(list: &mut Vec<Part>, prefix: &str)
    ensures
        models(final(list)@) == models(old(list)@) + block_parts(prefix@),
{
    let ghost before = models(list@);
    ask_snake(list, joined(prefix, ".0").as_str());
    ask_trans_conv(list, joined(prefix, ".1").as_str());
    ask_residual(list, joined(prefix, ".2").as_str());
    ask_residual(list, joined(prefix, ".3").as_str());
    ask_residual(list, joined(prefix, ".4").as_str());
    proof {
        assert(models(list@) =~= before + block_parts(prefix@));
    }
}

/// A ConvNeXt block.
pub open spec fn convnext_parts(prefix: Seq<char>) -> Seq<PartModel> {
    causal_conv_parts(prefix + ".dwconv"@)
        + layer_norm_parts(prefix + ".norm"@)
        + linear_parts(prefix + ".pwconv1"@)
        + linear_parts(prefix + ".pwconv2"@)
        + need(prefix + ".gamma"@, 1)
}

fn ask_convnext(list: &mut Vec<Part>, prefix: &str)
    ensures
        models(final(list)@) == models(old(list)@) + convnext_parts(prefix@),
{
    let ghost before = models(list@);
    ask_causal_conv(list, joined(prefix, ".dwconv").as_str());
    ask_layer_norm(list, joined(prefix, ".norm").as_str());
    ask_linear(list, joined(prefix, ".pwconv1").as_str());
    ask_linear(list, joined(prefix, ".pwconv2").as_str());
    ask(list, prefix, ".gamma", 1, false);
    proof {
        assert(models(list@) =~= before + convnext_parts(prefix@));
    }
}

/// An upsampling stage.
pub open spec fn stage_parts(prefix: Seq<char>) -> Seq<PartModel> {
    trans_conv_parts(prefix + ".0"@)
        + convnext_parts(prefix + ".1"@)
}

fn ask_stage(list: &mut Vec<Part>, prefix: &str)
    ensures
        models(final(list)@) == models(old(list)@) + stage_parts(prefix@),
{
    let ghost before = models(list@);
    ask_trans_conv(list, joined(prefix, ".0").as_str());
    ask_convnext(list, joined(prefix, ".1").as_str());
    proof {
        assert(models(list@) =~= before + stage_parts(prefix@));
    }
}

/// A transformer layer.
pub open spec fn layer_parts(prefix: Seq<char>) -> Seq<PartModel> {
    rms_norm_parts(prefix + ".input_layernorm"@)
        + rms_norm_parts(prefix + ".post_attention_layernorm"@)
        + plain_linear_parts(prefix + ".self_attn.q_proj"@)
        + plain_linear_parts(prefix + ".self_attn.k_proj"@)
        + plain_linear_parts(prefix + ".self_attn.v_proj"@)
        + plain_linear_parts(prefix + ".self_attn.o_proj"@)
        + need(prefix + ".self_attn_layer_scale.scale"@, 1)
        + plain_linear_parts(prefix + ".mlp.gate_proj"@)
        + plain_linear_parts(prefix + ".mlp.up_proj"@)
        + plain_linear_parts(prefix + ".mlp.down_proj"@)
        + need(prefix + ".mlp_layer_scale.scale"@, 1)
}

fn ask_layer(list: &mut Vec<Part>, prefix: &str)
    ensures
        models(final(list)@) == models(old(list)@) + layer_parts(prefix@),
{
    let ghost before = models(list@);
    ask_rms_norm(list, joined(prefix, ".input_layernorm").as_str());
    ask_rms_norm(list, joined(prefix, ".post_attention_layernorm").as_str());
    ask_plain_linear(list, joined(prefix, ".self_attn.q_proj").as_str());
    ask_plain_linear(list, joined(prefix, ".self_attn.k_proj").as_str());
    ask_plain_linear(list, joined(prefix, ".self_attn.v_proj").as_str());
    ask_plain_linear(list, joined(prefix, ".self_attn.o_proj").as_str());
    ask(list, prefix, ".self_attn_layer_scale.scale", 1, false);
    ask_plain_linear(list, joined(prefix, ".mlp.gate_proj").as_str());
    ask_plain_linear(list, joined(prefix, ".mlp.up_proj").as_str());
    ask_plain_linear(list, joined(prefix, ".mlp.down_proj").as_str());
    ask(list, prefix, ".mlp_layer_scale.scale", 1, false);
    proof {
        assert(models(list@) =~= before + layer_parts(prefix@));
    }
}

/// The codebooks behind the first one.
pub open spec fn rest_codebooks_parts(count: nat) -> Seq<PartModel>
    decreases count,
{
    if count == 0 {
        Seq::empty()
    } else {
        rest_codebooks_parts((count - 1) as nat) + codebook_parts(
            "decoder.quantizer.rvq_rest.vq.layers."@ + text::decimal((count - 1) as nat) + "._codebook"@,
        )
    }
}

fn ask_rest_codebooks(list: &mut Vec<Part>, count: usize)
    requires
        count < usize::MAX,
    ensures
        models(final(list)@) == models(old(list)@) + rest_codebooks_parts(count as nat),
{
    let ghost before = models(list@);
    let mut index: usize = 0;
    proof {
        assert(before + rest_codebooks_parts(0) =~= before);
    }
    while index < count
        invariant
            index <= count < usize::MAX,
            models(list@) == before + rest_codebooks_parts(index as nat),
        decreases count - index,
    {
        let prefix: String = numbered("decoder.quantizer.rvq_rest.vq.layers.", index, "._codebook");
        ask_codebook(list, prefix.as_str());
        proof {
            assert(models(list@) =~= before + rest_codebooks_parts((index + 1) as nat));
        }
        index += 1;
    }
}

/// The transformer layers.
pub open spec fn layers_parts(count: nat) -> Seq<PartModel>
    decreases count,
{
    if count == 0 {
        Seq::empty()
    } else {
        layers_parts((count - 1) as nat) + layer_parts(
            "decoder.pre_transformer.layers."@ + text::decimal((count - 1) as nat) + ""@,
        )
    }
}

fn ask_layers(list: &mut Vec<Part>, count: usize)
    requires
        count < usize::MAX,
    ensures
        models(final(list)@) == models(old(list)@) + layers_parts(count as nat),
{
    let ghost before = models(list@);
    let mut index: usize = 0;
    proof {
        assert(before + layers_parts(0) =~= before);
    }
    while index < count
        invariant
            index <= count < usize::MAX,
            models(list@) == before + layers_parts(index as nat),
        decreases count - index,
    {
        let prefix: String = numbered("decoder.pre_transformer.layers.", index, "");
        ask_layer(list, prefix.as_str());
        proof {
            assert(models(list@) =~= before + layers_parts((index + 1) as nat));
        }
        index += 1;
    }
}

/// The upsampling stages.
pub open spec fn stages_parts(count: nat) -> Seq<PartModel>
    decreases count,
{
    if count == 0 {
        Seq::empty()
    } else {
        stages_parts((count - 1) as nat) + stage_parts(
            "decoder.upsample."@ + text::decimal((count - 1) as nat) + ""@,
        )
    }
}

fn ask_stages(list: &mut Vec<Part>, count: usize)
    requires
        count < usize::MAX,
    ensures
        models(final(list)@) == models(old(list)@) + stages_parts(count as nat),
{
    let ghost before = models(list@);
    let mut index: usize = 0;
    proof {
        assert(before + stages_parts(0) =~= before);
    }
    while index < count
        invariant
            index <= count < usize::MAX,
            models(list@) == before + stages_parts(index as nat),
        decreases count - index,
    {
        let prefix: String = numbered("decoder.upsample.", index, "");
        ask_stage(list, prefix.as_str());
        proof {
            assert(models(list@) =~= before + stages_parts((index + 1) as nat));
        }
        index += 1;
    }
}

/// The decoder blocks.
pub open spec fn blocks_parts(count: nat) -> Seq<PartModel>
    decreases count,
{
    if count == 0 {
        Seq::empty()
    } else {
        blocks_parts((count - 1) as nat) + block_parts(
            "decoder.decoder."@ + text::decimal(count) + ".block"@,
        )
    }
}

fn ask_blocks(list: &mut Vec<Part>, count: usize)
    requires
        count < usize::MAX,
    ensures
        models(final(list)@) == models(old(list)@) + blocks_parts(count as nat),
{
    let ghost before = models(list@);
    let mut index: usize = 0;
    proof {
        assert(before + blocks_parts(0) =~= before);
    }
    while index < count
        invariant
            index <= count < usize::MAX,
            models(list@) == before + blocks_parts(index as nat),
        decreases count - index,
    {
        let prefix: String = numbered("decoder.decoder.", index + 1, ".block");
        ask_block(list, prefix.as_str());
        proof {
            assert(models(list@) =~= before + blocks_parts((index + 1) as nat));
        }
        index += 1;
    }
}

/// All tensors of a decoder with so many codebooks behind the first one, transformer layers,
/// upsampling stages and blocks, in the order in which they are read.
pub open spec fn decoder_parts(rest: nat, layers: nat, stages: nat, blocks: nat) -> Seq<PartModel> {
    codebook_parts("decoder.quantizer.rvq_first.vq.layers.0._codebook"@)
        + rest_codebooks_parts(rest)
        + projection_parts("decoder.quantizer.rvq_first.output_proj"@)
        + projection_parts("decoder.quantizer.rvq_rest.output_proj"@)
        + causal_conv_parts("decoder.pre_conv"@)
        + linear_parts("decoder.pre_transformer.input_proj"@)
        + layers_parts(layers)
        + rms_norm_parts("decoder.pre_transformer.norm"@)
        + linear_parts("decoder.pre_transformer.output_proj"@)
        + stages_parts(stages)
        + causal_conv_parts("decoder.decoder.0"@)
        + blocks_parts(blocks)
        + snake_parts("decoder.decoder.5"@)
        + causal_conv_parts("decoder.decoder.6"@)
}

/// The tensors of the decoder of a configuration.
pub open spec fn parts_of(config: Decoder12HzConfig) -> Seq<PartModel> {
    decoder_parts(
        (config.num_quantizers - 1) as nat,
        config.transformer_layers as nat,
        config.upsampling_ratios@.len(),
        config.decoder_upsample_rates@.len(),
    )
}

/// Lists the tensors of the decoder, in the order in which they are read.
pub fn list_parts(config: &Decoder12HzConfig) -> (list: Vec<Part>)
    requires
        config.num_quantizers > 0,
        config.transformer_layers < usize::MAX,
        config.upsampling_ratios@.len() < usize::MAX,
        config.decoder_upsample_rates@.len() < usize::MAX,
    ensures
        models(list@) == parts_of(*config),
{
    let rest: usize = config.num_quantizers - 1;
    let layers: usize = config.transformer_layers;
    let stages: usize = config.upsampling_ratios.len();
    let blocks: usize = config.decoder_upsample_rates.len();
    let mut list: Vec<Part> = Vec::new();
    proof {
        assert(models(list@) =~= Seq::<PartModel>::empty());
    }
    ask_codebook(&mut list, "decoder.quantizer.rvq_first.vq.layers.0._codebook");
    ask_rest_codebooks(&mut list, rest);
    ask_projection(&mut list, "decoder.quantizer.rvq_first.output_proj");
    ask_projection(&mut list, "decoder.quantizer.rvq_rest.output_proj");
    ask_causal_conv(&mut list, "decoder.pre_conv");
    ask_linear(&mut list, "decoder.pre_transformer.input_proj");
    ask_layers(&mut list, layers);
    ask_rms_norm(&mut list, "decoder.pre_transformer.norm");
    ask_linear(&mut list, "decoder.pre_transformer.output_proj");
    ask_stages(&mut list, stages);
    ask_causal_conv(&mut list, "decoder.decoder.0");
    ask_blocks(&mut list, blocks);
    ask_snake(&mut list, "decoder.decoder.5");
    ask_causal_conv(&mut list, "decoder.decoder.6");
    proof {
        assert(models(list@) =~= parts_of(*config));
    }
    list
}

/// A tensor with its shape. The numbers are given by their bits.
#[derive(Debug)]
pub struct ShapedTensor {
    pub shape: Vec<usize>,
    pub values: Vec<u32>,
}

/// A tensor with its shape, as a model.
pub type ShapedModel = (Seq<usize>, Seq<u32>);

/// What was loaded for a part.
pub open spec fn loaded_model(loaded: Option<ShapedTensor>) -> Option<ShapedModel> {
    match loaded {
        Some(t) => Some((t.shape@, t.values@)),
        None => None,
    }
}

/// The models of what was loaded.
pub open spec fn loaded_models(list: Seq<Option<ShapedTensor>>) -> Seq<Option<ShapedModel>> {
    list.map_values(|t: Option<ShapedTensor>| loaded_model(t))
}

/// What a part gives on the tensors of an archive; nothing where it is missing and may be.
pub open spec fn fetched(tensors: Map<Seq<char>, TensorModel>, part: PartModel) -> Result<
    Option<ShapedModel>,
    Seq<char>,
> {
    if !tensors.contains_key(part.name) {
        if part.optional {
            Ok(None)
        } else {
            Err(archive::missing_text(part.name))
        }
    } else {
        let t = tensors[part.name];
        if t.shape.len() != part.rank {
            Err(tensor::rank_text(part.name, t.shape.len(), part.rank as nat))
        } else {
            match tensor::values_of(part.name, t.dtype, t.data, archive::product(t.shape)) {
                Ok(values) => Ok(Some((t.shape, values))),
                Err(why) => Err(why),
            }
        }
    }
}

/// What a list of parts gives: the tensor of every part, or the error of the first part
/// that has one.
pub open spec fn fetched_all(tensors: Map<Seq<char>, TensorModel>, parts: Seq<PartModel>) -> Result<
    Seq<Option<ShapedModel>>,
    Seq<char>,
>
    decreases parts.len(),
{
    if parts.len() == 0 {
        Ok(Seq::empty())
    } else {
        match fetched_all(tensors, parts.drop_last()) {
            Err(why) => Err(why),
            Ok(before) => match fetched(tensors, parts.last()) {
                Ok(one) => Ok(before.push(one)),
                Err(why) => Err(why),
            },
        }
    }
}

/// Reads the tensor of a part, where there is one.
pub fn fetch(archive: &TensorArchive, part: &Part) -> (loaded: Result<Option<ShapedTensor>, Error>)
    ensures
        archive.contents() is None ==> (loaded matches Err(e) && archive::is_parse_error(e)),
        archive.contents() matches Some(tensors) ==> match (loaded, fetched(tensors, part@)) {
            (Ok(got), Ok(expected)) => loaded_model(got) == expected,
            (Err(e), Err(why)) => error::is_invalid(e, why),
            _ => false,
        },
{
    let name: &str = part.name.as_str();
    if part.optional {
        match archive.has_tensor(name) {
            Err(e) => {
                return Err(e);
            },
            Ok(found) => {
                if !found {
                    return Ok(None);
                }
            },
        }
    }
    let stored: StoredTensor = match archive.tensor(name) {
        Ok(stored) => stored,
        Err(e) => {
            return Err(e);
        },
    };
    if stored.shape.len() != part.rank {
        return Err(rank_error(name, stored.shape.len(), part.rank));
    }
    let count: usize = element_count(stored.shape.as_slice());
    match tensor_to_f32(name, stored.dtype.as_str(), stored.data.as_slice(), count) {
        Ok(values) => Ok(Some(ShapedTensor { shape: stored.shape, values })),
        Err(e) => Err(e),
    }
}

/// Reads all tensors of the decoder, one entry for every part. The first one that is
/// missing or unusable decides the error.
pub fn load_decoder_12hz(archive: &TensorArchive, config: &Decoder12HzConfig) -> (list: Result<
    Vec<Option<ShapedTensor>>,
    Error,
>)
    requires
        config.num_quantizers > 0,
        config.transformer_layers < usize::MAX,
        config.upsampling_ratios@.len() < usize::MAX,
        config.decoder_upsample_rates@.len() < usize::MAX,
    ensures
        archive.contents() is None ==> (list matches Err(e) && archive::is_parse_error(e)),
        archive.contents() matches Some(tensors) ==> match (
            list,
            fetched_all(tensors, parts_of(*config)),
        ) {
            (Ok(got), Ok(expected)) => loaded_models(got@) == expected,
            (Err(e), Err(why)) => error::is_invalid(e, why),
            _ => false,
        },
{
    let parts: Vec<Part> = list_parts(config);
    let ghost wanted = models(parts@);
    let mut list: Vec<Option<ShapedTensor>> = Vec::new();
    let mut index: usize = 0;
    proof {
        assert(wanted.len() > 0) by {
            assert(codebook_parts("decoder.quantizer.rvq_first.vq.layers.0._codebook"@).len() == 2);
        }
        assert(loaded_models(list@) =~= Seq::<Option<ShapedModel>>::empty());
    }
    while index < parts.len()
        invariant
            wanted == models(parts@),
            wanted == parts_of(*config),
            wanted.len() > 0,
            index <= parts@.len(),
            archive.contents() is None ==> index == 0,
            archive.contents() matches Some(tensors) ==> fetched_all(
                tensors,
                wanted.take(index as int),
            ) == Ok::<Seq<Option<ShapedModel>>, Seq<char>>(loaded_models(list@)),
        decreases parts@.len() - index,
    {
        let ghost so_far = loaded_models(list@);
        proof {
            let grown = wanted.take(index as int + 1);
            assert(grown.drop_last() =~= wanted.take(index as int));
            assert(grown.last() == parts@[index as int]@);
        }
        match fetch(archive, &parts[index]) {
            Err(e) => {
                proof {
                    if let Some(tensors) = archive.contents() {
                        lemma_first_error(tensors, wanted, index as int + 1);
                    }
                }
                return Err(e);
            },
            Ok(one) => {
                list.push(one);
                proof {
                    assert(loaded_models(list@) =~= so_far.push(loaded_model(one)));
                }
            },
        }
        index += 1;
    }
    proof {
        assert(wanted.take(wanted.len() as int) =~= wanted);
    }
    Ok(list)
}

/// The error of a first few parts is the error of all parts.
pub proof fn lemma_first_error(
    tensors: Map<Seq<char>, TensorModel>,
    parts: Seq<PartModel>,
    count: int,
)
    requires
        0 <= count <= parts.len(),
        fetched_all(tensors, parts.take(count)) is Err,
    ensures
        fetched_all(tensors, parts) == fetched_all(tensors, parts.take(count)),
    decreases parts.len() - count,
{
    if count == parts.len() {
        assert(parts.take(count) =~= parts);
    } else {
        assert(parts.take(count + 1).drop_last() =~= parts.take(count));
        lemma_first_error(tensors, parts, count + 1);
    }
}

} // verus!

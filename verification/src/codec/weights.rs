//! Which tensors of the model the codec asks for, and loading them.

use vstd::prelude::*;

use crate::archive::{self, StoredTensor, TensorArchive, TensorModel};
use crate::codec::decoder::block_channels;
use crate::codec::dims::{
    CODEBOOK_DIM, CODEBOOK_SIZE, CODE_GROUPS, CONVNEXT_INTERMEDIATE, CONVNEXT_KERNEL,
    DECODER_BLOCKS, DECODER_FINAL_CHANNELS, DECODER_FINAL_KERNEL, DECODER_INIT_CHANNELS,
    DECODER_INIT_KERNEL, PRE_CONV_KERNEL, PRE_CONV_OUT, PROJECTED_DIM, RESIDUAL_KERNEL,
    RESIDUAL_POINTWISE_KERNEL, TRANSFORMER_HIDDEN, TRANSFORMER_LAYERS, UPSAMPLE_CHANNELS,
    UPSAMPLE_RATIO,
};
use crate::codec::sizes;
use crate::device::op::{LayerWeight, ResidualWeight, UpsampleWeight, Weight};
use crate::error::{self, Error};
use crate::tensor::{self, linear_weight_transposed, tensor_f32, vector_f32};
use crate::text::{self, push_usize};

verus! {

/// What a loaded tensor is for.
#[derive(Clone, Copy, PartialEq, Eq, Structural, Debug)]
pub enum Slot {
    /// A tensor that goes to the device as it is.
    Tensor(Weight),
    /// The summed embeddings of a codebook, number 0 being the first quantiser's.
    Codebook(usize),
    /// How often each entry of a codebook was used: what the sums are divided by.
    Usage(usize),
}

/// How a stored tensor is read.
#[derive(Debug)]
pub enum Form {
    /// It must have this shape.
    Shape(Vec<usize>),
    /// It must have one dimension.
    Vector,
    /// It is the matrix of a linear layer, which is transposed.
    Linear,
    /// The same, and its widths must be these.
    LinearOf { label: String, inputs: usize, outputs: usize },
}

/// How a stored tensor is read, as a model.
pub enum FormModel {
    Shape(Seq<usize>),
    Vector,
    Linear,
    LinearOf { label: Seq<char>, inputs: usize, outputs: usize },
}

impl View for Form {
    type V = FormModel;

    open spec fn view(&self) -> FormModel {
        match *self {
            Form::Shape(shape) => FormModel::Shape(shape@),
            Form::Vector => FormModel::Vector,
            Form::Linear => FormModel::Linear,
            Form::LinearOf { label, inputs, outputs } => FormModel::LinearOf {
                label: label@,
                inputs,
                outputs,
            },
        }
    }
}

/// A tensor that the codec asks for.
#[derive(Debug)]
pub struct Request {
    pub slot: Slot,
    pub name: String,
    pub form: Form,
}

/// A tensor that the codec asks for, as a model.
pub struct RequestModel {
    pub slot: Slot,
    pub name: Seq<char>,
    pub form: FormModel,
}

impl View for Request {
    type V = RequestModel;

    open spec fn view(&self) -> RequestModel {
        RequestModel { slot: self.slot, name: self.name@, form: self.form@ }
    }
}

/// The models of a list of requests.
pub open spec fn models(list: Seq<Request>) -> Seq<RequestModel> {
    list.map_values(|r: Request| r@)
}

/// A request for a tensor of a given shape.
pub open spec fn shaped(slot: Slot, name: Seq<char>, shape: Seq<usize>) -> RequestModel {
    RequestModel { slot, name, form: FormModel::Shape(shape) }
}

/// A request for the matrix of a linear layer.
pub open spec fn linear(slot: Slot, name: Seq<char>) -> RequestModel {
    RequestModel { slot, name, form: FormModel::Linear }
}

/// `prefix` with `suffix` behind it.
pub fn joined(prefix: &str, suffix: &str) -> (name: String)
    ensures
        name@ == prefix@ + suffix@,
{
    let mut name = prefix.to_owned();
    name.append(suffix);
    name
}

/// `prefix` with a number and `suffix` behind it.
pub fn numbered(prefix: &str, index: usize, suffix: &str) -> (name: String)
    ensures
        name@ == prefix@ + text::decimal(index as nat) + suffix@,
{
    let mut name = prefix.to_owned();
    push_usize(&mut name, index);
    name.append(suffix);
    name
}

fn ask(list: &mut Vec<Request>, slot: Slot, name: String, form: Form)
    ensures
        models(final(list)@) == models(old(list)@).push(
            RequestModel { slot, name: name@, form: form@ },
        ),
{
    list.push(Request { slot, name, form });
    proof {
        assert(models(list@) =~= models(old(list)@).push(
            RequestModel { slot, name: name@, form: form@ },
        ));
    }
}

fn ask_vector(list: &mut Vec<Request>, weight: Weight, prefix: &str, suffix: &str, len: usize)
    ensures
        models(final(list)@) == models(old(list)@).push(
            shaped(Slot::Tensor(weight), prefix@ + suffix@, seq![len]),
        ),
{
    let shape: Vec<usize> = vec![len];
    proof {
        assert(shape@ =~= seq![len]);
    }
    ask(list, Slot::Tensor(weight), joined(prefix, suffix), Form::Shape(shape));
}

fn ask_cube(
    list: &mut Vec<Request>,
    weight: Weight,
    prefix: &str,
    suffix: &str,
    dims: (usize, usize, usize),
)
    ensures
        models(final(list)@) == models(old(list)@).push(
            shaped(
                Slot::Tensor(weight),
                prefix@ + suffix@,
                seq![dims.0, dims.1, dims.2],
            ),
        ),
{
    let shape: Vec<usize> = vec![dims.0, dims.1, dims.2];
    proof {
        assert(shape@ =~= seq![dims.0, dims.1, dims.2]);
    }
    ask(list, Slot::Tensor(weight), joined(prefix, suffix), Form::Shape(shape));
}

fn ask_linear(list: &mut Vec<Request>, weight: Weight, prefix: &str, suffix: &str)
    ensures
        models(final(list)@) == models(old(list)@).push(
            linear(Slot::Tensor(weight), prefix@ + suffix@),
        ),
{
    ask(list, Slot::Tensor(weight), joined(prefix, suffix), Form::Linear);
}

/// The prefix of the tensors of codebook `index`.
pub open spec fn codebook_prefix(index: int) -> Seq<char> {
    if index == 0 {
        "decoder.quantizer.rvq_first.vq.layers.0._codebook"@
    } else {
        "decoder.quantizer.rvq_rest.vq.layers."@ + text::decimal((index - 1) as nat)
            + "._codebook"@
    }
}

/// The two tensors of codebook `index`.
pub open spec fn codebook_requests(index: usize) -> Seq<RequestModel> {
    let prefix = codebook_prefix(index as int);
    seq![
        shaped(
            Slot::Codebook(index),
            prefix + ".embedding_sum"@,
            seq![CODEBOOK_SIZE, CODEBOOK_DIM],
        ),
        shaped(Slot::Usage(index), prefix + ".cluster_usage"@, seq![CODEBOOK_SIZE]),
    ]
}

/// The tensors of the first `count` codebooks.
pub open spec fn codebooks_requests(count: nat) -> Seq<RequestModel>
    decreases count,
{
    if count == 0 {
        Seq::empty()
    } else {
        codebooks_requests((count - 1) as nat) + codebook_requests((count - 1) as usize)
    }
}

/// The tensors between the codebooks and the transformer layers.
pub open spec fn front_requests() -> Seq<RequestModel> {
    let projection = seq![PROJECTED_DIM, CODEBOOK_DIM, 1];
    seq![
        shaped(
            Slot::Tensor(Weight::FirstProjection),
            "decoder.quantizer.rvq_first.output_proj"@ + ".weight"@,
            projection,
        ),
        shaped(
            Slot::Tensor(Weight::RestProjection),
            "decoder.quantizer.rvq_rest.output_proj"@ + ".weight"@,
            projection,
        ),
        shaped(
            Slot::Tensor(Weight::PreConvWeight),
            "decoder.pre_conv.conv"@ + ".weight"@,
            seq![PRE_CONV_OUT, PROJECTED_DIM, PRE_CONV_KERNEL],
        ),
        shaped(
            Slot::Tensor(Weight::PreConvBias),
            "decoder.pre_conv.conv"@ + ".bias"@,
            seq![PRE_CONV_OUT],
        ),
        RequestModel {
            slot: Slot::Tensor(Weight::InputProjection),
            name: "decoder.pre_transformer.input_proj"@ + ".weight"@,
            form: FormModel::LinearOf {
                label: "input_proj"@,
                inputs: PRE_CONV_OUT,
                outputs: TRANSFORMER_HIDDEN,
            },
        },
        shaped(
            Slot::Tensor(Weight::InputBias),
            "decoder.pre_transformer.input_proj"@ + ".bias"@,
            seq![TRANSFORMER_HIDDEN],
        ),
        RequestModel {
            slot: Slot::Tensor(Weight::OutputProjection),
            name: "decoder.pre_transformer.output_proj"@ + ".weight"@,
            form: FormModel::LinearOf {
                label: "output_proj"@,
                inputs: TRANSFORMER_HIDDEN,
                outputs: PRE_CONV_OUT,
            },
        },
        shaped(
            Slot::Tensor(Weight::OutputBias),
            "decoder.pre_transformer.output_proj"@ + ".bias"@,
            seq![PRE_CONV_OUT],
        ),
        shaped(
            Slot::Tensor(Weight::FinalNorm),
            "decoder.pre_transformer.norm"@ + ".weight"@,
            seq![TRANSFORMER_HIDDEN],
        ),
    ]
}

/// The tensors of transformer layer `index`.
pub open spec fn layer_requests(index: usize) -> Seq<RequestModel> {
    let prefix = "decoder.pre_transformer.layers."@ + text::decimal(index as nat) + ""@;
    let slot = |part: LayerWeight| Slot::Tensor(Weight::Layer { index, part });
    let width = seq![TRANSFORMER_HIDDEN];
    seq![
        shaped(slot(LayerWeight::InputGamma), prefix + ".input_layernorm.weight"@, width),
        linear(slot(LayerWeight::Query), prefix + ".self_attn.q_proj.weight"@),
        linear(slot(LayerWeight::Key), prefix + ".self_attn.k_proj.weight"@),
        linear(slot(LayerWeight::Value), prefix + ".self_attn.v_proj.weight"@),
        linear(slot(LayerWeight::Output), prefix + ".self_attn.o_proj.weight"@),
        shaped(slot(LayerWeight::AttentionScale), prefix + ".self_attn_layer_scale.scale"@, width),
        shaped(slot(LayerWeight::PostGamma), prefix + ".post_attention_layernorm.weight"@, width),
        linear(slot(LayerWeight::Gate), prefix + ".mlp.gate_proj.weight"@),
        linear(slot(LayerWeight::Up), prefix + ".mlp.up_proj.weight"@),
        linear(slot(LayerWeight::Down), prefix + ".mlp.down_proj.weight"@),
        shaped(slot(LayerWeight::MlpScale), prefix + ".mlp_layer_scale.scale"@, width),
    ]
}

/// The tensors of the first `count` transformer layers.
pub open spec fn layers_requests(count: nat) -> Seq<RequestModel>
    decreases count,
{
    if count == 0 {
        Seq::empty()
    } else {
        layers_requests((count - 1) as nat) + layer_requests((count - 1) as usize)
    }
}

/// The tensors of upsampling stage `stage`.
pub open spec fn stage_requests(stage: usize) -> Seq<RequestModel> {
    let prefix = "decoder.upsample."@ + text::decimal(stage as nat) + ""@;
    let slot = |tensor: UpsampleWeight| Slot::Tensor(Weight::Upsample { stage, tensor });
    let width = seq![UPSAMPLE_CHANNELS];
    seq![
        shaped(
            slot(UpsampleWeight::TransWeight),
            prefix + ".0.conv.weight"@,
            seq![UPSAMPLE_CHANNELS, UPSAMPLE_CHANNELS, UPSAMPLE_RATIO],
        ),
        shaped(slot(UpsampleWeight::TransBias), prefix + ".0.conv.bias"@, width),
        shaped(
            slot(UpsampleWeight::DepthwiseWeight),
            prefix + ".1.dwconv.conv.weight"@,
            seq![UPSAMPLE_CHANNELS, 1, CONVNEXT_KERNEL],
        ),
        shaped(slot(UpsampleWeight::DepthwiseBias), prefix + ".1.dwconv.conv.bias"@, width),
        shaped(slot(UpsampleWeight::NormGamma), prefix + ".1.norm.weight"@, width),
        shaped(slot(UpsampleWeight::NormBeta), prefix + ".1.norm.bias"@, width),
        linear(slot(UpsampleWeight::Pointwise1Weight), prefix + ".1.pwconv1.weight"@),
        shaped(
            slot(UpsampleWeight::Pointwise1Bias),
            prefix + ".1.pwconv1.bias"@,
            seq![CONVNEXT_INTERMEDIATE],
        ),
        linear(slot(UpsampleWeight::Pointwise2Weight), prefix + ".1.pwconv2.weight"@),
        shaped(slot(UpsampleWeight::Pointwise2Bias), prefix + ".1.pwconv2.bias"@, width),
        shaped(slot(UpsampleWeight::Gamma), prefix + ".1.gamma"@, width),
    ]
}

/// The tensors of residual unit `unit` of block `block`, under `prefix`.
pub open spec fn unit_requests(
    block: usize,
    unit: usize,
    prefix: Seq<char>,
    channels: usize,
) -> Seq<RequestModel> {
    let slot = |role: ResidualWeight| Slot::Tensor(Weight::Residual { block, unit, role });
    let width = seq![channels];
    seq![
        shaped(slot(ResidualWeight::Alpha1), prefix + ".act1.alpha"@, width),
        shaped(slot(ResidualWeight::Beta1), prefix + ".act1.beta"@, width),
        shaped(
            slot(ResidualWeight::Conv1Weight),
            prefix + ".conv1.conv.weight"@,
            seq![channels, channels, RESIDUAL_KERNEL],
        ),
        shaped(slot(ResidualWeight::Conv1Bias), prefix + ".conv1.conv.bias"@, width),
        shaped(slot(ResidualWeight::Alpha2), prefix + ".act2.alpha"@, width),
        shaped(slot(ResidualWeight::Beta2), prefix + ".act2.beta"@, width),
        shaped(
            slot(ResidualWeight::Conv2Weight),
            prefix + ".conv2.conv.weight"@,
            seq![channels, channels, RESIDUAL_POINTWISE_KERNEL],
        ),
        shaped(slot(ResidualWeight::Conv2Bias), prefix + ".conv2.conv.bias"@, width),
    ]
}

/// The prefix of the tensors of decoder block `block`.
pub open spec fn block_prefix(block: usize) -> Seq<char> {
    "decoder.decoder."@ + text::decimal((block + 1) as nat) + ".block"@
}

/// The tensors of decoder block `block`.
pub open spec fn block_requests(block: usize) -> Seq<RequestModel> {
    let prefix = block_prefix(block);
    let (in_channels, out_channels, stride) = sizes::block_dims(block as int);
    seq![
        shaped(
            Slot::Tensor(Weight::BlockTransWeight { block }),
            prefix + ".1.conv.weight"@,
            seq![in_channels, out_channels, (stride * 2) as usize],
        ),
        shaped(
            Slot::Tensor(Weight::BlockTransBias { block }),
            prefix + ".1.conv.bias"@,
            seq![out_channels],
        ),
        shaped(
            Slot::Tensor(Weight::BlockAlpha { block }),
            prefix + ".0.alpha"@,
            seq![in_channels],
        ),
        shaped(
            Slot::Tensor(Weight::BlockBeta { block }),
            prefix + ".0.beta"@,
            seq![in_channels],
        ),
    ] + unit_requests(block, 0, prefix + ".2"@, out_channels) + unit_requests(
        block,
        1,
        prefix + ".3"@,
        out_channels,
    ) + unit_requests(block, 2, prefix + ".4"@, out_channels)
}

/// The tensors of the first `count` decoder blocks.
pub open spec fn blocks_requests(count: nat) -> Seq<RequestModel>
    decreases count,
{
    if count == 0 {
        Seq::empty()
    } else {
        blocks_requests((count - 1) as nat) + block_requests((count - 1) as usize)
    }
}

/// The tensors of the opening convolution of the decoder.
pub open spec fn opening_requests() -> Seq<RequestModel> {
    seq![
        shaped(
            Slot::Tensor(Weight::DecoderInitWeight),
            "decoder.decoder.0.conv"@ + ".weight"@,
            seq![DECODER_INIT_CHANNELS, PRE_CONV_OUT, DECODER_INIT_KERNEL],
        ),
        shaped(
            Slot::Tensor(Weight::DecoderInitBias),
            "decoder.decoder.0.conv"@ + ".bias"@,
            seq![DECODER_INIT_CHANNELS],
        ),
    ]
}

/// The tensors behind the decoder blocks.
pub open spec fn closing_requests() -> Seq<RequestModel> {
    seq![
        shaped(
            Slot::Tensor(Weight::FinalAlpha),
            "decoder.decoder.5"@ + ".alpha"@,
            seq![DECODER_FINAL_CHANNELS],
        ),
        shaped(
            Slot::Tensor(Weight::FinalBeta),
            "decoder.decoder.5"@ + ".beta"@,
            seq![DECODER_FINAL_CHANNELS],
        ),
        shaped(
            Slot::Tensor(Weight::FinalConvWeight),
            "decoder.decoder.6.conv"@ + ".weight"@,
            seq![1, DECODER_FINAL_CHANNELS, DECODER_FINAL_KERNEL],
        ),
        shaped(
            Slot::Tensor(Weight::FinalConvBias),
            "decoder.decoder.6.conv"@ + ".bias"@,
            seq![1],
        ),
    ]
}

/// All tensors that the codec asks for, in the order in which it asks.
pub open spec fn codec_requests() -> Seq<RequestModel> {
    codebooks_requests(CODE_GROUPS as nat) + front_requests() + layers_requests(
        TRANSFORMER_LAYERS as nat,
    ) + stage_requests(0) + stage_requests(1) + opening_requests() + blocks_requests(
        DECODER_BLOCKS as nat,
    ) + closing_requests()
}

fn ask_codebook(list: &mut Vec<Request>, index: usize)
    ensures
        models(final(list)@) == models(old(list)@) + codebook_requests(index),
{
    let ghost before = models(list@);
    let prefix: String = if index == 0 {
        "decoder.quantizer.rvq_first.vq.layers.0._codebook".to_owned()
    } else {
        numbered("decoder.quantizer.rvq_rest.vq.layers.", index - 1, "._codebook")
    };
    let table: Vec<usize> = vec![CODEBOOK_SIZE, CODEBOOK_DIM];
    let counts: Vec<usize> = vec![CODEBOOK_SIZE];
    proof {
        assert(table@ =~= seq![CODEBOOK_SIZE, CODEBOOK_DIM]);
        assert(counts@ =~= seq![CODEBOOK_SIZE]);
    }
    ask(
        list,
        Slot::Codebook(index),
        joined(prefix.as_str(), ".embedding_sum"),
        Form::Shape(table),
    );
    ask(
        list,
        Slot::Usage(index),
        joined(prefix.as_str(), ".cluster_usage"),
        Form::Shape(counts),
    );
    proof {
        assert(models(list@) =~= before + codebook_requests(index));
    }
}

fn ask_front(list: &mut Vec<Request>)
    ensures
        models(final(list)@) == models(old(list)@) + front_requests(),
{
    let ghost before = models(list@);
    ask_cube(
        list,
        Weight::FirstProjection,
        "decoder.quantizer.rvq_first.output_proj",
        ".weight",
        (PROJECTED_DIM, CODEBOOK_DIM, 1),
    );
    ask_cube(
        list,
        Weight::RestProjection,
        "decoder.quantizer.rvq_rest.output_proj",
        ".weight",
        (PROJECTED_DIM, CODEBOOK_DIM, 1),
    );
    ask_cube(
        list,
        Weight::PreConvWeight,
        "decoder.pre_conv.conv",
        ".weight",
        (PRE_CONV_OUT, PROJECTED_DIM, PRE_CONV_KERNEL),
    );
    ask_vector(list, Weight::PreConvBias, "decoder.pre_conv.conv", ".bias", PRE_CONV_OUT);
    ask(
        list,
        Slot::Tensor(Weight::InputProjection),
        joined("decoder.pre_transformer.input_proj", ".weight"),
        Form::LinearOf {
            label: "input_proj".to_owned(),
            inputs: PRE_CONV_OUT,
            outputs: TRANSFORMER_HIDDEN,
        },
    );
    ask_vector(
        list,
        Weight::InputBias,
        "decoder.pre_transformer.input_proj",
        ".bias",
        TRANSFORMER_HIDDEN,
    );
    ask(
        list,
        Slot::Tensor(Weight::OutputProjection),
        joined("decoder.pre_transformer.output_proj", ".weight"),
        Form::LinearOf {
            label: "output_proj".to_owned(),
            inputs: TRANSFORMER_HIDDEN,
            outputs: PRE_CONV_OUT,
        },
    );
    ask_vector(
        list,
        Weight::OutputBias,
        "decoder.pre_transformer.output_proj",
        ".bias",
        PRE_CONV_OUT,
    );
    ask_vector(
        list,
        Weight::FinalNorm,
        "decoder.pre_transformer.norm",
        ".weight",
        TRANSFORMER_HIDDEN,
    );
    proof {
        assert(models(list@) =~= before + front_requests());
    }
}

fn ask_layer(list: &mut Vec<Request>, index: usize)
    ensures
        models(final(list)@) == models(old(list)@) + layer_requests(index),
{
    let ghost before = models(list@);
    let prefix: String = numbered("decoder.pre_transformer.layers.", index, "");
    let p: &str = prefix.as_str();
    let hidden: usize = TRANSFORMER_HIDDEN;
    let input_gamma = Weight::Layer { index, part: LayerWeight::InputGamma };
    ask_vector(list, input_gamma, p, ".input_layernorm.weight", hidden);
    let query = Weight::Layer { index, part: LayerWeight::Query };
    ask_linear(list, query, p, ".self_attn.q_proj.weight");
    let key = Weight::Layer { index, part: LayerWeight::Key };
    ask_linear(list, key, p, ".self_attn.k_proj.weight");
    let value = Weight::Layer { index, part: LayerWeight::Value };
    ask_linear(list, value, p, ".self_attn.v_proj.weight");
    let output = Weight::Layer { index, part: LayerWeight::Output };
    ask_linear(list, output, p, ".self_attn.o_proj.weight");
    let attention_scale = Weight::Layer { index, part: LayerWeight::AttentionScale };
    ask_vector(list, attention_scale, p, ".self_attn_layer_scale.scale", hidden);
    let post_gamma = Weight::Layer { index, part: LayerWeight::PostGamma };
    ask_vector(list, post_gamma, p, ".post_attention_layernorm.weight", hidden);
    let gate = Weight::Layer { index, part: LayerWeight::Gate };
    ask_linear(list, gate, p, ".mlp.gate_proj.weight");
    let up = Weight::Layer { index, part: LayerWeight::Up };
    ask_linear(list, up, p, ".mlp.up_proj.weight");
    let down = Weight::Layer { index, part: LayerWeight::Down };
    ask_linear(list, down, p, ".mlp.down_proj.weight");
    let mlp_scale = Weight::Layer { index, part: LayerWeight::MlpScale };
    ask_vector(list, mlp_scale, p, ".mlp_layer_scale.scale", hidden);
    proof {
        assert(models(list@) =~= before + layer_requests(index));
    }
}

fn ask_stage(list: &mut Vec<Request>, stage: usize)
    ensures
        models(final(list)@) == models(old(list)@) + stage_requests(stage),
{
    let ghost before = models(list@);
    let prefix: String = numbered("decoder.upsample.", stage, "");
    let p: &str = prefix.as_str();
    let width: usize = UPSAMPLE_CHANNELS;
    let trans_weight = Weight::Upsample { stage, tensor: UpsampleWeight::TransWeight };
    ask_cube(list, trans_weight, p, ".0.conv.weight", (width, width, UPSAMPLE_RATIO));
    let trans_bias = Weight::Upsample { stage, tensor: UpsampleWeight::TransBias };
    ask_vector(list, trans_bias, p, ".0.conv.bias", width);
    let dw_weight = Weight::Upsample { stage, tensor: UpsampleWeight::DepthwiseWeight };
    ask_cube(list, dw_weight, p, ".1.dwconv.conv.weight", (width, 1, CONVNEXT_KERNEL));
    let dw_bias = Weight::Upsample { stage, tensor: UpsampleWeight::DepthwiseBias };
    ask_vector(list, dw_bias, p, ".1.dwconv.conv.bias", width);
    let norm_gamma = Weight::Upsample { stage, tensor: UpsampleWeight::NormGamma };
    ask_vector(list, norm_gamma, p, ".1.norm.weight", width);
    let norm_beta = Weight::Upsample { stage, tensor: UpsampleWeight::NormBeta };
    ask_vector(list, norm_beta, p, ".1.norm.bias", width);
    let pw1_weight = Weight::Upsample { stage, tensor: UpsampleWeight::Pointwise1Weight };
    ask_linear(list, pw1_weight, p, ".1.pwconv1.weight");
    let pw1_bias = Weight::Upsample { stage, tensor: UpsampleWeight::Pointwise1Bias };
    ask_vector(list, pw1_bias, p, ".1.pwconv1.bias", CONVNEXT_INTERMEDIATE);
    let pw2_weight = Weight::Upsample { stage, tensor: UpsampleWeight::Pointwise2Weight };
    ask_linear(list, pw2_weight, p, ".1.pwconv2.weight");
    let pw2_bias = Weight::Upsample { stage, tensor: UpsampleWeight::Pointwise2Bias };
    ask_vector(list, pw2_bias, p, ".1.pwconv2.bias", width);
    let gamma = Weight::Upsample { stage, tensor: UpsampleWeight::Gamma };
    ask_vector(list, gamma, p, ".1.gamma", width);
    proof {
        assert(models(list@) =~= before + stage_requests(stage));
    }
}

fn ask_unit(list: &mut Vec<Request>, block: usize, unit: usize, p: &str, channels: usize)
    ensures
        models(final(list)@) == models(old(list)@) + unit_requests(block, unit, p@, channels),
{
    let ghost before = models(list@);
    let alpha1 = Weight::Residual { block, unit, role: ResidualWeight::Alpha1 };
    ask_vector(list, alpha1, p, ".act1.alpha", channels);
    let beta1 = Weight::Residual { block, unit, role: ResidualWeight::Beta1 };
    ask_vector(list, beta1, p, ".act1.beta", channels);
    let conv1_weight = Weight::Residual { block, unit, role: ResidualWeight::Conv1Weight };
    ask_cube(
        list,
        conv1_weight,
        p,
        ".conv1.conv.weight",
        (channels, channels, RESIDUAL_KERNEL),
    );
    let conv1_bias = Weight::Residual { block, unit, role: ResidualWeight::Conv1Bias };
    ask_vector(list, conv1_bias, p, ".conv1.conv.bias", channels);
    let alpha2 = Weight::Residual { block, unit, role: ResidualWeight::Alpha2 };
    ask_vector(list, alpha2, p, ".act2.alpha", channels);
    let beta2 = Weight::Residual { block, unit, role: ResidualWeight::Beta2 };
    ask_vector(list, beta2, p, ".act2.beta", channels);
    let conv2_weight = Weight::Residual { block, unit, role: ResidualWeight::Conv2Weight };
    ask_cube(
        list,
        conv2_weight,
        p,
        ".conv2.conv.weight",
        (channels, channels, RESIDUAL_POINTWISE_KERNEL),
    );
    let conv2_bias = Weight::Residual { block, unit, role: ResidualWeight::Conv2Bias };
    ask_vector(list, conv2_bias, p, ".conv2.conv.bias", channels);
    proof {
        assert(models(list@) =~= before + unit_requests(block, unit, p@, channels));
    }
}

fn ask_block(list: &mut Vec<Request>, block: usize)
    requires
        block < usize::MAX,
    ensures
        models(final(list)@) == models(old(list)@) + block_requests(block),
{
    let ghost before = models(list@);
    let prefix: String = numbered("decoder.decoder.", block + 1, ".block");
    let p: &str = prefix.as_str();
    let (in_channels, out_channels, stride) = block_channels(block);
    ask_cube(
        list,
        Weight::BlockTransWeight { block },
        p,
        ".1.conv.weight",
        (in_channels, out_channels, stride * 2),
    );
    ask_vector(list, Weight::BlockTransBias { block }, p, ".1.conv.bias", out_channels);
    ask_vector(list, Weight::BlockAlpha { block }, p, ".0.alpha", in_channels);
    ask_vector(list, Weight::BlockBeta { block }, p, ".0.beta", in_channels);
    let first: String = joined(p, ".2");
    ask_unit(list, block, 0, first.as_str(), out_channels);
    let second: String = joined(p, ".3");
    ask_unit(list, block, 1, second.as_str(), out_channels);
    let third: String = joined(p, ".4");
    ask_unit(list, block, 2, third.as_str(), out_channels);
    proof {
        assert(models(list@) =~= before + block_requests(block));
    }
}

fn ask_opening(list: &mut Vec<Request>)
    ensures
        models(final(list)@) == models(old(list)@) + opening_requests(),
{
    let ghost before = models(list@);
    ask_cube(
        list,
        Weight::DecoderInitWeight,
        "decoder.decoder.0.conv",
        ".weight",
        (DECODER_INIT_CHANNELS, PRE_CONV_OUT, DECODER_INIT_KERNEL),
    );
    ask_vector(
        list,
        Weight::DecoderInitBias,
        "decoder.decoder.0.conv",
        ".bias",
        DECODER_INIT_CHANNELS,
    );
    proof {
        assert(models(list@) =~= before + opening_requests());
    }
}

fn ask_closing(list: &mut Vec<Request>)
    ensures
        models(final(list)@) == models(old(list)@) + closing_requests(),
{
    let ghost before = models(list@);
    ask_vector(
        list,
        Weight::FinalAlpha,
        "decoder.decoder.5",
        ".alpha",
        DECODER_FINAL_CHANNELS,
    );
    ask_vector(list, Weight::FinalBeta, "decoder.decoder.5", ".beta", DECODER_FINAL_CHANNELS);
    ask_cube(
        list,
        Weight::FinalConvWeight,
        "decoder.decoder.6.conv",
        ".weight",
        (1, DECODER_FINAL_CHANNELS, DECODER_FINAL_KERNEL),
    );
    ask_vector(list, Weight::FinalConvBias, "decoder.decoder.6.conv", ".bias", 1);
    proof {
        assert(models(list@) =~= before + closing_requests());
    }
}

/// All tensors that the codec asks for, in the order in which it asks.
pub fn list_requests() -> (list: Vec<Request>)
    ensures
        models(list@) == codec_requests(),
{
    let mut list: Vec<Request> = Vec::new();
    proof {
        assert(models(list@) =~= codebooks_requests(0));
    }
    let mut index: usize = 0;
    while index < CODE_GROUPS
        invariant
            index <= CODE_GROUPS,
            models(list@) == codebooks_requests(index as nat),
        decreases CODE_GROUPS - index,
    {
        ask_codebook(&mut list, index);
        index += 1;
    }
    let ghost books = models(list@);
    ask_front(&mut list);
    let ghost front = models(list@);
    proof {
        assert(front + layers_requests(0) =~= front);
    }
    let mut layer: usize = 0;
    while layer < TRANSFORMER_LAYERS
        invariant
            layer <= TRANSFORMER_LAYERS,
            models(list@) == front + layers_requests(layer as nat),
        decreases TRANSFORMER_LAYERS - layer,
    {
        ask_layer(&mut list, layer);
        proof {
            let done = layers_requests(layer as nat);
            let next = layer_requests(layer);
            assert(front + done + next =~= front + (done + next));
        }
        layer += 1;
    }
    ask_stage(&mut list, 0);
    ask_stage(&mut list, 1);
    ask_opening(&mut list);
    let ghost middle = models(list@);
    proof {
        assert(middle + blocks_requests(0) =~= middle);
    }
    let mut block: usize = 0;
    while block < DECODER_BLOCKS
        invariant
            block <= DECODER_BLOCKS,
            models(list@) == middle + blocks_requests(block as nat),
        decreases DECODER_BLOCKS - block,
    {
        ask_block(&mut list, block);
        proof {
            let done = blocks_requests(block as nat);
            let next = block_requests(block);
            assert(middle + done + next =~= middle + (done + next));
        }
        block += 1;
    }
    ask_closing(&mut list);
    list
}

/// The text for a linear layer of other widths than expected.
pub open spec fn widths_text(label: Seq<char>, inputs: usize, outputs: usize) -> Seq<char> {
    "invalid codec "@ + label + " shape ["@ + text::decimal(outputs as nat) + ", "@ + text::decimal(
        inputs as nat,
    ) + "]"@
}

/// What a request gives on the tensors of an archive.
pub open spec fn fetched(tensors: Map<Seq<char>, TensorModel>, r: RequestModel) -> Result<
    Seq<u32>,
    Seq<char>,
> {
    if !tensors.contains_key(r.name) {
        Err(archive::missing_text(r.name))
    } else {
        let t = tensors[r.name];
        match r.form {
            FormModel::Shape(shape) => tensor::shaped_values(r.name, t, shape),
            FormModel::Vector => tensor::vector_values(r.name, t),
            FormModel::Linear => match tensor::linear_values(r.name, t) {
                Ok((values, _, _)) => Ok(values),
                Err(why) => Err(why),
            },
            FormModel::LinearOf { label, inputs, outputs } => match tensor::linear_values(
                r.name,
                t,
            ) {
                Ok((values, found_inputs, found_outputs)) => if found_inputs != inputs
                    || found_outputs != outputs {
                    Err(widths_text(label, found_inputs, found_outputs))
                } else {
                    Ok(values)
                },
                Err(why) => Err(why),
            },
        }
    }
}

/// What a list of requests gives: the numbers of every tensor, or the error of the first
/// request that has one.
pub open spec fn fetched_all(
    tensors: Map<Seq<char>, TensorModel>,
    requests: Seq<RequestModel>,
) -> Result<Seq<(Slot, Seq<u32>)>, Seq<char>>
    decreases requests.len(),
{
    if requests.len() == 0 {
        Ok(Seq::empty())
    } else {
        match fetched_all(tensors, requests.drop_last()) {
            Err(why) => Err(why),
            Ok(before) => match fetched(tensors, requests.last()) {
                Ok(values) => Ok(before.push((requests.last().slot, values))),
                Err(why) => Err(why),
            },
        }
    }
}

/// A tensor of the codec on the host, given by the bits of its numbers.
#[derive(Debug)]
pub struct LoadedTensor {
    pub slot: Slot,
    pub values: Vec<u32>,
}

/// What a list of loaded tensors holds.
pub open spec fn loaded(list: Seq<LoadedTensor>) -> Seq<(Slot, Seq<u32>)> {
    list.map_values(|t: LoadedTensor| (t.slot, t.values@))
}

fn widths_error(label: &str, inputs: usize, outputs: usize) -> (e: Error)
    ensures
        error::is_invalid(e, widths_text(label@, inputs, outputs)),
{
    let mut text = "invalid codec ".to_owned();
    text.append(label);
    text.append(" shape [");
    push_usize(&mut text, outputs);
    text.append(", ");
    push_usize(&mut text, inputs);
    text.append("]");
    Error::InvalidInput(text)
}

/// The numbers are as many as the form of the request asks for.
pub open spec fn filled(form: FormModel, values: Seq<u32>) -> bool {
    match form {
        FormModel::Shape(shape) => values.len() == archive::product(shape),
        FormModel::Vector => true,
        FormModel::Linear => true,
        FormModel::LinearOf { inputs, outputs, .. } => values.len() == inputs * outputs,
    }
}

/// The loaded tensors stand in the order of the requests, and each has as many numbers
/// as its request asks for.
pub open spec fn all_filled(requests: Seq<RequestModel>, list: Seq<LoadedTensor>) -> bool {
    &&& list.len() == requests.len()
    &&& forall|i: int|
        0 <= i < list.len() ==> (#[trigger] list[i]).slot == requests[i].slot && filled(
            requests[i].form,
            list[i].values@,
        )
}

/// Reads one tensor.
pub fn fetch(archive: &TensorArchive, request: &Request) -> (values: Result<Vec<u32>, Error>)
    ensures
        archive.contents() is None ==> (values matches Err(e) && archive::is_parse_error(e)),
        archive.contents() matches Some(tensors) ==> tensor::foretold(
            values,
            fetched(tensors, request@),
        ),
        values matches Ok(got) ==> filled(request@.form, got@),
{
    let name: &str = request.name.as_str();
    let stored: StoredTensor = match archive.tensor(name) {
        Ok(stored) => stored,
        Err(e) => {
            return Err(e);
        },
    };
    match &request.form {
        Form::Shape(shape) => tensor_f32(&stored, name, shape.as_slice()),
        Form::Vector => vector_f32(&stored, name),
        Form::Linear => match linear_weight_transposed(&stored, name) {
            Ok((values, _, _)) => Ok(values),
            Err(e) => Err(e),
        },
        Form::LinearOf { label, inputs, outputs } => match linear_weight_transposed(
            &stored,
            name,
        ) {
            Ok((values, found_inputs, found_outputs)) => {
                proof {
                    tensor::lemma_product_two(stored.shape@);
                    assert(*outputs * *inputs == *inputs * *outputs) by (nonlinear_arith);
                }
                if found_inputs != *inputs || found_outputs != *outputs {
                    Err(widths_error(label.as_str(), found_inputs, found_outputs))
                } else {
                    Ok(values)
                }
            },
            Err(e) => Err(e),
        },
    }
}

/// Reads the tensors of a list of requests, in order.
pub fn fetch_all(archive: &TensorArchive, requests: &Vec<Request>) -> (list: Result<
    Vec<LoadedTensor>,
    Error,
>)
    ensures
        archive.contents() is None && requests@.len() > 0 ==> (list matches Err(e)
            && archive::is_parse_error(e)),
        archive.contents() matches Some(tensors) ==> match (
            list,
            fetched_all(tensors, models(requests@)),
        ) {
            (Ok(got), Ok(expected)) => loaded(got@) == expected,
            (Err(e), Err(why)) => error::is_invalid(e, why),
            _ => false,
        },
        list matches Ok(got) ==> all_filled(models(requests@), got@),
{
    let mut list: Vec<LoadedTensor> = Vec::new();
    let mut index: usize = 0;
    let ghost all = models(requests@);
    proof {
        assert(all.take(0) =~= Seq::<RequestModel>::empty());
        assert(loaded(list@) =~= Seq::<(Slot, Seq<u32>)>::empty());
    }
    while index < requests.len()
        invariant
            index <= requests@.len(),
            all == models(requests@),
            archive.contents() is None ==> index == 0,
            all_filled(all.take(index as int), list@),
            archive.contents() matches Some(tensors) ==> fetched_all(
                tensors,
                all.take(index as int),
            ) == Ok::<Seq<(Slot, Seq<u32>)>, Seq<char>>(loaded(list@)),
        decreases requests@.len() - index,
    {
        let ghost next = all.take(index as int + 1);
        proof {
            assert(next.drop_last() =~= all.take(index as int));
            assert(next.last() == requests@[index as int]@);
        }
        match fetch(archive, &requests[index]) {
            Ok(values) => {
                let ghost before = loaded(list@);
                list.push(LoadedTensor { slot: requests[index].slot, values });
                proof {
                    assert(loaded(list@) =~= before.push(
                        (requests@[index as int].slot, values@),
                    ));
                }
            },
            Err(e) => {
                proof {
                    if archive.contents() is Some {
                        lemma_first_error(archive.contents()->0, all, index as int + 1);
                    }
                }
                return Err(e);
            },
        }
        index += 1;
    }
    proof {
        assert(all.take(all.len() as int) =~= all);
    }
    Ok(list)
}

/// An error that a first part of the requests gives is the error of the whole.
pub proof fn lemma_first_error(
    tensors: Map<Seq<char>, TensorModel>,
    requests: Seq<RequestModel>,
    count: int,
)
    requires
        0 <= count <= requests.len(),
        fetched_all(tensors, requests.take(count)) is Err,
    ensures
        fetched_all(tensors, requests) == fetched_all(tensors, requests.take(count)),
    decreases requests.len() - count,
{
    if count == requests.len() {
        assert(requests.take(count) =~= requests);
    } else {
        assert(requests.take(count + 1).drop_last() =~= requests.take(count));
        lemma_first_error(tensors, requests, count + 1);
    }
}

/// The size that a request asks for is the one that the plans count on.
pub open spec fn well_sized(r: RequestModel) -> bool {
    match (r.slot, r.form) {
        (Slot::Tensor(w), FormModel::Shape(shape)) => archive::product(shape) == sizes::weight_len(
            w,
        ),
        (Slot::Tensor(w), FormModel::LinearOf { inputs, outputs, .. }) => inputs * outputs
            == sizes::weight_len(w),
        (Slot::Tensor(_), FormModel::Linear) => true,
        (Slot::Codebook(_), FormModel::Shape(shape)) => archive::product(shape) == 2048 * 256,
        (Slot::Usage(_), FormModel::Shape(shape)) => archive::product(shape) == 2048,
        _ => false,
    }
}

pub open spec fn all_well_sized(list: Seq<RequestModel>) -> bool {
    forall|i: int| 0 <= i < list.len() ==> #[trigger] well_sized(list[i])
}

proof fn lemma_product_one(shape: Seq<usize>)
    requires
        shape.len() == 1,
    ensures
        archive::product(shape) == shape[0],
{
    reveal_with_fuel(archive::product, 2);
    assert(shape.drop_last() =~= Seq::<usize>::empty());
    assert(1 * shape[0] == shape[0]);
}

proof fn lemma_product_three(shape: Seq<usize>)
    requires
        shape.len() == 3,
    ensures
        archive::product(shape) == shape[0] * shape[1] * shape[2],
{
    tensor::lemma_product_two(shape.drop_last());
}

proof fn lemma_products(r: RequestModel)
    ensures
        r.form matches FormModel::Shape(shape) ==> {
            &&& shape.len() == 1 ==> archive::product(shape) == shape[0]
            &&& shape.len() == 2 ==> archive::product(shape) == shape[0] * shape[1]
            &&& shape.len() == 3 ==> archive::product(shape) == shape[0] * shape[1] * shape[2]
        },
{
    if r.form is Shape {
        let shape = r.form->Shape_0;
        if shape.len() == 1 {
            lemma_product_one(shape);
        } else if shape.len() == 2 {
            tensor::lemma_product_two(shape);
        } else if shape.len() == 3 {
            lemma_product_three(shape);
        }
    }
}

proof fn lemma_well_sized_concat(a: Seq<RequestModel>, b: Seq<RequestModel>)
    requires
        all_well_sized(a),
        all_well_sized(b),
    ensures
        all_well_sized(a + b),
{
    assert forall|i: int| 0 <= i < (a + b).len() implies #[trigger] well_sized((a + b)[i]) by {
        if i < a.len() {
            assert((a + b)[i] == a[i]);
        } else {
            assert((a + b)[i] == b[i - a.len()]);
        }
    }
}

proof fn lemma_codebooks_well_sized(count: nat)
    ensures
        all_well_sized(codebooks_requests(count)),
    decreases count,
{
    if count > 0 {
        let list = codebook_requests((count - 1) as usize);
        assert forall|i: int| 0 <= i < list.len() implies #[trigger] well_sized(list[i]) by {
            lemma_products(list[i]);
        }
        lemma_codebooks_well_sized((count - 1) as nat);
        lemma_well_sized_concat(codebooks_requests((count - 1) as nat), list);
    }
}

proof fn lemma_layers_well_sized(count: nat)
    ensures
        all_well_sized(layers_requests(count)),
    decreases count,
{
    if count > 0 {
        let list = layer_requests((count - 1) as usize);
        assert forall|i: int| 0 <= i < list.len() implies #[trigger] well_sized(list[i]) by {
            lemma_products(list[i]);
        }
        lemma_layers_well_sized((count - 1) as nat);
        lemma_well_sized_concat(layers_requests((count - 1) as nat), list);
    }
}

proof fn lemma_stage_well_sized(stage: usize)
    ensures
        all_well_sized(stage_requests(stage)),
{
    let list = stage_requests(stage);
    assert forall|i: int| 0 <= i < list.len() implies #[trigger] well_sized(list[i]) by {
        lemma_products(list[i]);
    }
}

proof fn lemma_unit_well_sized(block: usize, unit: usize, prefix: Seq<char>)
    ensures
        all_well_sized(unit_requests(block, unit, prefix, sizes::block_dims(block as int).1)),
{
    let channels = sizes::block_dims(block as int).1;
    let list = unit_requests(block, unit, prefix, channels);
    assert(channels * channels * 1 == channels * channels);
    assert forall|i: int| 0 <= i < list.len() implies #[trigger] well_sized(list[i]) by {
        lemma_products(list[i]);
    }
}

proof fn lemma_blocks_well_sized(count: nat)
    ensures
        all_well_sized(blocks_requests(count)),
    decreases count,
{
    if count > 0 {
        let block = (count - 1) as usize;
        let prefix = block_prefix(block);
        let (in_channels, out_channels, stride) = sizes::block_dims(block as int);
        let whole = block_requests(block);
        let head = whole.take(4);
        let first = unit_requests(block, 0, prefix + ".2"@, out_channels);
        let second = unit_requests(block, 1, prefix + ".3"@, out_channels);
        let third = unit_requests(block, 2, prefix + ".4"@, out_channels);
        assert forall|i: int| 0 <= i < head.len() implies #[trigger] well_sized(head[i]) by {
            lemma_products(head[i]);
        }
        lemma_unit_well_sized(block, 0, prefix + ".2"@);
        lemma_unit_well_sized(block, 1, prefix + ".3"@);
        lemma_unit_well_sized(block, 2, prefix + ".4"@);
        lemma_well_sized_concat(head, first);
        lemma_well_sized_concat(head + first, second);
        lemma_well_sized_concat(head + first + second, third);
        assert(whole =~= head + first + second + third);
        lemma_blocks_well_sized((count - 1) as nat);
        lemma_well_sized_concat(blocks_requests((count - 1) as nat), whole);
    }
}

/// Every tensor that the codec asks for with a shape, or with checked widths, has as many
/// numbers as the device plans count on.
pub proof fn requests_match_plans()
    ensures
        all_well_sized(codec_requests()),
{
    let front = front_requests();
    assert(PRE_CONV_OUT * TRANSFORMER_HIDDEN == 1024 * 512);
    assert(TRANSFORMER_HIDDEN * PRE_CONV_OUT == 1024 * 512);
    assert forall|i: int| 0 <= i < front.len() implies #[trigger] well_sized(front[i]) by {
        lemma_products(front[i]);
    }
    let opening = opening_requests();
    assert forall|i: int| 0 <= i < opening.len() implies #[trigger] well_sized(opening[i]) by {
        lemma_products(opening[i]);
    }
    let closing = closing_requests();
    assert forall|i: int| 0 <= i < closing.len() implies #[trigger] well_sized(closing[i]) by {
        lemma_products(closing[i]);
    }
    let books = codebooks_requests(CODE_GROUPS as nat);
    let layers = layers_requests(TRANSFORMER_LAYERS as nat);
    let blocks = blocks_requests(DECODER_BLOCKS as nat);
    lemma_codebooks_well_sized(CODE_GROUPS as nat);
    lemma_layers_well_sized(TRANSFORMER_LAYERS as nat);
    lemma_blocks_well_sized(DECODER_BLOCKS as nat);
    lemma_stage_well_sized(0);
    lemma_stage_well_sized(1);
    lemma_well_sized_concat(books, front);
    lemma_well_sized_concat(books + front, layers);
    lemma_well_sized_concat(books + front + layers, stage_requests(0));
    let upsampled = books + front + layers + stage_requests(0);
    lemma_well_sized_concat(upsampled, stage_requests(1));
    lemma_well_sized_concat(upsampled + stage_requests(1), opening);
    lemma_well_sized_concat(upsampled + stage_requests(1) + opening, blocks);
    lemma_well_sized_concat(upsampled + stage_requests(1) + opening + blocks, closing);
}

} // verus!

//! Archives, stored tensors, layers and the decoder's parts.

use std::collections::HashMap;

use qwen3_tts_hip::archive::TensorArchive;
use qwen3_tts_hip::codec::initial::HipCodecInitial;
use qwen3_tts_hip::codec::weights::{fetch, list_requests, Form, Request, Slot};
use qwen3_tts_hip::decoder12::config::{
    kept_length, right_trim, Decoder12HzConfig, SpeechDecoderConfig,
};
use qwen3_tts_hip::decoder12::index::{causal_mask, embedding_lookup, frame_codes};
use qwen3_tts_hip::decoder12::parts::{list_parts, load_decoder_12hz};
use qwen3_tts_hip::error::Error;
use qwen3_tts_hip::layer::dims::{
    infer_dims, load_host_layer, load_layer, select_output_columns, validate_dims, EPSILON, THETA,
};
use qwen3_tts_hip::layer::shapes::{check_mlp_block, permute_bshd_to_bhsd, LayerShapes, Widths};
use qwen3_tts_hip::tensor::{
    element_count, linear_weight_transposed, same_shape, tensor_f32, tensor_to_f32, transpose,
    vector_f32,
};
use safetensors::tensor::{serialize, Dtype, TensorView};

struct Stored {
    dtype: Dtype,
    shape: Vec<usize>,
    data: Vec<u8>,
}

fn floats(shape: &[usize], values: &[f32]) -> Stored {
    let mut data = Vec::new();
    for v in values {
        data.extend_from_slice(&v.to_le_bytes());
    }
    Stored { dtype: Dtype::F32, shape: shape.to_vec(), data }
}

fn ramp(shape: &[usize]) -> Stored {
    let count: usize = shape.iter().product();
    let values: Vec<f32> = (0..count).map(|i| i as f32).collect();
    floats(shape, &values)
}

fn archive(tensors: &HashMap<String, Stored>) -> TensorArchive {
    let mut views: HashMap<String, TensorView<'_>> = HashMap::new();
    for (name, t) in tensors {
        let view = match TensorView::new(t.dtype, t.shape.clone(), &t.data) {
            Ok(view) => view,
            Err(e) => panic!("{}", e),
        };
        views.insert(name.clone(), view);
    }
    match serialize(&views, None) {
        Ok(bytes) => TensorArchive { bytes },
        Err(e) => panic!("{}", e),
    }
}

fn message<T>(result: Result<T, Error>) -> String {
    match result {
        Ok(_) => panic!("expected an error"),
        Err(e) => e.message(),
    }
}

fn numbers(bits: &[u32]) -> Vec<f32> {
    bits.iter().map(|b| f32::from_bits(*b)).collect()
}

#[test]
fn archives_hand_out_their_tensors() {
    let mut tensors = HashMap::new();
    tensors.insert("a.weight".to_string(), floats(&[2, 2], &[1.0, -2.5, 0.0, 4.0]));
    tensors.insert("b".to_string(), floats(&[3], &[7.0, 8.0, 9.0]));
    let file = archive(&tensors);
    let a = match file.tensor("a.weight") {
        Ok(a) => a,
        Err(e) => panic!("{}", e.message()),
    };
    assert_eq!(a.dtype, "F32");
    assert_eq!(a.shape, vec![2, 2]);
    assert_eq!(a.data, tensors["a.weight"].data);
    assert!(matches!(file.has_tensor("b"), Ok(true)));
    assert!(matches!(file.has_tensor("c"), Ok(false)));
    assert_eq!(message(file.tensor("c")), "invalid input: failed to load c: tensor `c` not found");
}

#[test]
fn bytes_that_are_no_archive_are_refused() {
    let file = TensorArchive { bytes: vec![1, 2, 3] };
    assert!(message(file.tensor("a")).starts_with("invalid input: failed to parse safetensors: "));
    assert!(message(file.has_tensor("a")).starts_with("invalid input: failed to parse safetensors: "));
    assert!(message(HipCodecInitial::load(&file))
        .starts_with("invalid input: failed to parse safetensors: "));
}

fn with_header(json: &str, data: usize) -> TensorArchive {
    let mut bytes = (json.len() as u64).to_le_bytes().to_vec();
    bytes.extend_from_slice(json.as_bytes());
    bytes.extend(vec![0u8; data]);
    TensorArchive { bytes }
}

#[test]
fn headers_that_declare_too_much_are_refused() {
    // Nine tensors, one behind the other, that end just below the greatest word.
    let part = (usize::MAX / 8) & !3;
    let rest = usize::MAX - 3 - 8 * part;
    let mut tensors = Vec::new();
    let mut start = 0usize;
    for (index, len) in [part, part, part, part, part, part, part, part, rest].iter().enumerate() {
        tensors.push(format!(
            "\"t{index}\":{{\"dtype\":\"U8\",\"shape\":[{len}],\"data_offsets\":[{start},{}]}}",
            start + len
        ));
        start += len;
    }
    let archive = with_header(&format!("{{{}}}", tensors.join(",")), 4);
    let text = message(archive.tensor("t0"));
    let expected = "failed to parse safetensors: incomplete metadata, file not fully covered";
    assert_eq!(text, format!("invalid input: {expected}"));
    assert!(archive.has_tensor("t0").is_err());
}

#[test]
fn long_numerals_elsewhere_are_no_obstacle() {
    for shape in ["[0,10000000000000000000]", "[18446744073709551615,0]"] {
        let json = format!(
            "{{\"a\":{{\"dtype\":\"F32\",\"shape\":{shape},\"data_offsets\":[0,0]}}}}"
        );
        let archive = with_header(&json, 0);
        assert!(matches!(archive.has_tensor("a"), Ok(true)));
        assert!(matches!(archive.tensor("a"), Ok(t) if t.data.is_empty() && t.shape.len() == 2));
    }
    let named = "{\"__metadata__\":{\"id\":\"\\\"18446744073709551615123\"},\"a\":{\"dtype\":\"F32\",\"shape\":[1],\"data_offsets\":[0,4]}}";
    let archive = with_header(named, 4);
    assert!(matches!(archive.tensor("a"), Ok(t) if t.data == [0; 4]));
    let huge = "{\"a\":{\"dtype\":\"F32\",\"shape\":[1],\"data_offsets\":[0,18446744073709551615]}}";
    let text = message(with_header(huge, 4).tensor("a"));
    assert!(text.starts_with("invalid input: failed to parse safetensors: "));
}

#[test]
fn numbers_are_read_from_both_float_types() {
    let values = [1.0f32, -0.5, 3.25, f32::INFINITY];
    let mut wide = Vec::new();
    let mut narrow = Vec::new();
    for v in values {
        wide.extend_from_slice(&v.to_le_bytes());
        narrow.extend_from_slice(&((v.to_bits() >> 16) as u16).to_le_bytes());
    }
    let got = tensor_to_f32("t", "F32", &wide, 4).unwrap_or_default();
    assert_eq!(numbers(&got), values);
    let got = tensor_to_f32("t", "BF16", &narrow, 3).unwrap_or_default();
    assert_eq!(numbers(&got), values[..3]);
    let got = tensor_to_f32("t", "F32", &wide[..9], 4).unwrap_or_default();
    assert_eq!(numbers(&got), values[..2]);
    assert_eq!(
        message(tensor_to_f32("t", "I64", &wide, 4)),
        "invalid input: t has dtype I64, expected F32 or BF16"
    );
}

#[test]
fn shapes_are_checked() {
    let mut tensors = HashMap::new();
    tensors.insert("m".to_string(), ramp(&[2, 3]));
    tensors.insert("v".to_string(), ramp(&[3]));
    let file = archive(&tensors);
    let m = file.tensor("m").unwrap_or_else(|e| panic!("{}", e.message()));
    let v = file.tensor("v").unwrap_or_else(|e| panic!("{}", e.message()));
    assert!(tensor_f32(&m, "m", &[2, 3]).is_ok());
    assert_eq!(message(tensor_f32(&m, "m", &[3, 2])), "invalid input: m shape [2, 3]; expected [3, 2]");
    assert_eq!(numbers(&vector_f32(&v, "v").unwrap_or_default()), [0.0, 1.0, 2.0]);
    assert!(message(vector_f32(&m, "m")).contains("m"));
    let (values, inputs, outputs) = match linear_weight_transposed(&m, "m") {
        Ok(found) => found,
        Err(e) => panic!("{}", e.message()),
    };
    assert_eq!((inputs, outputs), (3, 2));
    assert_eq!(numbers(&values), [0.0, 3.0, 1.0, 4.0, 2.0, 5.0]);
    assert!(linear_weight_transposed(&v, "v").is_err());
    assert!(same_shape(&[1, 2], &[1, 2]) && !same_shape(&[1, 2], &[1]));
    assert_eq!(element_count(&[2, 3, 4]), 24);
    assert_eq!(element_count(&[]), 1);
}

#[test]
fn transposing_twice_changes_nothing() {
    let values: Vec<u32> = (0..12).collect();
    let once = transpose(&values, 3, 4);
    assert_eq!(once[..4], [0, 4, 8, 1]);
    assert_eq!(transpose(&once, 4, 3), values);
}

#[test]
fn requests_of_the_codec_are_listed_in_order() {
    let requests = list_requests();
    assert_eq!(requests.len(), 32 + 9 + 8 * 11 + 2 * 11 + 2 + 4 * (4 + 24) + 4);
    assert_eq!(requests[0].name, "decoder.quantizer.rvq_first.vq.layers.0._codebook.embedding_sum");
    assert_eq!(requests[0].slot, Slot::Codebook(0));
    assert_eq!(requests[31].name, "decoder.quantizer.rvq_rest.vq.layers.14._codebook.cluster_usage");
    let names: Vec<&str> = requests.iter().map(|r| r.name.as_str()).collect();
    assert!(names.contains(&"decoder.pre_transformer.layers.7.mlp_layer_scale.scale"));
    assert!(names.contains(&"decoder.upsample.1.1.pwconv2.bias"));
    assert!(names.contains(&"decoder.decoder.4.block.4.conv2.conv.bias"));
    assert!(names.contains(&"decoder.decoder.6.conv.bias"));
}

#[test]
fn the_first_missing_tensor_decides_the_error() {
    let mut tensors = HashMap::new();
    let first = "decoder.quantizer.rvq_first.vq.layers.0._codebook.embedding_sum";
    tensors.insert("other".to_string(), ramp(&[1]));
    let file = archive(&tensors);
    assert_eq!(
        message(HipCodecInitial::load(&file)),
        format!("invalid input: failed to load {}: tensor `{}` not found", first, first)
    );
    tensors.insert(first.to_string(), ramp(&[2, 2]));
    let file = archive(&tensors);
    assert_eq!(
        message(HipCodecInitial::load(&file)),
        format!("invalid input: {} shape [2, 2]; expected [2048, 256]", first)
    );
}

#[test]
fn linear_widths_are_checked() {
    let mut tensors = HashMap::new();
    tensors.insert("w".to_string(), ramp(&[2, 3]));
    let file = archive(&tensors);
    let request = |inputs: usize, outputs: usize| Request {
        slot: Slot::Usage(0),
        name: "w".to_string(),
        form: Form::LinearOf { label: "input_proj".to_string(), inputs, outputs },
    };
    assert!(fetch(&file, &request(3, 2)).is_ok());
    assert_eq!(
        message(fetch(&file, &request(2, 3))),
        "invalid input: invalid codec input_proj shape [2, 3]"
    );
}

fn talker(layers: &[(usize, usize)]) -> HashMap<String, Stored> {
    let mut tensors = HashMap::new();
    for (index, hidden) in layers {
        let p = format!("talker.model.layers.{}", index);
        let h = *hidden;
        let mut put = |name: &str, shape: &[usize]| {
            tensors.insert(format!("{}.{}", p, name), ramp(shape));
        };
        put("input_layernorm.weight", &[h]);
        put("self_attn.q_norm.weight", &[2]);
        put("self_attn.k_norm.weight", &[2]);
        put("self_attn.q_proj.weight", &[8, h]);
        put("self_attn.k_proj.weight", &[4, h]);
        put("self_attn.v_proj.weight", &[4, h]);
        put("self_attn.o_proj.weight", &[h, 8]);
        put("post_attention_layernorm.weight", &[h]);
        put("mlp.gate_proj.weight", &[6, h]);
        put("mlp.up_proj.weight", &[6, h]);
        put("mlp.down_proj.weight", &[h, 6]);
    }
    tensors
}

#[test]
fn layers_are_read_and_measured() {
    let file = archive(&talker(&[(0, 4), (1, 4), (2, 6)]));
    let layer = load_layer(&file, 0).unwrap_or_else(|e| panic!("{}", e.message()));
    assert_eq!(layer.q_weight.len(), 32);
    assert_eq!(f32::from_bits(layer.q_weight[1]), 4.0);
    let dims = infer_dims(&layer, 0x3f00_0000).unwrap_or_else(|e| panic!("{}", e.message()));
    assert_eq!(
        (dims.hidden, dims.q_heads, dims.kv_heads, dims.head_dim, dims.q_out, dims.kv_out),
        (4, 4, 2, 2, 8, 4)
    );
    assert_eq!(dims.intermediate, 6);
    assert!(load_host_layer(&file, 1, Some(dims), 0x3f00_0000).is_ok());
    assert_eq!(
        message(load_host_layer(&file, 2, Some(dims), 0x3f00_0000)),
        "invalid input: layer 2 dims mismatch: hidden=6, q_heads=4, kv_heads=2, head_dim=2, intermediate=6"
    );
    assert!(message(load_host_layer(&file, 3, None, 0)).contains("talker.model.layers.3.input_layernorm"));
    assert!(validate_dims(1, dims, dims).is_ok());
    let mut broken = layer;
    broken.k_gamma.push(0);
    assert_eq!(message(infer_dims(&broken, 0)), "invalid input: invalid layer dimensions");
    assert_eq!(f32::from_bits(EPSILON), 1e-6);
    assert_eq!(f32::from_bits(THETA), 10_000.0);
}

#[test]
fn leading_columns_are_selected() {
    let values: Vec<u32> = (0..12).collect();
    assert_eq!(select_output_columns(&values, 3, 4, 2), [0, 1, 4, 5, 8, 9]);
}

fn shapes() -> LayerShapes {
    let w = |inputs, outputs| Widths { inputs, outputs };
    LayerShapes {
        hidden: 4,
        q_norm: 2,
        k_norm: 2,
        q: w(4, 8),
        k: w(4, 4),
        v: w(4, 4),
        o: w(8, 4),
        post_norm: 4,
        gate: w(4, 6),
        up: w(4, 6),
        down: w(6, 4),
    }
}

#[test]
fn layer_shapes_must_go_together() {
    let good = shapes();
    assert!(good.check().is_ok());
    let mut s = shapes();
    s.v.inputs = 5;
    assert_eq!(
        message(s.check()),
        "invalid input: attention hidden shape mismatch: hidden=4, q_in=4, k_in=4, v_in=5, o_out=4"
    );
    let mut s = shapes();
    s.q.outputs = 7;
    assert_eq!(
        message(s.check()),
        "invalid input: attention head shape mismatch: q_out=7, k_out=4, v_out=4, q_norm=2, k_norm=2"
    );
    let mut s = shapes();
    s.o.inputs = 6;
    assert_eq!(message(s.check()), "invalid input: o_proj input 6 does not match q heads * head dim 8");
    let mut s = shapes();
    s.up.outputs = 5;
    assert_eq!(
        message(s.check()),
        "invalid input: MLP shape mismatch: post_norm=4, gate=(4,6), up=(4,5), down=(6,4), hidden=4"
    );
    assert!(good.check_behind(&good).is_ok());
    assert_eq!(
        message(s.check_behind(&good)),
        "invalid input: second layer shape mismatch: q=(4,8), k=(4,4), v=(4,4), o=(8,4), gate=(4,6), up=(4,5), down=(6,4)"
    );
    assert!(check_mlp_block(4, good.gate, good.up, good.down).is_ok());
    assert_eq!(
        message(check_mlp_block(4, s.gate, s.up, s.down)),
        "invalid input: gate/up shape mismatch: gamma=4, gate=(4,6), up=(4,5)"
    );
    assert_eq!(
        message(check_mlp_block(4, good.gate, good.up, Widths { inputs: 6, outputs: 3 })),
        "invalid input: down shape mismatch: down=(6,3), hidden=4, intermediate=6"
    );
}

#[test]
fn heads_are_put_in_front_of_steps() {
    let input: Vec<u32> = (0..12).collect();
    assert_eq!(permute_bshd_to_bhsd(&input, 3, 2, 2), [0, 1, 4, 5, 8, 9, 2, 3, 6, 7, 10, 11]);
    assert_eq!(permute_bshd_to_bhsd(&[], 3, 2, 0), Vec::<u32>::new());
}

fn small_config() -> Decoder12HzConfig {
    Decoder12HzConfig::from_speech_config(SpeechDecoderConfig {
        latent_dim: 4,
        codebook_size: 2048,
        decoder_dim: 1536,
        hidden_size: 3,
        intermediate_size: 6,
        head_dim: 2,
        num_attention_heads: 5,
        num_hidden_layers: 1,
        num_quantizers: 3,
        rms_norm_eps: 1e-5f64.to_bits(),
        rope_theta: 10000f64.to_bits(),
        upsample_rates: vec![8, 5, 4, 3],
        upsampling_ratios: vec![2],
        vector_quantization_hidden_dimension: 7,
    })
}

#[test]
fn decoder_dimensions_follow_the_configuration() {
    let config = small_config();
    assert_eq!(config.codebook_dim, 256);
    assert_eq!((config.projected_dim, config.latent_dim, config.transformer_dim), (7, 4, 3));
    assert_eq!(
        config.decoder_block_channels(),
        vec![(1536, 768), (768, 384), (384, 192), (192, 96)]
    );
    assert_eq!(config.final_decoder_channels(), 96);
    assert_eq!(config.attention_width(), 10);
    assert_eq!(f64::from_bits(config.rms_norm_eps), 1e-5);
    assert_eq!((right_trim(16, 8), right_trim(2, 2), right_trim(1, 2)), (8, 0, 0));
    // Five frames, kernel 16, stride 8: (5 - 1) * 8 + 16 = 48 frames, of which 40 are kept.
    assert_eq!(kept_length(48, right_trim(16, 8)), 40);
    assert_eq!(kept_length(3, 8), 0);
}

#[test]
fn decoder_parts_are_listed_and_read() {
    let config = small_config();
    let parts = list_parts(&config);
    assert_eq!(parts[0].name, "decoder.quantizer.rvq_first.vq.layers.0._codebook.embedding_sum");
    assert_eq!(parts[2].name, "decoder.quantizer.rvq_rest.vq.layers.0._codebook.embedding_sum");
    assert_eq!(parts[6].name, "decoder.quantizer.rvq_first.output_proj.weight");
    assert_eq!(parts.last().map(|p| p.name.as_str()), Some("decoder.decoder.6.conv.bias"));
    let find = |name: &str| parts.iter().find(|p| p.name == name).map(|p| (p.rank, p.optional));
    assert_eq!(find("decoder.pre_transformer.input_proj.bias"), Some((1, true)));
    assert_eq!(find("decoder.pre_transformer.layers.0.self_attn.q_proj.bias"), None);
    assert_eq!(find("decoder.upsample.0.1.norm.bias"), Some((1, false)));
    assert_eq!(find("decoder.decoder.4.block.1.conv.weight"), Some((3, false)));
    let mut tensors = HashMap::new();
    for part in &parts {
        if !part.optional {
            tensors.insert(part.name.clone(), ramp(&vec![1; part.rank]));
        }
    }
    tensors.insert("decoder.decoder.6.conv.bias".to_string(), ramp(&[2]));
    let loaded = load_decoder_12hz(&archive(&tensors), &config)
        .unwrap_or_else(|e| panic!("{}", e.message()));
    assert_eq!(loaded.len(), parts.len());
    for (part, got) in parts.iter().zip(&loaded) {
        let there = tensors.contains_key(&part.name);
        assert_eq!(got.is_some(), there, "{}", part.name);
    }
    let bias = loaded.last().and_then(|t| t.as_ref()).map(|t| numbers(&t.values));
    assert_eq!(bias, Some(vec![0.0, 1.0]));
    tensors.insert("decoder.decoder.5.alpha".to_string(), ramp(&[1, 1]));
    assert_eq!(
        message(load_decoder_12hz(&archive(&tensors), &config)),
        "invalid input: decoder.decoder.5.alpha rank 2, expected 1"
    );
    tensors.remove("decoder.decoder.0.conv.weight");
    assert_eq!(
        message(load_decoder_12hz(&archive(&tensors), &config)),
        "invalid input: failed to load decoder.decoder.0.conv.weight: tensor `decoder.decoder.0.conv.weight` not found"
    );
}

#[test]
fn masks_codes_and_rows_are_indexed() {
    let mask = causal_mask(2, 3);
    let one = [false, true, true, false, false, true, false, false, false];
    assert_eq!(mask[..9], one);
    assert_eq!(mask[9..], one);
    let codes = vec![vec![1, 2], vec![2049, 4], vec![5, 2048]];
    assert_eq!(frame_codes(&codes, 2), [1, 1, 5, 2, 4, 0]);
    let book: Vec<u32> = (0..8).collect();
    assert_eq!(embedding_lookup(&book, 2, &[3, -1, 1]), [6, 7, 0, 1, 2, 3]);
}

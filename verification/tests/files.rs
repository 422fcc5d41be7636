//! Array files.

use qwen3_tts_hip::error::Error;
use qwen3_tts_hip::fixtures::{check_generated, check_rollout, compare_codes, compare_ids};
use qwen3_tts_hip::npy::{
    can_read, check_code_shape, check_length, has_whole_header, load_expected_codes, parse_shape,
    read_codes, read_npy_f32, signed_code, unsigned_code, NpyF32,
};

fn message<T>(result: Result<T, Error>) -> String {
    match result {
        Ok(_) => panic!("expected an error"),
        Err(e) => e.message(),
    }
}

fn file(version: u8, header: &str, values: &[f32]) -> Vec<u8> {
    let mut bytes = b"\x93NUMPY".to_vec();
    bytes.push(version);
    bytes.push(0);
    if version == 1 {
        bytes.extend_from_slice(&(header.len() as u16).to_le_bytes());
    } else {
        bytes.extend_from_slice(&(header.len() as u32).to_le_bytes());
    }
    bytes.extend_from_slice(header.as_bytes());
    for v in values {
        bytes.extend_from_slice(&v.to_le_bytes());
    }
    bytes
}

const HEADER: &str = "{'descr': '<f4', 'fortran_order': False, 'shape': (2, 3), }      \n";

#[test]
fn arrays_are_read_in_every_version() {
    let values = [1.0f32, 2.0, -3.5, 0.25, 5.0, 6.0];
    for version in [1u8, 2, 3] {
        let bytes = file(version, HEADER, &values);
        assert!(can_read(&bytes, true));
        let array = match read_npy_f32(&bytes, "x.npy", true) {
            Ok(array) => array,
            Err(e) => panic!("{}", e.message()),
        };
        assert_eq!(array.shape, [2, 3]);
        let got: Vec<f32> = array.data.iter().map(|b| f32::from_bits(*b)).collect();
        assert_eq!(got, values);
    }
}

#[test]
fn other_files_are_refused() {
    assert_eq!(message(read_npy_f32(b"NUMPY", "x.npy", false)), "invalid input: x.npy is not a .npy file");
    let bytes = file(4, HEADER, &[]);
    assert_eq!(message(read_npy_f32(&bytes, "x.npy", false)), "invalid input: unsupported npy version: 4");
    let bytes = file(1, "{'descr': '<f8', 'shape': (1,)}", &[]);
    assert_eq!(
        message(read_npy_f32(&bytes, "x.npy", false)),
        "invalid input: x.npy is not little-endian float32"
    );
    let fortran = file(1, "{'descr': '<f4', 'fortran_order': True, 'shape': (1,)}", &[4.0]);
    assert_eq!(message(read_npy_f32(&fortran, "x.npy", true)), "invalid input: x.npy uses Fortran order");
    assert!(read_npy_f32(&fortran, "x.npy", false).is_ok());
    let short = file(1, HEADER, &[1.0]);
    assert_eq!(message(read_npy_f32(&short, "x.npy", false)), "invalid input: x.npy is truncated");
    let mut broken = file(1, HEADER, &[]);
    broken[12] = 0xff;
    let why = std::str::from_utf8(&broken[10..]).unwrap_err();
    assert_eq!(message(read_npy_f32(&broken, "x.npy", false)), format!("invalid input: {}", why));
}

#[test]
fn files_without_their_header_are_found_out() {
    let mut bytes = file(1, HEADER, &[]);
    bytes.truncate(20);
    assert!(!has_whole_header(&bytes));
    assert!(!can_read(&bytes, false));
    assert!(!has_whole_header(b"\x93NUMPY\x02\x00\x00\x00"));
    let huge = file(1, "{'descr': '<f4', 'shape': (4294967296, 4294967296)}", &[]);
    assert!(has_whole_header(&huge));
    assert!(!can_read(&huge, false));
    assert!(can_read(b"no array", false));
}

#[test]
fn shapes_are_read_from_headers() {
    assert!(matches!(parse_shape("'shape': (1, 22,)"), Ok(s) if s == [1, 22]));
    assert!(matches!(parse_shape("{\"shape\": ( 7 )}"), Ok(s) if s == [7]));
    assert!(matches!(parse_shape("'shape': ()"), Ok(s) if s.is_empty()));
    for shape in [vec![], vec![5], vec![1, 22], vec![0, 10, usize::MAX], vec![1, 2, 3, 4, 5, 6]] {
        let items: Vec<String> = shape.iter().map(|n: &usize| n.to_string()).collect();
        let comma = if items.len() == 1 { "," } else { "" };
        let header = format!("{{'descr': '<f4', 'shape': ({}{comma}), }} ()", items.join(", "));
        assert!(matches!(parse_shape(&header), Ok(read) if read == shape));
    }
    assert_eq!(message(parse_shape("{}")), "invalid input: missing shape in npy header");
    assert_eq!(message(parse_shape("( 'shape': 3")), "invalid input: missing shape tuple start");
    assert_eq!(message(parse_shape("'shape': (3")), "invalid input: missing shape tuple end");
    assert_eq!(message(parse_shape("'shape': (3, x)")), "invalid input: invalid digit found in string");
}

#[test]
fn stored_codes_are_rounded_like_floats() {
    let mut samples: Vec<f32> = vec![
        0.0, -0.0, 0.49, 0.5, 0.50001, 1.5, 2.5, -0.5, -1.5, 2047.0, 8388607.5, 16777216.0, 1e9, 3e9, 5e9,
        -3e9, 1e30, f32::INFINITY, f32::NEG_INFINITY, f32::NAN, f32::MIN_POSITIVE, 1e-40, 0.49999997,
    ];
    for i in 0..2000u32 {
        samples.push(f32::from_bits(i.wrapping_mul(2_147_001)));
        samples.push(i as f32 / 8.0);
        samples.push(-(i as f32) / 4.0);
    }
    for v in samples {
        assert_eq!(signed_code(v.to_bits()), v.round() as i32, "{}", v);
        assert_eq!(unsigned_code(v.to_bits()), v.round().max(0.0) as u32, "{}", v);
    }
}

fn array(shape: &[usize], values: &[f32]) -> NpyF32 {
    NpyF32 { shape: shape.to_vec(), data: values.iter().map(|v| v.to_bits()).collect() }
}

#[test]
fn codes_are_read_frame_by_frame() {
    let values: Vec<f32> = (0..32).map(|i| i as f32).collect();
    let frames = read_codes(&array(&[2, 16], &values)).unwrap_or_default();
    assert_eq!(frames.len(), 2);
    assert_eq!(frames[1][0], 16);
    assert_eq!(
        message(read_codes(&array(&[32], &values))),
        "invalid input: expected codes shape [frames, 16], got [32]"
    );
    let flat = load_expected_codes(&array(&[2, 16], &values), "rollout_codes", false);
    assert_eq!(flat.unwrap_or_default()[31], 31);
    assert_eq!(
        message(load_expected_codes(&array(&[2, 8], &values), "rollout_codes", false)),
        "invalid input: expected rollout_codes shape [frames, 16], got [2, 8]"
    );
    assert!(check_code_shape("codes", &[1, 5, 16], true).is_ok());
    assert_eq!(
        message(check_code_shape("codes", &[2, 5, 16], true)),
        "invalid input: expected codes shape [1, frames, 16], got [2, 5, 16]"
    );
}

#[test]
fn lengths_are_compared() {
    let expected = array(&[1, 2], &[0.0, 1.0]);
    assert!(check_length("waveform", 2, &expected).is_ok());
    assert_eq!(
        message(check_length("waveform", 3, &expected)),
        "invalid input: waveform length mismatch: actual=3, expected=2, expected_shape=[1, 2]"
    );
}

#[test]
fn generated_codes_begin_a_stored_run() {
    assert!(check_generated(&[1, -2], &[1, -2, 3]).is_ok());
    assert!(check_generated(&[], &[]).is_ok());
    assert_eq!(
        message(check_generated(&[1, 2, 3], &[1, 2])),
        "invalid input: reference has 2 codes but generated 3"
    );
    assert_eq!(
        message(check_generated(&[1, -2], &[1, 2, 3])),
        "invalid input: generated codes mismatch: actual=[1, -2], expected=[1, 2]"
    );
    assert!(compare_codes("CodePredictor token", &[i32::MIN, 0], &[i32::MIN, 0]).is_ok());
    assert_eq!(
        message(compare_codes("CodePredictor token", &[i32::MIN], &[])),
        "invalid input: CodePredictor token mismatch: actual=[-2147483648], expected=[]"
    );
}

#[test]
fn rollouts_are_compared_frame_by_frame() {
    let stored: Vec<i32> = (0..32).collect();
    assert!(check_rollout(&stored[..16], &stored, 1).is_ok());
    assert!(check_rollout(&[7], &stored, 3).is_ok());
    let text = message(check_rollout(&[7], &stored, 1));
    assert!(text.starts_with("invalid input: rollout mismatch: actual=[7], expected=[0, 1, 2, "));
    assert!(text.ends_with(", 15]"));
}

#[test]
fn tokens_are_compared_with_rounded_numbers() {
    let stored = array(&[1, 3], &[1.4, 2.5, -3.0]);
    assert!(compare_ids("input_ids", &[1, 3, 0], &stored).is_ok());
    assert_eq!(
        message(compare_ids("input_ids", &[1, 2], &stored)),
        "invalid input: input_ids mismatch: actual=[1, 2], expected=[1, 3, 0]"
    );
    let large = array(&[1], &[4294967040.0]);
    assert!(compare_ids("input_ids", &[4294967040], &large).is_ok());
}

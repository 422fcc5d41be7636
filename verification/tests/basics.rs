//! Texts, numbers and errors.

use qwen3_tts_hip::error::{invalid, Error};
use qwen3_tts_hip::numbers::{
    describe, invalid_value, parse_bool, parse_number, parse_u64, parse_usize, to_lower, NumberFault,
};
use qwen3_tts_hip::scan::{begins, find_char, find_space, find_text, trim};
use qwen3_tts_hip::text::{
    chars_of, push_decimal, push_i32, push_list, push_usize, same_text, text_from_utf8, text_of,
};

fn message<T>(result: Result<T, Error>) -> String {
    match result {
        Ok(_) => panic!("expected an error"),
        Err(e) => e.message(),
    }
}

#[test]
fn numerals_are_those_of_the_standard_library() {
    for n in [0u64, 1, 9, 10, 99, 100, 12345, u64::MAX] {
        let mut out = String::from("x");
        push_decimal(&mut out, n);
        assert_eq!(out, format!("x{}", n));
        assert_eq!(parse_number(&n.to_string(), u64::MAX), Ok(n));
    }
    for n in [0i32, -1, 7, i32::MIN, i32::MAX] {
        let mut out = String::new();
        push_i32(&mut out, n);
        assert_eq!(out, n.to_string());
    }
    let mut out = String::new();
    push_usize(&mut out, usize::MAX);
    assert_eq!(out, usize::MAX.to_string());
}

#[test]
fn lists_are_printed_like_slices() {
    for list in [vec![], vec![3usize], vec![1, 20, 300]] {
        let mut out = String::new();
        push_list(&mut out, &list);
        assert_eq!(out, format!("{:?}", list));
    }
}

#[test]
fn numbers_are_read_like_the_standard_library_reads_them() {
    let samples = [
        "", "+", "-", "0", "00", "+7", "-7", "12", "12a", "a", " 1", "1 ", "255", "256", "+-1", "++1",
        "18446744073709551615", "18446744073709551616", "99999999999999999999x", "\u{661}", "1_0",
    ];
    for text in samples {
        match (text.parse::<u64>(), parse_u64(text, "n")) {
            (Ok(a), Ok(b)) => assert_eq!(a, b, "{:?}", text),
            (Err(e), Err(f)) => {
                assert_eq!(f.message(), format!("invalid input: invalid n: {}", e), "{:?}", text)
            }
            (a, b) => panic!("{:?}: {:?} {:?}", text, a, b),
        }
        match (text.parse::<u8>(), parse_number(text, 255)) {
            (Ok(a), Ok(b)) => assert_eq!(a as u64, b, "{:?}", text),
            (Err(e), Err(f)) => assert_eq!(describe(f), e.to_string(), "{:?}", text),
            (a, b) => panic!("{:?}: {:?} {:?}", text, a, b),
        }
        match (text.parse::<usize>(), parse_usize(text, "n")) {
            (Ok(a), Ok(b)) => assert_eq!(a, b, "{:?}", text),
            (Err(_), Err(_)) => {}
            (a, b) => panic!("{:?}: {:?} {:?}", text, a, b),
        }
    }
    assert_eq!(parse_number("", 9), Err(NumberFault::Empty));
    assert_eq!(parse_number("x", 9), Err(NumberFault::InvalidDigit));
    assert_eq!(parse_number("10", 9), Err(NumberFault::Overflow));
}

#[test]
fn switches_are_read_in_any_case() {
    for text in ["1", "true", "YES", "On"] {
        assert!(matches!(parse_bool(text, "s"), Ok(true)));
    }
    for text in ["0", "False", "no", "OFF"] {
        assert!(matches!(parse_bool(text, "s"), Ok(false)));
    }
    assert_eq!(message(parse_bool("Maybe", "s")), "invalid input: invalid s: maybe");
    assert_eq!(to_lower("\u{c4}B"), "\u{c4}b");
}

#[test]
fn texts_are_taken_apart_and_put_together() {
    let chars = chars_of("a\u{e9}\u{1f600}b");
    assert_eq!(chars.len(), 4);
    assert_eq!(text_of(&chars, 1, 3), "\u{e9}\u{1f600}");
    assert_eq!(text_of(&chars, 2, 2), "");
    assert!(same_text("abc", "abc"));
    assert!(!same_text("abc", "abd"));
    for text in ["", "  ", " a b \t", "\u{3000}x\n", "x"] {
        assert_eq!(trim(text), text.trim());
    }
    let chars = chars_of("GET  /x");
    assert_eq!(find_space(&chars, 0, true), 3);
    assert_eq!(find_space(&chars, 3, false), 5);
    assert_eq!(find_char(&chars, '/', 0), 5);
    assert_eq!(find_char(&chars, '?', 0), 7);
    assert_eq!(find_text(&chars, "T  "), Some(2));
    assert_eq!(find_text(&chars, "TT"), None);
    assert_eq!(find_text(&chars, ""), Some(0));
    assert!(begins("libx.so.7", "libx.so"));
    assert!(!begins("libx", "libx.so"));
}

#[test]
fn bytes_are_decoded_by_the_standard_library() {
    assert!(matches!(text_from_utf8("h\u{e9}".as_bytes(), "w"), Ok(t) if t == "h\u{e9}"));
    let bytes = [104u8, 0xff, 105];
    let why = std::str::from_utf8(&bytes).unwrap_err();
    assert_eq!(message(text_from_utf8(&bytes, "w")), format!("invalid input: w: {}", why));
}

#[test]
fn errors_read_as_stated() {
    assert_eq!(invalid("x").message(), "invalid input: x");
    assert_eq!(invalid_value("top_k", "no").message(), "invalid input: invalid top_k: no");
    let e = Error::LibraryLoad { library: "\"/a\"".to_string(), source: "s".to_string() };
    assert_eq!(e.message(), "failed to load ROCm library \"/a\": s");
    let e = Error::SymbolLoad {
        library: "l".to_string(),
        symbol: "y".to_string(),
        source: "s".to_string(),
    };
    assert_eq!(e.message(), "failed to resolve symbol y from l: s");
    let e = Error::LibraryNotFound { name: "n".to_string() };
    assert_eq!(e.message(), "could not find ROCm library matching n");
    let e = Error::Hip { call: "c".to_string(), status: -3, message: "m".to_string() };
    assert_eq!(e.message(), "HIP call c failed with status -3: m");
    let e = Error::Rocblas { call: "c".to_string(), status: 4 };
    assert_eq!(e.message(), "rocBLAS call c failed with status 4");
    let e = Error::Hiprtc { call: "c".to_string(), status: 6, log: "l".to_string() };
    assert_eq!(e.message(), "HIPRTC call c failed with status 6: l");
}

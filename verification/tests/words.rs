//! Where incoming text can be cut.

use qwen3_tts_hip::generation::words::{is_sentence_boundary, is_whitespace, stable_prefix_len, utf8_len};

#[test]
fn white_space_is_that_of_unicode() {
    for ch in '\0'..=char::MAX {
        assert_eq!(is_whitespace(ch), ch.is_whitespace(), "{:?}", ch);
        assert_eq!(utf8_len(ch), ch.len_utf8(), "{:?}", ch);
    }
}

#[test]
fn clauses_end_behind_punctuation() {
    for ch in ['.', ',', ';', ':', '!', '?', '\n'] {
        assert!(is_sentence_boundary(ch));
    }
    for ch in ['a', ' ', '\u{3002}', '-', '\r'] {
        assert!(!is_sentence_boundary(ch));
    }
}

#[test]
fn text_is_cut_behind_its_last_break() {
    assert_eq!(stable_prefix_len("", true), None);
    assert_eq!(stable_prefix_len("word", true), None);
    assert_eq!(stable_prefix_len("one two", true), Some(4));
    assert_eq!(stable_prefix_len("one, two.three", true), Some(9));
    assert_eq!(stable_prefix_len("one, two.three", false), Some(5));
    assert_eq!(stable_prefix_len("caf\u{e9}\u{3000}x", false), Some(8));
}

//! Finding one's way in a text.

use vstd::prelude::*;

use crate::generation::words::{self, is_whitespace};
use crate::text::{chars_of, text_of};

verus! {

/// The first character from `from` on that is white space, or that is not, as `space`
/// says; the length where there is none.
pub open spec fn next_space(text: Seq<char>, from: int, space: bool) -> int
    decreases text.len() - from,
{
    if from >= text.len() {
        text.len() as int
    } else if words::is_space(text[from]) == space {
        from
    } else {
        next_space(text, from + 1, space)
    }
}

/// The first character from `from` on that is white space, or that is not, as `space`
/// says; the length where there is none.
pub fn find_space(text: &Vec<char>, from: usize, space: bool) -> (at: usize)
    requires
        from <= text@.len(),
    ensures
        at == next_space(text@, from as int, space),
        from <= at <= text@.len(),
{
    let mut index: usize = from;
    while index < text.len()
        invariant
            from <= index <= text@.len(),
            next_space(text@, from as int, space) == next_space(text@, index as int, space),
        decreases text@.len() - index,
    {
        if is_whitespace(text[index]) == space {
            return index;
        }
        index += 1;
    }
    index
}

/// The end of a text without the white space behind it.
pub open spec fn trimmed_end(text: Seq<char>) -> int
    decreases text.len(),
{
    if text.len() == 0 {
        0
    } else if words::is_space(text.last()) {
        trimmed_end(text.drop_last())
    } else {
        text.len() as int
    }
}

/// A text without the white space around it.
pub open spec fn trimmed(text: Seq<char>) -> Seq<char> {
    let from = next_space(text, 0, false);
    let to = trimmed_end(text);
    if from >= to {
        Seq::empty()
    } else {
        text.subrange(from, to)
    }
}

/// A text without the white space around it.
pub fn trim(text: &str) -> (inner: String)
    ensures
        inner@ == trimmed(text@),
{
    let chars: Vec<char> = chars_of(text);
    let from: usize = find_space(&chars, 0, false);
    let mut to: usize = chars.len();
    proof {
        assert(text@.take(text@.len() as int) =~= text@);
    }
    while to > 0 && is_whitespace(chars[to - 1])
        invariant
            chars@ == text@,
            to <= chars@.len(),
            trimmed_end(text@) == trimmed_end(text@.take(to as int)),
        decreases to,
    {
        proof {
            assert(text@.take(to as int).drop_last() =~= text@.take(to as int - 1));
        }
        to = to - 1;
    }
    if from >= to {
        return String::new();
    }
    text_of(chars.as_slice(), from, to)
}

/// The first `c` from `from` on; the length where there is none.
pub open spec fn first_char(text: Seq<char>, c: char, from: int) -> int
    decreases text.len() - from,
{
    if from >= text.len() {
        text.len() as int
    } else if text[from] == c {
        from
    } else {
        first_char(text, c, from + 1)
    }
}

/// A character is found within the text.
pub proof fn lemma_first_char(text: Seq<char>, c: char, from: int)
    requires
        from <= text.len(),
    ensures
        from <= first_char(text, c, from) <= text.len(),
    decreases text.len() - from,
{
    if from < text.len() && text[from] != c {
        lemma_first_char(text, c, from + 1);
    }
}

/// The first `c` from `from` on; the length where there is none.
pub fn find_char(text: &Vec<char>, c: char, from: usize) -> (at: usize)
    requires
        from <= text@.len(),
    ensures
        at == first_char(text@, c, from as int),
        from <= at <= text@.len(),
{
    let mut index: usize = from;
    while index < text.len()
        invariant
            from <= index <= text@.len(),
            first_char(text@, c, from as int) == first_char(text@, c, index as int),
        decreases text@.len() - index,
    {
        if text[index] == c {
            return index;
        }
        index += 1;
    }
    index
}

/// `pattern` stands in `text` at character `at`.
pub open spec fn is_match(text: Seq<char>, pattern: Seq<char>, at: int) -> bool {
    &&& 0 <= at
    &&& at + pattern.len() <= text.len()
    &&& text.subrange(at, at + pattern.len()) == pattern
}

/// The first place from `from` on where `pattern` stands in `text`.
pub open spec fn first_match(text: Seq<char>, pattern: Seq<char>, from: int) -> Option<int>
    decreases text.len() - from,
{
    if from > text.len() {
        None
    } else if is_match(text, pattern, from) {
        Some(from)
    } else if from == text.len() {
        None
    } else {
        first_match(text, pattern, from + 1)
    }
}

fn matches_at(text: &Vec<char>, pattern: &Vec<char>, at: usize) -> (found: bool)
    requires
        at <= text@.len(),
    ensures
        found == is_match(text@, pattern@, at as int),
{
    let size: usize = text.len();
    if pattern.len() > size - at {
        return false;
    }
    let mut index: usize = 0;
    while index < pattern.len()
        invariant
            index <= pattern@.len(),
            size == text@.len(),
            at + pattern@.len() <= text@.len(),
            forall|i: int| 0 <= i < index ==> text@[at + i] == #[trigger] pattern@[i],
        decreases pattern@.len() - index,
    {
        if text[at + index] != pattern[index] {
            proof {
                assert(text@.subrange(at as int, at + pattern@.len())[index as int]
                    != pattern@[index as int]);
            }
            return false;
        }
        index += 1;
    }
    proof {
        assert(text@.subrange(at as int, at + pattern@.len()) =~= pattern@);
    }
    true
}

/// The first place where `pattern` stands in `text`.
pub fn find_text(text: &Vec<char>, pattern: &str) -> (at: Option<usize>)
    ensures
        match (at, first_match(text@, pattern@, 0)) {
            (Some(got), Some(expected)) => got == expected && got <= text@.len(),
            (None, None) => true,
            _ => false,
        },
{
    let wanted: Vec<char> = chars_of(pattern);
    let mut index: usize = 0;
    while index < text.len()
        invariant
            wanted@ == pattern@,
            index <= text@.len(),
            first_match(text@, pattern@, 0) == first_match(text@, pattern@, index as int),
        decreases text@.len() - index,
    {
        if matches_at(text, &wanted, index) {
            return Some(index);
        }
        index += 1;
    }
    if matches_at(text, &wanted, index) {
        return Some(index);
    }
    None
}

/// `text` starts with `start`.
pub open spec fn starts_with(text: Seq<char>, start: Seq<char>) -> bool {
    start.len() <= text.len() && text.take(start.len() as int) == start
}

/// Whether `text` starts with `start`.
pub fn begins(text: &str, start: &str) -> (begins: bool)
    ensures
        begins == starts_with(text@, start@),
{
    let chars: Vec<char> = chars_of(text);
    let wanted: Vec<char> = chars_of(start);
    if wanted.len() > chars.len() {
        return false;
    }
    let mut index: usize = 0;
    while index < wanted.len()
        invariant
            chars@ == text@,
            wanted@ == start@,
            index <= wanted@.len() <= chars@.len(),
            forall|i: int| 0 <= i < index ==> chars@[i] == wanted@[i],
        decreases wanted@.len() - index,
    {
        if chars[index] != wanted[index] {
            proof {
                assert(text@.take(start@.len() as int)[index as int] == chars@[index as int]);
            }
            return false;
        }
        index += 1;
    }
    proof {
        assert(text@.take(start@.len() as int) =~= start@);
    }
    true
}

} // verus!

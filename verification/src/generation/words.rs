//! Where incoming text can be cut without splitting a word.

use vstd::prelude::*;
use vstd::utf8;

verus! {

/// The characters that Unicode counts as white space.
pub open spec fn is_space(c: char) -> bool {
    let n = c as u32;
    ||| 0x09 <= n <= 0x0d
    ||| n == 0x20
    ||| n == 0x85
    ||| n == 0xa0
    ||| n == 0x1680
    ||| 0x2000 <= n <= 0x200a
    ||| n == 0x2028
    ||| n == 0x2029
    ||| n == 0x202f
    ||| n == 0x205f
    ||| n == 0x3000
}

/// Whether Unicode counts the character as white space.
pub fn is_whitespace(c: char) -> (space: bool)
    ensures
        space == is_space(c),
{
    let n: u32 = c as u32;
    (0x09 <= n && n <= 0x0d) || n == 0x20 || n == 0x85 || n == 0xa0 || n == 0x1680 || (0x2000 <= n
        && n <= 0x200a) || n == 0x2028 || n == 0x2029 || n == 0x202f || n == 0x205f || n == 0x3000
}

/// The characters behind which a sentence or a clause may end.
pub open spec fn ends_clause(c: char) -> bool {
    c == '.' || c == ',' || c == ';' || c == ':' || c == '!' || c == '?' || c == '\n'
}

/// Whether a sentence or a clause may end behind the character.
pub fn is_sentence_boundary(ch: char) -> (boundary: bool)
    ensures
        boundary == ends_clause(ch),
{
    ch == '.' || ch == ',' || ch == ';' || ch == ':' || ch == '!' || ch == '?' || ch == '\n'
}

/// Text may be cut behind the character.
pub open spec fn cuts(c: char, flush_on_punctuation: bool) -> bool {
    is_space(c) || (flush_on_punctuation && ends_clause(c))
}

/// The number of bytes of a text in UTF-8.
pub open spec fn byte_len(text: Seq<char>) -> nat {
    utf8::encode_utf8(text).len()
}

/// `count` characters reach up to and including the last one behind which `text` may be
/// cut.
pub open spec fn is_stable(text: Seq<char>, flush_on_punctuation: bool, count: int) -> bool {
    &&& 0 < count <= text.len()
    &&& cuts(text[count - 1], flush_on_punctuation)
    &&& forall|i: int| count <= i < text.len() ==> !cuts(#[trigger] text[i], flush_on_punctuation)
}

/// `text` may be cut nowhere.
pub open spec fn is_unbroken(text: Seq<char>, flush_on_punctuation: bool) -> bool {
    forall|i: int| 0 <= i < text.len() ==> !cuts(#[trigger] text[i], flush_on_punctuation)
}

/// One more character adds the bytes of its own encoding.
pub proof fn lemma_byte_len_push(text: Seq<char>, c: char)
    ensures
        byte_len(text.push(c)) == byte_len(text) + byte_len(seq![c]),
    decreases text.len(),
{
    let one = seq![c];
    if text.len() == 0 {
        assert(text.push(c) =~= one);
        assert(byte_len(text) == 0);
    } else {
        assert(text.push(c).drop_first() =~= text.drop_first().push(c));
        lemma_byte_len_push(text.drop_first(), c);
    }
}

/// The bytes of one character.
pub proof fn lemma_byte_len_one(c: char)
    ensures
        byte_len(seq![c]) == utf8::encode_scalar(c as u32).len(),
{
    let one = seq![c];
    assert(one.drop_first() =~= Seq::<char>::empty());
    reveal_with_fuel(utf8::encode_utf8, 2);
}

/// A part of a text has no more bytes than the whole.
pub proof fn lemma_byte_len_take(text: Seq<char>, count: int)
    requires
        0 <= count <= text.len(),
    ensures
        byte_len(text.take(count)) <= byte_len(text),
    decreases text.len() - count,
{
    if count == text.len() {
        assert(text.take(count) =~= text);
    } else {
        lemma_byte_len_take(text, count + 1);
        assert(text.take(count + 1) =~= text.take(count).push(text[count]));
        lemma_byte_len_push(text.take(count), text[count]);
    }
}

/// Every character takes at least one byte.
pub proof fn lemma_chars_at_most_bytes(text: Seq<char>)
    ensures
        text.len() <= byte_len(text),
    decreases text.len(),
{
    if text.len() > 0 {
        lemma_chars_at_most_bytes(text.drop_first());
    }
}

/// The number of bytes of a character in UTF-8.
pub fn utf8_len(c: char) -> (len: usize)
    ensures
        len == byte_len(seq![c]),
        1 <= len <= 4,
{
    proof {
        lemma_byte_len_one(c);
    }
    let n: u32 = c as u32;
    if n < 0x80 {
        1
    } else if n < 0x800 {
        2
    } else if n < 0x1_0000 {
        3
    } else {
        4
    }
}

/// The number of bytes, and of characters, up to and including the last character behind
/// which `text` may be cut; `None` where it may be cut nowhere.
pub fn stable_prefix(text: &str, flush_on_punctuation: bool) -> (split: Option<(usize, usize)>)
    ensures
        match split {
            Some((bytes, chars)) => is_stable(text@, flush_on_punctuation, chars as int) && bytes
                == byte_len(text@.take(chars as int)),
            None => is_unbroken(text@, flush_on_punctuation),
        },
{
    let encoded: &[u8] = text.as_bytes();
    let size: usize = encoded.len();
    let mut split: Option<(usize, usize)> = None;
    let mut bytes: usize = 0;
    let mut index: usize = 0;
    proof {
        assert(text@.take(0) =~= Seq::<char>::empty());
        lemma_chars_at_most_bytes(text@);
    }
    for ch in iter: text.chars()
        invariant
            iter.seq() == text@,
            index == iter.index(),
            index <= text@.len(),
            text@.len() <= byte_len(text@) <= usize::MAX,
            bytes == byte_len(text@.take(index as int)),
            match split {
                Some((cut, chars)) => {
                    &&& 0 < chars <= index
                    &&& cuts(text@[chars - 1], flush_on_punctuation)
                    &&& forall|i: int|
                        chars <= i < index ==> !cuts(#[trigger] text@[i], flush_on_punctuation)
                    &&& cut == byte_len(text@.take(chars as int))
                },
                None => forall|i: int|
                    0 <= i < index ==> !cuts(#[trigger] text@[i], flush_on_punctuation),
            },
    {
        proof {
            assert(ch == text@[index as int]);
            assert(text@.take(index as int + 1) =~= text@.take(index as int).push(ch));
            lemma_byte_len_push(text@.take(index as int), ch);
            lemma_byte_len_take(text@, index as int + 1);
        }
        bytes = bytes + utf8_len(ch);
        index = index + 1;
        if is_whitespace(ch) || (flush_on_punctuation && is_sentence_boundary(ch)) {
            split = Some((bytes, index));
        }
    }
    split
}

/// The number of bytes up to and including the last character behind which `text` may be
/// cut; `None` where it may be cut nowhere.
pub fn stable_prefix_len(text: &str, flush_on_punctuation: bool) -> (split: Option<usize>)
    ensures
        match split {
            Some(bytes) => exists|count: int| #[trigger]
                is_stable(text@, flush_on_punctuation, count) && bytes == byte_len(
                    text@.take(count),
                ),
            None => is_unbroken(text@, flush_on_punctuation),
        },
{
    match stable_prefix(text, flush_on_punctuation) {
        Some((bytes, chars)) => {
            assert(is_stable(text@, flush_on_punctuation, chars as int));
            Some(bytes)
        },
        None => None,
    }
}

/// There is at most one place where the stable part of a text ends.
pub proof fn stable_part_is_unique(text: Seq<char>, flush_on_punctuation: bool, a: int, b: int)
    requires
        is_stable(text, flush_on_punctuation, a),
        is_stable(text, flush_on_punctuation, b),
    ensures
        a == b,
{
    if a < b {
        assert(cuts(text[b - 1], flush_on_punctuation));
    } else if b < a {
        assert(cuts(text[a - 1], flush_on_punctuation));
    }
}

} // verus!

//! Small text building blocks: decimal numerals and lists of numbers.

use vstd::prelude::*;
use vstd::utf8;

use crate::error::{self, Error};

verus! {

/// `String::push`: the character goes to the end of the text.
pub assume_specification[ String::push ](s: &mut String, c: char)
    ensures
        final(s)@ == old(s)@.push(c),
;

/// The character that stands for the decimal digit `d`.
pub open spec fn digit_char(d: nat) -> char {
    (('0' as u32) + d) as char
}

/// The decimal numeral of `n`, without leading zeros.
pub open spec fn decimal(n: nat) -> Seq<char>
    decreases n,
{
    if n < 10 {
        seq![digit_char(n)]
    } else {
        decimal(n / 10).push(digit_char(n % 10))
    }
}

/// The decimal numeral of an integer, with a minus sign where it is negative.
pub open spec fn decimal_int(n: int) -> Seq<char> {
    if n < 0 {
        seq!['-'] + decimal((-n) as nat)
    } else {
        decimal(n as nat)
    }
}

/// Appends the decimal numeral of `n`.
pub fn push_decimal(out: &mut String, n: u64)
    ensures
        final(out)@ == old(out)@ + decimal(n as nat),
    decreases n,
{
    if n >= 10 {
        push_decimal(out, n / 10);
    }
    let digit: u8 = (n % 10) as u8;
    out.push((48u8 + digit) as char);
}

/// Appends the decimal numeral of a length, count or index.
pub fn push_usize(out: &mut String, n: usize)
    ensures
        final(out)@ == old(out)@ + decimal(n as nat),
{
    push_decimal(out, n as u64);
}

/// Appends the decimal numeral of a signed status code.
pub fn push_i32(out: &mut String, n: i32)
    ensures
        final(out)@ == old(out)@ + decimal_int(n as int),
{
    if n < 0 {
        out.push('-');
        let magnitude: i64 = -(n as i64);
        push_decimal(out, magnitude as u64);
    } else {
        push_decimal(out, n as u64);
    }
}

/// The numerals of `items` joined by a comma and a space.
pub open spec fn joined(items: Seq<usize>) -> Seq<char>
    decreases items.len(),
{
    if items.len() == 0 {
        Seq::empty()
    } else if items.len() == 1 {
        decimal(items[0] as nat)
    } else {
        joined(items.drop_last()) + seq![',', ' '] + decimal(items.last() as nat)
    }
}

/// A list of numbers between square brackets, as shapes are printed.
pub open spec fn list_text(items: Seq<usize>) -> Seq<char> {
    seq!['['] + joined(items) + seq![']']
}

/// Appends a list of numbers between square brackets.
pub fn push_list(out: &mut String, items: &[usize])
    ensures
        final(out)@ == old(out)@ + list_text(items@),
{
    let ghost start = out@;
    out.push('[');
    let mut index: usize = 0;
    while index < items.len()
        invariant
            index <= items@.len(),
            out@ == start + seq!['['] + joined(items@.take(index as int)),
        decreases items@.len() - index,
    {
        proof {
            assert(items@.take(index as int + 1).drop_last() =~= items@.take(index as int));
        }
        if index > 0 {
            out.push(',');
            out.push(' ');
        }
        push_usize(out, items[index]);
        proof {
            let grown = items@.take(index as int + 1);
            assert(grown.last() == items@[index as int]);
            if index > 0 {
                assert(out@ =~= start + seq!['['] + joined(grown));
            } else {
                assert(joined(items@.take(0)) =~= Seq::<char>::empty());
                assert(out@ =~= start + seq!['['] + joined(grown));
            }
        }
        index += 1;
    }
    proof {
        assert(items@.take(items@.len() as int) =~= items@);
    }
    out.push(']');
    proof {
        assert(out@ =~= start + list_text(items@));
    }
}

/// The characters of a text, one by one.
pub fn chars_of(text: &str) -> (chars: Vec<char>)
    ensures
        chars@ == text@,
{
    let mut chars: Vec<char> = Vec::new();
    for ch in iter: text.chars()
        invariant
            iter.seq() == text@,
            chars@ == text@.take(iter.index() as int),
    {
        proof {
            let done = chars@.len() as int;
            assert(text@.take(done + 1) =~= text@.take(done).push(ch));
        }
        chars.push(ch);
    }
    proof {
        assert(text@.take(text@.len() as int) =~= text@);
    }
    chars
}

/// The text of the characters from number `from` up to number `to`.
pub fn text_of(chars: &[char], from: usize, to: usize) -> (text: String)
    requires
        from <= to <= chars@.len(),
    ensures
        text@ == chars@.subrange(from as int, to as int),
{
    let mut text = String::new();
    let mut index: usize = from;
    proof {
        assert(chars@.subrange(from as int, from as int) =~= Seq::<char>::empty());
    }
    while index < to
        invariant
            from <= index <= to <= chars@.len(),
            text@ == chars@.subrange(from as int, index as int),
        decreases to - index,
    {
        text.push(chars[index]);
        index += 1;
        proof {
            assert(text@ =~= chars@.subrange(from as int, index as int));
        }
    }
    text
}

/// Whether two texts are the same.
pub fn same_text(a: &str, b: &str) -> (same: bool)
    ensures
        same == (a@ == b@),
{
    let left: String = a.to_owned();
    let right: String = b.to_owned();
    left == right
}

/// What `std::str::from_utf8` says about bytes that are not UTF-8.
pub uninterp spec fn utf8_fault(bytes: Seq<u8>) -> Seq<char>;

/// `std::str::from_utf8`: the text that the bytes encode, or the text of the error where
/// they are not UTF-8. What the error says depends on the bytes alone; its wording is left
/// to the standard library.
#[verifier::external_body]
pub(crate) fn decode_text(bytes: &[u8]) -> (text: Result<String, String>)
    ensures
        match text {
            Ok(t) => utf8::valid_utf8(bytes@) && t@ == utf8::decode_utf8(bytes@),
            Err(why) => !utf8::valid_utf8(bytes@) && why@ == utf8_fault(bytes@),
        },
{
    match std::str::from_utf8(bytes) {
        Ok(text) => Ok(text.to_string()),
        Err(err) => Err(err.to_string()),
    }
}

/// The text that the bytes encode, where `what` introduces the error.
pub fn text_from_utf8(bytes: &[u8], what: &str) -> (text: Result<String, Error>)
    ensures
        match text {
            Ok(t) => utf8::valid_utf8(bytes@) && t@ == utf8::decode_utf8(bytes@),
            Err(e) => !utf8::valid_utf8(bytes@) && error::is_invalid(
                e,
                what@ + ": "@ + utf8_fault(bytes@),
            ),
        },
{
    match decode_text(bytes) {
        Ok(text) => Ok(text),
        Err(why) => {
            let mut message = what.to_owned();
            message.append(": ");
            message.append(why.as_str());
            Err(Error::InvalidInput(message))
        },
    }
}

} // verus!

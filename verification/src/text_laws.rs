//! What scanning a text, reading a number and writing a list are for.

use vstd::prelude::*;

use crate::archive;
use crate::error::{self, Error};
use crate::generation::words;
use crate::npy;
use crate::numbers::{self, NumberFault};
use crate::scan;
use crate::text;

verus! {

/// The number that digits write: ten times what those in front of the last one write, and
/// the last one.
pub open spec fn value_of(digits: Seq<char>) -> nat
    decreases digits.len(),
{
    if digits.len() == 0 {
        0
    } else {
        10 * value_of(digits.drop_last()) + (digits.last() as u32 - 48) as nat
    }
}

/// A character from 0 to 9.
pub open spec fn is_digit(c: char) -> bool {
    '0' <= c <= '9'
}

/// A text of digits only.
pub open spec fn all_digits(digits: Seq<char>) -> bool {
    forall|i: int| 0 <= i < digits.len() ==> is_digit(#[trigger] digits[i])
}

/// Two texts of digits one behind the other.
pub open spec fn behind(value: nat, digits: Seq<char>) -> nat
    decreases digits.len(),
{
    if digits.len() == 0 {
        value
    } else {
        10 * behind(value, digits.drop_last()) + (digits.last() as u32 - 48) as nat
    }
}

proof fn lemma_behind(value: nat, digits: Seq<char>)
    requires
        digits.len() > 0,
        is_digit(digits[0]),
    ensures
        behind(value, digits) == behind(
            value * 10 + (digits[0] as u32 - 48) as nat,
            digits.drop_first(),
        ),
    decreases digits.len(),
{
    let next = value * 10 + (digits[0] as u32 - 48) as nat;
    if digits.len() == 1 {
        assert(digits.drop_last() =~= Seq::<char>::empty());
        assert(digits.drop_first() =~= Seq::<char>::empty());
        assert(behind(value, Seq::empty()) == value);
        assert(behind(next, Seq::empty()) == next);
    } else {
        let front = digits.drop_last();
        let rest = digits.drop_first();
        assert(front.drop_first() =~= rest.drop_last());
        assert(front[0] == digits[0]);
        assert(rest.last() == digits.last());
        lemma_behind(value, front);
        assert(behind(next, rest) == 10 * behind(next, rest.drop_last()) + (rest.last() as u32
            - 48) as nat);
    }
}

proof fn lemma_grows(value: nat, digits: Seq<char>)
    ensures
        behind(value, digits) >= value,
    decreases digits.len(),
{
    if digits.len() > 0 {
        lemma_grows(value, digits.drop_last());
    }
}

proof fn lemma_scanned(digits: Seq<char>, value: nat, max: nat)
    ensures
        match numbers::scanned(digits, value, max) {
            Ok(n) => all_digits(digits) && n == behind(value, digits) && (value <= max ==> n
                <= max),
            Err(NumberFault::InvalidDigit) => !all_digits(digits),
            Err(NumberFault::Overflow) => all_digits(digits) ==> behind(value, digits) > max,
            Err(NumberFault::Empty) => false,
        },
    decreases digits.len(),
{
    if digits.len() > 0 && is_digit(digits[0]) {
        let next = value * 10 + (digits[0] as u32 - 48) as nat;
        let rest = digits.drop_first();
        lemma_behind(value, digits);
        lemma_grows(next, rest);
        lemma_scanned(rest, next, max);
        assert(numbers::is_digit(digits[0]));
        assert(numbers::digit_value(digits[0]) == (digits[0] as u32 - 48) as nat);
        if next <= max {
            assert(numbers::scanned(digits, value, max) == numbers::scanned(rest, next, max));
        } else {
            assert(numbers::scanned(digits, value, max) == Err::<nat, NumberFault>(
                NumberFault::Overflow,
            ));
        }
        assert(all_digits(rest) == all_digits(digits)) by {
            if all_digits(rest) {
                assert forall|i: int| 0 <= i < digits.len() implies is_digit(
                    #[trigger] digits[i],
                ) by {
                    if i > 0 {
                        assert(rest[i - 1] == digits[i]);
                    }
                }
            }
            if all_digits(digits) {
                assert forall|i: int| 0 <= i < rest.len() implies is_digit(#[trigger] rest[i]) by {
                    assert(rest[i] == digits[i + 1]);
                }
            }
        }
    } else if digits.len() > 0 {
        assert(!all_digits(digits));
    }
}

proof fn lemma_value(digits: Seq<char>)
    ensures
        behind(0, digits) == value_of(digits),
    decreases digits.len(),
{
    if digits.len() > 0 {
        lemma_value(digits.drop_last());
    }
}

/// A text is a number if it is digits, perhaps behind a plus sign, and then it is the number
/// that they write in the decimal system; a number above the greatest one that is asked for
/// is too large, a text with anything else in it has an invalid digit, and an empty text is
/// no number.
pub proof fn only_numerals_are_numbers(word: Seq<char>, max: nat)
    ensures
        ({
            let digits = if word.len() > 1 && word[0] == '+' {
                word.drop_first()
            } else {
                word
            };
            let plain = digits.len() > 0 && all_digits(digits);
            &&& plain && value_of(digits) <= max ==> numbers::parsed(word, max) == Ok::<
                nat,
                NumberFault,
            >(value_of(digits))
            &&& plain && value_of(digits) > max ==> numbers::parsed(word, max) == Err::<
                nat,
                NumberFault,
            >(NumberFault::Overflow)
            &&& !plain ==> numbers::parsed(word, max) is Err
            &&& numbers::parsed(word, max) == Err::<nat, NumberFault>(NumberFault::Empty)
                <==> word.len() == 0
        }),
{
    let digits = if word.len() > 1 && word[0] == '+' {
        word.drop_first()
    } else {
        word
    };
    lemma_scanned(digits, 0, max);
    lemma_value(digits);
    if word.len() == 1 && word[0] == '+' {
        assert(!is_digit(word[0]));
        assert(!all_digits(word));
    }
}

/// What a user reads about a text that is no number.
pub proof fn faults_of_numbers_are_told_apart()
    ensures
        numbers::fault_text(NumberFault::Empty) == "cannot parse integer from empty string"@,
        numbers::fault_text(NumberFault::InvalidDigit) == "invalid digit found in string"@,
        numbers::fault_text(NumberFault::Overflow) == "number too large to fit in target type"@,
{
}

/// A character is found at its first place, or nowhere.
pub proof fn characters_are_found_first(text: Seq<char>, c: char, from: int)
    requires
        0 <= from <= text.len(),
    ensures
        ({
            let at = scan::first_char(text, c, from);
            &&& from <= at <= text.len()
            &&& at < text.len() ==> text[at] == c
            &&& forall|i: int| from <= i < at ==> #[trigger] text[i] != c
        }),
    decreases text.len() - from,
{
    if from < text.len() && text[from] != c {
        characters_are_found_first(text, c, from + 1);
    }
}

/// A pattern is found at its first place, or nowhere.
pub proof fn patterns_are_found_first(text: Seq<char>, pattern: Seq<char>, from: int)
    requires
        0 <= from <= text.len(),
    ensures
        match scan::first_match(text, pattern, from) {
            Some(at) => {
                &&& from <= at
                &&& at + pattern.len() <= text.len()
                &&& text.subrange(at, at + pattern.len()) == pattern
                &&& forall|i: int|
                    from <= i < at && i + pattern.len() <= text.len() ==> #[trigger] text.subrange(
                        i,
                        i + pattern.len(),
                    ) != pattern
            },
            None => forall|i: int|
                from <= i && i + pattern.len() <= text.len() ==> #[trigger] text.subrange(
                    i,
                    i + pattern.len(),
                ) != pattern,
        },
    decreases text.len() - from,
{
    if from < text.len() && !scan::is_match(text, pattern, from) {
        patterns_are_found_first(text, pattern, from + 1);
    }
}

proof fn lemma_spaces(text: Seq<char>, from: int)
    requires
        0 <= from <= text.len(),
    ensures
        ({
            let at = scan::next_space(text, from, false);
            &&& from <= at <= text.len()
            &&& at < text.len() ==> !words::is_space(text[at])
            &&& forall|i: int| from <= i < at ==> words::is_space(#[trigger] text[i])
        }),
    decreases text.len() - from,
{
    if from < text.len() && words::is_space(text[from]) {
        lemma_spaces(text, from + 1);
    }
}

proof fn lemma_end(text: Seq<char>)
    ensures
        ({
            let at = scan::trimmed_end(text);
            &&& 0 <= at <= text.len()
            &&& at > 0 ==> !words::is_space(text[at - 1])
            &&& forall|i: int| at <= i < text.len() ==> words::is_space(#[trigger] text[i])
        }),
    decreases text.len(),
{
    if text.len() > 0 && words::is_space(text.last()) {
        lemma_end(text.drop_last());
        let at = scan::trimmed_end(text);
        assert forall|i: int| at <= i < text.len() implies words::is_space(#[trigger] text[i]) by {
            if i < text.len() - 1 {
                assert(text.drop_last()[i] == text[i]);
            }
        }
        if at > 0 {
            assert(text.drop_last()[at - 1] == text[at - 1]);
        }
    }
}

/// A text loses the white space in front of it and behind it, all of it and nothing else.
pub proof fn texts_lose_only_the_space_around_them(text: Seq<char>)
    ensures
        ({
            let inner = scan::trimmed(text);
            &&& exists|a: int, b: int|
                0 <= a <= b <= text.len() && inner == #[trigger] text.subrange(a, b) && (forall|i:
                    int|
                    0 <= i < a || b <= i < text.len() ==> words::is_space(#[trigger] text[i]))
            &&& inner.len() > 0 ==> !words::is_space(inner[0]) && !words::is_space(inner.last())
        }),
{
    lemma_spaces(text, 0);
    lemma_end(text);
    let a = scan::next_space(text, 0, false);
    let b = scan::trimmed_end(text);
    if a >= b {
        assert(text.subrange(0, 0) =~= Seq::<char>::empty());
        assert forall|i: int| 0 <= i < text.len() implies words::is_space(#[trigger] text[i]) by {
            if i >= a {
                assert(i >= b);
            }
        }
    } else {
        assert(scan::trimmed(text) == text.subrange(a, b));
    }
}

/// A list of numbers is written between brackets, in its order, with a comma and a blank
/// between two of them.
pub proof fn lists_are_written_in_order(items: Seq<usize>, last: usize)
    ensures
        text::list_text(Seq::empty()) == seq!['[', ']'],
        text::list_text(seq![last]) == seq!['['] + text::decimal(last as nat) + seq![']'],
        items.len() > 0 ==> text::joined(items.push(last)) == text::joined(items) + seq![',', ' ']
            + text::decimal(last as nat),
{
    assert(text::list_text(Seq::empty()) =~= seq!['[', ']']);
    assert(items.push(last).drop_last() =~= items);
}

/// The elements of a shape are counted by multiplying its dimensions; a shape without any
/// has one element.
pub proof fn shapes_count_their_elements(shape: Seq<usize>, n: usize, a: usize, b: usize)
    ensures
        archive::product(Seq::empty()) == 1,
        archive::product(seq![a, b]) == a * b,
        archive::product(shape.push(n)) == archive::product(shape) * n,
{
    assert(shape.push(n).drop_last() =~= shape);
    crate::tensor::lemma_product_two(seq![a, b]);
}

/// An array file is read only where its header says, with either kind of quotes, that it
/// holds little-endian 32-bit numbers, and, where that matters, does not say that they are
/// in column order.
pub proof fn headers_must_name_their_numbers(header: Seq<char>, name: Seq<char>, refuse: bool)
    ensures
        ({
            let says = |pattern: Seq<char>| scan::first_match(header, pattern, 0) is Some;
            let plain = says("'descr': '<f4'"@) || says("\"descr\": \"<f4"@);
            let columns = says("'fortran_order': True"@) || says("\"fortran_order\": true"@);
            npy::header_fault(header, name, refuse) == if !plain {
                Some(name + " is not little-endian float32"@)
            } else if refuse && columns {
                Some(name + " uses Fortran order"@)
            } else {
                None
            }
        }),
{
}

/// An array file is read where all of it is there: it starts like one, in a version that is
/// known, its header is a text that names its numbers and its shape, and the file holds as
/// many numbers as the shape counts. It is refused otherwise.
pub proof fn whole_array_files_are_read(bytes: Seq<u8>, name: Seq<char>, refuse: bool)
    ensures
        npy::array_of(bytes, name, refuse) is Ok <==> {
            &&& npy::is_npy(bytes)
            &&& npy::header_span(bytes) is Some
            &&& vstd::utf8::valid_utf8(npy::header_bytes(bytes))
            &&& ({
                let header = vstd::utf8::decode_utf8(npy::header_bytes(bytes));
                &&& npy::header_fault(header, name, refuse) is None
                &&& npy::shape_of(header) matches Ok(shape) && (npy::header_span(bytes)
                    matches Some((_, from)) && bytes.len() - from >= archive::product(shape) * 4)
            })
        },
{
}

/// What a user reads of an error names the call or the library, and why.
pub proof fn errors_say_what_failed(reason: String, call: String, status: i32, why: String)
    ensures
        error::error_text(Error::InvalidInput(reason)) == "invalid input: "@ + reason@,
        error::error_text(Error::Hip { call, status, message: why }) == "HIP call "@ + call@
            + " failed with status "@ + text::decimal_int(status as int) + ": "@ + why@,
        error::error_text(Error::Rocblas { call, status }) == "rocBLAS call "@ + call@
            + " failed with status "@ + text::decimal_int(status as int),
        error::error_text(Error::Hiprtc { call, status, log: why }) == "HIPRTC call "@ + call@
            + " failed with status "@ + text::decimal_int(status as int) + ": "@ + why@,
        error::error_text(Error::LibraryNotFound { name: reason })
            == "could not find ROCm library matching "@ + reason@,
        error::error_text(Error::LibraryLoad { library: reason, source: why })
            == "failed to load ROCm library "@ + reason@ + ": "@ + why@,
        error::error_text(Error::SymbolLoad { library: reason, symbol: call, source: why })
            == "failed to resolve symbol "@ + call@ + " from "@ + reason@ + ": "@ + why@,
{
}

/// The shape of an array stands behind the first key of that name in single quotes, or, where
/// there is none, behind the first one in double quotes.
pub proof fn shapes_stand_behind_their_key(header: Seq<char>, before: Seq<char>, after: Seq<char>)
    ensures
        header == before + "'shape':"@ + after && (forall|i: int|
            0 <= i < before.len() ==> #[trigger] header.subrange(i, i + 8) != "'shape':"@)
            ==> npy::shape_key(header) == Some(before.len() as int),
        scan::first_match(header, "'shape':"@, 0) is None ==> npy::shape_key(header)
            == scan::first_match(header, "\"shape\":"@, 0),
{
    let key = "'shape':"@;
    reveal_strlit("'shape':");
    if header == before + key + after && (forall|i: int|
        0 <= i < before.len() ==> #[trigger] header.subrange(i, i + 8) != key) {
        patterns_are_found_first(header, key, 0);
        let n = before.len() as int;
        assert(header.subrange(n, n + 8) =~= key);
        assert(n + key.len() <= header.len());
        match scan::first_match(header, key, 0) {
            Some(at) => {
                if at < n {
                    assert(header.subrange(at, at + 8) == key);
                } else if at > n {
                    assert(header.subrange(n, n + key.len()) == key);
                }
            },
            None => {
                assert(header.subrange(n, n + key.len()) == key);
            },
        }
    }
}

} // verus!

//! Numbers and switches as a user writes them.

use vstd::prelude::*;

use crate::error::{self, Error};
use crate::text::{self, chars_of, same_text};

verus! {

/// Why a text is no number.
#[derive(Clone, Copy, PartialEq, Eq, Structural, Debug)]
pub enum NumberFault {
    Empty,
    InvalidDigit,
    Overflow,
}

pub open spec fn is_digit(c: char) -> bool {
    '0' <= c <= '9'
}

pub open spec fn digit_value(c: char) -> nat {
    (c as u32 - '0' as u32) as nat
}

/// The number that `digits` write behind the digits of `value`, read up to the first
/// character that is no digit or takes the number above `max`.
pub open spec fn scanned(digits: Seq<char>, value: nat, max: nat) -> Result<nat, NumberFault>
    decreases digits.len(),
{
    if digits.len() == 0 {
        Ok(value)
    } else if !is_digit(digits[0]) {
        Err(NumberFault::InvalidDigit)
    } else if value * 10 + digit_value(digits[0]) > max {
        Err(NumberFault::Overflow)
    } else {
        scanned(digits.drop_first(), value * 10 + digit_value(digits[0]), max)
    }
}

/// The number up to `max` that a text writes: decimal digits, perhaps behind a plus sign.
pub open spec fn parsed(text: Seq<char>, max: nat) -> Result<nat, NumberFault> {
    if text.len() == 0 {
        Err(NumberFault::Empty)
    } else if text.len() == 1 && text[0] == '+' {
        Err(NumberFault::InvalidDigit)
    } else if text[0] == '+' {
        scanned(text.drop_first(), 0, max)
    } else {
        scanned(text, 0, max)
    }
}

/// What a user reads about a text that is no number.
pub open spec fn fault_text(fault: NumberFault) -> Seq<char> {
    match fault {
        NumberFault::Empty => "cannot parse integer from empty string"@,
        NumberFault::InvalidDigit => "invalid digit found in string"@,
        NumberFault::Overflow => "number too large to fit in target type"@,
    }
}

/// What a user reads about an unusable value of `name`.
pub open spec fn invalid_text(name: Seq<char>, why: Seq<char>) -> Seq<char> {
    "invalid "@ + name + ": "@ + why
}

/// The error for an unusable value of `name`.
pub fn invalid_value(name: &str, why: &str) -> (e: Error)
    ensures
        error::is_invalid(e, invalid_text(name@, why@)),
{
    let mut text = "invalid ".to_owned();
    text.append(name);
    text.append(": ");
    text.append(why);
    Error::InvalidInput(text)
}

/// What a user reads about a text that is no number.
pub fn describe(fault: NumberFault) -> (text: &'static str)
    ensures
        text@ == fault_text(fault),
{
    match fault {
        NumberFault::Empty => "cannot parse integer from empty string",
        NumberFault::InvalidDigit => "invalid digit found in string",
        NumberFault::Overflow => "number too large to fit in target type",
    }
}

/// The number up to `max` that a text writes.
pub fn parse_number(text: &str, max: u64) -> (number: Result<u64, NumberFault>)
    ensures
        match (number, parsed(text@, max as nat)) {
            (Ok(n), Ok(expected)) => n == expected,
            (Err(fault), Err(expected)) => fault == expected,
            _ => false,
        },
        number matches Ok(n) ==> n <= max,
{
    let chars: Vec<char> = chars_of(text);
    if chars.len() == 0 {
        return Err(NumberFault::Empty);
    }
    let mut index: usize = 0;
    if chars[0] == '+' {
        if chars.len() == 1 {
            return Err(NumberFault::InvalidDigit);
        }
        index = 1;
    }
    let mut value: u64 = 0;
    proof {
        assert(text@.skip(0) =~= text@);
        assert(text@.skip(1) =~= text@.drop_first());
    }
    while index < chars.len()
        invariant
            chars@ == text@,
            index <= chars@.len(),
            value <= max,
            scanned(text@.skip(index as int), value as nat, max as nat) == parsed(
                text@,
                max as nat,
            ),
        decreases chars@.len() - index,
    {
        let c: char = chars[index];
        proof {
            assert(text@.skip(index as int)[0] == c);
            assert(text@.skip(index as int).drop_first() =~= text@.skip(index as int + 1));
        }
        if !('0' <= c && c <= '9') {
            return Err(NumberFault::InvalidDigit);
        }
        let digit: u64 = (c as u32 - 48) as u64;
        if digit > max || value > max / 10 || value * 10 > max - digit {
            return Err(NumberFault::Overflow);
        }
        value = value * 10 + digit;
        index += 1;
    }
    proof {
        assert(text@.skip(index as int).len() == 0);
    }
    Ok(value)
}

/// A count that a user writes for `name`.
pub fn parse_usize(value: &str, name: &str) -> (number: Result<usize, Error>)
    ensures
        match (number, parsed(value@, usize::MAX as nat)) {
            (Ok(n), Ok(expected)) => n == expected,
            (Err(e), Err(fault)) => error::is_invalid(e, invalid_text(name@, fault_text(fault))),
            _ => false,
        },
{
    match parse_number(value, usize::MAX as u64) {
        Ok(n) => Ok(n as usize),
        Err(fault) => Err(invalid_value(name, describe(fault))),
    }
}

/// A 64-bit number that a user writes for `name`.
pub fn parse_u64(value: &str, name: &str) -> (number: Result<u64, Error>)
    ensures
        match (number, parsed(value@, u64::MAX as nat)) {
            (Ok(n), Ok(expected)) => n == expected,
            (Err(e), Err(fault)) => error::is_invalid(e, invalid_text(name@, fault_text(fault))),
            _ => false,
        },
{
    match parse_number(value, u64::MAX) {
        Ok(n) => Ok(n),
        Err(fault) => Err(invalid_value(name, describe(fault))),
    }
}

/// A letter from A to Z as a small letter; any other character as it is.
pub open spec fn small(c: char) -> char {
    if 'A' <= c <= 'Z' {
        (c as u32 + 32) as char
    } else {
        c
    }
}

/// The text with small letters for the letters from A to Z.
pub open spec fn lowered(text: Seq<char>) -> Seq<char> {
    text.map_values(|c: char| small(c))
}

/// The text with small letters for the letters from A to Z.
pub fn to_lower(text: &str) -> (lower: String)
    ensures
        lower@ == lowered(text@),
{
    let chars: Vec<char> = chars_of(text);
    let mut lower = String::new();
    let mut index: usize = 0;
    while index < chars.len()
        invariant
            chars@ == text@,
            index <= chars@.len(),
            lower@ == lowered(text@.take(index as int)),
        decreases chars@.len() - index,
    {
        let c: char = chars[index];
        if 'A' <= c && c <= 'Z' {
            let n: u8 = (c as u32) as u8;
            lower.push((n + 32) as char);
        } else {
            lower.push(c);
        }
        index += 1;
        proof {
            assert(lower@ =~= lowered(text@.take(index as int)));
        }
    }
    proof {
        assert(text@.take(text@.len() as int) =~= text@);
    }
    lower
}

/// The text is one of four, in small letters.
pub open spec fn is_one_of(text: Seq<char>, a: &str, b: &str, c: &str, d: &str) -> bool {
    text == a@ || text == b@ || text == c@ || text == d@
}

/// The switch that a text sets, whatever the case of its letters.
pub open spec fn switch_of(value: Seq<char>) -> Option<bool> {
    let word = lowered(value);
    if is_one_of(word, "1", "true", "yes", "on") {
        Some(true)
    } else if is_one_of(word, "0", "false", "no", "off") {
        Some(false)
    } else {
        None
    }
}

/// The switch that a user sets for `name`.
pub fn parse_bool(value: &str, name: &str) -> (switch: Result<bool, Error>)
    ensures
        match (switch, switch_of(value@)) {
            (Ok(on), Some(expected)) => on == expected,
            (Err(e), None) => error::is_invalid(e, invalid_text(name@, lowered(value@))),
            _ => false,
        },
{
    let lower: String = to_lower(value);
    let word: &str = lower.as_str();
    if same_text(word, "1") || same_text(word, "true") || same_text(word, "yes") || same_text(
        word,
        "on",
    ) {
        return Ok(true);
    }
    if same_text(word, "0") || same_text(word, "false") || same_text(word, "no") || same_text(
        word,
        "off",
    ) {
        return Ok(false);
    }
    Err(invalid_value(name, word))
}

proof fn lemma_scanned_push(digits: Seq<char>, c: char, value: nat, max: nat)
    ensures
        scanned(digits.push(c), value, max) == match scanned(digits, value, max) {
            Ok(n) => scanned(seq![c], n, max),
            Err(fault) => Err(fault),
        },
    decreases digits.len(),
{
    if digits.len() == 0 {
        assert(digits.push(c) =~= seq![c]);
    } else {
        assert(digits.push(c).drop_first() =~= digits.drop_first().push(c));
        assert(digits.push(c)[0] == digits[0]);
        if is_digit(digits[0]) {
            lemma_scanned_push(
                digits.drop_first(),
                c,
                value * 10 + digit_value(digits[0]),
                max,
            );
        }
    }
}

proof fn lemma_numeral(n: nat, max: nat)
    requires
        n <= max,
    ensures
        scanned(text::decimal(n), 0, max) == Ok::<nat, NumberFault>(n),
        text::decimal(n).len() > 0,
        is_digit(text::decimal(n)[0]),
    decreases n,
{
    let c = text::digit_char(n % 10);
    assert(is_digit(c) && digit_value(c) == n % 10);
    reveal_with_fuel(scanned, 2);
    if n >= 10 {
        lemma_numeral(n / 10, max);
        lemma_scanned_push(text::decimal(n / 10), c, 0, max);
        assert(seq![c].drop_first().len() == 0);
        assert((n / 10) * 10 + n % 10 == n);
    } else {
        assert(seq![c].drop_first().len() == 0);
    }
}

/// The decimal numeral of a number is read as that number.
pub proof fn numerals_are_read_back(n: nat, max: nat)
    requires
        n <= max,
    ensures
        parsed(text::decimal(n), max) == Ok::<nat, NumberFault>(n),
{
    lemma_numeral(n, max);
}

} // verus!

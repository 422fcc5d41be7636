//! Comparing generated tokens and codes with those of stored runs.

use vstd::prelude::*;

use crate::error::{self, Error};
use crate::npy::{self, unsigned_code, NpyF32};
use crate::text::{self, push_decimal, push_usize};

verus! {

/// The codes of one frame.
pub const CODE_GROUPS: usize = 16;

/// The numerals of `items` joined by a comma and a space.
pub open spec fn joined(items: Seq<int>) -> Seq<char>
    decreases items.len(),
{
    if items.len() == 0 {
        Seq::empty()
    } else if items.len() == 1 {
        text::decimal_int(items[0])
    } else {
        joined(items.drop_last()) + seq![',', ' '] + text::decimal_int(items.last())
    }
}

/// A list of integers between square brackets.
pub open spec fn numbers_text(items: Seq<int>) -> Seq<char> {
    seq!['['] + joined(items) + seq![']']
}

/// The values of signed codes.
pub open spec fn signed_values(codes: Seq<i32>) -> Seq<int> {
    codes.map_values(|code: i32| code as int)
}

/// The values of tokens.
pub open spec fn token_values(tokens: Seq<u32>) -> Seq<int> {
    tokens.map_values(|token: u32| token as int)
}

/// The tokens that an array stores: its numbers, rounded.
pub open spec fn stored_tokens(array: NpyF32) -> Seq<u32> {
    array.data@.map_values(|bits: u32| npy::rounded(bits, 0, u32::MAX as int) as u32)
}

/// What is reported where `actual` is not the `expected` list.
pub open spec fn mismatch_text(name: Seq<char>, actual: Seq<int>, expected: Seq<int>) -> Seq<
    char,
> {
    name + " mismatch: actual="@ + numbers_text(actual) + ", expected="@ + numbers_text(expected)
}

fn push_numbers(out: &mut String, items: &[i64])
    requires
        forall|i: int| 0 <= i < items@.len() ==> -4294967296 < #[trigger] items@[i],
    ensures
        final(out)@ == old(out)@ + numbers_text(items@.map_values(|n: i64| n as int)),
{
    let ghost start = out@;
    let ghost values = items@.map_values(|n: i64| n as int);
    out.push('[');
    let mut index: usize = 0;
    proof {
        assert(values.take(0) =~= Seq::<int>::empty());
    }
    while index < items.len()
        invariant
            index <= items@.len(),
            values == items@.map_values(|n: i64| n as int),
            forall|i: int| 0 <= i < items@.len() ==> -4294967296 < #[trigger] items@[i],
            out@ == start + seq!['['] + joined(values.take(index as int)),
        decreases items@.len() - index,
    {
        let ghost grown = values.take(index as int + 1);
        proof {
            assert(grown.drop_last() =~= values.take(index as int));
            assert(grown.last() == items@[index as int]);
        }
        if index > 0 {
            out.push(',');
            out.push(' ');
        }
        let number: i64 = items[index];
        if number < 0 {
            out.push('-');
            push_decimal(out, (-number) as u64);
        } else {
            push_decimal(out, number as u64);
        }
        proof {
            assert(out@ =~= start + seq!['['] + joined(grown));
        }
        index += 1;
    }
    proof {
        assert(values.take(values.len() as int) =~= values);
    }
    out.push(']');
    proof {
        assert(out@ =~= start + numbers_text(values));
    }
}

/// Compares two lists of small integers. `name` introduces the report.
fn compare(name: &str, actual: &[i64], expected: &[i64]) -> (compared: Result<(), Error>)
    requires
        forall|i: int| 0 <= i < actual@.len() ==> -4294967296 < #[trigger] actual@[i],
        forall|i: int| 0 <= i < expected@.len() ==> -4294967296 < #[trigger] expected@[i],
    ensures
        match compared {
            Ok(_) => actual@ == expected@,
            Err(e) => actual@ != expected@ && error::is_invalid(
                e,
                mismatch_text(
                    name@,
                    actual@.map_values(|n: i64| n as int),
                    expected@.map_values(|n: i64| n as int),
                ),
            ),
        },
{
    let mut same: bool = actual.len() == expected.len();
    let mut index: usize = 0;
    while same && index < actual.len()
        invariant
            index <= actual@.len(),
            same ==> actual@.len() == expected@.len() && actual@.take(index as int)
                == expected@.take(index as int),
            !same ==> actual@ != expected@,
        decreases actual@.len() - index,
    {
        if actual[index] != expected[index] {
            same = false;
        }
        proof {
            if same {
                assert(actual@.take(index as int + 1) =~= actual@.take(index as int).push(
                    actual@[index as int],
                ));
                assert(expected@.take(index as int + 1) =~= expected@.take(index as int).push(
                    expected@[index as int],
                ));
            }
        }
        index += 1;
    }
    if same {
        proof {
            assert(actual@.take(actual@.len() as int) =~= actual@);
            assert(expected@.take(expected@.len() as int) =~= expected@);
        }
        return Ok(());
    }
    let mut report = name.to_owned();
    report.append(" mismatch: actual=");
    push_numbers(&mut report, actual);
    report.append(", expected=");
    push_numbers(&mut report, expected);
    Err(Error::InvalidInput(report))
}

fn widened(codes: &[i32], count: usize) -> (values: Vec<i64>)
    requires
        count <= codes@.len(),
    ensures
        values@.map_values(|n: i64| n as int) == signed_values(codes@.take(count as int)),
        values@.len() == count,
        forall|i: int| 0 <= i < count ==> #[trigger] values@[i] == codes@[i],
{
    let mut values: Vec<i64> = Vec::new();
    let mut index: usize = 0;
    while index < count
        invariant
            index <= count <= codes@.len(),
            values@.len() == index,
            forall|i: int| 0 <= i < index ==> #[trigger] values@[i] == codes@[i],
        decreases count - index,
    {
        values.push(codes[index] as i64);
        index += 1;
    }
    proof {
        assert(values@.map_values(|n: i64| n as int) =~= signed_values(codes@.take(count as int)));
    }
    values
}

/// Compares codes with the first codes of a stored run that has at least as many.
fn compare_first(name: &str, actual: &[i32], expected: &[i32], count: usize) -> (compared: Result<
    (),
    Error,
>)
    requires
        count <= expected@.len(),
    ensures
        match compared {
            Ok(_) => actual@ == expected@.take(count as int),
            Err(e) => actual@ != expected@.take(count as int) && error::is_invalid(
                e,
                mismatch_text(
                    name@,
                    signed_values(actual@),
                    signed_values(expected@.take(count as int)),
                ),
            ),
        },
{
    let left = widened(actual, actual.len());
    let right = widened(expected, count);
    proof {
        assert(actual@.take(actual@.len() as int) =~= actual@);
        if left@ == right@ {
            assert forall|i: int| 0 <= i < count implies actual@[i] == expected@[i] by {
                assert(left@[i] == right@[i]);
            }
            assert(actual@ =~= expected@.take(count as int));
        } else if actual@ == expected@.take(count as int) {
            assert forall|i: int| 0 <= i < count implies left@[i] == right@[i] by {
                assert(actual@[i] == expected@.take(count as int)[i]);
            }
            assert(left@ =~= right@);
        }
    }
    compare(name, left.as_slice(), right.as_slice())
}

/// The codes are those of a stored run, all of them. `name` introduces the report.
pub fn compare_codes(name: &str, actual: &[i32], expected: &[i32]) -> (compared: Result<(), Error>)
    ensures
        match compared {
            Ok(_) => actual@ == expected@,
            Err(e) => actual@ != expected@ && error::is_invalid(
                e,
                mismatch_text(name@, signed_values(actual@), signed_values(expected@)),
            ),
        },
{
    proof {
        assert(expected@.take(expected@.len() as int) =~= expected@);
    }
    compare_first(name, actual, expected, expected.len())
}

/// The generated codes are the first ones of a stored run, which has at least as many.
pub fn check_generated(actual: &[i32], expected: &[i32]) -> (checked: Result<(), Error>)
    ensures
        match checked {
            Ok(_) => actual@.is_prefix_of(expected@),
            Err(e) => {
                ||| expected@.len() < actual@.len() && error::is_invalid(
                    e,
                    "reference has "@ + text::decimal(expected@.len()) + " codes but generated "@
                        + text::decimal(actual@.len()),
                )
                ||| expected@.len() >= actual@.len() && !actual@.is_prefix_of(expected@)
                    && error::is_invalid(
                    e,
                    mismatch_text(
                        "generated codes"@,
                        signed_values(actual@),
                        signed_values(expected@.take(actual@.len() as int)),
                    ),
                )
            },
        },
{
    if expected.len() < actual.len() {
        let mut report = "reference has ".to_owned();
        push_usize(&mut report, expected.len());
        report.append(" codes but generated ");
        push_usize(&mut report, actual.len());
        return Err(Error::InvalidInput(report));
    }
    proof {
        assert(expected@.take(actual@.len() as int) =~= expected@.subrange(
            0,
            actual@.len() as int,
        ));
    }
    compare_first("generated codes", actual, expected, actual.len())
}

/// A rollout of `frames` frames is the first part of a stored one. A stored one that is
/// shorter is not compared with.
pub fn check_rollout(actual: &[i32], expected: &[i32], frames: usize) -> (checked: Result<
    (),
    Error,
>)
    requires
        CODE_GROUPS * frames <= usize::MAX,
    ensures
        match checked {
            Ok(_) => expected@.len() < CODE_GROUPS * frames || actual@ == expected@.take(
                CODE_GROUPS * frames,
            ),
            Err(e) => {
                &&& expected@.len() >= CODE_GROUPS * frames
                &&& actual@ != expected@.take(CODE_GROUPS * frames)
                &&& error::is_invalid(
                    e,
                    mismatch_text(
                        "rollout"@,
                        signed_values(actual@),
                        signed_values(expected@.take(CODE_GROUPS * frames)),
                    ),
                )
            },
        },
{
    let count: usize = CODE_GROUPS * frames;
    if expected.len() < count {
        return Ok(());
    }
    compare_first("rollout", actual, expected, count)
}

/// The tokens are those that an array stores. `name` introduces the report.
pub fn compare_ids(name: &str, actual: &[u32], expected: &NpyF32) -> (compared: Result<(), Error>)
    ensures
        match compared {
            Ok(_) => actual@ == stored_tokens(*expected),
            Err(e) => actual@ != stored_tokens(*expected) && error::is_invalid(
                e,
                mismatch_text(name@, token_values(actual@), token_values(stored_tokens(*expected))),
            ),
        },
{
    let mut left: Vec<i64> = Vec::new();
    let mut index: usize = 0;
    while index < actual.len()
        invariant
            index <= actual@.len(),
            left@.len() == index,
            forall|i: int| 0 <= i < index ==> #[trigger] left@[i] == actual@[i],
        decreases actual@.len() - index,
    {
        left.push(actual[index] as i64);
        index += 1;
    }
    let ghost stored = stored_tokens(*expected);
    let mut right: Vec<i64> = Vec::new();
    let mut place: usize = 0;
    while place < expected.data.len()
        invariant
            place <= expected.data@.len(),
            stored == stored_tokens(*expected),
            right@.len() == place,
            forall|i: int| 0 <= i < place ==> #[trigger] right@[i] == stored[i],
        decreases expected.data@.len() - place,
    {
        right.push(unsigned_code(expected.data[place]) as i64);
        place += 1;
    }
    proof {
        assert(left@.map_values(|n: i64| n as int) =~= token_values(actual@));
        assert(right@.map_values(|n: i64| n as int) =~= token_values(stored));
        if left@ == right@ {
            assert forall|i: int| 0 <= i < actual@.len() implies actual@[i] == stored[i] by {
                assert(left@[i] == right@[i]);
            }
            assert(actual@ =~= stored);
        } else if actual@ == stored {
            assert(left@ =~= right@);
        }
    }
    compare(name, left.as_slice(), right.as_slice())
}

} // verus!

//! Arrays in the `.npy` format: a short header in text, and little-endian 32-bit numbers.

use vstd::prelude::*;
use vstd::utf8;

use crate::archive;
use crate::error::{self, invalid, Error};
use crate::lists::copy_range;
use crate::numbers::{self, describe, parse_number};
use crate::scan::{self, find_char, find_text, trim};
use crate::tensor::{self, element_count, read_f32};
use crate::text::{self, chars_of, push_list, push_usize, text_of};

verus! {

/// An array. The numbers are given by their bits.
#[derive(Debug)]
pub struct NpyF32 {
    pub shape: Vec<usize>,
    pub data: Vec<u32>,
}

/// The numbers that the parts of a tuple write, up to the first one that is no number.
/// The parts stand between commas; empty ones are passed over.
pub open spec fn tuple_of(inner: Seq<char>, from: int) -> Result<Seq<usize>, Seq<char>>
    decreases
            (if from > inner.len() {
                0
            } else {
                inner.len() - from + 1
            }),
{
    if from > inner.len() {
        Ok(Seq::empty())
    } else {
        proof {
            scan::lemma_first_char(inner, ',', from);
        }
        let end = scan::first_char(inner, ',', from);
        let part = scan::trimmed(inner.subrange(from, end));
        if part.len() == 0 {
            tuple_of(inner, end + 1)
        } else {
            match numbers::parsed(part, usize::MAX as nat) {
                Err(fault) => Err(numbers::fault_text(fault)),
                Ok(n) => match tuple_of(inner, end + 1) {
                    Err(why) => Err(why),
                    Ok(rest) => Ok(seq![n as usize] + rest),
                },
            }
        }
    }
}

/// Where the key of the shape stands in a header.
pub open spec fn shape_key(header: Seq<char>) -> Option<int> {
    match scan::first_match(header, "'shape':"@, 0) {
        Some(at) => Some(at),
        None => scan::first_match(header, "\"shape\":"@, 0),
    }
}

/// The shape that a header writes: the tuple behind its key.
pub open spec fn shape_of(header: Seq<char>) -> Result<Seq<usize>, Seq<char>> {
    match shape_key(header) {
        None => Err("missing shape in npy header"@),
        Some(key) => {
            let open = scan::first_char(header, '(', key);
            let close = scan::first_char(header, ')', open + 1);
            if open >= header.len() {
                Err("missing shape tuple start"@)
            } else if close >= header.len() {
                Err("missing shape tuple end"@)
            } else {
                tuple_of(header.subrange(open + 1, close), 0)
            }
        },
    }
}

fn parse_tuple(inner: &Vec<char>) -> (shape: Result<Vec<usize>, Error>)
    ensures
        match (shape, tuple_of(inner@, 0)) {
            (Ok(s), Ok(expected)) => s@ == expected,
            (Err(e), Err(why)) => error::is_invalid(e, why),
            _ => false,
        },
{
    let size: usize = inner.len();
    let mut shape: Vec<usize> = Vec::new();
    let mut from: usize = 0;
    let mut going: bool = true;
    proof {
        if let Ok(rest) = tuple_of(inner@, 0) {
            assert(Seq::<usize>::empty() + rest =~= rest);
        }
    }
    while going
        invariant
            size == inner@.len(),
            from <= size,
            going ==> tuple_of(inner@, 0) == match tuple_of(inner@, from as int) {
                Ok(rest) => Ok::<Seq<usize>, Seq<char>>(shape@ + rest),
                Err(why) => Err(why),
            },
            !going ==> tuple_of(inner@, 0) == Ok::<Seq<usize>, Seq<char>>(shape@),
        decreases size - from + (if going {
            1int
        } else {
            0int
        }),
    {
        let end: usize = find_char(inner, ',', from);
        let part: String = trim(text_of(inner.as_slice(), from, end).as_str());
        let ghost before = shape@;
        if chars_of(part.as_str()).len() > 0 {
            match parse_number(part.as_str(), usize::MAX as u64) {
                Err(fault) => {
                    return Err(invalid(describe(fault)));
                },
                Ok(n) => {
                    shape.push(n as usize);
                    proof {
                        if let Ok(rest) = tuple_of(inner@, end + 1) {
                            assert(before + (seq![n as usize] + rest) =~= shape@ + rest);
                        }
                    }
                },
            }
        }
        if end >= size {
            going = false;
            proof {
                assert(tuple_of(inner@, end + 1) == Ok::<Seq<usize>, Seq<char>>(Seq::empty()));
                assert(shape@ + Seq::<usize>::empty() =~= shape@);
            }
        } else {
            from = end + 1;
        }
    }
    Ok(shape)
}

/// The shape that a header writes.
pub fn parse_shape(header: &str) -> (shape: Result<Vec<usize>, Error>)
    ensures
        match (shape, shape_of(header@)) {
            (Ok(s), Ok(expected)) => s@ == expected,
            (Err(e), Err(why)) => error::is_invalid(e, why),
            _ => false,
        },
{
    let chars: Vec<char> = chars_of(header);
    let key: usize = match find_text(&chars, "'shape':") {
        Some(at) => at,
        None => match find_text(&chars, "\"shape\":") {
            Some(at) => at,
            None => {
                return Err(invalid("missing shape in npy header"));
            },
        },
    };
    let open: usize = find_char(&chars, '(', key);
    if open >= chars.len() {
        return Err(invalid("missing shape tuple start"));
    }
    let close: usize = find_char(&chars, ')', open + 1);
    if close >= chars.len() {
        return Err(invalid("missing shape tuple end"));
    }
    let inner: String = text_of(chars.as_slice(), open + 1, close);
    parse_tuple(&chars_of(inner.as_str()))
}

/// The bytes start like an array file.
pub open spec fn is_npy(bytes: Seq<u8>) -> bool {
    bytes.len() >= 10 && bytes.take(6) == seq![147u8, 78, 85, 77, 80, 89]
}

/// Where the header of a file starts and ends, by its version; `None` for other versions.
pub open spec fn header_span(bytes: Seq<u8>) -> Option<(int, int)> {
    if bytes[6] == 1 {
        Some((10, 10 + bytes[8] + 256 * bytes[9]))
    } else if bytes[6] == 2 || bytes[6] == 3 {
        Some(
            (
                12,
                12 + bytes[8] + 256 * bytes[9] + 65536 * bytes[10] + 16777216 * bytes[11],
            ),
        )
    } else {
        None
    }
}

/// A file that starts like an array file holds its whole header.
pub open spec fn holds_header(bytes: Seq<u8>) -> bool {
    is_npy(bytes) ==> match header_span(bytes) {
        None => true,
        Some((from, to)) => from <= to <= bytes.len(),
    }
}

/// The header of a file, in bytes.
pub open spec fn header_bytes(bytes: Seq<u8>) -> Seq<u8> {
    match header_span(bytes) {
        None => Seq::empty(),
        Some((from, to)) => bytes.subrange(from, to),
    }
}

/// The pattern stands somewhere in the header.
pub open spec fn holds(header: Seq<char>, pattern: Seq<char>) -> bool {
    scan::first_match(header, pattern, 0) is Some
}

/// What a header says that keeps its array from being read. `refuse_fortran` says whether
/// arrays in column order are refused.
pub open spec fn header_fault(header: Seq<char>, name: Seq<char>, refuse_fortran: bool) -> Option<
    Seq<char>,
> {
    if !holds(header, "'descr': '<f4'"@) && !holds(header, "\"descr\": \"<f4"@) {
        Some(name + " is not little-endian float32"@)
    } else if refuse_fortran && (holds(header, "'fortran_order': True"@) || holds(
        header,
        "\"fortran_order\": true"@,
    )) {
        Some(name + " uses Fortran order"@)
    } else {
        None
    }
}

/// Where the header is that of an array, its shape counts elements whose bytes a machine
/// word can number.
pub open spec fn sizes_fit(bytes: Seq<u8>, refuse_fortran: bool) -> bool {
    let header = utf8::decode_utf8(header_bytes(bytes));
    is_npy(bytes) && header_span(bytes) is Some && utf8::valid_utf8(header_bytes(bytes))
        && header_fault(header, Seq::empty(), refuse_fortran) is None ==> match shape_of(header) {
        Err(_) => true,
        Ok(shape) => archive::countable(shape) && archive::product(shape) * 4 <= usize::MAX,
    }
}

/// The array in a file called `name`, or why it cannot be read.
pub open spec fn array_of(bytes: Seq<u8>, name: Seq<char>, refuse_fortran: bool) -> Result<
    (Seq<usize>, Seq<u32>),
    Seq<char>,
> {
    if !is_npy(bytes) {
        Err(name + " is not a .npy file"@)
    } else {
        match header_span(bytes) {
            None => Err("unsupported npy version: "@ + text::decimal(bytes[6] as nat)),
            Some((_, data)) => {
                let plain = header_bytes(bytes);
                let header = utf8::decode_utf8(plain);
                if !utf8::valid_utf8(plain) {
                    Err(text::utf8_fault(plain))
                } else if header_fault(header, name, refuse_fortran) is Some {
                    Err(header_fault(header, name, refuse_fortran)->0)
                } else {
                    match shape_of(header) {
                        Err(why) => Err(why),
                        Ok(shape) => if bytes.len() - data < archive::product(shape) * 4 {
                            Err(name + " is truncated"@)
                        } else {
                            Ok(
                                (
                                    shape,
                                    tensor::f32_values(bytes.skip(data), archive::product(shape)),
                                ),
                            )
                        },
                    }
                }
            },
        }
    }
}

fn starts_like_npy(bytes: &[u8]) -> (starts: bool)
    ensures
        starts == is_npy(bytes@),
{
    if bytes.len() < 10 {
        return false;
    }
    let starts: bool = bytes[0] == 147 && bytes[1] == 78 && bytes[2] == 85 && bytes[3] == 77
        && bytes[4] == 80 && bytes[5] == 89;
    proof {
        let magic = seq![147u8, 78, 85, 77, 80, 89];
        if starts {
            assert(bytes@.take(6) =~= magic);
        } else {
            assert(forall|i: int| 0 <= i < 6 ==> bytes@.take(6)[i] == bytes@[i]);
            if bytes@.take(6) == magic {
                assert(magic[0] == bytes@[0] && magic[1] == bytes@[1] && magic[2] == bytes@[2]
                    && magic[3] == bytes@[3] && magic[4] == bytes@[4] && magic[5] == bytes@[5]);
            }
        }
    }
    starts
}

fn find_header(bytes: &[u8]) -> (span: Option<(usize, u64)>)
    requires
        is_npy(bytes@),
        bytes@[6] == 2 || bytes@[6] == 3 ==> bytes@.len() >= 12,
    ensures
        match (span, header_span(bytes@)) {
            (Some((from, to)), Some(expected)) => (from as int, to as int) == expected,
            (None, None) => true,
            _ => false,
        },
{
    let major: u8 = bytes[6];
    if major == 1 {
        Some((10, 10 + bytes[8] as u64 + 256 * (bytes[9] as u64)))
    } else if major == 2 || major == 3 {
        Some(
            (
                12,
                12 + bytes[8] as u64 + 256 * (bytes[9] as u64) + 65536 * (bytes[10] as u64)
                    + 16777216 * (bytes[11] as u64),
            ),
        )
    } else {
        None
    }
}

/// Whether a file that starts like an array file holds its whole header.
pub fn has_whole_header(bytes: &[u8]) -> (whole: bool)
    ensures
        whole == holds_header(bytes@),
{
    if !starts_like_npy(bytes) {
        return true;
    }
    if (bytes[6] == 2 || bytes[6] == 3) && bytes.len() < 12 {
        return false;
    }
    match find_header(bytes) {
        None => true,
        Some((_, to)) => to <= bytes.len() as u64,
    }
}

fn header_error(name: &str, what: &str) -> (e: Error)
    ensures
        error::is_invalid(e, name@ + what@),
{
    let mut text = name.to_owned();
    text.append(what);
    Error::InvalidInput(text)
}

fn check_header(header: &Vec<char>, name: &str, refuse_fortran: bool) -> (checked: Result<
    (),
    Error,
>)
    ensures
        match (checked, header_fault(header@, name@, refuse_fortran)) {
            (Ok(_), None) => true,
            (Err(e), Some(why)) => error::is_invalid(e, why),
            _ => false,
        },
{
    if find_text(header, "'descr': '<f4'").is_none() && find_text(
        header,
        "\"descr\": \"<f4",
    ).is_none() {
        return Err(header_error(name, " is not little-endian float32"));
    }
    if refuse_fortran && (find_text(header, "'fortran_order': True").is_some() || find_text(
        header,
        "\"fortran_order\": true",
    ).is_some()) {
        return Err(header_error(name, " uses Fortran order"));
    }
    Ok(())
}

/// `got` is the array that a model foretells, or the error that it foretells.
pub open spec fn foretold(
    got: Result<NpyF32, Error>,
    model: Result<(Seq<usize>, Seq<u32>), Seq<char>>,
) -> bool {
    match (got, model) {
        (Ok(array), Ok(expected)) => (array.shape@, array.data@) == expected,
        (Err(e), Err(why)) => error::is_invalid(e, why),
        _ => false,
    }
}

/// Reads the array in the bytes of a file called `name`.
pub fn read_npy_f32(bytes: &[u8], name: &str, refuse_fortran: bool) -> (array: Result<
    NpyF32,
    Error,
>)
    requires
        holds_header(bytes@),
        sizes_fit(bytes@, refuse_fortran),
    ensures
        foretold(array, array_of(bytes@, name@, refuse_fortran)),
        array matches Ok(a) ==> archive::countable(a.shape@) && a.data@.len() == archive::product(
            a.shape@,
        ),
{
    if !starts_like_npy(bytes) {
        return Err(header_error(name, " is not a .npy file"));
    }
    let (from, to): (usize, usize) = match find_header(bytes) {
        None => {
            let mut text = "unsupported npy version: ".to_owned();
            push_usize(&mut text, bytes[6] as usize);
            return Err(Error::InvalidInput(text));
        },
        Some((from, to)) => (from, to as usize),
    };
    let size: usize = bytes.len();
    let plain: Vec<u8> = copy_range(bytes, from, to);
    let header: String = match text::decode_text(plain.as_slice()) {
        Ok(text) => text,
        Err(why) => {
            return Err(Error::InvalidInput(why));
        },
    };
    let chars: Vec<char> = chars_of(header.as_str());
    match check_header(&chars, name, refuse_fortran) {
        Ok(_) => {},
        Err(e) => {
            return Err(e);
        },
    }
    let shape: Vec<usize> = match parse_shape(header.as_str()) {
        Ok(shape) => shape,
        Err(e) => {
            return Err(e);
        },
    };
    let count: usize = element_count(shape.as_slice());
    if size - to < count * 4 {
        return Err(header_error(name, " is truncated"));
    }
    let rest: Vec<u8> = copy_range(bytes, to, size);
    proof {
        assert(rest@ =~= bytes@.skip(to as int));
        lemma_product_positive(shape@);
    }
    let data: Vec<u32> = read_f32(rest.as_slice(), count);
    Ok(NpyF32 { shape, data })
}

fn counted(shape: &[usize]) -> (count: Option<usize>)
    ensures
        match count {
            Some(n) => archive::countable(shape@) && n == archive::product(shape@),
            None => !archive::countable(shape@),
        },
{
    let mut count: usize = 1;
    let mut index: usize = 0;
    proof {
        assert(shape@.take(0) =~= Seq::<usize>::empty());
    }
    while index < shape.len()
        invariant
            index <= shape@.len(),
            count == archive::product(shape@.take(index as int)),
            forall|k: int|
                0 <= k <= index ==> #[trigger] archive::product(shape@.take(k)) <= usize::MAX,
        decreases shape@.len() - index,
    {
        proof {
            let grown = shape@.take(index as int + 1);
            assert(grown.drop_last() =~= shape@.take(index as int));
            assert(grown.last() == shape@[index as int]);
            assert(archive::product(grown) == count * shape@[index as int]);
        }
        count = match count.checked_mul(shape[index]) {
            Some(n) => n,
            None => {
                return None;
            },
        };
        index += 1;
    }
    proof {
        assert(shape@.take(shape@.len() as int) =~= shape@);
    }
    Some(count)
}

/// Whether the bytes of a file can be handed to `read_npy_f32`.
pub fn can_read(bytes: &[u8], refuse_fortran: bool) -> (can: bool)
    ensures
        can == (holds_header(bytes@) && sizes_fit(bytes@, refuse_fortran)),
{
    if !has_whole_header(bytes) {
        return false;
    }
    if !starts_like_npy(bytes) {
        return true;
    }
    let size: usize = bytes.len();
    let (from, to): (usize, usize) = match find_header(bytes) {
        None => {
            return true;
        },
        Some((from, to)) => (from, to as usize),
    };
    let plain: Vec<u8> = copy_range(bytes, from, to);
    let header: String = match text::decode_text(plain.as_slice()) {
        Ok(text) => text,
        Err(_) => {
            return true;
        },
    };
    let chars: Vec<char> = chars_of(header.as_str());
    proof {
        reveal_strlit("");
        assert(""@ =~= Seq::<char>::empty());
    }
    if check_header(&chars, "", refuse_fortran).is_err() {
        return true;
    }
    match parse_shape(header.as_str()) {
        Err(_) => true,
        Ok(shape) => match counted(shape.as_slice()) {
            None => false,
            Some(count) => count <= usize::MAX / 4,
        },
    }
}

proof fn lemma_product_positive(shape: Seq<usize>)
    ensures
        archive::product(shape) >= 0,
    decreases shape.len(),
{
    if shape.len() > 0 {
        lemma_product_positive(shape.drop_last());
        let a = archive::product(shape.drop_last());
        let b = shape.last() as int;
        assert(a * b >= 0) by (nonlinear_arith)
            requires
                a >= 0,
                b >= 0,
        ;
    }
}

/// The shape is that of codes: frames of sixteen codes, as one entry of a batch where
/// `batched` says so.
pub open spec fn is_code_shape(shape: Seq<usize>, batched: bool) -> bool {
    if batched {
        shape.len() == 3 && shape[0] == 1 && shape[2] == 16
    } else {
        shape.len() == 2 && shape[1] == 16
    }
}

/// The text for codes of another shape.
pub open spec fn code_shape_text(what: Seq<char>, shape: Seq<usize>, batched: bool) -> Seq<char> {
    "expected "@ + what + (if batched {
        " shape [1, frames, 16], got "@
    } else {
        " shape [frames, 16], got "@
    }) + text::list_text(shape)
}

/// Checks the shape of codes. `what` names them in the error.
pub fn check_code_shape(what: &str, shape: &[usize], batched: bool) -> (checked: Result<(), Error>)
    ensures
        match checked {
            Ok(_) => is_code_shape(shape@, batched),
            Err(e) => !is_code_shape(shape@, batched) && error::is_invalid(
                e,
                code_shape_text(what@, shape@, batched),
            ),
        },
{
    let fits: bool = if batched {
        shape.len() == 3 && shape[0] == 1 && shape[2] == 16
    } else {
        shape.len() == 2 && shape[1] == 16
    };
    if fits {
        return Ok(());
    }
    let mut text = "expected ".to_owned();
    text.append(what);
    if batched {
        text.append(" shape [1, frames, 16], got ");
    } else {
        text.append(" shape [frames, 16], got ");
    }
    push_list(&mut text, shape);
    Err(Error::InvalidInput(text))
}

/// The text for an array of another length than expected.
pub open spec fn length_text(
    what: Seq<char>,
    actual: nat,
    expected: nat,
    shape: Seq<usize>,
) -> Seq<char> {
    what + " length mismatch: actual="@ + text::decimal(actual) + ", expected="@ + text::decimal(
        expected,
    ) + ", expected_shape="@ + text::list_text(shape)
}

/// Checks that as many numbers were computed as an array holds.
pub fn check_length(what: &str, actual: usize, expected: &NpyF32) -> (checked: Result<(), Error>)
    ensures
        match checked {
            Ok(_) => actual == expected.data@.len(),
            Err(e) => actual != expected.data@.len() && error::is_invalid(
                e,
                length_text(what@, actual as nat, expected.data@.len(), expected.shape@),
            ),
        },
{
    if actual == expected.data.len() {
        return Ok(());
    }
    let mut text = what.to_owned();
    text.append(" length mismatch: actual=");
    push_usize(&mut text, actual);
    text.append(", expected=");
    push_usize(&mut text, expected.data.len());
    text.append(", expected_shape=");
    push_list(&mut text, expected.shape.as_slice());
    Err(Error::InvalidInput(text))
}

/// Two to the power of `n`.
pub open spec fn power(n: nat) -> int
    decreases n,
{
    if n == 0 {
        1
    } else {
        2 * power((n - 1) as nat)
    }
}

/// The biased exponent of a 32-bit number.
pub open spec fn exponent_of(bits: u32) -> int {
    (bits as int / 8388608) % 256
}

/// The significand of a 32-bit number, in units of its last place.
pub open spec fn significand_of(bits: u32) -> int {
    if exponent_of(bits) == 0 {
        bits as int % 8388608
    } else {
        bits as int % 8388608 + 8388608
    }
}

/// The exponent of the last place of a 32-bit number, with 150 added.
pub open spec fn place_of(bits: u32) -> int {
    if exponent_of(bits) == 0 {
        1
    } else {
        exponent_of(bits)
    }
}

/// The whole number next to the size of a finite 32-bit number; a half is rounded up.
pub open spec fn rounded_size(bits: u32) -> int {
    let place = place_of(bits);
    if place >= 150 {
        significand_of(bits) * power((place - 150) as nat)
    } else {
        (significand_of(bits) + power((149 - place) as nat)) / power((150 - place) as nat)
    }
}

/// The bits are not those of a number.
pub open spec fn is_nan(bits: u32) -> bool {
    exponent_of(bits) == 255 && bits as int % 8388608 != 0
}

/// The whole number from `low` to `high` that is next to a 32-bit number; halves are rounded
/// away from zero, and zero stands for what is no number.
pub open spec fn rounded(bits: u32, low: int, high: int) -> int {
    let negative = bits >= 0x8000_0000;
    let whole = if negative {
        -rounded_size(bits)
    } else {
        rounded_size(bits)
    };
    if is_nan(bits) {
        0
    } else if exponent_of(bits) == 255 {
        if negative {
            low
        } else {
            high
        }
    } else if whole < low {
        low
    } else if whole > high {
        high
    } else {
        whole
    }
}

proof fn lemma_power(n: nat)
    ensures
        power(n) > 0,
        n > 0 ==> power(n) == 2 * power((n - 1) as nat),
    decreases n,
{
    if n > 0 {
        lemma_power((n - 1) as nat);
    }
}

proof fn lemma_power_grows(a: nat, b: nat)
    requires
        a <= b,
    ensures
        power(a) <= power(b),
    decreases b,
{
    lemma_power(b);
    if a < b {
        lemma_power_grows(a, (b - 1) as nat);
    }
}

fn two_to(n: u32) -> (p: u64)
    requires
        n <= 32,
    ensures
        p == power(n as nat),
        p <= 4294967296,
{
    proof {
        lemma_power_grows(n as nat, 32);
        reveal_with_fuel(power, 33);
    }
    let mut p: u64 = 1;
    let mut i: u32 = 0;
    while i < n
        invariant
            i <= n <= 32,
            p == power(i as nat),
            power(n as nat) <= 4294967296,
        decreases n - i,
    {
        proof {
            lemma_power_grows((i + 1) as nat, n as nat);
        }
        p = 2 * p;
        i += 1;
    }
    p
}

/// The size of a finite number of at most 33 binary digits, rounded; `None` for greater
/// ones.
fn size_of(bits: u32) -> (size: Option<u64>)
    requires
        exponent_of(bits) < 255,
    ensures
        match size {
            Some(n) => n == rounded_size(bits),
            None => rounded_size(bits) >= 4294967296,
        },
{
    let exponent: u32 = (bits / 8388608) % 256;
    let fraction: u64 = (bits % 8388608) as u64;
    let significand: u64 = if exponent == 0 {
        fraction
    } else {
        fraction + 8388608
    };
    let place: u32 = if exponent == 0 {
        1
    } else {
        exponent
    };
    if place >= 150 {
        if place > 159 {
            proof {
                let shift = (place - 150) as nat;
                lemma_power_grows(10, shift);
                reveal_with_fuel(power, 11);
                let p = power(shift);
                assert(significand * p >= 8388608 * 1024) by (nonlinear_arith)
                    requires
                        significand >= 8388608,
                        p >= 1024,
                ;
            }
            return None;
        }
        let factor: u64 = two_to(place - 150);
        proof {
            lemma_power_grows((place - 150) as nat, 9);
            reveal_with_fuel(power, 10);
            assert(significand * factor <= 16777216 * 512) by (nonlinear_arith)
                requires
                    significand <= 16777216,
                    factor <= 512,
            ;
        }
        return Some(significand * factor);
    }
    if place < 125 {
        proof {
            let shift = (149 - place) as nat;
            lemma_power_grows(25, shift);
            reveal_with_fuel(power, 26);
            lemma_power((150 - place) as nat);
            let half = power(shift);
            let whole = power((150 - place) as nat);
            assert((significand + half) / whole == 0) by (nonlinear_arith)
                requires
                    0 <= significand < half,
                    whole == 2 * half,
            ;
        }
        return Some(0);
    }
    let half: u64 = two_to(149 - place);
    proof {
        lemma_power((150 - place) as nat);
        lemma_power((149 - place) as nat);
    }
    Some((significand + half) / (2 * half))
}

fn clamped(bits: u32, low: i64, high: i64) -> (whole: i64)
    requires
        -2147483648 <= low <= 0,
        0 <= high <= 4294967295,
    ensures
        whole == rounded(bits, low as int, high as int),
{
    let negative: bool = bits >= 0x8000_0000;
    let exponent: u32 = (bits / 8388608) % 256;
    if exponent == 255 {
        if bits % 8388608 != 0 {
            return 0;
        }
        return if negative {
            low
        } else {
            high
        };
    }
    match size_of(bits) {
        None => {
            if negative {
                low
            } else {
                high
            }
        },
        Some(size) => {
            if negative {
                if size > 2147483648 || -(size as i64) < low {
                    low
                } else {
                    -(size as i64)
                }
            } else if size > high as u64 {
                high
            } else {
                size as i64
            }
        },
    }
}

/// A signed code that is stored as a 32-bit number.
pub fn signed_code(bits: u32) -> (code: i32)
    ensures
        code == rounded(bits, i32::MIN as int, i32::MAX as int),
{
    clamped(bits, -2147483648, 2147483647) as i32
}

/// A code or token that is stored as a 32-bit number.
pub fn unsigned_code(bits: u32) -> (code: u32)
    ensures
        code == rounded(bits, 0, u32::MAX as int),
{
    clamped(bits, 0, 4294967295) as u32
}

/// The codes of an array, one behind the other. `what` names them in the error.
pub fn load_expected_codes(array: &NpyF32, what: &str, batched: bool) -> (codes: Result<
    Vec<i32>,
    Error,
>)
    ensures
        match codes {
            Ok(list) => {
                &&& is_code_shape(array.shape@, batched)
                &&& list@ == array.data@.map_values(
                    |bits: u32| rounded(bits, i32::MIN as int, i32::MAX as int) as i32,
                )
            },
            Err(e) => !is_code_shape(array.shape@, batched) && error::is_invalid(
                e,
                code_shape_text(what@, array.shape@, batched),
            ),
        },
{
    match check_code_shape(what, array.shape.as_slice(), batched) {
        Ok(_) => {},
        Err(e) => {
            return Err(e);
        },
    }
    let mut list: Vec<i32> = Vec::new();
    let mut index: usize = 0;
    while index < array.data.len()
        invariant
            index <= array.data@.len(),
            list@.len() == index,
            forall|i: int|
                0 <= i < index ==> #[trigger] list@[i] == rounded(
                    array.data@[i],
                    i32::MIN as int,
                    i32::MAX as int,
                ),
        decreases array.data@.len() - index,
    {
        list.push(signed_code(array.data[index]));
        index += 1;
    }
    proof {
        assert(list@ =~= array.data@.map_values(
            |bits: u32| rounded(bits, i32::MIN as int, i32::MAX as int) as i32,
        ));
    }
    Ok(list)
}

/// The codes of an array, frame by frame: every sixteen codes are a frame.
pub fn read_codes(array: &NpyF32) -> (frames: Result<Vec<Vec<u32>>, Error>)
    ensures
        match frames {
            Ok(list) => {
                &&& is_code_shape(array.shape@, false)
                &&& list@.len() == array.data@.len() / 16
                &&& forall|f: int|
                    0 <= f < list@.len() ==> (#[trigger] list@[f])@ == Seq::new(
                        16,
                        |q: int| rounded(array.data@[16 * f + q], 0, u32::MAX as int) as u32,
                    )
            },
            Err(e) => !is_code_shape(array.shape@, false) && error::is_invalid(
                e,
                code_shape_text("codes"@, array.shape@, false),
            ),
        },
{
    match check_code_shape("codes", array.shape.as_slice(), false) {
        Ok(_) => {},
        Err(e) => {
            return Err(e);
        },
    }
    let count: usize = array.data.len() / 16;
    let mut list: Vec<Vec<u32>> = Vec::new();
    let mut f: usize = 0;
    while f < count
        invariant
            f <= count,
            16 * count <= array.data@.len() <= usize::MAX,
            list@.len() == f,
            forall|g: int|
                0 <= g < f ==> (#[trigger] list@[g])@ == Seq::new(
                    16,
                    |q: int| rounded(array.data@[16 * g + q], 0, u32::MAX as int) as u32,
                ),
        decreases count - f,
    {
        let frame: Vec<u32> = read_frame(&array.data, f);
        list.push(frame);
        f += 1;
    }
    Ok(list)
}

fn read_frame(data: &Vec<u32>, f: usize) -> (frame: Vec<u32>)
    requires
        16 * f + 16 <= data@.len() <= usize::MAX,
    ensures
        frame@ == Seq::new(
            16,
            |q: int| rounded(data@[16 * f + q], 0, u32::MAX as int) as u32,
        ),
{
    let mut frame: Vec<u32> = Vec::new();
    let mut q: usize = 0;
    while q < 16
        invariant
            q <= 16,
            16 * f + 16 <= data@.len() <= usize::MAX,
            frame@.len() == q,
            forall|r: int|
                0 <= r < q ==> #[trigger] frame@[r] == rounded(
                    data@[16 * f + r],
                    0,
                    u32::MAX as int,
                ),
        decreases 16 - q,
    {
        frame.push(unsigned_code(data[16 * f + q]));
        q += 1;
    }
    proof {
        assert(frame@ =~= Seq::new(
            16,
            |r: int| rounded(data@[16 * f + r], 0, u32::MAX as int) as u32,
        ));
    }
    frame
}

/// The numbers of a tuple as they are written, with a comma and a blank between them.
pub open spec fn items_text(items: Seq<usize>) -> Seq<char>
    decreases items.len(),
{
    if items.len() == 0 {
        Seq::empty()
    } else if items.len() == 1 {
        text::decimal(items[0] as nat)
    } else {
        text::decimal(items[0] as nat) + seq![',', ' '] + items_text(items.drop_first())
    }
}

/// A tuple of numbers as it is written in a header. One number has a comma behind it.
pub open spec fn tuple_text(items: Seq<usize>) -> Seq<char> {
    let comma = if items.len() == 1 {
        seq![',']
    } else {
        Seq::empty()
    };
    seq!['('] + (items_text(items) + comma) + seq![')']
}

proof fn lemma_digits(n: nat)
    ensures
        text::decimal(n).len() > 0,
        forall|i: int|
            0 <= i < text::decimal(n).len() ==> numbers::is_digit(#[trigger] text::decimal(n)[i]),
    decreases n,
{
    assert(numbers::is_digit(text::digit_char(n % 10)));
    if n >= 10 {
        lemma_digits(n / 10);
    }
}

proof fn lemma_found(text: Seq<char>, c: char, from: int, at: int)
    requires
        0 <= from <= at <= text.len(),
        at < text.len() ==> text[at] == c,
        forall|i: int| from <= i < at ==> text[i] != c,
    ensures
        scan::first_char(text, c, from) == at,
    decreases at - from,
{
    if from < at {
        lemma_found(text, c, from + 1, at);
    }
}

/// A numeral behind at most one blank is trimmed to the numeral.
proof fn lemma_trimmed(blank: Seq<char>, n: nat)
    requires
        blank.len() == 0 || blank == seq![' '],
    ensures
        scan::trimmed(blank + text::decimal(n)) == text::decimal(n),
{
    let part = blank + text::decimal(n);
    lemma_digits(n);
    reveal_with_fuel(scan::next_space, 3);
    assert(part[blank.len() as int] == text::decimal(n)[0]);
    assert(part.last() == text::decimal(n).last());
    assert(numbers::is_digit(text::decimal(n)[text::decimal(n).len() - 1]));
    assert(scan::next_space(part, 0, false) == blank.len());
    assert(scan::trimmed_end(part) == part.len());
    assert(part.subrange(blank.len() as int, part.len() as int) =~= text::decimal(n));
}

/// Written numbers have no brackets in them.
proof fn lemma_no_brackets(items: Seq<usize>)
    ensures
        forall|i: int|
            0 <= i < items_text(items).len() ==> #[trigger] items_text(items)[i] != '('
                && items_text(items)[i] != ')',
    decreases items.len(),
{
    if items.len() > 0 {
        let first = text::decimal(items[0] as nat);
        lemma_digits(items[0] as nat);
        lemma_no_brackets(items.drop_first());
        let rest = items_text(items.drop_first());
        let whole = items_text(items);
        assert forall|i: int| 0 <= i < whole.len() implies #[trigger] whole[i] != '(' && whole[i]
            != ')' by {
            if i < first.len() {
                assert(whole[i] == first[i]);
                assert(numbers::is_digit(first[i]));
            } else if i >= first.len() + 2 {
                assert(whole[i] == rest[i - first.len() - 2]);
            } else {
                assert(whole[i] == seq![',', ' '][i - first.len()]);
            }
        }
    }
}

/// The first part of what is left of a tuple, where it is a numeral.
proof fn lemma_part(
    inner: Seq<char>,
    before: Seq<char>,
    blank: Seq<char>,
    n: usize,
    behind: Seq<char>,
)
    requires
        inner == before + (blank + text::decimal(n as nat)) + behind,
        blank.len() == 0 || blank == seq![' '],
        behind.len() == 0 || behind[0] == ',',
    ensures
        tuple_of(inner, before.len() as int) == match tuple_of(
            inner,
            before.len() as int + blank.len() + text::decimal(n as nat).len() + 1,
        ) {
            Ok(rest) => Ok::<Seq<usize>, Seq<char>>(seq![n] + rest),
            Err(why) => Err(why),
        },
{
    let from = before.len() as int;
    let part = blank + text::decimal(n as nat);
    let end = from + part.len();
    lemma_digits(n as nat);
    assert forall|i: int| from <= i < end implies inner[i] != ',' by {
        assert(inner[i] == part[i - from]);
        if i - from >= blank.len() {
            assert(part[i - from] == text::decimal(n as nat)[i - from - blank.len()]);
        } else {
            assert(part[i - from] == blank[i - from]);
        }
    }
    if behind.len() > 0 {
        assert(inner[end] == behind[0]);
    }
    lemma_found(inner, ',', from, end);
    assert(inner.subrange(from, end) =~= part);
    lemma_trimmed(blank, n as nat);
    numbers::numerals_are_read_back(n as nat, usize::MAX as nat);
}

/// Nothing is left of a tuple behind its last comma.
proof fn lemma_no_part(inner: Seq<char>)
    ensures
        tuple_of(inner, inner.len() as int) == Ok::<Seq<usize>, Seq<char>>(Seq::empty()),
{
    let end = inner.len() as int;
    lemma_found(inner, ',', end, end);
    assert(inner.subrange(end, end) =~= Seq::<char>::empty());
    assert(scan::trimmed(Seq::<char>::empty()) =~= Seq::<char>::empty());
    assert(tuple_of(inner, end + 1) == Ok::<Seq<usize>, Seq<char>>(Seq::empty()));
}

proof fn lemma_items(
    inner: Seq<char>,
    before: Seq<char>,
    blank: Seq<char>,
    items: Seq<usize>,
    comma: Seq<char>,
)
    requires
        items.len() > 0,
        inner == before + blank + items_text(items) + comma,
        blank.len() == 0 || blank == seq![' '],
        comma.len() == 0 || comma == seq![','],
    ensures
        tuple_of(inner, before.len() as int) == Ok::<Seq<usize>, Seq<char>>(items),
    decreases items.len(),
{
    let first = text::decimal(items[0] as nat);
    let rest = items.drop_first();
    let end = before.len() as int + blank.len() + first.len();
    if items.len() == 1 {
        assert(inner =~= before + (blank + first) + comma);
        lemma_part(inner, before, blank, items[0], comma);
        if comma.len() > 0 {
            lemma_no_part(inner);
        } else {
            assert(tuple_of(inner, end + 1) == Ok::<Seq<usize>, Seq<char>>(Seq::empty()));
        }
        assert(seq![items[0]] + Seq::<usize>::empty() =~= items);
    } else {
        let behind = seq![',', ' '] + items_text(rest) + comma;
        assert(inner =~= before + (blank + first) + behind);
        lemma_part(inner, before, blank, items[0], behind);
        let next = before + (blank + first) + seq![','];
        assert(inner =~= next + seq![' '] + items_text(rest) + comma);
        lemma_items(inner, next, seq![' '], rest, comma);
        assert(seq![items[0]] + rest =~= items);
    }
}

/// A shape of any number of dimensions is read back from the tuple that a header writes
/// behind its key for it, whatever stands in front of the key and behind the tuple.
pub proof fn written_shapes_are_read_back(
    header: Seq<char>,
    before: Seq<char>,
    key: Seq<char>,
    shape: Seq<usize>,
    after: Seq<char>,
)
    requires
        header == before + key + tuple_text(shape) + after,
        shape_key(header) == Some(before.len() as int),
        !key.contains('('),
    ensures
        shape_of(header) == Ok::<Seq<usize>, Seq<char>>(shape),
{
    let comma = if shape.len() == 1 {
        seq![',']
    } else {
        Seq::<char>::empty()
    };
    let inner = items_text(shape) + comma;
    let from = before.len() as int;
    let open = from + key.len();
    let close = open + 1 + inner.len();
    assert(header =~= before + key + seq!['('] + inner + seq![')'] + after);
    assert forall|i: int| from <= i < open implies header[i] != '(' by {
        assert(header[i] == key[i - from]);
    }
    assert(header[open] == '(');
    lemma_found(header, '(', from, open);
    lemma_no_brackets(shape);
    assert forall|i: int| open + 1 <= i < close implies header[i] != ')' by {
        assert(header[i] == inner[i - open - 1]);
        if i - open - 1 < items_text(shape).len() {
            assert(inner[i - open - 1] == items_text(shape)[i - open - 1]);
        }
    }
    assert(header[close] == ')');
    lemma_found(header, ')', open + 1, close);
    assert(header.subrange(open + 1, close) =~= inner);
    if shape.len() == 0 {
        lemma_no_part(inner);
        assert(shape =~= Seq::<usize>::empty());
    } else {
        assert(inner =~= Seq::<char>::empty() + Seq::<char>::empty() + items_text(shape) + comma);
        lemma_items(inner, Seq::empty(), Seq::empty(), shape, comma);
    }
}

} // verus!

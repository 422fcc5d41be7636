//! Forms as browsers send them.

use vstd::prelude::*;
use vstd::utf8;

use crate::error::{self, invalid, Error};
use crate::lists::copy_range;
use crate::text::{self, same_text, text_from_utf8};

verus! {

/// The value of a hexadecimal digit.
pub open spec fn hex_of(byte: u8) -> Option<u8> {
    if 48 <= byte <= 57 {
        Some((byte - 48) as u8)
    } else if 97 <= byte <= 102 {
        Some((byte - 97 + 10) as u8)
    } else if 65 <= byte <= 70 {
        Some((byte - 65 + 10) as u8)
    } else {
        None
    }
}

/// The value of a hexadecimal digit.
pub fn hex_value(byte: u8) -> (value: Result<u8, Error>)
    ensures
        match (value, hex_of(byte)) {
            (Ok(v), Some(expected)) => v == expected && v < 16,
            (Err(e), None) => error::is_invalid(e, "invalid percent escape"@),
            _ => false,
        },
{
    if 48 <= byte && byte <= 57 {
        Ok(byte - 48)
    } else if 97 <= byte && byte <= 102 {
        Ok(byte - 97 + 10)
    } else if 65 <= byte && byte <= 70 {
        Ok(byte - 65 + 10)
    } else {
        Err(invalid("invalid percent escape"))
    }
}

/// The bytes that a form value stands for: a plus sign is a space, and a percent sign with
/// two bytes behind it is the byte that these write in hexadecimal. `None` where they do
/// not.
pub open spec fn unescaped(bytes: Seq<u8>) -> Option<Seq<u8>>
    decreases bytes.len(),
{
    if bytes.len() == 0 {
        Some(Seq::empty())
    } else if bytes[0] == 43 {
        prefixed(32, unescaped(bytes.skip(1)))
    } else if bytes[0] == 37 && bytes.len() > 2 {
        match (hex_of(bytes[1]), hex_of(bytes[2])) {
            (Some(high), Some(low)) => prefixed(
                (16 * high + low) as u8,
                unescaped(bytes.skip(3)),
            ),
            _ => None,
        }
    } else {
        prefixed(bytes[0], unescaped(bytes.skip(1)))
    }
}

/// One byte in front of the rest, where there is one.
pub open spec fn prefixed(byte: u8, rest: Option<Seq<u8>>) -> Option<Seq<u8>> {
    match rest {
        Some(bytes) => Some(seq![byte] + bytes),
        None => None,
    }
}

fn unescape(bytes: &[u8]) -> (output: Option<Vec<u8>>)
    ensures
        match (output, unescaped(bytes@)) {
            (Some(got), Some(expected)) => got@ == expected,
            (None, None) => true,
            _ => false,
        },
{
    let size: usize = bytes.len();
    let mut output: Vec<u8> = Vec::new();
    let mut index: usize = 0;
    proof {
        assert(bytes@.skip(0) =~= bytes@);
    }
    while index < size
        invariant
            size == bytes@.len(),
            index <= size,
            unescaped(bytes@) == match unescaped(bytes@.skip(index as int)) {
                Some(rest) => Some(output@ + rest),
                None => None,
            },
        decreases size - index,
    {
        let ghost before = output@;
        let byte: u8 = bytes[index];
        let ghost here = bytes@.skip(index as int);
        proof {
            assert(here[0] == byte);
            assert(here.skip(1) =~= bytes@.skip(index as int + 1));
        }
        if byte == 43 {
            output.push(32);
            index += 1;
            proof {
                if let Some(rest) = unescaped(here.skip(1)) {
                    assert(before + (seq![32u8] + rest) =~= output@ + rest);
                }
            }
        } else if byte == 37 && size - index > 2 {
            proof {
                assert(here[1] == bytes@[index as int + 1]);
                assert(here[2] == bytes@[index as int + 2]);
                assert(here.skip(3) =~= bytes@.skip(index as int + 3));
            }
            let high: u8 = match hex_value(bytes[index + 1]) {
                Ok(value) => value,
                Err(_) => {
                    return None;
                },
            };
            let low: u8 = match hex_value(bytes[index + 2]) {
                Ok(value) => value,
                Err(_) => {
                    return None;
                },
            };
            output.push(16 * high + low);
            index += 3;
            proof {
                if let Some(rest) = unescaped(here.skip(3)) {
                    assert(before + (seq![(16 * high + low) as u8] + rest) =~= output@ + rest);
                }
            }
        } else {
            output.push(byte);
            index += 1;
            proof {
                if let Some(rest) = unescaped(here.skip(1)) {
                    assert(before + (seq![byte] + rest) =~= output@ + rest);
                }
            }
        }
    }
    proof {
        assert(bytes@.skip(index as int).len() == 0);
        assert(output@ + Seq::<u8>::empty() =~= output@);
    }
    Some(output)
}

/// What is wrong with a form value, where something is.
pub open spec fn value_of(bytes: Seq<u8>) -> Result<Seq<char>, Seq<char>> {
    match unescaped(bytes) {
        None => Err("invalid percent escape"@),
        Some(plain) => if utf8::valid_utf8(plain) {
            Ok(utf8::decode_utf8(plain))
        } else {
            Err("form value is not UTF-8"@ + ": "@ + text::utf8_fault(plain))
        },
    }
}

/// The text that a form value stands for.
pub fn percent_decode(value: &[u8]) -> (text: Result<String, Error>)
    ensures
        match (text, value_of(value@)) {
            (Ok(t), Ok(expected)) => t@ == expected,
            (Err(e), Err(why)) => error::is_invalid(e, why),
            _ => false,
        },
{
    match unescape(value) {
        None => Err(invalid("invalid percent escape")),
        Some(plain) => text_from_utf8(plain.as_slice(), "form value is not UTF-8"),
    }
}

/// Writes every byte as a percent sign and two hexadecimal digits.
pub open spec fn escaped(bytes: Seq<u8>) -> Seq<u8>
    decreases bytes.len(),
{
    if bytes.len() == 0 {
        Seq::empty()
    } else {
        seq![37u8, hex_digit((bytes[0] / 16) as int), hex_digit((bytes[0] % 16) as int)] + escaped(
            bytes.skip(1),
        )
    }
}

/// The hexadecimal digit for a value below sixteen.
pub open spec fn hex_digit(value: int) -> u8 {
    if value < 10 {
        (48 + value) as u8
    } else {
        (65 + value - 10) as u8
    }
}

/// Bytes that are written with percent signs are read back as they were.
pub proof fn escapes_are_read_back(bytes: Seq<u8>)
    ensures
        unescaped(escaped(bytes)) == Some(bytes),
    decreases bytes.len(),
{
    if bytes.len() > 0 {
        let rest = bytes.skip(1);
        escapes_are_read_back(rest);
        let all = escaped(bytes);
        assert(all.skip(3) =~= escaped(rest));
        assert(hex_of(all[1]) == Some((bytes[0] / 16) as u8));
        assert(hex_of(all[2]) == Some((bytes[0] % 16) as u8));
        assert(16 * (bytes[0] / 16) + bytes[0] % 16 == bytes[0]);
        assert(seq![bytes[0]] + rest =~= bytes);
    } else {
        assert(bytes =~= Seq::<u8>::empty());
    }
}

/// Bytes without plus and percent signs stand for themselves.
pub proof fn plain_bytes_are_kept(bytes: Seq<u8>)
    requires
        forall|i: int| 0 <= i < bytes.len() ==> #[trigger] bytes[i] != 37 && bytes[i] != 43,
    ensures
        unescaped(bytes) == Some(bytes),
    decreases bytes.len(),
{
    if bytes.len() > 0 {
        plain_bytes_are_kept(bytes.skip(1));
        assert(seq![bytes[0]] + bytes.skip(1) =~= bytes);
    } else {
        assert(bytes =~= Seq::<u8>::empty());
    }
}

/// The position of the first `byte` from number `from` on; the length where there is none.
pub open spec fn first_at(bytes: Seq<u8>, byte: u8, from: int) -> int
    decreases bytes.len() - from,
{
    if from >= bytes.len() {
        bytes.len() as int
    } else if bytes[from] == byte {
        from
    } else {
        first_at(bytes, byte, from + 1)
    }
}

pub proof fn lemma_first_at(bytes: Seq<u8>, byte: u8, from: int)
    requires
        from <= bytes.len(),
    ensures
        from <= first_at(bytes, byte, from) <= bytes.len(),
    decreases bytes.len() - from,
{
    if from < bytes.len() && bytes[from] != byte {
        lemma_first_at(bytes, byte, from + 1);
    }
}

fn find_byte(bytes: &[u8], byte: u8, from: usize) -> (at: usize)
    requires
        from <= bytes@.len(),
    ensures
        at == first_at(bytes@, byte, from as int),
        from <= at <= bytes@.len(),
{
    let mut at: usize = from;
    while at < bytes.len()
        invariant
            from <= at <= bytes@.len(),
            first_at(bytes@, byte, from as int) == first_at(bytes@, byte, at as int),
        decreases bytes@.len() - at,
    {
        if bytes[at] == byte {
            return at;
        }
        at += 1;
    }
    at
}

/// A field of a form: its name and its value.
#[derive(Debug)]
pub struct Field {
    pub name: String,
    pub value: String,
}

/// A field, as a model.
pub type FieldModel = (Seq<char>, Seq<char>);

/// The fields as a model.
pub open spec fn fields_model(fields: Seq<Field>) -> Seq<FieldModel> {
    fields.map_values(|f: Field| (f.name@, f.value@))
}

/// The field that one pair of a form writes: the value stands behind the first equals
/// sign, and is empty where there is none.
pub open spec fn pair_of(pair: Seq<u8>) -> Result<FieldModel, Seq<char>> {
    let at = first_at(pair, 61, 0);
    let value = if at < pair.len() {
        pair.skip(at + 1)
    } else {
        Seq::empty()
    };
    match value_of(pair.take(at)) {
        Err(why) => Err(why),
        Ok(name) => match value_of(value) {
            Err(why) => Err(why),
            Ok(text) => Ok((name, text)),
        },
    }
}

/// The fields that a form writes from byte `from` on: pairs between ampersands, without
/// the empty ones. The first unusable one decides the error.
pub open spec fn pairs_of(body: Seq<u8>, from: int) -> Result<Seq<FieldModel>, Seq<char>>
    decreases
            (if from >= body.len() {
                0
            } else {
                body.len() - from
            }),
{
    let end = first_at(body, 38, from);
    if from >= body.len() {
        Ok(Seq::empty())
    } else if end == from {
        pairs_of(body, end + 1)
    } else {
        proof {
            lemma_first_at(body, 38, from);
        }
        match pair_of(body.subrange(from, end)) {
            Err(why) => Err(why),
            Ok(field) => match pairs_of(body, end + 1) {
                Err(why) => Err(why),
                Ok(rest) => Ok(seq![field] + rest),
            },
        }
    }
}

/// The fields of a form.
pub open spec fn form_of(body: Seq<u8>) -> Result<Seq<FieldModel>, Seq<char>> {
    if !utf8::valid_utf8(body) {
        Err("form body is not UTF-8"@ + ": "@ + text::utf8_fault(body))
    } else {
        pairs_of(body, 0)
    }
}

/// The value of a field; the last one counts where a name comes more than once.
pub open spec fn lookup(fields: Seq<FieldModel>, name: Seq<char>) -> Option<Seq<char>>
    decreases fields.len(),
{
    if fields.len() == 0 {
        None
    } else if fields.last().0 == name {
        Some(fields.last().1)
    } else {
        lookup(fields.drop_last(), name)
    }
}

fn parse_pair(pair: &[u8]) -> (field: Result<Field, Error>)
    ensures
        match (field, pair_of(pair@)) {
            (Ok(f), Ok(expected)) => (f.name@, f.value@) == expected,
            (Err(e), Err(why)) => error::is_invalid(e, why),
            _ => false,
        },
{
    let at: usize = find_byte(pair, 61, 0);
    let key: Vec<u8> = copy_range(pair, 0, at);
    let value: Vec<u8> = if at < pair.len() {
        copy_range(pair, at + 1, pair.len())
    } else {
        Vec::new()
    };
    proof {
        assert(key@ =~= pair@.take(at as int));
        if at < pair@.len() {
            assert(value@ =~= pair@.skip(at + 1));
        } else {
            assert(value@ =~= Seq::<u8>::empty());
        }
    }
    match percent_decode(key.as_slice()) {
        Err(e) => Err(e),
        Ok(name) => match percent_decode(value.as_slice()) {
            Err(e) => Err(e),
            Ok(text) => Ok(Field { name, value: text }),
        },
    }
}

/// The fields of a form, in order.
pub fn parse_form(body: &[u8]) -> (form: Result<Vec<Field>, Error>)
    ensures
        match (form, form_of(body@)) {
            (Ok(fields), Ok(expected)) => fields_model(fields@) == expected,
            (Err(e), Err(why)) => error::is_invalid(e, why),
            _ => false,
        },
{
    match text_from_utf8(body, "form body is not UTF-8") {
        Ok(_) => {},
        Err(e) => {
            return Err(e);
        },
    }
    let size: usize = body.len();
    let mut fields: Vec<Field> = Vec::new();
    let mut from: usize = 0;
    proof {
        assert(fields_model(fields@) =~= Seq::<FieldModel>::empty());
        if let Ok(rest) = pairs_of(body@, 0) {
            assert(Seq::<FieldModel>::empty() + rest =~= rest);
        }
    }
    while from < size
        invariant
            size == body@.len(),
            from <= size,
            utf8::valid_utf8(body@),
            form_of(body@) == match pairs_of(body@, from as int) {
                Ok(rest) => Ok::<Seq<FieldModel>, Seq<char>>(fields_model(fields@) + rest),
                Err(why) => Err(why),
            },
        decreases size - from,
    {
        let end: usize = find_byte(body, 38, from);
        if end > from {
            let pair: Vec<u8> = copy_range(body, from, end);
            match parse_pair(pair.as_slice()) {
                Err(e) => {
                    return Err(e);
                },
                Ok(field) => {
                    let ghost before = fields_model(fields@);
                    let ghost one = (field.name@, field.value@);
                    fields.push(field);
                    proof {
                        assert(fields_model(fields@) =~= before.push(one));
                        if let Ok(rest) = pairs_of(body@, end + 1) {
                            assert(before + (seq![one] + rest) =~= fields_model(fields@) + rest);
                        }
                    }
                },
            }
        }
        if end >= size {
            from = size;
        } else {
            from = end + 1;
        }
    }
    proof {
        assert(fields_model(fields@) + Seq::<FieldModel>::empty() =~= fields_model(fields@));
    }
    Ok(fields)
}

/// The value of a field; the last one counts where a name comes more than once.
pub fn field<'a>(fields: &'a Vec<Field>, name: &str) -> (value: Option<&'a str>)
    ensures
        match (value, lookup(fields_model(fields@), name@)) {
            (Some(v), Some(expected)) => v@ == expected,
            (None, None) => true,
            _ => false,
        },
{
    let mut index: usize = fields.len();
    proof {
        assert(fields@.take(fields@.len() as int) =~= fields@);
    }
    while index > 0
        invariant
            index <= fields@.len(),
            lookup(fields_model(fields@), name@) == lookup(
                fields_model(fields@.take(index as int)),
                name@,
            ),
        decreases index,
    {
        let at: usize = index - 1;
        proof {
            let here = fields_model(fields@.take(index as int));
            assert(here.last() == (fields@[at as int].name@, fields@[at as int].value@));
            assert(here.drop_last() =~= fields_model(fields@.take(at as int)));
        }
        if same_text(fields[at].name.as_str(), name) {
            return Some(fields[at].value.as_str());
        }
        index = at;
    }
    None
}

} // verus!

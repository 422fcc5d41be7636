//! What forms, requests and responses mean on the wire.

use vstd::prelude::*;
use vstd::utf8;

use crate::generation::words;
use crate::numbers;
use crate::scan;
use crate::server::form::{self, FieldModel};
use crate::server::request::{self, Progress};
use crate::server::response::{self, Response};
use crate::text;

verus! {

/// The hexadecimal digits are those from 0 to 9 and the letters from a to f, small or
/// capital, and nothing else is one.
pub proof fn hexadecimal_digits_have_their_values(value: int, byte: u8)
    requires
        0 <= value < 16,
    ensures
        value < 10 ==> form::hex_of((48 + value) as u8) == Some(value as u8),
        value >= 10 ==> form::hex_of((97 + value - 10) as u8) == Some(value as u8),
        value >= 10 ==> form::hex_of((65 + value - 10) as u8) == Some(value as u8),
        form::hex_of(byte) is Some ==> 48 <= byte <= 57 || 65 <= byte <= 70 || 97 <= byte <= 102,
{
}

/// In front of what follows, a plus sign stands for a blank, a percent sign and two digits
/// for the byte with that number, a percent sign and anything else for nothing that can be
/// read, and any other byte for itself.
pub proof fn escapes_stand_for_bytes(rest: Seq<u8>, plain: Seq<u8>, high: int, low: int, other: u8)
    requires
        form::unescaped(rest) == Some(plain),
        0 <= high < 16,
        0 <= low < 16,
        other != 37,
        other != 43,
    ensures
        form::unescaped(seq![43u8] + rest) == Some(seq![32u8] + plain),
        form::unescaped(seq![other] + rest) == Some(seq![other] + plain),
        form::unescaped(seq![37u8, form::hex_digit(high), form::hex_digit(low)] + rest) == Some(
            seq![(16 * high + low) as u8] + plain,
        ),
        form::hex_of(other) is None ==> form::unescaped(seq![37u8, other, 48u8] + rest) is None,
{
    assert((seq![43u8] + rest).skip(1) =~= rest);
    assert((seq![other] + rest).skip(1) =~= rest);
    let three = seq![37u8, form::hex_digit(high), form::hex_digit(low)];
    assert((three + rest).skip(3) =~= rest);
    assert((three + rest)[1] == three[1] && (three + rest)[2] == three[2]);
    let bad = seq![37u8, other, 48u8] + rest;
    assert(bad[0] == 37 && bad[1] == other && bad[2] == 48);
}

/// The last field of a name is the one that counts, and a name that no field has is not
/// found.
pub proof fn the_last_field_counts(fields: Seq<FieldModel>, name: Seq<char>, i: int)
    ensures
        0 <= i < fields.len() && fields[i].0 == name && (forall|j: int|
            i < j < fields.len() ==> (#[trigger] fields[j]).0 != name) ==> form::lookup(
            fields,
            name,
        ) == Some(fields[i].1),
        (forall|j: int| 0 <= j < fields.len() ==> (#[trigger] fields[j]).0 != name)
            ==> form::lookup(fields, name) is None,
    decreases fields.len(),
{
    if fields.len() > 0 {
        the_last_field_counts(fields.drop_last(), name, i);
    }
}

/// A form as it is written: names and values with all their bytes escaped, an equals sign
/// between a name and its value, an ampersand between two fields.
pub open spec fn written(fields: Seq<(Seq<u8>, Seq<u8>)>) -> Seq<u8>
    decreases fields.len(),
{
    if fields.len() == 0 {
        Seq::empty()
    } else {
        let (name, value) = fields[0];
        let first = form::escaped(name) + seq![61u8] + form::escaped(value);
        if fields.len() == 1 {
            first
        } else {
            first + seq![38u8] + written(fields.drop_first())
        }
    }
}

proof fn lemma_escaped_bytes(bytes: Seq<u8>, k: int)
    requires
        0 <= k < form::escaped(bytes).len(),
    ensures
        form::escaped(bytes)[k] != 38,
        form::escaped(bytes)[k] != 61,
    decreases bytes.len(),
{
    if bytes.len() > 0 {
        let three = seq![
            37u8,
            form::hex_digit((bytes[0] / 16) as int),
            form::hex_digit((bytes[0] % 16) as int),
        ];
        if k < 3 {
            assert(form::escaped(bytes)[k] == three[k]);
        } else {
            assert(form::escaped(bytes)[k] == form::escaped(bytes.skip(1))[k - 3]);
            lemma_escaped_bytes(bytes.skip(1), k - 3);
        }
    }
}

proof fn lemma_first_at_is(bytes: Seq<u8>, byte: u8, from: int, at: int)
    requires
        0 <= from <= at <= bytes.len(),
        at < bytes.len() ==> bytes[at] == byte,
        forall|i: int| from <= i < at ==> bytes[i] != byte,
    ensures
        form::first_at(bytes, byte, from) == at,
    decreases at - from,
{
    if from < at {
        lemma_first_at_is(bytes, byte, from + 1, at);
    }
}

proof fn lemma_written_pair(name: Seq<u8>, value: Seq<u8>)
    requires
        utf8::valid_utf8(name),
        utf8::valid_utf8(value),
    ensures
        form::pair_of(form::escaped(name) + seq![61u8] + form::escaped(value)) == Ok::<
            FieldModel,
            Seq<char>,
        >((utf8::decode_utf8(name), utf8::decode_utf8(value))),
{
    let left = form::escaped(name);
    let right = form::escaped(value);
    let pair = left + seq![61u8] + right;
    assert forall|i: int| 0 <= i < left.len() implies pair[i] != 61 by {
        lemma_escaped_bytes(name, i);
        assert(pair[i] == left[i]);
    }
    lemma_first_at_is(pair, 61, 0, left.len() as int);
    assert(pair.take(left.len() as int) =~= left);
    assert(pair.skip(left.len() as int + 1) =~= right);
    form::escapes_are_read_back(name);
    form::escapes_are_read_back(value);
}

proof fn lemma_written_from(body: Seq<u8>, before: Seq<u8>, fields: Seq<(Seq<u8>, Seq<u8>)>)
    requires
        body == before + written(fields),
        forall|i: int|
            0 <= i < fields.len() ==> utf8::valid_utf8((#[trigger] fields[i]).0)
                && utf8::valid_utf8(fields[i].1),
    ensures
        form::pairs_of(body, before.len() as int) == Ok::<Seq<FieldModel>, Seq<char>>(
            decoded(fields),
        ),
    decreases fields.len(),
{
    let from = before.len() as int;
    if fields.len() == 0 {
        assert(decoded(fields) =~= Seq::<FieldModel>::empty());
    } else {
        let (name, value) = fields[0];
        assert(utf8::valid_utf8(fields[0].0));
        let left = form::escaped(name);
        let right = form::escaped(value);
        let first = left + seq![61u8] + right;
        let end = from + first.len();
        let rest = fields.drop_first();
        let behind = if fields.len() == 1 {
            Seq::empty()
        } else {
            seq![38u8] + written(rest)
        };
        assert(body =~= before + first + behind);
        assert forall|i: int| from <= i < end implies body[i] != 38 by {
            assert(body[i] == first[i - from]);
            if i - from < left.len() {
                lemma_escaped_bytes(name, i - from);
            } else if i - from > left.len() {
                lemma_escaped_bytes(value, i - from - left.len() - 1);
                assert(first[i - from] == right[i - from - left.len() - 1]);
            }
        }
        if fields.len() > 1 {
            assert(body[end] == behind[0]);
        }
        lemma_first_at_is(body, 38, from, end);
        assert(body.subrange(from, end) =~= first);
        lemma_written_pair(name, value);
        if fields.len() == 1 {
            assert(form::pairs_of(body, end + 1) == Ok::<Seq<FieldModel>, Seq<char>>(
                Seq::empty(),
            ));
            assert(decoded(fields) =~= seq![
                (utf8::decode_utf8(name), utf8::decode_utf8(value)),
            ] + Seq::empty());
        } else {
            let next = before + first + seq![38u8];
            assert(body =~= next + written(rest));
            assert forall|i: int| 0 <= i < rest.len() implies utf8::valid_utf8(
                (#[trigger] rest[i]).0,
            ) && utf8::valid_utf8(rest[i].1) by {
                assert(rest[i] == fields[i + 1]);
            }
            lemma_written_from(body, next, rest);
            assert(decoded(fields) =~= seq![
                (utf8::decode_utf8(name), utf8::decode_utf8(value)),
            ] + decoded(rest));
        }
    }
}

/// Fields as texts.
pub open spec fn decoded(fields: Seq<(Seq<u8>, Seq<u8>)>) -> Seq<FieldModel> {
    fields.map_values(
        |field: (Seq<u8>, Seq<u8>)| (utf8::decode_utf8(field.0), utf8::decode_utf8(field.1)),
    )
}

/// A form is read back as it was written: all its fields, in their order, names and values
/// as they were.
pub proof fn written_forms_are_read_back(fields: Seq<(Seq<u8>, Seq<u8>)>)
    requires
        utf8::valid_utf8(written(fields)),
        forall|i: int|
            0 <= i < fields.len() ==> utf8::valid_utf8((#[trigger] fields[i]).0)
                && utf8::valid_utf8(fields[i].1),
    ensures
        form::form_of(written(fields)) == Ok::<Seq<FieldModel>, Seq<char>>(decoded(fields)),
{
    assert(written(fields) =~= Seq::<u8>::empty() + written(fields));
    lemma_written_from(written(fields), Seq::empty(), fields);
}

proof fn lemma_next_is(text: Seq<char>, from: int, space: bool, at: int)
    requires
        0 <= from <= at <= text.len(),
        at < text.len() ==> words::is_space(text[at]) == space,
        forall|i: int| from <= i < at ==> words::is_space(#[trigger] text[i]) != space,
    ensures
        scan::next_space(text, from, space) == at,
    decreases at - from,
{
    if from < at {
        lemma_next_is(text, from + 1, space, at);
    }
}

proof fn lemma_char_is(text: Seq<char>, c: char, from: int, at: int)
    requires
        0 <= from <= at <= text.len(),
        at < text.len() ==> text[at] == c,
        forall|i: int| from <= i < at ==> text[i] != c,
    ensures
        scan::first_char(text, c, from) == at,
    decreases at - from,
{
    if from < at {
        lemma_char_is(text, c, from + 1, at);
    }
}

/// A text has no white space in it.
pub open spec fn is_word(text: Seq<char>) -> bool {
    text.len() > 0 && forall|i: int| 0 <= i < text.len() ==> !words::is_space(#[trigger] text[i])
}

/// The first line of a request is its method, a blank, what it is for, and whatever follows
/// behind another blank. The query behind the path, from its question mark on, is left out.
pub proof fn request_lines_are_read_back(
    line: Seq<char>,
    method: Seq<char>,
    path: Seq<char>,
    query: Seq<char>,
    version: Seq<char>,
)
    requires
        is_word(method),
        is_word(path),
        !path.contains('?'),
        query.len() == 0 || (query[0] == '?' && is_word(query)),
        line == method + seq![' '] + (path + query) + seq![' '] + version,
    ensures
        request::request_line(line) == Ok::<(Seq<char>, Seq<char>), Seq<char>>((method, path)),
{
    let target = path + query;
    let b = method.len() as int;
    let c = b + 1;
    let d = c + target.len();
    assert(words::is_space(' '));
    assert forall|i: int| 0 <= i < b implies !words::is_space(#[trigger] line[i]) by {
        assert(line[i] == method[i]);
    }
    assert forall|i: int| c <= i < d implies !words::is_space(#[trigger] line[i]) by {
        assert(line[i] == target[i - c]);
        if i - c < path.len() {
            assert(target[i - c] == path[i - c]);
        } else {
            assert(target[i - c] == query[i - c - path.len()]);
        }
    }
    assert(line[b] == ' ');
    assert(line[d] == ' ');
    lemma_next_is(line, 0, false, 0);
    lemma_next_is(line, 0, true, b);
    assert forall|i: int| b <= i < c implies words::is_space(#[trigger] line[i]) by {
        assert(i == b);
    }
    lemma_next_is(line, b, false, c);
    lemma_next_is(line, c, true, d);
    assert(line.subrange(0, b) =~= method);
    assert(line.subrange(c, d) =~= target);
    assert forall|i: int| 0 <= i < path.len() implies target[i] != '?' by {
        assert(target[i] == path[i]);
        assert(path.contains(path[i]));
    }
    if query.len() > 0 {
        assert(target[path.len() as int] == query[0]);
    }
    lemma_char_is(target, '?', 0, path.len() as int);
    assert(target.take(path.len() as int) =~= path);
}

proof fn lemma_trimmed_is(before: Seq<char>, inner: Seq<char>)
    requires
        forall|i: int| 0 <= i < before.len() ==> words::is_space(#[trigger] before[i]),
        inner.len() > 0,
        !words::is_space(inner[0]),
        !words::is_space(inner.last()),
    ensures
        scan::trimmed(before + inner) == inner,
{
    let whole = before + inner;
    assert(whole[before.len() as int] == inner[0]);
    assert forall|i: int| 0 <= i < before.len() implies words::is_space(#[trigger] whole[i]) by {
        assert(whole[i] == before[i]);
    }
    lemma_next_is(whole, 0, false, before.len() as int);
    assert(whole.last() == inner.last());
    assert(whole.subrange(before.len() as int, whole.len() as int) =~= inner);
}

/// A header is its name, a colon and its value, which may have white space in front of it.
/// The name is read with small letters.
pub proof fn headers_are_read_back(name: Seq<char>, blank: Seq<char>, value: Seq<char>)
    requires
        is_word(name),
        !name.contains(':'),
        forall|i: int| 0 <= i < blank.len() ==> words::is_space(#[trigger] blank[i]),
        value.len() > 0,
        !words::is_space(value[0]),
        !words::is_space(value.last()),
    ensures
        ({
            let header = request::header_of(name + seq![':'] + (blank + value));
            &&& header matches Some((n, v)) && v == value && n.len() == name.len() && forall|i: int|
                0 <= i < name.len() ==> #[trigger] n[i] == if 'A' <= name[i] <= 'Z' {
                    (name[i] as u32 + 32) as char
                } else {
                    name[i]
                }
        }),
{
    let line = name + seq![':'] + (blank + value);
    assert forall|i: int| 0 <= i < name.len() implies line[i] != ':' by {
        assert(line[i] == name[i]);
        assert(name.contains(name[i]));
    }
    assert(line[name.len() as int] == ':');
    lemma_char_is(line, ':', 0, name.len() as int);
    assert(line.take(name.len() as int) =~= Seq::<char>::empty() + name);
    assert(line.skip(name.len() as int + 1) =~= blank + value);
    lemma_trimmed_is(Seq::empty(), name);
    lemma_trimmed_is(blank, value);
    assert(Seq::<char>::empty() + name =~= name);
}

/// Every line behind the first one, up to its line break, is one header; lines without a
/// colon are none.
pub proof fn every_line_is_one_header(
    text: Seq<char>,
    before: Seq<char>,
    line: Seq<char>,
    rest: Seq<char>,
)
    requires
        text == before + line + seq!['\r', '\n'] + rest,
        !line.contains('\r'),
    ensures
        request::headers_of(text, before.len() as int) == (match request::header_of(line) {
            Some(header) => seq![header],
            None => Seq::empty(),
        }) + request::headers_of(text, before.len() as int + line.len() + 2),
{
    let from = before.len() as int;
    let end = from + line.len();
    assert forall|i: int| from <= i < end implies text[i] != '\r' by {
        assert(text[i] == line[i - from]);
        assert(line.contains(line[i - from]));
    }
    assert(text[end] == '\r' && text[end + 1] == '\n');
    lemma_line_is(text, from, end);
    assert(text.subrange(from, end) =~= line);
}

proof fn lemma_line_is(text: Seq<char>, from: int, end: int)
    requires
        0 <= from <= end,
        end + 1 < text.len(),
        text[end] == '\r',
        text[end + 1] == '\n',
        forall|i: int| from <= i < end ==> text[i] != '\r',
    ensures
        request::line_end(text, from) == end,
    decreases end - from,
{
    if from < end {
        lemma_line_is(text, from + 1, end);
    }
}

/// A request is complete once its headers are, two line breaks behind them, and as many
/// bytes as they announce; these are its body, whatever follows. Without an announcement it
/// has none, and none may announce more than 65536 bytes.
pub proof fn requests_have_the_body_they_announce(head: Seq<u8>, body: Seq<u8>, more: Seq<u8>)
    requires
        forall|j: int| 0 <= j <= head.len() ==> !request::ends_at(head + seq![13u8, 10, 13], j),
        request::head_of(head) matches Ok(model) && model.content_length == body.len(),
    ensures
        ({
            let bytes = head + seq![13u8, 10, 13, 10] + body + more;
            let model = request::head_of(head)->Ok_0;
            &&& request::progress_of(bytes) matches Progress::Done(request)
                && request.method == model.method && request.path == model.path
                && request.headers == model.headers && request.body == body
        }),
        body.len() <= 65536,
        form::lookup(request::head_of(head)->Ok_0.headers, "content-length"@) is None ==> body.len()
            == 0,
        form::lookup(request::head_of(head)->Ok_0.headers, "content-length"@) matches Some(value)
            ==> numbers::parsed(value, usize::MAX as nat) == Ok::<nat, numbers::NumberFault>(
            body.len(),
        ),
{
    let bytes = head + seq![13u8, 10, 13, 10] + body + more;
    let n = head.len() as int;
    assert(request::ends_at(bytes, n));
    assert forall|j: int| 0 <= j < n implies !request::ends_at(bytes, j) by {
        let short = head + seq![13u8, 10, 13];
        if request::ends_at(bytes, j) {
            assert(bytes[j] == short[j] && bytes[j + 1] == short[j + 1] && bytes[j + 2] == short[j
                + 2]);
            assert(j + 3 < short.len());
            assert(bytes[j + 3] == short[j + 3]);
            assert(request::ends_at(short, j));
        }
    }
    lemma_head_is(bytes, 0, n);
    assert(bytes.take(n) =~= head);
    assert(bytes.subrange(n + 4, n + 4 + body.len()) =~= body);
}

proof fn lemma_head_is(bytes: Seq<u8>, from: int, at: int)
    requires
        0 <= from <= at,
        request::ends_at(bytes, at),
        forall|j: int| from <= j < at ==> !request::ends_at(bytes, j),
    ensures
        request::head_end(bytes, from) == at,
    decreases at - from,
{
    if from < at {
        lemma_head_is(bytes, from + 1, at);
    }
}

/// Numerals are decimal: the digits from 0 to 9 by themselves, and behind the numeral of the
/// tens the digit of the ones.
pub proof fn numerals_are_decimal(n: nat)
    ensures
        n < 10 ==> text::decimal(n).len() == 1 && text::decimal(n)[0] as u32 == 48 + n,
        n >= 10 ==> text::decimal(n) == text::decimal(n / 10) + text::decimal(n % 10),
        text::decimal_int(-(n as int)) == if n == 0 {
            text::decimal(0)
        } else {
            seq!['-'] + text::decimal(n)
        },
{
    if n >= 10 {
        assert(text::decimal(n) =~= text::decimal(n / 10) + text::decimal(n % 10));
    }
}

/// A response starts with its protocol, code and reason, says how many bytes its body has
/// and that the connection ends with it, and has its headers behind that, one on a line; an
/// empty line and the body follow. One that is sent in chunks says so instead of a length.
pub proof fn responses_say_how_long_they_are(
    code: u16,
    reason: Seq<char>,
    headers: Seq<FieldModel>,
    len: nat,
)
    ensures
        ({
            let lines = response::header_lines(headers);
            &&& response::plain_head(code, reason, headers, len) == "HTTP/1.1 "@ + text::decimal(
                code as nat,
            ) + seq![' '] + reason + "\r\nContent-Length: "@ + text::decimal(len)
                + "\r\nConnection: close\r\n"@ + lines + seq!['\r', '\n']
            &&& response::chunked_head(code, reason, headers) == "HTTP/1.1 "@ + text::decimal(
                code as nat,
            ) + seq![' '] + reason + "\r\nTransfer-Encoding: chunked\r\nConnection: close\r\n"@
                + lines + seq!['\r', '\n']
        }),
{
    let lines = response::header_lines(headers);
    reveal_strlit(" ");
    reveal_strlit("\r\n");
    reveal_strlit("Content-Length: ");
    reveal_strlit("\r\nContent-Length: ");
    reveal_strlit("Connection: close\r\n");
    reveal_strlit("\r\nConnection: close\r\n");
    reveal_strlit("Transfer-Encoding: chunked\r\n");
    reveal_strlit("\r\nTransfer-Encoding: chunked\r\nConnection: close\r\n");
    assert(" "@ =~= seq![' ']);
    assert("\r\n"@ =~= seq!['\r', '\n']);
    assert("\r\n"@ + "Content-Length: "@ =~= "\r\nContent-Length: "@);
    assert("\r\n"@ + "Connection: close\r\n"@ =~= "\r\nConnection: close\r\n"@);
    assert("\r\n"@ + "Transfer-Encoding: chunked\r\n"@ + "Connection: close\r\n"@
        =~= "\r\nTransfer-Encoding: chunked\r\nConnection: close\r\n"@);
    assert(response::plain_head(code, reason, headers, len) =~= "HTTP/1.1 "@ + text::decimal(
        code as nat,
    ) + seq![' '] + reason + ("\r\n"@ + "Content-Length: "@) + text::decimal(len) + ("\r\n"@
        + "Connection: close\r\n"@) + lines + seq!['\r', '\n']);
    assert(response::chunked_head(code, reason, headers) =~= "HTTP/1.1 "@ + text::decimal(
        code as nat,
    ) + seq![' '] + reason + ("\r\n"@ + "Transfer-Encoding: chunked\r\n"@
        + "Connection: close\r\n"@) + lines + seq!['\r', '\n']);
}

/// Headers are written in their order, one on a line: the name, a colon, a blank and the
/// value.
pub proof fn headers_are_written_in_order(
    a: Seq<FieldModel>,
    b: Seq<FieldModel>,
    name: Seq<char>,
    value: Seq<char>,
)
    requires
        forall|i: int| 0 <= i < value.len() ==> #[trigger] value[i] != '\r' && value[i] != '\n',
    ensures
        response::header_lines(a + b) == response::header_lines(a) + response::header_lines(b),
        response::header_lines(seq![(name, value)]) == name + seq![':', ' '] + value + seq![
            '\r',
            '\n',
        ],
    decreases b.len(),
{
    reveal_strlit(": ");
    reveal_strlit("\r\n");
    assert(": "@ =~= seq![':', ' ']);
    assert("\r\n"@ =~= seq!['\r', '\n']);
    response::header_values_stay_on_their_line(value);
    let one = seq![(name, value)];
    assert(one.drop_last() =~= Seq::<FieldModel>::empty());
    reveal_with_fuel(response::header_lines, 2);
    assert(response::header_lines(one) =~= name + seq![':', ' '] + value + seq!['\r', '\n']);
    if b.len() == 0 {
        assert(a + b =~= a);
        assert(response::header_lines(a + b) =~= response::header_lines(a)
            + response::header_lines(b));
    } else {
        headers_are_written_in_order(a, b.drop_last(), name, value);
        assert((a + b).drop_last() =~= a + b.drop_last());
        assert((a + b).last() == b.last());
        assert(response::header_lines(a + b) =~= response::header_lines(a)
            + response::header_lines(b));
    }
}

/// A request may take 65536 bytes in front of the end of its headers, and as many behind it;
/// a sender that closes the connection too early leaves a request that cannot be used.
pub proof fn requests_may_take_so_many_bytes(buffer: Seq<u8>, bytes: Seq<u8>)
    ensures
        bytes.len() == 0 && request::has_head(buffer) ==> request::fed(buffer, bytes)
            == Progress::Bad("truncated request body"@),
        bytes.len() == 0 && !request::has_head(buffer) ==> request::fed(buffer, bytes)
            == Progress::Bad("connection closed"@),
        bytes.len() > 0 && !request::has_head(buffer) && buffer.len() + bytes.len() > 65536
            ==> request::fed(buffer, bytes) == Progress::Bad("request is too large"@),
        bytes.len() > 0 && buffer.len() + bytes.len() <= 65536 && request::head_end(buffer, 0) >= 0
            ==> request::fed(buffer, bytes) == request::progress_of(buffer + bytes),
        request::MAX_REQUEST_BYTES == 65536,
{
}

/// The characters of line breaks in a header value become blanks, and all others stay.
pub proof fn line_breaks_become_blanks(value: Seq<char>, i: int)
    requires
        0 <= i < value.len(),
    ensures
        response::sanitized(value).len() == value.len(),
        response::sanitized(value)[i] == if value[i] == '\r' || value[i] == '\n' {
            ' '
        } else {
            value[i]
        },
{
}

/// A text is sent as plain text in UTF-8, and says so.
pub proof fn texts_say_that_they_are_plain(
    answer: Response,
    code: u16,
    reason: Seq<char>,
    words: Seq<char>,
)
    requires
        response::is_text(answer, code, reason, words),
    ensures
        answer.code == code,
        answer.reason@ == reason,
        form::lookup(form::fields_model(answer.headers@), "Content-Type"@) == Some(
            "text/plain; charset=utf-8"@,
        ),
        answer.headers@.len() == 1,
        answer.body@ == utf8::encode_utf8(words),
{
    let fields = form::fields_model(answer.headers@);
    assert(fields[0] == ("Content-Type"@, "text/plain; charset=utf-8"@));
    the_last_field_counts(fields, "Content-Type"@, 0);
}

} // verus!

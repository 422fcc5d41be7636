//! HTTP responses, whole and in chunks.

use vstd::prelude::*;
use vstd::utf8;

use crate::lists::append_all;
use crate::server::form::{self, Field, FieldModel};
use crate::text::{self, chars_of, push_decimal, push_usize};

verus! {

/// A character that may stand in a header value; line breaks become spaces.
pub open spec fn unbroken(c: char) -> char {
    if c == '\r' || c == '\n' {
        ' '
    } else {
        c
    }
}

/// A header value without line breaks.
pub open spec fn sanitized(value: Seq<char>) -> Seq<char> {
    value.map_values(|c: char| unbroken(c))
}

/// A header value without line breaks: each of their characters becomes a space.
pub fn sanitize_header_value(value: &str) -> (clean: String)
    ensures
        clean@ == sanitized(value@),
{
    let chars: Vec<char> = chars_of(value);
    let mut clean = String::new();
    let mut index: usize = 0;
    while index < chars.len()
        invariant
            chars@ == value@,
            index <= chars@.len(),
            clean@ == sanitized(value@.take(index as int)),
        decreases chars@.len() - index,
    {
        let c: char = chars[index];
        if c == '\r' || c == '\n' {
            clean.push(' ');
        } else {
            clean.push(c);
        }
        index += 1;
        proof {
            assert(clean@ =~= sanitized(value@.take(index as int)));
        }
    }
    proof {
        assert(value@.take(value@.len() as int) =~= value@);
    }
    clean
}

/// A header value cannot start another header or end the headers: no line break is left
/// in it. It keeps its length, and a value without line breaks stays as it is.
pub proof fn header_values_stay_on_their_line(value: Seq<char>)
    ensures
        sanitized(value).len() == value.len(),
        forall|i: int|
            0 <= i < value.len() ==> #[trigger] sanitized(value)[i] != '\r' && sanitized(value)[i]
                != '\n',
        (forall|i: int| 0 <= i < value.len() ==> #[trigger] value[i] != '\r' && value[i] != '\n')
            ==> sanitized(value) == value,
        sanitized(sanitized(value)) == sanitized(value),
{
    assert(sanitized(sanitized(value)) =~= sanitized(value));
    if forall|i: int| 0 <= i < value.len() ==> #[trigger] value[i] != '\r' && value[i] != '\n' {
        assert(sanitized(value) =~= value);
    }
}

/// One header on its line.
pub open spec fn header_line(header: FieldModel) -> Seq<char> {
    header.0 + ": "@ + sanitized(header.1) + "\r\n"@
}

/// All headers, each on its line.
pub open spec fn header_lines(headers: Seq<FieldModel>) -> Seq<char>
    decreases headers.len(),
{
    if headers.len() == 0 {
        Seq::empty()
    } else {
        header_lines(headers.drop_last()) + header_line(headers.last())
    }
}

/// The first line of a response.
pub open spec fn status_line(code: u16, reason: Seq<char>) -> Seq<char> {
    "HTTP/1.1 "@ + text::decimal(code as nat) + " "@ + reason + "\r\n"@
}

/// The head of a response whose length is known.
pub open spec fn plain_head(
    code: u16,
    reason: Seq<char>,
    headers: Seq<FieldModel>,
    len: nat,
) -> Seq<char> {
    status_line(code, reason) + ("Content-Length: "@ + text::decimal(len) + "\r\n"@)
        + "Connection: close\r\n"@ + header_lines(headers) + "\r\n"@
}

/// The head of a response that is sent in chunks.
pub open spec fn chunked_head(code: u16, reason: Seq<char>, headers: Seq<FieldModel>) -> Seq<
    char,
> {
    status_line(code, reason) + "Transfer-Encoding: chunked\r\n"@ + "Connection: close\r\n"@
        + header_lines(headers) + "\r\n"@
}

/// A response.
#[derive(Debug)]
pub struct Response {
    pub code: u16,
    pub reason: String,
    pub headers: Vec<Field>,
    pub body: Vec<u8>,
}

fn push_status(out: &mut String, code: u16, reason: &str)
    ensures
        final(out)@ == old(out)@ + status_line(code, reason@),
{
    let ghost before = out@;
    out.append("HTTP/1.1 ");
    push_decimal(out, code as u64);
    out.append(" ");
    out.append(reason);
    out.append("\r\n");
    proof {
        assert(out@ =~= before + status_line(code, reason@));
    }
}

fn push_headers(out: &mut String, headers: &Vec<Field>)
    ensures
        final(out)@ == old(out)@ + header_lines(form::fields_model(headers@)),
{
    let ghost before = out@;
    let ghost model = form::fields_model(headers@);
    let mut index: usize = 0;
    proof {
        assert(before + header_lines(model.take(0)) =~= before);
    }
    while index < headers.len()
        invariant
            index <= headers@.len(),
            model == form::fields_model(headers@),
            out@ == before + header_lines(model.take(index as int)),
        decreases headers@.len() - index,
    {
        let ghost so_far = out@;
        out.append(headers[index].name.as_str());
        out.append(": ");
        out.append(sanitize_header_value(headers[index].value.as_str()).as_str());
        out.append("\r\n");
        proof {
            let grown = model.take(index as int + 1);
            assert(grown.drop_last() =~= model.take(index as int));
            assert(grown.last() == model[index as int]);
            assert(out@ =~= so_far + header_line(model[index as int]));
            assert(out@ =~= before + header_lines(grown));
        }
        index += 1;
    }
    proof {
        assert(model.take(model.len() as int) =~= model);
    }
}

/// The bytes of a text in UTF-8.
fn encoded(text: &str) -> (bytes: Vec<u8>)
    ensures
        bytes@ == utf8::encode_utf8(text@),
{
    let mut bytes: Vec<u8> = Vec::new();
    append_all(&mut bytes, text.as_bytes());
    proof {
        assert(bytes@ =~= utf8::encode_utf8(text@));
    }
    bytes
}

impl Response {
    /// The bytes that are sent: the head and the body.
    pub open spec fn wire(&self) -> Seq<u8> {
        utf8::encode_utf8(
            plain_head(
                self.code,
                self.reason@,
                form::fields_model(self.headers@),
                self.body@.len(),
            ),
        ) + self.body@
    }

    /// The bytes that are sent.
    pub fn to_bytes(&self) -> (bytes: Vec<u8>)
        ensures
            bytes@ == self.wire(),
    {
        let mut head = String::new();
        push_status(&mut head, self.code, self.reason.as_str());
        head.append("Content-Length: ");
        push_usize(&mut head, self.body.len());
        head.append("\r\n");
        head.append("Connection: close\r\n");
        push_headers(&mut head, &self.headers);
        head.append("\r\n");
        proof {
            assert(head@ =~= plain_head(
                self.code,
                self.reason@,
                form::fields_model(self.headers@),
                self.body@.len(),
            ));
        }
        let mut bytes: Vec<u8> = encoded(head.as_str());
        append_all(&mut bytes, self.body.as_slice());
        bytes
    }
}

/// `response` carries `text` with a code, a reason and one header that names its type.
pub open spec fn is_text(
    response: Response,
    code: u16,
    reason: Seq<char>,
    text: Seq<char>,
) -> bool {
    &&& response.code == code
    &&& response.reason@ == reason
    &&& form::fields_model(response.headers@) == seq![
        ("Content-Type"@, "text/plain; charset=utf-8"@),
    ]
    &&& response.body@ == utf8::encode_utf8(text)
}

/// A header.
pub fn header(name: &str, value: &str) -> (field: Field)
    ensures
        (field.name@, field.value@) == (name@, value@),
{
    Field { name: name.to_owned(), value: value.to_owned() }
}

/// A response that carries plain text.
pub fn text_response(code: u16, reason: &str, text: &str) -> (response: Response)
    ensures
        is_text(response, code, reason@, text@),
{
    let mut headers: Vec<Field> = Vec::new();
    headers.push(header("Content-Type", "text/plain; charset=utf-8"));
    proof {
        assert(form::fields_model(headers@) =~= seq![
            ("Content-Type"@, "text/plain; charset=utf-8"@),
        ]);
    }
    Response { code, reason: reason.to_owned(), headers, body: encoded(text) }
}

/// A response that carries a page.
pub fn html_response(html: &str) -> (response: Response)
    ensures
        response.code == 200,
        response.reason@ == "OK"@,
        form::fields_model(response.headers@) == seq![
            ("Content-Type"@, "text/html; charset=utf-8"@),
            ("Cache-Control"@, "no-store"@),
        ],
        response.body@ == utf8::encode_utf8(html@),
{
    let mut headers: Vec<Field> = Vec::new();
    headers.push(header("Content-Type", "text/html; charset=utf-8"));
    headers.push(header("Cache-Control", "no-store"));
    proof {
        assert(form::fields_model(headers@) =~= seq![
            ("Content-Type"@, "text/html; charset=utf-8"@),
            ("Cache-Control"@, "no-store"@),
        ]);
    }
    Response { code: 200, reason: "OK".to_owned(), headers, body: encoded(html) }
}

/// A response without a body.
pub fn empty_response() -> (response: Response)
    ensures
        response.code == 204,
        response.reason@ == "No Content"@,
        response.headers@.len() == 0,
        response.body@.len() == 0,
{
    Response {
        code: 204,
        reason: "No Content".to_owned(),
        headers: Vec::new(),
        body: Vec::new(),
    }
}

/// The bytes in front of a response that is sent in chunks.
pub fn chunked_headers(code: u16, reason: &str, headers: &Vec<Field>) -> (bytes: Vec<u8>)
    ensures
        bytes@ == utf8::encode_utf8(
            chunked_head(code, reason@, form::fields_model(headers@)),
        ),
{
    let mut head = String::new();
    push_status(&mut head, code, reason);
    head.append("Transfer-Encoding: chunked\r\n");
    head.append("Connection: close\r\n");
    push_headers(&mut head, headers);
    head.append("\r\n");
    proof {
        assert(head@ =~= chunked_head(code, reason@, form::fields_model(headers@)));
    }
    encoded(head.as_str())
}

/// A hexadecimal digit in small letters.
pub open spec fn hex_byte(value: int) -> u8 {
    if value < 10 {
        (48 + value) as u8
    } else {
        (87 + value) as u8
    }
}

/// The hexadecimal numeral of a number, in small letters.
pub open spec fn hex(n: nat) -> Seq<u8>
    decreases n,
{
    if n < 16 {
        seq![hex_byte(n as int)]
    } else {
        hex(n / 16).push(hex_byte((n % 16) as int))
    }
}

fn push_hex(out: &mut Vec<u8>, n: usize)
    ensures
        final(out)@ == old(out)@ + hex(n as nat),
    decreases n,
{
    if n >= 16 {
        push_hex(out, n / 16);
    }
    let digit: u8 = (n % 16) as u8;
    if digit < 10 {
        out.push(48 + digit);
    } else {
        out.push(87 + digit);
    }
    proof {
        assert(out@ =~= old(out)@ + hex(n as nat));
    }
}

/// The bytes that a part of the body is sent as. A part without bytes is not sent: it would
/// end the response.
pub open spec fn chunk_bytes(body: Seq<u8>) -> Seq<u8> {
    if body.len() == 0 {
        Seq::empty()
    } else {
        hex(body.len()) + seq![13u8, 10] + body + seq![13u8, 10]
    }
}

/// The bytes that a part of the body is sent as.
pub fn write_chunk(body: &[u8]) -> (bytes: Vec<u8>)
    ensures
        bytes@ == chunk_bytes(body@),
{
    let mut bytes: Vec<u8> = Vec::new();
    if body.len() == 0 {
        return bytes;
    }
    push_hex(&mut bytes, body.len());
    append_all(&mut bytes, &[13, 10]);
    append_all(&mut bytes, body);
    append_all(&mut bytes, &[13, 10]);
    proof {
        assert(bytes@ =~= chunk_bytes(body@));
    }
    bytes
}

/// The bytes that end a response that is sent in chunks.
pub open spec fn last_chunk() -> Seq<u8> {
    seq![48u8, 13, 10, 13, 10]
}

/// The bytes that end a response that is sent in chunks.
pub fn finish_chunked_response() -> (bytes: Vec<u8>)
    ensures
        bytes@ == last_chunk(),
{
    let mut bytes: Vec<u8> = Vec::new();
    append_all(&mut bytes, &[48, 13, 10, 13, 10]);
    proof {
        assert(bytes@ =~= last_chunk());
    }
    bytes
}

/// All chunks of a response and what ends them.
pub open spec fn chunked(parts: Seq<Seq<u8>>) -> Seq<u8>
    decreases parts.len(),
{
    if parts.len() == 0 {
        last_chunk()
    } else {
        chunk_bytes(parts[0]) + chunked(parts.drop_first())
    }
}

/// All parts one behind the other.
pub open spec fn whole(parts: Seq<Seq<u8>>) -> Seq<u8>
    decreases parts.len(),
{
    if parts.len() == 0 {
        Seq::empty()
    } else {
        parts[0] + whole(parts.drop_first())
    }
}

/// The number that the hexadecimal digits from `at` on write behind the digits of `value`,
/// and where they end.
pub open spec fn size_at(bytes: Seq<u8>, at: int, value: nat) -> (nat, int)
    decreases bytes.len() - at,
{
    if 0 <= at < bytes.len() && form::hex_of(bytes[at]) is Some {
        size_at(bytes, at + 1, 16 * value + form::hex_of(bytes[at])->0 as nat)
    } else {
        (value, at)
    }
}

/// The body that a receiver of chunks puts together; `None` where the chunks are broken.
pub open spec fn received(bytes: Seq<u8>) -> Option<Seq<u8>>
    decreases bytes.len(),
{
    let (size, at) = size_at(bytes, 0, 0);
    let end = at + 2 + size;
    if at <= 0 || end + 2 > bytes.len() || bytes[at] != 13 || bytes[at + 1] != 10 || bytes[end]
        != 13 || bytes[end + 1] != 10 {
        None
    } else if size == 0 {
        Some(Seq::empty())
    } else {
        match received(bytes.skip(end + 2)) {
            Some(rest) => Some(bytes.subrange(at + 2, end) + rest),
            None => None,
        }
    }
}

proof fn lemma_digits(digits: Seq<u8>, n: nat, rest: Seq<u8>)
    requires
        digits == hex(n),
        rest.len() > 0,
    ensures
        digits.len() > 0,
        size_at(digits + rest, 0, 0) == size_at(digits + rest, digits.len() as int, n),
        form::hex_of(rest[0]) is None ==> size_at(digits + rest, 0, 0) == (
            n,
            digits.len() as int,
        ),
    decreases n,
{
    let d = hex_byte((n % 16) as int);
    assert(form::hex_of(d) == Some((n % 16) as u8));
    if n < 16 {
        assert(digits =~= seq![d]);
        assert((digits + rest)[0] == d);
    } else {
        let shorter = hex(n / 16);
        let tail = seq![d] + rest;
        lemma_digits(shorter, n / 16, tail);
        assert(shorter + tail =~= digits + rest);
        assert((digits + rest)[shorter.len() as int] == d);
        assert(16 * (n / 16) + n % 16 == n);
    }
    if form::hex_of(rest[0]) is None {
        assert((digits + rest)[digits.len() as int] == rest[0]);
    }
}

/// Whatever parts a body is sent in, a receiver puts the whole body together.
pub proof fn chunks_are_put_together(parts: Seq<Seq<u8>>)
    ensures
        received(chunked(parts)) == Some(whole(parts)),
    decreases parts.len(),
{
    let all = chunked(parts);
    if parts.len() == 0 {
        assert(all =~= hex(0) + seq![13u8, 10, 13, 10]);
        lemma_digits(hex(0), 0, seq![13u8, 10, 13, 10]);
        assert(received(all) == Some(Seq::<u8>::empty()));
    } else {
        let first = parts[0];
        let rest = parts.drop_first();
        chunks_are_put_together(rest);
        if first.len() == 0 {
            assert(all =~= chunked(rest));
            assert(whole(parts) =~= whole(rest));
        } else {
            let n = first.len();
            let tail = seq![13u8, 10] + first + seq![13u8, 10] + chunked(rest);
            assert(all =~= hex(n) + tail);
            lemma_digits(hex(n), n, tail);
            let at = hex(n).len() as int;
            let end = at + 2 + n;
            assert(all[at] == tail[0]);
            assert(all[at + 1] == tail[1]);
            assert(all[end] == tail[2 + n as int]);
            assert(all[end + 1] == tail[3 + n as int]);
            assert(all.skip(end + 2) =~= chunked(rest));
            assert(all.subrange(at + 2, end) =~= first);
        }
    }
}

} // verus!

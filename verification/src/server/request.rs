//! HTTP requests, as their bytes come in.

use vstd::prelude::*;
use vstd::utf8;

use crate::error::{self, invalid, Error};
use crate::lists::{append_all, copy_range};
use crate::numbers::{self, parse_usize, to_lower};
use crate::scan::{self, find_char, find_space, trim};
use crate::server::form::{self, field, Field, FieldModel};
use crate::text::{self, chars_of, text_from_utf8, text_of};

verus! {

/// The bytes that a request may have up to the end of its headers, and that its body may
/// have.
pub const MAX_REQUEST_BYTES: usize = 65536;

/// The headers of a request end at byte `i`: two line breaks stand there.
pub open spec fn ends_at(buffer: Seq<u8>, i: int) -> bool {
    &&& 0 <= i
    &&& i + 4 <= buffer.len()
    &&& buffer[i] == 13
    &&& buffer[i + 1] == 10
    &&& buffer[i + 2] == 13
    &&& buffer[i + 3] == 10
}

/// The first place from `from` on where the headers end; the length where there is none.
pub open spec fn head_end(buffer: Seq<u8>, from: int) -> int
    decreases buffer.len() - from,
{
    if from >= buffer.len() {
        buffer.len() as int
    } else if ends_at(buffer, from) {
        from
    } else {
        head_end(buffer, from + 1)
    }
}

/// The headers are complete.
pub open spec fn has_head(buffer: Seq<u8>) -> bool {
    head_end(buffer, 0) < buffer.len()
}

proof fn lemma_head_end(buffer: Seq<u8>, from: int)
    requires
        0 <= from <= buffer.len(),
    ensures
        from <= head_end(buffer, from) <= buffer.len(),
        head_end(buffer, from) < buffer.len() ==> ends_at(buffer, head_end(buffer, from)),
        forall|j: int| from <= j < head_end(buffer, from) ==> !ends_at(buffer, j),
    decreases buffer.len() - from,
{
    if from < buffer.len() && !ends_at(buffer, from) {
        lemma_head_end(buffer, from + 1);
    }
}

/// More bytes do not move the end of the headers.
pub proof fn headers_stay(buffer: Seq<u8>, more: Seq<u8>, from: int)
    requires
        0 <= from <= buffer.len(),
        head_end(buffer, from) < buffer.len(),
    ensures
        head_end(buffer + more, from) == head_end(buffer, from),
    decreases buffer.len() - from,
{
    let all = buffer + more;
    if ends_at(buffer, from) {
        assert(ends_at(all, from));
    } else {
        lemma_head_end(buffer, from + 1);
        let end = head_end(buffer, from + 1);
        assert(from + 4 <= buffer.len());
        assert(!ends_at(all, from));
        headers_stay(buffer, more, from + 1);
    }
}

/// Where the headers of a request end.
pub fn find_header_end(buffer: &[u8]) -> (end: Option<usize>)
    ensures
        match end {
            Some(i) => i == head_end(buffer@, 0) && ends_at(buffer@, i as int) && forall|j: int|
                0 <= j < i ==> !ends_at(buffer@, j),
            None => !has_head(buffer@) && forall|j: int| !ends_at(buffer@, j),
        },
{
    proof {
        lemma_head_end(buffer@, 0);
    }
    let size: usize = buffer.len();
    let mut index: usize = 0;
    while size - index >= 4
        invariant
            size == buffer@.len(),
            index <= size,
            head_end(buffer@, 0) == head_end(buffer@, index as int),
            head_end(buffer@, 0) < buffer@.len() ==> ends_at(buffer@, head_end(buffer@, 0)),
            forall|j: int| 0 <= j < index ==> !ends_at(buffer@, j),
        decreases size - index,
    {
        if buffer[index] == 13 && buffer[index + 1] == 10 && buffer[index + 2] == 13
            && buffer[index + 3] == 10 {
            return Some(index);
        }
        index += 1;
    }
    None
}

/// The first line break from `from` on; the length where there is none.
pub open spec fn line_end(text: Seq<char>, from: int) -> int
    decreases text.len() - from,
{
    if from >= text.len() {
        text.len() as int
    } else if from + 1 < text.len() && text[from] == '\r' && text[from + 1] == '\n' {
        from
    } else {
        line_end(text, from + 1)
    }
}

fn find_line_end(text: &Vec<char>, from: usize) -> (end: usize)
    requires
        from <= text@.len(),
    ensures
        end == line_end(text@, from as int),
        from <= end <= text@.len(),
        end < text@.len() ==> end + 1 < text@.len(),
{
    let mut index: usize = from;
    while index < text.len()
        invariant
            from <= index <= text@.len(),
            line_end(text@, from as int) == line_end(text@, index as int),
        decreases text@.len() - index,
    {
        if index + 1 < text.len() && text[index] == '\r' && text[index + 1] == '\n' {
            return index;
        }
        index += 1;
    }
    index
}

/// The method and the path of a request line: its first two words, the path without what
/// stands behind a question mark.
pub open spec fn request_line(line: Seq<char>) -> Result<(Seq<char>, Seq<char>), Seq<char>> {
    let a = scan::next_space(line, 0, false);
    let b = scan::next_space(line, a, true);
    let c = scan::next_space(line, b, false);
    let d = scan::next_space(line, c, true);
    if a >= line.len() {
        Err("missing method"@)
    } else if c >= line.len() {
        Err("missing path"@)
    } else {
        let target = line.subrange(c, d);
        Ok((line.subrange(a, b), target.take(scan::first_char(target, '?', 0))))
    }
}

fn parse_request_line(line: &String) -> (parts: Result<(String, String), Error>)
    ensures
        match (parts, request_line(line@)) {
            (Ok((method, path)), Ok(expected)) => (method@, path@) == expected,
            (Err(e), Err(why)) => error::is_invalid(e, why),
            _ => false,
        },
{
    let chars: Vec<char> = chars_of(line.as_str());
    let a: usize = find_space(&chars, 0, false);
    if a >= chars.len() {
        return Err(invalid("missing method"));
    }
    let b: usize = find_space(&chars, a, true);
    let c: usize = find_space(&chars, b, false);
    if c >= chars.len() {
        return Err(invalid("missing path"));
    }
    let d: usize = find_space(&chars, c, true);
    let target: Vec<char> = chars_of(text_of(chars.as_slice(), c, d).as_str());
    let end: usize = find_char(&target, '?', 0);
    let path: String = text_of(target.as_slice(), 0, end);
    proof {
        assert(target@.subrange(0, end as int) =~= target@.take(end as int));
    }
    Ok((text_of(chars.as_slice(), a, b), path))
}

/// The header that a line writes, where it has a colon: its name in small letters, and its
/// value.
pub open spec fn header_of(line: Seq<char>) -> Option<FieldModel> {
    let at = scan::first_char(line, ':', 0);
    if at < line.len() {
        Some((numbers::lowered(scan::trimmed(line.take(at))), scan::trimmed(line.skip(at + 1))))
    } else {
        None
    }
}

fn parse_header(line: &String) -> (header: Option<Field>)
    ensures
        match (header, header_of(line@)) {
            (Some(f), Some(expected)) => (f.name@, f.value@) == expected,
            (None, None) => true,
            _ => false,
        },
{
    let chars: Vec<char> = chars_of(line.as_str());
    let at: usize = find_char(&chars, ':', 0);
    if at >= chars.len() {
        return None;
    }
    let name: String = text_of(chars.as_slice(), 0, at);
    let value: String = text_of(chars.as_slice(), at + 1, chars.len());
    proof {
        assert(name@ =~= line@.take(at as int));
        assert(value@ =~= line@.skip(at + 1));
    }
    Some(
        Field {
            name: to_lower(trim(name.as_str()).as_str()),
            value: trim(value.as_str()),
        },
    )
}

/// The headers that the lines from `from` on write.
pub open spec fn headers_of(text: Seq<char>, from: int) -> Seq<FieldModel>
    decreases
            (if from >= text.len() {
                0
            } else {
                text.len() - from + 1
            }),
{
    if from > text.len() {
        Seq::empty()
    } else {
        proof {
            lemma_line_end(text, from);
        }
        let end = line_end(text, from);
        let one = match header_of(text.subrange(from, end)) {
            Some(header) => seq![header],
            None => Seq::empty(),
        };
        if end >= text.len() {
            one
        } else {
            one + headers_of(text, end + 2)
        }
    }
}

/// A line ends within the text, and a line break takes two characters.
pub proof fn lemma_line_end(text: Seq<char>, from: int)
    requires
        from <= text.len(),
    ensures
        from <= line_end(text, from) <= text.len(),
        line_end(text, from) < text.len() ==> line_end(text, from) + 1 < text.len(),
    decreases text.len() - from,
{
    if from < text.len() && !(from + 1 < text.len() && text[from] == '\r' && text[from + 1]
        == '\n') {
        lemma_line_end(text, from + 1);
    }
}

/// The head of a request.
#[derive(Debug)]
pub struct Head {
    pub method: String,
    pub path: String,
    pub headers: Vec<Field>,
    pub content_length: usize,
}

/// The head of a request, as a model.
#[verifier::ext_equal]
pub struct HeadModel {
    pub method: Seq<char>,
    pub path: Seq<char>,
    pub headers: Seq<FieldModel>,
    pub content_length: int,
}

impl View for Head {
    type V = HeadModel;

    open spec fn view(&self) -> HeadModel {
        HeadModel {
            method: self.method@,
            path: self.path@,
            headers: form::fields_model(self.headers@),
            content_length: self.content_length as int,
        }
    }
}

/// The number of bytes of the body that the headers announce.
pub open spec fn announced(headers: Seq<FieldModel>) -> Result<nat, Seq<char>> {
    match form::lookup(headers, "content-length"@) {
        None => Ok(0),
        Some(value) => match numbers::parsed(value, usize::MAX as nat) {
            Ok(n) => if n > MAX_REQUEST_BYTES {
                Err("request body is too large"@)
            } else {
                Ok(n)
            },
            Err(fault) => Err(
                numbers::invalid_text("content-length"@, numbers::fault_text(fault)),
            ),
        },
    }
}

/// The head that a text writes.
pub open spec fn head_in(text: Seq<char>) -> Result<HeadModel, Seq<char>> {
    let end = line_end(text, 0);
    let headers = if end < text.len() {
        headers_of(text, end + 2)
    } else {
        Seq::empty()
    };
    match request_line(text.take(end)) {
        Err(why) => Err(why),
        Ok((method, path)) => match announced(headers) {
            Err(why) => Err(why),
            Ok(n) => Ok(HeadModel { method, path, headers, content_length: n as int }),
        },
    }
}

/// The head that the bytes in front of the end of the headers write.
pub open spec fn head_of(bytes: Seq<u8>) -> Result<HeadModel, Seq<char>> {
    if utf8::valid_utf8(bytes) {
        head_in(utf8::decode_utf8(bytes))
    } else {
        Err("invalid HTTP headers"@ + ": "@ + text::utf8_fault(bytes))
    }
}

fn parse_headers(chars: &Vec<char>, start: usize) -> (headers: Vec<Field>)
    requires
        start <= chars@.len(),
    ensures
        form::fields_model(headers@) == headers_of(chars@, start as int),
{
    let mut headers: Vec<Field> = Vec::new();
    let mut from: usize = start;
    let mut going: bool = true;
    let ghost all = headers_of(chars@, start as int);
    proof {
        assert(form::fields_model(headers@) =~= Seq::<FieldModel>::empty());
        assert(Seq::<FieldModel>::empty() + all =~= all);
    }
    while going
        invariant
            from <= chars@.len(),
            going ==> form::fields_model(headers@) + headers_of(chars@, from as int) == all,
            !going ==> form::fields_model(headers@) == all,
        decreases chars@.len() - from + (if going {
            1int
        } else {
            0int
        }),
    {
        let end: usize = find_line_end(chars, from);
        let line: String = text_of(chars.as_slice(), from, end);
        let ghost before = form::fields_model(headers@);
        let ghost rest = headers_of(chars@, end + 2);
        let header = parse_header(&line);
        match header {
            Some(header) => {
                let ghost one = (header.name@, header.value@);
                headers.push(header);
                proof {
                    assert(form::fields_model(headers@) =~= before.push(one));
                    assert(before + seq![one] =~= before.push(one));
                    assert(before + (seq![one] + rest) =~= before.push(one) + rest);
                }
            },
            None => {
                proof {
                    assert(before + Seq::<FieldModel>::empty() =~= before);
                    assert(before + (Seq::<FieldModel>::empty() + rest) =~= before + rest);
                }
            },
        }
        if end >= chars.len() {
            going = false;
        } else {
            from = end + 2;
        }
    }
    headers
}

/// Reads the head of a request.
pub fn parse_head(bytes: &[u8]) -> (head: Result<Head, Error>)
    ensures
        match (head, head_of(bytes@)) {
            (Ok(h), Ok(expected)) => h@ == expected,
            (Err(e), Err(why)) => error::is_invalid(e, why),
            _ => false,
        },
        head matches Ok(h) ==> h.content_length <= MAX_REQUEST_BYTES,
{
    let text: String = match text_from_utf8(bytes, "invalid HTTP headers") {
        Ok(text) => text,
        Err(e) => {
            return Err(e);
        },
    };
    let chars: Vec<char> = chars_of(text.as_str());
    let end: usize = find_line_end(&chars, 0);
    let line: String = text_of(chars.as_slice(), 0, end);
    proof {
        assert(line@ =~= text@.take(end as int));
    }
    let (method, path) = match parse_request_line(&line) {
        Ok(parts) => parts,
        Err(e) => {
            return Err(e);
        },
    };
    let headers: Vec<Field> = if end < chars.len() {
        parse_headers(&chars, end + 2)
    } else {
        Vec::new()
    };
    proof {
        if end >= chars@.len() {
            assert(form::fields_model(headers@) =~= Seq::<FieldModel>::empty());
        }
    }
    let content_length: usize = match field(&headers, "content-length") {
        None => 0,
        Some(value) => match parse_usize(value, "content-length") {
            Ok(n) => n,
            Err(e) => {
                return Err(e);
            },
        },
    };
    if content_length > MAX_REQUEST_BYTES {
        return Err(invalid("request body is too large"));
    }
    Ok(Head { method, path, headers, content_length })
}

/// A whole request.
#[derive(Debug)]
pub struct Request {
    pub method: String,
    pub path: String,
    pub headers: Vec<Field>,
    pub body: Vec<u8>,
}

/// A whole request, as a model.
#[verifier::ext_equal]
pub struct RequestModel {
    pub method: Seq<char>,
    pub path: Seq<char>,
    pub headers: Seq<FieldModel>,
    pub body: Seq<u8>,
}

impl View for Request {
    type V = RequestModel;

    open spec fn view(&self) -> RequestModel {
        RequestModel {
            method: self.method@,
            path: self.path@,
            headers: form::fields_model(self.headers@),
            body: self.body@,
        }
    }
}

/// What is known of a request from the bytes so far.
pub enum Progress {
    /// More bytes are needed.
    More,
    Done(RequestModel),
    /// The request cannot be used.
    Bad(Seq<char>),
}

/// What is known of a request from the bytes so far.
pub open spec fn progress_of(buffer: Seq<u8>) -> Progress {
    let end = head_end(buffer, 0);
    if end >= buffer.len() {
        Progress::More
    } else {
        match head_of(buffer.take(end)) {
            Err(why) => Progress::Bad(why),
            Ok(head) => if buffer.len() < end + 4 + head.content_length {
                Progress::More
            } else {
                Progress::Done(
                    RequestModel {
                        method: head.method,
                        path: head.path,
                        headers: head.headers,
                        body: buffer.subrange(end + 4, end + 4 + head.content_length),
                    },
                )
            },
        }
    }
}

/// What is known of a request once `bytes` have come in behind `buffer`. No bytes mean
/// that the sender has closed the connection.
pub open spec fn fed(buffer: Seq<u8>, bytes: Seq<u8>) -> Progress {
    let all = buffer + bytes;
    if bytes.len() == 0 {
        if has_head(buffer) {
            Progress::Bad("truncated request body"@)
        } else {
            Progress::Bad("connection closed"@)
        }
    } else if all.len() > MAX_REQUEST_BYTES + (if has_head(buffer) {
        head_end(buffer, 0) + 4
    } else {
        0
    }) {
        Progress::Bad("request is too large"@)
    } else {
        progress_of(all)
    }
}

/// A request under way.
#[derive(Debug)]
pub struct RequestReader {
    pub buffer: Vec<u8>,
    /// The head, once it is complete, and where the body starts.
    pub head: Option<(Head, usize)>,
}

impl RequestReader {
    /// The request is neither complete nor unusable, and its head is known where the bytes
    /// hold it.
    pub open spec fn wf(&self) -> bool {
        match self.head {
            None => !has_head(self.buffer@) && self.buffer@.len() <= MAX_REQUEST_BYTES,
            Some((head, start)) => {
                &&& has_head(self.buffer@)
                &&& start == head_end(self.buffer@, 0) + 4
                &&& start <= self.buffer@.len()
                &&& start <= MAX_REQUEST_BYTES
                &&& head.content_length <= MAX_REQUEST_BYTES
                &&& head_of(self.buffer@.take(start - 4)) == Ok::<HeadModel, Seq<char>>(head@)
                &&& self.buffer@.len() < start + head.content_length
            },
        }
    }

    /// A request of which nothing has come in.
    pub fn new() -> (reader: RequestReader)
        ensures
            reader.wf(),
            reader.buffer@ == Seq::<u8>::empty(),
    {
        RequestReader { buffer: Vec::new(), head: None }
    }

    /// Takes the next bytes. The reader and the request where it is complete; the reader
    /// alone where more bytes are needed.
    pub fn feed(self, bytes: &[u8]) -> (progress: Result<(RequestReader, Option<Request>), Error>)
        requires
            self.wf(),
        ensures
            match (progress, fed(self.buffer@, bytes@)) {
                (Ok((reader, None)), Progress::More) => reader.wf() && reader.buffer@
                    == self.buffer@ + bytes@,
                (Ok((_, Some(request))), Progress::Done(expected)) => request@ == expected,
                (Err(e), Progress::Bad(why)) => error::is_invalid(e, why),
                _ => false,
            },
    {
        let RequestReader { mut buffer, head } = self;
        let ghost before = buffer@;
        if bytes.len() == 0 {
            return match head {
                None => Err(invalid("connection closed")),
                Some(_) => Err(invalid("truncated request body")),
            };
        }
        append_all(&mut buffer, bytes);
        let (head, start): (Head, usize) = match head {
            Some((head, start)) => {
                if buffer.len() > start + MAX_REQUEST_BYTES {
                    return Err(invalid("request is too large"));
                }
                proof {
                    lemma_head_end(before, 0);
                    headers_stay(before, bytes@, 0);
                    assert(buffer@.take(start - 4) =~= before.take(start - 4));
                }
                (head, start)
            },
            None => {
                if buffer.len() > MAX_REQUEST_BYTES {
                    return Err(invalid("request is too large"));
                }
                let end: usize = match find_header_end(buffer.as_slice()) {
                    None => {
                        return Ok((RequestReader { buffer, head: None }, None));
                    },
                    Some(end) => end,
                };
                let bytes_of_head: Vec<u8> = copy_range(&buffer, 0, end);
                proof {
                    assert(bytes_of_head@ =~= buffer@.take(end as int));
                }
                match parse_head(bytes_of_head.as_slice()) {
                    Err(e) => {
                        return Err(e);
                    },
                    Ok(head) => (head, end + 4),
                }
            },
        };
        if buffer.len() < start + head.content_length {
            return Ok((RequestReader { buffer, head: Some((head, start)) }, None));
        }
        let body: Vec<u8> = copy_range(&buffer, start, start + head.content_length);
        let Head { method, path, headers, content_length } = head;
        Ok(
            (
                RequestReader { buffer: Vec::new(), head: None },
                Some(Request { method, path, headers, body }),
            ),
        )
    }
}

/// Up to the size that every request may have, it does not matter in which pieces a
/// request comes in.
pub proof fn pieces_do_not_matter(a: Seq<u8>, b: Seq<u8>)
    requires
        a.len() > 0,
        b.len() > 0,
        a.len() + b.len() <= MAX_REQUEST_BYTES,
    ensures
        fed(a, b) == fed(Seq::empty(), a + b),
{
    assert(Seq::<u8>::empty() + (a + b) =~= a + b);
    lemma_head_end(a, 0);
}

/// A request that is complete or unusable stays so whatever follows it.
pub proof fn progress_is_final(buffer: Seq<u8>, more: Seq<u8>)
    requires
        !(progress_of(buffer) is More),
    ensures
        progress_of(buffer + more) == progress_of(buffer),
{
    lemma_head_end(buffer, 0);
    headers_stay(buffer, more, 0);
    let end = head_end(buffer, 0);
    assert((buffer + more).take(end) =~= buffer.take(end));
    match head_of(buffer.take(end)) {
        Ok(head) => {
            if head.content_length >= 0 {
                assert((buffer + more).subrange(end + 4, end + 4 + head.content_length)
                    =~= buffer.subrange(end + 4, end + 4 + head.content_length));
            }
        },
        Err(_) => {},
    }
}

} // verus!

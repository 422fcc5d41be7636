//! Device buffers by their extents, and the copies between them.

use vstd::prelude::*;

use crate::error::{self, invalid, Error};
use crate::text::{self, push_usize};

verus! {

/// A device buffer by its extent: its elements, and the bytes of one of them.
#[derive(Clone, Copy, PartialEq, Eq, Structural, Debug)]
pub struct DeviceBuffer {
    pub len: usize,
    pub element_bytes: usize,
}

/// A copy between two buffers, in bytes.
#[derive(Clone, Copy, PartialEq, Eq, Structural, Debug)]
pub struct CopyRange {
    pub destination_offset: usize,
    pub source_offset: usize,
    pub bytes: usize,
}

/// The text for an offset behind the end.
pub open spec fn offset_text(offset: nat, len: nat) -> Seq<char> {
    "buffer offset "@ + text::decimal(offset) + " exceeds length "@ + text::decimal(len)
}

/// The text for host data of another length.
pub open spec fn host_text(host: nat, device: nat) -> Seq<char> {
    "host length "@ + text::decimal(host) + " does not match device length "@ + text::decimal(
        device,
    )
}

/// The text for a source of another length.
pub open spec fn source_text(source: nat, destination: nat) -> Seq<char> {
    "source length "@ + text::decimal(source) + " does not match destination length "@
        + text::decimal(destination)
}

/// The text for a copy that does not fit.
pub open spec fn range_text(
    destination: nat,
    source: nat,
    destination_offset: nat,
    source_offset: nat,
    len: nat,
) -> Seq<char> {
    "invalid D2D range: destination length "@ + text::decimal(destination) + ", source length "@
        + text::decimal(source) + ", destination_offset="@ + text::decimal(destination_offset)
        + ", source_offset="@ + text::decimal(source_offset) + ", len="@ + text::decimal(len)
}

fn pair_error(first: &str, a: usize, second: &str, b: usize) -> (e: Error)
    ensures
        error::is_invalid(
            e,
            first@ + text::decimal(a as nat) + second@ + text::decimal(b as nat),
        ),
{
    let mut text = first.to_owned();
    push_usize(&mut text, a);
    text.append(second);
    push_usize(&mut text, b);
    Error::InvalidInput(text)
}

impl DeviceBuffer {
    /// A buffer that a machine word can number the bytes of.
    pub open spec fn wf(&self) -> bool {
        self.len > 0 && self.element_bytes > 0 && self.len * self.element_bytes <= usize::MAX
    }

    /// A new buffer. A buffer has elements, and its bytes can be numbered.
    pub fn new(len: usize, element_bytes: usize) -> (buffer: Result<DeviceBuffer, Error>)
        requires
            element_bytes > 0,
        ensures
            match buffer {
                Ok(x) => x.wf() && x.len == len && x.element_bytes == element_bytes,
                Err(e) => if len == 0 {
                    error::is_invalid(e, "device buffer length must be non-zero"@)
                } else {
                    len * element_bytes > usize::MAX && error::is_invalid(
                        e,
                        "device buffer size overflow"@,
                    )
                },
            },
    {
        if len == 0 {
            return Err(invalid("device buffer length must be non-zero"));
        }
        match len.checked_mul(element_bytes) {
            Some(_) => Ok(DeviceBuffer { len, element_bytes }),
            None => Err(invalid("device buffer size overflow")),
        }
    }

    /// The bytes of the buffer.
    pub fn byte_len(&self) -> (bytes: usize)
        requires
            self.wf(),
        ensures
            bytes == self.len * self.element_bytes,
    {
        self.len * self.element_bytes
    }

    /// The number of elements.
    pub fn len(&self) -> (len: usize)
        ensures
            len == self.len,
    {
        self.len
    }

    /// Whether the buffer has no elements.
    pub fn is_empty(&self) -> (empty: bool)
        ensures
            empty == (self.len == 0),
    {
        self.len == 0
    }

    /// The bytes in front of an element. The end of the buffer is a place too.
    pub fn as_ptr_at(&self, offset: usize) -> (bytes: Result<usize, Error>)
        requires
            self.wf(),
        ensures
            match bytes {
                Ok(b) => offset <= self.len && b == offset * self.element_bytes && b <= self.len
                    * self.element_bytes,
                Err(e) => offset > self.len && error::is_invalid(
                    e,
                    offset_text(offset as nat, self.len as nat),
                ),
            },
    {
        if offset > self.len {
            return Err(pair_error("buffer offset ", offset, " exceeds length ", self.len));
        }
        proof {
            lemma_part(offset as int, self.len as int, self.element_bytes as int);
        }
        Ok(offset * self.element_bytes)
    }

    /// The bytes to copy from host data, which must have as many elements as the buffer.
    pub fn copy_from_host(&self, host: usize) -> (bytes: Result<usize, Error>)
        requires
            self.wf(),
        ensures
            match bytes {
                Ok(b) => host == self.len && b == self.len * self.element_bytes,
                Err(e) => host != self.len && error::is_invalid(
                    e,
                    host_text(host as nat, self.len as nat),
                ),
            },
    {
        if host != self.len {
            return Err(
                pair_error("host length ", host, " does not match device length ", self.len),
            );
        }
        Ok(self.byte_len())
    }

    /// The bytes to copy from a whole buffer, which must have as many elements.
    pub fn copy_from_device(&self, source: &DeviceBuffer) -> (bytes: Result<usize, Error>)
        requires
            self.wf(),
        ensures
            match bytes {
                Ok(b) => source.len == self.len && b == self.len * self.element_bytes,
                Err(e) => source.len != self.len && error::is_invalid(
                    e,
                    source_text(source.len as nat, self.len as nat),
                ),
            },
    {
        if source.len != self.len {
            return Err(
                pair_error(
                    "source length ",
                    source.len,
                    " does not match destination length ",
                    self.len,
                ),
            );
        }
        Ok(self.byte_len())
    }

    /// A copy of `len` elements of `source` into this buffer: it stays within both.
    pub fn copy_from_device_range_at(
        &self,
        destination_offset: usize,
        source: &DeviceBuffer,
        source_offset: usize,
        len: usize,
    ) -> (range: Result<CopyRange, Error>)
        requires
            self.wf(),
            source.wf(),
            source.element_bytes == self.element_bytes,
            destination_offset + len <= usize::MAX,
            source_offset + len <= usize::MAX,
        ensures
            ({
                let fits = destination_offset + len <= self.len && source_offset + len
                    <= source.len;
                match range {
                    Ok(r) => {
                        &&& fits
                        &&& r.bytes == len * self.element_bytes
                        &&& r.destination_offset == destination_offset * self.element_bytes
                        &&& r.source_offset == source_offset * self.element_bytes
                        &&& r.destination_offset + r.bytes <= self.len * self.element_bytes
                        &&& r.source_offset + r.bytes <= source.len * source.element_bytes
                    },
                    Err(e) => !fits && error::is_invalid(
                        e,
                        range_text(
                            self.len as nat,
                            source.len as nat,
                            destination_offset as nat,
                            source_offset as nat,
                            len as nat,
                        ),
                    ),
                }
            }),
    {
        if destination_offset + len > self.len || source_offset + len > source.len {
            let mut text = "invalid D2D range: destination length ".to_owned();
            push_usize(&mut text, self.len);
            text.append(", source length ");
            push_usize(&mut text, source.len);
            text.append(", destination_offset=");
            push_usize(&mut text, destination_offset);
            text.append(", source_offset=");
            push_usize(&mut text, source_offset);
            text.append(", len=");
            push_usize(&mut text, len);
            return Err(Error::InvalidInput(text));
        }
        proof {
            let width = self.element_bytes as int;
            lemma_part(destination_offset + len, self.len as int, width);
            lemma_part(source_offset + len, source.len as int, width);
            lemma_sum(destination_offset as int, len as int, width);
            lemma_sum(source_offset as int, len as int, width);
        }
        Ok(
            CopyRange {
                destination_offset: destination_offset * self.element_bytes,
                source_offset: source_offset * self.element_bytes,
                bytes: len * self.element_bytes,
            },
        )
    }
}

impl DeviceBuffer {
    /// A copy of `len` elements of `source` to the start of this buffer.
    pub fn copy_from_device_range(&self, source: &DeviceBuffer, source_offset: usize, len: usize)
        -> (range: Result<CopyRange, Error>)
        requires
            self.wf(),
            source.wf(),
            source.element_bytes == self.element_bytes,
            source_offset + len <= usize::MAX,
        ensures
            match range {
                Ok(r) => {
                    &&& len <= self.len && source_offset + len <= source.len
                    &&& r == (CopyRange {
                        destination_offset: 0,
                        source_offset: (source_offset * self.element_bytes) as usize,
                        bytes: (len * self.element_bytes) as usize,
                    })
                    &&& r.bytes <= self.len * self.element_bytes
                    &&& r.source_offset + r.bytes <= source.len * source.element_bytes
                },
                Err(e) => {
                    &&& len > self.len || source_offset + len > source.len
                    &&& error::is_invalid(
                        e,
                        range_text(
                            self.len as nat,
                            source.len as nat,
                            0,
                            source_offset as nat,
                            len as nat,
                        ),
                    )
                },
            },
    {
        self.copy_from_device_range_at(0, source, source_offset, len)
    }
}

proof fn lemma_part(part: int, len: int, width: int)
    requires
        0 <= part <= len,
        0 <= width,
    ensures
        0 <= part * width <= len * width,
{
    assert(0 <= part * width <= len * width) by (nonlinear_arith)
        requires
            0 <= part <= len,
            0 <= width,
    ;
}

proof fn lemma_sum(a: int, b: int, width: int)
    requires
        0 <= a,
        0 <= b,
        0 <= width,
    ensures
        (a + b) * width == a * width + b * width,
        0 <= a * width,
        0 <= b * width,
{
    assert((a + b) * width == a * width + b * width) by (nonlinear_arith);
    assert(0 <= a * width) by (nonlinear_arith)
        requires
            0 <= a,
            0 <= width,
    ;
    assert(0 <= b * width) by (nonlinear_arith)
        requires
            0 <= b,
            0 <= width,
    ;
}

} // verus!

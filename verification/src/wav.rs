//! WAV files: sixteen-bit mono samples behind a header of 44 bytes.

use vstd::prelude::*;

use crate::error::{self, invalid, Error};
use crate::lists::append_all;

verus! {

/// Two bytes, the lower one first.
pub open spec fn le16(n: int) -> Seq<u8> {
    seq![(n % 256) as u8, ((n / 256) % 256) as u8]
}

/// Four bytes, the lowest one first.
pub open spec fn le32(n: int) -> Seq<u8> {
    seq![
        (n % 256) as u8,
        ((n / 256) % 256) as u8,
        ((n / 65536) % 256) as u8,
        ((n / 16777216) % 256) as u8,
    ]
}

/// The sixteen bits of a signed sample, as a number from 0 to 65535.
pub open spec fn sample_word(sample: i16) -> int {
    if sample < 0 {
        sample + 65536
    } else {
        sample as int
    }
}

/// The samples, two bytes each, the lower one first.
pub open spec fn pcm16(samples: Seq<i16>) -> Seq<u8>
    decreases samples.len(),
{
    if samples.len() == 0 {
        Seq::empty()
    } else {
        pcm16(samples.drop_last()) + le16(sample_word(samples.last()))
    }
}

/// The header of a file with `data` bytes of samples: one channel, sixteen bits.
pub open spec fn wav_header(sample_rate: int, data: int) -> Seq<u8> {
    seq![82u8, 73, 70, 70] + le32(36 + data) + seq![87u8, 65, 86, 69, 102, 109, 116, 32] + le32(16)
        + le16(1) + le16(1) + le32(sample_rate) + le32(sample_rate * 2) + le16(2) + le16(16) + seq![
        100u8,
        97,
        116,
        97,
    ] + le32(data)
}

fn push16(out: &mut Vec<u8>, n: u16)
    ensures
        final(out)@ == old(out)@ + le16(n as int),
{
    out.push((n % 256) as u8);
    out.push((n / 256) as u8);
    proof {
        assert(out@ =~= old(out)@ + le16(n as int));
    }
}

fn push32(out: &mut Vec<u8>, n: u32)
    ensures
        final(out)@ == old(out)@ + le32(n as int),
{
    out.push((n % 256) as u8);
    out.push(((n / 256) % 256) as u8);
    out.push(((n / 65536) % 256) as u8);
    out.push((n / 16777216) as u8);
    proof {
        assert(out@ =~= old(out)@ + le32(n as int));
    }
}

/// Appends the samples, two bytes each, the lower one first.
pub fn push_samples(out: &mut Vec<u8>, samples: &[i16])
    ensures
        final(out)@ == old(out)@ + pcm16(samples@),
{
    let ghost before = out@;
    let mut index: usize = 0;
    proof {
        assert(samples@.take(0) =~= Seq::<i16>::empty());
        assert(before + Seq::<u8>::empty() =~= before);
    }
    while index < samples.len()
        invariant
            index <= samples@.len(),
            out@ == before + pcm16(samples@.take(index as int)),
        decreases samples@.len() - index,
    {
        let sample: i32 = samples[index] as i32;
        let word: u16 = if sample < 0 {
            (sample + 65536) as u16
        } else {
            sample as u16
        };
        push16(out, word);
        proof {
            let grown = samples@.take(index as int + 1);
            assert(grown.drop_last() =~= samples@.take(index as int));
            assert(grown.last() == samples@[index as int]);
            assert(out@ =~= before + pcm16(grown));
        }
        index += 1;
    }
    proof {
        assert(samples@.take(samples@.len() as int) =~= samples@);
    }
}

/// The samples as bytes, the lower byte of each first.
pub fn samples_to_pcm16_bytes(samples: &[i16]) -> (bytes: Vec<u8>)
    ensures
        bytes@ == pcm16(samples@),
{
    let mut bytes: Vec<u8> = Vec::new();
    push_samples(&mut bytes, samples);
    proof {
        assert(bytes@ =~= pcm16(samples@));
    }
    bytes
}

/// A whole WAV file.
pub fn to_wav_bytes(samples: &[i16], sample_rate: u32) -> (file: Result<Vec<u8>, Error>)
    requires
        sample_rate * 2 <= u32::MAX,
    ensures
        match file {
            Ok(bytes) => samples@.len() * 2 <= u32::MAX - 36 && bytes@ == wav_header(
                sample_rate as int,
                2 * samples@.len() as int,
            ) + pcm16(samples@),
            Err(e) => samples@.len() * 2 > u32::MAX - 36 && error::is_invalid(
                e,
                "wav is too large"@,
            ),
        },
{
    if samples.len() > 2147483629 {
        return Err(invalid("wav is too large"));
    }
    let data: u32 = 2 * (samples.len() as u32);
    let mut bytes: Vec<u8> = Vec::new();
    append_all(&mut bytes, &[82, 73, 70, 70]);
    push32(&mut bytes, 36 + data);
    append_all(&mut bytes, &[87, 65, 86, 69, 102, 109, 116, 32]);
    push32(&mut bytes, 16);
    push16(&mut bytes, 1);
    push16(&mut bytes, 1);
    push32(&mut bytes, sample_rate);
    push32(&mut bytes, sample_rate * 2);
    push16(&mut bytes, 2);
    push16(&mut bytes, 16);
    append_all(&mut bytes, &[100, 97, 116, 97]);
    push32(&mut bytes, data);
    proof {
        assert(bytes@ =~= wav_header(sample_rate as int, 2 * samples@.len() as int));
    }
    push_samples(&mut bytes, samples);
    Ok(bytes)
}

/// The samples take two bytes each.
pub proof fn pcm_length(samples: Seq<i16>)
    ensures
        pcm16(samples).len() == 2 * samples.len(),
    decreases samples.len(),
{
    if samples.len() > 0 {
        pcm_length(samples.drop_last());
    }
}

/// Sample `i` stands in bytes `2 * i` and `2 * i + 1`.
pub proof fn pcm_holds_samples(samples: Seq<i16>, i: int)
    requires
        0 <= i < samples.len(),
    ensures
        pcm16(samples).len() == 2 * samples.len(),
        pcm16(samples)[2 * i] + 256 * pcm16(samples)[2 * i + 1] == sample_word(samples[i]),
    decreases samples.len(),
{
    pcm_length(samples);
    let rest = samples.drop_last();
    pcm_length(rest);
    if i < rest.len() {
        pcm_holds_samples(rest, i);
        assert(rest[i] == samples[i]);
    } else {
        assert(pcm16(samples)[2 * i] == le16(sample_word(samples.last()))[0]);
        assert(pcm16(samples)[2 * i + 1] == le16(sample_word(samples.last()))[1]);
    }
}

/// Two lists of samples with the same bytes are the same.
pub proof fn pcm_keeps_samples(a: Seq<i16>, b: Seq<i16>)
    requires
        pcm16(a) == pcm16(b),
    ensures
        a == b,
{
    pcm_length(a);
    pcm_length(b);
    assert forall|i: int| 0 <= i < a.len() implies a[i] == b[i] by {
        pcm_holds_samples(a, i);
        pcm_holds_samples(b, i);
    }
    assert(a =~= b);
}

/// The header has 44 bytes, and its two length fields count what follows them.
pub proof fn wav_lengths(samples: Seq<i16>, sample_rate: u32)
    requires
        samples.len() * 2 <= u32::MAX - 36,
        sample_rate * 2 <= u32::MAX,
    ensures
        ({
            let header = wav_header(sample_rate as int, 2 * samples.len() as int);
            let file = header + pcm16(samples);
            &&& header.len() == 44
            &&& file.subrange(4, 8) == le32(file.len() - 8)
            &&& file.subrange(40, 44) == le32(file.len() - 44)
        }),
{
    pcm_length(samples);
    let header = wav_header(sample_rate as int, 2 * samples.len() as int);
    let file = header + pcm16(samples);
    assert(file.subrange(4, 8) =~= le32(file.len() - 8));
    assert(file.subrange(40, 44) =~= le32(file.len() - 44));
}

} // verus!

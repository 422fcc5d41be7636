//! What stored numbers and samples mean.

use vstd::arithmetic::power2::pow2;
use vstd::prelude::*;

use crate::archive::{self, TensorModel};
use crate::npy;
use crate::tensor;
use crate::wav;

verus! {

/// Byte `k` of a number, the lowest one being byte zero.
pub open spec fn byte_of(n: int, k: int) -> int {
    if k == 0 {
        n % 256
    } else if k == 1 {
        (n / 256) % 256
    } else if k == 2 {
        (n / 65536) % 256
    } else {
        (n / 16777216) % 256
    }
}

/// 32-bit numbers that were written one behind the other, the lowest byte first, are read
/// back as they were, as many as are asked for and there are.
pub proof fn stored_numbers_are_read_back(numbers: Seq<u32>, data: Seq<u8>, len: int)
    requires
        data.len() == 4 * numbers.len(),
        0 <= len,
        forall|i: int, k: int|
            0 <= i < numbers.len() && 0 <= k < 4 ==> data[4 * i + k] == #[trigger] byte_of(
                numbers[i] as int,
                k,
            ),
    ensures
        tensor::f32_values(data, len) == numbers.take(
            if len <= numbers.len() {
                len
            } else {
                numbers.len() as int
            },
        ),
{
    let read = tensor::f32_values(data, len);
    let n = if len <= numbers.len() {
        len
    } else {
        numbers.len() as int
    };
    assert(read.len() == n);
    assert forall|i: int| 0 <= i < n implies read[i] == numbers[i] by {
        lemma_four_bytes(data, 4 * i, numbers[i] as int);
    }
    assert(read =~= numbers.take(n));
}

/// Brain floats are the upper halves of 32-bit numbers: a stored half is read as the number
/// with that upper half and nothing below it.
pub proof fn stored_halves_are_read_back(halves: Seq<u16>, data: Seq<u8>, len: int)
    requires
        data.len() == 2 * halves.len(),
        0 <= len,
        forall|i: int, k: int|
            0 <= i < halves.len() && 0 <= k < 2 ==> data[2 * i + k] == #[trigger] byte_of(
                halves[i] as int,
                k,
            ),
    ensures
        ({
            let read = tensor::bf16_values(data, len);
            &&& read.len() == if len <= halves.len() {
                len
            } else {
                halves.len() as int
            }
            &&& forall|i: int|
                0 <= i < read.len() ==> #[trigger] read[i] / 65536 == halves[i] && read[i] % 65536
                    == 0
        }),
{
    let read = tensor::bf16_values(data, len);
    assert forall|i: int| 0 <= i < read.len() implies #[trigger] read[i] / 65536 == halves[i]
        && read[i] % 65536 == 0 by {
        assert(data[2 * i + 0] == byte_of(halves[i] as int, 0));
        assert(data[2 * i + 1] == byte_of(halves[i] as int, 1));
    }
}

/// Only the two element types that can be told apart are read, each in its own way.
pub proof fn element_types_are_told_apart(
    name: Seq<char>,
    dtype: Seq<char>,
    data: Seq<u8>,
    len: int,
)
    ensures
        dtype == "F32"@ ==> tensor::values_of(name, dtype, data, len) == Ok::<Seq<u32>, Seq<char>>(
            tensor::f32_values(data, len),
        ),
        dtype == "BF16"@ ==> tensor::values_of(name, dtype, data, len) == Ok::<
            Seq<u32>,
            Seq<char>,
        >(tensor::bf16_values(data, len)),
        dtype != "F32"@ && dtype != "BF16"@ ==> tensor::values_of(name, dtype, data, len) is Err,
{
    reveal_strlit("F32");
    reveal_strlit("BF16");
    assert("F32"@.len() == 3 && "BF16"@.len() == 4);
}

/// The matrix of a linear layer is stored by its outputs and given by its inputs: the weight
/// from input `i` to output `o` is the stored one of row `o` and column `i`.
pub proof fn linear_layers_are_given_by_input(
    name: Seq<char>,
    t: TensorModel,
    values: Seq<u32>,
    i: int,
    o: int,
)
    requires
        t.shape.len() == 2,
        tensor::values_of(name, t.dtype, t.data, t.shape[0] * t.shape[1]) == Ok::<
            Seq<u32>,
            Seq<char>,
        >(values),
        values.len() == t.shape[0] * t.shape[1],
        0 <= o < t.shape[0],
        0 <= i < t.shape[1],
    ensures
        tensor::linear_values(name, t) matches Ok((weights, inputs, outputs)) && inputs
            == t.shape[1] && outputs == t.shape[0] && weights.len() == inputs * outputs && weights[i
            * outputs + o] == values[o * inputs + i],
{
    tensor::transpose_swaps_indices(values, t.shape[0] as int, t.shape[1] as int, o, i);
    assert(t.shape[0] * t.shape[1] == t.shape[1] * t.shape[0]) by (nonlinear_arith);
    assert(0 <= t.shape[0] * t.shape[1]) by (nonlinear_arith);
}

/// Vectors have one dimension and matrices two; other tensors are refused for their rank,
/// and tensors of another shape than expected for their shape.
pub proof fn shapes_are_checked(name: Seq<char>, t: TensorModel, expected: Seq<usize>)
    ensures
        t.shape.len() != 1 ==> tensor::vector_values(name, t) is Err,
        t.shape.len() != 2 ==> tensor::linear_values(name, t) is Err,
        t.shape != expected ==> tensor::shaped_values(name, t, expected) is Err,
        t.shape.len() == 1 && t.dtype == "F32"@ ==> tensor::vector_values(name, t) == Ok::<
            Seq<u32>,
            Seq<char>,
        >(tensor::f32_values(t.data, t.shape[0] as int)),
{
}

/// The samples of a file lie behind its header of 44 bytes, two bytes each, the lower one
/// first, negative ones counted down from 65536.
pub proof fn samples_lie_behind_the_header(header: Seq<u8>, samples: Seq<i16>, i: int)
    requires
        header.len() == 44,
        0 <= i < samples.len(),
    ensures
        ({
            let file = header + wav::pcm16(samples);
            let word = file[44 + 2 * i] + 256 * file[44 + 2 * i + 1];
            &&& file.len() == 44 + 2 * samples.len()
            &&& samples[i] == if word < 32768 {
                word
            } else {
                word - 65536
            }
        }),
{
    let file = header + wav::pcm16(samples);
    wav::pcm_length(samples);
    wav::pcm_holds_samples(samples, i);
    assert(file[44 + 2 * i] == wav::pcm16(samples)[2 * i]);
    assert(file[44 + 2 * i + 1] == wav::pcm16(samples)[2 * i + 1]);
}

/// A number in four bytes from byte `at` on.
pub open spec fn number_at(bytes: Seq<u8>, at: int) -> int {
    bytes[at] + 256 * bytes[at + 1] + 65536 * bytes[at + 2] + 16777216 * bytes[at + 3]
}

/// A number in two bytes from byte `at` on.
pub open spec fn short_at(bytes: Seq<u8>, at: int) -> int {
    bytes[at] + 256 * bytes[at + 1]
}

/// The header of a file says how long the file is and what its samples are: one channel of
/// sixteen bits, so many a second, two bytes each.
#[verifier::spinoff_prover]
#[verifier::rlimit(60)]
pub proof fn files_say_what_their_samples_are(rate: int, data: int)
    requires
        0 <= data <= u32::MAX - 36,
        0 <= 2 * rate <= u32::MAX,
    ensures
        ({
            let header = wav::wav_header(rate, data);
            &&& header.len() == 44
            &&& header.subrange(0, 4) == seq![82u8, 73, 70, 70]
            &&& number_at(header, 4) == data + 36
            &&& header.subrange(8, 16) == seq![87u8, 65, 86, 69, 102, 109, 116, 32]
            &&& number_at(header, 16) == 16
            &&& short_at(header, 20) == 1
            &&& short_at(header, 22) == 1
            &&& number_at(header, 24) == rate
            &&& number_at(header, 28) == 2 * rate
            &&& short_at(header, 32) == 2
            &&& short_at(header, 34) == 16
            &&& header.subrange(36, 40) == seq![100u8, 97, 116, 97]
            &&& number_at(header, 40) == data
        }),
{
    let header = wav::wav_header(rate, data);
    assert(header.subrange(0, 4) =~= seq![82u8, 73, 70, 70]);
    assert(header.subrange(4, 8) =~= wav::le32(36 + data));
    assert(header.subrange(8, 16) =~= seq![87u8, 65, 86, 69, 102, 109, 116, 32]);
    assert(header.subrange(16, 20) =~= wav::le32(16));
    assert(header.subrange(20, 22) =~= wav::le16(1));
    assert(header.subrange(22, 24) =~= wav::le16(1));
    assert(header.subrange(24, 28) =~= wav::le32(rate));
    assert(header.subrange(28, 32) =~= wav::le32(rate * 2));
    assert(header.subrange(32, 34) =~= wav::le16(2));
    assert(header.subrange(34, 36) =~= wav::le16(16));
    assert(header.subrange(36, 40) =~= seq![100u8, 97, 116, 97]);
    assert(header.subrange(40, 44) =~= wav::le32(data));
    lemma_number(header, 4, 36 + data);
    lemma_number(header, 16, 16);
    lemma_number(header, 24, rate);
    lemma_number(header, 28, rate * 2);
    lemma_number(header, 40, data);
    lemma_short(header, 20, 1);
    lemma_short(header, 22, 1);
    lemma_short(header, 32, 2);
    lemma_short(header, 34, 16);
}

proof fn lemma_number(bytes: Seq<u8>, at: int, n: int)
    requires
        0 <= at,
        at + 4 <= bytes.len(),
        0 <= n <= u32::MAX,
        bytes.subrange(at, at + 4) == wav::le32(n),
    ensures
        number_at(bytes, at) == n,
{
    let part = bytes.subrange(at, at + 4);
    assert(part[0] == bytes[at] && part[1] == bytes[at + 1] && part[2] == bytes[at + 2] && part[3]
        == bytes[at + 3]);
    lemma_le32(n);
}

proof fn lemma_short(bytes: Seq<u8>, at: int, n: int)
    requires
        0 <= at,
        at + 2 <= bytes.len(),
        0 <= n < 65536,
        bytes.subrange(at, at + 2) == wav::le16(n),
    ensures
        short_at(bytes, at) == n,
{
    let part = bytes.subrange(at, at + 2);
    assert(part[0] == bytes[at] && part[1] == bytes[at + 1]);
}

proof fn lemma_le32(n: int)
    requires
        0 <= n <= u32::MAX,
    ensures
        wav::le32(n).len() == 4,
        wav::le32(n)[0] + 256 * wav::le32(n)[1] + 65536 * wav::le32(n)[2] + 16777216 * wav::le32(
            n,
        )[3] == n,
{
}

proof fn lemma_power_is_pow2(n: nat)
    ensures
        npy::power(n) == pow2(n),
    decreases n,
{
    vstd::arithmetic::power2::lemma2_to64();
    if n > 0 {
        lemma_power_is_pow2((n - 1) as nat);
        vstd::arithmetic::power2::lemma_pow2_unfold(n);
    }
}

/// A stored number is rounded to the whole number next to it. The 32 bits of a number are
/// its sign, its exponent, and its fraction, to which a leading one belongs where the
/// exponent is not zero; a number that lies half way is rounded away from zero.
pub proof fn stored_codes_are_rounded(bits: u32)
    requires
        (bits / 8388608) % 256 < 255,
    ensures
        ({
            let exponent = (bits as int / 8388608) % 256;
            let fraction = bits as int % 8388608;
            let significand = if exponent == 0 {
                fraction
            } else {
                fraction + 8388608
            };
            let shift = (if exponent == 0 {
                1
            } else {
                exponent
            }) - 150;
            let size = npy::rounded_size(bits);
            &&& shift >= 0 ==> size == significand * pow2(shift as nat)
            &&& shift < 0 ==> {
                let unit = pow2((-shift) as nat) as int;
                2 * (unit * size) - unit <= 2 * significand < 2 * (unit * size) + unit
            }
            &&& forall|low: int, high: int|
                low <= 0 <= high ==> #[trigger] npy::rounded(bits, low, high) == {
                    let whole = if bits < 0x8000_0000 {
                        size
                    } else {
                        -size
                    };
                    if whole < low {
                        low
                    } else if whole > high {
                        high
                    } else {
                        whole
                    }
                }
        }),
{
    let exponent = (bits as int / 8388608) % 256;
    let place = if exponent == 0 {
        1
    } else {
        exponent
    };
    let significand = npy::significand_of(bits);
    let size = npy::rounded_size(bits);
    if place >= 150 {
        lemma_power_is_pow2((place - 150) as nat);
    } else {
        let unit = npy::power((150 - place) as nat);
        let half = npy::power((149 - place) as nat);
        lemma_power_is_pow2((150 - place) as nat);
        lemma_power_is_pow2((149 - place) as nat);
        vstd::arithmetic::power2::lemma_pow2_pos((149 - place) as nat);
        assert(unit == 2 * half);
        vstd::arithmetic::div_mod::lemma_fundamental_div_mod(significand + half, unit);
        vstd::arithmetic::div_mod::lemma_mod_bound(significand + half, unit);
    }
}

/// What is no number is read as zero, and infinities as the bounds.
pub proof fn stored_codes_that_are_no_numbers(bits: u32, low: int, high: int)
    requires
        (bits / 8388608) % 256 == 255,
    ensures
        bits % 8388608 != 0 ==> npy::rounded(bits, low, high) == 0,
        bits % 8388608 == 0 && bits < 0x8000_0000 ==> npy::rounded(bits, low, high) == high,
        bits % 8388608 == 0 && bits >= 0x8000_0000 ==> npy::rounded(bits, low, high) == low,
{
}

/// The header of an array file lies behind its magic bytes, its version and its own length,
/// which takes two bytes in the first version and four in the second and third.
pub proof fn array_files_say_how_long_their_header_is(bytes: Seq<u8>)
    requires
        bytes.len() >= 12,
    ensures
        npy::is_npy(bytes) <==> bytes[0] == 0x93 && bytes[1] == 78 && bytes[2] == 85 && bytes[3]
            == 77 && bytes[4] == 80 && bytes[5] == 89,
        bytes[6] == 1 ==> npy::header_span(bytes) == Some(
            (10int, 10 + bytes[8] + 256 * bytes[9]),
        ),
        bytes[6] == 2 || bytes[6] == 3 ==> npy::header_span(bytes) == Some(
            (
                12int,
                12 + bytes[8] + 256 * bytes[9] + 65536 * bytes[10] + 16777216 * bytes[11],
            ),
        ),
        bytes[6] != 1 && bytes[6] != 2 && bytes[6] != 3 ==> npy::header_span(bytes) is None,
        npy::is_code_shape(seq![bytes.len() as usize, 16], false),
        npy::is_code_shape(seq![1, bytes.len() as usize, 16], true),
{
    let magic = seq![147u8, 78, 85, 77, 80, 89];
    if bytes[0] == 0x93 && bytes[1] == 78 && bytes[2] == 85 && bytes[3] == 77 && bytes[4] == 80
        && bytes[5] == 89 {
        assert(bytes.take(6) =~= magic);
    } else if npy::is_npy(bytes) {
        assert(bytes.take(6)[0] == magic[0] && bytes.take(6)[1] == magic[1] && bytes.take(6)[2]
            == magic[2] && bytes.take(6)[3] == magic[3] && bytes.take(6)[4] == magic[4]
            && bytes.take(6)[5] == magic[5]);
    }
}

/// The numbers of an array lie behind its header: as many as its shape counts, or the file is
/// refused as truncated.
pub proof fn arrays_have_all_their_numbers(
    bytes: Seq<u8>,
    name: Seq<char>,
    refuse_fortran: bool,
    shape: Seq<usize>,
    numbers: Seq<u32>,
)
    requires
        npy::array_of(bytes, name, refuse_fortran) == Ok::<(Seq<usize>, Seq<u32>), Seq<char>>(
            (shape, numbers),
        ),
        crate::archive::product(shape) >= 0,
    ensures
        npy::header_span(bytes) matches Some((_, from)) && (0 <= from <= bytes.len() ==> {
            &&& bytes.len() - from >= 4 * crate::archive::product(shape)
            &&& numbers.len() == crate::archive::product(shape)
            &&& forall|i: int|
                0 <= i < numbers.len() ==> #[trigger] numbers[i] == bytes[from + 4 * i] + 256
                    * bytes[from + 4 * i + 1] + 65536 * bytes[from + 4 * i + 2] + 16777216
                    * bytes[from + 4 * i + 3]
        }),
{
    let from = match npy::header_span(bytes) {
        Some((_, from)) => from,
        None => -1,
    };
    if 0 <= from <= bytes.len() {
        let rest = bytes.skip(from);
        assert(rest.len() == bytes.len() - from);
        assert forall|i: int| 0 <= i < numbers.len() implies #[trigger] numbers[i] == bytes[from + 4
            * i] + 256 * bytes[from + 4 * i + 1] + 65536 * bytes[from + 4 * i + 2] + 16777216
            * bytes[from + 4 * i + 3] by {
            assert(numbers[i] == tensor::f32_bits(rest, i));
            assert(rest[4 * i] == bytes[from + 4 * i]);
        }
    }
}

/// An archive says in its first eight bytes, the lowest one first, how many bytes its header
/// has, and the header follows.
pub proof fn archives_say_how_long_their_header_is(
    bytes: Seq<u8>,
    header: Seq<u8>,
    low: int,
    high: int,
)
    requires
        bytes.len() >= 8 + header.len(),
        header.len() == low + 0x1_0000_0000 * high,
        0 <= low < 0x1_0000_0000,
        0 <= high < 0x1_0000_0000,
        forall|k: int| 0 <= k < 4 ==> bytes[0 + k] == #[trigger] byte_of(low, k),
        forall|k: int| 0 <= k < 4 ==> bytes[4 + k] == #[trigger] byte_of(high, k),
        bytes.subrange(8, 8 + header.len() as int) == header,
    ensures
        archive::declared(bytes) == header.len(),
        archive::header_of(bytes) == header,
{
    lemma_four_bytes(bytes, 0, low);
    lemma_four_bytes(bytes, 4, high);
}

proof fn lemma_four_bytes(bytes: Seq<u8>, at: int, n: int)
    requires
        0 <= at,
        at + 4 <= bytes.len(),
        0 <= n < 0x1_0000_0000,
        forall|k: int| 0 <= k < 4 ==> bytes[at + k] == #[trigger] byte_of(n, k),
    ensures
        bytes[at] + 256 * bytes[at + 1] + 65536 * bytes[at + 2] + 16777216 * bytes[at + 3] == n,
{
    assert(bytes[at + 0] == byte_of(n, 0));
    assert(bytes[at + 1] == byte_of(n, 1));
    assert(bytes[at + 2] == byte_of(n, 2));
    assert(bytes[at + 3] == byte_of(n, 3));
}

} // verus!

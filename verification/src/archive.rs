//! Reading tensors out of a safetensors archive.

use safetensors::tensor::Metadata;
use safetensors::{SafeTensorError, SafeTensors};
use vstd::prelude::*;

use crate::error::Error;
use crate::lists::copy_range;

verus! {

/// The parsed form of an archive, as the `safetensors` crate holds it.
#[verifier::external_type_specification]
#[verifier::external_body]
pub struct ExSafeTensors<'data>(SafeTensors<'data>);

/// Why the `safetensors` crate refuses an archive or a tensor name.
#[verifier::external_type_specification]
#[verifier::external_body]
pub struct ExSafeTensorError(SafeTensorError);

/// A tensor as an archive stores it: the name of its element type, its shape, and its
/// bytes, of which every element takes the same number.
pub struct StoredTensor {
    pub dtype: String,
    pub shape: Vec<usize>,
    pub data: Vec<u8>,
}

/// What a stored tensor holds.
pub struct TensorModel {
    pub dtype: Seq<char>,
    pub shape: Seq<usize>,
    pub data: Seq<u8>,
}

impl View for StoredTensor {
    type V = TensorModel;

    open spec fn view(&self) -> TensorModel {
        TensorModel { dtype: self.dtype@, shape: self.shape@, data: self.data@ }
    }
}

/// The product of the dimensions from the left.
pub open spec fn product(shape: Seq<usize>) -> int
    decreases shape.len(),
{
    if shape.len() == 0 {
        1
    } else {
        product(shape.drop_last()) * shape.last()
    }
}

/// The product of the dimensions from the left fits in a machine word at every step.
pub open spec fn countable(shape: Seq<usize>) -> bool {
    forall|k: int| 0 <= k <= shape.len() ==> #[trigger] product(shape.take(k)) <= usize::MAX
}

/// The tensors that a parsed archive holds, by name.
pub uninterp spec fn tensors_in(archive: SafeTensors<'_>) -> Map<Seq<char>, TensorModel>;

/// The tensors of the archive that `bytes` are, or `None` where they are no archive.
pub uninterp spec fn archive_of(bytes: Seq<u8>) -> Option<Map<Seq<char>, TensorModel>>;

/// The number of bytes that an archive declares for its header, in its first eight bytes.
pub open spec fn declared(bytes: Seq<u8>) -> int {
    bytes[0] + 0x100 * bytes[1] + 0x1_0000 * bytes[2] + 0x100_0000 * bytes[3] + 0x1_0000_0000
        * bytes[4] + 0x100_0000_0000 * bytes[5] + 0x1_0000_0000_0000 * bytes[6]
        + 0x100_0000_0000_0000 * bytes[7]
}

/// The header of an archive, which is a JSON text; empty where the bytes do not hold it.
pub open spec fn header_of(bytes: Seq<u8>) -> Seq<u8> {
    if bytes.len() < 8 || declared(bytes) > bytes.len() - 8 {
        Seq::empty()
    } else {
        bytes.subrange(8, 8 + declared(bytes))
    }
}

/// The size of the content that a header declares, which is where its last tensor ends;
/// `None` where the bytes are no header.
pub uninterp spec fn content_len(header: Seq<u8>) -> Option<usize>;

/// `serde_json::from_slice` for `safetensors::tensor::Metadata`, of which `data_len` is
/// handed out: the size of the content that the header declares is fixed by the bytes of
/// the header. Why bytes are no header is left unsaid.
#[verifier::external_body]
fn read_content_len(header: &[u8]) -> (len: Option<usize>)
    ensures
        len == content_len(header@),
{
    serde_json::from_slice::<Metadata>(header).ok().map(|metadata| metadata.data_len())
}

/// The size of the file that its header declares can be counted in a machine word.
pub open spec fn size_fits(bytes: Seq<u8>) -> bool {
    content_len(header_of(bytes)) matches Some(len) ==> len + 8 + header_of(bytes).len()
        <= usize::MAX
}

fn declares_size(bytes: &[u8]) -> (fits: bool)
    ensures
        fits == size_fits(bytes@),
{
    let size: usize = bytes.len();
    let mut header: Vec<u8> = Vec::new();
    if size >= 8 {
        let declared: u64 = bytes[0] as u64 + 0x100 * bytes[1] as u64 + 0x1_0000 * bytes[2] as u64
            + 0x100_0000 * bytes[3] as u64 + 0x1_0000_0000 * bytes[4] as u64 + 0x100_0000_0000
            * bytes[5] as u64 + 0x1_0000_0000_0000 * bytes[6] as u64 + 0x100_0000_0000_0000
            * bytes[7] as u64;
        if declared <= (size - 8) as u64 {
            header = copy_range(bytes, 8, 8 + declared as usize);
        }
    }
    proof {
        assert(header@ =~= header_of(bytes@));
    }
    match read_content_len(header.as_slice()) {
        None => true,
        Some(len) => len <= usize::MAX - 8 - header.len(),
    }
}

/// `SafeTensors::deserialize`: whether the bytes parse, and to which tensors, is fixed
/// by the bytes. Which error is reported for bytes that do not parse is left unsaid: it
/// can depend on the order in which the crate walks a hash map. The crate adds the size of
/// the content that the header declares and the size of the header without a check, so a
/// machine word must hold that sum.
#[verifier::external_body]
fn deserialize(bytes: &[u8]) -> (parsed: Result<SafeTensors<'_>, SafeTensorError>)
    requires
        size_fits(bytes@),
    ensures
        match parsed {
            Ok(archive) => archive_of(bytes@) == Some(tensors_in(archive)),
            Err(_) => archive_of(bytes@) is None,
        },
{
    SafeTensors::deserialize(bytes)
}

/// A stored tensor has the number of bytes that its shape and element type ask for.
pub open spec fn consistent(t: TensorModel) -> bool {
    &&& countable(t.shape)
    &&& t.dtype == "F32"@ ==> t.data.len() == 4 * product(t.shape)
    &&& t.dtype == "BF16"@ ==> t.data.len() == 2 * product(t.shape)
}

/// `SafeTensors::tensor`: the tensor of that name where the archive has one, copied out,
/// its element type given by its name. The crate has checked on parsing that the bytes
/// match the shape. Without such a tensor the error reads as stated.
#[verifier::external_body]
fn stored_tensor(archive: &SafeTensors<'_>, name: &str) -> (found: Result<
    StoredTensor,
    SafeTensorError,
>)
    ensures
        match found {
            Ok(tensor) => tensors_in(*archive).contains_key(name@) && tensor@ == tensors_in(
                *archive,
            )[name@] && consistent(tensor@),
            Err(why) => !tensors_in(*archive).contains_key(name@) && forall|text: String|
                vstd::string::to_string_from_display_ensures::<SafeTensorError>(&why, text)
                    ==> text@ == "tensor `"@ + name@ + "` not found"@,
        },
{
    let view = archive.tensor(name)?;
    Ok(
        StoredTensor {
            dtype: format!("{:?}", view.dtype()),
            shape: view.shape().to_vec(),
            data: view.data().to_vec(),
        },
    )
}

/// `SafeTensors::names`: the names of the tensors, in no stated order.
#[verifier::external_body]
fn stored_names(archive: &SafeTensors<'_>) -> (names: Vec<String>)
    ensures
        forall|name: Seq<char>|
            tensors_in(*archive).contains_key(name) <==> exists|i: int|
                0 <= i < names@.len() && #[trigger] names@[i]@ == name,
{
    archive.names().into_iter().map(String::from).collect()
}

/// The bytes of a safetensors file.
pub struct TensorArchive {
    pub bytes: Vec<u8>,
}

/// `e` reports that bytes cannot be read as an archive.
pub open spec fn is_parse_error(e: Error) -> bool {
    e matches Error::InvalidInput(text) && exists|why: Seq<char>|
        text@ == #[trigger] ("failed to parse safetensors: "@ + why)
}

/// The text for a tensor that an archive lacks.
pub open spec fn missing_text(name: Seq<char>) -> Seq<char> {
    "failed to load "@ + name + ": tensor `"@ + name + "` not found"@
}

impl TensorArchive {
    /// The tensors of the archive, or `None` where the bytes are no archive or declare
    /// more content than a machine word can count.
    pub open spec fn contents(&self) -> Option<Map<Seq<char>, TensorModel>> {
        if size_fits(self.bytes@) {
            archive_of(self.bytes@)
        } else {
            None
        }
    }

    fn parse(&self) -> (parsed: Result<SafeTensors<'_>, Error>)
        ensures
            match parsed {
                Ok(archive) => self.contents() == Some(tensors_in(archive)),
                Err(e) => self.contents() is None && is_parse_error(e),
            },
    {
        if !declares_size(self.bytes.as_slice()) {
            let mut text = "failed to parse safetensors: ".to_owned();
            text.append("incomplete metadata, file not fully covered");
            return Err(Error::InvalidInput(text));
        }
        match deserialize(self.bytes.as_slice()) {
            Ok(archive) => Ok(archive),
            Err(why) => Err(parse_error(&why)),
        }
    }

    /// The tensor of that name.
    pub fn tensor(&self, name: &str) -> (found: Result<StoredTensor, Error>)
        ensures
            self.contents() is None ==> (found matches Err(e) && is_parse_error(e)),
            self.contents() matches Some(tensors) ==> match found {
                Ok(tensor) => tensors.contains_key(name@) && tensor@ == tensors[name@]
                    && consistent(tensor@),
                Err(e) => !tensors.contains_key(name@) && crate::error::is_invalid(
                    e,
                    missing_text(name@),
                ),
            },
    {
        let archive = match self.parse() {
            Ok(archive) => archive,
            Err(e) => {
                return Err(e);
            },
        };
        match stored_tensor(&archive, name) {
            Ok(tensor) => Ok(tensor),
            Err(why) => {
                let mut text = "failed to load ".to_owned();
                text.append(name);
                text.append(": ");
                let reason: String = why.to_string();
                text.append(reason.as_str());
                proof {
                    reveal_strlit(": ");
                    reveal_strlit("tensor `");
                    reveal_strlit(": tensor `");
                    assert(": "@ + "tensor `"@ =~= ": tensor `"@);
                    assert(text@ =~= missing_text(name@));
                }
                Err(Error::InvalidInput(text))
            },
        }
    }

    /// Whether there is a tensor of that name.
    pub fn has_tensor(&self, name: &str) -> (found: Result<bool, Error>)
        ensures
            self.contents() is None ==> (found matches Err(e) && is_parse_error(e)),
            self.contents() matches Some(tensors) ==> found == Ok::<bool, Error>(
                tensors.contains_key(name@),
            ),
    {
        let archive = match self.parse() {
            Ok(archive) => archive,
            Err(e) => {
                return Err(e);
            },
        };
        let names: Vec<String> = stored_names(&archive);
        Ok(lists(&names, name))
    }
}

fn lists(names: &Vec<String>, name: &str) -> (found: bool)
    ensures
        found <==> exists|i: int| 0 <= i < names@.len() && #[trigger] names@[i]@ == name@,
{
    let wanted: String = name.to_owned();
    let mut index: usize = 0;
    while index < names.len()
        invariant
            index <= names@.len(),
            wanted@ == name@,
            forall|i: int| 0 <= i < index ==> #[trigger] names@[i]@ != name@,
        decreases names@.len() - index,
    {
        if names[index] == wanted {
            assert(names@[index as int]@ == name@);
            return true;
        }
        index += 1;
    }
    false
}

fn parse_error(why: &SafeTensorError) -> (e: Error)
    ensures
        is_parse_error(e),
{
    let mut text = "failed to parse safetensors: ".to_owned();
    let reason: String = why.to_string();
    text.append(reason.as_str());
    proof {
        assert(text@ == "failed to parse safetensors: "@ + reason@);
    }
    Error::InvalidInput(text)
}

} // verus!

//! Stored tensors as 32-bit floating-point numbers, each given by its bits.

use vstd::prelude::*;

use crate::archive::{self, StoredTensor, TensorModel};
use crate::error::{self, Error};
use crate::text::{self, push_list, push_usize};

verus! {

/// The bits of element `i` of little-endian 32-bit data.
pub open spec fn f32_bits(data: Seq<u8>, i: int) -> u32 {
    (data[4 * i] + 256 * data[4 * i + 1] + 65536 * data[4 * i + 2] + 16777216 * data[4 * i
        + 3]) as u32
}

/// The bits of element `i` of little-endian brain-float data: the upper half of the
/// 32-bit number, with a zero lower half.
pub open spec fn bf16_bits(data: Seq<u8>, i: int) -> u32 {
    (65536 * (data[2 * i] + 256 * data[2 * i + 1])) as u32
}

pub open spec fn least(a: int, b: int) -> int {
    if a <= b {
        a
    } else {
        b
    }
}

/// The first `len` elements of `data`, or as many as it holds.
pub open spec fn f32_values(data: Seq<u8>, len: int) -> Seq<u32> {
    Seq::new(least(data.len() as int / 4, len) as nat, |i: int| f32_bits(data, i))
}

/// The first `len` elements of `data`, or as many as it holds.
pub open spec fn bf16_values(data: Seq<u8>, len: int) -> Seq<u32> {
    Seq::new(least(data.len() as int / 2, len) as nat, |i: int| bf16_bits(data, i))
}

/// The text for an element type that cannot be read.
pub open spec fn dtype_text(name: Seq<char>, dtype: Seq<char>) -> Seq<char> {
    name + " has dtype "@ + dtype + ", expected F32 or BF16"@
}

/// The numbers of a stored tensor, or why they cannot be read.
pub open spec fn values_of(name: Seq<char>, dtype: Seq<char>, data: Seq<u8>, len: int) -> Result<
    Seq<u32>,
    Seq<char>,
> {
    if dtype == "F32"@ {
        Ok(f32_values(data, len))
    } else if dtype == "BF16"@ {
        Ok(bf16_values(data, len))
    } else {
        Err(dtype_text(name, dtype))
    }
}

/// A result is the one that a model foretells: the same value, or the error for an
/// unusable input with the same text.
pub open spec fn foretold(got: Result<Vec<u32>, Error>, model: Result<Seq<u32>, Seq<char>>) -> bool {
    match (got, model) {
        (Ok(values), Ok(expected)) => values@ == expected,
        (Err(e), Err(text)) => error::is_invalid(e, text),
        _ => false,
    }
}

/// The first `len` elements of little-endian 32-bit data, or as many as there are.
pub fn read_f32(data: &[u8], len: usize) -> (values: Vec<u32>)
    ensures
        values@ == f32_values(data@, len as int),
{
    let size: usize = data.len();
    let held: usize = size / 4;
    let count: usize = if held <= len {
        held
    } else {
        len
    };
    let mut values: Vec<u32> = Vec::new();
    let mut index: usize = 0;
    while index < count
        invariant
            index <= count,
            size == data@.len(),
            count * 4 <= size,
            values@.len() == index,
            forall|i: int| 0 <= i < index ==> #[trigger] values@[i] == f32_bits(data@, i),
        decreases count - index,
    {
        let low: u32 = data[4 * index] as u32 + 256 * (data[4 * index + 1] as u32);
        let high: u32 = data[4 * index + 2] as u32 + 256 * (data[4 * index + 3] as u32);
        values.push(low + 65536 * high);
        index += 1;
    }
    proof {
        assert(values@ =~= f32_values(data@, len as int));
    }
    values
}

fn read_bf16(data: &[u8], len: usize) -> (values: Vec<u32>)
    ensures
        values@ == bf16_values(data@, len as int),
{
    let size: usize = data.len();
    let held: usize = size / 2;
    let count: usize = if held <= len {
        held
    } else {
        len
    };
    let mut values: Vec<u32> = Vec::new();
    let mut index: usize = 0;
    while index < count
        invariant
            index <= count,
            size == data@.len(),
            count * 2 <= size,
            values@.len() == index,
            forall|i: int| 0 <= i < index ==> #[trigger] values@[i] == bf16_bits(data@, i),
        decreases count - index,
    {
        let half: u32 = data[2 * index] as u32 + 256 * (data[2 * index + 1] as u32);
        values.push(65536 * half);
        index += 1;
    }
    proof {
        assert(values@ =~= bf16_values(data@, len as int));
    }
    values
}

/// The first `len` numbers of a tensor, whose elements are 32-bit or brain floats.
pub fn tensor_to_f32(name: &str, dtype: &str, data: &[u8], len: usize) -> (values: Result<
    Vec<u32>,
    Error,
>)
    ensures
        foretold(values, values_of(name@, dtype@, data@, len as int)),
{
    let kind: String = dtype.to_owned();
    let f32_kind: String = "F32".to_owned();
    let bf16_kind: String = "BF16".to_owned();
    if kind == f32_kind {
        Ok(read_f32(data, len))
    } else if kind == bf16_kind {
        Ok(read_bf16(data, len))
    } else {
        let mut text = name.to_owned();
        text.append(" has dtype ");
        text.append(dtype);
        text.append(", expected F32 or BF16");
        Err(Error::InvalidInput(text))
    }
}

/// The text for a tensor of another shape than expected.
pub open spec fn shape_text(name: Seq<char>, shape: Seq<usize>, expected: Seq<usize>) -> Seq<char> {
    name + " shape "@ + text::list_text(shape) + "; expected "@ + text::list_text(expected)
}

/// The text for a tensor of another rank than expected.
pub open spec fn rank_text(name: Seq<char>, rank: nat, expected: nat) -> Seq<char> {
    name + " rank "@ + text::decimal(rank) + ", expected "@ + text::decimal(expected)
}

/// The error for a tensor of another rank than expected.
pub fn rank_error(name: &str, rank: usize, expected: usize) -> (e: Error)
    ensures
        error::is_invalid(e, rank_text(name@, rank as nat, expected as nat)),
{
    let mut text = name.to_owned();
    text.append(" rank ");
    push_usize(&mut text, rank);
    text.append(", expected ");
    push_usize(&mut text, expected);
    Error::InvalidInput(text)
}

/// Two shapes are the same.
pub fn same_shape(a: &[usize], b: &[usize]) -> (same: bool)
    ensures
        same == (a@ == b@),
{
    if a.len() != b.len() {
        return false;
    }
    let mut index: usize = 0;
    while index < a.len()
        invariant
            index <= a@.len(),
            a@.len() == b@.len(),
            forall|i: int| 0 <= i < index ==> a@[i] == b@[i],
        decreases a@.len() - index,
    {
        if a[index] != b[index] {
            return false;
        }
        index += 1;
    }
    proof {
        assert(a@ =~= b@);
    }
    true
}

/// The number of elements of a shape.
pub fn element_count(shape: &[usize]) -> (count: usize)
    requires
        archive::countable(shape@),
    ensures
        count == archive::product(shape@),
{
    let mut count: usize = 1;
    let mut index: usize = 0;
    proof {
        assert(shape@.take(0) =~= Seq::<usize>::empty());
    }
    while index < shape.len()
        invariant
            index <= shape@.len(),
            archive::countable(shape@),
            count == archive::product(shape@.take(index as int)),
        decreases shape@.len() - index,
    {
        proof {
            let grown = shape@.take(index as int + 1);
            assert(grown.drop_last() =~= shape@.take(index as int));
            assert(grown.last() == shape@[index as int]);
            assert(archive::product(grown) <= usize::MAX);
        }
        count = count * shape[index];
        index += 1;
    }
    proof {
        assert(shape@.take(shape@.len() as int) =~= shape@);
    }
    count
}

/// What `tensor_f32` gives for a stored tensor.
pub open spec fn shaped_values(
    name: Seq<char>,
    t: TensorModel,
    expected: Seq<usize>,
) -> Result<Seq<u32>, Seq<char>> {
    if t.shape != expected {
        Err(shape_text(name, t.shape, expected))
    } else {
        values_of(name, t.dtype, t.data, archive::product(expected))
    }
}

/// The numbers of a tensor that must have the expected shape.
pub fn tensor_f32(tensor: &StoredTensor, name: &str, expected_shape: &[usize]) -> (values: Result<
    Vec<u32>,
    Error,
>)
    requires
        archive::consistent(tensor@),
    ensures
        foretold(values, shaped_values(name@, tensor@, expected_shape@)),
{
    if !same_shape(tensor.shape.as_slice(), expected_shape) {
        let mut text = name.to_owned();
        text.append(" shape ");
        push_list(&mut text, tensor.shape.as_slice());
        text.append("; expected ");
        push_list(&mut text, expected_shape);
        return Err(Error::InvalidInput(text));
    }
    let len: usize = element_count(expected_shape);
    tensor_to_f32(name, tensor.dtype.as_str(), tensor.data.as_slice(), len)
}

/// The matrix of `rows` by `cols`, row by row, with its columns as rows.
pub open spec fn transposed(values: Seq<u32>, rows: int, cols: int) -> Seq<u32> {
    Seq::new((rows * cols) as nat, |i: int| values[(i % rows) * cols + i / rows])
}

/// A matrix, row by row, with its columns as rows.
pub fn transpose(values: &[u32], rows: usize, cols: usize) -> (out: Vec<u32>)
    requires
        values@.len() == rows * cols,
    ensures
        out@ == transposed(values@, rows as int, cols as int),
{
    let size: usize = values.len();
    let mut out: Vec<u32> = Vec::new();
    let mut col: usize = 0;
    proof {
        assert(0 * rows == 0) by (nonlinear_arith);
    }
    while col < cols && rows > 0
        invariant
            col <= cols,
            size == values@.len(),
            values@.len() == rows * cols,
            out@.len() == col * rows,
            forall|i: int|
                0 <= i < col * rows ==> #[trigger] out@[i] == values@[(i % (rows as int)) * cols + i
                    / (rows as int)],
        decreases cols - col,
    {
        let mut row: usize = 0;
        while row < rows
            invariant
                row <= rows,
                col < cols,
                0 < rows,
                size == values@.len(),
                values@.len() == rows * cols,
                out@.len() == col * rows + row,
                forall|i: int|
                    0 <= i < col * rows + row ==> #[trigger] out@[i] == values@[(i % (
                    rows as int)) * cols + i / (rows as int)],
            decreases rows - row,
        {
            proof {
                assert(0 <= row * cols && row * cols + col < rows * cols) by (nonlinear_arith)
                    requires
                        0 <= row < rows,
                        0 <= col < cols,
                ;
                lemma_split(col as int, rows as int, row as int);
            }
            out.push(values[row * cols + col]);
            row += 1;
        }
        proof {
            assert(col * rows + rows == (col + 1) * rows) by (nonlinear_arith);
        }
        col += 1;
    }
    proof {
        if rows == 0 {
            assert(rows * cols == 0) by (nonlinear_arith)
                requires
                    rows == 0,
            ;
            assert(col * rows == 0) by (nonlinear_arith)
                requires
                    rows == 0,
            ;
        } else {
            assert(cols * rows == rows * cols) by (nonlinear_arith);
        }
        assert(out@ =~= transposed(values@, rows as int, cols as int));
    }
    out
}

/// Quotient and remainder of `q * d + r`.
pub proof fn lemma_split(q: int, d: int, r: int)
    requires
        0 <= r < d,
    ensures
        (q * d + r) / d == q,
        (q * d + r) % d == r,
{
    vstd::arithmetic::div_mod::lemma_fundamental_div_mod_converse(q * d + r, d, q, r);
}

/// Element `(row, col)` of a matrix becomes element `(col, row)`.
pub proof fn transpose_swaps_indices(values: Seq<u32>, rows: int, cols: int, row: int, col: int)
    requires
        values.len() == rows * cols,
        0 <= row < rows,
        0 <= col < cols,
    ensures
        0 <= col * rows + row < rows * cols,
        transposed(values, rows, cols)[col * rows + row] == values[row * cols + col],
{
    assert(0 <= col * rows + row < rows * cols) by (nonlinear_arith)
        requires
            0 <= row < rows,
            0 <= col < cols,
    ;
    lemma_split(col, rows, row);
}

/// Transposing twice gives the matrix back.
pub proof fn transpose_twice(values: Seq<u32>, rows: int, cols: int)
    requires
        values.len() == rows * cols,
        rows >= 0,
        cols >= 0,
    ensures
        transposed(transposed(values, rows, cols), cols, rows) == values,
{
    let once = transposed(values, rows, cols);
    assert(rows * cols == cols * rows) by (nonlinear_arith);
    assert forall|i: int| 0 <= i < rows * cols implies transposed(once, cols, rows)[i]
        == values[i] by {
        assert(cols > 0) by (nonlinear_arith)
            requires
                0 <= i < rows * cols,
                cols >= 0,
        ;
        let row = i / cols;
        let col = i % cols;
        assert(row * cols + col == i && 0 <= row < rows) by (nonlinear_arith)
            requires
                row == i / cols,
                col == i % cols,
                cols > 0,
                0 <= i < rows * cols,
        ;
        transpose_swaps_indices(values, rows, cols, row, col);
    }
    assert(transposed(once, cols, rows) =~= values);
}

/// What `vector_f32` gives for a stored tensor.
pub open spec fn vector_values(name: Seq<char>, t: TensorModel) -> Result<Seq<u32>, Seq<char>> {
    if t.shape.len() != 1 {
        Err(rank_text(name, t.shape.len(), 1))
    } else {
        values_of(name, t.dtype, t.data, t.shape[0] as int)
    }
}

/// The numbers of a tensor that must have one dimension.
pub fn vector_f32(tensor: &StoredTensor, name: &str) -> (values: Result<Vec<u32>, Error>)
    ensures
        foretold(values, vector_values(name@, tensor@)),
{
    if tensor.shape.len() != 1 {
        return Err(rank_error(name, tensor.shape.len(), 1));
    }
    tensor_to_f32(name, tensor.dtype.as_str(), tensor.data.as_slice(), tensor.shape[0])
}

/// What `linear_weight_transposed` gives for a stored tensor: the transposed numbers,
/// and the input and output widths.
pub open spec fn linear_values(name: Seq<char>, t: TensorModel) -> Result<
    (Seq<u32>, usize, usize),
    Seq<char>,
> {
    if t.shape.len() != 2 {
        Err(rank_text(name, t.shape.len(), 2))
    } else {
        match values_of(name, t.dtype, t.data, t.shape[0] * t.shape[1]) {
            Ok(values) => Ok(
                (
                    transposed(values, t.shape[0] as int, t.shape[1] as int),
                    t.shape[1],
                    t.shape[0],
                ),
            ),
            Err(text) => Err(text),
        }
    }
}

/// The matrix of a linear layer, stored by output row and given by input row, with its
/// input and output widths.
pub fn linear_weight_transposed(tensor: &StoredTensor, name: &str) -> (weight: Result<
    (Vec<u32>, usize, usize),
    Error,
>)
    requires
        archive::consistent(tensor@),
    ensures
        match (weight, linear_values(name@, tensor@)) {
            (Ok((values, inputs, outputs)), Ok(expected)) => (values@, inputs, outputs)
                == expected,
            (Err(e), Err(text)) => error::is_invalid(e, text),
            _ => false,
        },
{
    if tensor.shape.len() != 2 {
        return Err(rank_error(name, tensor.shape.len(), 2));
    }
    let out_dim: usize = tensor.shape[0];
    let in_dim: usize = tensor.shape[1];
    proof {
        lemma_product_two(tensor.shape@);
        assert(tensor.shape@.take(2) =~= tensor.shape@);
    }
    match tensor_to_f32(
        name,
        tensor.dtype.as_str(),
        tensor.data.as_slice(),
        out_dim * in_dim,
    ) {
        Ok(values) => {
            let turned: Vec<u32> = transpose(values.as_slice(), out_dim, in_dim);
            Ok((turned, in_dim, out_dim))
        },
        Err(e) => Err(e),
    }
}

/// The product of two dimensions.
pub proof fn lemma_product_two(shape: Seq<usize>)
    requires
        shape.len() == 2,
    ensures
        archive::product(shape) == shape[0] * shape[1],
{
    reveal_with_fuel(archive::product, 3);
    assert(shape.drop_last().drop_last() =~= Seq::<usize>::empty());
    assert(1 * shape[0] == shape[0]);
}

} // verus!

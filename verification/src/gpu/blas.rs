//! Matrix products on rows, by a library that works on columns.

use vstd::prelude::*;

use crate::error::{self, Error};
use crate::gpu::status::{self, check_rocblas};
use crate::text::{self, push_usize};

verus! {

/// A matrix as `rocblas_sgemm` takes it.
#[derive(Clone, Copy, PartialEq, Eq, Structural, Debug)]
pub enum Factor {
    /// The left factor of the product on rows.
    A,
    /// The right factor of the product on rows.
    B,
}

/// The arguments of `rocblas_sgemm`. No matrix is transposed, the product is not scaled and
/// replaces the result.
#[derive(Clone, Copy, PartialEq, Eq, Structural, Debug)]
pub struct SgemmCall {
    pub m: i32,
    pub n: i32,
    pub k: i32,
    pub left: Factor,
    pub left_stride: i32,
    pub right: Factor,
    pub right_stride: i32,
    pub result_stride: i32,
}

/// The text for a buffer that is too small.
pub open spec fn small_text(matrix: Seq<char>, len: nat, product: Seq<char>, needed: nat) -> Seq<
    char,
> {
    matrix + " length "@ + text::decimal(len) + " is smaller than "@ + product + " "@
        + text::decimal(needed)
}

fn small(matrix: &str, len: usize, product: &str, needed: usize) -> (e: Error)
    ensures
        error::is_invalid(e, small_text(matrix@, len as nat, product@, needed as nat)),
{
    let mut text = matrix.to_owned();
    text.append(" length ");
    push_usize(&mut text, len);
    text.append(" is smaller than ");
    text.append(product);
    text.append(" ");
    push_usize(&mut text, needed);
    Error::InvalidInput(text)
}

/// The call that multiplies, on rows, an `m` by `k` matrix by a `k` by `n` matrix: with the
/// factors and the outer dimensions swapped.
pub open spec fn sgemm_call(m: usize, n: usize, k: usize) -> SgemmCall {
    SgemmCall {
        m: n as i32,
        n: m as i32,
        k: k as i32,
        left: Factor::B,
        left_stride: n as i32,
        right: Factor::A,
        right_stride: k as i32,
        result_stride: n as i32,
    }
}

/// The sum of the first `count` products of row `i` of `left` and column `j` of `right`,
/// where each matrix lies in memory column by column.
pub open spec fn columns_dot(
    left: spec_fn(int) -> int,
    left_stride: int,
    right: spec_fn(int) -> int,
    right_stride: int,
    i: int,
    j: int,
    count: nat,
) -> int
    decreases count,
{
    if count == 0 {
        0
    } else {
        columns_dot(left, left_stride, right, right_stride, i, j, (count - 1) as nat) + left(
            (count - 1) * left_stride + i,
        ) * right(j * right_stride + (count - 1))
    }
}

/// The sum of the first `count` products of row `i` of `a` and column `j` of `b`, where
/// each matrix lies in memory row by row.
pub open spec fn rows_dot(
    a: spec_fn(int) -> int,
    k: int,
    b: spec_fn(int) -> int,
    n: int,
    i: int,
    j: int,
    count: nat,
) -> int
    decreases count,
{
    if count == 0 {
        0
    } else {
        rows_dot(a, k, b, n, i, j, (count - 1) as nat) + a(i * k + (count - 1)) * b(
            (count - 1) * n + j,
        )
    }
}

/// With the factors swapped, the library that works on columns computes the product on
/// rows: what it puts at row `j` and column `i` of its result is entry `i`, `j` of the
/// product, and both lie at the same place in memory. (Stated with integer entries.)
pub proof fn swapped_factors_give_the_product(
    a: spec_fn(int) -> int,
    b: spec_fn(int) -> int,
    m: usize,
    n: usize,
    k: usize,
    i: int,
    j: int,
)
    requires
        m <= i32::MAX,
        n <= i32::MAX,
        k <= i32::MAX,
        0 <= i < m,
        0 <= j < n,
    ensures
        ({
            let call = sgemm_call(m, n, k);
            &&& call.left == Factor::B && call.right == Factor::A
            &&& 0 <= j < call.m && 0 <= i < call.n
            &&& columns_dot(
                b,
                call.left_stride as int,
                a,
                call.right_stride as int,
                j,
                i,
                call.k as nat,
            ) == rows_dot(a, k as int, b, n as int, i, j, k as nat)
            &&& i * call.result_stride + j == i * n + j
        }),
{
    lemma_dots(a, b, n as int, k as int, i, j, k as nat);
}

proof fn lemma_dots(
    a: spec_fn(int) -> int,
    b: spec_fn(int) -> int,
    n: int,
    k: int,
    i: int,
    j: int,
    count: nat,
)
    ensures
        columns_dot(b, n, a, k, j, i, count) == rows_dot(a, k, b, n, i, j, count),
    decreases count,
{
    if count > 0 {
        lemma_dots(a, b, n, k, i, j, (count - 1) as nat);
        let x = a(i * k + (count - 1));
        let y = b((count - 1) * n + j);
        assert(x * y == y * x) by (nonlinear_arith);
    }
}

/// A rocBLAS handle by the stream that it works on; zero stands for the default stream.
#[derive(Clone, Copy, PartialEq, Eq, Structural, Debug)]
pub struct RocblasHandle {
    pub stream: usize,
}

impl RocblasHandle {
    /// A new handle works on the default stream.
    pub fn new() -> (handle: RocblasHandle)
        ensures
            handle.stream == 0,
    {
        RocblasHandle { stream: 0 }
    }

    /// Whether the handle must be told to work on `stream`.
    pub fn must_switch(&self, stream: usize) -> (must: bool)
        ensures
            must == (self.stream != stream),
    {
        self.stream != stream
    }

    /// Takes the status of a switch to `stream`. The stream changes where it succeeded.
    pub fn set_stream(&mut self, stream: usize, status: i32) -> (checked: Result<(), Error>)
        ensures
            match checked {
                Ok(_) => status == status::SUCCESS && final(self).stream == stream,
                Err(e) => {
                    &&& status != status::SUCCESS
                    &&& final(self).stream == old(self).stream
                    &&& e matches Error::Rocblas { call, status: s } && call@
                        == "rocblas_set_stream"@ && s == status
                },
            },
    {
        match check_rocblas("rocblas_set_stream", status) {
            Ok(_) => {
                self.stream = stream;
                Ok(())
            },
            Err(e) => Err(e),
        }
    }

    /// Checks the buffers of a product on rows, and gives the call for it.
    pub fn sgemm_row_major(&self, a: usize, b: usize, c: usize, m: usize, n: usize, k: usize) -> (call: Result<
        SgemmCall,
        Error,
    >)
        requires
            m * k <= usize::MAX,
            k * n <= usize::MAX,
            m * n <= usize::MAX,
        ensures
            match call {
                Ok(call) => {
                    &&& a >= m * k && b >= k * n && c >= m * n
                    &&& call == sgemm_call(m, n, k)
                },
                Err(e) => if a < m * k {
                    error::is_invalid(e, small_text("A"@, a as nat, "m*k"@, (m * k) as nat))
                } else if b < k * n {
                    error::is_invalid(e, small_text("B"@, b as nat, "k*n"@, (k * n) as nat))
                } else {
                    c < m * n && error::is_invalid(
                        e,
                        small_text("C"@, c as nat, "m*n"@, (m * n) as nat),
                    )
                },
            },
    {
        if a < m * k {
            return Err(small("A", a, "m*k", m * k));
        }
        if b < k * n {
            return Err(small("B", b, "k*n", k * n));
        }
        if c < m * n {
            return Err(small("C", c, "m*n", m * n));
        }
        Ok(
            SgemmCall {
                m: n as i32,
                n: m as i32,
                k: k as i32,
                left: Factor::B,
                left_stride: n as i32,
                right: Factor::A,
                right_stride: k as i32,
                result_stride: n as i32,
            },
        )
    }
}

} // verus!

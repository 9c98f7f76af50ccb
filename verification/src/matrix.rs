//! The row-major matrix of `p3_matrix` as the container of a trace.
//!
//! A trace is a `RowMajorMatrix<u32>` whose cells are canonical field
//! elements. The matrix is opaque here: what it holds is named by
//! [`cells`] and [`columns`], and read and written through the functions of
//! this module.

use p3_matrix::dense::{DenseMatrix, RowMajorMatrix};
use p3_matrix::Matrix;
use vstd::prelude::*;

verus! {

/// `p3_matrix::dense::DenseMatrix`, of which `RowMajorMatrix<T>` is the form
/// backed by a `Vec<T>`. Nothing inside it is visible here.
#[verifier::external_type_specification]
#[verifier::external_body]
#[verifier::reject_recursive_types(T)]
#[verifier::reject_recursive_types(V)]
pub struct ExDenseMatrix<T, V>(DenseMatrix<T, V>);

/// The flat, row-major sequence of cells that a matrix holds: its field
/// `values`.
pub uninterp spec fn cells(m: RowMajorMatrix<u32>) -> Seq<u32>;

/// The number of columns of a matrix: its field `width`.
pub uninterp spec fn columns(m: RowMajorMatrix<u32>) -> nat;

/// The number of rows of a matrix: the number of whole rows among its cells.
pub open spec fn rows(m: RowMajorMatrix<u32>) -> nat {
    if columns(m) == 0 {
        0
    } else {
        cells(m).len() / columns(m)
    }
}

/// Wraps a flat buffer as a matrix of the given width, by
/// `RowMajorMatrix::new`.
///
/// Trusted: `new` stores the given buffer and width as they are. The buffer
/// must divide into whole rows, which `new` asserts in debug builds.
#[verifier::external_body]
pub(crate) fn matrix_new(values: Vec<u32>, width: usize) -> (m: RowMajorMatrix<u32>)
    requires
        width == 0 || values@.len() % (width as nat) == 0,
    ensures
        cells(m) == values@,
        columns(m) == width,
{
    RowMajorMatrix::new(values, width)
}

/// The width of a matrix, by `Matrix::width`.
///
/// Trusted: `width` returns the field `width` of the matrix.
#[verifier::external_body]
pub(crate) fn matrix_width(m: &RowMajorMatrix<u32>) -> (w: usize)
    ensures
        w == columns(*m),
{
    m.width()
}

/// The cells of a matrix as a slice: its public field `values`.
///
/// Trusted: the field is the buffer that the matrix holds.
#[verifier::external_body]
pub(crate) fn matrix_values(m: &RowMajorMatrix<u32>) -> (v: &[u32])
    ensures
        v@ == cells(*m),
{
    m.values.as_slice()
}

} // verus!

//! Trace generator of the identity: a single row.

use crate::arithmetic::row::{ArithmeticRow, NUM_ARITHMETIC_COLS};
use crate::field::{field_from_u64, reduce};
use crate::matrix::{cells, columns, matrix_new, rows};
use p3_matrix::dense::RowMajorMatrix;
use vstd::prelude::*;

verus! {

/// The row that stands for the integer operands `a`, `c`, `d` and result
/// `e`: each reduced into the field.
pub open spec fn operand_row(a: u64, c: u64, d: u64, e: u64) -> ArithmeticRow<u32> {
    ArithmeticRow {
        a: reduce(a as int) as u32,
        c: reduce(c as int) as u32,
        d: reduce(d as int) as u32,
        e: reduce(e as int) as u32,
    }
}

/// Whether `trace` is the single-row trace of the given operands.
pub open spec fn is_arithmetic_trace(trace: RowMajorMatrix<u32>, a: u64, c: u64, d: u64, e: u64) -> bool {
    &&& columns(trace) == NUM_ARITHMETIC_COLS
    &&& cells(trace) == operand_row(a, c, d, e).cells()
}

/// Generates the single-row trace of `3 + 4 * 5 = 23`.
pub fn generate_arithmetic_trace() -> (trace: RowMajorMatrix<u32>)
    ensures
        is_arithmetic_trace(trace, 3, 4, 5, 23),
        cells(trace) == seq![3u32, 4u32, 5u32, 23u32],
        rows(trace) == 1,
{
    generate_arithmetic_trace_for(3, 4, 5, 23)
}

/// Generates the single-row trace that claims `a + c * d = e` in the field.
///
/// The trace is generated whether or not the claim is true; the AIR tells.
pub fn generate_arithmetic_trace_for(a: u64, c: u64, d: u64, e: u64) -> (trace: RowMajorMatrix<u32>)
    ensures
        is_arithmetic_trace(trace, a, c, d, e),
        rows(trace) == 1,
{
    let mut rows: Vec<ArithmeticRow<u32>> = vec![ArithmeticRow::new(0, 0, 0, 0); 1];
    rows[0] = ArithmeticRow::new(
        field_from_u64(a),
        field_from_u64(c),
        field_from_u64(d),
        field_from_u64(e),
    );
    let values = ArithmeticRow::to_flat(rows.as_slice());
    assert(values@ == operand_row(a, c, d, e).cells());
    matrix_new(values, NUM_ARITHMETIC_COLS)
}

/// Two traces generated from the same operands hold the same cells in the
/// same number of columns.
pub proof fn lemma_trace_is_determined(
    first: RowMajorMatrix<u32>,
    second: RowMajorMatrix<u32>,
    a: u64,
    c: u64,
    d: u64,
    e: u64,
)
    requires
        is_arithmetic_trace(first, a, c, d, e),
        is_arithmetic_trace(second, a, c, d, e),
    ensures
        cells(first) == cells(second),
        columns(first) == columns(second),
        rows(first) == rows(second),
{
}

/// The row that a generated trace holds is the row of its operands.
pub proof fn lemma_generated_trace_rows(trace: RowMajorMatrix<u32>, a: u64, c: u64, d: u64, e: u64)
    requires
        is_arithmetic_trace(trace, a, c, d, e),
    ensures
        ArithmeticRow::unflatten(cells(trace)) == seq![operand_row(a, c, d, e)],
        rows(trace) == 1,
{
    assert(ArithmeticRow::unflatten(cells(trace)) =~= seq![operand_row(a, c, d, e)]);
}

} // verus!

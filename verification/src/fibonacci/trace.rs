//! Trace generator of the recurrence.
//!
//! Row `i` of the trace holds two consecutive terms of the Fibonacci
//! sequence, reduced into the field: `a = fib(i)` and `b = fib(i + 1)`.

use crate::fibonacci::row::{FibonacciRow, NUM_FIBONACCI_COLS};
use crate::field::{add_mod, field_add, is_canonical, reduce, P};
use crate::matrix::{cells, columns, matrix_new, rows};
use crate::pow2::{
    lemma_next_pow2_bounds, lemma_next_pow2_fixed, lemma_next_pow2_least,
    lemma_next_pow2_monotone, lemma_pow2_gap, next_pow2, next_power_of_two,
};
use p3_matrix::dense::RowMajorMatrix;
use vstd::arithmetic::power::{lemma_pow_positive, pow};
use vstd::arithmetic::power2::{is_pow2, is_pow2_equiv, lemma2_to64, lemma2_to64_rest};
use vstd::prelude::*;

verus! {

/// Smallest number of rows of a recurrence trace that the proof backend
/// takes: its minimum evaluation domain. The recurrence itself asks for no
/// floor; [`generate_fibonacci_trace_with_floor`] takes another one.
pub const MIN_TRACE_ROWS: usize = 256;

/// The largest number of steps, and the largest floor, of a trace whose
/// cells `usize` can count: a quarter of the range of `usize`.
pub const MAX_TRACE_ROWS: usize = usize::MAX / 4 + 1;

/// The `i`-th Fibonacci number: 0, 1, 1, 2, 3, 5, ...
pub open spec fn fib(i: nat) -> nat
    decreases i,
{
    if i == 0 {
        0
    } else if i == 1 {
        1
    } else {
        fib((i - 2) as nat) + fib((i - 1) as nat)
    }
}

/// The row of step `i`: `fib(i)` and `fib(i + 1)` in the field.
pub open spec fn step_row(i: nat) -> FibonacciRow<u32> {
    FibonacciRow { a: reduce(fib(i) as int) as u32, b: reduce(fib(i + 1) as int) as u32 }
}

/// Number of rows of the trace of `num_steps` steps over a floor of
/// `min_rows` rows: the larger of the two, rounded up to a power of two.
pub open spec fn trace_height(num_steps: nat, min_rows: nat) -> nat {
    next_pow2(if num_steps >= min_rows { num_steps } else { min_rows })
}

/// The step whose row stands at index `i` of the trace: `i` itself within
/// the steps, the last step in the padding. A trace of no steps repeats the
/// seed row.
pub open spec fn source_step(num_steps: nat, i: nat) -> nat {
    if i < num_steps {
        i
    } else if num_steps == 0 {
        0
    } else {
        (num_steps - 1) as nat
    }
}

/// The rows of the padded trace of `num_steps` steps.
pub open spec fn fibonacci_rows(num_steps: nat, min_rows: nat) -> Seq<FibonacciRow<u32>> {
    Seq::new(trace_height(num_steps, min_rows), |i: int| step_row(source_step(num_steps, i as nat)))
}

/// Whether `trace` is the padded trace of `num_steps` steps over a floor of
/// `min_rows` rows.
pub open spec fn is_fibonacci_trace(
    trace: RowMajorMatrix<u32>,
    num_steps: nat,
    min_rows: nat,
) -> bool {
    &&& columns(trace) == NUM_FIBONACCI_COLS
    &&& cells(trace) == FibonacciRow::flatten(fibonacci_rows(num_steps, min_rows))
}

/// The row after `step_row(i)` is obtained by one field addition.
pub proof fn lemma_step_row_next(i: nat)
    ensures
        step_row(i + 1).a == step_row(i).b,
        step_row(i + 1).b == add_mod(step_row(i).a as int, step_row(i).b as int),
        is_canonical(step_row(i).a),
        is_canonical(step_row(i).b),
{
    let p = P as int;
    vstd::arithmetic::div_mod::lemma_add_mod_noop(fib(i) as int, fib(i + 1) as int, p);
}

/// Generates the padded trace of `num_steps` steps of the recurrence over
/// the backend's floor of [`MIN_TRACE_ROWS`] rows.
pub fn generate_fibonacci_trace(num_steps: usize) -> (trace: RowMajorMatrix<u32>)
    requires
        num_steps <= MAX_TRACE_ROWS,
    ensures
        is_fibonacci_trace(trace, num_steps as nat, MIN_TRACE_ROWS as nat),
        rows(trace) == trace_height(num_steps as nat, MIN_TRACE_ROWS as nat),
{
    generate_fibonacci_trace_with_floor(num_steps, MIN_TRACE_ROWS)
}

/// Generates the padded trace of `num_steps` steps of the recurrence over a
/// floor of `min_rows` rows.
///
/// The seed row is `(0, 1)`; each further step shifts `b` into `a` and adds
/// the two terms. The rows after the last step repeat it, up to the next
/// power of two that is at least `num_steps` and `min_rows`. A trace of no
/// steps holds the seed row throughout.
pub fn generate_fibonacci_trace_with_floor(num_steps: usize, min_rows: usize) -> (trace:
    RowMajorMatrix<u32>)
    requires
        num_steps <= MAX_TRACE_ROWS,
        min_rows <= MAX_TRACE_ROWS,
    ensures
        is_fibonacci_trace(trace, num_steps as nat, min_rows as nat),
        rows(trace) == trace_height(num_steps as nat, min_rows as nat),
{
    proof {
        lemma_trace_fits(num_steps as nat, min_rows as nat);
        lemma_trace_height_bounds(num_steps as nat, min_rows as nat);
    }
    let n = next_power_of_two(if num_steps >= min_rows { num_steps } else { min_rows });
    let mut rows: Vec<FibonacciRow<u32>> = vec![FibonacciRow::new(0, 0); n];
    rows[0] = FibonacciRow::new(0, 1);
    assert(rows@[0] == step_row(0));

    let mut i: usize = 1;
    while i < num_steps
        invariant
            1 <= i,
            i <= num_steps || i == 1,
            num_steps <= n,
            rows@.len() == n,
            forall|k: int| 0 <= k < i ==> #[trigger] rows@[k] == step_row(k as nat),
        decreases num_steps - i,
    {
        let prev_a = rows[i - 1].a;
        let prev_b = rows[i - 1].b;
        proof {
            lemma_step_row_next((i - 1) as nat);
        }
        rows[i] = FibonacciRow::new(prev_b, field_add(prev_a, prev_b));
        i += 1;
    }

    let last = if num_steps == 0 { 0 } else { num_steps - 1 };
    let mut i: usize = num_steps;
    while i < n
        invariant
            num_steps <= i <= n,
            1 <= n,
            rows@.len() == n,
            last == source_step(num_steps as nat, num_steps as nat),
            forall|k: int|
                0 <= k < i ==> #[trigger] rows@[k] == step_row(
                    source_step(num_steps as nat, k as nat),
                ),
            num_steps == 0 ==> rows@[0] == step_row(0),
        decreases n - i,
    {
        let fill = FibonacciRow::new(rows[last].a, rows[last].b);
        rows[i] = fill;
        i += 1;
    }

    assert(rows@ == fibonacci_rows(num_steps as nat, min_rows as nat));
    let values = FibonacciRow::to_flat(rows.as_slice());
    let trace = matrix_new(values, NUM_FIBONACCI_COLS);
    assert(crate::matrix::rows(trace) == n) by {
        assert(values@.len() == 2 * n);
    }
    trace
}

/// The trace has a power-of-two number of rows, at least the floor and at
/// least the number of steps.
pub proof fn lemma_trace_height_bounds(num_steps: nat, min_rows: nat)
    ensures
        is_pow2(trace_height(num_steps, min_rows) as int),
        min_rows <= trace_height(num_steps, min_rows),
        num_steps <= trace_height(num_steps, min_rows),
        fibonacci_rows(num_steps, min_rows).len() == trace_height(num_steps, min_rows),
{
    lemma_next_pow2_bounds(if num_steps >= min_rows { num_steps } else { min_rows });
}

/// Over a floor that is itself a power of two, the number of rows is the
/// larger of the floor and the number of steps rounded up to a power of two.
pub proof fn lemma_trace_height_over_pow2_floor(num_steps: nat, min_rows: nat)
    requires
        is_pow2(min_rows as int),
    ensures
        trace_height(num_steps, min_rows) == if next_pow2(num_steps) >= min_rows {
            next_pow2(num_steps)
        } else {
            min_rows
        },
{
    lemma_next_pow2_fixed(min_rows);
    lemma_next_pow2_bounds(num_steps);
    if num_steps < min_rows {
        lemma_next_pow2_least(num_steps, min_rows as int);
    } else {
        lemma_next_pow2_monotone(min_rows, num_steps);
    }
}

/// The cells of a trace can be counted in `usize` exactly when neither the
/// number of steps nor the floor exceeds [`MAX_TRACE_ROWS`].
pub proof fn lemma_trace_fits(num_steps: nat, min_rows: nat)
    ensures
        2 * trace_height(num_steps, min_rows) <= usize::MAX <==> num_steps <= MAX_TRACE_ROWS
            && min_rows <= MAX_TRACE_ROWS,
{
    let most = if num_steps >= min_rows { num_steps } else { min_rows };
    let limit = MAX_TRACE_ROWS as int;
    assert(is_pow2(limit)) by {
        lemma2_to64();
        lemma2_to64_rest();
        lemma_pow_positive(2, 30);
        lemma_pow_positive(2, 62);
        assert(pow(2, 30) == limit || pow(2, 62) == limit);
        is_pow2_equiv(limit);
    }
    lemma_next_pow2_bounds(most);
    if most <= limit {
        lemma_next_pow2_least(most, limit);
    } else {
        lemma_pow2_gap(limit, next_pow2(most) as int);
    }
}

/// The first row is the seed of the recurrence, `(0, 1)`.
pub proof fn lemma_seed_row(num_steps: nat, min_rows: nat)
    ensures
        fibonacci_rows(num_steps, min_rows)[0] == (FibonacciRow { a: 0u32, b: 1u32 }),
{
    lemma_trace_height_bounds(num_steps, min_rows);
}

/// Every cell of the trace is a canonical field element.
pub proof fn lemma_rows_canonical(num_steps: nat, min_rows: nat, i: int)
    requires
        0 <= i < trace_height(num_steps, min_rows),
    ensures
        is_canonical(fibonacci_rows(num_steps, min_rows)[i].a),
        is_canonical(fibonacci_rows(num_steps, min_rows)[i].b),
{
    lemma_step_row_next(source_step(num_steps, i as nat));
}

/// Within the steps, each row follows from the one before it: its `a` is
/// the earlier `b`, and its `b` is the sum of the earlier row's terms.
pub proof fn lemma_rows_follow_recurrence(num_steps: nat, min_rows: nat, i: int)
    requires
        1 <= i < num_steps,
    ensures
        i < fibonacci_rows(num_steps, min_rows).len(),
        fibonacci_rows(num_steps, min_rows)[i].a == fibonacci_rows(num_steps, min_rows)[i - 1].b,
        fibonacci_rows(num_steps, min_rows)[i].b == add_mod(
            fibonacci_rows(num_steps, min_rows)[i - 1].a as int,
            fibonacci_rows(num_steps, min_rows)[i - 1].b as int,
        ),
{
    lemma_trace_height_bounds(num_steps, min_rows);
    lemma_step_row_next((i - 1) as nat);
}

/// Every row after the last step repeats the row of the last step.
pub proof fn lemma_padding_repeats_last_step(num_steps: nat, min_rows: nat, i: int)
    requires
        1 <= num_steps <= i < trace_height(num_steps, min_rows),
    ensures
        fibonacci_rows(num_steps, min_rows)[i] == fibonacci_rows(num_steps, min_rows)[num_steps
            - 1],
{
}

/// A trace of no steps repeats the seed row throughout.
pub proof fn lemma_no_steps_repeats_seed(min_rows: nat, i: int)
    requires
        0 <= i < trace_height(0, min_rows),
    ensures
        fibonacci_rows(0, min_rows)[i] == (FibonacciRow { a: 0u32, b: 1u32 }),
{
}

/// The rows that a generated trace holds are the rows of the recurrence.
pub proof fn lemma_generated_trace_rows(trace: RowMajorMatrix<u32>, num_steps: nat, min_rows: nat)
    requires
        is_fibonacci_trace(trace, num_steps, min_rows),
    ensures
        FibonacciRow::unflatten(cells(trace)) == fibonacci_rows(num_steps, min_rows),
        rows(trace) == trace_height(num_steps, min_rows),
{
    FibonacciRow::lemma_unflatten_flatten(fibonacci_rows(num_steps, min_rows));
}

/// Two traces generated from the same inputs hold the same cells in the
/// same number of columns.
pub proof fn lemma_trace_is_determined(
    first: RowMajorMatrix<u32>,
    second: RowMajorMatrix<u32>,
    num_steps: nat,
    min_rows: nat,
)
    requires
        is_fibonacci_trace(first, num_steps, min_rows),
        is_fibonacci_trace(second, num_steps, min_rows),
    ensures
        cells(first) == cells(second),
        columns(first) == columns(second),
        rows(first) == rows(second),
{
}

} // verus!

//! Constraints of the recurrence on adjacent rows of a trace.

use crate::fibonacci::row::{FibonacciRow, NUM_FIBONACCI_COLS};
use crate::fibonacci::trace::{
    fibonacci_rows, lemma_rows_canonical, lemma_rows_follow_recurrence, lemma_step_row_next,
    source_step, step_row, trace_height,
};
use crate::field::{add_mod, field_sub, is_canonical, reduce, sub_mod};
use crate::matrix::{cells, columns, matrix_values, matrix_width};
use crate::schema::SchemaError;
use p3_matrix::dense::RowMajorMatrix;
use vstd::prelude::*;

verus! {

/// The AIR of the recurrence. It holds no data.
#[derive(Debug, Clone)]
pub struct FibonacciAir;

/// The two constraints on one pair of adjacent rows, as values of an
/// algebra `E`.
#[derive(Debug, Clone, Copy, PartialEq, Eq)]
pub struct FibonacciConstraints<E> {
    /// `next.b - local.a - local.b`
    pub transition: E,
    /// `next.a - local.b`
    pub propagation: E,
}

/// The recurrence constraint: the next `b` is the sum of the local terms.
pub open spec fn transition_constraint(local: FibonacciRow<u32>, next: FibonacciRow<u32>) -> int {
    reduce(next.b - local.a - local.b)
}

/// The propagation constraint: the local `b` moves into the next `a`.
pub open spec fn propagation_constraint(local: FibonacciRow<u32>, next: FibonacciRow<u32>) -> int {
    reduce(next.a - local.b)
}

/// Whether both constraints vanish on a pair of adjacent rows.
pub open spec fn constraints_hold(local: FibonacciRow<u32>, next: FibonacciRow<u32>) -> bool {
    transition_constraint(local, next) == 0 && propagation_constraint(local, next) == 0
}

/// Whether rows `i` and `i + 1` are in `rows` and break a constraint.
pub open spec fn is_violation(rows: Seq<FibonacciRow<u32>>, i: int) -> bool {
    0 <= i && i + 1 < rows.len() && !constraints_hold(rows[i], rows[i + 1])
}

/// Whether the constraints vanish on every pair of adjacent rows.
pub open spec fn satisfies_constraints(rows: Seq<FibonacciRow<u32>>) -> bool {
    forall|i: int| !is_violation(rows, i)
}

/// Whether `i` is the first pair of adjacent rows that breaks a constraint.
pub open spec fn is_first_violation(rows: Seq<FibonacciRow<u32>>, i: int) -> bool {
    is_violation(rows, i) && forall|k: int| k < i ==> !is_violation(rows, k)
}

impl FibonacciAir {
    /// Number of columns of a trace of this AIR.
    pub fn width(&self) -> (w: usize)
        ensures
            w == NUM_FIBONACCI_COLS,
    {
        NUM_FIBONACCI_COLS
    }

    /// Builds the two constraints over any algebra `E`, given its
    /// subtraction: field elements, or the symbolic expressions of a proof
    /// backend.
    ///
    /// The recurrence constraint is `(next.b - local.a) - local.b`, the
    /// propagation constraint `next.a - local.b`.
    pub fn constraints<E, S: Fn(&E, &E) -> E>(
        &self,
        local: &FibonacciRow<E>,
        next: &FibonacciRow<E>,
        minus: S,
    ) -> (c: FibonacciConstraints<E>)
        requires
            forall|x: &E, y: &E| call_requires(minus, (x, y)),
        ensures
            exists|d: E|
                call_ensures(minus, (&next.b, &local.a), d) && call_ensures(
                    minus,
                    (&d, &local.b),
                    c.transition,
                ),
            call_ensures(minus, (&next.a, &local.b), c.propagation),
    {
        let difference = minus(&next.b, &local.a);
        let transition = minus(&difference, &local.b);
        let propagation = minus(&next.a, &local.b);
        FibonacciConstraints { transition, propagation }
    }

    /// Evaluates the two constraints on a pair of adjacent rows of field
    /// elements.
    pub fn eval(&self, local: &FibonacciRow<u32>, next: &FibonacciRow<u32>) -> (c:
        FibonacciConstraints<u32>)
        ensures
            c.transition == transition_constraint(*local, *next),
            c.propagation == propagation_constraint(*local, *next),
    {
        let minus = |x: &u32, y: &u32| -> (r: u32)
            ensures
                r == sub_mod(*x as int, *y as int),
            { field_sub(*x, *y) };
        self.constraints(local, next, minus)
    }

    /// Whether both constraints vanish on a pair of adjacent rows.
    pub fn holds(&self, local: &FibonacciRow<u32>, next: &FibonacciRow<u32>) -> (ok: bool)
        ensures
            ok == constraints_hold(*local, *next),
    {
        let c = self.eval(local, next);
        c.transition == 0 && c.propagation == 0
    }

    /// Checks the constraints on every pair of adjacent rows of a trace and
    /// returns the index of the first pair that breaks one, if any.
    ///
    /// A trace that is not made of whole rows of two cells is refused.
    pub fn first_violation(&self, trace: &RowMajorMatrix<u32>) -> (r: Result<
        Option<usize>,
        SchemaError,
    >)
        ensures
            columns(*trace) != 2 ==> r == Err::<Option<usize>, SchemaError>(
                (SchemaError::WidthMismatch { expected: 2, found: columns(*trace) as usize }),
            ),
            columns(*trace) == 2 && cells(*trace).len() % 2 != 0 ==> r == Err::<
                Option<usize>,
                SchemaError,
            >((SchemaError::RaggedBuffer { width: 2, len: cells(*trace).len() as usize })),
            columns(*trace) == 2 && cells(*trace).len() % 2 == 0 ==> r is Ok && match r->Ok_0 {
                Some(i) => is_first_violation(FibonacciRow::unflatten(cells(*trace)), i as int),
                None => satisfies_constraints(FibonacciRow::unflatten(cells(*trace))),
            },
    {
        let width = matrix_width(trace);
        if width != NUM_FIBONACCI_COLS {
            return Err(SchemaError::WidthMismatch { expected: NUM_FIBONACCI_COLS, found: width });
        }
        let rows = match FibonacciRow::from_flat(matrix_values(trace)) {
            Ok(rows) => rows,
            Err(e) => {
                return Err(e);
            },
        };
        if rows.len() == 0 {
            return Ok(None);
        }
        let mut i: usize = 0;
        while i < rows.len() - 1
            invariant
                columns(*trace) == 2,
                cells(*trace).len() % 2 == 0,
                rows@ == FibonacciRow::unflatten(cells(*trace)),
                i < rows@.len(),
                forall|k: int| k < i ==> !is_violation(rows@, k),
            decreases rows@.len() - i,
        {
            if !self.holds(&rows[i], &rows[i + 1]) {
                return Ok(Some(i));
            }
            i += 1;
        }
        Ok(None)
    }
}

/// On canonical rows the constraints vanish exactly when the next row is
/// the step of the recurrence after the local row.
pub proof fn lemma_constraints_characterize_step(local: FibonacciRow<u32>, next: FibonacciRow<u32>)
    requires
        is_canonical(local.a),
        is_canonical(local.b),
        is_canonical(next.a),
        is_canonical(next.b),
    ensures
        constraints_hold(local, next) <==> next.a == local.b && next.b == add_mod(
            local.a as int,
            local.b as int,
        ),
{
}

/// Changing one row of a trace that satisfies the constraints breaks a
/// constraint: on the pair that ends in the changed row or, for the first
/// row, on the pair that starts with it.
pub proof fn lemma_corruption_breaks_constraints(
    rows: Seq<FibonacciRow<u32>>,
    at: int,
    corrupted: FibonacciRow<u32>,
)
    requires
        satisfies_constraints(rows),
        2 <= rows.len(),
        0 <= at < rows.len(),
        forall|i: int|
            0 <= i < rows.len() ==> is_canonical(#[trigger] rows[i].a) && is_canonical(rows[i].b),
        is_canonical(corrupted.a),
        is_canonical(corrupted.b),
        corrupted != rows[at],
    ensures
        is_violation(rows.update(at, corrupted), if at == 0 { 0 } else { at - 1 }),
        !satisfies_constraints(rows.update(at, corrupted)),
{
    let changed = rows.update(at, corrupted);
    if at == 0 {
        assert(!is_violation(rows, 0));
        lemma_constraints_characterize_step(rows[0], rows[1]);
        lemma_constraints_characterize_step(corrupted, rows[1]);
        assert(is_violation(changed, 0));
    } else {
        assert(!is_violation(rows, at - 1));
        lemma_constraints_characterize_step(rows[at - 1], rows[at]);
        lemma_constraints_characterize_step(rows[at - 1], corrupted);
        assert(is_violation(changed, at - 1));
    }
}

/// The constraints vanish on every pair of adjacent rows within the steps
/// of a generated trace.
pub proof fn lemma_steps_satisfy_constraints(num_steps: nat, min_rows: nat, i: int)
    requires
        0 <= i,
        i + 1 < num_steps,
    ensures
        i + 1 < fibonacci_rows(num_steps, min_rows).len(),
        constraints_hold(
            fibonacci_rows(num_steps, min_rows)[i],
            fibonacci_rows(num_steps, min_rows)[i + 1],
        ),
{
    lemma_rows_follow_recurrence(num_steps, min_rows, i + 1);
    lemma_rows_canonical(num_steps, min_rows, i);
    lemma_rows_canonical(num_steps, min_rows, i + 1);
    lemma_constraints_characterize_step(
        fibonacci_rows(num_steps, min_rows)[i],
        fibonacci_rows(num_steps, min_rows)[i + 1],
    );
}

/// Two consecutive Fibonacci numbers are never both zero in the field.
pub proof fn lemma_step_row_not_zero(i: nat)
    ensures
        step_row(i).a != 0 || step_row(i).b != 0,
    decreases i,
{
    if i > 0 {
        lemma_step_row_not_zero((i - 1) as nat);
        lemma_step_row_next((i - 1) as nat);
    }
}

/// A row repeated after itself breaks a constraint: the constraints do not
/// vanish on a pair of adjacent rows that reaches into the padding of a
/// generated trace.
pub proof fn lemma_padding_breaks_constraints(num_steps: nat, min_rows: nat, i: int)
    requires
        0 <= i,
        num_steps <= i + 1 < trace_height(num_steps, min_rows),
    ensures
        is_violation(fibonacci_rows(num_steps, min_rows), i),
{
    let k = source_step(num_steps, i as nat);
    lemma_step_row_not_zero(k);
    lemma_constraints_characterize_step(step_row(k), step_row(k));
}

/// A generated trace without padding satisfies the constraints throughout.
pub proof fn lemma_unpadded_trace_satisfies_constraints(num_steps: nat, min_rows: nat)
    requires
        num_steps == trace_height(num_steps, min_rows),
    ensures
        satisfies_constraints(fibonacci_rows(num_steps, min_rows)),
{
    assert forall|i: int| !is_violation(fibonacci_rows(num_steps, min_rows), i) by {
        if 0 <= i && i + 1 < num_steps {
            lemma_steps_satisfy_constraints(num_steps, min_rows, i);
        }
    }
}

/// In a generated trace with padding, the first pair of adjacent rows that
/// breaks a constraint is the last step and the first padding row.
pub proof fn lemma_padded_trace_first_violation(num_steps: nat, min_rows: nat)
    requires
        num_steps < trace_height(num_steps, min_rows),
        2 <= trace_height(num_steps, min_rows),
    ensures
        is_first_violation(
            fibonacci_rows(num_steps, min_rows),
            source_step(num_steps, num_steps) as int,
        ),
{
    let first = source_step(num_steps, num_steps) as int;
    lemma_padding_breaks_constraints(num_steps, min_rows, first);
    assert forall|k: int| k < first implies !is_violation(
        fibonacci_rows(num_steps, min_rows),
        k,
    ) by {
        if 0 <= k {
            lemma_steps_satisfy_constraints(num_steps, min_rows, k);
        }
    }
}

} // verus!

//! Constraint of the identity on a single row.

use crate::arithmetic::row::{ArithmeticRow, NUM_ARITHMETIC_COLS};
use crate::arithmetic::trace::operand_row;
use crate::field::{
    add_mod, field_add, field_mul, field_sub, mul_mod, reduce, sub_mod, P,
};
use crate::matrix::{cells, columns, matrix_values, matrix_width};
use crate::schema::SchemaError;
use p3_matrix::dense::RowMajorMatrix;
use vstd::arithmetic::div_mod::{
    lemma_add_mod_noop, lemma_add_mod_noop_right, lemma_mul_mod_noop, lemma_sub_mod_noop,
    lemma_sub_mod_noop_right,
};
use vstd::prelude::*;

verus! {

/// The AIR of the identity. It holds no data.
#[derive(Debug, Clone)]
pub struct ArithmeticAir;

/// The identity constraint: `a + c * d - e` in the field.
pub open spec fn identity_constraint(row: ArithmeticRow<u32>) -> int {
    reduce(row.a + row.c * row.d - row.e)
}

/// Whether row `i` is in `rows` and breaks the constraint.
pub open spec fn is_violation(rows: Seq<ArithmeticRow<u32>>, i: int) -> bool {
    0 <= i < rows.len() && identity_constraint(rows[i]) != 0
}

/// Whether the constraint vanishes on every row.
pub open spec fn satisfies_constraint(rows: Seq<ArithmeticRow<u32>>) -> bool {
    forall|i: int| !is_violation(rows, i)
}

/// Whether `i` is the first row that breaks the constraint.
pub open spec fn is_first_violation(rows: Seq<ArithmeticRow<u32>>, i: int) -> bool {
    is_violation(rows, i) && forall|k: int| k < i ==> !is_violation(rows, k)
}

impl ArithmeticAir {
    /// Number of columns of a trace of this AIR.
    pub fn width(&self) -> (w: usize)
        ensures
            w == NUM_ARITHMETIC_COLS,
    {
        NUM_ARITHMETIC_COLS
    }

    /// Builds the constraint over any algebra `E`, given its addition,
    /// multiplication and subtraction: field elements, or the symbolic
    /// expressions of a proof backend.
    ///
    /// The constraint is `(a + c * d) - e`.
    pub fn constraint<E, A: Fn(&E, &E) -> E, M: Fn(&E, &E) -> E, S: Fn(&E, &E) -> E>(
        &self,
        local: &ArithmeticRow<E>,
        plus: A,
        times: M,
        minus: S,
    ) -> (c: E)
        requires
            forall|x: &E, y: &E| call_requires(plus, (x, y)),
            forall|x: &E, y: &E| call_requires(times, (x, y)),
            forall|x: &E, y: &E| call_requires(minus, (x, y)),
        ensures
            exists|product: E, sum: E|
                call_ensures(times, (&local.c, &local.d), product) && call_ensures(
                    plus,
                    (&local.a, &product),
                    sum,
                ) && call_ensures(minus, (&sum, &local.e), c),
    {
        let product = times(&local.c, &local.d);
        let sum = plus(&local.a, &product);
        minus(&sum, &local.e)
    }

    /// Evaluates the constraint on a row of field elements.
    pub fn eval(&self, local: &ArithmeticRow<u32>) -> (c: u32)
        ensures
            c == identity_constraint(*local),
    {
        let plus = |x: &u32, y: &u32| -> (r: u32)
            ensures
                r == add_mod(*x as int, *y as int),
            { field_add(*x, *y) };
        let times = |x: &u32, y: &u32| -> (r: u32)
            ensures
                r == mul_mod(*x as int, *y as int),
            { field_mul(*x, *y) };
        let minus = |x: &u32, y: &u32| -> (r: u32)
            ensures
                r == sub_mod(*x as int, *y as int),
            { field_sub(*x, *y) };
        let c = self.constraint(local, plus, times, minus);
        proof {
            let p = P as int;
            let cd = local.c * local.d;
            lemma_add_mod_noop_right(local.a as int, cd, p);
        }
        c
    }

    /// Whether the constraint vanishes on a row.
    pub fn holds(&self, local: &ArithmeticRow<u32>) -> (ok: bool)
        ensures
            ok == (identity_constraint(*local) == 0),
    {
        self.eval(local) == 0
    }

    /// Checks the constraint on every row of a trace and returns the index
    /// of the first row that breaks it, if any.
    ///
    /// A trace that is not made of whole rows of four cells is refused.
    pub fn first_violation(&self, trace: &RowMajorMatrix<u32>) -> (r: Result<
        Option<usize>,
        SchemaError,
    >)
        ensures
            columns(*trace) != 4 ==> r == Err::<Option<usize>, SchemaError>(
                (SchemaError::WidthMismatch { expected: 4, found: columns(*trace) as usize }),
            ),
            columns(*trace) == 4 && cells(*trace).len() % 4 != 0 ==> r == Err::<
                Option<usize>,
                SchemaError,
            >((SchemaError::RaggedBuffer { width: 4, len: cells(*trace).len() as usize })),
            columns(*trace) == 4 && cells(*trace).len() % 4 == 0 ==> r is Ok && match r->Ok_0 {
                Some(i) => is_first_violation(ArithmeticRow::unflatten(cells(*trace)), i as int),
                None => satisfies_constraint(ArithmeticRow::unflatten(cells(*trace))),
            },
    {
        let width = matrix_width(trace);
        if width != NUM_ARITHMETIC_COLS {
            return Err(SchemaError::WidthMismatch { expected: NUM_ARITHMETIC_COLS, found: width });
        }
        let rows = match ArithmeticRow::from_flat(matrix_values(trace)) {
            Ok(rows) => rows,
            Err(e) => {
                return Err(e);
            },
        };
        let mut i: usize = 0;
        while i < rows.len()
            invariant
                columns(*trace) == 4,
                cells(*trace).len() % 4 == 0,
                rows@ == ArithmeticRow::unflatten(cells(*trace)),
                i <= rows@.len(),
                forall|k: int| k < i ==> !is_violation(rows@, k),
            decreases rows@.len() - i,
        {
            if !self.holds(&rows[i]) {
                return Ok(Some(i));
            }
            i += 1;
        }
        Ok(None)
    }
}

/// The constraint vanishes on a row exactly when `a + c * d` and `e` are the
/// same field element.
pub proof fn lemma_constraint_vanishes_exactly(row: ArithmeticRow<u32>)
    ensures
        identity_constraint(row) == 0 <==> add_mod(
            row.a as int,
            mul_mod(row.c as int, row.d as int),
        ) == reduce(row.e as int),
{
    let p = P as int;
    let cd = row.c * row.d;
    lemma_add_mod_noop_right(row.a as int, cd, p);
    lemma_sub_mod_noop(row.a + cd, row.e as int, p);
}

/// On the row of integer operands the constraint is `a + c * d - e` reduced
/// into the field: it vanishes exactly when `a + c * d - e` is a multiple of
/// the field's prime.
pub proof fn lemma_constraint_of_operands(a: u64, c: u64, d: u64, e: u64)
    ensures
        identity_constraint(operand_row(a, c, d, e)) == reduce(a + c * d - e),
{
    let p = P as int;
    let cd = c * d;
    let rcd = reduce(c as int) * reduce(d as int);
    lemma_mul_mod_noop(c as int, d as int, p);
    assert(reduce(reduce(a as int) + rcd) == reduce(a + cd)) by {
        lemma_add_mod_noop(reduce(a as int), rcd, p);
    }
    lemma_sub_mod_noop(reduce(a as int) + rcd, e as int, p);
    lemma_sub_mod_noop(a + cd, e as int, p);
    lemma_sub_mod_noop_right(reduce(a as int) + rcd, e as int, p);
}

} // verus!

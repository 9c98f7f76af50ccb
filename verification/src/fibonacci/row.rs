//! Row schema of the recurrence trace.

use crate::schema::SchemaError;
use vstd::prelude::*;

verus! {

/// Number of columns of the recurrence trace.
pub const NUM_FIBONACCI_COLS: usize = 2;

/// One row of the recurrence trace: two consecutive terms.
#[derive(Debug, Clone, Copy, PartialEq, Eq)]
pub struct FibonacciRow<F> {
    pub a: F,
    pub b: F,
}

impl<F> FibonacciRow<F> {
    pub fn new(a: F, b: F) -> (row: Self)
        ensures
            row.a == a,
            row.b == b,
    {
        Self { a, b }
    }

    /// The cells of a row in column order.
    pub open spec fn cells(self) -> Seq<F> {
        seq![self.a, self.b]
    }

    /// The cells of a sequence of rows, row after row.
    pub open spec fn flatten(rows: Seq<Self>) -> Seq<F> {
        Seq::new(
            2 * rows.len(),
            |j: int|
                if j % 2 == 0 {
                    rows[j / 2].a
                } else {
                    rows[j / 2].b
                },
        )
    }

    /// The whole rows that a flat buffer holds, in order.
    pub open spec fn unflatten(values: Seq<F>) -> Seq<Self> {
        Seq::new(values.len() / 2, |i: int| FibonacciRow { a: values[2 * i], b: values[2 * i + 1] })
    }

    /// Rows laid out flat and read back are the same rows.
    pub proof fn lemma_unflatten_flatten(rows: Seq<Self>)
        ensures
            Self::unflatten(Self::flatten(rows)) == rows,
    {
        assert(Self::unflatten(Self::flatten(rows)) =~= rows);
    }

    /// A buffer of whole rows, read as rows and laid out flat again, is the
    /// same buffer.
    pub proof fn lemma_flatten_unflatten(values: Seq<F>)
        requires
            values.len() % 2 == 0,
        ensures
            Self::flatten(Self::unflatten(values)) == values,
    {
        assert(Self::flatten(Self::unflatten(values)) =~= values);
    }
}

impl<F: Copy> FibonacciRow<F> {
    /// Reads a slice of exactly two cells as a row.
    pub fn from_slice(slice: &[F]) -> (r: Result<Self, SchemaError>)
        ensures
            slice@.len() == 2 ==> r == Ok::<Self, SchemaError>(
                (FibonacciRow { a: slice@[0], b: slice@[1] }),
            ),
            slice@.len() != 2 ==> r == Err::<Self, SchemaError>(
                (SchemaError::WidthMismatch { expected: 2, found: slice@.len() as usize }),
            ),
    {
        if slice.len() != NUM_FIBONACCI_COLS {
            return Err(
                SchemaError::WidthMismatch { expected: NUM_FIBONACCI_COLS, found: slice.len() },
            );
        }
        Ok(Self { a: slice[0], b: slice[1] })
    }

    /// Writes the row over a slice of exactly two cells; any other slice is
    /// left as it was.
    pub fn write_to(&self, slice: &mut [F]) -> (r: Result<(), SchemaError>)
        ensures
            old(slice)@.len() == 2 ==> r is Ok && final(slice)@ == self.cells(),
            old(slice)@.len() != 2 ==> final(slice)@ == old(slice)@ && r == Err::<(), SchemaError>(
                (SchemaError::WidthMismatch { expected: 2, found: old(slice)@.len() as usize }),
            ),
    {
        if slice.len() != NUM_FIBONACCI_COLS {
            return Err(
                SchemaError::WidthMismatch { expected: NUM_FIBONACCI_COLS, found: slice.len() },
            );
        }
        slice[0] = self.a;
        slice[1] = self.b;
        Ok(())
    }

    /// Lays rows out as one flat buffer, row after row.
    pub fn to_flat(rows: &[Self]) -> (values: Vec<F>)
        requires
            2 * rows@.len() <= usize::MAX,
        ensures
            values@ == Self::flatten(rows@),
    {
        let mut values: Vec<F> = Vec::new();
        let mut i: usize = 0;
        while i < rows.len()
            invariant
                i <= rows@.len(),
                values@ == Self::flatten(rows@.take(i as int)),
            decreases rows@.len() - i,
        {
            values.push(rows[i].a);
            values.push(rows[i].b);
            i += 1;
        }
        assert(rows@.take(i as int) == rows@);
        values
    }

    /// Reads a flat buffer as rows; the buffer must divide into whole rows.
    pub fn from_flat(values: &[F]) -> (r: Result<Vec<Self>, SchemaError>)
        ensures
            values@.len() % 2 == 0 ==> r is Ok && r->Ok_0@ == Self::unflatten(values@),
            values@.len() % 2 != 0 ==> r == Err::<Vec<Self>, SchemaError>(
                (SchemaError::RaggedBuffer { width: 2, len: values@.len() as usize }),
            ),
    {
        if values.len() % NUM_FIBONACCI_COLS != 0 {
            return Err(
                SchemaError::RaggedBuffer { width: NUM_FIBONACCI_COLS, len: values.len() },
            );
        }
        let count = values.len() / NUM_FIBONACCI_COLS;
        let mut rows: Vec<Self> = Vec::new();
        let mut i: usize = 0;
        while i < count
            invariant
                i <= count,
                count * 2 == values@.len() <= usize::MAX,
                rows@.len() == i,
                forall|k: int|
                    0 <= k < i ==> (#[trigger] rows@[k]).a == values@[2 * k] && rows@[k].b
                        == values@[2 * k + 1],
            decreases count - i,
        {
            rows.push(Self { a: values[2 * i], b: values[2 * i + 1] });
            i += 1;
        }
        assert(rows@ =~= Self::unflatten(values@));
        Ok(rows)
    }
}

} // verus!

//! Row schema of the identity trace.

use crate::schema::SchemaError;
use vstd::prelude::*;

verus! {

/// Number of columns of the identity trace.
pub const NUM_ARITHMETIC_COLS: usize = 4;

/// One row of the identity trace: the operands `a`, `c`, `d` and the
/// result `e` of `a + c * d = e`.
#[derive(Debug, Clone, Copy, PartialEq, Eq)]
pub struct ArithmeticRow<F> {
    pub a: F,
    pub c: F,
    pub d: F,
    pub e: F,
}

impl<F> ArithmeticRow<F> {
    pub fn new(a: F, c: F, d: F, e: F) -> (row: Self)
        ensures
            row.a == a,
            row.c == c,
            row.d == d,
            row.e == e,
    {
        Self { a, c, d, e }
    }

    /// The cells of a row in column order.
    pub open spec fn cells(self) -> Seq<F> {
        seq![self.a, self.c, self.d, self.e]
    }

    /// The cells of a sequence of rows, row after row.
    pub open spec fn flatten(rows: Seq<Self>) -> Seq<F> {
        Seq::new(4 * rows.len(), |j: int| rows[j / 4].cells()[j % 4])
    }

    /// The whole rows that a flat buffer holds, in order.
    pub open spec fn unflatten(values: Seq<F>) -> Seq<Self> {
        Seq::new(
            values.len() / 4,
            |i: int|
                ArithmeticRow {
                    a: values[4 * i],
                    c: values[4 * i + 1],
                    d: values[4 * i + 2],
                    e: values[4 * i + 3],
                },
        )
    }

    /// Rows laid out flat and read back are the same rows.
    pub proof fn lemma_unflatten_flatten(rows: Seq<Self>)
        ensures
            Self::unflatten(Self::flatten(rows)) == rows,
    {
        assert(Self::unflatten(Self::flatten(rows)) =~= rows);
    }

    /// A buffer of whole rows, read as rows and laid out flat again, is the
    /// same buffer.
    pub proof fn lemma_flatten_unflatten(values: Seq<F>)
        requires
            values.len() % 4 == 0,
        ensures
            Self::flatten(Self::unflatten(values)) == values,
    {
        assert(Self::flatten(Self::unflatten(values)) =~= values);
    }
}

impl<F: Copy> ArithmeticRow<F> {
    /// Reads a slice of exactly four cells as a row.
    pub fn from_slice(slice: &[F]) -> (r: Result<Self, SchemaError>)
        ensures
            slice@.len() == 4 ==> r == Ok::<Self, SchemaError>(
                (ArithmeticRow { a: slice@[0], c: slice@[1], d: slice@[2], e: slice@[3] }),
            ),
            slice@.len() != 4 ==> r == Err::<Self, SchemaError>(
                (SchemaError::WidthMismatch { expected: 4, found: slice@.len() as usize }),
            ),
    {
        if slice.len() != NUM_ARITHMETIC_COLS {
            return Err(
                SchemaError::WidthMismatch { expected: NUM_ARITHMETIC_COLS, found: slice.len() },
            );
        }
        Ok(Self { a: slice[0], c: slice[1], d: slice[2], e: slice[3] })
    }

    /// Writes the row over a slice of exactly four cells; any other slice
    /// is left as it was.
    pub fn write_to(&self, slice: &mut [F]) -> (r: Result<(), SchemaError>)
        ensures
            old(slice)@.len() == 4 ==> r is Ok && final(slice)@ == self.cells(),
            old(slice)@.len() != 4 ==> final(slice)@ == old(slice)@ && r == Err::<(), SchemaError>(
                (SchemaError::WidthMismatch { expected: 4, found: old(slice)@.len() as usize }),
            ),
    {
        if slice.len() != NUM_ARITHMETIC_COLS {
            return Err(
                SchemaError::WidthMismatch { expected: NUM_ARITHMETIC_COLS, found: slice.len() },
            );
        }
        slice[0] = self.a;
        slice[1] = self.c;
        slice[2] = self.d;
        slice[3] = self.e;
        Ok(())
    }

    /// Lays rows out as one flat buffer, row after row.
    pub fn to_flat(rows: &[Self]) -> (values: Vec<F>)
        requires
            4 * rows@.len() <= usize::MAX,
        ensures
            values@ == Self::flatten(rows@),
    {
        let mut values: Vec<F> = Vec::new();
        let mut i: usize = 0;
        while i < rows.len()
            invariant
                i <= rows@.len(),
                values@ == Self::flatten(rows@.take(i as int)),
            decreases rows@.len() - i,
        {
            values.push(rows[i].a);
            values.push(rows[i].c);
            values.push(rows[i].d);
            values.push(rows[i].e);
            i += 1;
        }
        assert(rows@.take(i as int) == rows@);
        values
    }

    /// Reads a flat buffer as rows; the buffer must divide into whole rows.
    pub fn from_flat(values: &[F]) -> (r: Result<Vec<Self>, SchemaError>)
        ensures
            values@.len() % 4 == 0 ==> r is Ok && r->Ok_0@ == Self::unflatten(values@),
            values@.len() % 4 != 0 ==> r == Err::<Vec<Self>, SchemaError>(
                (SchemaError::RaggedBuffer { width: 4, len: values@.len() as usize }),
            ),
    {
        if values.len() % NUM_ARITHMETIC_COLS != 0 {
            return Err(
                SchemaError::RaggedBuffer { width: NUM_ARITHMETIC_COLS, len: values.len() },
            );
        }
        let count = values.len() / NUM_ARITHMETIC_COLS;
        let mut rows: Vec<Self> = Vec::new();
        let mut i: usize = 0;
        while i < count
            invariant
                i <= count,
                count * 4 == values@.len() <= usize::MAX,
                rows@.len() == i,
                forall|k: int|
                    0 <= k < i ==> #[trigger] rows@[k] == (ArithmeticRow {
                        a: values@[4 * k],
                        c: values@[4 * k + 1],
                        d: values@[4 * k + 2],
                        e: values@[4 * k + 3],
                    }),
            decreases count - i,
        {
            rows.push(
                Self {
                    a: values[4 * i],
                    c: values[4 * i + 1],
                    d: values[4 * i + 2],
                    e: values[4 * i + 3],
                },
            );
            i += 1;
        }
        assert(rows@ =~= Self::unflatten(values@));
        Ok(rows)
    }
}

} // verus!

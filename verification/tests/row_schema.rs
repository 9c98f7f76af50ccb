use air_traces::arithmetic::{ArithmeticRow, NUM_ARITHMETIC_COLS};
use air_traces::fibonacci::{FibonacciRow, NUM_FIBONACCI_COLS};
use air_traces::schema::SchemaError;

#[test]
fn schema_widths() {
    assert_eq!(NUM_FIBONACCI_COLS, 2);
    assert_eq!(NUM_ARITHMETIC_COLS, 4);
}

#[test]
fn fibonacci_row_new_keeps_fields() {
    let row = FibonacciRow::new(7u32, 9u32);
    assert_eq!(row.a, 7);
    assert_eq!(row.b, 9);
    let row = FibonacciRow::new("x", "y");
    assert_eq!((row.a, row.b), ("x", "y"));
}

#[test]
fn arithmetic_row_new_keeps_fields() {
    let row = ArithmeticRow::new(1u32, 2u32, 3u32, 4u32);
    assert_eq!((row.a, row.c, row.d, row.e), (1, 2, 3, 4));
}

#[test]
fn fibonacci_row_from_slice_reads_in_column_order() {
    let row = FibonacciRow::from_slice(&[11u32, 22u32]).unwrap();
    assert_eq!(row, FibonacciRow { a: 11, b: 22 });
}

#[test]
fn fibonacci_row_from_slice_refuses_other_lengths() {
    let empty: [u32; 0] = [];
    assert_eq!(
        FibonacciRow::from_slice(&empty),
        Err(SchemaError::WidthMismatch { expected: 2, found: 0 })
    );
    assert_eq!(
        FibonacciRow::from_slice(&[1u32]),
        Err(SchemaError::WidthMismatch { expected: 2, found: 1 })
    );
    assert_eq!(
        FibonacciRow::from_slice(&[1u32, 2, 3]),
        Err(SchemaError::WidthMismatch { expected: 2, found: 3 })
    );
}

#[test]
fn fibonacci_row_write_to_overwrites_both_cells() {
    let mut cells = [0u32, 0u32];
    assert_eq!(FibonacciRow::new(5u32, 8u32).write_to(&mut cells), Ok(()));
    assert_eq!(cells, [5, 8]);
}

#[test]
fn fibonacci_row_write_to_leaves_other_lengths_alone() {
    let mut cells = [1u32, 2, 3];
    assert_eq!(
        FibonacciRow::new(5u32, 8u32).write_to(&mut cells),
        Err(SchemaError::WidthMismatch { expected: 2, found: 3 })
    );
    assert_eq!(cells, [1, 2, 3]);
    let mut one = [9u32];
    assert_eq!(
        FibonacciRow::new(5u32, 8u32).write_to(&mut one),
        Err(SchemaError::WidthMismatch { expected: 2, found: 1 })
    );
    assert_eq!(one, [9]);
}

#[test]
fn fibonacci_row_views_stay_consistent() {
    let mut cells = [3u32, 4u32];
    let mut row = FibonacciRow::from_slice(&cells).unwrap();
    row.b = 40;
    row.write_to(&mut cells).unwrap();
    assert_eq!(cells, [3, 40]);
    assert_eq!(FibonacciRow::from_slice(&cells).unwrap(), row);
}

#[test]
fn fibonacci_rows_flatten_row_after_row() {
    let rows = vec![FibonacciRow::new(1u32, 2), FibonacciRow::new(3, 4), FibonacciRow::new(5, 6)];
    assert_eq!(FibonacciRow::to_flat(&rows), vec![1, 2, 3, 4, 5, 6]);
    let none: Vec<FibonacciRow<u32>> = Vec::new();
    assert_eq!(FibonacciRow::to_flat(&none), Vec::<u32>::new());
}

#[test]
fn fibonacci_rows_from_flat_round_trip() {
    let values = vec![1u32, 2, 3, 4, 5, 6];
    let rows = FibonacciRow::from_flat(&values).unwrap();
    assert_eq!(
        rows,
        vec![FibonacciRow::new(1, 2), FibonacciRow::new(3, 4), FibonacciRow::new(5, 6)]
    );
    assert_eq!(FibonacciRow::to_flat(&rows), values);
    let empty: Vec<u32> = Vec::new();
    assert_eq!(FibonacciRow::from_flat(&empty), Ok(Vec::new()));
}

#[test]
fn fibonacci_rows_from_flat_refuses_ragged_buffers() {
    assert_eq!(
        FibonacciRow::from_flat(&[1u32, 2, 3]),
        Err(SchemaError::RaggedBuffer { width: 2, len: 3 })
    );
    assert_eq!(
        FibonacciRow::from_flat(&[1u32]),
        Err(SchemaError::RaggedBuffer { width: 2, len: 1 })
    );
}

#[test]
fn arithmetic_row_from_slice_reads_in_column_order() {
    let row = ArithmeticRow::from_slice(&[3u32, 4, 5, 23]).unwrap();
    assert_eq!(row, ArithmeticRow { a: 3, c: 4, d: 5, e: 23 });
}

#[test]
fn arithmetic_row_from_slice_refuses_other_lengths() {
    assert_eq!(
        ArithmeticRow::from_slice(&[3u32, 4, 5]),
        Err(SchemaError::WidthMismatch { expected: 4, found: 3 })
    );
    assert_eq!(
        ArithmeticRow::from_slice(&[3u32, 4, 5, 23, 0]),
        Err(SchemaError::WidthMismatch { expected: 4, found: 5 })
    );
    let empty: [u32; 0] = [];
    assert_eq!(
        ArithmeticRow::from_slice(&empty),
        Err(SchemaError::WidthMismatch { expected: 4, found: 0 })
    );
}

#[test]
fn arithmetic_row_write_to_overwrites_all_cells() {
    let mut cells = [0u32; 4];
    assert_eq!(ArithmeticRow::new(3u32, 4, 5, 23).write_to(&mut cells), Ok(()));
    assert_eq!(cells, [3, 4, 5, 23]);
}

#[test]
fn arithmetic_row_write_to_leaves_other_lengths_alone() {
    let mut cells = [7u32; 5];
    assert_eq!(
        ArithmeticRow::new(3u32, 4, 5, 23).write_to(&mut cells),
        Err(SchemaError::WidthMismatch { expected: 4, found: 5 })
    );
    assert_eq!(cells, [7; 5]);
}

#[test]
fn arithmetic_rows_flatten_and_read_back() {
    let rows = vec![ArithmeticRow::new(1u32, 2, 3, 4), ArithmeticRow::new(5, 6, 7, 8)];
    let flat = ArithmeticRow::to_flat(&rows);
    assert_eq!(flat, vec![1, 2, 3, 4, 5, 6, 7, 8]);
    assert_eq!(ArithmeticRow::from_flat(&flat), Ok(rows));
}

#[test]
fn arithmetic_rows_from_flat_refuses_ragged_buffers() {
    assert_eq!(
        ArithmeticRow::from_flat(&[1u32, 2, 3, 4, 5, 6]),
        Err(SchemaError::RaggedBuffer { width: 4, len: 6 })
    );
}

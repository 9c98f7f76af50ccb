//! The two-term linear recurrence: row schema, trace generator and AIR.

pub mod air;
pub mod row;
pub mod trace;

pub use air::{FibonacciAir, FibonacciConstraints};
pub use row::{FibonacciRow, NUM_FIBONACCI_COLS};
pub use trace::{
    generate_fibonacci_trace, generate_fibonacci_trace_with_floor, MAX_TRACE_ROWS, MIN_TRACE_ROWS,
};

//! The fixed arithmetic identity `a + c * d = e`: row schema, trace
//! generator and AIR.

pub mod air;
pub mod row;
pub mod trace;

pub use air::ArithmeticAir;
pub use row::{ArithmeticRow, NUM_ARITHMETIC_COLS};
pub use trace::{generate_arithmetic_trace, generate_arithmetic_trace_for};

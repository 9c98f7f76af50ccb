//! Execution traces and AIR constraints for two small computations over the
//! Baby Bear field: a two-term linear recurrence and a fixed arithmetic
//! identity.

pub mod field;
pub mod matrix;
pub mod pow2;
pub mod schema;
pub mod fibonacci;
pub mod arithmetic;
pub mod rng;
pub mod pipeline;

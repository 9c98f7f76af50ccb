//! Errors of reading a flat buffer of field elements as rows of a schema.

use vstd::prelude::*;

verus! {

/// Why a flat buffer cannot be read as rows of a schema.
#[derive(Clone, Copy, Debug, PartialEq, Eq, Structural)]
pub enum SchemaError {
    /// A slice taken for one row does not have the schema's width.
    WidthMismatch { expected: usize, found: usize },
    /// A flat buffer does not divide into whole rows of the schema's width.
    RaggedBuffer { width: usize, len: usize },
}

} // verus!

//! Arithmetic in the Baby Bear prime field, on canonical `u32` representatives.
//!
//! A field element is held as the integer in `[0, P)` that stands for it. The
//! arithmetic itself is done by `p3_baby_bear`; the functions here state what
//! it computes.

use p3_baby_bear::BabyBear;
use p3_field::{PrimeCharacteristicRing, PrimeField32};
use vstd::prelude::*;

verus! {

/// The Baby Bear prime, `2^31 - 2^27 + 1`.
pub const P: u32 = 0x7800_0001;

/// Whether `x` is the canonical representative of a field element.
pub open spec fn is_canonical(x: u32) -> bool {
    x < P
}

/// The canonical representative of the integer `x`.
pub open spec fn reduce(x: int) -> int {
    x % (P as int)
}

/// Sum of two field elements given by any of their representatives.
pub open spec fn add_mod(a: int, b: int) -> int {
    reduce(a + b)
}

/// Difference of two field elements given by any of their representatives.
pub open spec fn sub_mod(a: int, b: int) -> int {
    reduce(a - b)
}

/// Product of two field elements given by any of their representatives.
pub open spec fn mul_mod(a: int, b: int) -> int {
    reduce(a * b)
}

/// Field addition, computed by `BabyBear`'s `+`.
///
/// Trusted: `BabyBear::new` reduces any `u32` modulo `P`, `+` adds modulo `P`,
/// and `as_canonical_u32` returns the representative in `[0, P)`.
#[verifier::external_body]
pub(crate) fn field_add(a: u32, b: u32) -> (r: u32)
    ensures
        r == add_mod(a as int, b as int),
{
    (BabyBear::new(a) + BabyBear::new(b)).as_canonical_u32()
}

/// Field subtraction, computed by `BabyBear`'s `-`.
///
/// Trusted: `BabyBear::new` reduces any `u32` modulo `P`, `-` subtracts modulo
/// `P`, and `as_canonical_u32` returns the representative in `[0, P)`.
#[verifier::external_body]
pub(crate) fn field_sub(a: u32, b: u32) -> (r: u32)
    ensures
        r == sub_mod(a as int, b as int),
{
    (BabyBear::new(a) - BabyBear::new(b)).as_canonical_u32()
}

/// Field multiplication, computed by `BabyBear`'s `*`.
///
/// Trusted: `BabyBear::new` reduces any `u32` modulo `P`, `*` multiplies
/// modulo `P`, and `as_canonical_u32` returns the representative in `[0, P)`.
#[verifier::external_body]
pub(crate) fn field_mul(a: u32, b: u32) -> (r: u32)
    ensures
        r == mul_mod(a as int, b as int),
{
    (BabyBear::new(a) * BabyBear::new(b)).as_canonical_u32()
}

/// The field element that the integer `x` stands for, computed by
/// `BabyBear::from_u64`.
///
/// Trusted: `from_u64` maps an integer to its residue class modulo `P`, and
/// `as_canonical_u32` returns the representative in `[0, P)`.
#[verifier::external_body]
pub(crate) fn field_from_u64(x: u64) -> (r: u32)
    ensures
        r == reduce(x as int),
{
    BabyBear::from_u64(x).as_canonical_u32()
}

} // verus!

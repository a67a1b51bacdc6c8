//! Arbitrary-precision signed integers, taken from the `num_bigint` crate.
//!
//! Every other module reasons about a `BigInt` only through the abstract
//! integer `int_of` it holds; the small trusted wrappers below state how the
//! crate's arithmetic acts on that integer.

use vstd::prelude::*;
use num_bigint::BigInt;

verus! {

/// The mathematical integer held by a `BigInt`.
pub uninterp spec fn int_of(x: BigInt) -> int;

#[verifier::external_type_specification]
#[verifier::external_body]
pub struct ExBigInt(BigInt);

/// Relies on `BigInt`'s `From<i64>` impl: an exact, lossless conversion.
#[verifier::external_body]
pub(crate) fn big_from_i64(v: i64) -> (r: BigInt)
    ensures
        int_of(r) == v as int,
{
    BigInt::from(v)
}

/// Relies on `Add for &BigInt`: exact integer addition.
#[verifier::external_body]
pub(crate) fn big_add(a: &BigInt, b: &BigInt) -> (r: BigInt)
    ensures
        int_of(r) == int_of(*a) + int_of(*b),
{
    a + b
}

/// Relies on `Sub for &BigInt`: exact integer subtraction.
#[verifier::external_body]
pub(crate) fn big_sub(a: &BigInt, b: &BigInt) -> (r: BigInt)
    ensures
        int_of(r) == int_of(*a) - int_of(*b),
{
    a - b
}

/// Relies on `Mul for &BigInt`: exact integer multiplication.
#[verifier::external_body]
pub(crate) fn big_mul(a: &BigInt, b: &BigInt) -> (r: BigInt)
    ensures
        int_of(r) == int_of(*a) * int_of(*b),
{
    a * b
}

/// Relies on `Neg for &BigInt`: exact integer negation.
#[verifier::external_body]
pub(crate) fn big_neg(a: &BigInt) -> (r: BigInt)
    ensures
        int_of(r) == -int_of(*a),
{
    -a
}

/// Relies on `Ord for BigInt`: the order of the held integers.
#[verifier::external_body]
pub(crate) fn big_lt(a: &BigInt, b: &BigInt) -> (r: bool)
    ensures
        r == (int_of(*a) < int_of(*b)),
{
    a < b
}

/// Relies on `PartialEq for BigInt`: equality of the held integers.
#[verifier::external_body]
pub(crate) fn big_eq(a: &BigInt, b: &BigInt) -> (r: bool)
    ensures
        r == (int_of(*a) == int_of(*b)),
{
    a == b
}

/// Relies on `Clone for BigInt`: the copy holds the same integer.
#[verifier::external_body]
pub(crate) fn big_clone(a: &BigInt) -> (r: BigInt)
    ensures
        int_of(r) == int_of(*a),
{
    a.clone()
}

} // verus!

//! Trusted boundary around `num_bigint::BigInt`.
//!
//! Every arithmetic fact in this crate ultimately rests on the contracts in
//! this module.  Each wrapper makes exactly one call into `num-bigint` (or
//! `num-integer` / `num-traits` for the integer square root, floor division
//! and conversion) and states over `big_view` what that crate's documentation
//! promises of the call.

use vstd::prelude::*;
use vstd::arithmetic::power2::pow2;

verus! {

#[verifier::external_type_specification]
#[verifier::external_body]
pub struct ExBigInt(num_bigint::BigInt);

/// The mathematical integer that a `BigInt` holds.
pub uninterp spec fn big_view(x: num_bigint::BigInt) -> int;

/// Relies on `BigInt`'s `Add` impl: exact integer addition.
#[verifier::external_body]
pub(crate) fn big_add(a: &num_bigint::BigInt, b: &num_bigint::BigInt) -> (r: num_bigint::BigInt)
    ensures
        big_view(r) == big_view(*a) + big_view(*b),
{
    a + b
}

/// Relies on `BigInt`'s `Sub` impl: exact integer subtraction.
#[verifier::external_body]
pub(crate) fn big_sub(a: &num_bigint::BigInt, b: &num_bigint::BigInt) -> (r: num_bigint::BigInt)
    ensures
        big_view(r) == big_view(*a) - big_view(*b),
{
    a - b
}

/// Relies on `BigInt`'s `Mul` impl: exact integer multiplication.
#[verifier::external_body]
pub(crate) fn big_mul(a: &num_bigint::BigInt, b: &num_bigint::BigInt) -> (r: num_bigint::BigInt)
    ensures
        big_view(r) == big_view(*a) * big_view(*b),
{
    a * b
}

/// Relies on `BigInt`'s `PartialOrd` impl: the order of the held integers.
#[verifier::external_body]
pub(crate) fn big_lt(a: &num_bigint::BigInt, b: &num_bigint::BigInt) -> (r: bool)
    ensures
        r == (big_view(*a) < big_view(*b)),
{
    a < b
}

/// Relies on `BigInt`'s `PartialEq` impl: equality of the held integers.
#[verifier::external_body]
pub(crate) fn big_eq(a: &num_bigint::BigInt, b: &num_bigint::BigInt) -> (r: bool)
    ensures
        r == (big_view(*a) == big_view(*b)),
{
    a == b
}

/// Relies on `BigInt`'s `Clone` impl: the copy holds the same integer.
#[verifier::external_body]
pub(crate) fn big_clone(a: &num_bigint::BigInt) -> (r: num_bigint::BigInt)
    ensures
        big_view(r) == big_view(*a),
{
    a.clone()
}

/// Relies on `BigInt`'s `From<u64>` impl: the exact converted value.
#[verifier::external_body]
pub(crate) fn big_from_u64(x: u64) -> (r: num_bigint::BigInt)
    ensures
        big_view(r) == x,
{
    num_bigint::BigInt::from(x)
}

/// Relies on `BigInt`'s `Shl<usize>` impl: a left shift multiplies by a
/// power of two.
#[verifier::external_body]
pub(crate) fn big_shl(a: &num_bigint::BigInt, s: usize) -> (r: num_bigint::BigInt)
    ensures
        big_view(r) == big_view(*a) * pow2(s as nat),
{
    a << s
}

/// Relies on `BigInt::sqrt` (`num_integer::Roots`): the truncated principal
/// square root of a nonnegative integer.
#[verifier::external_body]
pub(crate) fn big_sqrt(a: &num_bigint::BigInt) -> (r: num_bigint::BigInt)
    requires
        big_view(*a) >= 0,
    ensures
        big_view(r) >= 0,
        big_view(r) * big_view(r) <= big_view(*a),
        big_view(*a) < (big_view(r) + 1) * (big_view(r) + 1),
{
    a.sqrt()
}

/// Relies on `num_integer::Integer::div_floor`: division rounding toward
/// negative infinity, characterized here without naming a rounding mode.
#[verifier::external_body]
pub(crate) fn big_div_floor(a: &num_bigint::BigInt, b: &num_bigint::BigInt) -> (r: num_bigint::BigInt)
    requires
        big_view(*b) > 0,
    ensures
        big_view(*b) * big_view(r) <= big_view(*a),
        big_view(*a) < big_view(*b) * (big_view(r) + 1),
{
    num_integer::Integer::div_floor(a, b)
}

/// Relies on `num_traits::ToPrimitive::to_u64`: an in-range integer converts
/// to the same value.
#[verifier::external_body]
pub(crate) fn big_to_u64(a: &num_bigint::BigInt) -> (r: u64)
    requires
        0 <= big_view(*a) < 0x1_0000_0000_0000_0000,
    ensures
        r == big_view(*a),
{
    num_traits::ToPrimitive::to_u64(a).unwrap()
}

} // verus!

//! Arbitrary-precision exponent arithmetic, carried by `num_bigint::BigUint`
//! behind trusted wrappers. The naming logic only ever divides the
//! exponent and reads small remainders, so each wrapper is one arithmetic
//! call whose result is stated over the value `big_value` of the integer.

use vstd::prelude::*;
use core::str::FromStr;
use num_traits::cast::ToPrimitive;
use num_traits::identities::{One, Zero};
use crate::digits::{all_digits, group_value};

verus! {

#[verifier::external_type_specification]
#[verifier::external_body]
pub struct ExBigUint(num_bigint::BigUint);

/// The non-negative integer that a `BigUint` holds.
pub uninterp spec fn big_value(b: num_bigint::BigUint) -> nat;

/// Relies on `BigUint::from_str`: parsing a non-empty string of decimal
/// digits yields the number those digits write.
#[verifier::external_body]
pub(crate) fn big_from_decimal(s: &str) -> (r: num_bigint::BigUint)
    requires
        all_digits(s@),
        s@.len() > 0,
    ensures
        big_value(r) == group_value(s@, 0, s@.len() as int),
{
    match num_bigint::BigUint::from_str(s) {
        Ok(v) => v,
        Err(_) => num_bigint::BigUint::ZERO,
    }
}

/// Relies on `Rem<u32> for &BigUint`: the remainder of division by a
/// nonzero `u32`, which always fits back into a `u32`.
#[verifier::external_body]
pub(crate) fn big_mod_small(x: &num_bigint::BigUint, m: u32) -> (r: u32)
    requires
        m >= 1,
    ensures
        r == big_value(*x) % (m as nat),
{
    (x % m).to_u32().unwrap_or(0)
}

/// Relies on `Div<u32> for BigUint`: Euclidean division by a nonzero `u32`.
#[verifier::external_body]
pub(crate) fn big_div_small(x: &num_bigint::BigUint, d: u32) -> (r: num_bigint::BigUint)
    requires
        d >= 1,
    ensures
        big_value(r) == big_value(*x) / (d as nat),
{
    x.clone() / d
}

/// Relies on `Sub<u32> for BigUint`, which panics only on underflow.
#[verifier::external_body]
pub(crate) fn big_minus_one(x: &num_bigint::BigUint) -> (r: num_bigint::BigUint)
    requires
        big_value(*x) >= 1,
    ensures
        big_value(r) == big_value(*x) - 1,
{
    x.clone() - 1u32
}

/// Relies on `num_traits::Zero::is_zero` for `BigUint`.
#[verifier::external_body]
pub(crate) fn big_is_zero(x: &num_bigint::BigUint) -> (r: bool)
    ensures
        r == (big_value(*x) == 0),
{
    x.is_zero()
}

/// Relies on `num_traits::One::is_one` for `BigUint`.
#[verifier::external_body]
pub(crate) fn big_is_one(x: &num_bigint::BigUint) -> (r: bool)
    ensures
        r == (big_value(*x) == 1),
{
    x.is_one()
}

} // verus!

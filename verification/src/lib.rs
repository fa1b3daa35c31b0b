//! Natural-language English names for arbitrarily large numbers, in the
//! short-scale Conway-Wechsler system.
//!
//! The crate names a number given as a decimal digit string (`full_name`),
//! and names a power of ten directly from its exponent (`power_of_ten`)
//! without ever materializing the power's digit string.

use vstd::prelude::*;

pub mod bigint;
pub mod digits;
pub mod engine;
pub mod hundreds;
pub mod power;
pub mod prefix;
pub mod zillion;
pub mod words;

pub use engine::NameEngine;
pub use hundreds::HundredGroupNamer;
pub use power::PowerOfTenEngine;
pub use prefix::ZillionPrefixBuilder;
pub use zillion::ZillionSuffixComposer;

verus! {

/// Why an input string was rejected.
#[derive(Debug, Clone, Copy, PartialEq, Eq, Structural)]
pub enum ParseError {
    /// The input to `full_name` holds a character outside '0'..'9'.
    InvalidDigit,
    /// The input to `power_of_ten` is not a non-empty string of digits.
    InvalidExponent,
}

} // verus!

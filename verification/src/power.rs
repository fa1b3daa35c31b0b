//! Names a power of ten directly from its exponent, by repeated division
//! of the exponent — never by writing out the power's digits.

use vstd::prelude::*;
use vstd::arithmetic::div_mod::lemma_div_decreases;
use crate::ParseError;
use crate::bigint::{
    big_div_small, big_from_decimal, big_is_one, big_is_zero, big_minus_one, big_mod_small,
    big_value,
};
use crate::digits::{all_digits, check_all_digits, group_value, lemma_group_value_nonneg};
use crate::prefix::ZillionPrefixBuilder;
use crate::zillion::zillion_chain;

verus! {

/// The leading word of the name of 10^e, chosen by e mod 3.
pub open spec fn power_leading(m: int) -> Seq<char> {
    if m == 0 {
        "One"@
    } else if m == 1 {
        "Ten"@
    } else {
        "One hundred"@
    }
}

/// The name of 10^e: the leading word alone below a thousand, then
/// "thousand", then the chained "-illion" word of group count e/3.
pub open spec fn power_name(e: nat) -> Seq<char> {
    let m = (e % 3) as int;
    let q = e / 3;
    if q == 0 {
        power_leading(m)
    } else if q == 1 {
        power_leading(m) + " thousand"@
    } else {
        power_leading(m) + " "@ + zillion_chain((q - 1) as nat) + "on"@
    }
}

/// The value of the digit string `d`, as a non-negative integer.
pub open spec fn exponent_value(d: Seq<char>) -> nat {
    group_value(d, 0, d.len() as int) as nat
}

/// Computes the name of a power of ten from the exponent alone.
pub struct PowerOfTenEngine;

impl PowerOfTenEngine {
    /// The name of 10^e, where `exponent` writes e in decimal. The
    /// exponent must be a non-empty string of digits, else
    /// `InvalidExponent` is returned.
    pub fn power_of_ten(exponent: &str) -> (r: Result<String, ParseError>)
        ensures
            match r {
                Ok(s) => exponent@.len() > 0 && all_digits(exponent@) && s@ == power_name(
                    exponent_value(exponent@),
                ),
                Err(e) => (exponent@.len() == 0 || !all_digits(exponent@)) && e
                    == ParseError::InvalidExponent,
            },
    {
        if !check_all_digits(exponent) {
            return Err(ParseError::InvalidExponent);
        }
        let len = exponent.unicode_len();
        if len == 0 {
            return Err(ParseError::InvalidExponent);
        }
        proof {
            lemma_group_value_nonneg(exponent@, 0, exponent@.len() as int);
        }
        let big = big_from_decimal(exponent);
        let ghost e: nat = exponent_value(exponent@);
        let m = big_mod_small(&big, 3);
        let lead: &'static str = if m == 0 {
            "One"
        } else if m == 1 {
            "Ten"
        } else {
            "One hundred"
        };
        proof {
            assert(lead@ == power_leading((e % 3) as int));
        }
        let q = big_div_small(&big, 3);
        if big_is_zero(&q) {
            return Ok(String::from_str(lead));
        }
        if big_is_one(&q) {
            let mut s = String::from_str(lead);
            s.append(" thousand");
            return Ok(s);
        }
        let ghost qv: nat = big_value(q);
        let mut p = big_minus_one(&q);
        let mut acc = String::from_str("on");
        let mut done = big_is_zero(&p);
        while !done
            invariant
                done == (big_value(p) == 0),
                zillion_chain((qv - 1) as nat) + "on"@ == zillion_chain(big_value(p)) + acc@,
            decreases big_value(p),
        {
            proof {
                lemma_div_decreases(big_value(p) as int, 1000);
            }
            let w = ZillionPrefixBuilder::prefix(big_mod_small(&p, 1000) as u16);
            let next = w.concat(acc.as_str());
            proof {
                assert(zillion_chain(big_value(p)) + acc@ =~= zillion_chain(
                    big_value(p) / 1000,
                ) + next@);
            }
            acc = next;
            p = big_div_small(&p, 1000);
            done = big_is_zero(&p);
        }
        proof {
            assert(zillion_chain(0) + acc@ =~= acc@);
        }
        let mut outp = String::from_str(lead);
        outp.append(" ");
        let result = outp.concat(acc.as_str());
        proof {
            assert(result@ =~= power_name(e));
        }
        Ok(result)
    }
}

} // verus!

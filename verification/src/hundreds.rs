//! Names for a single group of up to three digits, the unit of naming.

use vstd::prelude::*;
use crate::words::{
    join2, join2_exec, lemma_join2_well_spaced, lemma_no_space_well_spaced, lemma_ones_word,
    lemma_tens_word, ones_word, ones_word_str, tens_word, tens_word_str, well_spaced,
};

verus! {

/// The name of the two low digits `10*t + u`: the tens word joined with
/// the units word, or a direct word below twenty.
pub open spec fn two_digit_name(t: int, u: int) -> Seq<char> {
    if t <= 1 {
        ones_word(10 * t + u)
    } else {
        join2(tens_word(t), ones_word(u))
    }
}

/// The name of `n` in [0,999]: the hundreds word (if any) joined with the
/// name of the two low digits. The name of 0 is the empty sequence.
pub open spec fn hundred_group_name(n: int) -> Seq<char> {
    let h = n / 100;
    let t = (n % 100) / 10;
    let u = n % 10;
    let low = two_digit_name(t, u);
    if h > 0 {
        join2(ones_word(h) + " hundred"@, low)
    } else {
        low
    }
}

/// The name of a group is space-free words joined by single spaces, and
/// is empty exactly when the group's value is zero.
pub proof fn lemma_hundred_group_name(n: int)
    requires
        0 <= n <= 999,
    ensures
        well_spaced(hundred_group_name(n)),
        hundred_group_name(n).len() == 0 <==> n == 0,
{
    let h = n / 100;
    let t = (n % 100) / 10;
    let u = n % 10;
    assert(0 <= h <= 9 && 0 <= t <= 9 && 0 <= u <= 9);
    assert(n == 100 * h + 10 * t + u);
    lemma_two_digit_name(t, u);
    if h > 0 {
        lemma_ones_word(h);
        reveal_strlit(" hundred");
        let hw = ones_word(h) + " hundred"@;
        assert(well_spaced(hw) && hw.len() > 0) by {
            assert forall|i: int| 0 <= i < hw.len() - 1 implies !(#[trigger] hw[i] == ' '
                && hw[i + 1] == ' ') by {
                if i + 1 < ones_word(h).len() {
                    assert(hw[i] == ones_word(h)[i]);
                } else if i + 1 == ones_word(h).len() {
                    assert(hw[i + 1] == " hundred"@[0]);
                    assert(hw[i] == ones_word(h)[i]);
                } else if i == ones_word(h).len() {
                    assert(hw[i + 1] == " hundred"@[1]);
                } else {
                    assert(hw[i] == " hundred"@[i - ones_word(h).len()]);
                    assert(hw[i + 1] == " hundred"@[i + 1 - ones_word(h).len()]);
                }
            }
            assert(hw[0] == ones_word(h)[0]);
            assert(hw[hw.len() - 1] == " hundred"@[7]);
        }
        lemma_join2_well_spaced(hw, two_digit_name(t, u));
    }
}

/// The two low digits' name is well spaced, and empty exactly when both
/// digits are zero.
pub proof fn lemma_two_digit_name(t: int, u: int)
    requires
        0 <= t <= 9,
        0 <= u <= 9,
    ensures
        well_spaced(two_digit_name(t, u)),
        two_digit_name(t, u).len() == 0 <==> t == 0 && u == 0,
{
    if t <= 1 {
        lemma_ones_word(10 * t + u);
        lemma_no_space_well_spaced(ones_word(10 * t + u));
    } else {
        lemma_tens_word(t);
        lemma_ones_word(u);
        lemma_no_space_well_spaced(tens_word(t));
        lemma_no_space_well_spaced(ones_word(u));
        lemma_join2_well_spaced(tens_word(t), ones_word(u));
    }
}

/// Names an integer in [0,999].
pub struct HundredGroupNamer;

impl HundredGroupNamer {
    /// The English name of `n`, or the empty string for 0 so that callers
    /// can skip a zero-valued group.
    pub fn name(n: u16) -> (r: String)
        requires
            n < 1000,
        ensures
            r@ == hundred_group_name(n as int),
            r@.len() == 0 <==> n == 0,
    {
        let h = n / 100;
        let t = (n % 100) / 10;
        let u = n % 10;
        let low: String = if t <= 1 {
            String::from_str(ones_word_str(10 * t + u))
        } else {
            join2_exec(String::from_str(tens_word_str(t)), ones_word_str(u))
        };
        proof {
            lemma_hundred_group_name(n as int);
        }
        if h > 0 {
            let mut hw = String::from_str(ones_word_str(h));
            hw.append(" hundred");
            join2_exec(hw, low.as_str())
        } else {
            low
        }
    }
}

} // verus!

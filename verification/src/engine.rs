//! Top-level naming: segments a digit string into groups of three and
//! assembles the hundred names and scale words into one spaced name.

use vstd::prelude::*;
use crate::ParseError;
use crate::digits::{
    all_digits, check_all_digits, digit_val, first_nonzero_from, group_value,
    lemma_all_digits_ascii, lemma_first_nonzero_from, lemma_group_value_bound,
    is_digit, lemma_group_value_pos, parse_group,
};
use crate::hundreds::{hundred_group_name, lemma_hundred_group_name, HundredGroupNamer};
use crate::words::{join2, join2_exec, lemma_join2_assoc, lemma_join2_well_spaced, well_spaced};
use crate::zillion::{lemma_zillion_suffix, zillion_suffix, ZillionSuffixComposer};

verus! {

/// What one group of digits contributes to the full name: nothing when
/// the group's value is zero, otherwise its hundred name joined with the
/// scale word of its group index `g`.
pub open spec fn group_chunk(num: int, g: nat) -> Seq<char> {
    if hundred_group_name(num).len() == 0 {
        Seq::empty()
    } else {
        join2(hundred_group_name(num), zillion_suffix(g))
    }
}

/// The joined contributions of the full three-digit groups of `d` from
/// index `i` to the end.
pub open spec fn groups_name(d: Seq<char>, i: int) -> Seq<char>
    decreases d.len() - i,
{
    if i < 0 || i + 3 > d.len() {
        Seq::empty()
    } else {
        join2(
            group_chunk(group_value(d, i, 3), ((d.len() - i) / 3 - 1) as nat),
            groups_name(d, i + 3),
        )
    }
}

/// The full name of the digit string `d`: "zero" when no digit is
/// nonzero, otherwise the joined contributions of a possibly short
/// leading group and the full groups of three after it.
pub open spec fn name_of(d: Seq<char>) -> Seq<char> {
    let j = first_nonzero_from(d, 0);
    if j == d.len() {
        "zero"@
    } else {
        let rem = d.len() - j;
        let first = rem % 3;
        if first > 0 {
            join2(
                group_chunk(group_value(d, j, first), (rem / 3) as nat),
                groups_name(d, j + first),
            )
        } else {
            groups_name(d, j)
        }
    }
}

/// A group's contribution is well spaced, and empty exactly when the
/// group's value is zero.
pub proof fn lemma_group_chunk(num: int, g: nat)
    requires
        0 <= num <= 999,
    ensures
        well_spaced(group_chunk(num, g)),
        group_chunk(num, g).len() == 0 <==> num == 0,
{
    lemma_hundred_group_name(num);
    lemma_zillion_suffix(g);
    if hundred_group_name(num).len() > 0 {
        lemma_join2_well_spaced(hundred_group_name(num), zillion_suffix(g));
    }
}

/// The joined contributions of the full groups are well spaced.
pub proof fn lemma_groups_name_well_spaced(d: Seq<char>, i: int)
    requires
        all_digits(d),
        0 <= i,
    ensures
        well_spaced(groups_name(d, i)),
    decreases d.len() - i,
{
    if i + 3 <= d.len() {
        lemma_group_value_bound(d, i, 3);
        lemma_group_chunk(group_value(d, i, 3), ((d.len() - i) / 3 - 1) as nat);
        lemma_groups_name_well_spaced(d, i + 3);
        lemma_join2_well_spaced(
            group_chunk(group_value(d, i, 3), ((d.len() - i) / 3 - 1) as nat),
            groups_name(d, i + 3),
        );
    }
}

/// Law: the name of any digit string is non-empty, has no leading or
/// trailing space, and holds no two adjacent spaces.
pub proof fn lemma_name_well_spaced(d: Seq<char>)
    requires
        all_digits(d),
    ensures
        well_spaced(name_of(d)),
        name_of(d).len() > 0,
{
    let j = first_nonzero_from(d, 0);
    lemma_first_nonzero_from(d, 0);
    if j == d.len() {
        reveal_strlit("zero");
    } else {
        let rem = d.len() - j;
        let first = rem % 3;
        assert(d[j] as int != 48 && is_digit(d[j]));
        if first > 0 {
            lemma_group_value_bound(d, j, first);
            lemma_group_value_pos(d, j, first);
            lemma_group_chunk(group_value(d, j, first), (rem / 3) as nat);
            lemma_groups_name_well_spaced(d, j + first);
            lemma_join2_well_spaced(
                group_chunk(group_value(d, j, first), (rem / 3) as nat),
                groups_name(d, j + first),
            );
        } else {
            lemma_groups_name_well_spaced(d, j);
            lemma_groups_name_well_spaced(d, j + 3);
            assert(rem >= 3);
            lemma_group_value_bound(d, j, 3);
            lemma_group_value_pos(d, j, 3);
            lemma_group_chunk(group_value(d, j, 3), ((d.len() - j) / 3 - 1) as nat);
            lemma_join2_well_spaced(
                group_chunk(group_value(d, j, 3), ((d.len() - j) / 3 - 1) as nat),
                groups_name(d, j + 3),
            );
        }
    }
}

/// The index of the first nonzero digit, or the length when all are '0'.
fn find_first_nonzero(s: &str, len: usize) -> (j: usize)
    requires
        all_digits(s@),
        len == s@.len(),
    ensures
        j == first_nonzero_from(s@, 0),
{
    proof {
        lemma_all_digits_ascii(s@);
    }
    let mut j: usize = 0;
    loop
        invariant
            all_digits(s@),
            s.is_ascii(),
            len == s@.len(),
            j <= len,
            first_nonzero_from(s@, 0) == first_nonzero_from(s@, j as int),
        decreases len - j,
    {
        if j == len {
            return j;
        }
        let b = s.get_ascii(j);
        proof {
            assert('\0' <= s@[j as int] <= '\u{7f}');
            assert(s@[j as int] as int == b as int);
        }
        if b != 48 {
            return j;
        }
        j += 1;
    }
}

proof fn lemma_group_value_shift(d: Seq<char>, c: char, i: int, k: int)
    requires
        0 <= i,
        0 <= k,
        i + k <= d.len(),
    ensures
        group_value(seq![c] + d, i + 1, k) == group_value(d, i, k),
    decreases k,
{
    let d2 = seq![c] + d;
    if k > 0 {
        lemma_group_value_shift(d, c, i, k - 1);
        assert(d2[i + 1 + k - 1] == d[i + k - 1]);
    }
}

proof fn lemma_groups_name_shift(d: Seq<char>, c: char, i: int)
    requires
        0 <= i,
    ensures
        groups_name(seq![c] + d, i + 1) == groups_name(d, i),
    decreases d.len() - i,
{
    let d2 = seq![c] + d;
    if i + 3 <= d.len() {
        lemma_groups_name_shift(d, c, i + 3);
        lemma_group_value_shift(d, c, i, 3);
        assert(d2.len() - (i + 1) == d.len() - i);
    }
}

proof fn lemma_first_nonzero_shift(d: Seq<char>, c: char, i: int)
    requires
        0 <= i <= d.len(),
    ensures
        first_nonzero_from(seq![c] + d, i + 1) == first_nonzero_from(d, i) + 1,
    decreases d.len() - i,
{
    let d2 = seq![c] + d;
    if i < d.len() {
        assert(d2[i + 1] == d[i]);
        if d[i] as int == 48 {
            lemma_first_nonzero_shift(d, c, i + 1);
        }
    }
}

/// Law: a leading zero never changes the name of a digit string.
pub proof fn lemma_leading_zero(d: Seq<char>)
    requires
        all_digits(d),
    ensures
        name_of(seq!['0'] + d) == name_of(d),
{
    let d2 = seq!['0'] + d;
    assert(d2[0] == '0' && '0' as int == 48);
    assert(first_nonzero_from(d2, 0) == first_nonzero_from(d2, 1));
    lemma_first_nonzero_shift(d, '0', 0);
    let j = first_nonzero_from(d, 0);
    lemma_first_nonzero_from(d, 0);
    if j == d.len() {
        assert(first_nonzero_from(d2, 0) == d2.len());
    } else {
        let rem = d.len() - j;
        let first = rem % 3;
        assert(d2.len() - (j + 1) == rem);
        if first > 0 {
            lemma_group_value_shift(d, '0', j, first);
            lemma_groups_name_shift(d, '0', j + first);
        } else {
            lemma_groups_name_shift(d, '0', j);
        }
    }
}

/// Converts an arbitrary-length decimal numeral to its English name.
pub struct NameEngine;

impl NameEngine {
    /// The full English name of the number written by `digits`. Every
    /// character must be a decimal digit, else `InvalidDigit` is
    /// returned; leading zeros are skipped, and an all-zero (or empty)
    /// string is named "zero".
    pub fn full_name(digits: &str) -> (r: Result<String, ParseError>)
        ensures
            match r {
                Ok(s) => all_digits(digits@) && s@ == name_of(digits@),
                Err(e) => !all_digits(digits@) && e == ParseError::InvalidDigit,
            },
    {
        if !check_all_digits(digits) {
            return Err(ParseError::InvalidDigit);
        }
        let ghost d = digits@;
        let len = digits.unicode_len();
        let j = find_first_nonzero(digits, len);
        if j == len {
            return Ok(String::from_str("zero"));
        }
        proof {
            lemma_first_nonzero_from(d, 0);
        }
        let rem = len - j;
        let first = rem % 3;
        let mut out: String;
        let mut i: usize;
        if first > 0 {
            let num = parse_group(digits, j, first);
            proof {
                assert(digit_val(d[j as int]) >= 1);
                lemma_group_value_pos(d, j as int, first as int);
            }
            let hname = HundredGroupNamer::name(num);
            let z = ZillionSuffixComposer::compose(rem / 3);
            out = join2_exec(hname, z.as_str());
            i = j + first;
        } else {
            out = String::new();
            i = j;
            proof {
                assert(out@ =~= Seq::<char>::empty());
            }
        }
        while i < len
            invariant
                all_digits(d),
                d == digits@,
                len == d.len(),
                i <= len,
                (len - i) % 3 == 0,
                join2(out@, groups_name(d, i as int)) == name_of(d),
            decreases len - i,
        {
            let num = parse_group(digits, i, 3);
            let hname = HundredGroupNamer::name(num);
            let ghost gspec = ((len - i) / 3 - 1) as nat;
            let chunk: String = if hname.as_str().is_empty() {
                String::new()
            } else {
                let g = (len - i) / 3 - 1;
                let z = ZillionSuffixComposer::compose(g);
                join2_exec(hname, z.as_str())
            };
            proof {
                assert(chunk@ == group_chunk(num as int, gspec));
                assert(groups_name(d, i as int) == join2(
                    group_chunk(num as int, gspec),
                    groups_name(d, i as int + 3),
                ));
                lemma_join2_assoc(out@, chunk@, groups_name(d, i as int + 3));
            }
            out = join2_exec(out, chunk.as_str());
            i += 3;
        }
        proof {
            assert(groups_name(d, len as int) =~= Seq::<char>::empty());
        }
        Ok(out)
    }
}

} // verus!

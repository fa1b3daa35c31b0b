//! Reading decimal digit sequences: validation, leading zeros, and the
//! numeric value of a group of digits.

use vstd::prelude::*;
use vstd::utf8::is_ascii_chars;

verus! {

/// True when `c` is a decimal digit '0'..'9'.
pub open spec fn is_digit(c: char) -> bool {
    48 <= c as int <= 57
}

/// The numeric value of the digit `c`.
pub open spec fn digit_val(c: char) -> int {
    c as int - 48
}

/// True when every character of `d` is a decimal digit.
pub open spec fn all_digits(d: Seq<char>) -> bool {
    forall|i: int| 0 <= i < d.len() ==> is_digit(#[trigger] d[i])
}

/// The value of the `k` digits of `d` starting at index `i`.
pub open spec fn group_value(d: Seq<char>, i: int, k: int) -> int
    decreases k,
{
    if k <= 0 {
        0
    } else {
        10 * group_value(d, i, k - 1) + digit_val(d[i + k - 1])
    }
}

/// The index of the first character of `d` at or after `i` that is not
/// '0', or `d.len()` when there is none.
pub open spec fn first_nonzero_from(d: Seq<char>, i: int) -> int
    decreases d.len() - i,
{
    if i >= d.len() {
        d.len() as int
    } else if d[i] as int != 48 {
        i
    } else {
        first_nonzero_from(d, i + 1)
    }
}

/// Position and content facts about the first nonzero digit.
pub proof fn lemma_first_nonzero_from(d: Seq<char>, i: int)
    requires
        0 <= i <= d.len(),
    ensures
        i <= first_nonzero_from(d, i) <= d.len(),
        first_nonzero_from(d, i) < d.len() ==> d[first_nonzero_from(d, i)] as int != 48,
    decreases d.len() - i,
{
    if i < d.len() && d[i] as int == 48 {
        lemma_first_nonzero_from(d, i + 1);
    }
}

/// A sequence of digits is a sequence of ASCII characters.
pub proof fn lemma_all_digits_ascii(d: Seq<char>)
    requires
        all_digits(d),
    ensures
        is_ascii_chars(d),
{
    assert forall|i: int| 0 <= i < d.len() implies '\0' <= #[trigger] d[i] <= '\u{7f}' by {
        assert(is_digit(d[i]));
    }
}

/// The value of a group of up to three digits lies in [0,999].
pub proof fn lemma_group_value_bound(d: Seq<char>, i: int, k: int)
    requires
        all_digits(d),
        0 <= i,
        0 <= k <= 3,
        i + k <= d.len(),
    ensures
        0 <= group_value(d, i, k) <= if k == 0 { 0int } else if k == 1 { 9int }
            else if k == 2 { 99int } else { 999int },
    decreases k,
{
    if k > 0 {
        lemma_group_value_bound(d, i, k - 1);
        assert(is_digit(d[i + k - 1]));
    }
}

/// The value of a digit group is never negative.
pub proof fn lemma_group_value_nonneg(d: Seq<char>, i: int, k: int)
    requires
        all_digits(d),
        0 <= i,
        i + k <= d.len(),
    ensures
        group_value(d, i, k) >= 0,
    decreases k,
{
    if k > 0 {
        lemma_group_value_nonneg(d, i, k - 1);
        assert(is_digit(d[i + k - 1]));
    }
}

/// A group whose leading digit is nonzero has a nonzero value.
pub proof fn lemma_group_value_pos(d: Seq<char>, i: int, k: int)
    requires
        all_digits(d),
        0 <= i,
        1 <= k,
        i + k <= d.len(),
        digit_val(d[i]) >= 1,
    ensures
        group_value(d, i, k) >= 1,
    decreases k,
{
    if k == 1 {
        assert(group_value(d, i, 0) == 0);
        assert(group_value(d, i, 1) == 10 * group_value(d, i, 0) + digit_val(d[i]));
    } else {
        lemma_group_value_pos(d, i, k - 1);
        assert(is_digit(d[i + k - 1]));
    }
}

/// True when the whole string is made of decimal digits.
pub fn check_all_digits(s: &str) -> (r: bool)
    ensures
        r == all_digits(s@),
{
    if !s.is_ascii() {
        proof {
            assert(exists|i: int| 0 <= i < s@.len() && !('\0' <= #[trigger] s@[i] <= '\u{7f}'));
            let i = choose|i: int| 0 <= i < s@.len() && !('\0' <= #[trigger] s@[i] <= '\u{7f}');
            assert(!is_digit(s@[i]));
        }
        return false;
    }
    let len = s.unicode_len();
    let mut k: usize = 0;
    while k < len
        invariant
            s.is_ascii(),
            len == s@.len(),
            k <= len,
            forall|j: int| 0 <= j < k ==> is_digit(#[trigger] s@[j]),
        decreases len - k,
    {
        let b = s.get_ascii(k);
        proof {
            assert('\0' <= s@[k as int] <= '\u{7f}');
            assert(s@[k as int] as int == b as int);
        }
        if b < 48 || b > 57 {
            assert(!is_digit(s@[k as int]));
            return false;
        }
        k += 1;
    }
    true
}

/// The value of the `k` digits of `s` starting at index `i`, for a group
/// of at most three digits.
pub fn parse_group(s: &str, i: usize, k: usize) -> (r: u16)
    requires
        all_digits(s@),
        k <= 3,
        i + k <= s@.len() <= usize::MAX,
    ensures
        r == group_value(s@, i as int, k as int),
        r < 1000,
{
    proof {
        lemma_all_digits_ascii(s@);
        lemma_group_value_bound(s@, i as int, k as int);
    }
    let mut r: u16 = 0;
    let mut m: usize = 0;
    while m < k
        invariant
            all_digits(s@),
            s.is_ascii(),
            k <= 3,
            i + k <= s@.len() <= usize::MAX,
            m <= k,
            r == group_value(s@, i as int, m as int),
            r <= 999,
        decreases k - m,
    {
        proof {
            lemma_group_value_bound(s@, i as int, m as int);
            lemma_group_value_bound(s@, i as int, m as int + 1);
        }
        let b = s.get_ascii(i + m);
        proof {
            assert(is_digit(s@[i + m]));
            assert('\0' <= s@[i + m] <= '\u{7f}');
            assert(b as int == s@[i + m] as int);
        }
        r = r * 10 + (b - 48) as u16;
        m += 1;
    }
    r
}

} // verus!

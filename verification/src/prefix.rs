//! The irregular Latin prefix for a single zillion group index in [0,999].

use vstd::prelude::*;
use crate::words::{
    base_prefix, base_prefix_str, euphonic_hundreds, euphonic_hundreds_str, euphonic_tens,
    euphonic_tens_str, hundreds_prefix, hundreds_prefix_str, lemma_base_prefix,
    lemma_euphonic_no_space, lemma_hundreds_prefix, lemma_no_space_concat, lemma_tens_prefix,
    lemma_unit_prefix, no_space, tens_prefix, tens_prefix_str, unit_prefix, unit_prefix_str,
};

verus! {

/// The raw prefix fragment for `n` in [10,999], before the trailing vowel
/// is elided: units prefix, euphonic insertion, then the tens and
/// hundreds prefixes.
pub open spec fn prefix_fragment(n: int) -> Seq<char> {
    let h = n / 100;
    let t = (n % 100) / 10;
    let u = n % 10;
    if t > 0 {
        unit_prefix(u) + euphonic_tens(u, t) + tens_prefix(t) + hundreds_prefix(h)
    } else {
        unit_prefix(u) + euphonic_hundreds(u, h) + hundreds_prefix(h)
    }
}

/// The zillion prefix for `n` in [0,999]: a stem ending in "illi".
/// Index 0 yields "nilli", for use inside chained zillion names.
pub open spec fn zillion_prefix_word(n: int) -> Seq<char> {
    if n < 10 {
        base_prefix(n) + "illi"@
    } else {
        let f = prefix_fragment(n);
        f.take(f.len() - 1) + "illi"@
    }
}

/// A prefix of a space-free fragment is space-free.
pub proof fn lemma_no_space_take(s: Seq<char>, k: int)
    requires
        no_space(s),
        0 <= k <= s.len(),
    ensures
        no_space(s.take(k)),
{
    assert forall|i: int| 0 <= i < s.take(k).len() implies s.take(k)[i] != ' ' by {
        assert(s.take(k)[i] == s[i]);
    }
}

/// The raw fragment is space-free and, since the adjacent tens or
/// hundreds prefix is present, never empty.
pub proof fn lemma_prefix_fragment(n: int)
    requires
        10 <= n <= 999,
    ensures
        no_space(prefix_fragment(n)),
        prefix_fragment(n).len() >= 1,
{
    let h = n / 100;
    let t = (n % 100) / 10;
    let u = n % 10;
    assert(0 <= h <= 9 && 0 <= t <= 9 && 0 <= u <= 9);
    lemma_unit_prefix(u);
    lemma_euphonic_no_space(u, t, h);
    lemma_tens_prefix(t);
    lemma_hundreds_prefix(h);
    if t > 0 {
        lemma_no_space_concat(unit_prefix(u), euphonic_tens(u, t));
        lemma_no_space_concat(unit_prefix(u) + euphonic_tens(u, t), tens_prefix(t));
        lemma_no_space_concat(
            unit_prefix(u) + euphonic_tens(u, t) + tens_prefix(t),
            hundreds_prefix(h),
        );
    } else {
        assert(h >= 1);
        lemma_no_space_concat(unit_prefix(u), euphonic_hundreds(u, h));
        lemma_no_space_concat(unit_prefix(u) + euphonic_hundreds(u, h), hundreds_prefix(h));
    }
}

/// The zillion prefix is space-free and never empty.
pub proof fn lemma_zillion_prefix_word(n: int)
    requires
        0 <= n <= 999,
    ensures
        no_space(zillion_prefix_word(n)),
        zillion_prefix_word(n).len() >= 1,
{
    reveal_strlit("illi");
    assert(no_space("illi"@));
    if n < 10 {
        lemma_base_prefix(n);
        lemma_no_space_concat(base_prefix(n), "illi"@);
    } else {
        let f = prefix_fragment(n);
        lemma_prefix_fragment(n);
        lemma_no_space_take(f, f.len() - 1);
        lemma_no_space_concat(f.take(f.len() - 1), "illi"@);
    }
}

/// Digit split of `n` in [10,999], and the fact that the fragment keeps
/// enough characters after elision to show its opening letters.
proof fn lemma_word_starts_with_fragment(n: int, k: int)
    requires
        10 <= n <= 999,
        0 <= k <= prefix_fragment(n).len() - 1,
    ensures
        zillion_prefix_word(n).take(k) == prefix_fragment(n).take(k),
{
    let f = prefix_fragment(n);
    lemma_prefix_fragment(n);
    assert(zillion_prefix_word(n).take(k) =~= f.take(k));
}

/// The elided fragment keeps at least its first four characters when the
/// adjacent tens or hundreds prefix is present.
proof fn lemma_fragment_long(n: int)
    requires
        10 <= n <= 999,
    ensures
        ({
            let t = (n % 100) / 10;
            let h = n / 100;
            prefix_fragment(n).len() == unit_prefix(n % 10).len() + (if t > 0 {
                euphonic_tens(n % 10, t).len() + tens_prefix(t).len() + hundreds_prefix(h).len()
            } else {
                euphonic_hundreds(n % 10, h).len() + hundreds_prefix(h).len()
            })
        }),
        prefix_fragment(n).len() >= unit_prefix(n % 10).len() + (if (n % 100) / 10 > 0 {
            euphonic_tens(n % 10, (n % 100) / 10).len()
        } else {
            euphonic_hundreds(n % 10, n / 100).len()
        }) + 4,
{
    let h = n / 100;
    let t = (n % 100) / 10;
    let u = n % 10;
    if t > 0 {
        lemma_tens_prefix(t);
        if t == 1 { reveal_strlit("deci"); }
        else if t == 2 { reveal_strlit("viginti"); }
        else if t == 3 { reveal_strlit("triginta"); }
        else if t == 4 { reveal_strlit("quadraginta"); }
        else if t == 5 { reveal_strlit("quinquaginta"); }
        else if t == 6 { reveal_strlit("sexaginta"); }
        else if t == 7 { reveal_strlit("septuaginta"); }
        else if t == 8 { reveal_strlit("octoginta"); }
        else { reveal_strlit("nonaginta"); }
        assert(tens_prefix(t).len() >= 4);
    } else {
        assert(h >= 1);
        if h == 1 { reveal_strlit("centi"); }
        else if h == 2 { reveal_strlit("ducenti"); }
        else if h == 3 { reveal_strlit("trecenti"); }
        else if h == 4 { reveal_strlit("quadringenti"); }
        else if h == 5 { reveal_strlit("quingenti"); }
        else if h == 6 { reveal_strlit("sescenti"); }
        else if h == 7 { reveal_strlit("septingenti"); }
        else if h == 8 { reveal_strlit("octingenti"); }
        else { reveal_strlit("nongenti"); }
        assert(hundreds_prefix(h).len() >= 5);
    }
}

/// Shows that the prefix for `n` opens with the unit prefix followed by
/// the expected euphonic letter.
proof fn lemma_prefix_opening(n: int, eu: Seq<char>, opening: Seq<char>)
    requires
        10 <= n <= 999,
        eu.len() == 1,
        ({
            let t = (n % 100) / 10;
            if t > 0 {
                euphonic_tens(n % 10, t) == eu
            } else {
                euphonic_hundreds(n % 10, n / 100) == eu
            }
        }),
        opening == unit_prefix(n % 10) + eu,
    ensures
        zillion_prefix_word(n).take(opening.len() as int) == opening,
{
    let h = n / 100;
    let t = (n % 100) / 10;
    let u = n % 10;
    let f = prefix_fragment(n);
    lemma_fragment_long(n);
    lemma_word_starts_with_fragment(n, opening.len() as int);
    assert(f.take(opening.len() as int) =~= opening) by {
        if t > 0 {
            assert(f == unit_prefix(u) + eu + tens_prefix(t) + hundreds_prefix(h));
        } else {
            assert(f == unit_prefix(u) + eu + hundreds_prefix(h));
        }
        assert forall|i: int| 0 <= i < opening.len() implies f[i] == opening[i] by {
            if i < unit_prefix(u).len() {
                assert(opening[i] == unit_prefix(u)[i]);
                assert(f[i] == unit_prefix(u)[i]);
            } else {
                assert(opening[i] == eu[0]);
                assert(f[i] == eu[0]);
            }
        }
    }
}

/// Law: when the units digit is 3 and the adjacent nonzero digit is in
/// the "s" set of its place (2,3,4,5,8 for the tens place; 1,3,4,5,8 for
/// the hundreds place), the prefix opens "tres".
pub proof fn lemma_euphonic_s_after_tre(n: int)
    requires
        10 <= n <= 999,
        n % 10 == 3,
        ({
            let t = (n % 100) / 10;
            let h = n / 100;
            if t > 0 {
                t == 2 || t == 3 || t == 4 || t == 5 || t == 8
            } else {
                h == 1 || h == 3 || h == 4 || h == 5 || h == 8
            }
        }),
    ensures
        zillion_prefix_word(n).take(4) == "tres"@,
{
    reveal_strlit("tre");
    reveal_strlit("s");
    reveal_strlit("tres");
    lemma_prefix_opening(n, "s"@, "tre"@ + "s"@);
    assert(("tre"@ + "s"@).len() == 4);
    assert(zillion_prefix_word(n).take(4) =~= "tres"@);
}

/// Law: when the units digit is 6 and the adjacent nonzero digit is in
/// the "x" set of its place (8 for the tens place; 1 or 8 for the
/// hundreds place), the prefix opens "sex".
pub proof fn lemma_euphonic_x_after_se(n: int)
    requires
        10 <= n <= 999,
        n % 10 == 6,
        ({
            let t = (n % 100) / 10;
            let h = n / 100;
            if t > 0 {
                t == 8
            } else {
                h == 1 || h == 8
            }
        }),
    ensures
        zillion_prefix_word(n).take(3) == "sex"@,
{
    reveal_strlit("se");
    reveal_strlit("x");
    reveal_strlit("sex");
    lemma_prefix_opening(n, "x"@, "se"@ + "x"@);
    assert(("se"@ + "x"@).len() == 3);
    assert(zillion_prefix_word(n).take(3) =~= "sex"@);
}

/// Law: when the units digit is 6 and the adjacent nonzero digit is in
/// the "s" set of its place (2,3,4,5 for the tens place; 3,4,5 for the
/// hundreds place), the prefix opens "ses".
pub proof fn lemma_euphonic_s_after_se(n: int)
    requires
        10 <= n <= 999,
        n % 10 == 6,
        ({
            let t = (n % 100) / 10;
            let h = n / 100;
            if t > 0 {
                t == 2 || t == 3 || t == 4 || t == 5
            } else {
                h == 3 || h == 4 || h == 5
            }
        }),
    ensures
        zillion_prefix_word(n).take(3) == "ses"@,
{
    reveal_strlit("se");
    reveal_strlit("s");
    reveal_strlit("ses");
    lemma_prefix_opening(n, "s"@, "se"@ + "s"@);
    assert(("se"@ + "s"@).len() == 3);
    assert(zillion_prefix_word(n).take(3) =~= "ses"@);
}

/// Law: when the units digit is 7 or 9 and the adjacent nonzero digit is
/// in the "n" set of its place (1 or 3..7 for the tens place; 1..7 for
/// the hundreds place), the prefix opens "septen" or "noven".
pub proof fn lemma_euphonic_n(n: int)
    requires
        10 <= n <= 999,
        n % 10 == 7 || n % 10 == 9,
        ({
            let t = (n % 100) / 10;
            let h = n / 100;
            if t > 0 {
                t == 1 || t == 3 || t == 4 || t == 5 || t == 6 || t == 7
            } else {
                1 <= h <= 7
            }
        }),
    ensures
        n % 10 == 7 ==> zillion_prefix_word(n).take(6) == "septen"@,
        n % 10 == 9 ==> zillion_prefix_word(n).take(5) == "noven"@,
{
    reveal_strlit("n");
    if n % 10 == 7 {
        reveal_strlit("septe");
        reveal_strlit("septen");
        lemma_prefix_opening(n, "n"@, "septe"@ + "n"@);
        assert(("septe"@ + "n"@).len() == 6);
        assert(zillion_prefix_word(n).take(6) =~= "septen"@);
    } else {
        reveal_strlit("nove");
        reveal_strlit("noven");
        lemma_prefix_opening(n, "n"@, "nove"@ + "n"@);
        assert(("nove"@ + "n"@).len() == 5);
        assert(zillion_prefix_word(n).take(5) =~= "noven"@);
    }
}

/// Law: when the units digit is 7 or 9 and the adjacent nonzero digit is
/// in the "m" set of its place (2 or 8 for the tens place; 8 for the
/// hundreds place), the prefix opens "septem" or "novem".
pub proof fn lemma_euphonic_m(n: int)
    requires
        10 <= n <= 999,
        n % 10 == 7 || n % 10 == 9,
        ({
            let t = (n % 100) / 10;
            let h = n / 100;
            if t > 0 {
                t == 2 || t == 8
            } else {
                h == 8
            }
        }),
    ensures
        n % 10 == 7 ==> zillion_prefix_word(n).take(6) == "septem"@,
        n % 10 == 9 ==> zillion_prefix_word(n).take(5) == "novem"@,
{
    reveal_strlit("m");
    if n % 10 == 7 {
        reveal_strlit("septe");
        reveal_strlit("septem");
        lemma_prefix_opening(n, "m"@, "septe"@ + "m"@);
        assert(("septe"@ + "m"@).len() == 6);
        assert(zillion_prefix_word(n).take(6) =~= "septem"@);
    } else {
        reveal_strlit("nove");
        reveal_strlit("novem");
        lemma_prefix_opening(n, "m"@, "nove"@ + "m"@);
        assert(("nove"@ + "m"@).len() == 5);
        assert(zillion_prefix_word(n).take(5) =~= "novem"@);
    }
}

/// Builds the irregular Latin prefix for one group index in [0,999].
pub struct ZillionPrefixBuilder;

impl ZillionPrefixBuilder {
    /// The Latin prefix stem for `n`, ending in "illi".
    pub fn prefix(n: u16) -> (r: String)
        requires
            n < 1000,
        ensures
            r@ == zillion_prefix_word(n as int),
    {
        if n < 10 {
            let mut s = String::from_str(base_prefix_str(n));
            s.append("illi");
            s
        } else {
            let h = n / 100;
            let t = (n % 100) / 10;
            let u = n % 10;
            let mut frag = String::from_str(unit_prefix_str(u));
            if t > 0 {
                frag.append(euphonic_tens_str(u, t));
                frag.append(tens_prefix_str(t));
                frag.append(hundreds_prefix_str(h));
            } else {
                frag.append(euphonic_hundreds_str(u, h));
                frag.append(hundreds_prefix_str(h));
            }
            proof {
                lemma_prefix_fragment(n as int);
            }
            let l = frag.as_str().unicode_len();
            let stem = frag.as_str().substring_char(0, l - 1);
            let mut r = String::from_str(stem);
            r.append("illi");
            proof {
                let f = prefix_fragment(n as int);
                assert(stem@ =~= f.take(f.len() - 1));
            }
            r
        }
    }
}

} // verus!

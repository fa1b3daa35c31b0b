//! Word tables shared by the naming components, the `join2` word joiner,
//! and the spacing predicates that the library's laws are stated over.

use vstd::prelude::*;

verus! {

/// True when `s` holds no space character at all.
pub open spec fn no_space(s: Seq<char>) -> bool {
    forall|i: int| 0 <= i < s.len() ==> s[i] != ' '
}

/// True when `s` neither starts nor ends with a space and holds no two
/// adjacent spaces. The empty sequence is well spaced.
pub open spec fn well_spaced(s: Seq<char>) -> bool {
    &&& s.len() > 0 ==> s[0] != ' ' && s[s.len() - 1] != ' '
    &&& forall|i: int| 0 <= i < s.len() - 1 ==> !(#[trigger] s[i] == ' ' && s[i + 1] == ' ')
}

/// Joins two fragments with a single separating space, which is omitted
/// when either side is empty.
pub open spec fn join2(a: Seq<char>, b: Seq<char>) -> Seq<char> {
    if a.len() == 0 {
        b
    } else if b.len() == 0 {
        a
    } else {
        a + " "@ + b
    }
}

/// The name of `n` in [0,19]; index 0 is the empty string.
pub open spec fn ones_word(n: int) -> Seq<char> {
    if n == 1 { "one"@ }
    else if n == 2 { "two"@ }
    else if n == 3 { "three"@ }
    else if n == 4 { "four"@ }
    else if n == 5 { "five"@ }
    else if n == 6 { "six"@ }
    else if n == 7 { "seven"@ }
    else if n == 8 { "eight"@ }
    else if n == 9 { "nine"@ }
    else if n == 10 { "ten"@ }
    else if n == 11 { "eleven"@ }
    else if n == 12 { "twelve"@ }
    else if n == 13 { "thirteen"@ }
    else if n == 14 { "fourteen"@ }
    else if n == 15 { "fifteen"@ }
    else if n == 16 { "sixteen"@ }
    else if n == 17 { "seventeen"@ }
    else if n == 18 { "eighteen"@ }
    else if n == 19 { "nineteen"@ }
    else { Seq::empty() }
}

pub proof fn lemma_ones_word(n: int)
    requires
        0 <= n <= 19,
    ensures
        no_space(ones_word(n)),
        ones_word(n).len() == 0 <==> n == 0,
{
    if n == 1 { reveal_strlit("one"); }
    else if n == 2 { reveal_strlit("two"); }
    else if n == 3 { reveal_strlit("three"); }
    else if n == 4 { reveal_strlit("four"); }
    else if n == 5 { reveal_strlit("five"); }
    else if n == 6 { reveal_strlit("six"); }
    else if n == 7 { reveal_strlit("seven"); }
    else if n == 8 { reveal_strlit("eight"); }
    else if n == 9 { reveal_strlit("nine"); }
    else if n == 10 { reveal_strlit("ten"); }
    else if n == 11 { reveal_strlit("eleven"); }
    else if n == 12 { reveal_strlit("twelve"); }
    else if n == 13 { reveal_strlit("thirteen"); }
    else if n == 14 { reveal_strlit("fourteen"); }
    else if n == 15 { reveal_strlit("fifteen"); }
    else if n == 16 { reveal_strlit("sixteen"); }
    else if n == 17 { reveal_strlit("seventeen"); }
    else if n == 18 { reveal_strlit("eighteen"); }
    else if n == 19 { reveal_strlit("nineteen"); }
}

/// The word for `n` in [0,19].
pub fn ones_word_str(n: u16) -> (r: &'static str)
    requires
        n <= 19,
    ensures
        r@ == ones_word(n as int),
{
    match n {
        1 => "one",
        2 => "two",
        3 => "three",
        4 => "four",
        5 => "five",
        6 => "six",
        7 => "seven",
        8 => "eight",
        9 => "nine",
        10 => "ten",
        11 => "eleven",
        12 => "twelve",
        13 => "thirteen",
        14 => "fourteen",
        15 => "fifteen",
        16 => "sixteen",
        17 => "seventeen",
        18 => "eighteen",
        19 => "nineteen",
        _ => {
            proof { reveal_strlit(""); }
            assert(""@ =~= ones_word(n as int));
            ""
        },
    }
}

/// The tens word for `t` in [0,9]; indices 0 and 1 are the empty string.
pub open spec fn tens_word(t: int) -> Seq<char> {
    if t == 2 { "twenty"@ }
    else if t == 3 { "thirty"@ }
    else if t == 4 { "forty"@ }
    else if t == 5 { "fifty"@ }
    else if t == 6 { "sixty"@ }
    else if t == 7 { "seventy"@ }
    else if t == 8 { "eighty"@ }
    else if t == 9 { "ninety"@ }
    else { Seq::empty() }
}

pub proof fn lemma_tens_word(t: int)
    requires
        0 <= t <= 9,
    ensures
        no_space(tens_word(t)),
        tens_word(t).len() == 0 <==> t <= 1,
{
    if t == 2 { reveal_strlit("twenty"); }
    else if t == 3 { reveal_strlit("thirty"); }
    else if t == 4 { reveal_strlit("forty"); }
    else if t == 5 { reveal_strlit("fifty"); }
    else if t == 6 { reveal_strlit("sixty"); }
    else if t == 7 { reveal_strlit("seventy"); }
    else if t == 8 { reveal_strlit("eighty"); }
    else if t == 9 { reveal_strlit("ninety"); }
}

/// The tens word for `t` in [0,9].
pub fn tens_word_str(t: u16) -> (r: &'static str)
    requires
        t <= 9,
    ensures
        r@ == tens_word(t as int),
{
    match t {
        2 => "twenty",
        3 => "thirty",
        4 => "forty",
        5 => "fifty",
        6 => "sixty",
        7 => "seventy",
        8 => "eighty",
        9 => "ninety",
        _ => {
            proof { reveal_strlit(""); }
            assert(""@ =~= tens_word(t as int));
            ""
        },
    }
}

/// The direct zillion prefix for `n` in [0,9], before the "illi" stem
/// is appended: "n" yields "nilli", "m" yields "milli", and so on.
pub open spec fn base_prefix(n: int) -> Seq<char> {
    if n == 0 { "n"@ }
    else if n == 1 { "m"@ }
    else if n == 2 { "b"@ }
    else if n == 3 { "tr"@ }
    else if n == 4 { "quadr"@ }
    else if n == 5 { "quint"@ }
    else if n == 6 { "sext"@ }
    else if n == 7 { "sept"@ }
    else if n == 8 { "oct"@ }
    else { "non"@ }
}

pub proof fn lemma_base_prefix(n: int)
    requires
        0 <= n <= 9,
    ensures
        no_space(base_prefix(n)),
        base_prefix(n).len() > 0,
{
    if n == 0 { reveal_strlit("n"); }
    else if n == 1 { reveal_strlit("m"); }
    else if n == 2 { reveal_strlit("b"); }
    else if n == 3 { reveal_strlit("tr"); }
    else if n == 4 { reveal_strlit("quadr"); }
    else if n == 5 { reveal_strlit("quint"); }
    else if n == 6 { reveal_strlit("sext"); }
    else if n == 7 { reveal_strlit("sept"); }
    else if n == 8 { reveal_strlit("oct"); }
    else { reveal_strlit("non"); }
}

/// The direct zillion prefix for `n` in [0,9].
pub fn base_prefix_str(n: u16) -> (r: &'static str)
    requires
        n <= 9,
    ensures
        r@ == base_prefix(n as int),
{
    match n {
        0 => "n",
        1 => "m",
        2 => "b",
        3 => "tr",
        4 => "quadr",
        5 => "quint",
        6 => "sext",
        7 => "sept",
        8 => "oct",
        _ => "non",
    }
}

/// The Latin units prefix for `u` in [0,9]; index 0 is the empty string.
pub open spec fn unit_prefix(u: int) -> Seq<char> {
    if u == 1 { "un"@ }
    else if u == 2 { "duo"@ }
    else if u == 3 { "tre"@ }
    else if u == 4 { "quattuor"@ }
    else if u == 5 { "quinqua"@ }
    else if u == 6 { "se"@ }
    else if u == 7 { "septe"@ }
    else if u == 8 { "octo"@ }
    else if u == 9 { "nove"@ }
    else { Seq::empty() }
}

pub proof fn lemma_unit_prefix(u: int)
    requires
        0 <= u <= 9,
    ensures
        no_space(unit_prefix(u)),
        unit_prefix(u).len() == 0 <==> u == 0,
{
    if u == 1 { reveal_strlit("un"); }
    else if u == 2 { reveal_strlit("duo"); }
    else if u == 3 { reveal_strlit("tre"); }
    else if u == 4 { reveal_strlit("quattuor"); }
    else if u == 5 { reveal_strlit("quinqua"); }
    else if u == 6 { reveal_strlit("se"); }
    else if u == 7 { reveal_strlit("septe"); }
    else if u == 8 { reveal_strlit("octo"); }
    else if u == 9 { reveal_strlit("nove"); }
}

/// The Latin units prefix for `u` in [0,9].
pub fn unit_prefix_str(u: u16) -> (r: &'static str)
    requires
        u <= 9,
    ensures
        r@ == unit_prefix(u as int),
{
    match u {
        1 => "un",
        2 => "duo",
        3 => "tre",
        4 => "quattuor",
        5 => "quinqua",
        6 => "se",
        7 => "septe",
        8 => "octo",
        9 => "nove",
        _ => {
            proof { reveal_strlit(""); }
            assert(""@ =~= unit_prefix(u as int));
            ""
        },
    }
}

/// The Latin tens prefix for `t` in [0,9]; index 0 is the empty string.
pub open spec fn tens_prefix(t: int) -> Seq<char> {
    if t == 1 { "deci"@ }
    else if t == 2 { "viginti"@ }
    else if t == 3 { "triginta"@ }
    else if t == 4 { "quadraginta"@ }
    else if t == 5 { "quinquaginta"@ }
    else if t == 6 { "sexaginta"@ }
    else if t == 7 { "septuaginta"@ }
    else if t == 8 { "octoginta"@ }
    else if t == 9 { "nonaginta"@ }
    else { Seq::empty() }
}

pub proof fn lemma_tens_prefix(t: int)
    requires
        0 <= t <= 9,
    ensures
        no_space(tens_prefix(t)),
        tens_prefix(t).len() == 0 <==> t == 0,
{
    if t == 1 { reveal_strlit("deci"); }
    else if t == 2 { reveal_strlit("viginti"); }
    else if t == 3 { reveal_strlit("triginta"); }
    else if t == 4 { reveal_strlit("quadraginta"); }
    else if t == 5 { reveal_strlit("quinquaginta"); }
    else if t == 6 { reveal_strlit("sexaginta"); }
    else if t == 7 { reveal_strlit("septuaginta"); }
    else if t == 8 { reveal_strlit("octoginta"); }
    else if t == 9 { reveal_strlit("nonaginta"); }
}

/// The Latin tens prefix for `t` in [0,9].
pub fn tens_prefix_str(t: u16) -> (r: &'static str)
    requires
        t <= 9,
    ensures
        r@ == tens_prefix(t as int),
{
    match t {
        1 => "deci",
        2 => "viginti",
        3 => "triginta",
        4 => "quadraginta",
        5 => "quinquaginta",
        6 => "sexaginta",
        7 => "septuaginta",
        8 => "octoginta",
        9 => "nonaginta",
        _ => {
            proof { reveal_strlit(""); }
            assert(""@ =~= tens_prefix(t as int));
            ""
        },
    }
}

/// The Latin hundreds prefix for `h` in [0,9]; index 0 is the empty string.
pub open spec fn hundreds_prefix(h: int) -> Seq<char> {
    if h == 1 { "centi"@ }
    else if h == 2 { "ducenti"@ }
    else if h == 3 { "trecenti"@ }
    else if h == 4 { "quadringenti"@ }
    else if h == 5 { "quingenti"@ }
    else if h == 6 { "sescenti"@ }
    else if h == 7 { "septingenti"@ }
    else if h == 8 { "octingenti"@ }
    else if h == 9 { "nongenti"@ }
    else { Seq::empty() }
}

pub proof fn lemma_hundreds_prefix(h: int)
    requires
        0 <= h <= 9,
    ensures
        no_space(hundreds_prefix(h)),
        hundreds_prefix(h).len() == 0 <==> h == 0,
{
    if h == 1 { reveal_strlit("centi"); }
    else if h == 2 { reveal_strlit("ducenti"); }
    else if h == 3 { reveal_strlit("trecenti"); }
    else if h == 4 { reveal_strlit("quadringenti"); }
    else if h == 5 { reveal_strlit("quingenti"); }
    else if h == 6 { reveal_strlit("sescenti"); }
    else if h == 7 { reveal_strlit("septingenti"); }
    else if h == 8 { reveal_strlit("octingenti"); }
    else if h == 9 { reveal_strlit("nongenti"); }
}

/// The Latin hundreds prefix for `h` in [0,9].
pub fn hundreds_prefix_str(h: u16) -> (r: &'static str)
    requires
        h <= 9,
    ensures
        r@ == hundreds_prefix(h as int),
{
    match h {
        1 => "centi",
        2 => "ducenti",
        3 => "trecenti",
        4 => "quadringenti",
        5 => "quingenti",
        6 => "sescenti",
        7 => "septingenti",
        8 => "octingenti",
        9 => "nongenti",
        _ => {
            proof { reveal_strlit(""); }
            assert(""@ =~= hundreds_prefix(h as int));
            ""
        },
    }
}

/// The letter inserted after the units prefix when the tens place `t` is
/// the adjacent nonzero digit. The adjacency sets for the tens place
/// differ from the hundreds-place sets; the asymmetry is part of the
/// prefix grammar and is kept exactly.
pub open spec fn euphonic_tens(u: int, t: int) -> Seq<char> {
    if u == 3 && (2 <= t <= 5 || t == 8) { "s"@ }
    else if u == 6 && 2 <= t <= 5 { "s"@ }
    else if u == 6 && t == 8 { "x"@ }
    else if (u == 7 || u == 9) && (t == 1 || 3 <= t <= 7) { "n"@ }
    else if (u == 7 || u == 9) && (t == 2 || t == 8) { "m"@ }
    else { Seq::empty() }
}

/// The letter inserted after the units prefix when the tens place is zero
/// and the hundreds place `h` is the adjacent nonzero digit.
pub open spec fn euphonic_hundreds(u: int, h: int) -> Seq<char> {
    if u == 3 && (h == 1 || 3 <= h <= 5 || h == 8) { "s"@ }
    else if u == 6 && (h == 1 || h == 8) { "x"@ }
    else if u == 6 && 3 <= h <= 5 { "s"@ }
    else if (u == 7 || u == 9) && 1 <= h <= 7 { "n"@ }
    else if (u == 7 || u == 9) && h == 8 { "m"@ }
    else { Seq::empty() }
}

pub proof fn lemma_euphonic_no_space(u: int, t: int, h: int)
    ensures
        no_space(euphonic_tens(u, t)),
        no_space(euphonic_hundreds(u, h)),
{
    reveal_strlit("s");
    reveal_strlit("x");
    reveal_strlit("n");
    reveal_strlit("m");
}

/// The euphonic insertion for the tens-adjacent case.
pub fn euphonic_tens_str(u: u16, t: u16) -> (r: &'static str)
    ensures
        r@ == euphonic_tens(u as int, t as int),
{
    if u == 3 && (2 <= t && t <= 5 || t == 8) { "s" }
    else if u == 6 && 2 <= t && t <= 5 { "s" }
    else if u == 6 && t == 8 { "x" }
    else if (u == 7 || u == 9) && (t == 1 || 3 <= t && t <= 7) { "n" }
    else if (u == 7 || u == 9) && (t == 2 || t == 8) { "m" }
    else {
        proof { reveal_strlit(""); }
        assert(""@ =~= euphonic_tens(u as int, t as int));
        ""
    }
}

/// The euphonic insertion for the hundreds-adjacent case.
pub fn euphonic_hundreds_str(u: u16, h: u16) -> (r: &'static str)
    ensures
        r@ == euphonic_hundreds(u as int, h as int),
{
    if u == 3 && (h == 1 || 3 <= h && h <= 5 || h == 8) { "s" }
    else if u == 6 && (h == 1 || h == 8) { "x" }
    else if u == 6 && 3 <= h && h <= 5 { "s" }
    else if (u == 7 || u == 9) && 1 <= h && h <= 7 { "n" }
    else if (u == 7 || u == 9) && h == 8 { "m" }
    else {
        proof { reveal_strlit(""); }
        assert(""@ =~= euphonic_hundreds(u as int, h as int));
        ""
    }
}

/// A concatenation of space-free fragments is space-free.
pub proof fn lemma_no_space_concat(a: Seq<char>, b: Seq<char>)
    requires
        no_space(a),
        no_space(b),
    ensures
        no_space(a + b),
{
    assert forall|i: int| 0 <= i < (a + b).len() implies (a + b)[i] != ' ' by {
        if i < a.len() {
            assert((a + b)[i] == a[i]);
        } else {
            assert((a + b)[i] == b[i - a.len()]);
        }
    }
}

/// A space-free fragment is well spaced.
pub proof fn lemma_no_space_well_spaced(s: Seq<char>)
    requires
        no_space(s),
    ensures
        well_spaced(s),
{
}

/// Joining two well-spaced fragments yields a well-spaced fragment,
/// which is empty exactly when both sides are.
pub proof fn lemma_join2_well_spaced(a: Seq<char>, b: Seq<char>)
    requires
        well_spaced(a),
        well_spaced(b),
    ensures
        well_spaced(join2(a, b)),
        join2(a, b).len() == 0 <==> a.len() == 0 && b.len() == 0,
{
    reveal_strlit(" ");
    if a.len() > 0 && b.len() > 0 {
        let s = a + " "@ + b;
        assert(s.len() == a.len() + 1 + b.len());
        assert forall|i: int| 0 <= i < s.len() - 1 implies !(#[trigger] s[i] == ' '
            && s[i + 1] == ' ') by {
            if i < a.len() - 1 {
                assert(s[i] == a[i] && s[i + 1] == a[i + 1]);
            } else if i == a.len() - 1 {
                assert(s[i] == a[i]);
            } else if i == a.len() {
                assert(s[i + 1] == b[0]);
            } else {
                assert(s[i] == b[i - a.len() - 1] && s[i + 1] == b[i - a.len()]);
            }
        }
        assert(s[0] == a[0]);
        assert(s[s.len() - 1] == b[b.len() - 1]);
    }
}

/// `join2` is associative.
pub proof fn lemma_join2_assoc(a: Seq<char>, b: Seq<char>, c: Seq<char>)
    ensures
        join2(join2(a, b), c) == join2(a, join2(b, c)),
{
    reveal_strlit(" ");
    if a.len() > 0 && b.len() > 0 && c.len() > 0 {
        assert(join2(join2(a, b), c) =~= join2(a, join2(b, c)));
    } else {
        assert(join2(join2(a, b), c) =~= join2(a, join2(b, c)));
    }
}

/// Joins a fragment and a further word with a single space, omitted when
/// either side is empty.
pub fn join2_exec(a: String, b: &str) -> (r: String)
    ensures
        r@ == join2(a@, b@),
{
    if a.as_str().is_empty() {
        String::from_str(b)
    } else if b.is_empty() {
        a
    } else {
        let mut r = a;
        r.append(" ");
        r.append(b);
        r
    }
}

} // verus!


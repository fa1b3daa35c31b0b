//! Chained zillion names for an arbitrary non-negative group index.

use vstd::prelude::*;
use vstd::arithmetic::div_mod::lemma_div_decreases;
use crate::words::{lemma_no_space_concat, no_space, well_spaced};
use crate::prefix::{lemma_zillion_prefix_word, zillion_prefix_word, ZillionPrefixBuilder};

verus! {

/// The chained zillion prefixes of `p`, base 1000, most significant group
/// first: for example 1000001 yields "milli" "nilli" "unilli" in order.
pub open spec fn zillion_chain(p: nat) -> Seq<char>
    decreases p,
{
    if p == 0 {
        Seq::empty()
    } else {
        zillion_chain(p / 1000) + zillion_prefix_word((p % 1000) as int)
    }
}

/// The scale word for group index `g`: nothing for the units group,
/// "thousand" for group 1, and a chained "-illion" word from group 2 on.
/// Group `g` reduces to chain index `g - 1`, so that the first "-illion"
/// (group 2) maps to the prefix "milli".
pub open spec fn zillion_suffix(g: nat) -> Seq<char> {
    if g == 0 {
        Seq::empty()
    } else if g == 1 {
        "thousand"@
    } else {
        zillion_chain((g - 1) as nat) + "on"@
    }
}

/// A chained prefix is space-free, and empty only for chain index 0.
pub proof fn lemma_zillion_chain(p: nat)
    ensures
        no_space(zillion_chain(p)),
        zillion_chain(p).len() == 0 <==> p == 0,
    decreases p,
{
    if p != 0 {
        lemma_zillion_chain(p / 1000);
        lemma_zillion_prefix_word((p % 1000) as int);
        lemma_no_space_concat(zillion_chain(p / 1000), zillion_prefix_word((p % 1000) as int));
    }
}

/// A scale word is a single space-free word, empty only for group 0.
pub proof fn lemma_zillion_suffix(g: nat)
    ensures
        no_space(zillion_suffix(g)),
        well_spaced(zillion_suffix(g)),
        zillion_suffix(g).len() == 0 <==> g == 0,
{
    if g == 1 {
        reveal_strlit("thousand");
    } else if g >= 2 {
        reveal_strlit("on");
        lemma_zillion_chain((g - 1) as nat);
        lemma_no_space_concat(zillion_chain((g - 1) as nat), "on"@);
    }
}

/// Names an arbitrary power of 1000 by chaining zillion prefixes.
pub struct ZillionSuffixComposer;

impl ZillionSuffixComposer {
    /// The scale word for group index `g`: "" for 0, "thousand" for 1,
    /// "million", "billion", ... from 2 on.
    pub fn compose(g: usize) -> (r: String)
        ensures
            r@ == zillion_suffix(g as nat),
    {
        if g == 0 {
            let r = String::new();
            proof {
                assert(r@ =~= zillion_suffix(0));
            }
            r
        } else if g == 1 {
            String::from_str("thousand")
        } else {
            let mut p: usize = g - 1;
            let mut acc = String::from_str("on");
            while p > 0
                invariant
                    zillion_chain((g - 1) as nat) + "on"@ == zillion_chain(p as nat) + acc@,
                decreases p,
            {
                proof {
                    lemma_div_decreases(p as int, 1000);
                }
                let w = ZillionPrefixBuilder::prefix((p % 1000) as u16);
                let next = w.concat(acc.as_str());
                proof {
                    assert(zillion_chain(p as nat) + acc@ =~= zillion_chain((p / 1000) as nat)
                        + next@);
                }
                acc = next;
                p = p / 1000;
            }
            proof {
                assert(zillion_chain(0) + acc@ =~= acc@);
            }
            acc
        }
    }
}

} // verus!

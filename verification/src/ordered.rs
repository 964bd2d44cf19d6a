//! Ordered enumeration of index sets.

use std::collections::BTreeSet;
use vstd::prelude::*;
use vstd::std_specs::btree::axiom_increasing_seq_meaning;
use vstd::std_specs::btree::axiom_spec_btree_keys_iter;
use vstd::std_specs::btree::spec_btree_keys_iter;
use vstd::std_specs::cmp::OrdSpec;
use vstd::std_specs::iter::IteratorSpec;

verus! {

/// Every element is smaller than all elements after it.
pub open spec fn strictly_ascending(s: Seq<usize>) -> bool {
    forall|i: int, j: int| 0 <= i < j < s.len() ==> s[i] < s[j]
}

/// Adds `x` to `set`; the result says whether it was new.
pub fn insert_index(set: &mut BTreeSet<usize>, x: usize) -> (added: bool)
    ensures
        final(set)@ == old(set)@.insert(x),
        added == !old(set)@.contains(x),
{
    proof {
        broadcast use vstd::laws_cmp::group_laws_cmp;
    }
    set.insert(x)
}

/// The members of `set`, smallest first.
pub fn ordered_members(set: &BTreeSet<usize>) -> (out: Vec<usize>)
    ensures
        strictly_ascending(out@),
        out@.to_set() == set@,
        out@.no_duplicates(),
        out@.len() == set@.len(),
{
    let mut out: Vec<usize> = Vec::new();
    let ghost keys = spec_btree_keys_iter(set).remaining();
    for x in it: set.iter()
        invariant
            it.seq() == keys,
            out@.len() == it.index(),
            forall|k: int| 0 <= k < out@.len() ==> out@[k] == *keys[k],
    {
        out.push(*x);
    }
    proof {
        broadcast use vstd::laws_cmp::group_laws_cmp;
        axiom_spec_btree_keys_iter(set);
        axiom_increasing_seq_meaning::<&usize>(keys);
        assert(out@ =~= keys.unref());
        assert forall|i: int, j: int| 0 <= i < j < out@.len() implies out@[i] < out@[j] by {
            assert(OrdSpec::cmp_spec(&keys[i], &keys[j]) is Less);
        }
    }
    out
}

} // verus!

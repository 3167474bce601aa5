//! Numbers in ascending order.
use std::collections::BTreeSet;
use vstd::prelude::*;

verus! {

broadcast use vstd::std_specs::btree::group_btree_axioms;

/// Each number is below the next.
pub open spec fn is_ascending(pids: Seq<u32>) -> bool {
    forall|i: int, j: int| 0 <= i < j < pids.len() ==> pids[i] < pids[j]
}

/// References to numbers are ordered as the numbers are.
proof fn lemma_references_ordered()
    ensures
        vstd::laws_cmp::obeys_cmp::<&u32>(),
{
    broadcast use vstd::laws_eq::group_laws_eq;

    reveal(vstd::laws_eq::obeys_eq_spec_properties);
    reveal(vstd::laws_cmp::obeys_partial_cmp_spec_properties);
    reveal(vstd::laws_cmp::obeys_cmp_partial_ord);
    reveal(vstd::laws_cmp::obeys_cmp_ord);
    assert(vstd::laws_eq::obeys_eq::<&u32>());
}

/// The members of a set, in ascending order.
pub fn in_order(set: &BTreeSet<u32>) -> (pids: Vec<u32>)
    ensures
        is_ascending(pids@),
        pids@.to_set() == set@,
{
    let mut pids: Vec<u32> = Vec::new();
    let ghost all = vstd::std_specs::iter::IteratorSpec::remaining(
        &vstd::std_specs::btree::spec_btree_keys_iter(set),
    );
    for pid in iter: set.iter()
        invariant
            iter.seq() == all,
            pids@.len() == iter.index(),
            forall|i: int| 0 <= i < pids@.len() ==> pids@[i] == *iter.seq()[i],
    {
        pids.push(*pid);
    }
    proof {
        assert(pids@ =~= all.unref());
        lemma_references_ordered();
        assert(vstd::std_specs::btree::increasing_seq(all));
        assert forall|i: int, j: int| 0 <= i < j < pids@.len() implies pids@[i] < pids@[j] by {
            assert(vstd::std_specs::cmp::OrdSpec::cmp_spec(&all[i], &all[j]) is Less);
            assert(pids@[i] == *all[i] && pids@[j] == *all[j]);
        }
    }
    pids
}

} // verus!

//! Walks over sets of peer identifiers.

use std::collections::HashSet;
use vstd::prelude::*;
use vstd::std_specs::iter::IteratorSpec;

verus! {

/// Whether no member of `ids` is below `id`.
pub open spec fn is_lower_bound(ids: Set<u32>, id: u32) -> bool {
    forall|other: u32| ids.contains(other) ==> id <= other
}

/// Tells whether no member of `ids` is below `id`.
pub fn none_below(ids: &HashSet<u32>, id: u32) -> (none: bool)
    ensures
        none == is_lower_bound(ids@, id),
{
    broadcast use vstd::std_specs::hash::group_hash_axioms;

    let ghost keys: Seq<u32> = ids.iter().remaining().unref();
    let mut none = true;
    for other in walk: ids.iter()
        invariant
            walk.seq().unref() == keys,
            none == (forall|i: int| 0 <= i < walk.index() ==> id <= #[trigger] keys[i]),
    {
        assert(*other == keys[walk.index()]);
        if *other < id {
            none = false;
        }
    }
    proof {
        assert(keys.to_set() == ids@);
        assert forall|other: u32| ids@.contains(other) implies exists|i: int|
            0 <= i < keys.len() && keys[i] == other by {
            assert(keys.to_set().contains(other));
        }
        assert forall|i: int| 0 <= i < keys.len() implies ids@.contains(#[trigger] keys[i]) by {
            assert(keys.to_set().contains(keys[i]));
        }
    }
    none
}

/// A new set with the members of `ids`.
pub fn copy_set(ids: &HashSet<u32>) -> (copy: HashSet<u32>)
    ensures
        copy@ == ids@,
{
    broadcast use vstd::std_specs::hash::group_hash_axioms;

    let ghost keys: Seq<u32> = ids.iter().remaining().unref();
    let mut copy: HashSet<u32> = HashSet::new();
    for id in walk: ids.iter()
        invariant
            walk.seq().unref() == keys,
            copy@ == keys.take(walk.index()).to_set(),
    {
        assert(*id == keys[walk.index()]);
        copy.insert(*id);
        proof {
            let seen = keys.take(walk.index());
            let grown = keys.take(walk.index() + 1);
            assert(grown == seen.push(keys[walk.index()]));
            assert forall|x: u32| grown.to_set().contains(x) <==> seen.to_set().insert(
                keys[walk.index()],
            ).contains(x) by {
                if grown.contains(x) {
                    let j = choose|j: int| 0 <= j < grown.len() && grown[j] == x;
                    if j < seen.len() {
                        assert(seen[j] == x);
                    }
                }
                if seen.contains(x) {
                    let j = choose|j: int| 0 <= j < seen.len() && seen[j] == x;
                    assert(grown[j] == x);
                }
                assert(grown[seen.len() as int] == keys[walk.index()]);
            }
            assert(copy@ =~= grown.to_set());
        }
    }
    proof {
        assert(keys.take(keys.len() as int) == keys);
    }
    copy
}

} // verus!

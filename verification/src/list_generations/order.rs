//! The order in which a map ordered by its keys hands its keys out.

use vstd::prelude::*;
use vstd::std_specs::btree::{axiom_increasing_seq_meaning, increasing_seq, key_obeys_cmp_spec};
use vstd::std_specs::cmp::OrdSpec;

verus! {

/// Whether `u32` compares as the numbers do, which is what a map ordered by
/// `u32` keys rests on.
pub open spec fn numbers_ordered() -> bool {
    vstd::laws_cmp::obeys_cmp::<u32>() && key_obeys_cmp_spec::<u32>()
}

/// `u32` compares as the numbers do.
pub proof fn lemma_numbers_ordered()
    ensures
        numbers_ordered(),
{
    broadcast use vstd::std_specs::btree::group_btree_axioms;
    broadcast use vstd::laws_cmp::group_laws_cmp;

}

/// Numbers that come in the increasing order of `u32`'s own comparison
/// ascend: each is below every later one.
pub proof fn lemma_increasing_ascends(keys: Seq<u32>)
    requires
        increasing_seq(keys),
    ensures
        forall|i: int, j: int| 0 <= i < j < keys.len() ==> keys[i] < keys[j],
{
    broadcast use vstd::std_specs::btree::group_btree_axioms;
    broadcast use vstd::laws_cmp::group_laws_cmp;

    axiom_increasing_seq_meaning::<u32>(keys);
    assert forall|i: int, j: int| 0 <= i < j < keys.len() implies keys[i] < keys[j] by {
        assert(keys[i].cmp_spec(&keys[j]) is Less);
    }
}

} // verus!

//! Lists.

use vstd::prelude::*;
use vstd::seq_lib::{group_to_multiset_ensures, to_multiset_build, to_multiset_len};

verus! {

/// Among the items of a list that are kept, an item occurs as often as in
/// the list, where it is kept itself, and else not at all.
pub proof fn lemma_filter_count<A>(list: Seq<A>, keep: spec_fn(A) -> bool, item: A)
    ensures
        list.filter(keep).to_multiset().count(item) == if keep(item) {
            list.to_multiset().count(item)
        } else {
            0
        },
    decreases list.len(),
{
    broadcast use group_to_multiset_ensures;

    if list.len() == 0 {
        list.lemma_filter_len(keep);
        assert(list.filter(keep) =~= Seq::<A>::empty());
        assert(list.to_multiset().count(item) == 0) by {
            to_multiset_len(list);
        }
        assert(Seq::<A>::empty().to_multiset().count(item) == 0) by {
            to_multiset_len(Seq::<A>::empty());
        }
    } else {
        let earlier = list.drop_last();
        let last = list.last();
        assert(list =~= earlier.push(last));
        lemma_filter_count(earlier, keep, item);
        earlier.lemma_filter_push(last, keep);
        to_multiset_build(earlier, last);
        to_multiset_build(earlier.filter(keep), last);
    }
}

/// What is kept of a list does not depend on the order of the list, but
/// for its own order.
pub proof fn lemma_filter_of_permutation<A>(first: Seq<A>, second: Seq<A>, keep: spec_fn(A) -> bool)
    requires
        first.to_multiset() == second.to_multiset(),
    ensures
        first.filter(keep).to_multiset() == second.filter(keep).to_multiset(),
        first.filter(keep).len() == second.filter(keep).len(),
{
    assert forall|item: A|
        first.filter(keep).to_multiset().count(item) == second.filter(keep).to_multiset().count(
            item,
        ) by {
        lemma_filter_count(first, keep, item);
        lemma_filter_count(second, keep, item);
    }
    assert(first.filter(keep).to_multiset() =~= second.filter(keep).to_multiset());
    to_multiset_len(first.filter(keep));
    to_multiset_len(second.filter(keep));
}

/// Turns a list round: what came last comes first.
pub fn reversed<T>(list: Vec<T>) -> (result: Vec<T>)
    ensures
        result@ == list@.reverse(),
{
    let ghost all = list@;
    let mut rest = list;
    let mut result: Vec<T> = Vec::new();
    while rest.len() > 0
        invariant
            result@.len() + rest@.len() == all.len(),
            forall|index: int| 0 <= index < rest@.len() ==> rest@[index] == all[index],
            forall|index: int|
                0 <= index < result@.len() ==> result@[index] == all[all.len() - 1 - index],
        decreases rest.len(),
    {
        let last = rest.pop().unwrap();
        result.push(last);
    }
    assert(result@ =~= all.reverse());
    result
}

} // verus!

//! The order of fragments within a section.
//!
//! Fragments are ordered by ID, then by type, then by content. Integer IDs
//! come before string IDs; integers are ordered by value, strings in
//! dictionary order by code point.

use vstd::prelude::*;
use vstd::relations::{sorted_by, total_ordering};
use vstd::seq_lib::{
    group_to_multiset_ensures, lemma_sorted_unique, to_multiset_build, to_multiset_len,
};

use crate::fragment::{Fragment, FragmentView, Id, IdView, Partial, PartialView};
use crate::text::{
    lemma_text_le_antisymmetric, lemma_text_le_reflexive, lemma_text_le_total,
    lemma_text_le_transitive, precedes, text_le, to_chars,
};

verus! {

/// Whether the ID `left` does not come after the ID `right`.
pub open spec fn id_le(left: IdView, right: IdView) -> bool {
    match (left, right) {
        (IdView::Integer(left), IdView::Integer(right)) => left <= right,
        (IdView::Integer(_), IdView::String(_)) => true,
        (IdView::String(_), IdView::Integer(_)) => false,
        (IdView::String(left), IdView::String(right)) => text_le(left, right),
    }
}

/// Whether the partial fragment `left` does not come after `right`.
pub open spec fn partial_le(left: PartialView, right: PartialView) -> bool {
    if left.id != right.id {
        id_le(left.id, right.id)
    } else {
        text_le(left.kind, right.kind)
    }
}

/// Whether the fragment `left` does not come after `right`.
pub open spec fn fragment_le(left: FragmentView, right: FragmentView) -> bool {
    if left.partial != right.partial {
        partial_le(left.partial, right.partial)
    } else {
        text_le(left.content, right.content)
    }
}

/// The order of fragments, as a relation.
pub open spec fn fragment_order() -> spec_fn(FragmentView, FragmentView) -> bool {
    |left: FragmentView, right: FragmentView| fragment_le(left, right)
}

/// The fragments `fragments` in their order.
pub open spec fn sorted_fragments(fragments: Seq<FragmentView>) -> Seq<FragmentView> {
    fragments.sort_by(fragment_order())
}

/// What the fragments of a list hold, in the order of the list.
pub open spec fn fragment_views(fragments: Seq<Fragment>) -> Seq<FragmentView> {
    fragments.map_values(|fragment: Fragment| fragment@)
}

proof fn lemma_id_le_antisymmetric(left: IdView, right: IdView)
    requires
        id_le(left, right),
        id_le(right, left),
    ensures
        left == right,
{
    match (left, right) {
        (IdView::String(left), IdView::String(right)) => {
            lemma_text_le_antisymmetric(left, right);
        },
        _ => {},
    }
}

proof fn lemma_id_le_transitive(first: IdView, second: IdView, third: IdView)
    requires
        id_le(first, second),
        id_le(second, third),
    ensures
        id_le(first, third),
{
    match (first, second, third) {
        (IdView::String(first), IdView::String(second), IdView::String(third)) => {
            lemma_text_le_transitive(first, second, third);
        },
        _ => {},
    }
}

proof fn lemma_id_le_total(left: IdView, right: IdView)
    ensures
        id_le(left, right) || id_le(right, left),
{
    match (left, right) {
        (IdView::String(left), IdView::String(right)) => {
            lemma_text_le_total(left, right);
        },
        _ => {},
    }
}

proof fn lemma_partial_le_antisymmetric(left: PartialView, right: PartialView)
    requires
        partial_le(left, right),
        partial_le(right, left),
    ensures
        left == right,
{
    if left.id != right.id {
        lemma_id_le_antisymmetric(left.id, right.id);
    } else {
        lemma_text_le_antisymmetric(left.kind, right.kind);
    }
}

proof fn lemma_partial_le_transitive(first: PartialView, second: PartialView, third: PartialView)
    requires
        partial_le(first, second),
        partial_le(second, third),
    ensures
        partial_le(first, third),
{
    if first.id == second.id && second.id == third.id {
        lemma_text_le_transitive(first.kind, second.kind, third.kind);
    } else if first.id == second.id || second.id == third.id {
    } else {
        lemma_id_le_transitive(first.id, second.id, third.id);
        if first.id == third.id {
            lemma_id_le_antisymmetric(first.id, second.id);
        }
    }
}

proof fn lemma_partial_le_total(left: PartialView, right: PartialView)
    ensures
        partial_le(left, right) || partial_le(right, left),
{
    if left.id != right.id {
        lemma_id_le_total(left.id, right.id);
    } else {
        lemma_text_le_total(left.kind, right.kind);
    }
}

/// A fragment does not come after itself.
pub proof fn lemma_fragment_le_reflexive(fragment: FragmentView)
    ensures
        fragment_le(fragment, fragment),
{
    lemma_text_le_reflexive(fragment.content);
}

/// Two fragments of which neither comes after the other are the same.
pub proof fn lemma_fragment_le_antisymmetric(left: FragmentView, right: FragmentView)
    requires
        fragment_le(left, right),
        fragment_le(right, left),
    ensures
        left == right,
{
    if left.partial != right.partial {
        lemma_partial_le_antisymmetric(left.partial, right.partial);
    } else {
        lemma_text_le_antisymmetric(left.content, right.content);
    }
}

/// The order of fragments is transitive.
pub proof fn lemma_fragment_le_transitive(
    first: FragmentView,
    second: FragmentView,
    third: FragmentView,
)
    requires
        fragment_le(first, second),
        fragment_le(second, third),
    ensures
        fragment_le(first, third),
{
    if first.partial == second.partial && second.partial == third.partial {
        lemma_text_le_transitive(first.content, second.content, third.content);
    } else if first.partial == second.partial || second.partial == third.partial {
    } else {
        lemma_partial_le_transitive(first.partial, second.partial, third.partial);
        if first.partial == third.partial {
            lemma_partial_le_antisymmetric(first.partial, second.partial);
        }
    }
}

/// Of two fragments one does not come after the other.
pub proof fn lemma_fragment_le_total(left: FragmentView, right: FragmentView)
    ensures
        fragment_le(left, right) || fragment_le(right, left),
{
    if left.partial != right.partial {
        lemma_partial_le_total(left.partial, right.partial);
    } else {
        lemma_text_le_total(left.content, right.content);
    }
}

/// The order of fragments is a total order.
pub proof fn lemma_fragment_order_is_total()
    ensures
        total_ordering(fragment_order()),
{
    let order = fragment_order();
    assert forall|fragment: FragmentView| #[trigger] order(fragment, fragment) by {
        lemma_fragment_le_reflexive(fragment);
    }
    assert forall|left: FragmentView, right: FragmentView| #[trigger]
        order(left, right) && #[trigger] order(right, left) implies left == right by {
        lemma_fragment_le_antisymmetric(left, right);
    }
    assert forall|first: FragmentView, second: FragmentView, third: FragmentView| #[trigger]
        order(first, second) && #[trigger] order(second, third) implies order(first, third) by {
        lemma_fragment_le_transitive(first, second, third);
    }
    assert forall|left: FragmentView, right: FragmentView| #[trigger]
        order(left, right) || #[trigger] order(right, left) by {
        lemma_fragment_le_total(left, right);
    }
}

/// Sorting puts the fragments in order and keeps each of them, as often as it occurs.
pub proof fn lemma_sorted_fragments(fragments: Seq<FragmentView>)
    ensures
        sorted_by(sorted_fragments(fragments), fragment_order()),
        sorted_fragments(fragments).to_multiset() == fragments.to_multiset(),
        sorted_fragments(fragments).len() == fragments.len(),
{
    broadcast use group_to_multiset_ensures;

    lemma_fragment_order_is_total();
    fragments.lemma_sort_by_ensures(fragment_order());
    to_multiset_len(fragments);
    to_multiset_len(sorted_fragments(fragments));
}

/// Sorting does not depend on the order in which the fragments come.
pub proof fn lemma_sorted_fragments_of_permutation(
    first: Seq<FragmentView>,
    second: Seq<FragmentView>,
)
    requires
        first.to_multiset() == second.to_multiset(),
    ensures
        sorted_fragments(first) == sorted_fragments(second),
{
    lemma_fragment_order_is_total();
    lemma_sorted_fragments(first);
    lemma_sorted_fragments(second);
    lemma_sorted_unique(sorted_fragments(first), sorted_fragments(second), fragment_order());
}

impl Id {
    /// Whether this ID does not come after `other`.
    pub fn precedes(&self, other: &Id) -> (result: bool)
        ensures
            result == id_le(self@, other@),
    {
        match self {
            Id::Integer(left) => match other {
                Id::Integer(right) => *left <= *right,
                Id::String(_) => true,
            },
            Id::String(left) => match other {
                Id::Integer(_) => false,
                Id::String(right) => precedes(&to_chars(left.as_str()), &to_chars(right.as_str())),
            },
        }
    }
}

impl Partial {
    /// Whether this partial fragment does not come after `other`.
    pub fn precedes(&self, other: &Partial) -> (result: bool)
        ensures
            result == partial_le(self@, other@),
    {
        let before = self.id.precedes(&other.id);
        let after = other.id.precedes(&self.id);
        if before && after {
            proof {
                lemma_id_le_antisymmetric(self.id@, other.id@);
            }
            precedes(&to_chars(self.kind.as_str()), &to_chars(other.kind.as_str()))
        } else {
            proof {
                lemma_id_le_total(self.id@, other.id@);
                if self.id@ == other.id@ {
                    assert(id_le(self.id@, other.id@) && id_le(other.id@, self.id@));
                }
            }
            before
        }
    }
}

impl Fragment {
    /// Whether this fragment does not come after `other`.
    pub fn precedes(&self, other: &Fragment) -> (result: bool)
        ensures
            result == fragment_le(self@, other@),
    {
        let before = self.partial.precedes(&other.partial);
        let after = other.partial.precedes(&self.partial);
        if before && after {
            proof {
                lemma_partial_le_antisymmetric(self.partial@, other.partial@);
            }
            precedes(&to_chars(self.content.as_str()), &to_chars(other.content.as_str()))
        } else {
            proof {
                lemma_partial_le_total(self.partial@, other.partial@);
                if self.partial@ == other.partial@ {
                    assert(partial_le(self.partial@, other.partial@) && partial_le(
                        other.partial@,
                        self.partial@,
                    ));
                }
            }
            before
        }
    }
}

/// Puts `fragment` into the sorted list `fragments`, behind the fragments
/// that do not come after it.
fn insert_sorted(fragments: &mut Vec<Fragment>, fragment: Fragment)
    requires
        sorted_by(fragment_views(old(fragments)@), fragment_order()),
    ensures
        sorted_by(fragment_views(final(fragments)@), fragment_order()),
        fragment_views(final(fragments)@).to_multiset() == fragment_views(
            old(fragments)@,
        ).to_multiset().insert(fragment@),
{
    broadcast use group_to_multiset_ensures;

    let mut position: usize = fragments.len();
    while position > 0 && !fragments[position - 1].precedes(&fragment)
        invariant
            position <= fragments.len(),
            *fragments == *old(fragments),
            forall|later: int|
                position <= later < fragments.len() ==> !fragment_le(
                    #[trigger] fragments@[later]@,
                    fragment@,
                ),
        decreases position,
    {
        position -= 1;
    }
    let ghost before = fragment_views(fragments@);
    fragments.insert(position, fragment);
    proof {
        let after = fragment_views(fragments@);
        assert(after =~= before.insert(position as int, fragment@));
        assert forall|low: int, high: int| 0 <= low < high < after.len() implies #[trigger]
            fragment_order()(after[low], after[high]) by {
            if high == position {
                assert(after[low] == before[low]);
                assert(fragment_le(before[position - 1], fragment@));
                if low < position - 1 {
                    assert(fragment_order()(before[low], before[position - 1]));
                    lemma_fragment_le_transitive(before[low], before[position - 1], fragment@);
                }
            } else if low == position {
                assert(after[high] == before[high - 1]);
                assert(!fragment_le(before[high - 1], fragment@));
                lemma_fragment_le_total(before[high - 1], fragment@);
            } else {
                let old_low = if low < position {
                    low
                } else {
                    low - 1
                };
                let old_high = if high < position {
                    high
                } else {
                    high - 1
                };
                assert(after[low] == before[old_low]);
                assert(after[high] == before[old_high]);
                assert(fragment_order()(before[old_low], before[old_high]));
            }
        }
    }
}

/// Sorts `fragments`.
pub fn sort(fragments: Vec<Fragment>) -> (sorted: Vec<Fragment>)
    ensures
        fragment_views(sorted@) == sorted_fragments(fragment_views(fragments@)),
{
    broadcast use group_to_multiset_ensures;

    let ghost views = fragment_views(fragments@);
    let mut sorted: Vec<Fragment> = Vec::new();
    let mut rest = fragments;
    assert(fragment_views(sorted@) =~= Seq::<FragmentView>::empty());
    while rest.len() > 0
        invariant
            sorted_by(fragment_views(sorted@), fragment_order()),
            fragment_views(sorted@).to_multiset().add(fragment_views(rest@).to_multiset())
                == views.to_multiset(),
        decreases rest.len(),
    {
        let ghost before = fragment_views(rest@);
        let ghost placed = fragment_views(sorted@);
        let fragment = rest.pop().unwrap();
        proof {
            assert(fragment_views(rest@) =~= before.drop_last());
            assert(before =~= before.drop_last().push(fragment@));
            to_multiset_build(before.drop_last(), fragment@);
        }
        insert_sorted(&mut sorted, fragment);
        proof {
            assert(placed.to_multiset().insert(fragment@).add(before.drop_last().to_multiset())
                =~= placed.to_multiset().add(before.drop_last().to_multiset().insert(fragment@)));
        }
    }
    proof {
        assert(fragment_views(rest@) =~= Seq::<FragmentView>::empty());
        assert(fragment_views(sorted@).to_multiset() =~= views.to_multiset());
        lemma_fragment_order_is_total();
        lemma_sorted_fragments(views);
        lemma_sorted_unique(fragment_views(sorted@), sorted_fragments(views), fragment_order());
    }
    sorted
}

} // verus!

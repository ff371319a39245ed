//! Sections: the fragments of a changelog entry, grouped by their type.

use vstd::prelude::*;
use vstd::relations::sorted_by;
use vstd::seq_lib::{group_to_multiset_ensures, to_multiset_build, to_multiset_len};

use crate::fragment::{Entry, Fragment, FragmentView, LoadFailure};
use crate::list::{lemma_filter_of_permutation, reversed};
use crate::sorting::{
    fragment_order, fragment_views, lemma_sorted_fragments,
    lemma_sorted_fragments_of_permutation, sort, sorted_fragments,
};
use crate::table::Table;

verus! {

/// The fragments whose type is `kind`.
pub open spec fn of_kind(kind: Seq<char>) -> spec_fn(FragmentView) -> bool {
    |fragment: FragmentView| fragment.partial.kind == kind
}

/// The fragments grouped by their type: under each type that occurs, the
/// fragments of that type in the order in which they come.
pub open spec fn grouped(fragments: Seq<FragmentView>) -> Map<Seq<char>, Seq<FragmentView>> {
    Map::new(
        |kind: Seq<char>| fragments.filter(of_kind(kind)).len() > 0,
        |kind: Seq<char>| fragments.filter(of_kind(kind)),
    )
}

/// The sections that the fragments make: grouped by type, each group sorted.
pub open spec fn sections_of(fragments: Seq<FragmentView>) -> Map<Seq<char>, Seq<FragmentView>> {
    grouped(fragments).map_values(|group: Seq<FragmentView>| sorted_fragments(group))
}

/// The fragments that the files make, in the order of the files. A file that
/// makes no fragment is passed over.
pub open spec fn loaded_fragments(entries: Seq<Entry>) -> Seq<FragmentView>
    decreases entries.len(),
{
    if entries.len() == 0 {
        Seq::empty()
    } else {
        let earlier = loaded_fragments(entries.drop_last());
        match entries.last().loaded() {
            Ok(fragment) => earlier.push(fragment),
            Err(_) => earlier,
        }
    }
}

/// The sections that the files of a directory make.
pub open spec fn collected(entries: Seq<Entry>) -> Map<Seq<char>, Seq<FragmentView>> {
    sections_of(loaded_fragments(entries))
}

/// Adding a fragment to the grouped fragments puts it at the end of its group.
pub proof fn lemma_grouped_push(fragments: Seq<FragmentView>, fragment: FragmentView)
    ensures
        grouped(fragments.push(fragment)) == grouped(fragments).insert(
            fragment.partial.kind,
            fragments.filter(of_kind(fragment.partial.kind)).push(fragment),
        ),
{
    let kind = fragment.partial.kind;
    let before = grouped(fragments);
    let after = grouped(fragments.push(fragment));
    assert forall|other: Seq<char>|
        after.contains_key(other) == #[trigger] before.insert(
            kind,
            fragments.filter(of_kind(kind)).push(fragment),
        ).contains_key(other) && (after.contains_key(other) ==> after[other] == before.insert(
            kind,
            fragments.filter(of_kind(kind)).push(fragment),
        )[other]) by {
        fragments.lemma_filter_push(fragment, of_kind(other));
    }
    assert(after =~= before.insert(kind, fragments.filter(of_kind(kind)).push(fragment)));
}

/// The sections do not depend on the order in which the fragments come.
pub proof fn lemma_sections_of_permutation(first: Seq<FragmentView>, second: Seq<FragmentView>)
    requires
        first.to_multiset() == second.to_multiset(),
    ensures
        sections_of(first) == sections_of(second),
{
    assert forall|kind: Seq<char>|
        sections_of(first).contains_key(kind) == #[trigger] sections_of(second).contains_key(kind)
            && (sections_of(first).contains_key(kind) ==> sections_of(first)[kind] == sections_of(
            second,
        )[kind]) by {
        lemma_filter_of_permutation(first, second, of_kind(kind));
        lemma_sorted_fragments_of_permutation(
            first.filter(of_kind(kind)),
            second.filter(of_kind(kind)),
        );
    }
    assert(sections_of(first) =~= sections_of(second));
}

/// Whether the file makes the fragment `fragment`.
pub open spec fn makes(fragment: FragmentView) -> spec_fn(Entry) -> bool {
    |entry: Entry| entry.loaded() == Ok::<FragmentView, LoadFailure>(fragment)
}

/// A fragment is loaded as often as there is a file that makes it.
proof fn lemma_loaded_count(entries: Seq<Entry>, fragment: FragmentView)
    ensures
        loaded_fragments(entries).to_multiset().count(fragment) == entries.filter(
            makes(fragment),
        ).len(),
    decreases entries.len(),
{
    broadcast use group_to_multiset_ensures;

    entries.lemma_filter_len(makes(fragment));
    if entries.len() == 0 {
        assert(Seq::<FragmentView>::empty().to_multiset().count(fragment) == 0) by {
            to_multiset_len(Seq::<FragmentView>::empty());
        }
    } else {
        let earlier = entries.drop_last();
        let last = entries.last();
        assert(entries =~= earlier.push(last));
        lemma_loaded_count(earlier, fragment);
        earlier.lemma_filter_push(last, makes(fragment));
        if last.loaded() is Ok {
            to_multiset_build(loaded_fragments(earlier), last.loaded()->Ok_0);
        }
    }
}

/// The fragments that are loaded do not depend on the order of the files,
/// but for their own order.
pub proof fn lemma_loaded_of_permutation(first: Seq<Entry>, second: Seq<Entry>)
    requires
        first.to_multiset() == second.to_multiset(),
    ensures
        loaded_fragments(first).to_multiset() == loaded_fragments(second).to_multiset(),
{
    assert forall|fragment: FragmentView|
        loaded_fragments(first).to_multiset().count(fragment) == loaded_fragments(
            second,
        ).to_multiset().count(fragment) by {
        lemma_loaded_count(first, fragment);
        lemma_loaded_count(second, fragment);
        lemma_filter_of_permutation(first, second, makes(fragment));
    }
    assert(loaded_fragments(first).to_multiset() =~= loaded_fragments(second).to_multiset());
}

/// The sections that are collected do not depend on the order in which the
/// files of the directory come.
pub proof fn lemma_collected_of_permutation(first: Seq<Entry>, second: Seq<Entry>)
    requires
        first.to_multiset() == second.to_multiset(),
    ensures
        collected(first) == collected(second),
{
    lemma_loaded_of_permutation(first, second);
    lemma_sections_of_permutation(loaded_fragments(first), loaded_fragments(second));
}

/// A file that makes no fragment, such as one with a name that is not the
/// name of a fragment, changes nothing, wherever it stands among the files.
pub proof fn lemma_collected_skips(entries: Seq<Entry>, entry: Entry, index: int)
    requires
        0 <= index <= entries.len(),
        entry.loaded() is Err,
    ensures
        collected(entries.insert(index, entry)) == collected(entries),
{
    broadcast use group_to_multiset_ensures;

    let longer = entries.insert(index, entry);
    assert(entries.push(entry).drop_last() =~= entries);
    assert(loaded_fragments(entries.push(entry)) == loaded_fragments(entries));
    to_multiset_build(entries, entry);
    assert(longer.to_multiset() =~= entries.push(entry).to_multiset());
    lemma_collected_of_permutation(longer, entries.push(entry));
}

/// Whether a fragment of the type `kind` occurs among `fragments`.
pub open spec fn kind_occurs(fragments: Seq<FragmentView>, kind: Seq<char>) -> bool {
    exists|index: int|
        0 <= index < fragments.len() && (#[trigger] fragments[index]).partial.kind == kind
}

/// The group of a type holds a fragment exactly if one of that type occurs.
pub proof fn lemma_group_occurs(fragments: Seq<FragmentView>, kind: Seq<char>)
    ensures
        fragments.filter(of_kind(kind)).len() > 0 <==> kind_occurs(fragments, kind),
    decreases fragments.len(),
{
    fragments.lemma_filter_len(of_kind(kind));
    if fragments.len() > 0 {
        let earlier = fragments.drop_last();
        let last = fragments.last();
        assert(fragments =~= earlier.push(last));
        lemma_group_occurs(earlier, kind);
        earlier.lemma_filter_push(last, of_kind(kind));
        if kind_occurs(earlier, kind) {
            let index = choose|index: int|
                0 <= index < earlier.len() && (#[trigger] earlier[index]).partial.kind == kind;
            assert(fragments[index].partial.kind == kind);
        }
        if last.partial.kind == kind {
            assert(fragments[fragments.len() - 1].partial.kind == kind);
        }
        if kind_occurs(fragments, kind) {
            let index = choose|index: int|
                0 <= index < fragments.len() && (#[trigger] fragments[index]).partial.kind == kind;
            if index < earlier.len() {
                assert(earlier[index].partial.kind == kind);
            }
        }
    }
}

/// There is a section for each type that occurs. Each section is sorted, and
/// holds the fragments of its type, each as often as it occurs.
pub proof fn lemma_sections_of(fragments: Seq<FragmentView>, kind: Seq<char>)
    ensures
        sections_of(fragments).contains_key(kind) <==> kind_occurs(fragments, kind),
        sections_of(fragments).contains_key(kind) ==> {
            &&& sorted_by(sections_of(fragments)[kind], fragment_order())
            &&& sections_of(fragments)[kind].to_multiset() == fragments.filter(
                of_kind(kind),
            ).to_multiset()
        },
{
    lemma_sorted_fragments(fragments.filter(of_kind(kind)));
    lemma_group_occurs(fragments, kind);
}

/// Represents sections: under each type that occurs, the fragments of that type.
#[derive(Debug)]
pub struct Sections {
    table: Table<Vec<Fragment>>,
}

impl View for Sections {
    type V = Map<Seq<char>, Seq<FragmentView>>;

    closed spec fn view(&self) -> Map<Seq<char>, Seq<FragmentView>> {
        self.table@.map_values(|group: Vec<Fragment>| fragment_views(group@))
    }
}

/// Whether each group holds a fragment, and only fragments of its type.
pub open spec fn groups_by_kind(sections: Map<Seq<char>, Seq<FragmentView>>) -> bool {
    forall|kind: Seq<char>| #[trigger]
        sections.contains_key(kind) ==> {
            &&& sections[kind].len() > 0
            &&& forall|index: int|
                0 <= index < sections[kind].len() ==> (#[trigger] sections[kind][index]).partial.kind
                    == kind
        }
}

impl Sections {
    #[verifier::type_invariant]
    spec fn well_formed(&self) -> bool {
        groups_by_kind(self@)
    }

    /// Constructs [`Self`] with no section.
    pub fn new() -> (sections: Self)
        ensures
            sections@ == Map::<Seq<char>, Seq<FragmentView>>::empty(),
    {
        let sections = Self { table: Table::new() };
        assert(sections@ =~= Map::<Seq<char>, Seq<FragmentView>>::empty());
        sections
    }

    /// The number of sections.
    pub fn len(&self) -> (len: usize)
        ensures
            len == self@.len(),
    {
        proof {
            assert(self@.dom() =~= self.table@.dom());
        }
        self.table.len()
    }

    /// Whether there is no section.
    pub fn is_empty(&self) -> (result: bool)
        ensures
            result == (self@.len() == 0),
    {
        self.len() == 0
    }

    /// The fragments of the type `kind`, if there are any.
    pub fn get(&self, kind: &str) -> (result: Option<&Vec<Fragment>>)
        ensures
            match result {
                Some(group) => self@.contains_key(kind@) && fragment_views(group@) == self@[kind@],
                None => !self@.contains_key(kind@),
            },
            groups_by_kind(self@),
    {
        proof {
            use_type_invariant(self);
        }
        self.table.get(kind)
    }

    /// Adds `fragment` at the end of the section of its type.
    pub fn push(&mut self, fragment: Fragment)
        ensures
            final(self)@ == old(self)@.insert(
                fragment@.partial.kind,
                (if old(self)@.contains_key(fragment@.partial.kind) {
                    old(self)@[fragment@.partial.kind]
                } else {
                    Seq::empty()
                }).push(fragment@),
            ),
    {
        proof {
            use_type_invariant(&*self);
        }
        let kind = fragment.partial.kind.clone();
        let mut table = Table::new();
        std::mem::swap(&mut table, &mut self.table);
        let ghost before = table@;
        let mut group = match table.remove(kind.as_str()) {
            Some(group) => group,
            None => Vec::new(),
        };
        let ghost earlier = fragment_views(group@);
        group.push(fragment);
        proof {
            assert(fragment_views(group@) =~= earlier.push(fragment@));
            if !before.contains_key(kind@) {
                assert(earlier =~= Seq::<FragmentView>::empty());
            }
        }
        table.insert(kind, group);
        proof {
            let views = |group: Vec<Fragment>| fragment_views(group@);
            assert(table@.map_values(views) =~= before.map_values(views).insert(
                fragment@.partial.kind,
                earlier.push(fragment@),
            ));
            assert forall|other: Seq<char>| #[trigger]
                table@.map_values(views).contains_key(other) implies {
                &&& table@.map_values(views)[other].len() > 0
                &&& forall|index: int|
                    0 <= index < table@.map_values(views)[other].len() ==> (
                    #[trigger] table@.map_values(views)[other][index]).partial.kind == other
            } by {
                if other != fragment@.partial.kind {
                    assert(before.map_values(views).contains_key(other));
                } else if before.contains_key(other) {
                    assert(before.map_values(views).contains_key(other));
                }
            }
        }
        self.table = table;
    }

    /// Sorts the fragments of each section.
    pub fn sort(&mut self)
        ensures
            final(self)@ == old(self)@.map_values(
                |group: Seq<FragmentView>| sorted_fragments(group),
            ),
    {
        proof {
            use_type_invariant(&*self);
        }
        let ghost views = |group: Vec<Fragment>| fragment_views(group@);
        let ghost before = self@;
        let mut rest = Table::new();
        std::mem::swap(&mut rest, &mut self.table);
        let mut sorted: Table<Vec<Fragment>> = Table::new();
        loop
            invariant
                groups_by_kind(before),
                forall|kind: Seq<char>| #[trigger]
                    rest@.contains_key(kind) ==> before.contains_key(kind) && fragment_views(
                        rest@[kind]@,
                    ) == before[kind] && !sorted@.contains_key(kind),
                forall|kind: Seq<char>| #[trigger]
                    sorted@.contains_key(kind) ==> before.contains_key(kind) && fragment_views(
                        sorted@[kind]@,
                    ) == sorted_fragments(before[kind]),
                forall|kind: Seq<char>| #[trigger]
                    before.contains_key(kind) ==> rest@.contains_key(kind) || sorted@.contains_key(
                        kind,
                    ),
            ensures
                rest@ == Map::<Seq<char>, Vec<Fragment>>::empty(),
            decreases rest@.len(),
        {
            match rest.pop() {
                Some(entry) => {
                    let (kind, group) = entry;
                    sorted.insert(kind, sort(group));
                },
                None => {
                    break;
                },
            }
        }
        proof {
            let after = sorted@.map_values(views);
            let expected = before.map_values(|group: Seq<FragmentView>| sorted_fragments(group));
            assert(after =~= expected);
            assert forall|kind: Seq<char>| #[trigger] after.contains_key(kind) implies {
                &&& after[kind].len() > 0
                &&& forall|index: int|
                    0 <= index < after[kind].len() ==> (#[trigger] after[kind][index]).partial.kind
                        == kind
            } by {
                lemma_sorted_keeps_kind(before[kind], kind);
            }
        }
        self.table = sorted;
    }

    /// Collects the fragments that the files of a directory make into
    /// sections. A file that makes no fragment is passed over.
    pub fn collect(entries: Vec<Entry>) -> (sections: Self)
        ensures
            sections@ == collected(entries@),
            forall|kind: Seq<char>| #[trigger]
                sections@.contains_key(kind) ==> sorted_by(sections@[kind], fragment_order()),
    {
        let ghost all = entries@;
        let mut sections = Self::new();
        let mut reversed = reversed(entries);
        proof {
            assert(all.take(0) =~= Seq::<Entry>::empty());
            assert(grouped(Seq::<FragmentView>::empty()) =~= Map::<
                Seq<char>,
                Seq<FragmentView>,
            >::empty());
        }
        while reversed.len() > 0
            invariant
                reversed@.len() <= all.len(),
                forall|index: int|
                    0 <= index < reversed@.len() ==> reversed@[index] == all[all.len() - 1 - index],
                sections@ == grouped(loaded_fragments(all.take(all.len() - reversed@.len()))),
            decreases reversed.len(),
        {
            let ghost done = all.len() - reversed@.len();
            let ghost earlier = loaded_fragments(all.take(done));
            let entry = reversed.pop().unwrap();
            proof {
                assert(entry == all[done]);
                assert(all.take(done + 1).drop_last() =~= all.take(done));
                assert(all.take(done + 1).last() == entry);
            }
            match Fragment::load(entry) {
                Ok(fragment) => {
                    proof {
                        let kind = fragment@.partial.kind;
                        lemma_grouped_push(earlier, fragment@);
                        if !grouped(earlier).contains_key(kind) {
                            assert(earlier.filter(of_kind(kind)) =~= Seq::<FragmentView>::empty());
                        }
                        assert(loaded_fragments(all.take(done + 1)) == earlier.push(fragment@));
                    }
                    sections.push(fragment);
                },
                Err(_) => {
                    assert(loaded_fragments(all.take(done + 1)) == earlier);
                },
            }
        }
        proof {
            assert(all.take(all.len() as int) =~= all);
            assert forall|kind: Seq<char>| #[trigger]
                collected(all).contains_key(kind) implies sorted_by(
                collected(all)[kind],
                fragment_order(),
            ) by {
                lemma_sections_of(loaded_fragments(all), kind);
            }
        }
        sections.sort();
        sections
    }
}

/// Sorting a group keeps its size and the type of its fragments.
proof fn lemma_sorted_keeps_kind(group: Seq<FragmentView>, kind: Seq<char>)
    requires
        forall|index: int| 0 <= index < group.len() ==> (#[trigger] group[index]).partial.kind == kind,
    ensures
        sorted_fragments(group).len() == group.len(),
        forall|index: int|
            0 <= index < sorted_fragments(group).len() ==> (#[trigger] sorted_fragments(
                group,
            )[index]).partial.kind == kind,
{
    broadcast use group_to_multiset_ensures;

    lemma_sorted_fragments(group);
    let sorted = sorted_fragments(group);
    assert forall|index: int| 0 <= index < sorted.len() implies (#[trigger] sorted[index]).partial.kind
        == kind by {
        assert(sorted.to_multiset().contains(sorted[index]));
        assert(group.to_multiset().contains(sorted[index]));
        assert(group.contains(sorted[index]));
    }
}

} // verus!

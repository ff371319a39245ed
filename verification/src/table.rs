//! Tables keyed by text.

use vstd::prelude::*;

verus! {

/// Whether no two of `entries` have the same key.
pub open spec fn keys_differ<V>(entries: Seq<(String, V)>) -> bool {
    forall|first: int, second: int|
        0 <= first < second < entries.len() ==> entries[first].0@ != entries[second].0@
}

/// Where `key` stands in `entries`.
pub open spec fn is_at<V>(entries: Seq<(String, V)>, key: Seq<char>, index: int) -> bool {
    0 <= index < entries.len() && entries[index].0@ == key
}

/// The table that `entries` make: each key with its value.
pub open spec fn entries_map<V>(entries: Seq<(String, V)>) -> Map<Seq<char>, V> {
    Map::new(
        |key: Seq<char>| exists|index: int| is_at(entries, key, index),
        |key: Seq<char>| entries[choose|index: int| is_at(entries, key, index)].1,
    )
}

/// Where no two keys are the same, each entry stands in the table.
pub proof fn lemma_entry<V>(entries: Seq<(String, V)>, index: int)
    requires
        keys_differ(entries),
        0 <= index < entries.len(),
    ensures
        entries_map(entries).contains_key(entries[index].0@),
        entries_map(entries)[entries[index].0@] == entries[index].1,
{
    let key = entries[index].0@;
    assert(is_at(entries, key, index));
    let chosen = choose|other: int| is_at(entries, key, other);
    assert(chosen == index);
}

proof fn lemma_push<V>(entries: Seq<(String, V)>, entry: (String, V))
    requires
        keys_differ(entries),
        !entries_map(entries).contains_key(entry.0@),
    ensures
        keys_differ(entries.push(entry)),
        entries_map(entries.push(entry)) == entries_map(entries).insert(entry.0@, entry.1),
{
    let longer = entries.push(entry);
    assert forall|first: int, second: int| 0 <= first < second < longer.len() implies longer[first].0@
        != longer[second].0@ by {
        if second == entries.len() {
            assert(is_at(entries, entries[first].0@, first));
        }
    }
    assert forall|key: Seq<char>|
        entries_map(longer).contains_key(key) == #[trigger] entries_map(entries).insert(
            entry.0@,
            entry.1,
        ).contains_key(key) by {
        if key == entry.0@ {
            assert(is_at(longer, key, entries.len() as int));
        } else if entries_map(entries).contains_key(key) {
            let index = choose|index: int| is_at(entries, key, index);
            assert(is_at(longer, key, index));
        } else if entries_map(longer).contains_key(key) {
            let index = choose|index: int| is_at(longer, key, index);
            assert(is_at(entries, key, index));
        }
    }
    assert forall|key: Seq<char>| #[trigger]
        entries_map(longer).contains_key(key) implies entries_map(longer)[key] == entries_map(
        entries,
    ).insert(entry.0@, entry.1)[key] by {
        let index = choose|index: int| is_at(longer, key, index);
        lemma_entry(longer, index);
        if index < entries.len() {
            lemma_entry(entries, index);
        }
    }
    assert(entries_map(longer) =~= entries_map(entries).insert(entry.0@, entry.1));
}

proof fn lemma_remove<V>(entries: Seq<(String, V)>, index: int)
    requires
        keys_differ(entries),
        0 <= index < entries.len(),
    ensures
        keys_differ(entries.remove(index)),
        entries_map(entries.remove(index)) == entries_map(entries).remove(entries[index].0@),
{
    let shorter = entries.remove(index);
    let removed = entries[index].0@;
    assert forall|first: int, second: int| 0 <= first < second < shorter.len() implies shorter[first].0@
        != shorter[second].0@ by {
        let old_first = if first < index {
            first
        } else {
            first + 1
        };
        let old_second = if second < index {
            second
        } else {
            second + 1
        };
        assert(shorter[first] == entries[old_first]);
        assert(shorter[second] == entries[old_second]);
    }
    assert forall|key: Seq<char>|
        entries_map(shorter).contains_key(key) == #[trigger] entries_map(entries).remove(
            removed,
        ).contains_key(key) by {
        if entries_map(shorter).contains_key(key) {
            let at = choose|at: int| is_at(shorter, key, at);
            let old_at = if at < index {
                at
            } else {
                at + 1
            };
            assert(shorter[at] == entries[old_at]);
            assert(is_at(entries, key, old_at));
        }
        if entries_map(entries).remove(removed).contains_key(key) {
            let old_at = choose|old_at: int| is_at(entries, key, old_at);
            let at = if old_at < index {
                old_at
            } else {
                old_at - 1
            };
            assert(shorter[at] == entries[old_at]);
            assert(is_at(shorter, key, at));
        }
    }
    assert forall|key: Seq<char>| #[trigger]
        entries_map(shorter).contains_key(key) implies entries_map(shorter)[key] == entries_map(
        entries,
    ).remove(removed)[key] by {
        let at = choose|at: int| is_at(shorter, key, at);
        let old_at = if at < index {
            at
        } else {
            at + 1
        };
        assert(shorter[at] == entries[old_at]);
        lemma_entry(shorter, at);
        lemma_entry(entries, old_at);
    }
    assert(entries_map(shorter) =~= entries_map(entries).remove(removed));
}

/// A table from text to values of type `V`, in which each key occurs once.
#[derive(Debug)]
pub struct Table<V> {
    entries: Vec<(String, V)>,
}

impl<V> View for Table<V> {
    type V = Map<Seq<char>, V>;

    closed spec fn view(&self) -> Map<Seq<char>, V> {
        entries_map(self.entries@)
    }
}

impl<V> Table<V> {
    #[verifier::type_invariant]
    spec fn well_formed(&self) -> bool {
        keys_differ(self.entries@)
    }

    /// Constructs an empty table.
    pub fn new() -> (table: Self)
        ensures
            table@ == Map::<Seq<char>, V>::empty(),
    {
        let table = Self { entries: Vec::new() };
        assert(table@ =~= Map::<Seq<char>, V>::empty());
        table
    }

    /// The number of keys.
    pub fn len(&self) -> (len: usize)
        ensures
            len == self@.len(),
    {
        proof {
            use_type_invariant(self);
            lemma_len(self.entries@);
        }
        self.entries.len()
    }

    /// Whether the table holds no key.
    pub fn is_empty(&self) -> (result: bool)
        ensures
            result == (self@.len() == 0),
    {
        self.len() == 0
    }

    /// The keys with their values, each key once, in no particular order.
    pub fn entries(&self) -> (entries: &Vec<(String, V)>)
        ensures
            keys_differ(entries@),
            entries_map(entries@) == self@,
    {
        proof {
            use_type_invariant(self);
        }
        &self.entries
    }

    /// Finds the position of `key`.
    fn position(&self, key: &str) -> (result: Option<usize>)
        ensures
            match result {
                Some(index) => is_at(self.entries@, key@, index as int),
                None => !self@.contains_key(key@),
            },
    {
        let owned = key.to_owned();
        let mut index: usize = 0;
        while index < self.entries.len()
            invariant
                index <= self.entries.len(),
                owned@ == key@,
                forall|earlier: int| 0 <= earlier < index ==> !is_at(self.entries@, key@, earlier),
            decreases self.entries.len() - index,
        {
            if self.entries[index].0 == owned {
                return Some(index);
            }
            index += 1;
        }
        None
    }

    /// The value under `key`, if there is one.
    pub fn get(&self, key: &str) -> (result: Option<&V>)
        ensures
            match result {
                Some(value) => self@.contains_key(key@) && *value == self@[key@],
                None => !self@.contains_key(key@),
            },
    {
        proof {
            use_type_invariant(self);
        }
        match self.position(key) {
            Some(index) => {
                proof {
                    lemma_entry(self.entries@, index as int);
                }
                Some(&self.entries[index].1)
            },
            None => None,
        }
    }

    /// Whether there is a value under `key`.
    pub fn contains_key(&self, key: &str) -> (result: bool)
        ensures
            result == self@.contains_key(key@),
    {
        self.get(key).is_some()
    }

    /// Takes the value under `key` out of the table, if there is one.
    pub fn remove(&mut self, key: &str) -> (result: Option<V>)
        ensures
            final(self)@ == old(self)@.remove(key@),
            match result {
                Some(value) => old(self)@.contains_key(key@) && value == old(self)@[key@],
                None => !old(self)@.contains_key(key@),
            },
    {
        proof {
            use_type_invariant(&*self);
        }
        match self.position(key) {
            Some(index) => {
                proof {
                    lemma_entry(self.entries@, index as int);
                    lemma_remove(self.entries@, index as int);
                }
                let mut entries = Vec::new();
                std::mem::swap(&mut entries, &mut self.entries);
                let entry = entries.remove(index);
                self.entries = entries;
                Some(entry.1)
            },
            None => {
                assert(self@ =~= self@.remove(key@));
                None
            },
        }
    }

    /// Puts `value` under `key`, in place of the value that was there, if any.
    pub fn insert(&mut self, key: String, value: V)
        ensures
            final(self)@ == old(self)@.insert(key@, value),
    {
        let _ = self.remove(key.as_str());
        proof {
            use_type_invariant(&*self);
            lemma_push(self.entries@, (key, value));
            assert(old(self)@.remove(key@).insert(key@, value) =~= old(self)@.insert(key@, value));
        }
        let mut entries = Vec::new();
        std::mem::swap(&mut entries, &mut self.entries);
        entries.push((key, value));
        self.entries = entries;
    }

    /// Takes one key out of the table, with its value; `None` where the table is empty.
    pub fn pop(&mut self) -> (result: Option<(String, V)>)
        ensures
            match result {
                Some(entry) => {
                    &&& old(self)@.contains_key(entry.0@)
                    &&& old(self)@[entry.0@] == entry.1
                    &&& final(self)@ == old(self)@.remove(entry.0@)
                    &&& final(self)@.len() + 1 == old(self)@.len()
                },
                None => old(self)@ == Map::<Seq<char>, V>::empty() && final(self)@ == old(self)@,
            },
    {
        proof {
            use_type_invariant(&*self);
            lemma_len(self.entries@);
        }
        if self.entries.len() == 0 {
            assert(self@ =~= Map::<Seq<char>, V>::empty());
            return None;
        }
        proof {
            let last = self.entries@.len() - 1;
            lemma_entry(self.entries@, last);
            lemma_remove(self.entries@, last);
            assert(self.entries@.remove(last) =~= self.entries@.drop_last());
            lemma_len(self.entries@.drop_last());
        }
        let mut entries = Vec::new();
        std::mem::swap(&mut entries, &mut self.entries);
        let entry = entries.pop();
        self.entries = entries;
        entry
    }
}

proof fn lemma_finite_entries<V>(entries: Seq<(String, V)>)
    ensures
        entries_map(entries).dom().finite(),
        entries_map(entries).dom().len() <= entries.len(),
    decreases entries.len(),
{
    if entries.len() == 0 {
        assert(entries_map(entries).dom() =~= Set::<Seq<char>>::empty());
    } else {
        let shorter = entries.drop_last();
        let last = entries.last();
        lemma_finite_entries(shorter);
        assert forall|key: Seq<char>|
            entries_map(entries).dom().contains(key) == #[trigger] entries_map(shorter).dom().insert(
                last.0@,
            ).contains(key) by {
            if entries_map(entries).contains_key(key) {
                let index = choose|index: int| is_at(entries, key, index);
                if index < shorter.len() {
                    assert(is_at(shorter, key, index));
                }
            }
            if entries_map(shorter).contains_key(key) {
                let index = choose|index: int| is_at(shorter, key, index);
                assert(is_at(entries, key, index));
            }
            if key == last.0@ {
                assert(is_at(entries, key, entries.len() - 1));
            }
        }
        assert(entries_map(entries).dom() =~= entries_map(shorter).dom().insert(last.0@));
    }
}

proof fn lemma_len<V>(entries: Seq<(String, V)>)
    requires
        keys_differ(entries),
    ensures
        entries_map(entries).dom().finite(),
        entries_map(entries).len() == entries.len(),
    decreases entries.len(),
{
    lemma_finite_entries(entries);
    if entries.len() == 0 {
        assert(entries_map(entries).dom() =~= Set::<Seq<char>>::empty());
    } else {
        let shorter = entries.drop_last();
        let last = entries.last();
        lemma_len(shorter);
        assert(entries =~= shorter.push(last));
        if entries_map(shorter).contains_key(last.0@) {
            let index = choose|index: int| is_at(shorter, last.0@, index);
            assert(entries[index].0@ == entries[entries.len() - 1].0@);
        }
        lemma_push(shorter, last);
    }
}

} // verus!

//! Entries that are found again by their name.

use crate::text::same_text;
use vstd::prelude::*;

verus! {

/// A map from names to entries. It keeps its entries in the order in which
/// their names were first inserted, and no name twice.
#[derive(Debug)]
pub struct NameIndex<T> {
    entries: Vec<(String, T)>,
}

/// Whether `entries` holds an entry under `name` at the place `i`.
pub open spec fn named_at<T>(entries: Seq<(String, T)>, name: Seq<char>, i: int) -> bool {
    0 <= i < entries.len() && entries[i].0@ == name
}

/// Whether no two of `entries` stand under the same name.
pub open spec fn distinct_names<T>(entries: Seq<(String, T)>) -> bool {
    forall|i: int, j: int| 0 <= i < j < entries.len() ==> entries[i].0@ != entries[j].0@
}

/// The entries of a sequence without repeated names, each under its name.
pub open spec fn as_map<T: DeepView>(entries: Seq<(String, T)>) -> Map<Seq<char>, T::V> {
    Map::new(
        |name: Seq<char>| exists|i: int| named_at(entries, name, i),
        |name: Seq<char>| entries[choose|i: int| named_at(entries, name, i)].1.deep_view(),
    )
}

/// What `as_map` holds under the name of each entry.
proof fn lemma_as_map<T: DeepView>(entries: Seq<(String, T)>, i: int)
    requires
        distinct_names(entries),
        0 <= i < entries.len(),
    ensures
        as_map(entries).contains_key(entries[i].0@),
        as_map(entries)[entries[i].0@] == entries[i].1.deep_view(),
{
    let name = entries[i].0@;
    assert(named_at(entries, name, i));
    let k = choose|k: int| named_at(entries, name, k);
    assert(named_at(entries, name, k));
    assert(k == i);
}

/// Replacing an entry under its own name updates the map.
proof fn lemma_replace<T: DeepView>(
    before: Seq<(String, T)>,
    after: Seq<(String, T)>,
    i: int,
    name: String,
    entry: T,
)
    requires
        distinct_names(before),
        named_at(before, name@, i),
        after == before.update(i, (name, entry)),
    ensures
        distinct_names(after),
        as_map(after) == as_map(before).insert(name@, entry.deep_view()),
{
    assert forall|a: int, b: int| 0 <= a < b < after.len() implies after[a].0@ != after[b].0@ by {
        assert(after[a].0@ == before[a].0@);
        assert(after[b].0@ == before[b].0@);
    }
    let target = as_map(before).insert(name@, entry.deep_view());
    assert forall|n: Seq<char>| as_map(after).contains_key(n) == target.contains_key(n) by {
        if as_map(after).contains_key(n) {
            let k = choose|k: int| named_at(after, n, k);
            assert(named_at(before, n, k));
        }
        if as_map(before).contains_key(n) {
            let k = choose|k: int| named_at(before, n, k);
            assert(named_at(after, n, k));
        }
        if n == name@ {
            assert(named_at(after, n, i));
        }
    }
    assert forall|n: Seq<char>| as_map(after).contains_key(n) implies #[trigger] as_map(after)[n]
        == target[n] by {
        let k = choose|k: int| named_at(after, n, k);
        assert(named_at(after, n, k));
        lemma_as_map(after, k);
        if n == name@ {
            assert(named_at(after, n, i));
            assert(k == i);
        } else {
            assert(k != i);
            lemma_as_map(before, k);
        }
    }
    assert(as_map(after) =~= target);
}

/// Appending an entry under a new name extends the map.
proof fn lemma_append<T: DeepView>(before: Seq<(String, T)>, name: String, entry: T)
    requires
        distinct_names(before),
        forall|i: int| !named_at(before, name@, i),
    ensures
        distinct_names(before.push((name, entry))),
        as_map(before.push((name, entry))) == as_map(before).insert(name@, entry.deep_view()),
{
    let after = before.push((name, entry));
    let last = before.len() as int;
    assert forall|a: int, b: int| 0 <= a < b < after.len() implies after[a].0@ != after[b].0@ by {
        if b == last {
            assert(!named_at(before, name@, a));
        }
    }
    let target = as_map(before).insert(name@, entry.deep_view());
    assert(named_at(after, name@, last));
    assert forall|n: Seq<char>| as_map(after).contains_key(n) == target.contains_key(n) by {
        if as_map(after).contains_key(n) {
            let k = choose|k: int| named_at(after, n, k);
            if k < last {
                assert(named_at(before, n, k));
            }
        }
        if as_map(before).contains_key(n) {
            let k = choose|k: int| named_at(before, n, k);
            assert(named_at(after, n, k));
        }
    }
    assert forall|n: Seq<char>| as_map(after).contains_key(n) implies #[trigger] as_map(after)[n]
        == target[n] by {
        let k = choose|k: int| named_at(after, n, k);
        assert(named_at(after, n, k));
        lemma_as_map(after, k);
        if n == name@ {
            assert(k == last);
        } else {
            assert(k < last);
            lemma_as_map(before, k);
        }
    }
    assert(as_map(after) =~= target);
}

/// As many names stand in `as_map` as there are entries.
proof fn lemma_names<T: DeepView>(entries: Seq<(String, T)>)
    requires
        distinct_names(entries),
    ensures
        as_map(entries).dom().finite(),
        as_map(entries).dom().len() == entries.len(),
{
    let names = entries.map_values(|e: (String, T)| e.0@);
    assert(names.no_duplicates());
    names.unique_seq_to_set();
    assert forall|n: Seq<char>| as_map(entries).dom().contains(n) == names.to_set().contains(
        n,
    ) by {
        if as_map(entries).dom().contains(n) {
            let k = choose|k: int| named_at(entries, n, k);
            assert(names[k] == n);
        }
        if names.to_set().contains(n) {
            let k = choose|k: int| 0 <= k < names.len() && names[k] == n;
            assert(named_at(entries, n, k));
        }
    }
    assert(as_map(entries).dom() =~= names.to_set());
}

impl<T> NameIndex<T> {
    #[verifier::type_invariant]
    spec fn well_formed(&self) -> bool {
        distinct_names(self.entries@)
    }
}

impl<T: DeepView> NameIndex<T> {
    /// The entries of the index, each under its name.
    pub closed spec fn view(&self) -> Map<Seq<char>, T::V> {
        as_map(self.entries@)
    }

    /// An index without entries.
    pub fn new() -> (index: Self)
        ensures
            index@ == Map::<Seq<char>, T::V>::empty(),
    {
        let index = NameIndex { entries: Vec::new() };
        proof {
            assert(index@ =~= Map::<Seq<char>, T::V>::empty());
        }
        index
    }

    /// The number of entries.
    pub fn len(&self) -> (n: usize)
        ensures
            self@.dom().finite(),
            n == self@.dom().len(),
    {
        proof {
            use_type_invariant(self);
            lemma_names(self.entries@);
        }
        self.entries.len()
    }

    /// The place of `name` among the entries, if it is there.
    fn find(&self, name: &str) -> (found: Option<usize>)
        ensures
            match found {
                Some(i) => named_at(self.entries@, name@, i as int),
                None => forall|i: int| !named_at(self.entries@, name@, i),
            },
    {
        let mut i: usize = 0;
        while i < self.entries.len()
            invariant
                i <= self.entries.len(),
                forall|k: int| 0 <= k < i ==> self.entries@[k].0@ != name@,
            decreases self.entries.len() - i,
        {
            if same_text(self.entries[i].0.as_str(), name) {
                return Some(i);
            }
            i = i + 1;
        }
        None
    }

    /// The entry that stands under `name`, if there is one.
    pub fn get(&self, name: &str) -> (found: Option<&T>)
        ensures
            match found {
                Some(entry) => self@.contains_key(name@) && self@[name@] == entry.deep_view(),
                None => !self@.contains_key(name@),
            },
    {
        proof {
            use_type_invariant(self);
        }
        match self.find(name) {
            Some(i) => {
                proof {
                    lemma_as_map(self.entries@, i as int);
                }
                Some(&self.entries[i].1)
            },
            None => None,
        }
    }

    /// Puts `entry` under `name`. An entry that stood there before is replaced.
    pub fn insert(&mut self, name: String, entry: T)
        ensures
            final(self)@ == old(self)@.insert(name@, entry.deep_view()),
    {
        proof {
            use_type_invariant(&*self);
        }
        let found = self.find(name.as_str());
        let ghost before = self.entries@;
        let mut entries: Vec<(String, T)> = Vec::new();
        std::mem::swap(&mut entries, &mut self.entries);
        match found {
            Some(i) => {
                proof {
                    lemma_replace(
                        before,
                        before.update(i as int, (name, entry)),
                        i as int,
                        name,
                        entry,
                    );
                }
                entries.set(i, (name, entry));
            },
            None => {
                proof {
                    lemma_append(before, name, entry);
                }
                entries.push((name, entry));
            },
        }
        self.entries = entries;
    }
}

} // verus!

//! A map from names to values that keeps the order in which the names came.

use vstd::prelude::*;
use crate::duplicate::Duplicate;
use crate::text::str_equal;

verus! {

/// The names of `entries`, in order.
pub open spec fn names<M>(entries: Seq<(Seq<char>, M)>) -> Seq<Seq<char>> {
    entries.map_values(|entry: (Seq<char>, M)| entry.0)
}

/// Where `name` stands in `entries`: the least index that holds it.
pub open spec fn position<M>(entries: Seq<(Seq<char>, M)>, name: Seq<char>) -> Option<int> {
    names(entries).index_of_first(name)
}

/// The value that `entries` holds under `name`.
pub open spec fn lookup<M>(entries: Seq<(Seq<char>, M)>, name: Seq<char>) -> Option<M> {
    match position(entries, name) {
        Some(i) => Some(entries[i].1),
        None => None,
    }
}

/// `entries` with `value` under `name`: in the place of the old value where
/// the name is present, at the end where it is new.
pub open spec fn put<M>(entries: Seq<(Seq<char>, M)>, name: Seq<char>, value: M) -> Seq<
    (Seq<char>, M),
> {
    match position(entries, name) {
        Some(i) => entries.update(i, (name, value)),
        None => entries.push((name, value)),
    }
}

/// `entries` with the values of `values` in the place of their own, index by
/// index.
pub open spec fn revalued<M>(entries: Seq<(Seq<char>, M)>, values: Seq<M>) -> Seq<(Seq<char>, M)> {
    Seq::new(entries.len(), |i: int| (entries[i].0, values[i]))
}

/// What `position` means: the index it gives holds the name and is the only
/// candidate before it; without an index no entry holds the name.
pub proof fn lemma_position<M>(entries: Seq<(Seq<char>, M)>, name: Seq<char>)
    ensures
        match position(entries, name) {
            Some(i) => {
                &&& 0 <= i < entries.len()
                &&& entries[i].0 == name
                &&& forall|j: int| 0 <= j < i ==> entries[j].0 != name
            },
            None => forall|j: int| 0 <= j < entries.len() ==> entries[j].0 != name,
        },
{
    let all = names(entries);
    all.index_of_first_ensures(name);
    match all.index_of_first(name) {
        Some(i) => {
            assert(all[i] == entries[i].0);
            assert forall|j: int| 0 <= j < i implies entries[j].0 != name by {
                assert(all[j] == entries[j].0);
            }
        },
        None => {
            assert forall|j: int| 0 <= j < entries.len() implies entries[j].0 != name by {
                assert(all[j] == entries[j].0);
                assert(all.contains(all[j]));
            }
        },
    }
}

/// An index that holds `name`, with no holder before it, is its position.
pub proof fn lemma_position_is<M>(entries: Seq<(Seq<char>, M)>, name: Seq<char>, i: int)
    requires
        0 <= i < entries.len(),
        entries[i].0 == name,
        forall|j: int| 0 <= j < i ==> entries[j].0 != name,
    ensures
        position(entries, name) == Some(i),
{
    lemma_position(entries, name);
}

/// A name that no entry holds has no position.
pub proof fn lemma_position_none<M>(entries: Seq<(Seq<char>, M)>, name: Seq<char>)
    requires
        forall|j: int| 0 <= j < entries.len() ==> entries[j].0 != name,
    ensures
        position(entries, name) is None,
{
    lemma_position(entries, name);
}

/// Putting a value keeps the names distinct, and makes `lookup` find it.
pub proof fn lemma_put<M>(entries: Seq<(Seq<char>, M)>, name: Seq<char>, value: M)
    requires
        names(entries).no_duplicates(),
    ensures
        names(put(entries, name, value)).no_duplicates(),
        lookup(put(entries, name, value), name) == Some(value),
        forall|other: Seq<char>|
            other != name ==> lookup(put(entries, name, value), other) == lookup(entries, other),
{
    let after = put(entries, name, value);
    lemma_position(entries, name);
    assert forall|i: int, j: int|
        0 <= i < after.len() && 0 <= j < after.len() && i != j implies names(after)[i] != names(
        after,
    )[j] by {
        if i < entries.len() {
            assert(names(entries)[i] == entries[i].0);
        }
        if j < entries.len() {
            assert(names(entries)[j] == entries[j].0);
        }
    }
    match position(entries, name) {
        Some(i) => {
            lemma_position_is(after, name, i);
        },
        None => {
            lemma_position_is(after, name, entries.len() as int);
        },
    }
    assert forall|other: Seq<char>| other != name implies lookup(after, other) == lookup(
        entries,
        other,
    ) by {
        lemma_position(entries, other);
        match position(entries, other) {
            Some(k) => {
                lemma_position_is(after, other, k);
            },
            None => {
                lemma_position_none(after, other);
            },
        }
    }
}

/// A map from names to values. No name occurs twice, and the entries keep the
/// order in which their names were first inserted.
#[derive(Debug, PartialEq)]
pub struct NameMap<V> {
    entries: Vec<(String, V)>,
}

impl<V: DeepView> DeepView for NameMap<V> {
    type V = Seq<(Seq<char>, V::V)>;

    closed spec fn deep_view(&self) -> Seq<(Seq<char>, V::V)> {
        self.entries.deep_view()
    }
}

impl<V> NameMap<V> {
    #[verifier::type_invariant]
    spec fn names_differ(&self) -> bool {
        forall|i: int, j: int|
            0 <= i < self.entries@.len() && 0 <= j < self.entries@.len() && i != j
                ==> self.entries@[i].0@ != self.entries@[j].0@
    }
}

impl<V: DeepView> NameMap<V> {
    /// The empty map.
    pub fn new() -> (map: Self)
        ensures
            map.deep_view() == Seq::<(Seq<char>, V::V)>::empty(),
            names(map.deep_view()).no_duplicates(),
    {
        let map = NameMap { entries: Vec::new() };
        assert(map.entries.deep_view() =~= Seq::<(Seq<char>, V::V)>::empty());
        map
    }

    /// The number of entries. No two of them share a name.
    pub fn len(&self) -> (n: usize)
        ensures
            n == self.deep_view().len(),
            names(self.deep_view()).no_duplicates(),
    {
        proof {
            use_type_invariant(self);
        }
        self.entries.len()
    }

    /// The name of the entry at `i`.
    pub fn name_at(&self, i: usize) -> (name: &String)
        requires
            i < self.deep_view().len(),
        ensures
            name@ == self.deep_view()[i as int].0,
    {
        &self.entries[i].0
    }

    /// The value of the entry at `i`.
    pub fn value_at(&self, i: usize) -> (value: &V)
        requires
            i < self.deep_view().len(),
        ensures
            value.deep_view() == self.deep_view()[i as int].1,
    {
        &self.entries[i].1
    }

    /// The index of the entry named `name`.
    pub fn index_of(&self, name: &str) -> (found: Option<usize>)
        ensures
            match found {
                Some(i) => position(self.deep_view(), name@) == Some(i as int),
                None => position(self.deep_view(), name@) is None,
            },
    {
        let mut i: usize = 0;
        while i < self.entries.len()
            invariant
                i <= self.entries.len(),
                forall|j: int| 0 <= j < i ==> self.deep_view()[j].0 != name@,
            decreases self.entries.len() - i,
        {
            if str_equal(self.entries[i].0.as_str(), name) {
                proof {
                    lemma_position_is(self.deep_view(), name@, i as int);
                }
                return Some(i);
            }
            i = i + 1;
        }
        proof {
            lemma_position_none(self.deep_view(), name@);
        }
        None
    }

    /// Whether an entry is named `name`.
    pub fn contains_key(&self, name: &str) -> (present: bool)
        ensures
            present == (position(self.deep_view(), name@) is Some),
    {
        self.index_of(name).is_some()
    }

    /// The value under `name`.
    pub fn get(&self, name: &str) -> (value: Option<&V>)
        ensures
            value.deep_view() == lookup(self.deep_view(), name@),
    {
        match self.index_of(name) {
            Some(i) => {
                proof {
                    lemma_position(self.deep_view(), name@);
                }
                Some(&self.entries[i].1)
            },
            None => None,
        }
    }

    /// A map with the names of this one, in the same order, and the values of
    /// `values`.
    pub fn with_values(&self, values: Vec<V>) -> (map: NameMap<V>)
        requires
            values@.len() == self.deep_view().len(),
        ensures
            map.deep_view() == revalued(self.deep_view(), values.deep_view()),
    {
        proof {
            use_type_invariant(self);
        }
        let ghost all = values@;
        let mut entries: Vec<(String, V)> = Vec::new();
        for value in it: values
            invariant
                it.seq() == all,
                all.len() == self.entries@.len(),
                entries@.len() == it.index(),
                forall|k: int|
                    0 <= k < it.index() ==> (#[trigger] entries@[k]).0@ == self.entries@[k].0@
                        && entries@[k].1 == all[k],
        {
            let ghost done = entries@;
            let name = self.entries[entries.len()].0.clone();
            entries.push((name, value));
            assert(forall|k: int| 0 <= k < done.len() ==> entries@[k] == done[k]);
        }
        assert(entries.deep_view() =~= revalued(self.deep_view(), values.deep_view()));
        assert forall|i: int, j: int|
            0 <= i < entries@.len() && 0 <= j < entries@.len() && i != j implies entries@[i].0@
            != entries@[j].0@ by {
            assert(entries@[i].0@ == self.entries@[i].0@);
            assert(entries@[j].0@ == self.entries@[j].0@);
        }
        NameMap { entries }
    }

    /// Puts `value` under `name`, in the place of the value that was there, or
    /// as a new last entry.
    pub fn insert(&mut self, name: String, value: V)
        ensures
            final(self).deep_view() == put(old(self).deep_view(), name@, value.deep_view()),
            names(final(self).deep_view()).no_duplicates(),
    {
        proof {
            use_type_invariant(&*self);
            lemma_position(self.deep_view(), name@);
        }
        let found = self.index_of(name.as_str());
        let mut entries: Vec<(String, V)> = Vec::new();
        core::mem::swap(&mut self.entries, &mut entries);
        match found {
            Some(i) => {
                entries.set(i, (name, value));
            },
            None => {
                entries.push((name, value));
            },
        }
        assert(entries.deep_view() =~= put(old(self).deep_view(), name@, value.deep_view()));
        assert forall|i: int, j: int|
            0 <= i < entries@.len() && 0 <= j < entries@.len() && i != j implies entries@[i].0@
            != entries@[j].0@ by {
            if i < old(self).entries@.len() {
                assert(old(self).entries.deep_view()[i].0 == old(self).entries@[i].0@);
            }
            if j < old(self).entries@.len() {
                assert(old(self).entries.deep_view()[j].0 == old(self).entries@[j].0@);
            }
        }
        self.entries = entries;
        proof {
            lemma_put(old(self).deep_view(), name@, value.deep_view());
        }
    }
}

impl<V: Duplicate> Duplicate for NameMap<V> {
    fn duplicate(&self) -> (copy: NameMap<V>) {
        proof {
            use_type_invariant(self);
        }
        let mut entries: Vec<(String, V)> = Vec::new();
        let mut i: usize = 0;
        while i < self.entries.len()
            invariant
                i <= self.entries.len(),
                entries@.len() == i,
                forall|k: int|
                    0 <= k < i ==> entries@[k].0@ == self.entries@[k].0@ && entries@[k].1.deep_view()
                        == self.entries@[k].1.deep_view(),
            decreases self.entries.len() - i,
        {
            let name = self.entries[i].0.clone();
            let value = self.entries[i].1.duplicate();
            entries.push((name, value));
            i = i + 1;
        }
        assert(entries.deep_view() =~= self.entries.deep_view());
        NameMap { entries }
    }
}

} // verus!

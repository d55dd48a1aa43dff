//! Maps from a referencing column key to the column keys that it references.

use vstd::prelude::*;
use crate::config::{Config, DatabaseModel, References, ReferencesModel};
use crate::duplicate::Duplicate;
use crate::names::{lemma_position_is, lemma_position_none, lookup, position, put};
use crate::text::str_equal;

verus! {

/// `references` with `referenced_key` added under `key`: at the end of the
/// list that was there, or as the only item of a new list.
pub open spec fn add_reference(
    references: ReferencesModel,
    key: Seq<char>,
    referenced_key: Seq<char>,
) -> ReferencesModel {
    match lookup(references, key) {
        Some(list) => put(references, key, list.push(referenced_key)),
        None => put(references, key, seq![referenced_key]),
    }
}

/// The entries of a map of references that may be absent.
pub open spec fn reference_list(references: Option<ReferencesModel>) -> ReferencesModel {
    match references {
        Some(map) => map,
        None => Seq::empty(),
    }
}

/// The scanned references of a project: those of its databases, one database
/// after the other.
pub open spec fn scanned_references(databases: Seq<(Seq<char>, DatabaseModel)>) -> ReferencesModel
    decreases databases.len(),
{
    if databases.len() == 0 {
        Seq::empty()
    } else {
        scanned_references(databases.drop_last()) + reference_list(databases.last().1.references)
    }
}

/// Whether `references` holds an entry under `key`.
pub open spec fn is_mapped(references: ReferencesModel, key: Seq<char>) -> bool {
    position(references, key) is Some
}

/// Adds `referenced_key` to the list under `key`, which is created where
/// there was none.
pub fn append_reference(references: &mut References, key: &str, referenced_key: &str)
    ensures
        final(references).deep_view() == add_reference(
            old(references).deep_view(),
            key@,
            referenced_key@,
        ),
{
    let mut list: Vec<String> = match references.get(key) {
        Some(present) => present.duplicate(),
        None => Vec::new(),
    };
    let ghost before = list.deep_view();
    proof {
        if lookup(old(references).deep_view(), key@) is None {
            assert(before =~= Seq::<Seq<char>>::empty());
        }
    }
    list.push(referenced_key.to_owned());
    assert(list.deep_view() =~= before.push(referenced_key@));
    assert(Seq::<Seq<char>>::empty().push(referenced_key@) =~= seq![referenced_key@]);
    references.insert(key.to_owned(), list);
}

fn append_entries(entries: &mut Vec<(String, Vec<String>)>, map: &References)
    ensures
        final(entries).deep_view() == old(entries).deep_view() + map.deep_view(),
{
    let ghost before = entries.deep_view();
    let count = map.len();
    let mut i: usize = 0;
    while i < count
        invariant
            i <= count == map.deep_view().len(),
            entries.deep_view() =~= before + map.deep_view().take(i as int),
        decreases count - i,
    {
        let ghost done = entries.deep_view();
        let key = map.name_at(i).clone();
        let list = map.value_at(i).duplicate();
        entries.push((key, list));
        assert(entries.deep_view() =~= done.push(map.deep_view()[i as int]));
        i = i + 1;
    }
    assert(map.deep_view().take(i as int) =~= map.deep_view());
}

/// Lists the entries of a map of references that may be absent.
pub fn list_references(references: &Option<References>) -> (entries: Vec<(String, Vec<String>)>)
    ensures
        entries.deep_view() == reference_list(references.deep_view()),
{
    let mut entries: Vec<(String, Vec<String>)> = Vec::new();
    assert(entries.deep_view() =~= Seq::empty());
    match references {
        Some(map) => {
            append_entries(&mut entries, map);
            assert(entries.deep_view() =~= map.deep_view());
        },
        None => {},
    }
    entries
}

/// Lists the scanned references of the project, database after database.
pub fn list_scanned_references(config: &Config) -> (entries: Vec<(String, Vec<String>)>)
    ensures
        entries.deep_view() == scanned_references(config.deep_view().databases),
{
    let mut entries: Vec<(String, Vec<String>)> = Vec::new();
    assert(entries.deep_view() =~= Seq::empty());
    let count = config.databases.len();
    let mut i: usize = 0;
    assert(config.databases.deep_view().take(0) =~= Seq::empty());
    while i < count
        invariant
            i <= count == config.databases.deep_view().len(),
            entries.deep_view() == scanned_references(
                config.databases.deep_view().take(i as int),
            ),
        decreases count - i,
    {
        proof {
            let next = config.databases.deep_view().take(i + 1);
            assert(next.drop_last() =~= config.databases.deep_view().take(i as int));
            assert(next.last() == config.databases.deep_view()[i as int]);
        }
        match &config.databases.value_at(i).references {
            Some(map) => {
                append_entries(&mut entries, map);
            },
            None => {
                assert(entries.deep_view() + Seq::<(Seq<char>, Seq<Seq<char>>)>::empty()
                    =~= entries.deep_view());
            },
        }
        i = i + 1;
    }
    assert(config.databases.deep_view().take(i as int) =~= config.databases.deep_view());
    entries
}

/// Whether one of `entries` stands under `key`.
pub fn holds_key(entries: &Vec<(String, Vec<String>)>, key: &str) -> (present: bool)
    ensures
        present == is_mapped(entries.deep_view(), key@),
{
    let mut i: usize = 0;
    while i < entries.len()
        invariant
            i <= entries.len(),
            forall|j: int| 0 <= j < i ==> entries.deep_view()[j].0 != key@,
        decreases entries.len() - i,
    {
        if str_equal(entries[i].0.as_str(), key) {
            proof {
                lemma_position_is(entries.deep_view(), key@, i as int);
            }
            return true;
        }
        i = i + 1;
    }
    proof {
        lemma_position_none(entries.deep_view(), key@);
    }
    false
}

} // verus!

//! Checks of the reference maps. They report; they change nothing.

use vstd::prelude::*;
use vstd::string::*;
use crate::config::{Config, ProjectModel, ReferencesModel};
use crate::names::{names, position};
use crate::references::{
    holds_key, list_references, list_scanned_references, reference_list, scanned_references,
};

verus! {

/// Something that a check found.
#[derive(Debug, Clone, PartialEq, Eq)]
pub enum Finding {
    /// A key that stands in the scanned and in the custom references.
    KeyInBothMaps(String),
    /// A key of the scanned references with more than one referenced key.
    MultipleReferencedKeys(String),
    /// A key of the custom references with more than one referenced key.
    MultipleCustomReferencedKeys(String),
}

/// The model of a [`Finding`].
pub enum FindingModel {
    KeyInBothMaps(Seq<char>),
    MultipleReferencedKeys(Seq<char>),
    MultipleCustomReferencedKeys(Seq<char>),
}

impl DeepView for Finding {
    type V = FindingModel;

    open spec fn deep_view(&self) -> FindingModel {
        match self {
            Finding::KeyInBothMaps(key) => FindingModel::KeyInBothMaps(key@),
            Finding::MultipleReferencedKeys(key) => FindingModel::MultipleReferencedKeys(key@),
            Finding::MultipleCustomReferencedKeys(key) => FindingModel::MultipleCustomReferencedKeys(
                key@,
            ),
        }
    }
}

/// The sentence that reports `finding`.
pub open spec fn finding_message(finding: FindingModel) -> Seq<char> {
    match finding {
        FindingModel::KeyInBothMaps(key) => "Key '"@ + key
            + "' exists in both 'references' and 'custom_references'"@,
        FindingModel::MultipleReferencedKeys(key) => "Key '"@ + key
            + "' in 'references' has more than one referenced key"@,
        FindingModel::MultipleCustomReferencedKeys(key) => "Key '"@ + key
            + "' in 'custom_references' has more than one referenced key"@,
    }
}

impl Finding {
    /// The sentence that reports this finding.
    pub fn message(&self) -> (text: String)
        ensures
            text@ == finding_message(self.deep_view()),
    {
        let mut text = String::from_str("Key '");
        match self {
            Finding::KeyInBothMaps(key) => {
                text.append(key.as_str());
                text.append("' exists in both 'references' and 'custom_references'");
            },
            Finding::MultipleReferencedKeys(key) => {
                text.append(key.as_str());
                text.append("' in 'references' has more than one referenced key");
            },
            Finding::MultipleCustomReferencedKeys(key) => {
                text.append(key.as_str());
                text.append("' in 'custom_references' has more than one referenced key");
            },
        }
        text
    }
}

/// The entries whose key `other` holds too.
pub open spec fn also_in(other: ReferencesModel) -> spec_fn((Seq<char>, Seq<Seq<char>>)) -> bool {
    |entry: (Seq<char>, Seq<Seq<char>>)| position(other, entry.0) is Some
}

/// The entries that reference more than one key.
pub open spec fn has_several() -> spec_fn((Seq<char>, Seq<Seq<char>>)) -> bool {
    |entry: (Seq<char>, Seq<Seq<char>>)| entry.1.len() > 1
}

/// The keys of `references` that stand in `other` too, in the order of
/// `references`.
pub open spec fn keys_in_both(references: ReferencesModel, other: ReferencesModel) -> Seq<
    Seq<char>,
> {
    names(references.filter(also_in(other)))
}

/// The keys of a map that reference more than one key, in its order.
pub open spec fn keys_with_several(references: ReferencesModel) -> Seq<Seq<char>> {
    names(references.filter(has_several()))
}

/// The findings of the second check: first those of the scanned references,
/// then those of the custom references.
pub open spec fn several_findings(project: ProjectModel) -> Seq<FindingModel> {
    keys_with_several(scanned_references(project.databases)).map_values(
        |key: Seq<char>| FindingModel::MultipleReferencedKeys(key),
    ) + keys_with_several(reference_list(project.custom_references)).map_values(
        |key: Seq<char>| FindingModel::MultipleCustomReferencedKeys(key),
    )
}

/// All findings: those of the first check, then those of the second.
pub open spec fn findings(project: ProjectModel) -> Seq<FindingModel> {
    keys_in_both(
        scanned_references(project.databases),
        reference_list(project.custom_references),
    ).map_values(|key: Seq<char>| FindingModel::KeyInBothMaps(key)) + several_findings(project)
}

/// Lists the keys that stand in the scanned and in the custom references.
pub fn validate_keys_in_references_and_custom_references(config: &Config) -> (keys: Vec<String>)
    ensures
        keys.deep_view() == keys_in_both(
            scanned_references(config.deep_view().databases),
            reference_list(config.deep_view().custom_references),
        ),
{
    let scanned = list_scanned_references(config);
    let custom = list_references(&config.custom_references);
    let mut keys: Vec<String> = Vec::new();
    let mut i: usize = 0;
    assert(scanned.deep_view().take(0).filter(also_in(custom.deep_view())) =~= Seq::empty()) by {
        reveal(Seq::filter);
    }
    assert(keys.deep_view() =~= Seq::empty());
    while i < scanned.len()
        invariant
            i <= scanned.len(),
            keys.deep_view() =~= names(
                scanned.deep_view().take(i as int).filter(also_in(custom.deep_view())),
            ),
        decreases scanned.len() - i,
    {
        let ghost done = scanned.deep_view().take(i as int);
        let ghost entry = scanned.deep_view()[i as int];
        let ghost listed = keys.deep_view();
        proof {
            assert(scanned.deep_view().take(i + 1) =~= done.push(entry));
            done.lemma_filter_push(entry, also_in(custom.deep_view()));
            assert(entry.0 == scanned@[i as int].0@);
        }
        if holds_key(&custom, scanned[i].0.as_str()) {
            keys.push(scanned[i].0.clone());
            proof {
                let kept = done.filter(also_in(custom.deep_view()));
                assert(keys.deep_view() =~= listed.push(entry.0));
                assert(names(kept.push(entry)) =~= names(kept).push(entry.0));
            }
        }
        i = i + 1;
    }
    assert(scanned.deep_view().take(i as int) =~= scanned.deep_view());
    keys
}

fn list_keys_with_several(references: &Vec<(String, Vec<String>)>) -> (keys: Vec<String>)
    ensures
        keys.deep_view() == keys_with_several(references.deep_view()),
{
    let mut keys: Vec<String> = Vec::new();
    let mut i: usize = 0;
    assert(references.deep_view().take(0).filter(has_several()) =~= Seq::empty()) by {
        reveal(Seq::filter);
    }
    assert(keys.deep_view() =~= Seq::empty());
    while i < references.len()
        invariant
            i <= references.len(),
            keys.deep_view() =~= names(
                references.deep_view().take(i as int).filter(has_several()),
            ),
        decreases references.len() - i,
    {
        let ghost done = references.deep_view().take(i as int);
        let ghost entry = references.deep_view()[i as int];
        let ghost listed = keys.deep_view();
        proof {
            assert(references.deep_view().take(i + 1) =~= done.push(entry));
            done.lemma_filter_push(entry, has_several());
            assert(entry == (references@[i as int].0@, references@[i as int].1.deep_view()));
        }
        if references[i].1.len() > 1 {
            keys.push(references[i].0.clone());
            proof {
                let kept = done.filter(has_several());
                assert(keys.deep_view() =~= listed.push(entry.0));
                assert(names(kept.push(entry)) =~= names(kept).push(entry.0));
            }
        }
        i = i + 1;
    }
    assert(references.deep_view().take(i as int) =~= references.deep_view());
    keys
}

/// Lists the keys, of either map, that reference more than one key.
pub fn validate_keys_with_multiple_referenced_keys(config: &Config) -> (found: Vec<Finding>)
    ensures
        found.deep_view() == several_findings(config.deep_view()),
{
    let scanned = list_keys_with_several(&list_scanned_references(config));
    let custom = list_keys_with_several(&list_references(&config.custom_references));
    let mut found: Vec<Finding> = Vec::new();
    let mut i: usize = 0;
    while i < scanned.len()
        invariant
            i <= scanned.len(),
            found@.len() == i,
            forall|k: int|
                0 <= k < i ==> (#[trigger] found@[k]).deep_view()
                    == FindingModel::MultipleReferencedKeys(scanned@[k]@),
        decreases scanned.len() - i,
    {
        found.push(Finding::MultipleReferencedKeys(scanned[i].clone()));
        i = i + 1;
    }
    let mut j: usize = 0;
    while j < custom.len()
        invariant
            j <= custom.len(),
            found@.len() == scanned.len() + j,
            forall|k: int|
                0 <= k < scanned.len() ==> (#[trigger] found@[k]).deep_view()
                    == FindingModel::MultipleReferencedKeys(scanned@[k]@),
            forall|k: int|
                scanned.len() <= k < scanned.len() + j ==> (#[trigger] found@[k]).deep_view()
                    == FindingModel::MultipleCustomReferencedKeys(custom@[k - scanned.len()]@),
        decreases custom.len() - j,
    {
        found.push(Finding::MultipleCustomReferencedKeys(custom[j].clone()));
        j = j + 1;
    }
    proof {
        let first = keys_with_several(
            scanned_references(config.deep_view().databases),
        ).map_values(|key: Seq<char>| FindingModel::MultipleReferencedKeys(key));
        let second = keys_with_several(
            reference_list(config.deep_view().custom_references),
        ).map_values(
            |key: Seq<char>| FindingModel::MultipleCustomReferencedKeys(key),
        );
        assert forall|k: int| 0 <= k < found@.len() implies found.deep_view()[k] == (first
            + second)[k] by {
            if k < scanned.len() {
                assert(scanned.deep_view()[k] == scanned@[k]@);
            } else {
                assert(custom.deep_view()[k - scanned.len()] == custom@[k - scanned.len()]@);
            }
        }
        assert(found.deep_view() =~= first + second);
    }
    found
}

/// Runs both checks and lists what they found.
pub fn validate(config: &Config) -> (found: Vec<Finding>)
    ensures
        found.deep_view() == findings(config.deep_view()),
{
    let both = validate_keys_in_references_and_custom_references(config);
    let mut several = validate_keys_with_multiple_referenced_keys(config);
    let ghost listed = several.deep_view();
    let mut found: Vec<Finding> = Vec::new();
    let mut i: usize = 0;
    while i < both.len()
        invariant
            i <= both.len(),
            found@.len() == i,
            forall|k: int|
                0 <= k < i ==> (#[trigger] found@[k]).deep_view() == FindingModel::KeyInBothMaps(
                    both@[k]@,
                ),
        decreases both.len() - i,
    {
        found.push(Finding::KeyInBothMaps(both[i].clone()));
        i = i + 1;
    }
    let ghost first = found@;
    let ghost second = several@;
    found.append(&mut several);
    assert(found@ =~= first + second);
    proof {
        let head = keys_in_both(
            scanned_references(config.deep_view().databases),
            reference_list(config.deep_view().custom_references),
        ).map_values(|key: Seq<char>| FindingModel::KeyInBothMaps(key));
        let tail = several_findings(config.deep_view());
        assert forall|k: int| 0 <= k < found@.len() implies found.deep_view()[k] == (head
            + tail)[k] by {
            if k < both.len() {
                assert(found@[k] == first[k]);
                assert(both.deep_view()[k] == both@[k]@);
            } else {
                assert(found@[k] == second[k - both.len()]);
                assert(listed[k - both.len()] == second[k - both.len()].deep_view());
            }
        }
        assert(found.deep_view() =~= head + tail);
    }
    found
}

} // verus!

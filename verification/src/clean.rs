//! Forgetting what scans found, while keeping what an operator added.

use vstd::prelude::*;
use crate::config::{Config, DatabaseModel, ProjectDatabase, ProjectModel};
use crate::duplicate::Duplicate;
use crate::generate::{databases_text, generate_all_spec, references_text};
use crate::references::{reference_list, scanned_references};

verus! {

/// The database without what a scan found: it has no tables and no
/// references. Its connection stays.
pub open spec fn clean_database(database: DatabaseModel) -> DatabaseModel {
    DatabaseModel { connection: database.connection, tables: None, references: None }
}

/// The project without what scans found in any of its databases. The custom
/// references stay.
pub open spec fn clean_project(project: ProjectModel) -> ProjectModel {
    ProjectModel {
        databases: Seq::new(
            project.databases.len(),
            |i: int| (project.databases[i].0, clean_database(project.databases[i].1)),
        ),
        ..project
    }
}

/// Removes the tables and the scanned references of every database.
pub fn clean(config: &mut Config)
    ensures
        final(config).deep_view() == clean_project(old(config).deep_view()),
{
    let count = config.databases.len();
    let mut cleaned: Vec<ProjectDatabase> = Vec::new();
    let mut i: usize = 0;
    while i < count
        invariant
            i <= count == config.databases.deep_view().len(),
            cleaned@.len() == i,
            forall|k: int|
                0 <= k < i ==> (#[trigger] cleaned@[k]).deep_view() == clean_database(
                    config.databases.deep_view()[k].1,
                ),
        decreases count - i,
    {
        let database = config.databases.value_at(i);
        cleaned.push(
            ProjectDatabase {
                connection: database.connection.duplicate(),
                tables: None,
                references: None,
            },
        );
        i = i + 1;
    }
    let databases = config.databases.with_values(cleaned);
    assert(databases.deep_view() =~= clean_project(old(config).deep_view()).databases);
    config.databases = databases;
}

/// Databases without tables and without references give no text.
pub proof fn lemma_cleaned_databases_give_no_text(databases: Seq<(Seq<char>, DatabaseModel)>)
    requires
        forall|i: int|
            0 <= i < databases.len() ==> (#[trigger] databases[i]).1.tables is None
                && databases[i].1.references is None,
    ensures
        databases_text(databases) == Seq::<char>::empty(),
        scanned_references(databases) == Seq::<(Seq<char>, Seq<Seq<char>>)>::empty(),
    decreases databases.len(),
{
    if databases.len() > 0 {
        lemma_cleaned_databases_give_no_text(databases.drop_last());
        assert(databases_text(databases) =~= Seq::<char>::empty());
        assert(scanned_references(databases) =~= Seq::<(Seq<char>, Seq<Seq<char>>)>::empty());
    }
}

/// After a clean, the text of the whole project holds no table and no
/// scanned reference: it is the lines of the custom references.
pub proof fn clean_then_generate(project: ProjectModel)
    ensures
        generate_all_spec(clean_project(project)) == references_text(
            reference_list(project.custom_references),
        ),
{
    let cleaned = clean_project(project);
    lemma_cleaned_databases_give_no_text(cleaned.databases);
    assert(generate_all_spec(cleaned) =~= references_text(
        reference_list(project.custom_references),
    ));
}

/// Cleaning a clean project changes nothing.
pub proof fn clean_is_idempotent(project: ProjectModel)
    ensures
        clean_project(clean_project(project)) == clean_project(project),
{
    assert(clean_project(clean_project(project)).databases =~= clean_project(project).databases);
}

} // verus!

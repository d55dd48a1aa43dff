//! Searching the project for columns whose name matches a pattern and that
//! no reference map mentions yet, and recording what they reference.

use vstd::prelude::*;
use crate::config::{
    ColumnModel, Config, DatabaseModel, ProjectDatabaseColumn, ProjectDatabaseTable, ProjectModel,
    References, ReferencesModel, TableModel,
};
use crate::error::{Error, ErrorModel};
use crate::generate::find_table;
use crate::key::{
    encode_column_key, encode_column_key_string, parse_column_key, parse_column_key_spec,
};
use crate::names::{lemma_position, lemma_position_none, position, NameMap};
use crate::references::{
    add_reference, append_reference, holds_key, is_mapped, list_scanned_references,
    reference_list, scanned_references,
};

verus! {

/// `regex::Regex`, a compiled regular expression. Nothing of what it holds
/// is visible to the proofs: they know it by the texts that it matches.
#[verifier::external_type_specification]
#[verifier::external_body]
pub struct ExRegex(regex::Regex);

/// The texts that `regex` matches: those in which `regex::Regex::is_match`
/// finds a match of it.
pub uninterp spec fn language(regex: regex::Regex) -> Set<Seq<char>>;

/// The texts that match `pattern`: those matched by the expression that
/// `regex::Regex::new` compiles from it, or nothing where it compiles none.
pub uninterp spec fn pattern_language(pattern: Seq<char>) -> Option<Set<Seq<char>>>;

/// Calls `regex::Regex::new`. Whether a pattern compiles, and what the
/// compiled expression matches, depends on the pattern alone.
#[verifier::external_body]
fn compile(pattern: &str) -> (regex: Option<regex::Regex>)
    ensures
        match regex {
            Some(built) => pattern_language(pattern@) == Some(language(built)),
            None => pattern_language(pattern@) is None,
        },
{
    regex::Regex::new(pattern).ok()
}

/// Calls `regex::Regex::is_match`, which looks for a match anywhere in
/// `text` and depends on the expression and the text alone.
#[verifier::external_body]
fn is_match(regex: &regex::Regex, text: &str) -> (found: bool)
    ensures
        found == language(*regex).contains(text@),
{
    regex.is_match(text)
}

/// The columns of one table, each as its key and its name.
pub open spec fn table_columns(
    database: Seq<char>,
    table: Seq<char>,
    columns: Seq<(Seq<char>, ColumnModel)>,
) -> Seq<(Seq<char>, Seq<char>)> {
    Seq::new(
        columns.len(),
        |i: int| (encode_column_key(database, table, columns[i].0), columns[i].0),
    )
}

/// The columns of the tables of one database, table after table.
pub open spec fn database_columns(database: Seq<char>, tables: Seq<(Seq<char>, TableModel)>) -> Seq<
    (Seq<char>, Seq<char>),
>
    decreases tables.len(),
{
    if tables.len() == 0 {
        Seq::empty()
    } else {
        database_columns(database, tables.drop_last()) + table_columns(
            database,
            tables.last().0,
            tables.last().1.columns,
        )
    }
}

/// The columns of all scanned databases, database after database.
pub open spec fn project_columns(databases: Seq<(Seq<char>, DatabaseModel)>) -> Seq<
    (Seq<char>, Seq<char>),
>
    decreases databases.len(),
{
    if databases.len() == 0 {
        Seq::empty()
    } else {
        project_columns(databases.drop_last()) + match databases.last().1.tables {
            Some(tables) => database_columns(databases.last().0, tables),
            None => Seq::empty(),
        }
    }
}

fn append_table_columns(
    listed: &mut Vec<(String, String)>,
    database: &String,
    table: &String,
    columns: &NameMap<ProjectDatabaseColumn>,
)
    ensures
        final(listed).deep_view() == old(listed).deep_view() + table_columns(
            database@,
            table@,
            columns.deep_view(),
        ),
{
    let ghost before = listed.deep_view();
    let count = columns.len();
    let mut i: usize = 0;
    while i < count
        invariant
            i <= count == columns.deep_view().len(),
            listed.deep_view() =~= before + table_columns(
                database@,
                table@,
                columns.deep_view(),
            ).take(i as int),
        decreases count - i,
    {
        let ghost done = listed.deep_view();
        let name = columns.name_at(i);
        let key = encode_column_key_string(database.as_str(), table.as_str(), name.as_str());
        listed.push((key, name.clone()));
        assert(listed.deep_view() =~= done.push((key@, name@)));
        i = i + 1;
    }
    assert(table_columns(database@, table@, columns.deep_view()).take(i as int)
        =~= table_columns(database@, table@, columns.deep_view()));
}

fn append_database_columns(
    listed: &mut Vec<(String, String)>,
    database: &String,
    tables: &NameMap<ProjectDatabaseTable>,
)
    ensures
        final(listed).deep_view() == old(listed).deep_view() + database_columns(
            database@,
            tables.deep_view(),
        ),
{
    let ghost before = listed.deep_view();
    let count = tables.len();
    let mut i: usize = 0;
    assert(before + database_columns(database@, tables.deep_view().take(0)) =~= before);
    while i < count
        invariant
            i <= count == tables.deep_view().len(),
            listed.deep_view() == before + database_columns(
                database@,
                tables.deep_view().take(i as int),
            ),
        decreases count - i,
    {
        proof {
            let next = tables.deep_view().take(i + 1);
            assert(next.drop_last() =~= tables.deep_view().take(i as int));
            assert(next.last() == tables.deep_view()[i as int]);
        }
        let ghost done = database_columns(database@, tables.deep_view().take(i as int));
        append_table_columns(listed, database, tables.name_at(i), &tables.value_at(i).columns);
        assert(listed.deep_view() =~= before + (done + table_columns(
            database@,
            tables.deep_view()[i as int].0,
            tables.deep_view()[i as int].1.columns,
        )));
        i = i + 1;
    }
    assert(tables.deep_view().take(i as int) =~= tables.deep_view());
}

/// Lists the columns of the project: for each, its key and its name, in the
/// order of the databases, of their tables and of their columns.
pub fn list_columns(config: &Config) -> (columns: Vec<(String, String)>)
    ensures
        columns.deep_view() == project_columns(config.deep_view().databases),
{
    let mut columns: Vec<(String, String)> = Vec::new();
    let count = config.databases.len();
    let mut i: usize = 0;
    assert(columns.deep_view() =~= project_columns(config.databases.deep_view().take(0)));
    while i < count
        invariant
            i <= count == config.databases.deep_view().len(),
            columns.deep_view() == project_columns(config.databases.deep_view().take(i as int)),
        decreases count - i,
    {
        proof {
            let next = config.databases.deep_view().take(i + 1);
            assert(next.drop_last() =~= config.databases.deep_view().take(i as int));
            assert(next.last() == config.databases.deep_view()[i as int]);
        }
        match &config.databases.value_at(i).tables {
            Some(tables) => {
                append_database_columns(&mut columns, config.databases.name_at(i), tables);
            },
            None => {
                assert(columns.deep_view() + Seq::<(Seq<char>, Seq<char>)>::empty()
                    =~= columns.deep_view());
            },
        }
        i = i + 1;
    }
    assert(config.databases.deep_view().take(i as int) =~= config.databases.deep_view());
    columns
}

/// What a search has found so far: the keys of the unmapped columns, and the
/// custom references with what was added for them.
pub struct SearchModel {
    pub found: Seq<Seq<char>>,
    pub custom_references: Option<ReferencesModel>,
}

/// The search after it has looked at a column whose name matched. A column
/// whose key stands in either reference map is passed over. Any other is
/// found, and where a referenced key was given, that key is added to the
/// custom references under the column's key.
pub open spec fn note_column(
    state: SearchModel,
    references: ReferencesModel,
    key: Seq<char>,
    referenced_key: Option<Seq<char>>,
) -> SearchModel {
    if is_mapped(references, key) || is_mapped(reference_list(state.custom_references), key) {
        state
    } else {
        SearchModel {
            found: state.found.push(key),
            custom_references: match referenced_key {
                Some(target) => Some(
                    add_reference(reference_list(state.custom_references), key, target),
                ),
                None => state.custom_references,
            },
        }
    }
}

/// Whether the column at `i` was accepted. A column without a flag was not.
pub open spec fn accepted_at(accepted: Seq<bool>, i: int) -> bool {
    0 <= i < accepted.len() && accepted[i]
}

/// The search over `columns`, of which those flagged in `accepted` matched,
/// taken one after the other.
pub open spec fn search_columns(
    columns: Seq<(Seq<char>, Seq<char>)>,
    accepted: Seq<bool>,
    references: ReferencesModel,
    referenced_key: Option<Seq<char>>,
    custom_references: Option<ReferencesModel>,
) -> SearchModel
    decreases columns.len(),
{
    if columns.len() == 0 {
        SearchModel { found: Seq::empty(), custom_references }
    } else {
        let before = search_columns(
            columns.drop_last(),
            accepted,
            references,
            referenced_key,
            custom_references,
        );
        if accepted_at(accepted, columns.len() - 1) {
            note_column(before, references, columns.last().0, referenced_key)
        } else {
            before
        }
    }
}

/// The project with other custom references.
pub open spec fn with_custom_references(
    project: ProjectModel,
    custom_references: Option<ReferencesModel>,
) -> ProjectModel {
    ProjectModel { custom_references, ..project }
}

/// Goes through `columns`, of which those flagged in `accepted` matched the
/// pattern, and returns the keys of those that no reference map mentions.
/// Where `referenced_key` is given, it is added to the custom references
/// under each of these keys.
pub fn add_unmapped(
    config: &mut Config,
    columns: &Vec<(String, String)>,
    accepted: &Vec<bool>,
    referenced_key: Option<&String>,
) -> (found: Vec<String>)
    ensures
        ({
            let outcome = search_columns(
                columns.deep_view(),
                accepted@,
                scanned_references(old(config).deep_view().databases),
                referenced_key.deep_view(),
                old(config).deep_view().custom_references,
            );
            &&& found.deep_view() == outcome.found
            &&& final(config).deep_view() == with_custom_references(
                old(config).deep_view(),
                outcome.custom_references,
            )
        }),
{
    let ghost project = config.deep_view();
    let scanned = list_scanned_references(config);
    let mut found: Vec<String> = Vec::new();
    let mut custom: Option<References> = None;
    core::mem::swap(&mut config.custom_references, &mut custom);
    assert(found.deep_view() =~= Seq::empty());
    assert(columns.deep_view().take(0) =~= Seq::empty());
    let mut i: usize = 0;
    while i < columns.len()
        invariant
            i <= columns.len(),
            scanned.deep_view() == scanned_references(project.databases),
            config.databases.deep_view() == project.databases,
            config.project@ == project.project,
            search_columns(
                columns.deep_view().take(i as int),
                accepted@,
                scanned.deep_view(),
                referenced_key.deep_view(),
                project.custom_references,
            ) == (SearchModel {
                found: found.deep_view(),
                custom_references: custom.deep_view(),
            }),
        decreases columns.len() - i,
    {
        proof {
            let next = columns.deep_view().take(i + 1);
            assert(next.drop_last() =~= columns.deep_view().take(i as int));
            assert(next.last() == (columns@[i as int].0@, columns@[i as int].1@));
        }
        if i < accepted.len() && accepted[i] {
            let key = &columns[i].0;
            if !holds_key(&scanned, key.as_str()) && !custom_holds(&custom, key.as_str()) {
                let ghost before = found.deep_view();
                found.push(key.clone());
                assert(found.deep_view() =~= before.push(key@));
                match referenced_key {
                    Some(target) => {
                        let mut map: References = match custom {
                            Some(present) => present,
                            None => NameMap::new(),
                        };
                        append_reference(&mut map, key.as_str(), target.as_str());
                        custom = Some(map);
                    },
                    None => {},
                }
            }
        }
        i = i + 1;
    }
    assert(columns.deep_view().take(i as int) =~= columns.deep_view());
    config.custom_references = custom;
    found
}

fn custom_holds(custom: &Option<References>, key: &str) -> (present: bool)
    ensures
        present == is_mapped(reference_list(custom.deep_view()), key@),
{
    match custom {
        Some(map) => map.contains_key(key),
        None => {
            proof {
                lemma_position_none(
                    Seq::<(Seq<char>, Seq<Seq<char>>)>::empty(),
                    key@,
                );
            }
            false
        },
    }
}

/// Whether a referenced key names a column of the project.
pub open spec fn check_referenced_key_spec(project: ProjectModel, key: Seq<char>) -> Result<
    (),
    ErrorModel,
> {
    match parse_column_key_spec(key) {
        Some((database, table, column)) => match find_table(project, database, table) {
            Some(found) => if position(found.columns, column) is Some {
                Ok(())
            } else {
                Err(ErrorModel::UnknownReferencedColumn(key))
            },
            None => Err(ErrorModel::UnknownReferencedColumn(key)),
        },
        None => Err(ErrorModel::MalformedKey(key)),
    }
}

/// Checks that `key` is a column key and names a column of the project.
pub fn check_referenced_key(config: &Config, key: &str) -> (checked: Result<(), Error>)
    ensures
        match checked {
            Ok(()) => check_referenced_key_spec(config.deep_view(), key@) == Ok::<(), ErrorModel>(
                (),
            ),
            Err(error) => check_referenced_key_spec(config.deep_view(), key@) == Err::<
                (),
                ErrorModel,
            >(error.deep_view()),
        },
{
    match parse_column_key(key) {
        Ok((database, table, column)) => {
            let known = match config.databases.get(database.as_str()) {
                Some(entry) => match &entry.tables {
                    Some(tables) => match tables.get(table.as_str()) {
                        Some(found) => found.columns.contains_key(column.as_str()),
                        None => false,
                    },
                    None => false,
                },
                None => false,
            };
            if known {
                Ok(())
            } else {
                Err(Error::UnknownReferencedColumn(key.to_owned()))
            }
        },
        Err(error) => Err(error),
    }
}

/// For each column, whether its name is among `matching`.
pub open spec fn acceptance(matching: Set<Seq<char>>, columns: Seq<(Seq<char>, Seq<char>)>) -> Seq<
    bool,
> {
    Seq::new(columns.len(), |i: int| matching.contains(columns[i].1))
}

fn match_columns(regex: &regex::Regex, columns: &Vec<(String, String)>) -> (accepted: Vec<bool>)
    ensures
        accepted@ == acceptance(language(*regex), columns.deep_view()),
{
    let mut accepted: Vec<bool> = Vec::new();
    let mut i: usize = 0;
    while i < columns.len()
        invariant
            i <= columns.len(),
            accepted@ =~= acceptance(language(*regex), columns.deep_view()).take(i as int),
        decreases columns.len() - i,
    {
        accepted.push(is_match(regex, columns[i].1.as_str()));
        i = i + 1;
    }
    assert(acceptance(language(*regex), columns.deep_view()).take(i as int) =~= acceptance(
        language(*regex),
        columns.deep_view(),
    ));
    accepted
}

/// What a search for `pattern` does to the project. The pattern must
/// compile, and a referenced key, where one is given, must name a column of
/// the project; else the search fails before it changes anything.
pub open spec fn search_spec(
    project: ProjectModel,
    pattern: Seq<char>,
    referenced_key: Option<Seq<char>>,
) -> Result<SearchModel, ErrorModel> {
    match pattern_language(pattern) {
        Some(matching) => {
            let checked = match referenced_key {
                Some(key) => check_referenced_key_spec(project, key),
                None => Ok(()),
            };
            match checked {
                Ok(()) => {
                    let columns = project_columns(project.databases);
                    Ok(
                        search_columns(
                            columns,
                            acceptance(matching, columns),
                            scanned_references(project.databases),
                            referenced_key,
                            project.custom_references,
                        ),
                    )
                },
                Err(error) => Err(error),
            }
        },
        None => Err(ErrorModel::InvalidPattern(pattern)),
    }
}

/// Searches the project for columns whose name matches `pattern` and whose
/// key stands in neither reference map, and returns their keys. Where
/// `referenced_key` is given, it is recorded in the custom references as what
/// each of these columns references. Without it the project stays as it is.
pub fn search(config: &mut Config, pattern: &str, referenced_key: Option<&String>) -> (found: Result<
    Vec<String>,
    Error,
>)
    ensures
        match search_spec(old(config).deep_view(), pattern@, referenced_key.deep_view()) {
            Ok(outcome) => {
                &&& found matches Ok(keys) && keys.deep_view() == outcome.found
                &&& final(config).deep_view() == with_custom_references(
                    old(config).deep_view(),
                    outcome.custom_references,
                )
            },
            Err(error) => {
                &&& found matches Err(e) && e.deep_view() == error
                &&& final(config).deep_view() == old(config).deep_view()
            },
        },
        referenced_key is None ==> final(config).deep_view() == old(config).deep_view(),
{
    let regex = match compile(pattern) {
        Some(regex) => regex,
        None => {
            return Err(Error::InvalidPattern(pattern.to_owned()));
        },
    };
    match referenced_key {
        Some(key) => {
            match check_referenced_key(config, key.as_str()) {
                Ok(()) => {},
                Err(error) => {
                    return Err(error);
                },
            }
        },
        None => {},
    }
    let columns = list_columns(config);
    let accepted = match_columns(&regex, &columns);
    proof {
        search_without_referenced_key(
            columns.deep_view(),
            accepted@,
            scanned_references(config.deep_view().databases),
            config.deep_view().custom_references,
        );
    }
    Ok(add_unmapped(config, &columns, &accepted, referenced_key))
}

/// A search without a referenced key leaves the custom references as they
/// are, whatever it finds.
pub proof fn search_without_referenced_key(
    columns: Seq<(Seq<char>, Seq<char>)>,
    accepted: Seq<bool>,
    references: ReferencesModel,
    custom_references: Option<ReferencesModel>,
)
    ensures
        search_columns(columns, accepted, references, None, custom_references).custom_references
            == custom_references,
    decreases columns.len(),
{
    if columns.len() > 0 {
        search_without_referenced_key(
            columns.drop_last(),
            accepted,
            references,
            custom_references,
        );
    }
}

/// A search without a referenced key leaves the project as it is, whatever
/// the pattern and however often it runs.
pub proof fn search_without_referenced_key_keeps_the_project(
    project: ProjectModel,
    pattern: Seq<char>,
)
    ensures
        match search_spec(project, pattern, None) {
            Ok(outcome) => with_custom_references(project, outcome.custom_references) == project,
            Err(_) => true,
        },
{
    match pattern_language(pattern) {
        Some(matching) => {
            let columns = project_columns(project.databases);
            search_without_referenced_key(
                columns,
                acceptance(matching, columns),
                scanned_references(project.databases),
                project.custom_references,
            );
        },
        None => {},
    }
}

/// A search only adds: the custom references that were there stay where they
/// were, each with its list, and every key that is found is new to them.
pub proof fn search_only_adds(
    columns: Seq<(Seq<char>, Seq<char>)>,
    accepted: Seq<bool>,
    references: ReferencesModel,
    referenced_key: Option<Seq<char>>,
    custom_references: Option<ReferencesModel>,
)
    ensures
        reference_list(custom_references).is_prefix_of(
            reference_list(
                search_columns(
                    columns,
                    accepted,
                    references,
                    referenced_key,
                    custom_references,
                ).custom_references,
            ),
        ),
    decreases columns.len(),
{
    if columns.len() > 0 {
        search_only_adds(
            columns.drop_last(),
            accepted,
            references,
            referenced_key,
            custom_references,
        );
        let before = search_columns(
            columns.drop_last(),
            accepted,
            references,
            referenced_key,
            custom_references,
        );
        lemma_position(reference_list(before.custom_references), columns.last().0);
    }
}

} // verus!

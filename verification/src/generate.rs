//! Generating the DBML text of a project: all of it, or the part that one
//! table depends on.

use vstd::prelude::*;
use vstd::string::*;
use crate::config::{
    Config, DatabaseModel, ProjectDatabaseTable, ProjectModel, ReferencesModel, TableModel,
};
use crate::dbml::{reference_to_dbml, render_reference, render_table};
use crate::error::{Error, ErrorModel};
use crate::key::{
    encode_table_key, encode_table_key_string, lemma_table_key_of_column_key, parse_column_key,
    parse_column_key_spec, parse_table_key, parse_table_key_spec, table_key_of,
    table_key_parse_then_encode,
};
use crate::names::{lemma_position, lookup, position, NameMap};
use crate::references::{
    list_references, list_scanned_references, reference_list, scanned_references,
};
use crate::text::str_equal;

verus! {

/// The table called `table` in the database called `database`.
pub open spec fn find_table(
    project: ProjectModel,
    database: Seq<char>,
    table: Seq<char>,
) -> Option<TableModel> {
    match lookup(project.databases, database) {
        Some(found) => match found.tables {
            Some(tables) => lookup(tables, table),
            None => None,
        },
        None => None,
    }
}

/// The table that a table key names, with the names of its database and of
/// itself: the key is parsed, then looked up.
pub open spec fn get_table_spec(project: ProjectModel, key: Seq<char>) -> Result<
    (Seq<char>, Seq<char>, TableModel),
    ErrorModel,
> {
    match parse_table_key_spec(key) {
        Some((database, table)) => match find_table(project, database, table) {
            Some(found) => Ok((database, table, found)),
            None => Err(ErrorModel::UnknownTable(key)),
        },
        None => Err(ErrorModel::MalformedKey(key)),
    }
}

/// A table of the project with the names under which it was found.
pub struct TableInfo<'a> {
    pub database_name: String,
    pub table_name: String,
    pub table: &'a ProjectDatabaseTable,
}

fn lookup_table<'a>(config: &'a Config, database: &str, table: &str) -> (found: Option<
    &'a ProjectDatabaseTable,
>)
    ensures
        found.deep_view() == find_table(config.deep_view(), database@, table@),
{
    match config.databases.get(database) {
        Some(entry) => match &entry.tables {
            Some(tables) => tables.get(table),
            None => None,
        },
        None => None,
    }
}

/// Finds the table that `table_key` names.
pub fn get_table<'a>(config: &'a Config, table_key: &str) -> (found: Result<TableInfo<'a>, Error>)
    ensures
        match found {
            Ok(info) => get_table_spec(config.deep_view(), table_key@) == Ok::<
                (Seq<char>, Seq<char>, TableModel),
                ErrorModel,
            >((info.database_name@, info.table_name@, info.table.deep_view())),
            Err(error) => get_table_spec(config.deep_view(), table_key@) == Err::<
                (Seq<char>, Seq<char>, TableModel),
                ErrorModel,
            >(error.deep_view()),
        },
{
    match parse_table_key(table_key) {
        Ok((database_name, table_name)) => {
            match lookup_table(config, database_name.as_str(), table_name.as_str()) {
                Some(table) => Ok(TableInfo { database_name, table_name, table }),
                None => Err(Error::UnknownTable(table_key.to_owned())),
            }
        },
        Err(error) => Err(error),
    }
}

/// The references of one column, as edges from its key.
pub open spec fn edges_from(key: Seq<char>, referenced_keys: Seq<Seq<char>>) -> Seq<
    (Seq<char>, Seq<char>),
> {
    Seq::new(referenced_keys.len(), |i: int| (key, referenced_keys[i]))
}

/// All references of a map as edges, in the order of the map and of its lists.
pub open spec fn all_edges(references: ReferencesModel) -> Seq<(Seq<char>, Seq<char>)>
    decreases references.len(),
{
    if references.len() == 0 {
        Seq::empty()
    } else {
        all_edges(references.drop_last()) + edges_from(
            references.last().0,
            references.last().1,
        )
    }
}

/// The references that start at a column of the table `table_key`, as edges,
/// in the order of the map and of its lists.
pub open spec fn dependencies(references: ReferencesModel, table_key: Seq<char>) -> Seq<
    (Seq<char>, Seq<char>),
>
    decreases references.len(),
{
    if references.len() == 0 {
        Seq::empty()
    } else if table_key_of(references.last().0) == Some(table_key) {
        dependencies(references.drop_last(), table_key) + edges_from(
            references.last().0,
            references.last().1,
        )
    } else {
        dependencies(references.drop_last(), table_key)
    }
}

/// The direct dependencies of a table of the project: the scanned references
/// that start at one of its columns.
pub open spec fn get_dependencies_spec(project: ProjectModel, table_key: Seq<char>) -> Seq<
    (Seq<char>, Seq<char>),
> {
    dependencies(scanned_references(project.databases), table_key)
}

fn append_edges(edges: &mut Vec<(String, String)>, key: &String, referenced_keys: &Vec<String>)
    ensures
        final(edges).deep_view() == old(edges).deep_view() + edges_from(
            key@,
            referenced_keys.deep_view(),
        ),
{
    let ghost before = edges.deep_view();
    let mut i: usize = 0;
    while i < referenced_keys.len()
        invariant
            i <= referenced_keys.len(),
            edges.deep_view() =~= before + edges_from(
                key@,
                referenced_keys.deep_view().take(i as int),
            ),
        decreases referenced_keys.len() - i,
    {
        let ghost done = edges.deep_view();
        edges.push((key.clone(), referenced_keys[i].clone()));
        assert(edges.deep_view() =~= done.push((key@, referenced_keys[i as int]@)));
        i = i + 1;
    }
    assert(referenced_keys.deep_view().take(i as int) =~= referenced_keys.deep_view());
}

fn belongs_to(key: &str, table_key: &str) -> (inside: bool)
    ensures
        inside == (table_key_of(key@) == Some(table_key@)),
{
    match parse_column_key(key) {
        Ok((database, table, _)) => {
            let owner = encode_table_key_string(database.as_str(), table.as_str());
            str_equal(owner.as_str(), table_key)
        },
        Err(_) => false,
    }
}

fn dependencies_among(scanned: &Vec<(String, Vec<String>)>, table_key: &str) -> (edges: Vec<
    (String, String),
>)
    ensures
        edges.deep_view() == dependencies(scanned.deep_view(), table_key@),
{
    let mut edges: Vec<(String, String)> = Vec::new();
    assert(edges.deep_view() =~= Seq::empty());
    assert(scanned.deep_view().take(0) =~= Seq::empty());
    let mut i: usize = 0;
    while i < scanned.len()
        invariant
            i <= scanned.len(),
            edges.deep_view() == dependencies(scanned.deep_view().take(i as int), table_key@),
        decreases scanned.len() - i,
    {
        proof {
            let next = scanned.deep_view().take(i + 1);
            assert(next.drop_last() =~= scanned.deep_view().take(i as int));
            assert(next.last() == (scanned@[i as int].0@, scanned@[i as int].1.deep_view()));
        }
        if belongs_to(scanned[i].0.as_str(), table_key) {
            append_edges(&mut edges, &scanned[i].0, &scanned[i].1);
        }
        i = i + 1;
    }
    assert(scanned.deep_view().take(i as int) =~= scanned.deep_view());
    edges
}

/// Lists the direct dependencies of the table `table_key`: for each scanned
/// reference that starts at one of its columns, the referencing key and the
/// referenced key.
pub fn get_dependencies(config: &Config, table_key: &String) -> (edges: Vec<(String, String)>)
    ensures
        edges.deep_view() == get_dependencies_spec(config.deep_view(), table_key@),
{
    let scanned = list_scanned_references(config);
    dependencies_among(&scanned, table_key.as_str())
}

/// The part of a project that one table depends on: the keys of its tables in
/// the order in which they were first reached, and the references that were
/// followed, in that order.
#[derive(Debug, PartialEq, Eq)]
pub struct Subgraph {
    pub tables: Vec<String>,
    pub references: Vec<(String, String)>,
}

/// The model of a [`Subgraph`].
pub struct SubgraphModel {
    pub tables: Seq<Seq<char>>,
    pub references: Seq<(Seq<char>, Seq<char>)>,
}

impl DeepView for Subgraph {
    type V = SubgraphModel;

    open spec fn deep_view(&self) -> SubgraphModel {
        SubgraphModel {
            tables: self.tables.deep_view(),
            references: self.references.deep_view(),
        }
    }
}

/// The keys of the tables of one database.
pub open spec fn database_table_keys(name: Seq<char>, database: DatabaseModel) -> Seq<Seq<char>> {
    match database.tables {
        Some(tables) => Seq::new(tables.len(), |i: int| encode_table_key(name, tables[i].0)),
        None => Seq::empty(),
    }
}

/// The keys of the tables of all databases.
pub open spec fn table_keys(databases: Seq<(Seq<char>, DatabaseModel)>) -> Seq<Seq<char>>
    decreases databases.len(),
{
    if databases.len() == 0 {
        Seq::empty()
    } else {
        table_keys(databases.drop_last()) + database_table_keys(
            databases.last().0,
            databases.last().1,
        )
    }
}

/// Follows `edges` one after the other, depth first. Each edge is recorded.
/// Where it leads to a table that was not reached before, that table is
/// recorded and its own dependencies are followed before the next edge.
/// `depth` is the number of nested tables that may still be entered; started
/// with the number of tables of the project, it does not run out.
pub open spec fn walk(
    project: ProjectModel,
    edges: Seq<(Seq<char>, Seq<char>)>,
    reached: SubgraphModel,
    depth: nat,
) -> Result<SubgraphModel, ErrorModel>
    decreases depth, edges.len(),
{
    if edges.len() == 0 {
        Ok(reached)
    } else {
        let edge = edges.first();
        match parse_column_key_spec(edge.1) {
            Some((database, table, _)) => {
                let target = encode_table_key(database, table);
                let recorded = SubgraphModel {
                    tables: reached.tables,
                    references: reached.references.push(edge),
                };
                if reached.tables.contains(target) {
                    walk(project, edges.drop_first(), recorded, depth)
                } else if find_table(project, database, table) is None {
                    Err(ErrorModel::UnknownTable(target))
                } else {
                    let entered = SubgraphModel {
                        tables: recorded.tables.push(target),
                        references: recorded.references,
                    };
                    if depth == 0 {
                        walk(project, edges.drop_first(), entered, depth)
                    } else {
                        match walk(
                            project,
                            get_dependencies_spec(project, target),
                            entered,
                            (depth - 1) as nat,
                        ) {
                            Ok(deeper) => walk(project, edges.drop_first(), deeper, depth),
                            Err(error) => Err(error),
                        }
                    }
                }
            },
            None => Err(ErrorModel::MalformedKey(edge.1)),
        }
    }
}

/// What the table `start` depends on, directly or through other tables,
/// itself included and first.
pub open spec fn resolve_spec(project: ProjectModel, start: Seq<char>) -> Result<
    SubgraphModel,
    ErrorModel,
> {
    match get_table_spec(project, start) {
        Ok(_) => walk(
            project,
            get_dependencies_spec(project, start),
            SubgraphModel { tables: seq![start], references: Seq::empty() },
            table_keys(project.databases).len(),
        ),
        Err(error) => Err(error),
    }
}

/// Whether a walk may go on from `reached`: no table was recorded twice, each
/// recorded table is one of the project, and `depth` leaves room for every
/// table that is not recorded yet.
pub open spec fn walk_invariant(project: ProjectModel, reached: SubgraphModel, depth: nat) -> bool {
    &&& reached.tables.no_duplicates()
    &&& forall|i: int|
        0 <= i < reached.tables.len() ==> table_keys(project.databases).contains(
            #[trigger] reached.tables[i],
        )
    &&& reached.tables.len() + depth > table_keys(project.databases).len()
}

/// A table that is found in the project is among its table keys.
pub proof fn lemma_found_table_is_listed(
    databases: Seq<(Seq<char>, DatabaseModel)>,
    i: int,
    j: int,
)
    requires
        0 <= i < databases.len(),
        databases[i].1.tables is Some,
        0 <= j < databases[i].1.tables->0.len(),
    ensures
        table_keys(databases).contains(
            encode_table_key(databases[i].0, databases[i].1.tables->0[j].0),
        ),
    decreases databases.len(),
{
    let key = encode_table_key(databases[i].0, databases[i].1.tables->0[j].0);
    let head = table_keys(databases.drop_last());
    let tail = database_table_keys(databases.last().0, databases.last().1);
    if i == databases.len() - 1 {
        assert(tail[j] == key);
        assert((head + tail)[head.len() + j] == key);
    } else {
        lemma_found_table_is_listed(databases.drop_last(), i, j);
        let at = choose|k: int| 0 <= k < head.len() && head[k] == key;
        assert((head + tail)[at] == key);
    }
}

/// Distinct items that all come from `all` are no more than `all` holds.
pub proof fn lemma_distinct_items_fit<A>(all: Seq<A>, seen: Seq<A>)
    requires
        seen.no_duplicates(),
        forall|i: int| 0 <= i < seen.len() ==> all.contains(#[trigger] seen[i]),
    ensures
        seen.len() <= all.len(),
{
    seen.unique_seq_to_set();
    all.lemma_cardinality_of_set();
    vstd::seq_lib::seq_to_set_is_finite(all);
    assert(seen.to_set().subset_of(all.to_set())) by {
        assert forall|a: A| seen.to_set().contains(a) implies all.to_set().contains(a) by {
            let i = choose|i: int| 0 <= i < seen.len() && seen[i] == a;
            assert(all.contains(seen[i]));
        }
    }
    vstd::set_lib::lemma_len_subset(seen.to_set(), all.to_set());
}

fn holds(keys: &Vec<String>, key: &str) -> (found: bool)
    ensures
        found == keys.deep_view().contains(key@),
{
    let mut i: usize = 0;
    while i < keys.len()
        invariant
            i <= keys.len(),
            forall|k: int| 0 <= k < i ==> keys.deep_view()[k] != key@,
        decreases keys.len() - i,
    {
        if str_equal(keys[i].as_str(), key) {
            assert(keys.deep_view()[i as int] == key@);
            return true;
        }
        i = i + 1;
    }
    false
}

fn walk_edges(
    config: &Config,
    scanned: &Vec<(String, Vec<String>)>,
    edges: &Vec<(String, String)>,
    reached: &mut Subgraph,
    Ghost(depth): Ghost<nat>,
) -> (outcome: Result<(), Error>)
    requires
        scanned.deep_view() == scanned_references(config.deep_view().databases),
        walk_invariant(config.deep_view(), old(reached).deep_view(), depth),
    ensures
        match walk(config.deep_view(), edges.deep_view(), old(reached).deep_view(), depth) {
            Ok(result) => {
                &&& outcome is Ok
                &&& final(reached).deep_view() == result
                &&& walk_invariant(config.deep_view(), result, depth)
                &&& old(reached).deep_view().tables.len() <= result.tables.len()
                &&& old(reached).deep_view().tables.len() > 0 ==> result.tables[0] == old(
                    reached,
                ).deep_view().tables[0]
            },
            Err(error) => outcome matches Err(e) && e.deep_view() == error,
        },
    decreases depth, edges.len(),
{
    let ghost project = config.deep_view();
    let ghost start = reached.deep_view();
    let ghost all = edges.deep_view();
    let mut i: usize = 0;
    assert(all.skip(0) =~= all);
    while i < edges.len()
        invariant
            i <= edges.len(),
            project == config.deep_view(),
            all == edges.deep_view(),
            start == old(reached).deep_view(),
            scanned.deep_view() == scanned_references(project.databases),
            walk_invariant(project, reached.deep_view(), depth),
            walk(project, all, start, depth) == walk(
                project,
                all.skip(i as int),
                reached.deep_view(),
                depth,
            ),
            start.tables.len() <= reached.deep_view().tables.len(),
            start.tables.len() > 0 ==> reached.deep_view().tables[0] == start.tables[0],
        decreases edges.len() - i,
    {
        let ghost before = reached.deep_view();
        proof {
            assert(all.skip(i as int).drop_first() =~= all.skip(i + 1));
            assert(all.skip(i as int).first() == all[i as int]);
            assert(all[i as int] == (edges@[i as int].0@, edges@[i as int].1@));
        }
        let key = &edges[i].0;
        let referenced_key = &edges[i].1;
        match parse_column_key(referenced_key.as_str()) {
            Ok((database, table, _)) => {
                let target = encode_table_key_string(database.as_str(), table.as_str());
                reached.references.push((key.clone(), referenced_key.clone()));
                assert(reached.deep_view().references =~= before.references.push(all[i as int]));
                assert(reached.deep_view().tables =~= before.tables);
                if !holds(&reached.tables, target.as_str()) {
                    match lookup_table(config, database.as_str(), table.as_str()) {
                        Some(_) => {
                            proof {
                                lemma_find_table_is_listed(project, database@, table@);
                                lemma_distinct_items_fit(
                                    table_keys(project.databases),
                                    before.tables.push(target@),
                                );
                            }
                            let dependencies = dependencies_among(scanned, target.as_str());
                            reached.tables.push(target);
                            assert(reached.deep_view().tables =~= before.tables.push(target@));
                            assert(reached.deep_view().references =~= before.references.push(
                                all[i as int],
                            ));
                            match walk_edges(
                                config,
                                scanned,
                                &dependencies,
                                reached,
                                Ghost((depth - 1) as nat),
                            ) {
                                Ok(()) => {},
                                Err(error) => {
                                    return Err(error);
                                },
                            }
                        },
                        None => {
                            return Err(Error::UnknownTable(target));
                        },
                    }
                }
            },
            Err(error) => {
                return Err(error);
            },
        }
        i = i + 1;
    }
    assert(all.skip(i as int) =~= Seq::empty());
    Ok(())
}

/// A table that `find_table` finds is among the table keys of the project.
pub proof fn lemma_find_table_is_listed(
    project: ProjectModel,
    database: Seq<char>,
    table: Seq<char>,
)
    requires
        find_table(project, database, table) is Some,
    ensures
        table_keys(project.databases).contains(encode_table_key(database, table)),
{
    lemma_position(project.databases, database);
    let i = position(project.databases, database)->0;
    let tables = project.databases[i].1.tables->0;
    lemma_position(tables, table);
    let j = position(tables, table)->0;
    lemma_found_table_is_listed(project.databases, i, j);
}

/// A prefix of a prefix is a prefix.
pub proof fn lemma_prefix_chain<A>(first: Seq<A>, second: Seq<A>, third: Seq<A>)
    requires
        first.is_prefix_of(second),
        second.is_prefix_of(third),
    ensures
        first.is_prefix_of(third),
{
    assert(first =~= third.subrange(0, first.len() as int)) by {
        assert forall|i: int| 0 <= i < first.len() implies first[i] == third[i] by {
            assert(first[i] == second.subrange(0, first.len() as int)[i]);
            assert(second[i] == third.subrange(0, second.len() as int)[i]);
        }
    }
}

/// Whether each of `keys` names a table of the project.
pub open spec fn tables_resolve(project: ProjectModel, keys: Seq<Seq<char>>) -> bool {
    forall|i: int| 0 <= i < keys.len() ==> get_table_spec(project, #[trigger] keys[i]) is Ok
}

/// A walk that has room for every table of the project is not cut short:
/// with more depth it gives the same. Where it ends well, it has recorded no
/// table twice, each recorded table is one of the project, and what was
/// recorded before it began still comes first.
pub proof fn lemma_walk(
    project: ProjectModel,
    edges: Seq<(Seq<char>, Seq<char>)>,
    reached: SubgraphModel,
    depth: nat,
)
    requires
        walk_invariant(project, reached, depth),
        tables_resolve(project, reached.tables),
    ensures
        walk(project, edges, reached, depth) == walk(project, edges, reached, depth + 1),
        match walk(project, edges, reached, depth) {
            Ok(result) => {
                &&& walk_invariant(project, result, depth)
                &&& tables_resolve(project, result.tables)
                &&& reached.tables.is_prefix_of(result.tables)
                &&& reached.references.is_prefix_of(result.references)
            },
            Err(_) => true,
        },
    decreases depth, edges.len(),
{
    if edges.len() > 0 {
        let edge = edges.first();
        match parse_column_key_spec(edge.1) {
            Some((database, table, _)) => {
                let target = encode_table_key(database, table);
                let recorded = SubgraphModel {
                    tables: reached.tables,
                    references: reached.references.push(edge),
                };
                assert(reached.references.is_prefix_of(recorded.references));
                if reached.tables.contains(target) {
                    lemma_walk(project, edges.drop_first(), recorded, depth);
                    match walk(project, edges.drop_first(), recorded, depth) {
                        Ok(result) => {
                            lemma_prefix_chain(
                                reached.references,
                                recorded.references,
                                result.references,
                            );
                        },
                        Err(_) => {},
                    }
                } else if find_table(project, database, table) is Some {
                    let entered = SubgraphModel {
                        tables: recorded.tables.push(target),
                        references: recorded.references,
                    };
                    lemma_find_table_is_listed(project, database, table);
                    lemma_distinct_items_fit(table_keys(project.databases), entered.tables);
                    lemma_table_key_of_column_key(edge.1);
                    assert(tables_resolve(project, entered.tables)) by {
                        assert forall|i: int| 0 <= i < entered.tables.len() implies get_table_spec(
                            project,
                            #[trigger] entered.tables[i],
                        ) is Ok by {
                            if i < reached.tables.len() {
                                assert(entered.tables[i] == reached.tables[i]);
                            }
                        }
                    }
                    assert(depth > 0);
                    assert(reached.tables.is_prefix_of(entered.tables));
                    let below = (depth - 1) as nat;
                    lemma_walk(project, get_dependencies_spec(project, target), entered, below);
                    match walk(project, get_dependencies_spec(project, target), entered, below) {
                        Ok(deeper) => {
                            lemma_prefix_chain(reached.tables, entered.tables, deeper.tables);
                            lemma_prefix_chain(
                                reached.references,
                                entered.references,
                                deeper.references,
                            );
                            assert(walk_invariant(project, deeper, depth));
                            lemma_walk(project, edges.drop_first(), deeper, depth);
                            match walk(project, edges.drop_first(), deeper, depth) {
                                Ok(result) => {
                                    lemma_prefix_chain(
                                        reached.tables,
                                        deeper.tables,
                                        result.tables,
                                    );
                                    lemma_prefix_chain(
                                        reached.references,
                                        deeper.references,
                                        result.references,
                                    );
                                },
                                Err(_) => {},
                            }
                        },
                        Err(_) => {},
                    }
                }
            },
            None => {},
        }
    }
}

/// What a table depends on holds each table once, the table itself first,
/// and every table in it is one of the project.
pub proof fn resolve_reaches_each_table_once(project: ProjectModel, start: Seq<char>)
    ensures
        match resolve_spec(project, start) {
            Ok(subgraph) => {
                &&& subgraph.tables.no_duplicates()
                &&& subgraph.tables.len() > 0
                &&& subgraph.tables[0] == start
                &&& tables_resolve(project, subgraph.tables)
            },
            Err(_) => true,
        },
{
    match get_table_spec(project, start) {
        Ok((database, table, _)) => {
            let first = SubgraphModel { tables: seq![start], references: Seq::empty() };
            table_key_parse_then_encode(start);
            lemma_find_table_is_listed(project, database, table);
            lemma_distinct_items_fit(table_keys(project.databases), seq![start]);
            lemma_walk(
                project,
                get_dependencies_spec(project, start),
                first,
                table_keys(project.databases).len(),
            );
            match resolve_spec(project, start) {
                Ok(subgraph) => {
                    assert(first.tables[0] == subgraph.tables.subrange(0, 1)[0]);
                },
                Err(_) => {},
            }
        },
        Err(_) => {},
    }
}

/// Finds what the table `start` depends on, directly or through other
/// tables: each table once, `start` first, and every reference on the way.
pub fn resolve(config: &Config, start: &String) -> (found: Result<Subgraph, Error>)
    ensures
        match found {
            Ok(subgraph) => {
                &&& resolve_spec(config.deep_view(), start@) == Ok::<SubgraphModel, ErrorModel>(
                    subgraph.deep_view(),
                )
                &&& subgraph.deep_view().tables.no_duplicates()
                &&& subgraph.deep_view().tables.len() > 0
                &&& subgraph.deep_view().tables[0] == start@
            },
            Err(error) => resolve_spec(config.deep_view(), start@) == Err::<
                SubgraphModel,
                ErrorModel,
            >(error.deep_view()),
        },
{
    match get_table(config, start.as_str()) {
        Ok(info) => {
            let mut reached = Subgraph { tables: Vec::new(), references: Vec::new() };
            reached.tables.push(start.clone());
            let ghost project = config.deep_view();
            proof {
                assert(reached.deep_view().tables =~= seq![start@]);
                assert(reached.deep_view().references =~= Seq::empty());
                table_key_parse_then_encode(start@);
                lemma_find_table_is_listed(project, info.database_name@, info.table_name@);
                lemma_distinct_items_fit(table_keys(project.databases), seq![start@]);
            }
            let scanned = list_scanned_references(config);
            let edges = dependencies_among(&scanned, start.as_str());
            match walk_edges(
                config,
                &scanned,
                &edges,
                &mut reached,
                Ghost(table_keys(project.databases).len()),
            ) {
                Ok(()) => Ok(reached),
                Err(error) => Err(error),
            }
        },
        Err(error) => Err(error),
    }
}

/// The lines of `edges`, each followed by a blank line.
pub open spec fn edges_text(edges: Seq<(Seq<char>, Seq<char>)>) -> Seq<char>
    decreases edges.len(),
{
    if edges.len() == 0 {
        Seq::empty()
    } else {
        edges_text(edges.drop_last()) + render_reference(edges.last().0, edges.last().1) + "\n"@
    }
}

/// The lines of the references of a map, in its order.
pub open spec fn references_text(references: ReferencesModel) -> Seq<char> {
    edges_text(all_edges(references))
}

/// The blocks of the tables of one database, in the order of its map.
pub open spec fn tables_text(database: Seq<char>, tables: Seq<(Seq<char>, TableModel)>) -> Seq<char>
    decreases tables.len(),
{
    if tables.len() == 0 {
        Seq::empty()
    } else {
        tables_text(database, tables.drop_last()) + render_table(
            tables.last().1,
            database,
            tables.last().0,
        )
    }
}

/// The blocks of the tables of all databases. A database that was never
/// scanned gives none.
pub open spec fn databases_text(databases: Seq<(Seq<char>, DatabaseModel)>) -> Seq<char>
    decreases databases.len(),
{
    if databases.len() == 0 {
        Seq::empty()
    } else {
        databases_text(databases.drop_last()) + match databases.last().1.tables {
            Some(tables) => tables_text(databases.last().0, tables),
            None => Seq::empty(),
        }
    }
}

/// The text of the whole project: the blocks of all tables, then the lines
/// of the scanned references, then those of the custom references.
pub open spec fn generate_all_spec(project: ProjectModel) -> Seq<char> {
    databases_text(project.databases) + references_text(scanned_references(project.databases))
        + references_text(reference_list(project.custom_references))
}

/// The blocks of the tables that `keys` name, in order.
pub open spec fn blocks_text(project: ProjectModel, keys: Seq<Seq<char>>) -> Result<
    Seq<char>,
    ErrorModel,
>
    decreases keys.len(),
{
    if keys.len() == 0 {
        Ok(Seq::empty())
    } else {
        match blocks_text(project, keys.drop_last()) {
            Ok(text) => match get_table_spec(project, keys.last()) {
                Ok((database, table, found)) => Ok(text + render_table(found, database, table)),
                Err(error) => Err(error),
            },
            Err(error) => Err(error),
        }
    }
}

/// The text of the part of the project that the table `start` depends on:
/// the blocks of its tables, `start` first, then the lines of the references
/// that were followed.
pub open spec fn generate_from_starting_table_spec(
    project: ProjectModel,
    start: Seq<char>,
) -> Result<Seq<char>, ErrorModel> {
    match resolve_spec(project, start) {
        Ok(subgraph) => match blocks_text(project, subgraph.tables) {
            Ok(text) => Ok(text + edges_text(subgraph.references)),
            Err(error) => Err(error),
        },
        Err(error) => Err(error),
    }
}

fn list_edges(references: &Vec<(String, Vec<String>)>) -> (edges: Vec<(String, String)>)
    ensures
        edges.deep_view() == all_edges(references.deep_view()),
{
    let mut edges: Vec<(String, String)> = Vec::new();
    assert(edges.deep_view() =~= Seq::empty());
    assert(references.deep_view().take(0) =~= Seq::empty());
    let mut i: usize = 0;
    while i < references.len()
        invariant
            i <= references.len(),
            edges.deep_view() == all_edges(references.deep_view().take(i as int)),
        decreases references.len() - i,
    {
        proof {
            let next = references.deep_view().take(i + 1);
            assert(next.drop_last() =~= references.deep_view().take(i as int));
            assert(next.last() == (references@[i as int].0@, references@[i as int].1.deep_view()));
        }
        append_edges(&mut edges, &references[i].0, &references[i].1);
        i = i + 1;
    }
    assert(references.deep_view().take(i as int) =~= references.deep_view());
    edges
}

fn append_edge_lines(text: &mut String, edges: &Vec<(String, String)>)
    ensures
        final(text)@ == old(text)@ + edges_text(edges.deep_view()),
{
    let ghost before = text@;
    let mut i: usize = 0;
    assert(before + edges_text(edges.deep_view().take(0)) =~= before);
    while i < edges.len()
        invariant
            i <= edges.len(),
            text@ == before + edges_text(edges.deep_view().take(i as int)),
        decreases edges.len() - i,
    {
        proof {
            let next = edges.deep_view().take(i + 1);
            assert(next.drop_last() =~= edges.deep_view().take(i as int));
            assert(next.last() == (edges@[i as int].0@, edges@[i as int].1@));
        }
        let ghost done = edges_text(edges.deep_view().take(i as int));
        let line = reference_to_dbml(edges[i].0.as_str(), edges[i].1.as_str());
        text.append(line.as_str());
        text.append("\n");
        assert(text@ =~= before + (done + line@ + "\n"@));
        i = i + 1;
    }
    assert(edges.deep_view().take(i as int) =~= edges.deep_view());
}

fn append_reference_lines(text: &mut String, references: &Vec<(String, Vec<String>)>)
    ensures
        final(text)@ == old(text)@ + references_text(references.deep_view()),
{
    let edges = list_edges(references);
    append_edge_lines(text, &edges);
}

fn append_table_blocks(text: &mut String, database: &String, tables: &NameMap<ProjectDatabaseTable>)
    ensures
        final(text)@ == old(text)@ + tables_text(database@, tables.deep_view()),
{
    let ghost before = text@;
    let count = tables.len();
    let mut i: usize = 0;
    assert(before + tables_text(database@, tables.deep_view().take(0)) =~= before);
    while i < count
        invariant
            i <= count == tables.deep_view().len(),
            text@ == before + tables_text(database@, tables.deep_view().take(i as int)),
        decreases count - i,
    {
        proof {
            let next = tables.deep_view().take(i + 1);
            assert(next.drop_last() =~= tables.deep_view().take(i as int));
            assert(next.last() == tables.deep_view()[i as int]);
        }
        let ghost done = tables_text(database@, tables.deep_view().take(i as int));
        let block = tables.value_at(i).to_dbml(database, tables.name_at(i));
        text.append(block.as_str());
        assert(text@ =~= before + (done + block@));
        i = i + 1;
    }
    assert(tables.deep_view().take(i as int) =~= tables.deep_view());
}

/// Writes the whole project: every table of every database, then the
/// scanned references, then the custom references.
pub fn generate_all(config: &Config) -> (dbml: String)
    ensures
        dbml@ == generate_all_spec(config.deep_view()),
{
    let mut dbml = String::new();
    let count = config.databases.len();
    let mut i: usize = 0;
    assert(databases_text(config.databases.deep_view().take(0)) =~= dbml@);
    while i < count
        invariant
            i <= count == config.databases.deep_view().len(),
            dbml@ == databases_text(config.databases.deep_view().take(i as int)),
        decreases count - i,
    {
        proof {
            let next = config.databases.deep_view().take(i + 1);
            assert(next.drop_last() =~= config.databases.deep_view().take(i as int));
            assert(next.last() == config.databases.deep_view()[i as int]);
        }
        match &config.databases.value_at(i).tables {
            Some(tables) => {
                append_table_blocks(&mut dbml, config.databases.name_at(i), tables);
            },
            None => {
                assert(dbml@ + Seq::<char>::empty() =~= dbml@);
            },
        }
        i = i + 1;
    }
    assert(config.databases.deep_view().take(i as int) =~= config.databases.deep_view());
    append_reference_lines(&mut dbml, &list_scanned_references(config));
    append_reference_lines(&mut dbml, &list_references(&config.custom_references));
    dbml
}

/// Writes the part of the project that the table `starting_table` depends
/// on: that table, then each table that it references, directly or through
/// others, once; then one line for each reference that was followed.
pub fn generate_from_starting_table(config: &Config, starting_table: &String) -> (dbml: Result<
    String,
    Error,
>)
    ensures
        match dbml {
            Ok(text) => generate_from_starting_table_spec(config.deep_view(), starting_table@)
                == Ok::<Seq<char>, ErrorModel>(text@),
            Err(error) => generate_from_starting_table_spec(config.deep_view(), starting_table@)
                == Err::<Seq<char>, ErrorModel>(error.deep_view()),
        },
{
    match resolve(config, starting_table) {
        Ok(subgraph) => {
            let mut text = String::new();
            let mut i: usize = 0;
            assert(subgraph.tables.deep_view().take(0) =~= Seq::empty());
            while i < subgraph.tables.len()
                invariant
                    i <= subgraph.tables.len(),
                    blocks_text(config.deep_view(), subgraph.tables.deep_view().take(i as int))
                        == Ok::<Seq<char>, ErrorModel>(text@),
                    resolve_spec(config.deep_view(), starting_table@) == Ok::<
                        SubgraphModel,
                        ErrorModel,
                    >(subgraph.deep_view()),
                decreases subgraph.tables.len() - i,
            {
                proof {
                    let next = subgraph.tables.deep_view().take(i + 1);
                    assert(next.drop_last() =~= subgraph.tables.deep_view().take(i as int));
                    assert(next.last() == subgraph.tables@[i as int]@);
                }
                match get_table(config, subgraph.tables[i].as_str()) {
                    Ok(info) => {
                        let block = info.table.to_dbml(&info.database_name, &info.table_name);
                        text.append(block.as_str());
                    },
                    Err(error) => {
                        proof {
                            lemma_blocks_text_prefix(
                                config.deep_view(),
                                subgraph.tables.deep_view(),
                                i + 1,
                            );
                        }
                        return Err(error);
                    },
                }
                i = i + 1;
            }
            assert(subgraph.tables.deep_view().take(i as int) =~= subgraph.tables.deep_view());
            append_edge_lines(&mut text, &subgraph.references);
            Ok(text)
        },
        Err(error) => Err(error),
    }
}

/// Keys that name tables of the project have their blocks.
pub proof fn lemma_blocks_of_tables(project: ProjectModel, keys: Seq<Seq<char>>)
    requires
        tables_resolve(project, keys),
    ensures
        blocks_text(project, keys) is Ok,
    decreases keys.len(),
{
    if keys.len() > 0 {
        assert forall|i: int| 0 <= i < keys.drop_last().len() implies get_table_spec(
            project,
            #[trigger] keys.drop_last()[i],
        ) is Ok by {
            assert(keys.drop_last()[i] == keys[i]);
        }
        lemma_blocks_of_tables(project, keys.drop_last());
        assert(get_table_spec(project, keys[keys.len() - 1]) is Ok);
    }
}

/// Generating from a starting table fails where the walk from it fails, with
/// the error of the walk, and nowhere else.
pub proof fn generate_fails_with_resolve(project: ProjectModel, start: Seq<char>)
    ensures
        match resolve_spec(project, start) {
            Ok(_) => generate_from_starting_table_spec(project, start) is Ok,
            Err(error) => generate_from_starting_table_spec(project, start) == Err::<
                Seq<char>,
                ErrorModel,
            >(error),
        },
{
    resolve_reaches_each_table_once(project, start);
    match resolve_spec(project, start) {
        Ok(subgraph) => {
            lemma_blocks_of_tables(project, subgraph.tables);
        },
        Err(_) => {},
    }
}

/// Where the blocks of a prefix of `keys` fail, those of `keys` fail alike.
pub proof fn lemma_blocks_text_prefix(project: ProjectModel, keys: Seq<Seq<char>>, n: int)
    requires
        0 <= n <= keys.len(),
        blocks_text(project, keys.take(n)) is Err,
    ensures
        blocks_text(project, keys) == blocks_text(project, keys.take(n)),
    decreases keys.len() - n,
{
    if n < keys.len() {
        assert(keys.take(n + 1).drop_last() =~= keys.take(n));
        lemma_blocks_text_prefix(project, keys, n + 1);
    } else {
        assert(keys.take(n) =~= keys);
    }
}

} // verus!

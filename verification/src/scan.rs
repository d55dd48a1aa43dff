//! Folding what a scan of a database reports into the project: tables and
//! their columns, composite primary keys, and references.

use vstd::prelude::*;
use crate::config::{
    ColumnModel, Config, DatabaseModel, IndexModel, ProjectDatabase, ProjectDatabaseColumn,
    ProjectDatabaseIndex, ProjectDatabaseTable, ProjectModel, References, ReferencesModel,
    TableModel,
};
use crate::db::{ColumnInfo, ColumnInfoModel, ReferenceInfo, ReferenceInfoModel};
use crate::duplicate::Duplicate;
use crate::key::{
    encode_column_key, encode_column_key_string, encode_table_key, encode_table_key_string,
};
use crate::names::{
    lemma_position, lemma_position_is, lemma_put, lookup, names, position, put, NameMap,
};
use crate::references::{add_reference, append_reference};
use crate::text::{decimal, decimal_string, str_equal};

verus! {

/// The column that a reported row describes. The ordinal is kept as reported.
pub open spec fn column_of(row: ColumnInfoModel) -> ColumnModel {
    ColumnModel {
        data_type: row.data_type,
        data_precision: match row.data_precision {
            Some(precision) => Some(decimal(precision as nat)),
            None => None,
        },
        is_primary_key: row.is_primary_key,
        is_nullable: row.is_nullable,
        is_unique: row.is_unique,
        is_auto_increment: row.is_auto_increment,
        default_value: row.default_value,
        ordinal_position: row.ordinal_position,
    }
}

/// The name under which the table of a row is kept: its schema and its name.
pub open spec fn qualified_name(row: ColumnInfoModel) -> Seq<char> {
    encode_table_key(row.schema_name, row.table_name)
}

/// The tables that a sequence of rows describes. A row whose qualified name
/// is that of the row before it adds its column to the same table; any other
/// row starts a table, which takes the place of an earlier one of that name.
pub open spec fn merge_rows(rows: Seq<ColumnInfoModel>) -> Seq<(Seq<char>, TableModel)>
    decreases rows.len(),
{
    if rows.len() == 0 {
        Seq::empty()
    } else {
        let earlier = rows.drop_last();
        let row = rows.last();
        let name = qualified_name(row);
        let tables = merge_rows(earlier);
        let columns = if earlier.len() > 0 && qualified_name(earlier.last()) == name {
            match lookup(tables, name) {
                Some(table) => table.columns,
                None => Seq::empty(),
            }
        } else {
            Seq::empty()
        };
        put(
            tables,
            name,
            TableModel { columns: put(columns, row.column_name, column_of(row)), indexes: None },
        )
    }
}

/// Putting twice under one name leaves what was put last.
pub proof fn lemma_put_twice<M>(entries: Seq<(Seq<char>, M)>, name: Seq<char>, first: M, last: M)
    ensures
        put(put(entries, name, first), name, last) == put(entries, name, last),
{
    let once = put(entries, name, first);
    lemma_position(entries, name);
    match position(entries, name) {
        Some(i) => {
            lemma_position_is(once, name, i);
            assert(once.update(i, (name, last)) =~= entries.update(i, (name, last)));
        },
        None => {
            lemma_position_is(once, name, entries.len() as int);
            assert(once.update(entries.len() as int, (name, last)) =~= entries.push((name, last)));
        },
    }
}

fn column_from(row: &ColumnInfo) -> (column: ProjectDatabaseColumn)
    ensures
        column.deep_view() == column_of(row.deep_view()),
{
    ProjectDatabaseColumn {
        data_type: row.data_type.clone(),
        data_precision: match row.data_precision {
            Some(precision) => Some(decimal_string(precision as u64)),
            None => None,
        },
        is_primary_key: row.is_primary_key,
        is_nullable: row.is_nullable,
        is_unique: row.is_unique,
        is_auto_increment: row.is_auto_increment,
        default_value: row.default_value.duplicate(),
        ordinal_position: row.ordinal_position,
    }
}

/// Groups the rows of a scan into tables. The rows come sorted by table and
/// ordinal; a table ends where the qualified name of the rows changes.
pub fn merge_columns(rows: &Vec<ColumnInfo>) -> (tables: NameMap<ProjectDatabaseTable>)
    ensures
        tables.deep_view() == merge_rows(rows.deep_view()),
{
    let mut tables: NameMap<ProjectDatabaseTable> = NameMap::new();
    let mut current: NameMap<ProjectDatabaseColumn> = NameMap::new();
    let mut current_name = String::new();
    let mut i: usize = 0;
    while i < rows.len()
        invariant
            i <= rows.len(),
            names(tables.deep_view()).no_duplicates(),
            i == 0 ==> tables.deep_view() == Seq::<(Seq<char>, TableModel)>::empty(),
            i > 0 ==> current_name@ == qualified_name(rows.deep_view()[i - 1]),
            i > 0 ==> merge_rows(rows.deep_view().take(i as int)) == put(
                tables.deep_view(),
                current_name@,
                TableModel { columns: current.deep_view(), indexes: None },
            ),
        decreases rows.len() - i,
    {
        let row = &rows[i];
        let name = encode_table_key_string(row.schema_name.as_str(), row.table_name.as_str());
        let same = i > 0 && str_equal(name.as_str(), current_name.as_str());
        proof {
            let done = rows.deep_view().take(i as int);
            let next = rows.deep_view().take(i + 1);
            assert(next.drop_last() =~= done);
            assert(next.last() == row.deep_view());
            if i > 0 {
                assert(done.last() == rows.deep_view()[i - 1]);
                lemma_put(
                    tables.deep_view(),
                    current_name@,
                    TableModel { columns: current.deep_view(), indexes: None },
                );
            }
        }
        if !same {
            if i > 0 {
                tables.insert(
                    current_name,
                    ProjectDatabaseTable { columns: current, indexes: None },
                );
            }
            current = NameMap::new();
            current_name = name;
        } else {
            proof {
                lemma_put_twice(
                    tables.deep_view(),
                    current_name@,
                    TableModel { columns: current.deep_view(), indexes: None },
                    TableModel {
                        columns: put(
                            current.deep_view(),
                            row.column_name@,
                            column_of(row.deep_view()),
                        ),
                        indexes: None,
                    },
                );
            }
        }
        let ghost started = current.deep_view();
        current.insert(row.column_name.clone(), column_from(row));
        proof {
            let earlier = rows.deep_view().take(i + 1).drop_last();
            if same {
                assert(lookup(merge_rows(earlier), name@) == Some(
                    TableModel { columns: started, indexes: None },
                ));
            } else {
                assert(merge_rows(earlier) == tables.deep_view());
            }
        }
        i = i + 1;
    }
    assert(rows.deep_view().take(i as int) =~= rows.deep_view());
    if i > 0 {
        tables.insert(current_name, ProjectDatabaseTable { columns: current, indexes: None });
    }
    tables
}

/// The columns that are part of the primary key.
pub open spec fn is_primary() -> spec_fn((Seq<char>, ColumnModel)) -> bool {
    |entry: (Seq<char>, ColumnModel)| entry.1.is_primary_key
}

/// The names of the primary key columns, in the order of the table.
pub open spec fn primary_key_names(columns: Seq<(Seq<char>, ColumnModel)>) -> Seq<Seq<char>> {
    names(columns.filter(is_primary()))
}

/// The columns, none of them marked as primary key.
pub open spec fn without_primary_keys(columns: Seq<(Seq<char>, ColumnModel)>) -> Seq<
    (Seq<char>, ColumnModel),
> {
    Seq::new(
        columns.len(),
        |i: int| (columns[i].0, ColumnModel { is_primary_key: false, ..columns[i].1 }),
    )
}

/// The indexes of a table, as a list.
pub open spec fn index_list(indexes: Option<Seq<IndexModel>>) -> Seq<IndexModel> {
    match indexes {
        Some(list) => list,
        None => Seq::empty(),
    }
}

/// The table with a composite primary key collapsed: where several columns
/// are marked as primary key, one index over them, in the order of the table,
/// follows the table's indexes and no column keeps the mark. A table with
/// one such column or none stays as it is.
pub open spec fn collapse_table(table: TableModel) -> TableModel {
    let keys = primary_key_names(table.columns);
    if keys.len() > 1 {
        TableModel {
            columns: without_primary_keys(table.columns),
            indexes: Some(
                index_list(table.indexes).push(IndexModel { columns: keys, is_primary_key: true }),
            ),
        }
    } else {
        table
    }
}

/// The tables, each with its composite primary key collapsed.
pub open spec fn collapse_tables(tables: Seq<(Seq<char>, TableModel)>) -> Seq<
    (Seq<char>, TableModel),
> {
    Seq::new(tables.len(), |i: int| (tables[i].0, collapse_table(tables[i].1)))
}

/// The database, each of its tables with its composite primary key collapsed.
pub open spec fn collapse_database(database: DatabaseModel) -> DatabaseModel {
    DatabaseModel {
        tables: match database.tables {
            Some(tables) => Some(collapse_tables(tables)),
            None => None,
        },
        ..database
    }
}

/// The project, each table of each database with its composite primary key
/// collapsed.
pub open spec fn collapse_project(project: ProjectModel) -> ProjectModel {
    ProjectModel {
        databases: Seq::new(
            project.databases.len(),
            |i: int| (project.databases[i].0, collapse_database(project.databases[i].1)),
        ),
        ..project
    }
}

/// Columns of which none is marked as primary key have no primary key names.
pub proof fn lemma_no_primary_keys(columns: Seq<(Seq<char>, ColumnModel)>)
    requires
        forall|i: int| 0 <= i < columns.len() ==> !(#[trigger] columns[i]).1.is_primary_key,
    ensures
        primary_key_names(columns) == Seq::<Seq<char>>::empty(),
    decreases columns.len(),
{
    reveal(Seq::filter);
    if columns.len() > 0 {
        assert forall|i: int| 0 <= i < columns.drop_last().len() implies !(
        #[trigger] columns.drop_last()[i]).1.is_primary_key by {
            assert(columns.drop_last()[i] == columns[i]);
        }
        lemma_no_primary_keys(columns.drop_last());
        assert(columns.drop_last().filter(is_primary()) =~= Seq::empty()) by {
            assert(names(columns.drop_last().filter(is_primary())).len() == 0);
        }
        assert(!columns.last().1.is_primary_key);
    }
    assert(primary_key_names(columns) =~= Seq::<Seq<char>>::empty());
}

/// A table whose composite primary key was collapsed has none left:
/// collapsing it again changes nothing.
pub proof fn collapse_is_idempotent(table: TableModel)
    ensures
        collapse_table(collapse_table(table)) == collapse_table(table),
{
    if primary_key_names(table.columns).len() > 1 {
        lemma_no_primary_keys(without_primary_keys(table.columns));
    }
}

fn primary_keys_of(columns: &NameMap<ProjectDatabaseColumn>) -> (keys: Vec<String>)
    ensures
        keys.deep_view() == primary_key_names(columns.deep_view()),
{
    let mut keys: Vec<String> = Vec::new();
    let count = columns.len();
    let mut i: usize = 0;
    assert(columns.deep_view().take(0).filter(is_primary()) =~= Seq::empty()) by {
        reveal(Seq::filter);
    }
    while i < count
        invariant
            i <= count == columns.deep_view().len(),
            keys.deep_view() =~= primary_key_names(columns.deep_view().take(i as int)),
        decreases count - i,
    {
        proof {
            let done = columns.deep_view().take(i as int);
            let entry = columns.deep_view()[i as int];
            assert(columns.deep_view().take(i + 1) =~= done.push(entry));
            done.lemma_filter_push(entry, is_primary());
        }
        let ghost found = keys.deep_view();
        if columns.value_at(i).is_primary_key {
            keys.push(columns.name_at(i).clone());
            proof {
                let kept = columns.deep_view().take(i as int).filter(is_primary());
                let entry = columns.deep_view()[i as int];
                assert(keys.deep_view() =~= found.push(entry.0));
                assert(names(kept.push(entry)) =~= names(kept).push(entry.0));
            }
        }
        i = i + 1;
    }
    assert(columns.deep_view().take(i as int) =~= columns.deep_view());
    keys
}

/// Collapses the composite primary key of a table, if it has one.
pub fn collapse_composite_primary_key(table: &ProjectDatabaseTable) -> (collapsed:
    ProjectDatabaseTable)
    ensures
        collapsed.deep_view() == collapse_table(table.deep_view()),
{
    let keys = primary_keys_of(&table.columns);
    if keys.len() > 1 {
        let count = table.columns.len();
        let mut cleared: Vec<ProjectDatabaseColumn> = Vec::new();
        let mut i: usize = 0;
        while i < count
            invariant
                i <= count == table.columns.deep_view().len(),
                cleared@.len() == i,
                forall|k: int|
                    0 <= k < i ==> (#[trigger] cleared@[k]).deep_view() == (ColumnModel {
                        is_primary_key: false,
                        ..table.columns.deep_view()[k].1
                    }),
            decreases count - i,
        {
            let mut column = table.columns.value_at(i).duplicate();
            column.is_primary_key = false;
            cleared.push(column);
            i = i + 1;
        }
        let ghost values = cleared.deep_view();
        let columns = table.columns.with_values(cleared);
        assert(columns.deep_view() =~= without_primary_keys(table.columns.deep_view()));
        let mut indexes: Vec<ProjectDatabaseIndex> = match &table.indexes {
            Some(list) => list.duplicate(),
            None => Vec::new(),
        };
        let ghost before = indexes.deep_view();
        assert(before =~= index_list(table.indexes.deep_view()));
        indexes.push(ProjectDatabaseIndex { columns: keys, is_primary_key: true });
        assert(indexes.deep_view() =~= before.push(
            IndexModel { columns: keys.deep_view(), is_primary_key: true },
        ));
        ProjectDatabaseTable { columns, indexes: Some(indexes) }
    } else {
        table.duplicate()
    }
}

fn collapse_database_tables(database: &ProjectDatabase) -> (collapsed: ProjectDatabase)
    ensures
        collapsed.deep_view() == collapse_database(database.deep_view()),
{
    let tables = match &database.tables {
        Some(tables) => {
            let count = tables.len();
            let mut collapsed: Vec<ProjectDatabaseTable> = Vec::new();
            let mut i: usize = 0;
            while i < count
                invariant
                    i <= count == tables.deep_view().len(),
                    collapsed@.len() == i,
                    forall|k: int|
                        0 <= k < i ==> (#[trigger] collapsed@[k]).deep_view() == collapse_table(
                            tables.deep_view()[k].1,
                        ),
                decreases count - i,
            {
                collapsed.push(collapse_composite_primary_key(tables.value_at(i)));
                i = i + 1;
            }
            let renewed = tables.with_values(collapsed);
            assert(renewed.deep_view() =~= collapse_tables(tables.deep_view()));
            Some(renewed)
        },
        None => None,
    };
    ProjectDatabase {
        connection: database.connection.duplicate(),
        tables,
        references: database.references.duplicate(),
    }
}

/// Collapses the composite primary keys of every table of the project.
pub fn search_for_composite_primary_keys(config: &mut Config)
    ensures
        final(config).deep_view() == collapse_project(old(config).deep_view()),
{
    let count = config.databases.len();
    let mut collapsed: Vec<ProjectDatabase> = Vec::new();
    let mut i: usize = 0;
    while i < count
        invariant
            i <= count == config.databases.deep_view().len(),
            collapsed@.len() == i,
            forall|k: int|
                0 <= k < i ==> (#[trigger] collapsed@[k]).deep_view() == collapse_database(
                    config.databases.deep_view()[k].1,
                ),
        decreases count - i,
    {
        collapsed.push(collapse_database_tables(config.databases.value_at(i)));
        i = i + 1;
    }
    let databases = config.databases.with_values(collapsed);
    assert(databases.deep_view() =~= collapse_project(old(config).deep_view()).databases);
    config.databases = databases;
}

/// The key of the column that a reported reference starts from.
pub open spec fn referencing_key(database: Seq<char>, row: ReferenceInfoModel) -> Seq<char> {
    encode_column_key(database, encode_table_key(row.schema_name, row.table_name), row.column_name)
}

/// The key of the column that a reported reference points to.
pub open spec fn referenced_key(database: Seq<char>, row: ReferenceInfoModel) -> Seq<char> {
    encode_column_key(
        database,
        encode_table_key(row.referenced_schema_name, row.referenced_table_name),
        row.referenced_column_name,
    )
}

/// The references that a sequence of rows describes: each row adds its
/// referenced key to the list of its referencing key.
pub open spec fn merge_references(
    database: Seq<char>,
    rows: Seq<ReferenceInfoModel>,
) -> ReferencesModel
    decreases rows.len(),
{
    if rows.len() == 0 {
        Seq::empty()
    } else {
        add_reference(
            merge_references(database, rows.drop_last()),
            referencing_key(database, rows.last()),
            referenced_key(database, rows.last()),
        )
    }
}

/// Collects the references that a scan of the database `database_name`
/// reported.
pub fn collect_references(database_name: &str, rows: &Vec<ReferenceInfo>) -> (references:
    References)
    ensures
        references.deep_view() == merge_references(database_name@, rows.deep_view()),
{
    let mut references: References = NameMap::new();
    let mut i: usize = 0;
    while i < rows.len()
        invariant
            i <= rows.len(),
            references.deep_view() == merge_references(
                database_name@,
                rows.deep_view().take(i as int),
            ),
        decreases rows.len() - i,
    {
        let row = &rows[i];
        proof {
            let next = rows.deep_view().take(i + 1);
            assert(next.drop_last() =~= rows.deep_view().take(i as int));
            assert(next.last() == row.deep_view());
        }
        let table = encode_table_key_string(row.schema_name.as_str(), row.table_name.as_str());
        let key = encode_column_key_string(database_name, table.as_str(), row.column_name.as_str());
        let referenced_table = encode_table_key_string(
            row.referenced_schema_name.as_str(),
            row.referenced_table_name.as_str(),
        );
        let referenced = encode_column_key_string(
            database_name,
            referenced_table.as_str(),
            row.referenced_column_name.as_str(),
        );
        append_reference(&mut references, key.as_str(), referenced.as_str());
        i = i + 1;
    }
    assert(rows.deep_view().take(i as int) =~= rows.deep_view());
    references
}

/// The project with `tables` as the tables of the database `name`. A project
/// without that database stays as it is.
pub open spec fn install_tables(
    project: ProjectModel,
    name: Seq<char>,
    tables: Seq<(Seq<char>, TableModel)>,
) -> ProjectModel {
    match lookup(project.databases, name) {
        Some(database) => ProjectModel {
            databases: put(
                project.databases,
                name,
                DatabaseModel { tables: Some(tables), ..database },
            ),
            ..project
        },
        None => project,
    }
}

/// The project with `references` as the references of the database `name`. A
/// project without that database stays as it is.
pub open spec fn install_references(
    project: ProjectModel,
    name: Seq<char>,
    references: ReferencesModel,
) -> ProjectModel {
    match lookup(project.databases, name) {
        Some(database) => ProjectModel {
            databases: put(
                project.databases,
                name,
                DatabaseModel { references: Some(references), ..database },
            ),
            ..project
        },
        None => project,
    }
}

/// Replaces the tables of the database `database_name` by those that the rows
/// of a completed scan describe, and says whether the project has that
/// database.
pub fn scan_tables_and_columns(
    config: &mut Config,
    database_name: &str,
    rows: &Vec<ColumnInfo>,
) -> (known: bool)
    ensures
        known == (position(old(config).deep_view().databases, database_name@) is Some),
        final(config).deep_view() == install_tables(
            old(config).deep_view(),
            database_name@,
            merge_rows(rows.deep_view()),
        ),
{
    match config.databases.get(database_name) {
        Some(database) => {
            let renewed = ProjectDatabase {
                connection: database.connection.duplicate(),
                tables: Some(merge_columns(rows)),
                references: database.references.duplicate(),
            };
            config.databases.insert(database_name.to_owned(), renewed);
            true
        },
        None => false,
    }
}

/// Replaces the references of the database `database_name` by those that the
/// rows of a completed scan describe, and says whether the project has that
/// database.
pub fn scan_references(
    config: &mut Config,
    database_name: &str,
    rows: &Vec<ReferenceInfo>,
) -> (known: bool)
    ensures
        known == (position(old(config).deep_view().databases, database_name@) is Some),
        final(config).deep_view() == install_references(
            old(config).deep_view(),
            database_name@,
            merge_references(database_name@, rows.deep_view()),
        ),
{
    match config.databases.get(database_name) {
        Some(database) => {
            let renewed = ProjectDatabase {
                connection: database.connection.duplicate(),
                tables: database.tables.duplicate(),
                references: Some(collect_references(database_name, rows)),
            };
            config.databases.insert(database_name.to_owned(), renewed);
            true
        },
        None => false,
    }
}

} // verus!

use dbmlgen::commander::{DatabaseScan, GenerateCommand, ScanCommand};
use dbmlgen::config::{
    Config, ProjectDatabase, ProjectDatabaseColumn, ProjectDatabaseConnection,
    ProjectDatabaseTable,
};
use dbmlgen::db::{ColumnInfo, DatabaseType, ReferenceInfo};
use dbmlgen::error::Error;
use dbmlgen::generate::{
    generate_all, generate_from_starting_table, get_dependencies, get_table, resolve, Subgraph,
};
use dbmlgen::names::NameMap;

fn table(column: &str) -> ProjectDatabaseTable {
    let mut columns = NameMap::new();
    columns.insert(
        column.to_string(),
        ProjectDatabaseColumn {
            data_type: "int".to_string(),
            data_precision: None,
            is_primary_key: false,
            is_nullable: false,
            is_unique: false,
            is_auto_increment: false,
            default_value: None,
            ordinal_position: 1,
        },
    );
    ProjectDatabaseTable { columns, indexes: None }
}

fn block(key: &str, column: &str) -> String {
    format!("Table {} {{\n\t{} int [ not null ]\n}}\n\n", key, column)
}

fn database(tables: &[&str], edges: &[(&str, &[&str])]) -> ProjectDatabase {
    let mut map = NameMap::new();
    for name in tables {
        map.insert(name.to_string(), table("id"));
    }
    ProjectDatabase {
        connection: ProjectDatabaseConnection {
            database_type: DatabaseType::MySql,
            host: "localhost".to_string(),
            port: 3306,
            username: "test_user".to_string(),
            password: "test_password".to_string(),
        },
        tables: Some(map),
        references: Some(references(edges)),
    }
}

fn references(entries: &[(&str, &[&str])]) -> NameMap<Vec<String>> {
    let mut map = NameMap::new();
    for (key, targets) in entries {
        map.insert(key.to_string(), targets.iter().map(|t| t.to_string()).collect());
    }
    map
}

fn project(tables: &[&str], edges: &[(&str, &[&str])]) -> Config {
    let mut databases = NameMap::new();
    databases.insert("db".to_string(), database(tables, edges));
    Config { project: "example_project".to_string(), databases, custom_references: None }
}

#[test]
fn everything_is_generated_tables_first() {
    let mut config = project(&["a", "b"], &[("db___a.id", &["db___b.id"])]);
    config.custom_references = Some(references(&[("db___b.id", &["db___a.id", "db___c.id"])]));
    assert_eq!(
        generate_all(&config),
        block("db___a", "id")
            + &block("db___b", "id")
            + "Ref: db___a.id - db___b.id\n\n"
            + "Ref: db___b.id - db___a.id\n\n"
            + "Ref: db___b.id - db___c.id\n\n"
    );
}

#[test]
fn an_empty_project_gives_an_empty_text() {
    let config = Config {
        project: "example_project".to_string(),
        databases: NameMap::new(),
        custom_references: None,
    };
    assert_eq!(generate_all(&config), "");
}

#[test]
fn a_table_is_found_by_its_key() {
    let config = project(&["a", "x___y"], &[]);
    let info = get_table(&config, "db___x___y").ok().unwrap();
    assert_eq!(info.database_name, "db");
    assert_eq!(info.table_name, "x___y");
    assert_eq!(info.table, &table("id"));
}

#[test]
fn a_missing_table_or_database_is_unknown() {
    let config = project(&["a"], &[]);
    assert_eq!(
        get_table(&config, "db___b").err(),
        Some(Error::UnknownTable("db___b".to_string()))
    );
    assert_eq!(
        get_table(&config, "other___a").err(),
        Some(Error::UnknownTable("other___a".to_string()))
    );
    assert_eq!(get_table(&config, "a").err(), Some(Error::MalformedKey("a".to_string())));
}

#[test]
fn a_database_that_was_never_scanned_has_no_tables() {
    let mut config = project(&["a"], &[]);
    let mut unscanned = database(&[], &[]);
    unscanned.tables = None;
    config.databases.insert("fresh".to_string(), unscanned);
    assert_eq!(
        get_table(&config, "fresh___a").err(),
        Some(Error::UnknownTable("fresh___a".to_string()))
    );
}

#[test]
fn direct_dependencies_are_the_references_of_the_tables_columns() {
    let config = project(
        &["a", "b", "c"],
        &[
            ("db___a.x", &["db___b.id", "db___c.id"]),
            ("db___b.x", &["db___c.id"]),
            ("db___a.y", &["db___b.id"]),
            ("db___ab.y", &["db___c.id"]),
        ],
    );
    assert_eq!(
        get_dependencies(&config, &"db___a".to_string()),
        vec![
            ("db___a.x".to_string(), "db___b.id".to_string()),
            ("db___a.x".to_string(), "db___c.id".to_string()),
            ("db___a.y".to_string(), "db___b.id".to_string()),
        ]
    );
    assert_eq!(get_dependencies(&config, &"db___c".to_string()), Vec::new());
}

#[test]
fn a_cycle_is_walked_once() {
    let config = project(
        &["a", "b", "c"],
        &[("db___a.b_id", &["db___b.id"]), ("db___b.a_id", &["db___a.id"])],
    );
    assert_eq!(
        resolve(&config, &"db___a".to_string()),
        Ok(Subgraph {
            tables: vec!["db___a".to_string(), "db___b".to_string()],
            references: vec![
                ("db___a.b_id".to_string(), "db___b.id".to_string()),
                ("db___b.a_id".to_string(), "db___a.id".to_string()),
            ],
        })
    );
    let text = generate_from_starting_table(&config, &"db___a".to_string()).unwrap();
    assert_eq!(
        text,
        block("db___a", "id")
            + &block("db___b", "id")
            + "Ref: db___a.b_id - db___b.id\n\n"
            + "Ref: db___b.a_id - db___a.id\n\n"
    );
    assert_eq!(text.matches("Table db___a ").count(), 1);
    assert_eq!(text.matches("Table db___b ").count(), 1);
    assert_eq!(text.matches("Ref: ").count(), 2);
}

#[test]
fn a_table_that_references_itself_is_rendered_once() {
    let config = project(&["a"], &[("db___a.parent", &["db___a.id"])]);
    assert_eq!(
        generate_from_starting_table(&config, &"db___a".to_string()).unwrap(),
        block("db___a", "id") + "Ref: db___a.parent - db___a.id\n\n"
    );
}

#[test]
fn dependencies_are_followed_depth_first() {
    let config = project(
        &["a", "b", "c", "d", "e"],
        &[
            ("db___a.b", &["db___b.id"]),
            ("db___a.c", &["db___c.id"]),
            ("db___b.d", &["db___d.id"]),
            ("db___c.d", &["db___d.id"]),
            ("db___e.a", &["db___a.id"]),
        ],
    );
    assert_eq!(
        resolve(&config, &"db___a".to_string()),
        Ok(Subgraph {
            tables: vec![
                "db___a".to_string(),
                "db___b".to_string(),
                "db___d".to_string(),
                "db___c".to_string(),
            ],
            references: vec![
                ("db___a.b".to_string(), "db___b.id".to_string()),
                ("db___b.d".to_string(), "db___d.id".to_string()),
                ("db___a.c".to_string(), "db___c.id".to_string()),
                ("db___c.d".to_string(), "db___d.id".to_string()),
            ],
        })
    );
}

#[test]
fn two_columns_that_reference_one_table_give_two_lines() {
    let config = project(
        &["a", "b"],
        &[("db___a.x", &["db___b.id"]), ("db___a.y", &["db___b.id"])],
    );
    let text = generate_from_starting_table(&config, &"db___a".to_string()).unwrap();
    assert_eq!(
        text,
        block("db___a", "id")
            + &block("db___b", "id")
            + "Ref: db___a.x - db___b.id\n\n"
            + "Ref: db___a.y - db___b.id\n\n"
    );
}

#[test]
fn a_long_chain_is_followed_to_its_end() {
    let names: Vec<String> = (0..40).map(|i| format!("t{}", i)).collect();
    let name_refs: Vec<&str> = names.iter().map(|n| n.as_str()).collect();
    let mut config = project(&name_refs, &[]);
    let mut chain = database(&name_refs, &[]);
    let mut map = NameMap::new();
    for i in 0..39 {
        map.insert(format!("db___t{}.next", i), vec![format!("db___t{}.id", i + 1)]);
    }
    chain.references = Some(map);
    config.databases.insert("db".to_string(), chain);
    let subgraph = resolve(&config, &"db___t0".to_string()).unwrap();
    assert_eq!(subgraph.tables.len(), 40);
    assert_eq!(subgraph.references.len(), 39);
    assert_eq!(subgraph.tables[39], "db___t39");
}

#[test]
fn an_unknown_starting_table_is_an_error() {
    let config = project(&["a"], &[]);
    assert_eq!(
        generate_from_starting_table(&config, &"db___zz".to_string()),
        Err(Error::UnknownTable("db___zz".to_string()))
    );
    assert_eq!(
        generate_from_starting_table(&config, &"zz".to_string()),
        Err(Error::MalformedKey("zz".to_string()))
    );
}

#[test]
fn a_reference_to_an_unknown_table_is_an_error() {
    let config = project(&["a"], &[("db___a.x", &["db___gone.id"])]);
    assert_eq!(
        resolve(&config, &"db___a".to_string()),
        Err(Error::UnknownTable("db___gone".to_string()))
    );
}

#[test]
fn a_malformed_referenced_key_is_an_error() {
    let config = project(&["a"], &[("db___a.x", &["nowhere"])]);
    assert_eq!(
        resolve(&config, &"db___a".to_string()),
        Err(Error::MalformedKey("nowhere".to_string()))
    );
}

#[test]
fn custom_references_are_not_followed() {
    let mut config = project(&["a", "b"], &[]);
    config.custom_references = Some(references(&[("db___a.x", &["db___b.id"])]));
    assert_eq!(
        generate_from_starting_table(&config, &"db___a".to_string()).unwrap(),
        block("db___a", "id")
    );
}

#[test]
fn the_generate_command_chooses_by_its_starting_table() {
    let config = project(&["a", "b"], &[("db___a.x", &["db___b.id"])]);
    let whole = GenerateCommand { project: "example_project".to_string(), starting_table: None };
    assert_eq!(whole.execute(&config), Ok(generate_all(&config)));
    let part = GenerateCommand {
        project: "example_project".to_string(),
        starting_table: Some("db___b".to_string()),
    };
    assert_eq!(part.execute(&config), Ok(block("db___b", "id")));
    let missing = GenerateCommand {
        project: "example_project".to_string(),
        starting_table: Some("db___c".to_string()),
    };
    assert_eq!(missing.execute(&config), Err(Error::UnknownTable("db___c".to_string())));
}

#[test]
fn references_of_all_databases_are_followed_and_generated() {
    let mut config = project(&["a"], &[("db___a.x", &["other___b.id"])]);
    config.databases.insert(
        "other".to_string(),
        database(&["b", "c"], &[("other___b.y", &["db___a.id"]), ("db___a.z", &["other___c.id"])]),
    );
    assert_eq!(
        resolve(&config, &"db___a".to_string()),
        Ok(Subgraph {
            tables: vec!["db___a".to_string(), "other___b".to_string(), "other___c".to_string()],
            references: vec![
                ("db___a.x".to_string(), "other___b.id".to_string()),
                ("other___b.y".to_string(), "db___a.id".to_string()),
                ("db___a.z".to_string(), "other___c.id".to_string()),
            ],
        })
    );
    assert_eq!(
        generate_all(&config),
        block("db___a", "id")
            + &block("other___b", "id")
            + &block("other___c", "id")
            + "Ref: db___a.x - other___b.id\n\n"
            + "Ref: other___b.y - db___a.id\n\n"
            + "Ref: db___a.z - other___c.id\n\n"
    );
}

#[test]
fn a_scan_is_followed_by_its_references_in_the_text() {
    let mut config = project(&[], &[]);
    let row = |table: &str, column: &str, ordinal: u8| ColumnInfo {
        schema_name: "s".to_string(),
        table_name: table.to_string(),
        column_name: column.to_string(),
        data_type: "int".to_string(),
        data_precision: Some(10),
        is_primary_key: column == "id",
        is_nullable: false,
        is_unique: false,
        is_auto_increment: false,
        default_value: None,
        ordinal_position: ordinal,
    };
    let scans = vec![DatabaseScan {
        database_name: "db".to_string(),
        columns: vec![row("customers", "id", 1), row("orders", "id", 1), row("orders", "customer_id", 2)],
        references: vec![ReferenceInfo {
            schema_name: "s".to_string(),
            table_name: "orders".to_string(),
            column_name: "customer_id".to_string(),
            referenced_schema_name: "s".to_string(),
            referenced_table_name: "customers".to_string(),
            referenced_column_name: "id".to_string(),
        }],
    }];
    ScanCommand { project: "example_project".to_string() }.execute(&mut config, &scans);
    let expected = "Table db___s___orders {\n\tid int(10) [ pk, not null ]\n\tcustomer_id int(10) [ not null ]\n}\n\n\
Table db___s___customers {\n\tid int(10) [ pk, not null ]\n}\n\n\
Ref: db___s___orders.customer_id - db___s___customers.id\n\n";
    assert_eq!(
        generate_from_starting_table(&config, &"db___s___orders".to_string()),
        Ok(expected.to_string())
    );
}

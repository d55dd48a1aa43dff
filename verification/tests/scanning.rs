use dbmlgen::commander::{DatabaseScan, ScanCommand};
use dbmlgen::config::{
    Config, ProjectDatabase, ProjectDatabaseColumn, ProjectDatabaseConnection,
    ProjectDatabaseIndex, ProjectDatabaseTable,
};
use dbmlgen::db::{ColumnInfo, DatabaseType, ReferenceInfo};
use dbmlgen::names::NameMap;
use dbmlgen::scan::{
    collapse_composite_primary_key, collect_references, merge_columns, scan_references,
    scan_tables_and_columns, search_for_composite_primary_keys,
};

fn row(table: &str, column: &str, ordinal: u8, primary: bool) -> ColumnInfo {
    ColumnInfo {
        schema_name: "public".to_string(),
        table_name: table.to_string(),
        column_name: column.to_string(),
        data_type: "int".to_string(),
        data_precision: None,
        is_primary_key: primary,
        is_nullable: false,
        is_unique: false,
        is_auto_increment: false,
        default_value: None,
        ordinal_position: ordinal,
    }
}

fn column(ordinal: u8, primary: bool) -> ProjectDatabaseColumn {
    ProjectDatabaseColumn {
        data_type: "int".to_string(),
        data_precision: None,
        is_primary_key: primary,
        is_nullable: false,
        is_unique: false,
        is_auto_increment: false,
        default_value: None,
        ordinal_position: ordinal,
    }
}

fn connection() -> ProjectDatabaseConnection {
    ProjectDatabaseConnection {
        database_type: DatabaseType::MySql,
        host: "localhost".to_string(),
        port: 3306,
        username: "test_user".to_string(),
        password: "test_password".to_string(),
    }
}

fn project(databases: &[&str]) -> Config {
    let mut map = NameMap::new();
    for name in databases {
        map.insert(
            name.to_string(),
            ProjectDatabase { connection: connection(), tables: None, references: None },
        );
    }
    Config { project: "example_project".to_string(), databases: map, custom_references: None }
}

fn reference(table: &str, column: &str, to_table: &str, to_column: &str) -> ReferenceInfo {
    ReferenceInfo {
        schema_name: "public".to_string(),
        table_name: table.to_string(),
        column_name: column.to_string(),
        referenced_schema_name: "public".to_string(),
        referenced_table_name: to_table.to_string(),
        referenced_column_name: to_column.to_string(),
    }
}

#[test]
fn rows_are_grouped_by_qualified_name() {
    let rows = vec![
        row("customers", "id", 1, true),
        row("customers", "name", 2, false),
        row("orders", "id", 1, true),
    ];
    let tables = merge_columns(&rows);
    assert_eq!(tables.len(), 2);
    assert_eq!(tables.name_at(0), "public___customers");
    assert_eq!(tables.name_at(1), "public___orders");
    let customers = tables.get("public___customers").unwrap();
    assert_eq!(customers.columns.len(), 2);
    assert_eq!(customers.columns.name_at(0), "id");
    assert_eq!(customers.columns.name_at(1), "name");
    assert_eq!(customers.columns.get("name"), Some(&column(2, false)));
    assert_eq!(customers.indexes, None);
    assert_eq!(tables.get("public___orders").unwrap().columns.len(), 1);
}

#[test]
fn no_rows_give_no_tables() {
    let tables = merge_columns(&Vec::new());
    assert_eq!(tables.len(), 0);
}

#[test]
fn a_table_that_comes_again_replaces_the_earlier_one() {
    let rows = vec![
        row("a", "x", 1, false),
        row("b", "y", 1, false),
        row("a", "z", 1, false),
    ];
    let tables = merge_columns(&rows);
    assert_eq!(tables.len(), 2);
    assert_eq!(tables.name_at(0), "public___a");
    let a = tables.get("public___a").unwrap();
    assert_eq!(a.columns.len(), 1);
    assert_eq!(a.columns.name_at(0), "z");
}

#[test]
fn ordinal_and_precision_are_taken_from_the_row() {
    let mut source = row("t", "amount", 7, false);
    source.data_type = "decimal".to_string();
    source.data_precision = Some(4294967295);
    source.is_nullable = true;
    source.is_unique = true;
    source.is_auto_increment = true;
    source.default_value = Some("0".to_string());
    let tables = merge_columns(&vec![source]);
    assert_eq!(
        tables.get("public___t").unwrap().columns.get("amount"),
        Some(&ProjectDatabaseColumn {
            data_type: "decimal".to_string(),
            data_precision: Some("4294967295".to_string()),
            is_primary_key: false,
            is_nullable: true,
            is_unique: true,
            is_auto_increment: true,
            default_value: Some("0".to_string()),
            ordinal_position: 7,
        })
    );
}

#[test]
fn composite_primary_key_becomes_one_index() {
    let mut columns = NameMap::new();
    columns.insert("id".to_string(), column(1, true));
    columns.insert("tenant_id".to_string(), column(2, true));
    let table = ProjectDatabaseTable { columns, indexes: None };
    let collapsed = collapse_composite_primary_key(&table);
    assert_eq!(
        collapsed.indexes,
        Some(vec![ProjectDatabaseIndex {
            columns: vec!["id".to_string(), "tenant_id".to_string()],
            is_primary_key: true,
        }])
    );
    assert_eq!(collapsed.columns.get("id").unwrap().is_primary_key, false);
    assert_eq!(collapsed.columns.get("tenant_id").unwrap().is_primary_key, false);
    assert_eq!(collapsed.columns.len(), 2);
}

#[test]
fn single_primary_key_stays_on_the_column() {
    let mut columns = NameMap::new();
    columns.insert("id".to_string(), column(1, true));
    columns.insert("name".to_string(), column(2, false));
    let table = ProjectDatabaseTable { columns, indexes: None };
    let collapsed = collapse_composite_primary_key(&table);
    assert_eq!(collapsed.indexes, None);
    assert_eq!(collapsed.columns.get("id").unwrap().is_primary_key, true);
    assert_eq!(collapsed.columns.get("name").unwrap().is_primary_key, false);
}

#[test]
fn the_index_follows_the_indexes_that_were_there() {
    let mut columns = NameMap::new();
    columns.insert("b".to_string(), column(2, true));
    columns.insert("skip".to_string(), column(3, false));
    columns.insert("a".to_string(), column(1, true));
    let earlier = ProjectDatabaseIndex { columns: vec!["skip".to_string()], is_primary_key: false };
    let table = ProjectDatabaseTable { columns, indexes: Some(vec![earlier.clone()]) };
    let collapsed = collapse_composite_primary_key(&table);
    assert_eq!(
        collapsed.indexes,
        Some(vec![
            earlier,
            ProjectDatabaseIndex {
                columns: vec!["b".to_string(), "a".to_string()],
                is_primary_key: true,
            },
        ])
    );
}

#[test]
fn collapsing_reaches_every_table_of_the_project() {
    let mut config = project(&["shop", "crm"]);
    scan_tables_and_columns(
        &mut config,
        "shop",
        &vec![row("t", "a", 1, true), row("t", "b", 2, true), row("u", "a", 1, true)],
    );
    scan_tables_and_columns(&mut config, "crm", &vec![row("v", "a", 1, true), row("v", "b", 2, true)]);
    search_for_composite_primary_keys(&mut config);
    let shop = config.databases.get("shop").unwrap().tables.as_ref().unwrap();
    assert_eq!(shop.get("public___t").unwrap().indexes.as_ref().unwrap().len(), 1);
    assert_eq!(shop.get("public___u").unwrap().indexes, None);
    let crm = config.databases.get("crm").unwrap().tables.as_ref().unwrap();
    assert_eq!(
        crm.get("public___v").unwrap().indexes.as_ref().unwrap()[0].columns,
        vec!["a".to_string(), "b".to_string()]
    );
    search_for_composite_primary_keys(&mut config);
    let crm = config.databases.get("crm").unwrap().tables.as_ref().unwrap();
    assert_eq!(crm.get("public___v").unwrap().indexes.as_ref().unwrap().len(), 1);
}

#[test]
fn references_are_keyed_by_qualified_column() {
    let references = collect_references(
        "shop",
        &vec![reference("orders", "customer_id", "customers", "id")],
    );
    assert_eq!(references.len(), 1);
    assert_eq!(references.name_at(0), "shop___public___orders.customer_id");
    assert_eq!(
        references.get("shop___public___orders.customer_id"),
        Some(&vec!["shop___public___customers.id".to_string()])
    );
}

#[test]
fn a_second_reference_of_a_column_is_appended() {
    let references = collect_references(
        "shop",
        &vec![
            reference("orders", "customer_id", "customers", "id"),
            reference("orders", "item_id", "items", "id"),
            reference("orders", "customer_id", "people", "id"),
        ],
    );
    assert_eq!(references.len(), 2);
    assert_eq!(
        references.get("shop___public___orders.customer_id"),
        Some(&vec![
            "shop___public___customers.id".to_string(),
            "shop___public___people.id".to_string(),
        ])
    );
}

#[test]
fn a_scan_replaces_the_tables_of_its_database_only() {
    let mut config = project(&["shop", "crm"]);
    assert!(scan_tables_and_columns(&mut config, "shop", &vec![row("old", "a", 1, false)]));
    assert!(scan_tables_and_columns(&mut config, "shop", &vec![row("new", "a", 1, false)]));
    let shop = config.databases.get("shop").unwrap();
    let tables = shop.tables.as_ref().unwrap();
    assert_eq!(tables.len(), 1);
    assert_eq!(tables.name_at(0), "public___new");
    assert_eq!(shop.connection, connection());
    assert_eq!(config.databases.get("crm").unwrap().tables, None);
    assert_eq!(config.databases.name_at(0), "shop");
}

#[test]
fn a_scan_of_an_unknown_database_changes_nothing() {
    let mut config = project(&["shop"]);
    assert!(!scan_tables_and_columns(&mut config, "other", &vec![row("t", "a", 1, false)]));
    assert!(!scan_references(&mut config, "other", &Vec::new()));
    assert_eq!(config, project(&["shop"]));
}

#[test]
fn scanned_references_are_kept_with_their_database() {
    let mut config = project(&["shop"]);
    assert!(scan_references(
        &mut config,
        "shop",
        &vec![reference("orders", "customer_id", "customers", "id")]
    ));
    let shop = config.databases.get("shop").unwrap();
    assert_eq!(shop.references.as_ref().unwrap().len(), 1);
    assert_eq!(shop.tables, None);
    assert!(scan_references(&mut config, "shop", &Vec::new()));
    assert_eq!(config.databases.get("shop").unwrap().references.as_ref().unwrap().len(), 0);
}

#[test]
fn the_scan_command_installs_collapses_and_adds_references() {
    let mut config = project(&["shop", "crm"]);
    let scans = vec![DatabaseScan {
        database_name: "shop".to_string(),
        columns: vec![
            row("orders", "id", 1, true),
            row("orders", "tenant_id", 2, true),
            row("orders", "customer_id", 3, false),
        ],
        references: vec![reference("orders", "customer_id", "customers", "id")],
    }];
    ScanCommand { project: "example_project".to_string() }.execute(&mut config, &scans);
    let shop = config.databases.get("shop").unwrap();
    let orders = shop.tables.as_ref().unwrap().get("public___orders").unwrap();
    assert_eq!(
        orders.indexes,
        Some(vec![ProjectDatabaseIndex {
            columns: vec!["id".to_string(), "tenant_id".to_string()],
            is_primary_key: true,
        }])
    );
    assert_eq!(orders.columns.get("id").unwrap().is_primary_key, false);
    assert_eq!(
        shop.references.as_ref().unwrap().get("shop___public___orders.customer_id"),
        Some(&vec!["shop___public___customers.id".to_string()])
    );
    let crm = config.databases.get("crm").unwrap();
    assert_eq!(crm.tables, None);
    assert_eq!(crm.references, None);
}

use dbmlgen::commander::SearchCommand;
use dbmlgen::config::{
    Config, ProjectDatabase, ProjectDatabaseColumn, ProjectDatabaseConnection,
    ProjectDatabaseTable,
};
use dbmlgen::db::DatabaseType;
use dbmlgen::duplicate::Duplicate;
use dbmlgen::error::Error;
use dbmlgen::names::NameMap;
use dbmlgen::search::{add_unmapped, check_referenced_key, list_columns, search};

fn table(columns: &[&str]) -> ProjectDatabaseTable {
    let mut map = NameMap::new();
    for (i, name) in columns.iter().enumerate() {
        map.insert(
            name.to_string(),
            ProjectDatabaseColumn {
                data_type: "int".to_string(),
                data_precision: None,
                is_primary_key: false,
                is_nullable: false,
                is_unique: false,
                is_auto_increment: false,
                default_value: None,
                ordinal_position: (i + 1) as u8,
            },
        );
    }
    ProjectDatabaseTable { columns: map, indexes: None }
}

fn project() -> Config {
    let mut tables = NameMap::new();
    tables.insert("orders".to_string(), table(&["id", "customer_id", "total"]));
    tables.insert("customers".to_string(), table(&["id", "name"]));
    tables.insert("invoices".to_string(), table(&["id", "customer_id"]));
    let mut databases = NameMap::new();
    databases.insert(
        "shop".to_string(),
        ProjectDatabase {
            connection: ProjectDatabaseConnection {
                database_type: DatabaseType::MySql,
                host: "localhost".to_string(),
                port: 3306,
                username: "test_user".to_string(),
                password: "test_password".to_string(),
            },
            tables: Some(tables),
            references: None,
        },
    );
    Config { project: "example_project".to_string(), databases, custom_references: None }
}

#[test]
fn columns_are_listed_with_their_keys() {
    assert_eq!(
        list_columns(&project()),
        vec![
            ("shop___orders.id".to_string(), "id".to_string()),
            ("shop___orders.customer_id".to_string(), "customer_id".to_string()),
            ("shop___orders.total".to_string(), "total".to_string()),
            ("shop___customers.id".to_string(), "id".to_string()),
            ("shop___customers.name".to_string(), "name".to_string()),
            ("shop___invoices.id".to_string(), "id".to_string()),
            ("shop___invoices.customer_id".to_string(), "customer_id".to_string()),
        ]
    );
}

#[test]
fn search_finds_the_unmapped_columns_that_match() {
    let mut config = project();
    assert_eq!(
        search(&mut config, "customer_id", None),
        Ok(vec![
            "shop___orders.customer_id".to_string(),
            "shop___invoices.customer_id".to_string(),
        ])
    );
}

#[test]
fn the_pattern_is_a_regular_expression_matched_anywhere_in_the_name() {
    let mut config = project();
    assert_eq!(
        search(&mut config, "^(na|to)", None),
        Ok(vec!["shop___orders.total".to_string(), "shop___customers.name".to_string()])
    );
    assert_eq!(
        search(&mut config, "_", None),
        Ok(vec![
            "shop___orders.customer_id".to_string(),
            "shop___invoices.customer_id".to_string(),
        ])
    );
    assert_eq!(search(&mut config, "^d$", None), Ok(Vec::new()));
    assert_eq!(search(&mut config, "", None).map(|found| found.len()), Ok(7));
}

#[test]
fn search_without_a_referenced_key_changes_nothing() {
    let mut config = project();
    let before = config.duplicate();
    let first = search(&mut config, "customer_id", None);
    assert_eq!(config, before);
    let second = search(&mut config, "customer_id", None);
    assert_eq!(config, before);
    assert_eq!(first, second);
}

#[test]
fn search_with_a_referenced_key_adds_custom_references() {
    let mut config = project();
    let target = "shop___customers.id".to_string();
    let found = search(&mut config, "customer_id", Some(&target));
    assert_eq!(
        found,
        Ok(vec![
            "shop___orders.customer_id".to_string(),
            "shop___invoices.customer_id".to_string(),
        ])
    );
    let custom = config.custom_references.as_ref().unwrap();
    assert_eq!(custom.len(), 2);
    assert_eq!(custom.get("shop___orders.customer_id"), Some(&vec![target.clone()]));
    assert_eq!(custom.get("shop___invoices.customer_id"), Some(&vec![target.clone()]));

    let again = search(&mut config, "customer_id", Some(&target));
    assert_eq!(again, Ok(Vec::new()));
    let custom = config.custom_references.as_ref().unwrap();
    assert_eq!(custom.len(), 2);
    assert_eq!(custom.get("shop___orders.customer_id"), Some(&vec![target.clone()]));
}

#[test]
fn mapped_columns_are_passed_over() {
    let mut config = project();
    let mut scanned = NameMap::new();
    scanned.insert("shop___orders.customer_id".to_string(), vec!["shop___customers.id".to_string()]);
    let mut shop = config.databases.get("shop").unwrap().duplicate();
    shop.references = Some(scanned);
    config.databases.insert("shop".to_string(), shop);
    let mut custom = NameMap::new();
    custom.insert("shop___customers.name".to_string(), vec!["shop___orders.id".to_string()]);
    config.custom_references = Some(custom);
    let target = "shop___customers.id".to_string();
    assert_eq!(
        search(&mut config, "customer_id|name", Some(&target)),
        Ok(vec!["shop___invoices.customer_id".to_string()])
    );
    let custom = config.custom_references.as_ref().unwrap();
    assert_eq!(custom.len(), 2);
    assert_eq!(custom.name_at(0), "shop___customers.name");
    assert_eq!(custom.get("shop___customers.name"), Some(&vec!["shop___orders.id".to_string()]));
    assert_eq!(custom.get("shop___invoices.customer_id"), Some(&vec![target]));
    assert_eq!(config.databases.get("shop").unwrap().references.as_ref().unwrap().len(), 1);
}

#[test]
fn a_malformed_referenced_key_stops_the_search() {
    let mut config = project();
    let target = "customers.id".to_string();
    assert_eq!(
        search(&mut config, "customer_id", Some(&target)),
        Err(Error::MalformedKey("customers.id".to_string()))
    );
    assert_eq!(config, project());
}

#[test]
fn an_unknown_referenced_column_stops_the_search() {
    let mut config = project();
    for key in ["shop___customers.age", "shop___people.id", "crm___customers.id"] {
        let target = key.to_string();
        assert_eq!(
            search(&mut config, "customer_id", Some(&target)),
            Err(Error::UnknownReferencedColumn(key.to_string()))
        );
        assert_eq!(config, project());
    }
    assert_eq!(check_referenced_key(&config, "shop___customers.id"), Ok(()));
}

#[test]
fn an_invalid_pattern_is_reported() {
    let mut config = project();
    assert_eq!(
        search(&mut config, "customer(", None),
        Err(Error::InvalidPattern("customer(".to_string()))
    );
    let target = "nowhere".to_string();
    assert_eq!(
        search(&mut config, "customer(", Some(&target)),
        Err(Error::InvalidPattern("customer(".to_string()))
    );
    assert_eq!(config, project());
}

#[test]
fn unmapped_columns_are_chosen_by_their_flags() {
    let mut config = project();
    let columns = vec![
        ("k1".to_string(), "a".to_string()),
        ("k2".to_string(), "b".to_string()),
        ("k1".to_string(), "c".to_string()),
        ("k3".to_string(), "d".to_string()),
    ];
    let target = "t".to_string();
    let found = add_unmapped(&mut config, &columns, &vec![true, false, true], Some(&target));
    assert_eq!(found, vec!["k1".to_string()]);
    let custom = config.custom_references.as_ref().unwrap();
    assert_eq!(custom.len(), 1);
    assert_eq!(custom.get("k1"), Some(&vec!["t".to_string()]));
}

#[test]
fn the_search_command_runs_the_search() {
    let mut config = project();
    let command = SearchCommand {
        project: "example_project".to_string(),
        regex: "total".to_string(),
        referenced_key: Some("shop___customers.id".to_string()),
    };
    assert_eq!(command.execute(&mut config), Ok(vec!["shop___orders.total".to_string()]));
    assert_eq!(
        config.custom_references.as_ref().unwrap().get("shop___orders.total"),
        Some(&vec!["shop___customers.id".to_string()])
    );
}

use dbmlgen::config::{ProjectDatabaseColumn, ProjectDatabaseIndex, ProjectDatabaseTable};
use dbmlgen::dbml::reference_to_dbml;
use dbmlgen::names::NameMap;

fn column(data_type: &str, ordinal_position: u8) -> ProjectDatabaseColumn {
    ProjectDatabaseColumn {
        data_type: data_type.to_string(),
        data_precision: None,
        is_primary_key: false,
        is_nullable: false,
        is_unique: false,
        is_auto_increment: false,
        default_value: None,
        ordinal_position,
    }
}

#[test]
fn columns_render_by_ordinal_position() {
    let mut columns = NameMap::new();
    columns.insert("second".to_string(), column("int", 2));
    columns.insert("first".to_string(), column("int", 1));
    columns.insert("third".to_string(), column("int", 3));
    let table = ProjectDatabaseTable { columns, indexes: None };
    let text = table.to_dbml(&"shop".to_string(), &"public___orders".to_string());
    assert_eq!(
        text,
        "Table shop___public___orders {\n\tfirst int [ not null ]\n\tsecond int [ not null ]\n\tthird int [ not null ]\n}\n\n"
    );
}

#[test]
fn column_options_come_in_fixed_order() {
    let mut columns = NameMap::new();
    columns.insert(
        "id".to_string(),
        ProjectDatabaseColumn {
            data_type: "varchar".to_string(),
            data_precision: Some("36".to_string()),
            is_primary_key: true,
            is_nullable: true,
            is_unique: true,
            is_auto_increment: true,
            default_value: Some("none".to_string()),
            ordinal_position: 1,
        },
    );
    let table = ProjectDatabaseTable { columns, indexes: None };
    let text = table.to_dbml(&"db".to_string(), &"t".to_string());
    assert_eq!(
        text,
        "Table db___t {\n\tid varchar(36) [ pk, null, unique, increment, default: \"none\" ]\n}\n\n"
    );
}

#[test]
fn precision_zero_is_not_shown() {
    let mut columns = NameMap::new();
    let mut flag = column("bit", 1);
    flag.data_precision = Some("0".to_string());
    columns.insert("flag".to_string(), flag);
    let table = ProjectDatabaseTable { columns, indexes: None };
    assert_eq!(
        table.to_dbml(&"db".to_string(), &"t".to_string()),
        "Table db___t {\n\tflag bit [ not null ]\n}\n\n"
    );
}

#[test]
fn gaps_between_ordinals_are_skipped() {
    let mut columns = NameMap::new();
    columns.insert("late".to_string(), column("int", 200));
    columns.insert("early".to_string(), column("int", 7));
    let table = ProjectDatabaseTable { columns, indexes: None };
    assert_eq!(
        table.to_dbml(&"db".to_string(), &"t".to_string()),
        "Table db___t {\n\tearly int [ not null ]\n\tlate int [ not null ]\n}\n\n"
    );
}

#[test]
fn ordinal_zero_renders_last() {
    let mut columns = NameMap::new();
    columns.insert("zero".to_string(), column("int", 0));
    columns.insert("last".to_string(), column("int", 255));
    columns.insert("first".to_string(), column("int", 1));
    let table = ProjectDatabaseTable { columns, indexes: None };
    assert_eq!(
        table.to_dbml(&"db".to_string(), &"t".to_string()),
        "Table db___t {\n\tfirst int [ not null ]\n\tlast int [ not null ]\n\tzero int [ not null ]\n}\n\n"
    );
}

#[test]
fn indexes_follow_the_columns() {
    let mut columns = NameMap::new();
    columns.insert("id".to_string(), column("int", 1));
    columns.insert("tenant_id".to_string(), column("int", 2));
    let indexes = vec![
        ProjectDatabaseIndex {
            columns: vec!["id".to_string(), "tenant_id".to_string()],
            is_primary_key: true,
        },
        ProjectDatabaseIndex { columns: vec!["tenant_id".to_string()], is_primary_key: false },
    ];
    let table = ProjectDatabaseTable { columns, indexes: Some(indexes) };
    assert_eq!(
        table.to_dbml(&"db".to_string(), &"t".to_string()),
        "Table db___t {\n\tid int [ not null ]\n\ttenant_id int [ not null ]\n\n\tindexes {\n\t\t(id, tenant_id) [ pk ]\n\t\ttenant_id\n\t}\n}\n\n"
    );
}

#[test]
fn an_empty_index_list_gives_no_block() {
    let table = ProjectDatabaseTable { columns: NameMap::new(), indexes: Some(Vec::new()) };
    assert_eq!(table.to_dbml(&"db".to_string(), &"t".to_string()), "Table db___t {\n}\n\n");
}

#[test]
fn a_reference_is_one_line() {
    assert_eq!(
        reference_to_dbml("db___orders.customer_id", "db___customers.id"),
        "Ref: db___orders.customer_id - db___customers.id\n"
    );
}

#[test]
fn the_order_of_the_map_does_not_show() {
    let names = ["c", "a", "d", "b"];
    let ordinals = [3u8, 1, 4, 2];
    let mut forward = NameMap::new();
    for i in 0..4 {
        forward.insert(names[i].to_string(), column("int", ordinals[i]));
    }
    let mut backward = NameMap::new();
    for i in (0..4).rev() {
        backward.insert(names[i].to_string(), column("int", ordinals[i]));
    }
    let one = ProjectDatabaseTable { columns: forward, indexes: None };
    let other = ProjectDatabaseTable { columns: backward, indexes: None };
    let text = one.to_dbml(&"db".to_string(), &"t".to_string());
    assert_eq!(text, other.to_dbml(&"db".to_string(), &"t".to_string()));
    assert_eq!(
        text,
        "Table db___t {\n\ta int [ not null ]\n\tb int [ not null ]\n\tc int [ not null ]\n\td int [ not null ]\n}\n\n"
    );
}

#[test]
fn of_two_columns_with_one_ordinal_the_later_one_shows() {
    let mut columns = NameMap::new();
    columns.insert("first".to_string(), column("int", 1));
    columns.insert("second".to_string(), column("text", 1));
    let table = ProjectDatabaseTable { columns, indexes: None };
    assert_eq!(
        table.to_dbml(&"db".to_string(), &"t".to_string()),
        "Table db___t {\n\tsecond text [ not null ]\n}\n\n"
    );
}

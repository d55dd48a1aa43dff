use dbmlgen::error::Error;
use dbmlgen::key::{
    encode_column_key_string, encode_table_key_string, parse_column_key, parse_table_key,
};

#[test]
fn table_key_splits_at_the_first_separator() {
    assert_eq!(
        parse_table_key("shop___public___orders"),
        Ok(("shop".to_string(), "public___orders".to_string()))
    );
}

#[test]
fn table_key_with_longer_run_of_underscores() {
    assert_eq!(parse_table_key("a____b"), Ok(("a".to_string(), "_b".to_string())));
}

#[test]
fn table_key_without_separator_is_malformed() {
    assert_eq!(parse_table_key("orders"), Err(Error::MalformedKey("orders".to_string())));
    assert_eq!(parse_table_key("a__b"), Err(Error::MalformedKey("a__b".to_string())));
}

#[test]
fn table_key_needs_text_on_both_sides() {
    assert_eq!(parse_table_key("___orders"), Err(Error::MalformedKey("___orders".to_string())));
    assert_eq!(parse_table_key("shop___"), Err(Error::MalformedKey("shop___".to_string())));
    assert_eq!(parse_table_key(""), Err(Error::MalformedKey("".to_string())));
}

#[test]
fn column_key_takes_what_follows_the_last_dot() {
    assert_eq!(
        parse_column_key("shop___public___orders.customer_id"),
        Ok(("shop".to_string(), "public___orders".to_string(), "customer_id".to_string()))
    );
    assert_eq!(
        parse_column_key("my.shop___orders.id"),
        Ok(("my.shop".to_string(), "orders".to_string(), "id".to_string()))
    );
}

#[test]
fn column_key_rejects_a_dot_in_the_table() {
    assert_eq!(
        parse_column_key("shop___or.ders.id"),
        Err(Error::MalformedKey("shop___or.ders.id".to_string()))
    );
}

#[test]
fn column_key_without_column_is_malformed() {
    assert_eq!(
        parse_column_key("shop___orders"),
        Err(Error::MalformedKey("shop___orders".to_string()))
    );
    assert_eq!(
        parse_column_key("shop___orders."),
        Err(Error::MalformedKey("shop___orders.".to_string()))
    );
    assert_eq!(parse_column_key("orders.id"), Err(Error::MalformedKey("orders.id".to_string())));
    assert_eq!(parse_column_key(".id"), Err(Error::MalformedKey(".id".to_string())));
}

#[test]
fn keys_are_joined_with_the_separators() {
    assert_eq!(encode_table_key_string("shop", "orders"), "shop___orders");
    assert_eq!(encode_column_key_string("shop", "orders", "id"), "shop___orders.id");
}

#[test]
fn column_key_round_trip() {
    let key = encode_column_key_string("shop", "public___orders", "customer_id");
    assert_eq!(
        parse_column_key(&key),
        Ok(("shop".to_string(), "public___orders".to_string(), "customer_id".to_string()))
    );
}

#[test]
fn column_key_with_unicode_text() {
    assert_eq!(
        parse_column_key("büro___tabelle.größe"),
        Ok(("büro".to_string(), "tabelle".to_string(), "größe".to_string()))
    );
}

#[test]
fn malformed_key_message_names_the_key() {
    let error = parse_table_key("orders").unwrap_err();
    assert_eq!(
        error.message(),
        "The key 'orders' must follow the pattern DATABASE_NAME___TABLE_NAME, or DATABASE_NAME___TABLE_NAME.COLUMN_NAME for a column"
    );
}

use dev_suite::codec::{ticket_from_value, ticket_value};
use dev_suite::document::{
    as_integer, as_list, as_table, as_text, find, get_integer, get_list, get_table, get_text,
    integer_value, list_value, table_value, text_list, text_value, texts_of,
};
use dev_suite::ticket::Ticket;

fn table(entries: &[(&str, toml::Value)]) -> toml::Value {
    table_value(entries.iter().map(|(k, v)| (k.to_string(), v.clone())).collect())
}

#[test]
fn values_are_built_variant_by_variant() {
    assert_eq!(text_value("x".to_string()), toml::Value::String("x".to_string()));
    assert_eq!(integer_value(-3), toml::Value::Integer(-3));
    assert_eq!(
        list_value(vec![integer_value(1), text_value("a".to_string())]),
        toml::Value::Array(vec![toml::Value::Integer(1), toml::Value::String("a".to_string())])
    );
    assert_eq!(
        text_list(&vec!["a".to_string(), "b".to_string()]),
        toml::Value::Array(vec![
            toml::Value::String("a".to_string()),
            toml::Value::String("b".to_string())
        ])
    );
}

#[test]
fn a_table_keeps_the_order_of_its_entries() {
    let v = table(&[("zeta", integer_value(1)), ("alpha", integer_value(2)), ("mid", integer_value(3))]);
    let keys: Vec<String> = as_table(&v).unwrap().into_iter().map(|(k, _)| k).collect();
    assert_eq!(keys, vec!["zeta", "alpha", "mid"]);
    let through: Vec<String> =
        v.as_table().unwrap().iter().map(|(k, _)| k.to_string()).collect();
    assert_eq!(through, keys);
    let parsed: toml::Value = toml::from_str("zeta = 1\nalpha = 2\nmid = 3\n").unwrap();
    assert_eq!(parsed, v);
    let keys: Vec<String> = as_table(&parsed).unwrap().into_iter().map(|(k, _)| k).collect();
    assert_eq!(keys, vec!["zeta", "alpha", "mid"]);
}

#[test]
fn values_are_taken_apart_variant_by_variant() {
    assert_eq!(as_text(&toml::Value::String("x".to_string())), Some("x".to_string()));
    assert_eq!(as_text(&toml::Value::Integer(1)), None);
    assert_eq!(as_integer(&toml::Value::Integer(7)), Some(7));
    assert_eq!(as_integer(&toml::Value::Boolean(true)), None);
    assert_eq!(as_integer(&toml::Value::Float(1.0)), None);
    assert_eq!(as_list(&toml::Value::String("x".to_string())), None);
    assert_eq!(
        as_list(&toml::Value::Array(vec![toml::Value::Integer(1)])),
        Some(vec![toml::Value::Integer(1)])
    );
    assert_eq!(as_table(&toml::Value::Array(Vec::new())), None);
    assert_eq!(as_table(&table(&[])), Some(Vec::new()));
    assert_eq!(
        texts_of(&vec![text_value("a".to_string()), text_value("b".to_string())]),
        Some(vec!["a".to_string(), "b".to_string()])
    );
    assert_eq!(texts_of(&vec![text_value("a".to_string()), integer_value(1)]), None);
    assert_eq!(texts_of(&Vec::new()), Some(Vec::new()));
}

#[test]
fn entries_are_found_by_key() {
    let entries = as_table(&table(&[
        ("name", text_value("Ada".to_string())),
        ("age", integer_value(36)),
        ("tags", list_value(vec![text_value("x".to_string())])),
        ("inner", table(&[("k", integer_value(1))])),
    ]))
    .unwrap();
    assert_eq!(find(&entries, "age"), Some(&toml::Value::Integer(36)));
    assert_eq!(find(&entries, "none"), None);
    assert_eq!(get_text(&entries, "name"), Some("Ada".to_string()));
    assert_eq!(get_text(&entries, "age"), None);
    assert_eq!(get_integer(&entries, "age"), Some(36));
    assert_eq!(get_integer(&entries, "name"), None);
    assert_eq!(get_list(&entries, "tags"), Some(vec![toml::Value::String("x".to_string())]));
    assert_eq!(get_list(&entries, "inner"), None);
    assert_eq!(
        get_table(&entries, "inner"),
        Some(vec![("k".to_string(), toml::Value::Integer(1))])
    );
    assert_eq!(get_table(&entries, "tags"), None);
}

#[test]
fn a_ticket_s_value_is_the_ticket() {
    let mut t = Ticket::fresh("Fix parser".to_string(), "d".to_string(), 7);
    t.assignees.push("Ada".to_string());
    let v = ticket_value(&t);
    assert_eq!(ticket_from_value(&v), Ok(t));
    assert_eq!(
        ticket_from_value(&text_value("x".to_string())),
        Err("expected a table".to_string())
    );
    assert_eq!(
        ticket_from_value(&table(&[("title", text_value("T".to_string()))])),
        Err("missing or invalid field status".to_string())
    );
}

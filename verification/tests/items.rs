use dynamodb_cli::dynamodb::{AttributeValue, FieldType, Item, OrderedMap, Schema, Table};

fn names(map: &OrderedMap<AttributeValue>) -> Vec<String> {
    (0..map.len()).map(|i| map.name_at(i).to_string()).collect()
}

#[test]
fn test_item_schema_and_table_operations() {
    // Test Item operations
    let item = Item::new()
        .set_string("key1", "value1")
        .set_number("key2", &42.0_f64.to_string());
    assert_eq!(item.get_string("key1"), Some(&"value1".to_string()));
    assert_eq!(
        item.get_number("key2").and_then(|n| n.parse::<f64>().ok()),
        Some(42.0)
    );

    // Test Schema operations
    let schema = Schema::new()
        .add_field("field1", FieldType::String)
        .add_field("field2", FieldType::Number);
    let fields = schema.fields();
    assert_eq!(fields.len(), 2);
    assert!(matches!(fields.get("field1"), Some(FieldType::String)));
    assert!(matches!(fields.get("field2"), Some(FieldType::Number)));

    // Test Table operations
    let table = Table::new("test_table", "partition_key", Some("sort_key"));
    assert_eq!(table.name(), "test_table");
    assert_eq!(table.partition_key(), "partition_key");
    assert_eq!(table.sort_key(), Some("sort_key"));
}

#[test]
fn new_item_is_empty() {
    let item = Item::new();
    assert!(item.attributes().is_empty());
    assert_eq!(item.attributes().len(), 0);
    assert_eq!(item.get("anything"), None);
    assert!(Item::default().attributes().is_empty());
}

#[test]
fn getters_tell_strings_from_numbers() {
    let item = Item::new().set_string("name", "couch").set_number("price", "375");
    assert_eq!(item.get_string("name"), Some(&"couch".to_string()));
    assert_eq!(item.get_number("name"), None);
    assert_eq!(item.get_number("price"), Some(&"375".to_string()));
    assert_eq!(item.get_string("price"), None);
    assert_eq!(item.get_string("missing"), None);
    assert_eq!(item.get_number("missing"), None);
    assert_eq!(item.get("price"), Some(&AttributeValue::N("375".to_string())));
}

#[test]
fn setting_again_replaces_in_place() {
    let item = Item::new()
        .set_string("a", "1")
        .set_string("b", "2")
        .set_string("c", "3")
        .set_number("b", "20");
    assert_eq!(names(item.attributes()), vec!["a", "b", "c"]);
    assert_eq!(item.get_number("b"), Some(&"20".to_string()));
    assert_eq!(item.get_string("b"), None);
    assert_eq!(item.get_string("a"), Some(&"1".to_string()));
    assert_eq!(item.get_string("c"), Some(&"3".to_string()));
}

#[test]
fn names_are_compared_exactly() {
    let item = Item::new().set_string("key", "lower").set_string("Key", "upper").set_string("", "empty");
    assert_eq!(item.attributes().len(), 3);
    assert_eq!(item.get_string("key"), Some(&"lower".to_string()));
    assert_eq!(item.get_string("Key"), Some(&"upper".to_string()));
    assert_eq!(item.get_string(""), Some(&"empty".to_string()));
    assert_eq!(item.get_string("ke"), None);
    assert_eq!(item.get_string("keys"), None);
    assert_eq!(item.get_string("k\u{00e9}y"), None);
}

#[test]
fn non_ascii_names_and_values_are_kept() {
    let item = Item::new().set_string("na\u{00ef}ve", "caf\u{00e9}").set_string("\u{1f600}", "\u{4e2d}");
    assert_eq!(item.get_string("na\u{00ef}ve"), Some(&"caf\u{00e9}".to_string()));
    assert_eq!(item.get_string("\u{1f600}"), Some(&"\u{4e2d}".to_string()));
    assert_eq!(item.get_string("naive"), None);
}

#[test]
fn ordered_map_finds_positions() {
    let map: OrderedMap<String> = OrderedMap::new()
        .insert("x".to_string(), "1".to_string())
        .insert("y".to_string(), "2".to_string());
    assert_eq!(map.find("x"), Some(0));
    assert_eq!(map.find("y"), Some(1));
    assert_eq!(map.find("z"), None);
    assert!(map.contains_key("y"));
    assert!(!map.contains_key("z"));
    assert_eq!(map.name_at(1), "y");
    assert_eq!(map.value_at(1), "2");
    assert_eq!(map.get("x"), Some(&"1".to_string()));
}

#[test]
fn ordered_map_extend_lets_the_newcomer_win() {
    let map: OrderedMap<String> = OrderedMap::new()
        .insert("a".to_string(), "1".to_string())
        .insert("b".to_string(), "2".to_string());
    let more: OrderedMap<String> = OrderedMap::new()
        .insert("c".to_string(), "3".to_string())
        .insert("a".to_string(), "one".to_string());
    let all = map.extend(&more);
    assert_eq!(all.len(), 3);
    assert_eq!(all.name_at(0), "a");
    assert_eq!(all.name_at(1), "b");
    assert_eq!(all.name_at(2), "c");
    assert_eq!(all.get("a"), Some(&"one".to_string()));
    assert_eq!(all.get("b"), Some(&"2".to_string()));
    assert_eq!(all.get("c"), Some(&"3".to_string()));
}

#[test]
fn clones_are_equal_and_independent() {
    let item = Item::new().set_string("a", "1");
    let copy = item.clone().set_string("a", "2");
    assert_eq!(item.get_string("a"), Some(&"1".to_string()));
    assert_eq!(copy.get_string("a"), Some(&"2".to_string()));
    let value = AttributeValue::N("1.5".to_string());
    assert_eq!(value.clone(), value);
    assert_eq!(value.text(), "1.5");
    assert_eq!(AttributeValue::S("x".to_string()).text(), "x");
}

#[test]
fn schema_redeclaring_a_field_changes_its_type() {
    let schema = Schema::new()
        .add_field("a", FieldType::String)
        .add_field("b", FieldType::String)
        .add_field("a", FieldType::Number);
    assert_eq!(schema.fields().len(), 2);
    assert_eq!(schema.fields().get("a"), Some(&FieldType::Number));
    assert_eq!(schema.fields().name_at(0), "a");
    assert!(Schema::new().fields().is_empty());
    let copy = schema.clone();
    assert_eq!(copy.fields().get("b"), Some(&FieldType::String));
}

#[test]
fn table_without_sort_key_or_schema() {
    let table = Table::new("users", "user_id", None);
    assert_eq!(table.name(), "users");
    assert_eq!(table.partition_key(), "user_id");
    assert_eq!(table.sort_key(), None);
    assert!(table.schema().is_none());
}

#[test]
fn table_with_schema() {
    let table = Table::new("users", "user_id", Some("email"))
        .with_schema(Schema::new().add_field("user_id", FieldType::String));
    let schema = table.schema().expect("schema was set");
    assert_eq!(schema.fields().len(), 1);
    assert_eq!(table.sort_key(), Some("email"));
    let table = table.with_schema(Schema::new());
    assert!(table.schema().expect("schema was set").fields().is_empty());
}

use dynamodb_cli::command_line::{
    attribute_value, create_key_item, is_yes, item_size_bytes, prompt, prompt_bool,
    prompt_optional, query_items, required_schema, set_field, table_size_bytes, updatable_fields,
    Command, Filter, SortKeyAnswer,
};
use dynamodb_cli::dynamodb::{AttributeValue, FieldType, Item, OrderedMap, Schema, Table};
use dynamodb_cli::error::Error;

fn s(text: &str) -> AttributeValue {
    AttributeValue::S(text.to_string())
}

fn strings(map: &OrderedMap<String>) -> Vec<(String, String)> {
    (0..map.len())
        .map(|i| (map.name_at(i).to_string(), map.value_at(i).clone()))
        .collect()
}

fn values(map: &OrderedMap<AttributeValue>) -> Vec<(String, AttributeValue)> {
    (0..map.len())
        .map(|i| (map.name_at(i).to_string(), map.value_at(i).clone()))
        .collect()
}

fn pair(a: &str, b: &str) -> (String, String) {
    (a.to_string(), b.to_string())
}

fn products() -> Table<'static> {
    Table::new("testing-products", "category", Some("product_name")).with_schema(
        Schema::new()
            .add_field("category", FieldType::String)
            .add_field("product_name", FieldType::String)
            .add_field("price", FieldType::Number)
            .add_field("colour", FieldType::String),
    )
}

#[test]
fn every_command_is_known_by_its_name() {
    assert_eq!(Command::parse("info"), Some(Command::Info));
    assert_eq!(Command::parse("put"), Some(Command::Put));
    assert_eq!(Command::parse("get"), Some(Command::Get));
    assert_eq!(Command::parse("update"), Some(Command::Update));
    assert_eq!(Command::parse("delete"), Some(Command::Delete));
    assert_eq!(Command::parse("query"), Some(Command::Query));
    assert_eq!(Command::parse("scan"), Some(Command::Scan));
    assert_eq!(Command::parse("list"), Some(Command::List));
    assert_eq!(Command::parse("query_flexible"), Some(Command::QueryFlexible));
    assert_eq!(Command::parse("query_simple"), Some(Command::QuerySimple));
    assert_eq!(Command::parse("scan_paginated"), Some(Command::ScanPaginated));
    assert_eq!(Command::parse("delete_table"), Some(Command::DeleteTable));
    assert_eq!(Command::parse("exit"), Some(Command::Exit));
}

#[test]
fn other_input_is_no_command() {
    for input in ["", "Info", "EXIT", "quit", "put ", " put", "query-simple", "scan_", "delete table"] {
        assert_eq!(Command::parse(input), None, "input {:?}", input);
    }
}

#[test]
fn prompt_shows_message_and_example() {
    assert_eq!(prompt("Enter limit", Some("10")), "Enter limit (e.g., 10): ");
    assert_eq!(prompt("Enter category: ", None), "Enter category: : ");
    assert_eq!(prompt("", None), ": ");
    assert_eq!(prompt("", Some("")), " (e.g., ): ");
}

#[test]
fn empty_input_is_no_answer() {
    assert_eq!(prompt_optional(String::new()), None);
    assert_eq!(prompt_optional("GSI1".to_string()), Some("GSI1".to_string()));
    assert_eq!(prompt_optional(" ".to_string()), Some(" ".to_string()));
}

#[test]
fn yes_or_no_with_a_default() {
    assert!(prompt_bool("y", false));
    assert!(prompt_bool("Y", false));
    assert!(prompt_bool("yes", false));
    assert!(prompt_bool("Yes please", false));
    assert!(!prompt_bool("n", true));
    assert!(!prompt_bool("no", true));
    assert!(!prompt_bool("maybe", true));
    assert!(!prompt_bool(" y", true));
    assert!(!prompt_bool("\u{00ff}", true));
    assert!(prompt_bool("", true));
    assert!(!prompt_bool("", false));
}

#[test]
fn only_y_confirms() {
    assert!(is_yes("y"));
    assert!(is_yes("Y"));
    assert!(!is_yes("yes"));
    assert!(!is_yes(""));
    assert!(!is_yes("n"));
    assert!(!is_yes(" y"));
}

#[test]
fn values_by_type_tag() {
    assert_eq!(attribute_value("S", "abc".to_string()), Ok(s("abc")));
    assert_eq!(
        attribute_value("N", "18".to_string()),
        Ok(AttributeValue::N("18".to_string()))
    );
    for tag in ["B", "", "s", "n", "SS", "BOOL", " S"] {
        assert_eq!(
            attribute_value(tag, "x".to_string()),
            Err(Error::UnsupportedValueType),
            "tag {:?}",
            tag
        );
    }
}

#[test]
fn fields_are_set_as_their_declared_type() {
    let item = set_field(Item::new(), "name", FieldType::String, "couch");
    let item = set_field(item, "price", FieldType::Number, "375");
    assert_eq!(item.get_string("name"), Some(&"couch".to_string()));
    assert_eq!(item.get_number("price"), Some(&"375".to_string()));
    let item = set_field(item, "price", FieldType::String, "cheap");
    assert_eq!(item.get_string("price"), Some(&"cheap".to_string()));
    assert_eq!(item.attributes().len(), 2);
}

#[test]
fn key_item_with_and_without_sort_key() {
    let key = create_key_item(&products(), "Electronics", Some("Smartphone"));
    assert_eq!(
        values(key.attributes()),
        vec![
            ("category".to_string(), s("Electronics")),
            ("product_name".to_string(), s("Smartphone")),
        ]
    );
    let key = create_key_item(&products(), "Electronics", None);
    assert_eq!(values(key.attributes()), vec![("category".to_string(), s("Electronics"))]);
    let users = Table::new("users", "user_id", None);
    let key = create_key_item(&users, "123", Some("ignored"));
    assert_eq!(values(key.attributes()), vec![("user_id".to_string(), s("123"))]);
}

#[test]
fn a_table_without_schema_is_rejected() {
    let table = Table::new("users", "user_id", None);
    assert_eq!(required_schema(&table).err(), Some(Error::SchemaNotDefined));
    assert_eq!(updatable_fields(&table).err(), Some(Error::SchemaNotDefined));
    assert_eq!(required_schema(&products()).expect("a schema").fields().len(), 4);
}

#[test]
fn key_fields_cannot_be_updated() {
    assert_eq!(
        updatable_fields(&products()),
        Ok(vec![
            ("price".to_string(), FieldType::Number),
            ("colour".to_string(), FieldType::String),
        ])
    );
    let keys_only = Table::new("t", "a", Some("b"))
        .with_schema(Schema::new().add_field("b", FieldType::String).add_field("a", FieldType::String));
    assert_eq!(updatable_fields(&keys_only), Ok(Vec::new()));
    let no_sort_key = Table::new("t", "a", None)
        .with_schema(Schema::new().add_field("a", FieldType::String).add_field("b", FieldType::Number));
    assert_eq!(
        updatable_fields(&no_sort_key),
        Ok(vec![("b".to_string(), FieldType::Number)])
    );
    let empty = Table::new("t", "a", None).with_schema(Schema::new());
    assert_eq!(updatable_fields(&empty), Ok(Vec::new()));
}

#[test]
fn sizes_add_up_the_bytes_of_the_values() {
    assert_eq!(item_size_bytes(&Item::new()), Some(0));
    assert_eq!(table_size_bytes(&Vec::new()), Some(0));
    let couch = Item::new()
        .set_string("category", "living-room")
        .set_string("product_name", "couch")
        .set_number("price", "375.0");
    assert_eq!(item_size_bytes(&couch), Some(11 + 5 + 5));
    // Bytes, not characters: an e with an accent takes two.
    let cafe = Item::new().set_string("name", "caf\u{00e9}").set_string("empty", "");
    assert_eq!(item_size_bytes(&cafe), Some(5));
    assert_eq!(table_size_bytes(&vec![couch, cafe, Item::new()]), Some(26));
}

#[test]
fn query_by_partition_key_alone() {
    let input = query_items(&products(), "Electronics".to_string(), None, None, None)
        .expect("no operator to reject");
    assert_eq!(input.table_name, "testing-products");
    assert_eq!(input.key_condition_expression, "#pk = :pkval");
    assert_eq!(
        strings(input.expression_attribute_names.as_ref().expect("names are set")),
        vec![pair("#pk", "category")]
    );
    assert_eq!(
        values(input.expression_attribute_values.as_ref().expect("values are set")),
        vec![(":pkval".to_string(), s("Electronics"))]
    );
    assert_eq!(input.filter_expression, None);
    assert_eq!(input.limit, None);
}

#[test]
fn query_with_range_filter_and_limit() {
    let filter = Filter {
        expression: "#p > :min AND #sk <> :pkval".to_string(),
        expression_attribute_names: OrderedMap::new()
            .insert("#p".to_string(), "price".to_string())
            .insert("#sk".to_string(), "colour".to_string()),
        expression_attribute_values: OrderedMap::new()
            .insert(":min".to_string(), AttributeValue::N("25".to_string()))
            .insert(":pkval".to_string(), s("Books")),
    };
    let answer = SortKeyAnswer {
        condition: "BETWEEN".to_string(),
        value: "A".to_string(),
        second_value: Some("M".to_string()),
    };
    let input = query_items(&products(), "Electronics".to_string(), Some(answer), Some(filter), Some(10))
        .expect("a range with two values");
    assert_eq!(
        input.key_condition_expression,
        "#pk = :pkval AND #sk BETWEEN :skval AND :skval2"
    );
    assert_eq!(
        strings(input.expression_attribute_names.as_ref().expect("names are set")),
        vec![pair("#pk", "category"), pair("#sk", "colour"), pair("#p", "price")]
    );
    assert_eq!(
        values(input.expression_attribute_values.as_ref().expect("values are set")),
        vec![
            (":pkval".to_string(), s("Books")),
            (":skval".to_string(), s("A")),
            (":skval2".to_string(), s("M")),
            (":min".to_string(), AttributeValue::N("25".to_string())),
        ]
    );
    assert_eq!(input.filter_expression.as_deref(), Some("#p > :min AND #sk <> :pkval"));
    assert_eq!(input.limit, Some(10));
    assert_eq!(input.projection_expression, None);
    assert_eq!(input.scan_index_forward, None);
    assert_eq!(input.index_name, None);
}

#[test]
fn query_rejects_what_a_key_condition_rejects() {
    let answer = |condition: &str, second: Option<&str>| {
        Some(SortKeyAnswer {
            condition: condition.to_string(),
            value: "A".to_string(),
            second_value: second.map(|s| s.to_string()),
        })
    };
    assert_eq!(
        query_items(&products(), "E".to_string(), answer("~=", None), None, None).err(),
        Some(Error::UnsupportedCondition)
    );
    assert_eq!(
        query_items(&products(), "E".to_string(), answer("BETWEEN", None), None, None).err(),
        Some(Error::MissingSecondValue)
    );
    // Without a sort key there is no condition to reject.
    let users = Table::new("users", "user_id", None);
    let input = query_items(&users, "1".to_string(), answer("~=", None), None, None)
        .expect("the table has no sort key");
    assert_eq!(input.key_condition_expression, "#pk = :pkval");
}

#[test]
fn errors_describe_themselves() {
    assert_eq!(Error::UnsupportedCondition.message(), "Unsupported condition");
    assert_eq!(Error::MissingSecondValue.message(), "BETWEEN needs two values");
    assert_eq!(Error::UnsupportedValueType.message(), "Unsupported value type");
    assert_eq!(Error::SchemaNotDefined.message(), "Table schema not defined");
}

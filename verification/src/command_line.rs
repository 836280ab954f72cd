//! The rules of the interactive command loop: which commands there are, what
//! a line of input means, and which requests come of the answers.
//!
//! Reading lines and printing is left to the caller.

use crate::dynamodb::item::{value_text, AttributeValue, Item, Value};
use crate::dynamodb::ordered_map::{extend_entries, put, OrderedMap};
use crate::dynamodb::request::{opt_view, positive_limit};
use crate::dynamodb::request::query::{
    key_condition, key_condition_error, key_condition_of, query_flexible, QueryFlexibleParams,
    QueryInput, QueryView, SortKeyCondition, SortKeyConditionView,
};
use crate::dynamodb::request::scan::item_views;
use crate::dynamodb::schema::{FieldType, Schema};
use crate::dynamodb::table::{Table, TableView};
use crate::error::Error;
use crate::text::str_eq;
use vstd::prelude::*;
use vstd::string::*;
use vstd::utf8::*;

verus! {

/// A command of the loop.
#[derive(Clone, Copy, Debug, PartialEq, Eq, Structural)]
pub enum Command {
    Info,
    Put,
    Get,
    Update,
    Delete,
    Query,
    Scan,
    List,
    QueryFlexible,
    QuerySimple,
    ScanPaginated,
    DeleteTable,
    Exit,
}

/// The command that a line of input names, if it names one.
pub open spec fn command_of(input: Seq<char>) -> Option<Command> {
    if input == "info"@ {
        Some(Command::Info)
    } else if input == "put"@ {
        Some(Command::Put)
    } else if input == "get"@ {
        Some(Command::Get)
    } else if input == "update"@ {
        Some(Command::Update)
    } else if input == "delete"@ {
        Some(Command::Delete)
    } else if input == "query"@ {
        Some(Command::Query)
    } else if input == "scan"@ {
        Some(Command::Scan)
    } else if input == "list"@ {
        Some(Command::List)
    } else if input == "query_flexible"@ {
        Some(Command::QueryFlexible)
    } else if input == "query_simple"@ {
        Some(Command::QuerySimple)
    } else if input == "scan_paginated"@ {
        Some(Command::ScanPaginated)
    } else if input == "delete_table"@ {
        Some(Command::DeleteTable)
    } else if input == "exit"@ {
        Some(Command::Exit)
    } else {
        None
    }
}

impl Command {
    /// The command that `input` names. `None` for any other input: the loop
    /// then says so and asks again.
    pub fn parse(input: &str) -> (command: Option<Command>)
        ensures
            command == command_of(input@),
    {
        if str_eq(input, "info") {
            Some(Command::Info)
        } else if str_eq(input, "put") {
            Some(Command::Put)
        } else if str_eq(input, "get") {
            Some(Command::Get)
        } else if str_eq(input, "update") {
            Some(Command::Update)
        } else if str_eq(input, "delete") {
            Some(Command::Delete)
        } else if str_eq(input, "query") {
            Some(Command::Query)
        } else if str_eq(input, "scan") {
            Some(Command::Scan)
        } else if str_eq(input, "list") {
            Some(Command::List)
        } else if str_eq(input, "query_flexible") {
            Some(Command::QueryFlexible)
        } else if str_eq(input, "query_simple") {
            Some(Command::QuerySimple)
        } else if str_eq(input, "scan_paginated") {
            Some(Command::ScanPaginated)
        } else if str_eq(input, "delete_table") {
            Some(Command::DeleteTable)
        } else if str_eq(input, "exit") {
            Some(Command::Exit)
        } else {
            None
        }
    }
}

/// The text shown before a line is read: the message, an example in
/// brackets if there is one, and a colon.
pub fn prompt(message: &str, example: Option<&str>) -> (text: String)
    ensures
        text@ == match example {
            Some(example) => message@ + " (e.g., "@ + example@ + "): "@,
            None => message@ + ": "@,
        },
{
    let mut text = message.to_owned();
    match example {
        Some(example) => {
            text.append(" (e.g., ");
            text.append(example);
            text.append("): ");
        },
        None => {
            text.append(": ");
        },
    }
    text
}

/// An answer that may be left out: an empty line stands for none.
pub fn prompt_optional(input: String) -> (answer: Option<String>)
    ensures
        answer == if input@.len() == 0 {
            None
        } else {
            Some(input)
        },
{
    if input.as_str().is_empty() {
        None
    } else {
        Some(input)
    }
}

/// Whether `input` begins with `y` in either case.
pub open spec fn begins_with_y(input: Seq<char>) -> bool {
    input.len() > 0 && (input[0] == 'y' || input[0] == 'Y')
}

/// The answer to a yes-or-no question: yes if the line begins with `y` in
/// either case, the default if the line is empty, else no.
pub fn prompt_bool(input: &str, default: bool) -> (answer: bool)
    ensures
        answer == (begins_with_y(input@) || (input@.len() == 0 && default)),
{
    if input.is_empty() {
        default
    } else {
        let first = input.get_char(0);
        first == 'y' || first == 'Y'
    }
}

/// Whether `input` is `y` in either case: the one answer that confirms.
pub fn is_yes(input: &str) -> (yes: bool)
    ensures
        yes == (input@ == "y"@ || input@ == "Y"@),
{
    str_eq(input, "y") || str_eq(input, "Y")
}

/// The value that a type tag and a text stand for, where the tag is known.
pub open spec fn tagged_value(value_type: Seq<char>, value: Seq<char>) -> Option<Value> {
    if value_type == "S"@ {
        Some(Value::S(value))
    } else if value_type == "N"@ {
        Some(Value::N(value))
    } else {
        None
    }
}

/// The value with type tag `value_type`: `S` for a string, `N` for a
/// number. Any other tag is rejected.
pub fn attribute_value(value_type: &str, value: String) -> (result: Result<AttributeValue, Error>)
    ensures
        match result {
            Ok(v) => tagged_value(value_type@, value@) == Some(v@),
            Err(e) => e == Error::UnsupportedValueType && tagged_value(value_type@, value@) is None,
        },
{
    if str_eq(value_type, "S") {
        Ok(AttributeValue::S(value))
    } else if str_eq(value_type, "N") {
        Ok(AttributeValue::N(value))
    } else {
        Err(Error::UnsupportedValueType)
    }
}

/// The item with `value` in the field `name`, as the type that the schema
/// declares for it. A number is given in decimal.
pub fn set_field(item: Item, name: &str, field_type: FieldType, value: &str) -> (changed: Item)
    ensures
        changed@ == put(
            item@,
            name@,
            match field_type {
                FieldType::String => Value::S(value@),
                FieldType::Number => Value::N(value@),
            },
        ),
{
    match field_type {
        FieldType::String => item.set_string(name, value),
        FieldType::Number => item.set_number(name, value),
    }
}

/// The key of an item: the partition key and, where the table has a sort
/// key and a value for it is given, the sort key, both as strings.
pub open spec fn key_item_of(
    table: TableView,
    partition_value: Seq<char>,
    sort_value: Option<Seq<char>>,
) -> Seq<(Seq<char>, Value)> {
    let key = put(Seq::empty(), table.partition_key, Value::S(partition_value));
    match (table.sort_key, sort_value) {
        (Some(sort_key), Some(sort_value)) => put(key, sort_key, Value::S(sort_value)),
        _ => key,
    }
}

/// The key of the item of `table` with these key values.
pub fn create_key_item(table: &Table<'_>, partition_value: &str, sort_value: Option<&str>) -> (key:
    Item)
    ensures
        key@ == key_item_of(table@, partition_value@, opt_view(sort_value)),
{
    let key = Item::new().set_string(table.partition_key(), partition_value);
    match (table.sort_key(), sort_value) {
        (Some(sort_key), Some(sort_value)) => key.set_string(sort_key, sort_value),
        _ => key,
    }
}

/// The schema of `table`, which an operation that goes field by field
/// cannot do without.
pub fn required_schema<'a>(table: &'a Table<'_>) -> (result: Result<&'a Schema, Error>)
    ensures
        match result {
            Ok(schema) => table@.schema == Some(schema@),
            Err(e) => e == Error::SchemaNotDefined && table@.schema is None,
        },
{
    match table.schema() {
        Some(schema) => Ok(schema),
        None => Err(Error::SchemaNotDefined),
    }
}

/// Whether `name` is the partition key or the sort key of `table`.
pub open spec fn is_key_attribute(table: TableView, name: Seq<char>) -> bool {
    name == table.partition_key || table.sort_key == Some(name)
}

/// The fields among `fields` that are not part of the key of `table`, in
/// order.
pub open spec fn updatable(table: TableView, fields: Seq<(Seq<char>, FieldType)>) -> Seq<
    (Seq<char>, FieldType),
>
    decreases fields.len(),
{
    if fields.len() == 0 {
        Seq::empty()
    } else if is_key_attribute(table, fields.last().0) {
        updatable(table, fields.drop_last())
    } else {
        updatable(table, fields.drop_last()).push(fields.last())
    }
}

/// The names and types of a list of fields.
pub open spec fn field_views(fields: Seq<(String, FieldType)>) -> Seq<(Seq<char>, FieldType)> {
    fields.map_values(|f: (String, FieldType)| (f.0@, f.1))
}

/// The fields of `table` that an update may change: those of its schema
/// that are not part of the key, in the order of the schema. A table
/// without a schema is rejected.
pub fn updatable_fields(table: &Table<'_>) -> (result: Result<Vec<(String, FieldType)>, Error>)
    ensures
        match result {
            Ok(fields) => table@.schema is Some && field_views(fields@) == updatable(
                table@,
                table@.schema->0,
            ),
            Err(e) => e == Error::SchemaNotDefined && table@.schema is None,
        },
{
    let schema = match required_schema(table) {
        Ok(schema) => schema,
        Err(e) => {
            return Err(e);
        },
    };
    let all = schema.fields();
    let n = all.len();
    let mut fields: Vec<(String, FieldType)> = Vec::new();
    let mut i: usize = 0;
    assert(field_views(fields@) =~= Seq::empty());
    while i < n
        invariant
            i <= n,
            n == all@.len(),
            field_views(fields@) == updatable(table@, all@.take(i as int)),
        decreases n - i,
    {
        let name = all.name_at(i);
        let is_partition_key = str_eq(name, table.partition_key());
        let is_sort_key = match table.sort_key() {
            Some(sort_key) => str_eq(name, sort_key),
            None => false,
        };
        proof {
            assert(all@.take(i + 1).drop_last() =~= all@.take(i as int));
            assert(all@.take(i + 1).last() == all@[i as int]);
        }
        if !is_partition_key && !is_sort_key {
            let ghost before = fields@;
            fields.push((name.to_owned(), *all.value_at(i)));
            assert(field_views(fields@) =~= field_views(before).push(all@[i as int]));
        }
        i += 1;
    }
    proof {
        assert(all@.take(n as int) =~= all@);
    }
    Ok(fields)
}

/// The size of a value: the number of bytes of its text.
pub open spec fn value_bytes(v: Value) -> nat {
    encode_utf8(value_text(v)).len()
}

/// The size of an item: the sizes of its values, added up.
pub open spec fn item_bytes(item: Seq<(Seq<char>, Value)>) -> nat
    decreases item.len(),
{
    if item.len() == 0 {
        0
    } else {
        item_bytes(item.drop_last()) + value_bytes(item.last().1)
    }
}

/// The size of a list of items: the sizes of the items, added up.
pub open spec fn items_bytes(items: Seq<Seq<(Seq<char>, Value)>>) -> nat
    decreases items.len(),
{
    if items.len() == 0 {
        0
    } else {
        items_bytes(items.drop_last()) + item_bytes(items.last())
    }
}

proof fn lemma_item_bytes_grow(item: Seq<(Seq<char>, Value)>, i: int)
    requires
        0 <= i <= item.len(),
    ensures
        item_bytes(item.take(i)) <= item_bytes(item),
    decreases item.len() - i,
{
    if i < item.len() {
        assert(item.take(i + 1).drop_last() =~= item.take(i));
        lemma_item_bytes_grow(item, i + 1);
    } else {
        assert(item.take(i) =~= item);
    }
}

proof fn lemma_items_bytes_grow(items: Seq<Seq<(Seq<char>, Value)>>, i: int)
    requires
        0 <= i <= items.len(),
    ensures
        items_bytes(items.take(i)) <= items_bytes(items),
    decreases items.len() - i,
{
    if i < items.len() {
        assert(items.take(i + 1).drop_last() =~= items.take(i));
        lemma_items_bytes_grow(items, i + 1);
    } else {
        assert(items.take(i) =~= items);
    }
}

/// The size of an item in bytes, or `None` if it is more than a `usize`
/// holds.
pub fn item_size_bytes(item: &Item) -> (size: Option<usize>)
    ensures
        match size {
            Some(n) => n == item_bytes(item@),
            None => item_bytes(item@) > usize::MAX,
        },
{
    let attributes = item.attributes();
    let n = attributes.len();
    let mut total: usize = 0;
    let mut i: usize = 0;
    while i < n
        invariant
            i <= n,
            n == attributes@.len(),
            attributes@ == item@,
            total == item_bytes(item@.take(i as int)),
        decreases n - i,
    {
        proof {
            assert(item@.take(i + 1).drop_last() =~= item@.take(i as int));
            lemma_item_bytes_grow(item@, i + 1);
        }
        let len = attributes.value_at(i).text().as_str().as_bytes().len();
        match total.checked_add(len) {
            Some(sum) => {
                total = sum;
            },
            None => {
                return None;
            },
        }
        i += 1;
    }
    proof {
        assert(item@.take(n as int) =~= item@);
    }
    Some(total)
}

/// The size of a table's items in bytes: the lengths of all their values,
/// added up. `None` if that is more than a `usize` holds.
pub fn table_size_bytes(items: &Vec<Item>) -> (size: Option<usize>)
    ensures
        match size {
            Some(n) => n == items_bytes(item_views(items@)),
            None => items_bytes(item_views(items@)) > usize::MAX,
        },
{
    let ghost views = item_views(items@);
    let mut total: usize = 0;
    let mut i: usize = 0;
    while i < items.len()
        invariant
            i <= items.len(),
            views == item_views(items@),
            total == items_bytes(views.take(i as int)),
        decreases items.len() - i,
    {
        proof {
            assert(views.take(i + 1).drop_last() =~= views.take(i as int));
            assert(views.take(i + 1).last() == items@[i as int]@);
            lemma_items_bytes_grow(views, i + 1);
        }
        let sum = match item_size_bytes(&items[i]) {
            Some(size) => total.checked_add(size),
            None => None,
        };
        match sum {
            Some(sum) => {
                total = sum;
            },
            None => {
                return None;
            },
        }
        i += 1;
    }
    proof {
        assert(views.take(items.len() as int) =~= views);
    }
    Some(total)
}

/// The condition on the sort key as it was typed in: the operator, a value
/// and, for a range, a second value. The values are strings.
#[derive(Debug)]
pub struct SortKeyAnswer {
    pub condition: String,
    pub value: String,
    pub second_value: Option<String>,
}

/// What a [`SortKeyAnswer`] stands for.
pub struct SortKeyAnswerView {
    pub condition: Seq<char>,
    pub value: Seq<char>,
    pub second_value: Option<Seq<char>>,
}

impl View for SortKeyAnswer {
    type V = SortKeyAnswerView;

    open spec fn view(&self) -> SortKeyAnswerView {
        SortKeyAnswerView {
            condition: self.condition@,
            value: self.value@,
            second_value: opt_view(self.second_value),
        }
    }
}

/// A filter as it was typed in, with the placeholders it uses.
#[derive(Debug)]
pub struct Filter {
    pub expression: String,
    pub expression_attribute_names: OrderedMap<String>,
    pub expression_attribute_values: OrderedMap<AttributeValue>,
}

/// What a [`Filter`] stands for.
pub struct FilterView {
    pub expression: Seq<char>,
    pub expression_attribute_names: Seq<(Seq<char>, Seq<char>)>,
    pub expression_attribute_values: Seq<(Seq<char>, Value)>,
}

impl View for Filter {
    type V = FilterView;

    open spec fn view(&self) -> FilterView {
        FilterView {
            expression: self.expression@,
            expression_attribute_names: self.expression_attribute_names@,
            expression_attribute_values: self.expression_attribute_values@,
        }
    }
}

/// The sort-key condition that an answer stands for, on the sort key of
/// `table`. There is none if the table has no sort key.
pub open spec fn sort_condition_of(table: TableView, answer: Option<SortKeyAnswerView>) -> Option<
    SortKeyConditionView,
> {
    match (table.sort_key, answer) {
        (Some(sort_key), Some(answer)) => Some(
            SortKeyConditionView {
                sort_key,
                condition: answer.condition,
                value: Value::S(answer.value),
                second_value: match answer.second_value {
                    Some(second) => Some(Value::S(second)),
                    None => None,
                },
            },
        ),
        _ => None,
    }
}

/// The query that the answers of the `query` command stand for, where it is
/// not rejected: the key condition on the keys of `table`, then the
/// placeholders of the filter, which replace those of the same name.
pub open spec fn query_of_answers(
    table: TableView,
    partition_value: Seq<char>,
    sort: Option<SortKeyConditionView>,
    filter: Option<FilterView>,
    limit: Option<i32>,
) -> QueryView {
    let condition = key_condition_of((table.partition_key, Value::S(partition_value)), sort);
    QueryView {
        table_name: table.name,
        key_condition_expression: condition.expression,
        expression_attribute_names: Some(
            match filter {
                Some(f) => extend_entries(
                    condition.expression_attribute_names,
                    f.expression_attribute_names,
                ),
                None => condition.expression_attribute_names,
            },
        ),
        expression_attribute_values: Some(
            match filter {
                Some(f) => extend_entries(
                    condition.expression_attribute_values,
                    f.expression_attribute_values,
                ),
                None => condition.expression_attribute_values,
            },
        ),
        filter_expression: match filter {
            Some(f) => Some(f.expression),
            None => None,
        },
        projection_expression: None,
        limit: positive_limit(limit),
        scan_index_forward: None,
        index_name: None,
        exclusive_start_key: None,
    }
}

/// The request of the `query` command: a query of `table` by partition key
/// and, where the table has a sort key, by the condition typed in for it,
/// with an optional filter and limit. A condition is rejected as a key
/// condition is.
pub fn query_items(
    table: &Table<'_>,
    partition_value: String,
    sort_key_answer: Option<SortKeyAnswer>,
    filter: Option<Filter>,
    limit: Option<i32>,
) -> (request: Result<QueryInput, Error>)
    ensures
        match request {
            Ok(input) => key_condition_error(sort_condition_of(table@, opt_view(sort_key_answer)))
                is None && input@ == query_of_answers(
                table@,
                partition_value@,
                sort_condition_of(table@, opt_view(sort_key_answer)),
                opt_view(filter),
                limit,
            ),
            Err(e) => key_condition_error(sort_condition_of(table@, opt_view(sort_key_answer)))
                == Some(e),
        },
{
    let sort_key_condition = match (table.sort_key(), sort_key_answer) {
        (Some(sort_key), Some(answer)) => {
            let SortKeyAnswer { condition, value, second_value } = answer;
            Some(
                SortKeyCondition {
                    sort_key: sort_key.to_owned(),
                    condition,
                    value: AttributeValue::S(value),
                    second_value: match second_value {
                        Some(second) => Some(AttributeValue::S(second)),
                        None => None,
                    },
                },
            )
        },
        _ => None,
    };
    let condition = match key_condition(
        (table.partition_key(), AttributeValue::S(partition_value)),
        sort_key_condition,
    ) {
        Ok(condition) => condition,
        Err(e) => {
            return Err(e);
        },
    };
    let mut names = condition.expression_attribute_names;
    let mut values = condition.expression_attribute_values;
    let expression = condition.expression;
    let filter_expression = match filter {
        Some(f) => {
            names = names.extend(&f.expression_attribute_names);
            values = values.extend(&f.expression_attribute_values);
            Some(f.expression)
        },
        None => None,
    };
    Ok(
        query_flexible(
            QueryFlexibleParams {
                table_name: table.name(),
                key_condition_expression: expression.as_str(),
                expression_attribute_names: Some(names),
                expression_attribute_values: Some(values),
                filter_expression: match &filter_expression {
                    Some(f) => Some(f.as_str()),
                    None => None,
                },
                projection_expression: None,
                limit,
                scan_index_forward: None,
                index_name: None,
                exclusive_start_key: None,
            },
        ),
    )
}

} // verus!

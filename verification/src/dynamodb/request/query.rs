//! Queries: by key condition, with every parameter under the caller's
//! control or with the expression written for the caller.

use crate::dynamodb::item::{AttributeValue, Item, Value};
use crate::dynamodb::ordered_map::{extend_entries, put, OrderedMap};
use crate::dynamodb::request::{limit_if_positive, opt_view, owned_text, positive_limit};
use crate::error::Error;
use crate::text::{lemma_occurs_between, occurs_in, str_eq};
use vstd::prelude::*;
use vstd::string::*;

verus! {

/// What a query request holds.
pub struct QueryView {
    pub table_name: Seq<char>,
    pub key_condition_expression: Seq<char>,
    pub expression_attribute_names: Option<Seq<(Seq<char>, Seq<char>)>>,
    pub expression_attribute_values: Option<Seq<(Seq<char>, Value)>>,
    pub filter_expression: Option<Seq<char>>,
    pub projection_expression: Option<Seq<char>>,
    pub limit: Option<i32>,
    pub scan_index_forward: Option<bool>,
    pub index_name: Option<Seq<char>>,
    pub exclusive_start_key: Option<Seq<(Seq<char>, Value)>>,
}

/// The parameters of a query, all of them under the caller's control.
#[derive(Debug)]
pub struct QueryFlexibleParams<'a> {
    pub table_name: &'a str,
    pub key_condition_expression: &'a str,
    pub expression_attribute_names: Option<OrderedMap<String>>,
    pub expression_attribute_values: Option<OrderedMap<AttributeValue>>,
    pub filter_expression: Option<&'a str>,
    pub projection_expression: Option<&'a str>,
    pub limit: Option<i32>,
    pub scan_index_forward: Option<bool>,
    pub index_name: Option<&'a str>,
    pub exclusive_start_key: Option<Item>,
}

impl<'a> View for QueryFlexibleParams<'a> {
    type V = QueryView;

    open spec fn view(&self) -> QueryView {
        QueryView {
            table_name: self.table_name@,
            key_condition_expression: self.key_condition_expression@,
            expression_attribute_names: opt_view(self.expression_attribute_names),
            expression_attribute_values: opt_view(self.expression_attribute_values),
            filter_expression: opt_view(self.filter_expression),
            projection_expression: opt_view(self.projection_expression),
            limit: self.limit,
            scan_index_forward: self.scan_index_forward,
            index_name: opt_view(self.index_name),
            exclusive_start_key: opt_view(self.exclusive_start_key),
        }
    }
}

/// A query request.
#[derive(Debug)]
pub struct QueryInput {
    pub table_name: String,
    pub key_condition_expression: String,
    pub expression_attribute_names: Option<OrderedMap<String>>,
    pub expression_attribute_values: Option<OrderedMap<AttributeValue>>,
    pub filter_expression: Option<String>,
    pub projection_expression: Option<String>,
    pub limit: Option<i32>,
    pub scan_index_forward: Option<bool>,
    pub index_name: Option<String>,
    pub exclusive_start_key: Option<Item>,
}

impl View for QueryInput {
    type V = QueryView;

    open spec fn view(&self) -> QueryView {
        QueryView {
            table_name: self.table_name@,
            key_condition_expression: self.key_condition_expression@,
            expression_attribute_names: opt_view(self.expression_attribute_names),
            expression_attribute_values: opt_view(self.expression_attribute_values),
            filter_expression: opt_view(self.filter_expression),
            projection_expression: opt_view(self.projection_expression),
            limit: self.limit,
            scan_index_forward: self.scan_index_forward,
            index_name: opt_view(self.index_name),
            exclusive_start_key: opt_view(self.exclusive_start_key),
        }
    }
}

/// The query request made of `params`: every parameter as given, but a limit
/// that is not positive stands for no limit.
pub fn query_flexible(params: QueryFlexibleParams<'_>) -> (input: QueryInput)
    ensures
        input@ == (QueryView { limit: positive_limit(params.limit), ..params@ }),
{
    QueryInput {
        table_name: params.table_name.to_owned(),
        key_condition_expression: params.key_condition_expression.to_owned(),
        expression_attribute_names: params.expression_attribute_names,
        expression_attribute_values: params.expression_attribute_values,
        filter_expression: owned_text(params.filter_expression),
        projection_expression: owned_text(params.projection_expression),
        limit: limit_if_positive(params.limit),
        scan_index_forward: params.scan_index_forward,
        index_name: owned_text(params.index_name),
        exclusive_start_key: params.exclusive_start_key,
    }
}

/// A condition on the sort key: an operator and one value, or two for
/// `BETWEEN`.
#[derive(Debug)]
pub struct SortKeyCondition {
    pub sort_key: String,
    pub condition: String,
    pub value: AttributeValue,
    pub second_value: Option<AttributeValue>,
}

/// What a [`SortKeyCondition`] stands for.
pub struct SortKeyConditionView {
    pub sort_key: Seq<char>,
    pub condition: Seq<char>,
    pub value: Value,
    pub second_value: Option<Value>,
}

impl View for SortKeyCondition {
    type V = SortKeyConditionView;

    open spec fn view(&self) -> SortKeyConditionView {
        SortKeyConditionView {
            sort_key: self.sort_key@,
            condition: self.condition@,
            value: self.value@,
            second_value: opt_view(self.second_value),
        }
    }
}

/// Whether `operator` compares the sort key with one value.
pub open spec fn is_comparison(operator: Seq<char>) -> bool {
    ||| operator == "="@
    ||| operator == "<"@
    ||| operator == "<="@
    ||| operator == ">"@
    ||| operator == ">="@
}

/// Whether `operator` asks for a range.
pub open spec fn is_between(operator: Seq<char>) -> bool {
    operator == "BETWEEN"@
}

/// Why a key condition with this sort-key condition is rejected, if it is.
pub open spec fn key_condition_error(sort: Option<SortKeyConditionView>) -> Option<Error> {
    match sort {
        None => None,
        Some(c) => if is_comparison(c.condition) {
            None
        } else if is_between(c.condition) {
            if c.second_value is Some {
                None
            } else {
                Some(Error::MissingSecondValue)
            }
        } else {
            Some(Error::UnsupportedCondition)
        },
    }
}

/// A key-condition expression with the placeholders it uses.
#[derive(Debug)]
pub struct KeyCondition {
    pub expression: String,
    pub expression_attribute_names: OrderedMap<String>,
    pub expression_attribute_values: OrderedMap<AttributeValue>,
}

/// What a [`KeyCondition`] stands for.
pub struct KeyConditionView {
    pub expression: Seq<char>,
    pub expression_attribute_names: Seq<(Seq<char>, Seq<char>)>,
    pub expression_attribute_values: Seq<(Seq<char>, Value)>,
}

impl View for KeyCondition {
    type V = KeyConditionView;

    open spec fn view(&self) -> KeyConditionView {
        KeyConditionView {
            expression: self.expression@,
            expression_attribute_names: self.expression_attribute_names@,
            expression_attribute_values: self.expression_attribute_values@,
        }
    }
}

/// The key condition for a partition key and at most one condition on the
/// sort key, where it is not rejected: equality on the partition key and,
/// with a sort-key condition, one comparison of the sort key with `:skval`
/// or one range from `:skval` to `:skval2`.
pub open spec fn key_condition_of(
    partition_key: (Seq<char>, Value),
    sort: Option<SortKeyConditionView>,
) -> KeyConditionView {
    match sort {
        None => KeyConditionView {
            expression: "#pk = :pkval"@,
            expression_attribute_names: seq![("#pk"@, partition_key.0)],
            expression_attribute_values: seq![(":pkval"@, partition_key.1)],
        },
        Some(c) => if is_comparison(c.condition) {
            KeyConditionView {
                expression: "#pk = :pkval"@ + " AND #sk "@ + c.condition + " :skval"@,
                expression_attribute_names: seq![("#pk"@, partition_key.0), ("#sk"@, c.sort_key)],
                expression_attribute_values: seq![
                    (":pkval"@, partition_key.1),
                    (":skval"@, c.value),
                ],
            }
        } else {
            KeyConditionView {
                expression: "#pk = :pkval"@ + " AND #sk BETWEEN :skval AND :skval2"@,
                expression_attribute_names: seq![("#pk"@, partition_key.0), ("#sk"@, c.sort_key)],
                expression_attribute_values: seq![
                    (":pkval"@, partition_key.1),
                    (":skval"@, c.value),
                    (":skval2"@, c.second_value->0),
                ],
            }
        },
    }
}

/// Whether a sort-key condition with this operator takes a second value:
/// only a range does.
pub fn needs_second_value(operator: &str) -> (yes: bool)
    ensures
        yes == (!is_comparison(operator@) && is_between(operator@)),
{
    !operator_is_comparison(operator) && str_eq(operator, "BETWEEN")
}

fn operator_is_comparison(operator: &str) -> (yes: bool)
    ensures
        yes == is_comparison(operator@),
{
    str_eq(operator, "=") || str_eq(operator, "<") || str_eq(operator, "<=") || str_eq(
        operator,
        ">",
    ) || str_eq(operator, ">=")
}

/// The placeholders of a key condition are five different names.
proof fn lemma_placeholder_names()
    ensures
        "#pk"@ != "#sk"@,
        ":pkval"@ != ":skval"@,
        ":pkval"@ != ":skval2"@,
        ":skval"@ != ":skval2"@,
{
    reveal_strlit("#pk");
    reveal_strlit("#sk");
    reveal_strlit(":pkval");
    reveal_strlit(":skval");
    reveal_strlit(":skval2");
    assert("#pk"@[1] != "#sk"@[1]);
    assert(":pkval"@[1] != ":skval"@[1]);
    assert(":pkval"@.len() != ":skval2"@.len());
    assert(":skval"@.len() != ":skval2"@.len());
}

/// Writes the key condition for a partition key and at most one condition
/// on the sort key.
///
/// An operator other than `=`, `<`, `<=`, `>`, `>=` and `BETWEEN` is
/// rejected, and so is `BETWEEN` without a second value. A second value
/// beside a comparison is not used.
pub fn key_condition(
    partition_key: (&str, AttributeValue),
    sort_key_condition: Option<SortKeyCondition>,
) -> (result: Result<KeyCondition, Error>)
    ensures
        match result {
            Ok(condition) => key_condition_error(opt_view(sort_key_condition)) is None
                && condition@ == key_condition_of(
                (partition_key.0@, partition_key.1@),
                opt_view(sort_key_condition),
            ),
            Err(e) => key_condition_error(opt_view(sort_key_condition)) == Some(e),
        },
{
    proof {
        lemma_placeholder_names();
    }
    let mut expression = String::from_str("#pk = :pkval");
    let names: OrderedMap<String> = OrderedMap::new();
    let mut names = names.insert(String::from_str("#pk"), partition_key.0.to_owned());
    let values: OrderedMap<AttributeValue> = OrderedMap::new();
    let mut values = values.insert(String::from_str(":pkval"), partition_key.1);
    assert(names@ =~= seq![("#pk"@, partition_key.0@)]);
    assert(values@ =~= seq![(":pkval"@, partition_key.1@)]);
    match sort_key_condition {
        Some(condition) => {
            let SortKeyCondition { sort_key, condition, value, second_value } = condition;
            if operator_is_comparison(condition.as_str()) {
                expression.append(" AND #sk ");
                expression.append(condition.as_str());
                expression.append(" :skval");
                names = names.insert(String::from_str("#sk"), sort_key);
                values = values.insert(String::from_str(":skval"), value);
                assert(names@ =~= seq![("#pk"@, partition_key.0@), ("#sk"@, sort_key@)]);
                assert(values@ =~= seq![(":pkval"@, partition_key.1@), (":skval"@, value@)]);
            } else if str_eq(condition.as_str(), "BETWEEN") {
                match second_value {
                    Some(second) => {
                        expression.append(" AND #sk BETWEEN :skval AND :skval2");
                        names = names.insert(String::from_str("#sk"), sort_key);
                        values = values.insert(String::from_str(":skval"), value);
                        assert(values@ =~= seq![
                            (":pkval"@, partition_key.1@),
                            (":skval"@, value@),
                        ]);
                        values = values.insert(String::from_str(":skval2"), second);
                        assert(names@ =~= seq![("#pk"@, partition_key.0@), ("#sk"@, sort_key@)]);
                        assert(values@ =~= seq![
                            (":pkval"@, partition_key.1@),
                            (":skval"@, value@),
                            (":skval2"@, second@),
                        ]);
                    },
                    None => {
                        return Err(Error::MissingSecondValue);
                    },
                }
            } else {
                return Err(Error::UnsupportedCondition);
            }
        },
        None => {},
    }
    Ok(
        KeyCondition {
            expression,
            expression_attribute_names: names,
            expression_attribute_values: values,
        },
    )
}

/// Each of the operators `=`, `<`, `<=`, `>` and `>=` yields a key
/// condition with one comparison of the sort key, against the one
/// placeholder `:skval`. `BETWEEN` with two values yields a range over the
/// sort key between the two placeholders `:skval` and `:skval2`. Any other
/// operator is rejected as an unsupported condition, so that no request
/// comes of it.
pub proof fn lemma_operator_coverage(partition_key: (Seq<char>, Value), c: SortKeyConditionView)
    ensures
        c.condition == "="@ || c.condition == "<"@ || c.condition == "<="@ || c.condition == ">"@
            || c.condition == ">="@ ==> {
            let k = key_condition_of(partition_key, Some(c));
            &&& key_condition_error(Some(c)) is None
            &&& k.expression == "#pk = :pkval"@ + " AND #sk "@ + c.condition + " :skval"@
            &&& k.expression_attribute_names == seq![("#pk"@, partition_key.0), ("#sk"@, c.sort_key)]
            &&& k.expression_attribute_values == seq![
                (":pkval"@, partition_key.1),
                (":skval"@, c.value),
            ]
        },
        c.condition == "BETWEEN"@ && c.second_value is Some ==> {
            let k = key_condition_of(partition_key, Some(c));
            &&& key_condition_error(Some(c)) is None
            &&& k.expression == "#pk = :pkval"@ + " AND #sk BETWEEN :skval AND :skval2"@
            &&& k.expression_attribute_values == seq![
                (":pkval"@, partition_key.1),
                (":skval"@, c.value),
                (":skval2"@, c.second_value->0),
            ]
        },
        !is_comparison(c.condition) && c.condition != "BETWEEN"@ ==> key_condition_error(Some(c))
            == Some(Error::UnsupportedCondition),
        key_condition_error(Some(SortKeyConditionView { condition: "~="@, ..c })) == Some(
            Error::UnsupportedCondition,
        ),
{
    reveal_strlit("=");
    reveal_strlit("<");
    reveal_strlit("<=");
    reveal_strlit(">");
    reveal_strlit(">=");
    reveal_strlit("BETWEEN");
    reveal_strlit("~=");
    assert("BETWEEN"@.len() == 7);
    assert("~="@[0] == '~');
}

/// The request of a simple query that is not rejected: the key condition
/// written for the caller, whose value placeholders are stored after the
/// caller's own and replace those of the same name.
pub open spec fn simple_query(
    table_name: Seq<char>,
    partition_key: (Seq<char>, Value),
    sort: Option<SortKeyConditionView>,
    filter_expression: Option<Seq<char>>,
    limit: Option<i32>,
    given: Option<Seq<(Seq<char>, Value)>>,
) -> QueryView {
    let condition = key_condition_of(partition_key, sort);
    QueryView {
        table_name,
        key_condition_expression: condition.expression,
        expression_attribute_names: Some(condition.expression_attribute_names),
        expression_attribute_values: Some(
            extend_entries(
                match given {
                    Some(values) => values,
                    None => Seq::empty(),
                },
                condition.expression_attribute_values,
            ),
        ),
        filter_expression,
        projection_expression: None,
        limit: positive_limit(limit),
        scan_index_forward: None,
        index_name: None,
        exclusive_start_key: None,
    }
}

/// The request of a query by partition key and at most one condition on the
/// sort key. The key-condition expression and its placeholders are written
/// for the caller; `filter_expression` may use the placeholders in
/// `expression_attribute_values`.
///
/// An operator other than `=`, `<`, `<=`, `>`, `>=` and `BETWEEN` is
/// rejected, and so is `BETWEEN` without a second value.
pub fn query_simple(
    table_name: &str,
    partition_key: (&str, AttributeValue),
    sort_key_condition: Option<SortKeyCondition>,
    filter_expression: Option<&str>,
    limit: Option<i32>,
    expression_attribute_values: Option<OrderedMap<AttributeValue>>,
) -> (request: Result<QueryInput, Error>)
    ensures
        match request {
            Ok(input) => key_condition_error(opt_view(sort_key_condition)) is None && input@
                == simple_query(
                table_name@,
                (partition_key.0@, partition_key.1@),
                opt_view(sort_key_condition),
                opt_view(filter_expression),
                limit,
                opt_view(expression_attribute_values),
            ),
            Err(e) => key_condition_error(opt_view(sort_key_condition)) == Some(e),
        },
{
    let condition = match key_condition(partition_key, sort_key_condition) {
        Ok(condition) => condition,
        Err(e) => {
            return Err(e);
        },
    };
    let given = match expression_attribute_values {
        Some(values) => values,
        None => OrderedMap::new(),
    };
    let values = given.extend(&condition.expression_attribute_values);
    Ok(
        query_flexible(
            QueryFlexibleParams {
                table_name,
                key_condition_expression: condition.expression.as_str(),
                expression_attribute_names: Some(condition.expression_attribute_names),
                expression_attribute_values: Some(values),
                filter_expression,
                projection_expression: None,
                limit,
                scan_index_forward: None,
                index_name: None,
                exclusive_start_key: None,
            },
        ),
    )
}

/// The request of a query by partition key and at most one condition on the
/// sort key, without filter or limit.
pub fn query_items(
    table_name: &str,
    partition_key: (&str, AttributeValue),
    sort_key_condition: Option<SortKeyCondition>,
) -> (request: Result<QueryInput, Error>)
    ensures
        match request {
            Ok(input) => key_condition_error(opt_view(sort_key_condition)) is None && input@
                == simple_query(
                table_name@,
                (partition_key.0@, partition_key.1@),
                opt_view(sort_key_condition),
                None,
                None,
                None,
            ),
            Err(e) => key_condition_error(opt_view(sort_key_condition)) == Some(e),
        },
{
    query_simple(table_name, partition_key, sort_key_condition, None, None, None)
}

/// Every placeholder that a key condition binds occurs in its expression.
pub proof fn lemma_key_condition_placeholders_used(
    partition_key: (Seq<char>, Value),
    sort: Option<SortKeyConditionView>,
)
    requires
        key_condition_error(sort) is None,
    ensures
        ({
            let k = key_condition_of(partition_key, sort);
            &&& forall|i: int|
                0 <= i < k.expression_attribute_names.len() ==> occurs_in(
                    k.expression,
                    (#[trigger] k.expression_attribute_names[i]).0,
                )
            &&& forall|i: int|
                0 <= i < k.expression_attribute_values.len() ==> occurs_in(
                    k.expression,
                    (#[trigger] k.expression_attribute_values[i]).0,
                )
        }),
{
    reveal_strlit("#pk = :pkval");
    reveal_strlit("#pk");
    reveal_strlit(" = ");
    reveal_strlit(":pkval");
    reveal_strlit(" AND #sk ");
    reveal_strlit(" AND ");
    reveal_strlit("#sk");
    reveal_strlit(" ");
    reveal_strlit(" :skval");
    reveal_strlit(":skval");
    reveal_strlit(" AND #sk BETWEEN :skval AND :skval2");
    reveal_strlit(" BETWEEN ");
    reveal_strlit(":skval2");
    let empty = Seq::<char>::empty();
    let k = key_condition_of(partition_key, sort);
    let text = k.expression;
    assert("#pk = :pkval"@ =~= "#pk"@ + " = "@ + ":pkval"@);
    match sort {
        None => {
            assert(text =~= empty + "#pk"@ + (" = "@ + ":pkval"@));
            lemma_occurs_between(empty, "#pk"@, " = "@ + ":pkval"@);
            assert(text =~= ("#pk"@ + " = "@) + ":pkval"@ + empty);
            lemma_occurs_between("#pk"@ + " = "@, ":pkval"@, empty);
        },
        Some(c) => {
            if is_comparison(c.condition) {
                let rest = " AND #sk "@ + c.condition + " :skval"@;
                assert(" AND #sk "@ =~= " AND "@ + "#sk"@ + " "@);
                assert(" :skval"@ =~= " "@ + ":skval"@);
                assert(text =~= empty + "#pk"@ + (" = "@ + ":pkval"@ + rest));
                lemma_occurs_between(empty, "#pk"@, " = "@ + ":pkval"@ + rest);
                assert(text =~= ("#pk"@ + " = "@) + ":pkval"@ + rest);
                lemma_occurs_between("#pk"@ + " = "@, ":pkval"@, rest);
                assert(text =~= ("#pk = :pkval"@ + " AND "@) + "#sk"@ + (" "@ + c.condition
                    + " :skval"@));
                lemma_occurs_between(
                    "#pk = :pkval"@ + " AND "@,
                    "#sk"@,
                    " "@ + c.condition + " :skval"@,
                );
                assert(text =~= ("#pk = :pkval"@ + " AND #sk "@ + c.condition + " "@) + ":skval"@
                    + empty);
                lemma_occurs_between(
                    "#pk = :pkval"@ + " AND #sk "@ + c.condition + " "@,
                    ":skval"@,
                    empty,
                );
            } else {
                let range = " AND #sk BETWEEN :skval AND :skval2"@;
                assert(range =~= " AND "@ + "#sk"@ + " BETWEEN "@ + ":skval"@ + " AND "@
                    + ":skval2"@);
                assert(text =~= empty + "#pk"@ + (" = "@ + ":pkval"@ + range));
                lemma_occurs_between(empty, "#pk"@, " = "@ + ":pkval"@ + range);
                assert(text =~= ("#pk"@ + " = "@) + ":pkval"@ + range);
                lemma_occurs_between("#pk"@ + " = "@, ":pkval"@, range);
                assert(text =~= ("#pk = :pkval"@ + " AND "@) + "#sk"@ + (" BETWEEN "@ + ":skval"@
                    + " AND "@ + ":skval2"@));
                lemma_occurs_between(
                    "#pk = :pkval"@ + " AND "@,
                    "#sk"@,
                    " BETWEEN "@ + ":skval"@ + " AND "@ + ":skval2"@,
                );
                assert(text =~= ("#pk = :pkval"@ + " AND "@ + "#sk"@ + " BETWEEN "@) + ":skval"@
                    + (" AND "@ + ":skval2"@));
                lemma_occurs_between(
                    "#pk = :pkval"@ + " AND "@ + "#sk"@ + " BETWEEN "@,
                    ":skval"@,
                    " AND "@ + ":skval2"@,
                );
                assert(text =~= ("#pk = :pkval"@ + " AND "@ + "#sk"@ + " BETWEEN "@ + ":skval"@
                    + " AND "@) + ":skval2"@ + empty);
                lemma_occurs_between(
                    "#pk = :pkval"@ + " AND "@ + "#sk"@ + " BETWEEN "@ + ":skval"@ + " AND "@,
                    ":skval2"@,
                    empty,
                );
            }
        },
    }
}

} // verus!

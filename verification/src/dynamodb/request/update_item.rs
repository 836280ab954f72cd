//! Setting attributes of an item.

use crate::dynamodb::item::{AttributeValue, Item, Value};
use crate::dynamodb::ordered_map::{has_name, put, OrderedMap};
use crate::text::{
    decimal, lemma_decimal_injective, lemma_occurs_between, lemma_occurs_in_part,
    lemma_same_prefix_same_rest, occurs_in, push_decimal,
};
use vstd::prelude::*;
use vstd::string::*;

verus! {

/// The placeholder that stands for the name of the attribute at position `i`.
pub open spec fn name_placeholder(i: nat) -> Seq<char> {
    "#attr"@ + decimal(i)
}

/// The placeholder that stands for the value of the attribute at position `i`.
pub open spec fn value_placeholder(i: nat) -> Seq<char> {
    ":val"@ + decimal(i)
}

/// The assignment of the attribute at position `i`, led by a comma unless it
/// is the first.
pub open spec fn assignment(i: nat) -> Seq<char> {
    (if i == 0 {
        Seq::<char>::empty()
    } else {
        ", "@
    }) + name_placeholder(i) + " = "@ + value_placeholder(i)
}

/// The assignments of the first `n` attributes, separated by commas.
pub open spec fn assignments(n: nat) -> Seq<char>
    decreases n,
{
    if n == 0 {
        Seq::<char>::empty()
    } else {
        assignments((n - 1) as nat) + assignment((n - 1) as nat)
    }
}

/// The update expression that sets `n` attributes:
/// `SET #attr0 = :val0, #attr1 = :val1` and so on.
pub open spec fn update_expression(n: nat) -> Seq<char> {
    "SET "@ + assignments(n)
}

/// The name placeholders of `updates`, each mapped to the attribute's name.
pub open spec fn update_names(updates: Seq<(Seq<char>, Value)>) -> Seq<(Seq<char>, Seq<char>)> {
    Seq::new(updates.len(), |i: int| (name_placeholder(i as nat), updates[i].0))
}

/// The value placeholders of `updates`, each mapped to the attribute's value.
pub open spec fn update_values(updates: Seq<(Seq<char>, Value)>) -> Seq<(Seq<char>, Value)> {
    Seq::new(updates.len(), |i: int| (value_placeholder(i as nat), updates[i].1))
}

/// Placeholders of different positions differ.
pub proof fn lemma_placeholders_differ(i: nat, j: nat)
    requires
        i != j,
    ensures
        name_placeholder(i) != name_placeholder(j),
        value_placeholder(i) != value_placeholder(j),
{
    if name_placeholder(i) == name_placeholder(j) {
        lemma_same_prefix_same_rest("#attr"@, decimal(i), decimal(j));
        lemma_decimal_injective(i, j);
    }
    if value_placeholder(i) == value_placeholder(j) {
        lemma_same_prefix_same_rest(":val"@, decimal(i), decimal(j));
        lemma_decimal_injective(i, j);
    }
}

/// A request to set some attributes of one item.
#[derive(Debug)]
pub struct UpdateItemInput {
    pub table_name: String,
    pub key: Item,
    pub update_expression: String,
    pub expression_attribute_names: OrderedMap<String>,
    pub expression_attribute_values: OrderedMap<AttributeValue>,
}

/// The request that sets the attributes in `updates` on the item with key
/// `key`. The attribute at position `i` is written as `#attr<i> = :val<i>`,
/// and the two placeholders are bound to its name and its value.
pub fn update_item(table_name: &str, key: Item, updates: Item) -> (input: UpdateItemInput)
    ensures
        input.table_name@ == table_name@,
        input.key@ == key@,
        input.update_expression@ == update_expression(updates@.len()),
        input.expression_attribute_names@ == update_names(updates@),
        input.expression_attribute_values@ == update_values(updates@),
{
    let attributes = updates.attributes();
    let n = attributes.len();
    let mut expression = String::from_str("SET ");
    let mut names: OrderedMap<String> = OrderedMap::new();
    let mut values: OrderedMap<AttributeValue> = OrderedMap::new();
    let mut i: usize = 0;
    while i < n
        invariant
            i <= n,
            n == attributes@.len(),
            attributes@ == updates@,
            expression@ == update_expression(i as nat),
            names@ == update_names(updates@.take(i as int)),
            values@ == update_values(updates@.take(i as int)),
        decreases n - i,
    {
        let mut name = String::from_str("#attr");
        push_decimal(&mut name, i);
        let mut value = String::from_str(":val");
        push_decimal(&mut value, i);
        if i > 0 {
            expression.append(", ");
        }
        expression.append(name.as_str());
        expression.append(" = ");
        expression.append(value.as_str());
        proof {
            let ghost_names = names@;
            let ghost_values = values@;
            assert(expression@ =~= update_expression(i as nat) + assignment(i as nat));
            assert(update_expression(i as nat) + assignment(i as nat) =~= update_expression(
                (i + 1) as nat,
            ));
            assert(!has_name(ghost_names, name@)) by {
                assert forall|j: int| 0 <= j < ghost_names.len() implies (
                #[trigger] ghost_names[j]).0 != name@ by {
                    lemma_placeholders_differ(j as nat, i as nat);
                }
            }
            assert(!has_name(ghost_values, value@)) by {
                assert forall|j: int| 0 <= j < ghost_values.len() implies (
                #[trigger] ghost_values[j]).0 != value@ by {
                    lemma_placeholders_differ(j as nat, i as nat);
                }
            }
            assert(updates@.take(i + 1) =~= updates@.take(i as int).push(updates@[i as int]));
            assert(update_names(updates@.take(i + 1)) =~= put(
                ghost_names,
                name@,
                updates@[i as int].0,
            ));
            assert(update_values(updates@.take(i + 1)) =~= put(
                ghost_values,
                value@,
                updates@[i as int].1,
            ));
        }
        names = names.insert(name, attributes.name_at(i).to_owned());
        values = values.insert(value, attributes.value_at(i).clone());
        i += 1;
    }
    proof {
        assert(updates@.take(n as int) =~= updates@);
    }
    UpdateItemInput {
        table_name: table_name.to_owned(),
        key,
        update_expression: expression,
        expression_attribute_names: names,
        expression_attribute_values: values,
    }
}

/// Every placeholder that an update binds occurs in its expression: the
/// expression that sets `n` attributes holds the name placeholder and the
/// value placeholder of each position below `n`.
pub proof fn lemma_update_placeholders_used(n: nat, i: nat)
    requires
        i < n,
    ensures
        occurs_in(update_expression(n), name_placeholder(i)),
        occurs_in(update_expression(n), value_placeholder(i)),
    decreases n,
{
    let empty = Seq::<char>::empty();
    let last = (n - 1) as nat;
    if i == last {
        let lead = if i == 0 {
            empty
        } else {
            ", "@
        };
        let head = "SET "@ + assignments(last) + lead;
        let name = name_placeholder(i);
        let value = value_placeholder(i);
        assert(update_expression(n) =~= head + name + (" = "@ + value));
        lemma_occurs_between(head, name, " = "@ + value);
        assert(update_expression(n) =~= (head + name + " = "@) + value + empty);
        lemma_occurs_between(head + name + " = "@, value, empty);
    } else {
        lemma_update_placeholders_used(last, i);
        assert(update_expression(n) =~= empty + update_expression(last) + assignment(last));
        lemma_occurs_in_part(empty, update_expression(last), assignment(last), name_placeholder(i));
        lemma_occurs_in_part(empty, update_expression(last), assignment(last), value_placeholder(i));
    }
}

} // verus!

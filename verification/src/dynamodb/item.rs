//! Items: attribute names mapped to typed scalar values.

use crate::dynamodb::ordered_map::{lookup, put, Duplicate, OrderedMap};
use vstd::prelude::*;

verus! {

/// A typed scalar. A number travels as its decimal text, as it does on the
/// wire, so no precision is lost on the way.
#[derive(Debug, PartialEq, Eq)]
pub enum AttributeValue {
    /// A string.
    S(String),
    /// A number, written in decimal.
    N(String),
}

/// What an [`AttributeValue`] stands for.
pub enum Value {
    S(Seq<char>),
    N(Seq<char>),
}

impl View for AttributeValue {
    type V = Value;

    open spec fn view(&self) -> Value {
        match self {
            AttributeValue::S(s) => Value::S(s@),
            AttributeValue::N(n) => Value::N(n@),
        }
    }
}

impl Clone for AttributeValue {
    fn clone(&self) -> (copy: Self)
        ensures
            copy@ == self@,
    {
        match self {
            AttributeValue::S(s) => AttributeValue::S(s.clone()),
            AttributeValue::N(n) => AttributeValue::N(n.clone()),
        }
    }
}

impl Duplicate for AttributeValue {
    fn duplicate(&self) -> (copy: Self) {
        self.clone()
    }
}

impl AttributeValue {
    /// The text of the value, whichever its type.
    pub fn text(&self) -> (text: &String)
        ensures
            text@ == value_text(self@),
    {
        match self {
            AttributeValue::S(s) => s,
            AttributeValue::N(n) => n,
        }
    }
}

/// The text a value carries: the string itself, or the number's digits.
pub open spec fn value_text(v: Value) -> Seq<char> {
    match v {
        Value::S(s) => s,
        Value::N(n) => n,
    }
}

/// The string stored under `name`, if the attribute exists and is a string.
pub open spec fn string_at(e: Seq<(Seq<char>, Value)>, name: Seq<char>) -> Option<Seq<char>> {
    match lookup(e, name) {
        Some(Value::S(s)) => Some(s),
        _ => None,
    }
}

/// The number stored under `name`, if the attribute exists and is a number.
pub open spec fn number_at(e: Seq<(Seq<char>, Value)>, name: Seq<char>) -> Option<Seq<char>> {
    match lookup(e, name) {
        Some(Value::N(n)) => Some(n),
        _ => None,
    }
}

/// An item: attributes in the order in which they were first set, no name
/// twice. The same shape serves as a key, as a set of changed attributes, as
/// the values of expression placeholders and as a pagination cursor.
#[derive(Debug)]
pub struct Item {
    attributes: OrderedMap<AttributeValue>,
}

impl View for Item {
    type V = Seq<(Seq<char>, Value)>;

    closed spec fn view(&self) -> Seq<(Seq<char>, Value)> {
        self.attributes@
    }
}

impl Clone for Item {
    fn clone(&self) -> (copy: Self)
        ensures
            copy@ == self@,
    {
        Item { attributes: self.attributes.clone() }
    }
}

impl Default for Item {
    fn default() -> (item: Self)
        ensures
            item@ == Seq::<(Seq<char>, Value)>::empty(),
    {
        Item { attributes: OrderedMap::new() }
    }
}

impl Item {
    /// An item without attributes.
    pub fn new() -> (item: Self)
        ensures
            item@ == Seq::<(Seq<char>, Value)>::empty(),
    {
        Item { attributes: OrderedMap::new() }
    }

    /// Sets a string attribute.
    pub fn set_string(self, key: &str, value: &str) -> (item: Self)
        ensures
            item@ == put(self@, key@, Value::S(value@)),
    {
        self.set(key.to_owned(), AttributeValue::S(value.to_owned()))
    }

    /// Sets a number attribute. `value` is the number in decimal.
    pub fn set_number(self, key: &str, value: &str) -> (item: Self)
        ensures
            item@ == put(self@, key@, Value::N(value@)),
    {
        self.set(key.to_owned(), AttributeValue::N(value.to_owned()))
    }

    /// Sets an attribute of either type.
    pub fn set(self, key: String, value: AttributeValue) -> (item: Self)
        ensures
            item@ == put(self@, key@, value@),
    {
        Item { attributes: self.attributes.insert(key, value) }
    }

    /// The value of a string attribute. `None` if the attribute does not
    /// exist or is not a string.
    pub fn get_string(&self, key: &str) -> (value: Option<&String>)
        ensures
            match value {
                Some(s) => string_at(self@, key@) == Some(s@),
                None => string_at(self@, key@) is None,
            },
    {
        match self.attributes.get(key) {
            Some(AttributeValue::S(s)) => Some(s),
            _ => None,
        }
    }

    /// The decimal text of a number attribute. `None` if the attribute does
    /// not exist or is not a number.
    pub fn get_number(&self, key: &str) -> (value: Option<&String>)
        ensures
            match value {
                Some(n) => number_at(self@, key@) == Some(n@),
                None => number_at(self@, key@) is None,
            },
    {
        match self.attributes.get(key) {
            Some(AttributeValue::N(n)) => Some(n),
            _ => None,
        }
    }

    /// The value of an attribute of either type.
    pub fn get(&self, key: &str) -> (value: Option<&AttributeValue>)
        ensures
            match value {
                Some(v) => lookup(self@, key@) == Some(v@),
                None => lookup(self@, key@) is None,
            },
    {
        self.attributes.get(key)
    }

    /// The attributes, in order.
    pub fn attributes(&self) -> (attributes: &OrderedMap<AttributeValue>)
        ensures
            attributes@ == self@,
    {
        &self.attributes
    }
}

} // verus!

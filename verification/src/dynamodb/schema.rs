//! Table schemas: the declared type of each field.

use crate::dynamodb::ordered_map::{put, Duplicate, OrderedMap};
use vstd::prelude::*;

verus! {

/// The declared type of a field.
#[derive(Clone, Copy, Debug, PartialEq, Eq, Structural)]
pub enum FieldType {
    /// A string field.
    String,
    /// A number field.
    Number,
}

impl View for FieldType {
    type V = FieldType;

    open spec fn view(&self) -> FieldType {
        *self
    }
}

impl Duplicate for FieldType {
    fn duplicate(&self) -> (copy: Self) {
        *self
    }
}

/// The fields of a table, in the order in which they were declared.
#[derive(Debug)]
pub struct Schema {
    fields: OrderedMap<FieldType>,
}

impl View for Schema {
    type V = Seq<(Seq<char>, FieldType)>;

    closed spec fn view(&self) -> Seq<(Seq<char>, FieldType)> {
        self.fields@
    }
}

impl Clone for Schema {
    fn clone(&self) -> (copy: Self)
        ensures
            copy@ == self@,
    {
        Schema { fields: self.fields.clone() }
    }
}

impl Schema {
    /// A schema without fields.
    pub fn new() -> (schema: Self)
        ensures
            schema@ == Seq::<(Seq<char>, FieldType)>::empty(),
    {
        Schema { fields: OrderedMap::new() }
    }

    /// Declares a field. Declaring a name again changes its type and keeps
    /// its place.
    pub fn add_field(self, name: &str, field_type: FieldType) -> (schema: Self)
        ensures
            schema@ == put(self@, name@, field_type),
    {
        Schema { fields: self.fields.insert(name.to_owned(), field_type) }
    }

    /// The declared fields.
    pub fn fields(&self) -> (fields: &OrderedMap<FieldType>)
        ensures
            fields@ == self@,
    {
        &self.fields
    }
}

} // verus!

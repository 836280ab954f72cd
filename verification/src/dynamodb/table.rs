//! Table descriptors.

use crate::dynamodb::schema::{FieldType, Schema};
use vstd::prelude::*;

verus! {

/// What a [`Table`] stands for.
pub struct TableView {
    pub name: Seq<char>,
    pub partition_key: Seq<char>,
    pub sort_key: Option<Seq<char>>,
    pub schema: Option<Seq<(Seq<char>, FieldType)>>,
}

/// A table: its name, its key attributes and, optionally, its schema.
#[derive(Debug)]
pub struct Table<'a> {
    name: &'a str,
    partition_key: &'a str,
    sort_key: Option<&'a str>,
    schema: Option<Schema>,
}

impl<'a> View for Table<'a> {
    type V = TableView;

    closed spec fn view(&self) -> TableView {
        TableView {
            name: self.name@,
            partition_key: self.partition_key@,
            sort_key: match self.sort_key {
                Some(k) => Some(k@),
                None => None,
            },
            schema: match self.schema {
                Some(s) => Some(s@),
                None => None,
            },
        }
    }
}

impl<'a> Table<'a> {
    /// A table without a schema.
    pub fn new(name: &'a str, partition_key: &'a str, sort_key: Option<&'a str>) -> (table: Self)
        ensures
            table@ == (TableView {
                name: name@,
                partition_key: partition_key@,
                sort_key: match sort_key {
                    Some(k) => Some(k@),
                    None => None,
                },
                schema: None,
            }),
    {
        Table { name, partition_key, sort_key, schema: None }
    }

    /// The name of the table.
    pub fn name(&self) -> (name: &str)
        ensures
            name@ == self@.name,
    {
        self.name
    }

    /// The name of the partition key attribute.
    pub fn partition_key(&self) -> (key: &str)
        ensures
            key@ == self@.partition_key,
    {
        self.partition_key
    }

    /// The name of the sort key attribute, if the table has one.
    pub fn sort_key(&self) -> (key: Option<&str>)
        ensures
            match key {
                Some(k) => self@.sort_key == Some(k@),
                None => self@.sort_key is None,
            },
    {
        self.sort_key
    }

    /// The same table with `schema` as its schema.
    pub fn with_schema(self, schema: Schema) -> (table: Self)
        ensures
            table@ == (TableView { schema: Some(schema@), ..self@ }),
    {
        Table {
            name: self.name,
            partition_key: self.partition_key,
            sort_key: self.sort_key,
            schema: Some(schema),
        }
    }

    /// The schema of the table, if one was set.
    pub fn schema(&self) -> (schema: Option<&Schema>)
        ensures
            match schema {
                Some(s) => self@.schema == Some(s@),
                None => self@.schema is None,
            },
    {
        self.schema.as_ref()
    }
}

} // verus!

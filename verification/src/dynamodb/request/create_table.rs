//! Creating a table unless it exists.

use crate::dynamodb::table::{Table, TableView};
use crate::text::str_eq;
use vstd::prelude::*;

verus! {

/// The type of a key attribute.
#[derive(Clone, Copy, Debug, PartialEq, Eq, Structural)]
pub enum ScalarAttributeType {
    /// String.
    S,
    /// Number.
    N,
}

/// The role of an attribute in the primary key.
#[derive(Clone, Copy, Debug, PartialEq, Eq, Structural)]
pub enum KeyType {
    /// The partition key.
    Hash,
    /// The sort key.
    Range,
}

/// How a table is billed.
#[derive(Clone, Copy, Debug, PartialEq, Eq, Structural)]
pub enum BillingMode {
    /// Pay for each request.
    PayPerRequest,
    /// Pay for provisioned capacity.
    Provisioned,
}

/// The declaration of a key attribute.
#[derive(Debug)]
pub struct AttributeDefinition {
    pub attribute_name: String,
    pub attribute_type: ScalarAttributeType,
}

impl View for AttributeDefinition {
    type V = (Seq<char>, ScalarAttributeType);

    open spec fn view(&self) -> (Seq<char>, ScalarAttributeType) {
        (self.attribute_name@, self.attribute_type)
    }
}

/// One attribute of the primary key.
#[derive(Debug)]
pub struct KeySchemaElement {
    pub attribute_name: String,
    pub key_type: KeyType,
}

impl View for KeySchemaElement {
    type V = (Seq<char>, KeyType);

    open spec fn view(&self) -> (Seq<char>, KeyType) {
        (self.attribute_name@, self.key_type)
    }
}

/// A request to create a table.
#[derive(Debug)]
pub struct CreateTableInput {
    pub table_name: String,
    pub billing_mode: BillingMode,
    pub attribute_definitions: Vec<AttributeDefinition>,
    pub key_schema: Vec<KeySchemaElement>,
}

/// What a [`CreateTableInput`] stands for.
pub struct CreateTableView {
    pub table_name: Seq<char>,
    pub billing_mode: BillingMode,
    pub attribute_definitions: Seq<(Seq<char>, ScalarAttributeType)>,
    pub key_schema: Seq<(Seq<char>, KeyType)>,
}

impl View for CreateTableInput {
    type V = CreateTableView;

    open spec fn view(&self) -> CreateTableView {
        CreateTableView {
            table_name: self.table_name@,
            billing_mode: self.billing_mode,
            attribute_definitions: self.attribute_definitions@.map_values(
                |d: AttributeDefinition| d@,
            ),
            key_schema: self.key_schema@.map_values(|k: KeySchemaElement| k@),
        }
    }
}

/// The texts of a list of strings.
pub open spec fn texts(names: Seq<String>) -> Seq<Seq<char>> {
    names.map_values(|s: String| s@)
}

/// The request that creates `table`: billed per request, with the partition
/// key as hash key and the sort key, if any, as range key, both strings.
pub open spec fn create_table_input(table: TableView) -> CreateTableView {
    CreateTableView {
        table_name: table.name,
        billing_mode: BillingMode::PayPerRequest,
        attribute_definitions: match table.sort_key {
            Some(sort_key) => seq![
                (table.partition_key, ScalarAttributeType::S),
                (sort_key, ScalarAttributeType::S),
            ],
            None => seq![(table.partition_key, ScalarAttributeType::S)],
        },
        key_schema: match table.sort_key {
            Some(sort_key) => seq![(table.partition_key, KeyType::Hash), (sort_key, KeyType::Range)],
            None => seq![(table.partition_key, KeyType::Hash)],
        },
    }
}

/// What creating `table` if it does not exist comes to, when `table_names`
/// are the tables that exist: nothing for a table that is there already,
/// else the request that creates it.
pub open spec fn create_table_plan(table_names: Seq<Seq<char>>, table: TableView) -> Option<
    CreateTableView,
> {
    if table_names.contains(table.name) {
        None
    } else {
        Some(create_table_input(table))
    }
}

/// Whether `table_name` is among `table_names`, the names that the service
/// listed.
pub fn table_exists(table_names: &Vec<String>, table_name: &str) -> (exists: bool)
    ensures
        exists == texts(table_names@).contains(table_name@),
{
    let mut i: usize = 0;
    while i < table_names.len()
        invariant
            i <= table_names.len(),
            forall|j: int| 0 <= j < i ==> (#[trigger] texts(table_names@)[j]) != table_name@,
        decreases table_names.len() - i,
    {
        if str_eq(table_names[i].as_str(), table_name) {
            assert(texts(table_names@)[i as int] == table_name@);
            return true;
        }
        i += 1;
    }
    false
}

/// The request that creates `table`, or `None` if `table_names`, the names
/// that the service listed, show that it exists already.
pub fn create_table_if_not_exists(table_names: &Vec<String>, table: &Table<'_>) -> (request: Option<
    CreateTableInput,
>)
    ensures
        match request {
            Some(input) => create_table_plan(texts(table_names@), table@) == Some(input@),
            None => create_table_plan(texts(table_names@), table@) is None,
        },
{
    if table_exists(table_names, table.name()) {
        return None;
    }
    let mut attribute_definitions: Vec<AttributeDefinition> = Vec::new();
    attribute_definitions.push(
        AttributeDefinition {
            attribute_name: table.partition_key().to_owned(),
            attribute_type: ScalarAttributeType::S,
        },
    );
    let mut key_schema: Vec<KeySchemaElement> = Vec::new();
    key_schema.push(
        KeySchemaElement { attribute_name: table.partition_key().to_owned(), key_type: KeyType::Hash },
    );
    if let Some(sort_key) = table.sort_key() {
        attribute_definitions.push(
            AttributeDefinition {
                attribute_name: sort_key.to_owned(),
                attribute_type: ScalarAttributeType::S,
            },
        );
        key_schema.push(
            KeySchemaElement { attribute_name: sort_key.to_owned(), key_type: KeyType::Range },
        );
    }
    let input = CreateTableInput {
        table_name: table.name().to_owned(),
        billing_mode: BillingMode::PayPerRequest,
        attribute_definitions,
        key_schema,
    };
    proof {
        let want = create_table_input(table@);
        assert(input@.attribute_definitions =~= want.attribute_definitions);
        assert(input@.key_schema =~= want.key_schema);
    }
    Some(input)
}

/// The tables that exist once the outcome of [`create_table_plan`] has been
/// carried out.
pub open spec fn tables_after_create(table_names: Seq<Seq<char>>, table: TableView) -> Seq<
    Seq<char>,
> {
    if create_table_plan(table_names, table) is Some {
        table_names.push(table.name)
    } else {
        table_names
    }
}

/// Creating a table if it does not exist is idempotent: after a first call
/// the table exists, a second call makes no request, and so leaves the
/// tables as the first call left them.
pub proof fn lemma_create_table_idempotent(table_names: Seq<Seq<char>>, table: TableView)
    ensures
        create_table_plan(tables_after_create(table_names, table), table) is None,
        tables_after_create(tables_after_create(table_names, table), table) == tables_after_create(
            table_names,
            table,
        ),
{
    let after = tables_after_create(table_names, table);
    if create_table_plan(table_names, table) is Some {
        assert(after[table_names.len() as int] == table.name);
    }
}

} // verus!

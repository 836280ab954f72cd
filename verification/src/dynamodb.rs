//! The values a DynamoDB request is made of: items, schemas, tables, and the
//! requests themselves.

pub mod item;
pub mod ordered_map;
pub mod request;
pub mod schema;
pub mod table;

pub use item::{AttributeValue, Item};
pub use ordered_map::OrderedMap;
pub use schema::{FieldType, Schema};
pub use table::Table;

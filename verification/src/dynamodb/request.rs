//! Requests, built from plain values and ready to be sent.
//!
//! Each function here assembles one request and performs no I/O. The caller
//! sends the request and hands back what the service answered.

pub mod create_table;
pub mod query;
pub mod scan;
pub mod update_item;

pub use create_table::{
    create_table_if_not_exists, table_exists, AttributeDefinition, BillingMode, CreateTableInput,
    KeySchemaElement, KeyType, ScalarAttributeType,
};
pub use query::{
    key_condition, needs_second_value, query_flexible, query_items, query_simple, KeyCondition,
    QueryFlexibleParams, QueryInput, SortKeyCondition,
};
pub use scan::{scan, scan_paginated, scan_table, Page, Pager, ScanInput};
pub use update_item::{update_item, UpdateItemInput};

use vstd::prelude::*;

verus! {

/// The value behind an optional value.
pub open spec fn opt_view<T: View>(o: Option<T>) -> Option<T::V> {
    match o {
        Some(t) => Some(t@),
        None => None,
    }
}

/// A limit as the service takes it: a positive number, or none at all.
pub open spec fn positive_limit(limit: Option<i32>) -> Option<i32> {
    match limit {
        Some(n) if n > 0 => Some(n),
        _ => None,
    }
}

pub(crate) fn owned_text(text: Option<&str>) -> (owned: Option<String>)
    ensures
        opt_view(owned) == opt_view(text),
{
    match text {
        Some(t) => Some(t.to_owned()),
        None => None,
    }
}

pub(crate) fn limit_if_positive(limit: Option<i32>) -> (kept: Option<i32>)
    ensures
        kept == positive_limit(limit),
{
    match limit {
        Some(n) => if n > 0 {
            Some(n)
        } else {
            None
        },
        None => None,
    }
}

} // verus!

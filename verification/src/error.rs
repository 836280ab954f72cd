//! Local failures: input that is rejected before any request is made.

use vstd::prelude::*;

verus! {

/// Why an input was rejected.
#[derive(Clone, Copy, Debug, PartialEq, Eq, Structural)]
pub enum Error {
    /// The sort-key operator of a simple query is not one of `=`, `<`,
    /// `<=`, `>`, `>=` and `BETWEEN`.
    UnsupportedCondition,
    /// A `BETWEEN` condition came with one bound only.
    MissingSecondValue,
    /// A value's type tag is neither `S` nor `N`.
    UnsupportedValueType,
    /// The operation goes field by field and the table has no schema.
    SchemaNotDefined,
}

impl Error {
    /// A short description of the failure.
    pub fn message(&self) -> (text: &'static str)
        ensures
            text@ == match *self {
                Error::UnsupportedCondition => "Unsupported condition"@,
                Error::MissingSecondValue => "BETWEEN needs two values"@,
                Error::UnsupportedValueType => "Unsupported value type"@,
                Error::SchemaNotDefined => "Table schema not defined"@,
            },
    {
        match self {
            Error::UnsupportedCondition => "Unsupported condition",
            Error::MissingSecondValue => "BETWEEN needs two values",
            Error::UnsupportedValueType => "Unsupported value type",
            Error::SchemaNotDefined => "Table schema not defined",
        }
    }
}

} // verus!

//! Errors raised while mapping database rows onto records.

use vstd::prelude::*;
use vstd::string::StringExecFns;

verus! {

/// Error raised while mapping a database row onto a record.
#[derive(Debug)]
pub enum FromRowError {
    /// A column was not found in the row.
    ColumnNotFound(String),
    /// A type conversion failed when reading a column value.
    Conversion(String),
}

/// The text of a row-mapping error.
pub open spec fn from_row_error_text(e: FromRowError) -> Seq<char> {
    match e {
        FromRowError::ColumnNotFound(col) => "Column not found: "@ + col@,
        FromRowError::Conversion(msg) => "Conversion error: "@ + msg@,
    }
}

impl FromRowError {
    /// The text of the error: `Column not found: <column>` or
    /// `Conversion error: <message>`.
    pub fn to_string(&self) -> (r: String)
        ensures
            r@ == from_row_error_text(*self),
    {
        match self {
            FromRowError::ColumnNotFound(col) => {
                let mut out = "Column not found: ".to_owned();
                out.append(col.as_str());
                out
            },
            FromRowError::Conversion(msg) => {
                let mut out = "Conversion error: ".to_owned();
                out.append(msg.as_str());
                out
            },
        }
    }
}

/// The row-mapping error for a failed read of `column`. A failure with an
/// underlying cause is a conversion failure, described as
/// `<column>: <error_text>`; one without a cause means the column is missing.
pub fn map_err(column: &str, has_source: bool, error_text: &str) -> (r: FromRowError)
    ensures
        has_source ==> (r matches FromRowError::Conversion(msg) && msg@ == column@ + ": "@
            + error_text@),
        !has_source ==> (r matches FromRowError::ColumnNotFound(col) && col@ == column@),
{
    if has_source {
        let mut msg = column.to_owned();
        msg.append(": ");
        msg.append(error_text);
        FromRowError::Conversion(msg)
    } else {
        FromRowError::ColumnNotFound(column.to_owned())
    }
}

} // verus!

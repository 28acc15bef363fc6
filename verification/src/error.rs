//! Failures of introspection and validation, and the messages they carry.

use crate::catalog::CatalogRead;
use vstd::prelude::*;

verus! {

/// Result code under which the engine reports a failure without a code of
/// its own.
pub const GENERIC_ERROR: i32 = 1;

/// Why the shape or the eligibility of a table could not be determined.
///
/// A table that was examined and found ineligible is no error.
#[derive(Debug, PartialEq, Eq)]
pub enum SchemaError {
    /// A catalog query could not be prepared or run.
    QueryFailure {
        /// Result code of the engine.
        code: i32,
        /// Names the table and the read that failed.
        message: String,
    },
    /// The column listing and the column count of the table disagree.
    SchemaMismatch {
        /// Describes the disagreement.
        message: String,
    },
}

/// Mathematical model of a [`SchemaError`].
pub enum SchemaErrorModel {
    QueryFailure { code: int, message: Seq<char> },
    SchemaMismatch { message: Seq<char> },
}

impl View for SchemaError {
    type V = SchemaErrorModel;

    open spec fn view(&self) -> SchemaErrorModel {
        match self {
            SchemaError::QueryFailure { code, message } => SchemaErrorModel::QueryFailure {
                code: *code as int,
                message: message@,
            },
            SchemaError::SchemaMismatch { message } => SchemaErrorModel::SchemaMismatch {
                message: message@,
            },
        }
    }
}

impl SchemaErrorModel {
    /// The result code under which the failure is reported.
    pub open spec fn code(self) -> int {
        match self {
            SchemaErrorModel::QueryFailure { code, .. } => code,
            SchemaErrorModel::SchemaMismatch { .. } => GENERIC_ERROR as int,
        }
    }

    /// The text that describes the failure.
    pub open spec fn message(self) -> Seq<char> {
        match self {
            SchemaErrorModel::QueryFailure { message, .. } => message,
            SchemaErrorModel::SchemaMismatch { message } => message,
        }
    }
}

impl SchemaError {
    /// The result code under which the failure is reported to the engine: the
    /// code of the failed query, or the generic code for a mismatch.
    pub fn code(&self) -> (code: i32)
        ensures
            code == self@.code(),
    {
        match self {
            SchemaError::QueryFailure { code, .. } => *code,
            SchemaError::SchemaMismatch { .. } => GENERIC_ERROR,
        }
    }

    /// The text that describes the failure.
    pub fn message(&self) -> (message: &str)
        ensures
            message@ == self@.message(),
    {
        match self {
            SchemaError::QueryFailure { message, .. } => message.as_str(),
            SchemaError::SchemaMismatch { message } => message.as_str(),
        }
    }
}

/// How the message of a failed read begins; the name of the table follows.
pub open spec fn failure_prefix(read: CatalogRead) -> Seq<char> {
    match read {
        CatalogRead::ColumnCount => "Failed to find columns for crr -- "@,
        CatalogRead::Columns => "Failed to prepare select for crr -- "@,
        CatalogRead::Indexes => "Failed to list indices for crr -- "@,
        CatalogRead::SchemaText => "Failed to read schema text for crr -- "@,
        CatalogRead::ForeignKeys => "Failed to count foreign keys for crr -- "@,
        CatalogRead::ExtendedColumns => "Failed to list column defaults for crr -- "@,
    }
}

/// The message of a read of `table` that failed.
pub open spec fn failure_message(read: CatalogRead, table: Seq<char>) -> Seq<char> {
    failure_prefix(read) + table
}

/// The message of a column listing that disagrees with the column count.
pub open spec fn mismatch_message() -> Seq<char> {
    "Number of fetched columns did not match expected number of columns"@
}

/// The failure of `read` on `table` under result code `code`.
pub open spec fn query_failure(read: CatalogRead, table: Seq<char>, code: int) -> SchemaErrorModel {
    SchemaErrorModel::QueryFailure { code, message: failure_message(read, table) }
}

/// The disagreement of column listing and column count.
pub open spec fn schema_mismatch() -> SchemaErrorModel {
    SchemaErrorModel::SchemaMismatch { message: mismatch_message() }
}

impl SchemaError {
    /// The failure of `read` on `table` under result code `code`.
    pub fn query_failure(read: CatalogRead, table: &str, code: i32) -> (error: SchemaError)
        ensures
            error@ == query_failure(read, table@, code as int),
    {
        let prefix = match read {
            CatalogRead::ColumnCount => "Failed to find columns for crr -- ",
            CatalogRead::Columns => "Failed to prepare select for crr -- ",
            CatalogRead::Indexes => "Failed to list indices for crr -- ",
            CatalogRead::SchemaText => "Failed to read schema text for crr -- ",
            CatalogRead::ForeignKeys => "Failed to count foreign keys for crr -- ",
            CatalogRead::ExtendedColumns => "Failed to list column defaults for crr -- ",
        };
        let mut message = String::from_str(prefix);
        message.append(table);
        SchemaError::QueryFailure { code, message }
    }

    /// The disagreement of column listing and column count.
    pub fn schema_mismatch() -> (error: SchemaError)
        ensures
            error@ == schema_mismatch(),
    {
        SchemaError::SchemaMismatch {
            message: String::from_str(
                "Number of fetched columns did not match expected number of columns",
            ),
        }
    }
}

} // verus!

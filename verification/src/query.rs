//! The text of each catalog read, for the caller to run.

use crate::catalog::CatalogRead;
use vstd::prelude::*;

verus! {

/// A catalog read made ready for the engine.
#[derive(Debug, PartialEq, Eq)]
pub struct Query {
    /// The statement to prepare.
    pub sql: String,
    /// The text to bind to the one parameter of the statement, if it has one.
    pub parameter: Option<String>,
}

/// Mathematical model of a [`Query`].
pub struct QueryModel {
    pub sql: Seq<char>,
    pub parameter: Option<Seq<char>>,
}

impl View for Query {
    type V = QueryModel;

    open spec fn view(&self) -> QueryModel {
        QueryModel {
            sql: self.sql@,
            parameter: match self.parameter {
                Some(text) => Some(text@),
                None => None,
            },
        }
    }
}

/// The part of the statement of `read` that stands before the table name.
pub open spec fn sql_head(read: CatalogRead) -> Seq<char> {
    match read {
        CatalogRead::ColumnCount => "SELECT count(*) FROM pragma_table_info('"@,
        CatalogRead::Columns =>
            "SELECT \"cid\", \"name\", \"type\", \"notnull\", \"pk\" FROM pragma_table_info('"@,
        CatalogRead::Indexes => "SELECT \"name\", \"unique\", \"origin\" FROM pragma_index_list('"@,
        CatalogRead::SchemaText =>
            "SELECT \"sql\" FROM sqlite_master WHERE name = ? AND type = 'table' LIMIT 1"@,
        CatalogRead::ForeignKeys => "SELECT count(*) FROM pragma_foreign_key_list('"@,
        CatalogRead::ExtendedColumns =>
            "SELECT \"notnull\", \"dflt_value\" IS NOT NULL, \"pk\" FROM pragma_table_xinfo('"@,
    }
}

/// The part of the statement of `read` that stands behind the table name.
pub open spec fn sql_tail(read: CatalogRead) -> Seq<char> {
    match read {
        CatalogRead::Columns => "') ORDER BY cid ASC"@,
        _ => "')"@,
    }
}

/// The query that makes `read` on the table `table`.
///
/// The creation statement is looked up with the table name as a bound
/// parameter; every other read names the table in the text of the statement.
pub open spec fn query_for(read: CatalogRead, table: Seq<char>) -> QueryModel {
    match read {
        CatalogRead::SchemaText => QueryModel { sql: sql_head(read), parameter: Some(table) },
        _ => QueryModel { sql: sql_head(read) + table + sql_tail(read), parameter: None },
    }
}

impl CatalogRead {
    /// The query that makes this read on the table `table`.
    pub fn query(self, table: &str) -> (query: Query)
        ensures
            query@ == query_for(self, table@),
    {
        let head = match self {
            CatalogRead::ColumnCount => "SELECT count(*) FROM pragma_table_info('",
            CatalogRead::Columns =>
                "SELECT \"cid\", \"name\", \"type\", \"notnull\", \"pk\" FROM pragma_table_info('",
            CatalogRead::Indexes =>
                "SELECT \"name\", \"unique\", \"origin\" FROM pragma_index_list('",
            CatalogRead::SchemaText =>
                "SELECT \"sql\" FROM sqlite_master WHERE name = ? AND type = 'table' LIMIT 1",
            CatalogRead::ForeignKeys => "SELECT count(*) FROM pragma_foreign_key_list('",
            CatalogRead::ExtendedColumns =>
                "SELECT \"notnull\", \"dflt_value\" IS NOT NULL, \"pk\" FROM pragma_table_xinfo('",
        };
        let mut sql = String::from_str(head);
        match self {
            CatalogRead::SchemaText => Query { sql, parameter: Some(String::from_str(table)) },
            _ => {
                let tail = match self {
                    CatalogRead::Columns => "') ORDER BY cid ASC",
                    _ => "')",
                };
                sql.append(table);
                sql.append(tail);
                Query { sql, parameter: None }
            },
        }
    }
}

} // verus!

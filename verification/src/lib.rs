//! Schema introspection and eligibility checks for turning a relational table
//! into a conflict-free replicated relation.
//!
//! The library never talks to a database. Its two entry points,
//! [`pull_table_info`] and [`is_table_compatible`], take the answers that the
//! catalog has given so far and return the next step: the shape or the
//! verdict, the reason why there is none, or the one catalog read that is
//! still missing. The caller runs the [`query::Query`] of that read, records
//! the answer and asks again. Every decision taken on the answers is made,
//! and proved, here.

pub mod catalog;
pub mod column;
mod convert;
pub mod eligibility;
pub mod error;
pub mod filter;
pub mod introspect;
pub mod order;
pub mod query;

pub use catalog::{CatalogRead, ColumnReads, ExtendedColumn, IndexInfo, Reading, SchemaReads};
pub use column::{ColumnInfo, TableInfo};
pub use eligibility::{is_table_compatible, Eligibility, Rule};
pub use error::SchemaError;
pub use introspect::{pull_table_info, Introspection};
pub use query::Query;

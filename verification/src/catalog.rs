//! The catalog reads that the library asks its caller to make, and the
//! records in which the caller hands back what the catalog answered.

use crate::column::{ColumnInfo, ColumnModel};
use vstd::prelude::*;

verus! {

/// One read-only query against the catalog of the database engine.
#[derive(Debug, Clone, Copy, PartialEq, Eq, Structural)]
pub enum CatalogRead {
    /// The number of columns of the table: one row of one integer.
    ColumnCount,
    /// The columns of the table, ordered by `cid`: a row of `cid`, `name`,
    /// `type`, `notnull` and `pk` for each.
    Columns,
    /// The indexes declared on the table: a row of `name`, `unique` and
    /// `origin` for each.
    Indexes,
    /// The stored text of the statement that created the table: one row of
    /// one text, or no row.
    SchemaText,
    /// The number of foreign-key constraints that the table declares: one
    /// row of one integer.
    ForeignKeys,
    /// The columns of the table, hidden ones included: for each a row of
    /// `notnull`, of whether a default value is declared, and of `pk`.
    ExtendedColumns,
}

/// What is known of the answer to one catalog read.
#[derive(Debug, PartialEq, Eq)]
pub enum Reading<T> {
    /// The read has not been made.
    Pending,
    /// The engine failed to prepare or run the query; its result code.
    Failed(i32),
    /// The catalog answered.
    Answer(T),
}

impl<T> Reading<T> {
    /// Records how a read ended: with the answer of the catalog, or with the
    /// result code under which the engine failed.
    pub fn from_result(outcome: Result<T, i32>) -> (reading: Reading<T>)
        ensures
            reading == (match outcome {
                Ok(answer) => Reading::Answer(answer),
                Err(code) => Reading::Failed(code),
            }),
    {
        match outcome {
            Ok(answer) => Reading::Answer(answer),
            Err(code) => Reading::Failed(code),
        }
    }
}

impl<T: DeepView> DeepView for Reading<T> {
    type V = Reading<T::V>;

    open spec fn deep_view(&self) -> Reading<T::V> {
        match self {
            Reading::Pending => Reading::Pending,
            Reading::Failed(code) => Reading::Failed(*code),
            Reading::Answer(answer) => Reading::Answer(answer.deep_view()),
        }
    }
}

/// One index of a table, as the catalog lists it.
#[derive(Debug, PartialEq, Eq)]
pub struct IndexInfo {
    /// Identifier of the index.
    pub name: String,
    /// Whether the index enforces uniqueness.
    pub unique: bool,
    /// Why the index exists: `"pk"` for one derived from the primary key,
    /// `"u"` for one derived from a UNIQUE constraint, `"c"` for one created
    /// by a statement of its own.
    pub origin: String,
}

/// Mathematical model of an [`IndexInfo`].
pub struct IndexModel {
    pub name: Seq<char>,
    pub unique: bool,
    pub origin: Seq<char>,
}

impl View for IndexInfo {
    type V = IndexModel;

    open spec fn view(&self) -> IndexModel {
        IndexModel { name: self.name@, unique: self.unique, origin: self.origin@ }
    }
}

impl DeepView for IndexInfo {
    type V = IndexModel;

    open spec fn deep_view(&self) -> IndexModel {
        self@
    }
}

/// What the extended column listing says of one column.
#[derive(Debug, Clone, Copy, PartialEq, Eq)]
pub struct ExtendedColumn {
    /// Whether the column rejects NULL.
    pub notnull: bool,
    /// Whether the column declares a default value.
    pub has_default: bool,
    /// Key rank of the column; 0 outside the primary key.
    pub pk: i32,
}

impl DeepView for ExtendedColumn {
    type V = ExtendedColumn;

    /// The value is its own model.
    open spec fn deep_view(&self) -> ExtendedColumn {
        *self
    }
}

/// The answers on which a table is introspected.
#[derive(Debug, PartialEq, Eq)]
pub struct ColumnReads {
    /// Answer to [`CatalogRead::ColumnCount`].
    pub count: Reading<i32>,
    /// Answer to [`CatalogRead::Columns`].
    pub columns: Reading<Vec<ColumnInfo>>,
}

/// Mathematical model of a [`ColumnReads`].
pub struct ColumnFacts {
    pub count: Reading<i32>,
    pub columns: Reading<Seq<ColumnModel>>,
}

impl View for ColumnReads {
    type V = ColumnFacts;

    open spec fn view(&self) -> ColumnFacts {
        ColumnFacts { count: self.count.deep_view(), columns: self.columns.deep_view() }
    }
}

impl ColumnReads {
    /// A record in which no read has been made.
    pub fn new() -> (reads: ColumnReads)
        ensures
            reads@ == (ColumnFacts { count: Reading::Pending, columns: Reading::Pending }),
    {
        ColumnReads { count: Reading::Pending, columns: Reading::Pending }
    }
}

/// The answers on which the eligibility of a table is decided.
#[derive(Debug, PartialEq, Eq)]
pub struct SchemaReads {
    /// Answer to [`CatalogRead::Indexes`].
    pub indexes: Reading<Vec<IndexInfo>>,
    /// Answer to [`CatalogRead::Columns`].
    pub columns: Reading<Vec<ColumnInfo>>,
    /// Answer to [`CatalogRead::SchemaText`]; `None` where the catalog stores
    /// no creation statement for the table.
    pub schema_text: Reading<Option<String>>,
    /// Answer to [`CatalogRead::ForeignKeys`].
    pub foreign_keys: Reading<i32>,
    /// Answer to [`CatalogRead::ExtendedColumns`].
    pub extended_columns: Reading<Vec<ExtendedColumn>>,
}

/// Mathematical model of a [`SchemaReads`].
pub struct SchemaFacts {
    pub indexes: Reading<Seq<IndexModel>>,
    pub columns: Reading<Seq<ColumnModel>>,
    pub schema_text: Reading<Option<Seq<char>>>,
    pub foreign_keys: Reading<i32>,
    pub extended_columns: Reading<Seq<ExtendedColumn>>,
}

impl View for SchemaReads {
    type V = SchemaFacts;

    open spec fn view(&self) -> SchemaFacts {
        SchemaFacts {
            indexes: self.indexes.deep_view(),
            columns: self.columns.deep_view(),
            schema_text: self.schema_text.deep_view(),
            foreign_keys: self.foreign_keys.deep_view(),
            extended_columns: self.extended_columns.deep_view(),
        }
    }
}

impl SchemaReads {
    /// A record in which no read has been made.
    pub fn new() -> (reads: SchemaReads)
        ensures
            reads@ == (SchemaFacts {
                indexes: Reading::Pending,
                columns: Reading::Pending,
                schema_text: Reading::Pending,
                foreign_keys: Reading::Pending,
                extended_columns: Reading::Pending,
            }),
    {
        SchemaReads {
            indexes: Reading::Pending,
            columns: Reading::Pending,
            schema_text: Reading::Pending,
            foreign_keys: Reading::Pending,
            extended_columns: Reading::Pending,
        }
    }
}

} // verus!

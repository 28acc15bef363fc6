//! Columns and tables as the replication layer sees them.

use vstd::prelude::*;

verus! {

/// One column of a table, as the catalog lists it.
#[derive(Debug, PartialEq, Eq)]
pub struct ColumnInfo {
    /// Position of the column in declaration order, counted from 0.
    pub cid: i32,
    /// Identifier of the column, unique within its table.
    pub name: String,
    /// Declared type text; may be empty.
    pub type_: String,
    /// Whether the column rejects NULL.
    pub notnull: bool,
    /// 0 for a column outside the primary key; otherwise the 1-based position
    /// of the column in the declaration of the primary key.
    pub pk: i32,
}

/// Mathematical model of a [`ColumnInfo`].
pub struct ColumnModel {
    pub cid: int,
    pub name: Seq<char>,
    pub type_: Seq<char>,
    pub notnull: bool,
    pub pk: int,
}

impl View for ColumnInfo {
    type V = ColumnModel;

    open spec fn view(&self) -> ColumnModel {
        ColumnModel {
            cid: self.cid as int,
            name: self.name@,
            type_: self.type_@,
            notnull: self.notnull,
            pk: self.pk as int,
        }
    }
}

impl DeepView for ColumnInfo {
    type V = ColumnModel;

    open spec fn deep_view(&self) -> ColumnModel {
        self@
    }
}

impl Clone for ColumnInfo {
    fn clone(&self) -> (copy: Self)
        ensures
            copy == *self,
    {
        ColumnInfo {
            cid: self.cid,
            name: self.name.clone(),
            type_: self.type_.clone(),
            notnull: self.notnull,
            pk: self.pk,
        }
    }
}

/// The replication-relevant shape of one table.
#[derive(Debug, PartialEq, Eq)]
pub struct TableInfo {
    /// Identifier of the table.
    pub tbl_name: String,
    /// The primary-key columns, in the order in which the key declares them.
    pub pks: Vec<ColumnInfo>,
    /// Every other column, in catalog order.
    pub non_pks: Vec<ColumnInfo>,
}

/// Mathematical model of a [`TableInfo`].
pub struct TableModel {
    pub tbl_name: Seq<char>,
    pub pks: Seq<ColumnModel>,
    pub non_pks: Seq<ColumnModel>,
}

impl TableModel {
    /// Every key column has a positive key rank and none stands before one of
    /// a smaller rank; every value column has no positive key rank.
    pub open spec fn well_formed(self) -> bool {
        &&& forall|i: int| 0 <= i < self.pks.len() ==> (#[trigger] self.pks[i]).pk > 0
        &&& forall|i: int, j: int|
            0 <= i < j < self.pks.len() ==> self.pks[i].pk <= self.pks[j].pk
        &&& forall|i: int| 0 <= i < self.non_pks.len() ==> (#[trigger] self.non_pks[i]).pk <= 0
    }
}

impl View for TableInfo {
    type V = TableModel;

    open spec fn view(&self) -> TableModel {
        TableModel {
            tbl_name: self.tbl_name@,
            pks: self.pks.deep_view(),
            non_pks: self.non_pks.deep_view(),
        }
    }
}

} // verus!

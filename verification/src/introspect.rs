//! Assembling the shape of a table from what the catalog says of its columns.

use crate::catalog::{CatalogRead, ColumnFacts, ColumnReads, Reading};
use crate::column::{ColumnInfo, ColumnModel, TableInfo, TableModel};
use crate::convert::to_usize;
use crate::error::{query_failure, schema_mismatch, SchemaError, SchemaErrorModel, GENERIC_ERROR};
use crate::filter::lemma_filter_member;
use crate::order::{
    in_key, is_rank_order_of, key_columns, lemma_distinct_ranks_ascend_strictly,
    lemma_partition_keeps_columns, lemma_partition_len,
    lemma_rank_order_keeps_columns, lemma_rank_order_members, lemma_rank_order_unique,
    outside_key, partition_columns, ranks_distinct, sort_by_rank, strictly_ascending_by_rank,
    value_columns,
};
use vstd::prelude::*;

verus! {

/// Where the introspection of a table stands.
#[derive(Debug, PartialEq, Eq)]
pub enum Introspection {
    /// The caller is to make this read, record its answer and ask again.
    Read(CatalogRead),
    /// The shape of the table.
    Table(TableInfo),
    /// The shape could not be determined.
    Failed(SchemaError),
}

/// Mathematical model of an [`Introspection`].
pub enum IntrospectionModel {
    Read(CatalogRead),
    Table(TableModel),
    Failed(SchemaErrorModel),
}

impl View for Introspection {
    type V = IntrospectionModel;

    open spec fn view(&self) -> IntrospectionModel {
        match self {
            Introspection::Read(read) => IntrospectionModel::Read(*read),
            Introspection::Table(table) => IntrospectionModel::Table(table@),
            Introspection::Failed(error) => IntrospectionModel::Failed(error@),
        }
    }
}

/// `shape` describes the table `table` whose catalog lists the columns `cols`:
/// its value columns stand in catalog order, its key columns in ascending
/// order of key rank.
pub open spec fn is_shape_of(shape: TableModel, table: Seq<char>, cols: Seq<ColumnModel>) -> bool {
    &&& shape.tbl_name == table
    &&& shape.non_pks == value_columns(cols)
    &&& is_rank_order_of(shape.pks, key_columns(cols))
}

/// `step` is what the introspection of `table` comes to on the answers `facts`.
///
/// The column count is read first. A count that failed, or that is negative,
/// ends the introspection; the column listing is then never asked for. A
/// listing whose length is not the count ends it with a mismatch.
pub open spec fn introspects(table: Seq<char>, facts: ColumnFacts, step: IntrospectionModel) -> bool {
    match facts.count {
        Reading::Pending => step == IntrospectionModel::Read(CatalogRead::ColumnCount),
        Reading::Failed(code) => step == IntrospectionModel::Failed(
            query_failure(CatalogRead::ColumnCount, table, code as int),
        ),
        Reading::Answer(count) => if count < 0 {
            step == IntrospectionModel::Failed(
                query_failure(CatalogRead::ColumnCount, table, GENERIC_ERROR as int),
            )
        } else {
            match facts.columns {
                Reading::Pending => step == IntrospectionModel::Read(CatalogRead::Columns),
                Reading::Failed(code) => step == IntrospectionModel::Failed(
                    query_failure(CatalogRead::Columns, table, code as int),
                ),
                Reading::Answer(cols) => if cols.len() != count {
                    step == IntrospectionModel::Failed(schema_mismatch())
                } else {
                    step matches IntrospectionModel::Table(shape) && is_shape_of(shape, table, cols)
                },
            }
        },
    }
}

/// Builds the shape of the table `table` from the columns `cols` that the
/// catalog lists for it.
pub fn assemble_table_info(table: &str, cols: &Vec<ColumnInfo>) -> (info: TableInfo)
    ensures
        is_shape_of(info@, table@, cols.deep_view()),
        info@.well_formed(),
{
    let (mut pks, non_pks) = partition_columns(cols);
    sort_by_rank(&mut pks);
    let info = TableInfo { tbl_name: String::from_str(table), pks, non_pks };
    proof {
        lemma_shape_is_well_formed(info@, table@, cols.deep_view());
    }
    info
}

/// Introspects the table `table` as far as the answers in `reads` allow.
///
/// Returns the read that is needed next, or, once `reads` holds enough, the
/// shape of the table or the reason why it cannot be had.
pub fn pull_table_info(table: &str, reads: &ColumnReads) -> (step: Introspection)
    ensures
        introspects(table@, reads@, step@),
        step@ matches IntrospectionModel::Table(shape) ==> shape.well_formed(),
{
    let count = match &reads.count {
        Reading::Pending => {
            return Introspection::Read(CatalogRead::ColumnCount);
        },
        Reading::Failed(code) => {
            return Introspection::Failed(
                SchemaError::query_failure(CatalogRead::ColumnCount, table, *code),
            );
        },
        Reading::Answer(count) => *count,
    };
    let columns_len = match to_usize(count) {
        Some(len) => len,
        None => {
            return Introspection::Failed(
                SchemaError::query_failure(CatalogRead::ColumnCount, table, GENERIC_ERROR),
            );
        },
    };
    match &reads.columns {
        Reading::Pending => Introspection::Read(CatalogRead::Columns),
        Reading::Failed(code) => Introspection::Failed(
            SchemaError::query_failure(CatalogRead::Columns, table, *code),
        ),
        Reading::Answer(cols) => {
            if cols.len() != columns_len {
                Introspection::Failed(SchemaError::schema_mismatch())
            } else {
                Introspection::Table(assemble_table_info(table, cols))
            }
        },
    }
}

/// The key columns and the value columns of a shape together hold each column
/// of the catalog as often as the catalog lists it: none is lost, none added.
pub proof fn lemma_shape_keeps_columns(shape: TableModel, table: Seq<char>, cols: Seq<ColumnModel>)
    requires
        is_shape_of(shape, table, cols),
    ensures
        shape.pks.to_multiset().add(shape.non_pks.to_multiset()) == cols.to_multiset(),
{
    lemma_rank_order_keeps_columns(shape.pks, key_columns(cols));
    lemma_partition_keeps_columns(cols);
}

/// A table with `n` declared columns is introspected to exactly `n` columns,
/// each of them either a key column or a value column.
pub proof fn lemma_every_column_is_kept(
    table: Seq<char>,
    facts: ColumnFacts,
    step: IntrospectionModel,
    n: i32,
    cols: Seq<ColumnModel>,
)
    requires
        facts.count == Reading::Answer(n),
        facts.columns == Reading::Answer(cols),
        cols.len() == n,
        introspects(table, facts, step),
    ensures
        step is Table,
        step->Table_0.pks.len() + step->Table_0.non_pks.len() == n,
{
    lemma_partition_len(cols);
}

/// A shape is well formed: its key columns have positive ranks and never
/// descend in rank, and its value columns have no positive rank.
pub proof fn lemma_shape_is_well_formed(shape: TableModel, table: Seq<char>, cols: Seq<ColumnModel>)
    requires
        is_shape_of(shape, table, cols),
    ensures
        shape.well_formed(),
{
    assert forall|i: int| 0 <= i < shape.pks.len() implies (#[trigger] shape.pks[i]).pk > 0 by {
        lemma_rank_order_members(shape.pks, key_columns(cols), i);
        lemma_filter_member(cols, in_key(), shape.pks[i]);
    }
    assert forall|i: int| 0 <= i < shape.non_pks.len() implies (#[trigger] shape.non_pks[i]).pk
        <= 0 by {
        assert(shape.non_pks.contains(shape.non_pks[i]));
        lemma_filter_member(cols, outside_key(), shape.non_pks[i]);
    }
}

/// The key columns of an introspected table never descend in key rank, and
/// ascend strictly where no two key columns of the catalog share a rank.
pub proof fn lemma_key_columns_ascend(
    table: Seq<char>,
    facts: ColumnFacts,
    step: IntrospectionModel,
)
    requires
        introspects(table, facts, step),
        step is Table,
    ensures
        facts.columns is Answer,
        forall|i: int, j: int|
            0 <= i < j < step->Table_0.pks.len() ==> step->Table_0.pks[i].pk
                <= step->Table_0.pks[j].pk,
        ranks_distinct(key_columns(facts.columns->Answer_0)) ==> strictly_ascending_by_rank(
            step->Table_0.pks,
        ),
{
    let cols = facts.columns->Answer_0;
    if ranks_distinct(key_columns(cols)) {
        lemma_distinct_ranks_ascend_strictly(step->Table_0.pks, key_columns(cols));
    }
}

/// A column listing whose length is not the column count is a mismatch,
/// whatever the listing holds.
pub proof fn lemma_disagreement_is_mismatch(
    table: Seq<char>,
    facts: ColumnFacts,
    step: IntrospectionModel,
    n: i32,
    cols: Seq<ColumnModel>,
)
    requires
        n >= 0,
        facts.count == Reading::Answer(n),
        facts.columns == Reading::Answer(cols),
        cols.len() != n,
        introspects(table, facts, step),
    ensures
        step == IntrospectionModel::Failed(schema_mismatch()),
        step->Failed_0 is SchemaMismatch,
{
}

/// Only a read that has not been made is asked for: the column count while
/// it is pending, the listing once the count is known and not negative.
pub proof fn lemma_asks_for_pending_reads(
    table: Seq<char>,
    facts: ColumnFacts,
    step: IntrospectionModel,
)
    requires
        introspects(table, facts, step),
    ensures
        step is Read ==> step->Read_0 == CatalogRead::ColumnCount || step->Read_0
            == CatalogRead::Columns,
        step == IntrospectionModel::Read(CatalogRead::ColumnCount) <==> facts.count is Pending,
        step == IntrospectionModel::Read(CatalogRead::Columns) <==> facts.count is Answer
            && facts.count->Answer_0 >= 0 && facts.columns is Pending,
{
}

/// Introspection is a function of the table name and the recorded answers:
/// on the same answers it comes to the same step.
pub proof fn lemma_introspection_is_repeatable(
    table: Seq<char>,
    facts: ColumnFacts,
    first: IntrospectionModel,
    second: IntrospectionModel,
)
    requires
        introspects(table, facts, first),
        introspects(table, facts, second),
    ensures
        first == second,
{
    if first is Table {
        let cols = facts.columns->Answer_0;
        lemma_rank_order_unique(first->Table_0.pks, second->Table_0.pks, key_columns(cols));
    }
}

} // verus!

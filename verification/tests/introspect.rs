use crr_schema::catalog::{CatalogRead, ColumnReads, Reading};
use crr_schema::column::{ColumnInfo, TableInfo};
use crr_schema::error::{SchemaError, GENERIC_ERROR};
use crr_schema::introspect::{assemble_table_info, pull_table_info, Introspection};

fn col(cid: i32, name: &str, type_: &str, notnull: bool, pk: i32) -> ColumnInfo {
    ColumnInfo { cid, name: name.to_string(), type_: type_.to_string(), notnull, pk }
}

fn answered(count: i32, cols: Vec<ColumnInfo>) -> ColumnReads {
    ColumnReads { count: Reading::Answer(count), columns: Reading::Answer(cols) }
}

fn table_of(step: Introspection) -> TableInfo {
    match step {
        Introspection::Table(info) => info,
        other => panic!("no table: {:?}", other),
    }
}

#[test]
fn asks_for_the_column_count_first() {
    let reads = ColumnReads::new();
    assert_eq!(reads.count, Reading::Pending);
    assert_eq!(reads.columns, Reading::Pending);
    assert_eq!(pull_table_info("todo", &reads), Introspection::Read(CatalogRead::ColumnCount));
}

#[test]
fn asks_for_the_count_even_if_the_listing_is_there() {
    let reads = ColumnReads {
        count: Reading::Pending,
        columns: Reading::Answer(vec![col(0, "id", "INTEGER", true, 1)]),
    };
    assert_eq!(pull_table_info("todo", &reads), Introspection::Read(CatalogRead::ColumnCount));
}

#[test]
fn asks_for_the_listing_after_the_count() {
    let reads = ColumnReads { count: Reading::Answer(3), columns: Reading::Pending };
    assert_eq!(pull_table_info("todo", &reads), Introspection::Read(CatalogRead::Columns));
}

#[test]
fn failed_count_is_a_query_failure_with_the_code() {
    let reads = ColumnReads { count: Reading::Failed(5), columns: Reading::Pending };
    let step = pull_table_info("todo", &reads);
    assert_eq!(
        step,
        Introspection::Failed(SchemaError::QueryFailure {
            code: 5,
            message: "Failed to find columns for crr -- todo".to_string(),
        })
    );
}

#[test]
fn failed_count_ends_before_the_listing_is_looked_at() {
    let reads = ColumnReads {
        count: Reading::Failed(14),
        columns: Reading::Answer(vec![col(0, "id", "INTEGER", true, 1)]),
    };
    match pull_table_info("t", &reads) {
        Introspection::Failed(error) => {
            assert_eq!(error.code(), 14);
            assert_eq!(error.message(), "Failed to find columns for crr -- t");
        }
        other => panic!("unexpected {:?}", other),
    }
}

#[test]
fn negative_count_is_a_generic_query_failure() {
    let reads = ColumnReads { count: Reading::Answer(-1), columns: Reading::Pending };
    assert_eq!(
        pull_table_info("todo", &reads),
        Introspection::Failed(SchemaError::QueryFailure {
            code: GENERIC_ERROR,
            message: "Failed to find columns for crr -- todo".to_string(),
        })
    );
    let lowest = ColumnReads { count: Reading::Answer(i32::MIN), columns: Reading::Answer(vec![]) };
    assert_eq!(
        pull_table_info("todo", &lowest),
        Introspection::Failed(SchemaError::QueryFailure {
            code: 1,
            message: "Failed to find columns for crr -- todo".to_string(),
        })
    );
}

#[test]
fn failed_listing_is_a_query_failure_with_the_code() {
    let reads = ColumnReads { count: Reading::Answer(2), columns: Reading::Failed(21) };
    assert_eq!(
        pull_table_info("notes", &reads),
        Introspection::Failed(SchemaError::QueryFailure {
            code: 21,
            message: "Failed to prepare select for crr -- notes".to_string(),
        })
    );
}

#[test]
fn short_listing_is_a_schema_mismatch() {
    let reads = answered(3, vec![col(0, "id", "INTEGER", true, 1), col(1, "body", "TEXT", false, 0)]);
    let step = pull_table_info("notes", &reads);
    assert_eq!(
        step,
        Introspection::Failed(SchemaError::SchemaMismatch {
            message: "Number of fetched columns did not match expected number of columns"
                .to_string(),
        })
    );
    match step {
        Introspection::Failed(error) => assert_eq!(error.code(), GENERIC_ERROR),
        other => panic!("unexpected {:?}", other),
    }
}

#[test]
fn long_listing_is_a_schema_mismatch() {
    let reads = answered(1, vec![col(0, "id", "INTEGER", true, 1), col(1, "body", "TEXT", false, 0)]);
    assert_eq!(pull_table_info("notes", &reads), Introspection::Failed(SchemaError::schema_mismatch()));
    let none_expected = answered(0, vec![col(0, "id", "INTEGER", true, 1)]);
    assert_eq!(
        pull_table_info("notes", &none_expected),
        Introspection::Failed(SchemaError::schema_mismatch())
    );
}

#[test]
fn single_key_table_is_split_into_key_and_values() {
    let cols = vec![
        col(0, "id", "INTEGER", true, 1),
        col(1, "title", "TEXT", true, 0),
        col(2, "done", "", false, 0),
    ];
    let info = table_of(pull_table_info("todo", &answered(3, cols)));
    assert_eq!(
        info,
        TableInfo {
            tbl_name: "todo".to_string(),
            pks: vec![col(0, "id", "INTEGER", true, 1)],
            non_pks: vec![col(1, "title", "TEXT", true, 0), col(2, "done", "", false, 0)],
        }
    );
}

#[test]
fn every_declared_column_is_returned() {
    let cols = vec![
        col(0, "a", "INT", false, 0),
        col(1, "b", "INT", true, 2),
        col(2, "c", "INT", false, 0),
        col(3, "d", "INT", true, 1),
        col(4, "e", "INT", false, 0),
    ];
    let info = table_of(pull_table_info("t", &answered(5, cols)));
    assert_eq!(info.pks.len() + info.non_pks.len(), 5);
    assert_eq!(info.pks.len(), 2);
    assert_eq!(info.non_pks.len(), 3);
    let mut names: Vec<String> =
        info.pks.iter().chain(info.non_pks.iter()).map(|c| c.name.clone()).collect();
    names.sort();
    assert_eq!(names, vec!["a", "b", "c", "d", "e"]);
}

#[test]
fn composite_key_comes_out_in_declared_order() {
    let cols = vec![
        col(0, "zone", "TEXT", true, 3),
        col(1, "payload", "BLOB", false, 0),
        col(2, "tenant", "TEXT", true, 1),
        col(3, "id", "INTEGER", true, 2),
    ];
    let info = table_of(pull_table_info("events", &answered(4, cols)));
    assert_eq!(
        info.pks,
        vec![
            col(2, "tenant", "TEXT", true, 1),
            col(3, "id", "INTEGER", true, 2),
            col(0, "zone", "TEXT", true, 3),
        ]
    );
    assert_eq!(info.non_pks, vec![col(1, "payload", "BLOB", false, 0)]);
    for pair in info.pks.windows(2) {
        assert!(pair[0].pk < pair[1].pk);
    }
}

#[test]
fn value_columns_keep_catalog_order() {
    let cols = vec![
        col(0, "z", "", false, 0),
        col(1, "k", "", true, 1),
        col(2, "a", "", false, 0),
        col(3, "m", "", false, 0),
    ];
    let info = table_of(pull_table_info("t", &answered(4, cols)));
    let names: Vec<&str> = info.non_pks.iter().map(|c| c.name.as_str()).collect();
    assert_eq!(names, vec!["z", "a", "m"]);
}

#[test]
fn table_without_key_has_no_key_columns() {
    let cols = vec![col(0, "a", "TEXT", false, 0), col(1, "b", "TEXT", false, 0)];
    let info = table_of(pull_table_info("log", &answered(2, cols)));
    assert!(info.pks.is_empty());
    assert_eq!(info.non_pks, vec![col(0, "a", "TEXT", false, 0), col(1, "b", "TEXT", false, 0)]);
}

#[test]
fn table_without_columns_is_empty() {
    let info = table_of(pull_table_info("nothing", &answered(0, vec![])));
    assert_eq!(info, TableInfo { tbl_name: "nothing".to_string(), pks: vec![], non_pks: vec![] });
}

#[test]
fn negative_rank_counts_as_outside_the_key() {
    let cols = vec![col(0, "a", "", false, -1), col(1, "b", "", true, 1)];
    let info = table_of(pull_table_info("t", &answered(2, cols)));
    assert_eq!(info.pks, vec![col(1, "b", "", true, 1)]);
    assert_eq!(info.non_pks, vec![col(0, "a", "", false, -1)]);
}

#[test]
fn columns_of_equal_rank_keep_catalog_order() {
    let cols = vec![
        col(0, "first", "", true, 2),
        col(1, "second", "", true, 1),
        col(2, "third", "", true, 2),
        col(3, "fourth", "", true, 1),
    ];
    let info = table_of(pull_table_info("t", &answered(4, cols)));
    let names: Vec<&str> = info.pks.iter().map(|c| c.name.as_str()).collect();
    assert_eq!(names, vec!["second", "fourth", "first", "third"]);
    for pair in info.pks.windows(2) {
        assert!(pair[0].pk <= pair[1].pk);
    }
}

#[test]
fn introspecting_twice_gives_equal_results() {
    let reads = answered(
        3,
        vec![col(0, "b", "TEXT", true, 2), col(1, "a", "TEXT", true, 1), col(2, "v", "", false, 0)],
    );
    let first = pull_table_info("pairs", &reads);
    let second = pull_table_info("pairs", &reads);
    assert_eq!(first, second);
    let again = answered(
        3,
        vec![col(0, "b", "TEXT", true, 2), col(1, "a", "TEXT", true, 1), col(2, "v", "", false, 0)],
    );
    assert_eq!(first, pull_table_info("pairs", &again));
}

#[test]
fn table_name_is_carried_over() {
    let info = assemble_table_info("my table", &vec![col(0, "id", "", true, 1)]);
    assert_eq!(info.tbl_name, "my table");
    assert_eq!(info.pks, vec![col(0, "id", "", true, 1)]);
    assert!(info.non_pks.is_empty());
}

#[test]
fn largest_count_needs_as_many_columns() {
    let reads = answered(i32::MAX, vec![col(0, "id", "", true, 1)]);
    assert_eq!(pull_table_info("t", &reads), Introspection::Failed(SchemaError::schema_mismatch()));
}

#[test]
fn error_reports_code_and_message() {
    let failure = SchemaError::query_failure(CatalogRead::Indexes, "t", 7);
    assert_eq!(failure.code(), 7);
    assert_eq!(failure.message(), "Failed to list indices for crr -- t");
    let mismatch = SchemaError::schema_mismatch();
    assert_eq!(mismatch.code(), 1);
    assert_eq!(
        mismatch.message(),
        "Number of fetched columns did not match expected number of columns"
    );
    assert_eq!(
        SchemaError::query_failure(CatalogRead::SchemaText, "t", 1).message(),
        "Failed to read schema text for crr -- t"
    );
    assert_eq!(
        SchemaError::query_failure(CatalogRead::ForeignKeys, "t", 1).message(),
        "Failed to count foreign keys for crr -- t"
    );
    assert_eq!(
        SchemaError::query_failure(CatalogRead::ExtendedColumns, "t", 1).message(),
        "Failed to list column defaults for crr -- t"
    );
}

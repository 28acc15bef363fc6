use crr_schema::{
    is_table_compatible, pull_table_info, CatalogRead, ColumnInfo, ColumnReads, Eligibility,
    Introspection, Query, Reading, SchemaReads, TableInfo,
};

fn text(read: CatalogRead, table: &str) -> String {
    read.query(table).sql
}

#[test]
fn counting_queries_name_the_table() {
    assert_eq!(
        CatalogRead::ColumnCount.query("todo"),
        Query { sql: "SELECT count(*) FROM pragma_table_info('todo')".to_string(), parameter: None }
    );
    assert_eq!(
        CatalogRead::ForeignKeys.query("todo"),
        Query {
            sql: "SELECT count(*) FROM pragma_foreign_key_list('todo')".to_string(),
            parameter: None,
        }
    );
}

#[test]
fn listing_queries_name_the_table() {
    assert_eq!(
        text(CatalogRead::Columns, "todo"),
        "SELECT \"cid\", \"name\", \"type\", \"notnull\", \"pk\" FROM pragma_table_info('todo') ORDER BY cid ASC"
    );
    assert_eq!(
        text(CatalogRead::Indexes, "todo"),
        "SELECT \"name\", \"unique\", \"origin\" FROM pragma_index_list('todo')"
    );
    assert_eq!(
        text(CatalogRead::ExtendedColumns, "todo"),
        "SELECT \"notnull\", \"dflt_value\" IS NOT NULL, \"pk\" FROM pragma_table_xinfo('todo')"
    );
    assert_eq!(CatalogRead::Columns.query("t").parameter, None);
    assert_eq!(CatalogRead::Indexes.query("t").parameter, None);
    assert_eq!(CatalogRead::ExtendedColumns.query("t").parameter, None);
}

#[test]
fn schema_text_query_binds_the_table_name() {
    assert_eq!(
        CatalogRead::SchemaText.query("todo"),
        Query {
            sql: "SELECT \"sql\" FROM sqlite_master WHERE name = ? AND type = 'table' LIMIT 1"
                .to_string(),
            parameter: Some("todo".to_string()),
        }
    );
}

#[test]
fn table_name_is_put_into_the_text_as_it_is() {
    assert_eq!(text(CatalogRead::ColumnCount, ""), "SELECT count(*) FROM pragma_table_info('')");
    assert_eq!(
        text(CatalogRead::ColumnCount, "my table"),
        "SELECT count(*) FROM pragma_table_info('my table')"
    );
}

#[test]
fn outcome_of_a_read_is_recorded() {
    assert_eq!(Reading::from_result(Ok::<i32, i32>(3)), Reading::Answer(3));
    assert_eq!(Reading::from_result(Err::<i32, i32>(11)), Reading::Failed(11));
    assert_eq!(
        Reading::from_result(Ok::<Vec<i32>, i32>(vec![1, 2])),
        Reading::Answer(vec![1, 2])
    );
}

#[test]
fn fresh_records_hold_no_answer() {
    let columns = ColumnReads::new();
    assert_eq!(columns, ColumnReads { count: Reading::Pending, columns: Reading::Pending });
    let schema = SchemaReads::new();
    assert_eq!(schema.indexes, Reading::Pending);
    assert_eq!(schema.columns, Reading::Pending);
    assert_eq!(schema.schema_text, Reading::Pending);
    assert_eq!(schema.foreign_keys, Reading::Pending);
    assert_eq!(schema.extended_columns, Reading::Pending);
}

/// Answers the reads of a table `todo (id PRIMARY KEY, title)` the way a
/// caller would, until the library is done.
#[test]
fn introspection_runs_to_its_end() {
    let mut reads = ColumnReads::new();
    let mut asked = Vec::new();
    let info = loop {
        match pull_table_info("todo", &reads) {
            Introspection::Read(CatalogRead::ColumnCount) => {
                asked.push(CatalogRead::ColumnCount);
                reads.count = Reading::from_result(Ok(2));
            }
            Introspection::Read(read) => {
                asked.push(read);
                reads.columns = Reading::from_result(Ok(vec![
                    ColumnInfo {
                        cid: 0,
                        name: "id".to_string(),
                        type_: "TEXT".to_string(),
                        notnull: true,
                        pk: 1,
                    },
                    ColumnInfo {
                        cid: 1,
                        name: "title".to_string(),
                        type_: "TEXT".to_string(),
                        notnull: false,
                        pk: 0,
                    },
                ]));
            }
            Introspection::Table(info) => break info,
            Introspection::Failed(error) => panic!("failed: {:?}", error),
        }
    };
    assert_eq!(asked, vec![CatalogRead::ColumnCount, CatalogRead::Columns]);
    assert_eq!(
        info,
        TableInfo {
            tbl_name: "todo".to_string(),
            pks: vec![ColumnInfo {
                cid: 0,
                name: "id".to_string(),
                type_: "TEXT".to_string(),
                notnull: true,
                pk: 1,
            }],
            non_pks: vec![ColumnInfo {
                cid: 1,
                name: "title".to_string(),
                type_: "TEXT".to_string(),
                notnull: false,
                pk: 0,
            }],
        }
    );
}

#[test]
fn validation_stops_at_a_failed_read() {
    let mut reads = SchemaReads::new();
    let mut asked = Vec::new();
    let step = loop {
        match is_table_compatible("todo", &reads) {
            Eligibility::Read(CatalogRead::Indexes) => {
                asked.push(CatalogRead::Indexes);
                reads.indexes = Reading::from_result(Ok(vec![]));
            }
            Eligibility::Read(read) => {
                asked.push(read);
                reads.columns = Reading::from_result(Err(5));
            }
            done => break done,
        }
    };
    assert_eq!(asked, vec![CatalogRead::Indexes, CatalogRead::Columns]);
    match step {
        Eligibility::Failed(error) => {
            assert_eq!(error.code(), 5);
            assert_eq!(error.message(), "Failed to prepare select for crr -- todo");
        }
        other => panic!("unexpected {:?}", other),
    }
}

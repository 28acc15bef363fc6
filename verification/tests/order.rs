use crr_schema::column::ColumnInfo;
use crr_schema::order::{partition_columns, sort_by_rank};

fn ranked(name: &str, pk: i32) -> ColumnInfo {
    ColumnInfo { cid: 0, name: name.to_string(), type_: String::new(), notnull: false, pk }
}

fn names(cols: &[ColumnInfo]) -> Vec<&str> {
    cols.iter().map(|c| c.name.as_str()).collect()
}

#[test]
fn partition_of_nothing_is_two_empty_parts() {
    let (keys, values) = partition_columns(&vec![]);
    assert!(keys.is_empty());
    assert!(values.is_empty());
}

#[test]
fn partition_keeps_the_order_of_each_part() {
    let cols = vec![ranked("a", 0), ranked("b", 2), ranked("c", 0), ranked("d", 1), ranked("e", -3)];
    let (keys, values) = partition_columns(&cols);
    assert_eq!(names(&keys), vec!["b", "d"]);
    assert_eq!(names(&values), vec!["a", "c", "e"]);
    assert_eq!(keys.len() + values.len(), cols.len());
}

#[test]
fn partition_copies_every_field() {
    let cols = vec![ColumnInfo {
        cid: 7,
        name: "id".to_string(),
        type_: "INTEGER".to_string(),
        notnull: true,
        pk: 1,
    }];
    let (keys, _) = partition_columns(&cols);
    assert_eq!(keys, cols);
    assert_eq!(keys[0].clone(), cols[0]);
}

#[test]
fn sort_orders_by_rank() {
    let mut cols = vec![ranked("c", 3), ranked("a", 1), ranked("d", 4), ranked("b", 2)];
    sort_by_rank(&mut cols);
    assert_eq!(names(&cols), vec!["a", "b", "c", "d"]);
}

#[test]
fn sort_is_stable() {
    let mut cols =
        vec![ranked("x", 2), ranked("y", 1), ranked("z", 2), ranked("w", 1), ranked("v", 2)];
    sort_by_rank(&mut cols);
    assert_eq!(names(&cols), vec!["y", "w", "x", "z", "v"]);
}

#[test]
fn sort_leaves_sorted_and_short_input_alone() {
    let mut none: Vec<ColumnInfo> = vec![];
    sort_by_rank(&mut none);
    assert!(none.is_empty());
    let mut one = vec![ranked("a", 5)];
    sort_by_rank(&mut one);
    assert_eq!(names(&one), vec!["a"]);
    let mut sorted = vec![ranked("a", 1), ranked("b", 2), ranked("c", 3)];
    sort_by_rank(&mut sorted);
    assert_eq!(names(&sorted), vec!["a", "b", "c"]);
}

#[test]
fn sort_reverses_descending_input() {
    let mut cols = vec![ranked("e", 5), ranked("d", 4), ranked("c", 3), ranked("b", 2), ranked("a", 1)];
    sort_by_rank(&mut cols);
    assert_eq!(names(&cols), vec!["a", "b", "c", "d", "e"]);
    let ranks: Vec<i32> = cols.iter().map(|c| c.pk).collect();
    assert_eq!(ranks, vec![1, 2, 3, 4, 5]);
}

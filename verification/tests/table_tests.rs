use grid_store::ledger::MAX_COMMIT_NUM;
use grid_store::table::{AnyRow, InvariantViolation, Row, VersionedTable};

fn scope(name: &str) -> Option<String> {
    Some(name.to_string())
}

fn key(name: &str) -> String {
    name.to_string()
}

fn row(name: &str, tenant: Option<String>, start: i64, end: i64, payload: i64) -> Row<String, i64> {
    Row {
        key: key(name),
        service_id: tenant,
        start_commit_num: start,
        end_commit_num: end,
        payload,
    }
}

#[test]
fn insert_current_stores_a_current_row() {
    let mut table: VersionedTable<String, i64> = VersionedTable::new();
    assert_eq!(table.insert_current(key("a"), None, 3, 10), Ok(()));
    assert_eq!(table.len(), 1);
    assert_eq!(table.read_current(&key("a"), &None), Some(&row("a", None, 3, MAX_COMMIT_NUM, 10)));
    assert_eq!(table.row(0), &row("a", None, 3, MAX_COMMIT_NUM, 10));
}

#[test]
fn insert_current_refuses_a_second_current_row() {
    let mut table: VersionedTable<String, i64> = VersionedTable::new();
    table.insert_current(key("a"), None, 3, 10).unwrap();
    assert_eq!(table.insert_current(key("a"), None, 4, 11), Err(InvariantViolation));
    assert_eq!(table.len(), 1);
    assert_eq!(table.read_current(&key("a"), &None).unwrap().payload, 10);
}

#[test]
fn insert_current_refuses_a_row_that_would_overlap_history() {
    let mut table: VersionedTable<String, i64> = VersionedTable::new();
    table.insert_current(key("a"), None, 3, 10).unwrap();
    table.close_current(&key("a"), &None, 8).unwrap();
    assert_eq!(table.insert_current(key("a"), None, 7, 11), Err(InvariantViolation));
    assert_eq!(table.insert_current(key("a"), None, 8, 11), Ok(()));
    assert!(!table.accepts_insert(&key("a"), &None, 9));
    assert!(table.accepts_insert(&key("b"), &None, 1));
}

#[test]
fn insert_current_refuses_the_sentinel_as_a_start() {
    let mut table: VersionedTable<String, i64> = VersionedTable::new();
    assert_eq!(table.insert_current(key("a"), None, MAX_COMMIT_NUM, 1), Err(InvariantViolation));
    assert_eq!(table.len(), 0);
}

#[test]
fn close_current_ends_the_current_row_and_returns_its_payload() {
    let mut table: VersionedTable<String, i64> = VersionedTable::new();
    table.insert_current(key("a"), None, 3, 10).unwrap();
    assert_eq!(table.close_current(&key("a"), &None, 5), Ok(Some(10)));
    assert_eq!(table.read_current(&key("a"), &None), None);
    assert_eq!(table.row(0), &row("a", None, 3, 5, 10));
}

#[test]
fn close_current_returns_none_where_nothing_is_current() {
    let mut table: VersionedTable<String, i64> = VersionedTable::new();
    assert_eq!(table.close_current(&key("a"), &None, 5), Ok(None));
    table.insert_current(key("a"), None, 3, 10).unwrap();
    assert_eq!(table.close_current(&key("b"), &None, 5), Ok(None));
    assert_eq!(table.close_current(&key("a"), &scope("t"), 5), Ok(None));
    assert_eq!(table.len(), 1);
    assert_eq!(table.read_current(&key("a"), &None).unwrap().end_commit_num, MAX_COMMIT_NUM);
}

#[test]
fn close_current_refuses_an_empty_interval() {
    let mut table: VersionedTable<String, i64> = VersionedTable::new();
    table.insert_current(key("a"), None, 3, 10).unwrap();
    assert_eq!(table.close_current(&key("a"), &None, 3), Err(InvariantViolation));
    assert_eq!(table.close_current(&key("a"), &None, 2), Err(InvariantViolation));
    assert_eq!(table.close_current(&key("a"), &None, MAX_COMMIT_NUM), Err(InvariantViolation));
    assert_eq!(table.read_current(&key("a"), &None).unwrap().end_commit_num, MAX_COMMIT_NUM);
}

#[test]
fn replace_current_closes_and_inserts_at_one_commit() {
    let mut table: VersionedTable<String, i64> = VersionedTable::new();
    table.insert_current(key("a"), None, 1, 10).unwrap();
    assert_eq!(table.replace_current(key("a"), None, 2, 20), Ok(Some(10)));
    assert_eq!(table.len(), 2);
    assert_eq!(table.row(0), &row("a", None, 1, 2, 10));
    assert_eq!(table.row(1), &row("a", None, 2, MAX_COMMIT_NUM, 20));
    assert_eq!(table.read_current(&key("a"), &None).unwrap().payload, 20);
}

#[test]
fn replace_current_inserts_where_nothing_is_current() {
    let mut table: VersionedTable<String, i64> = VersionedTable::new();
    assert_eq!(table.replace_current(key("a"), None, 2, 20), Ok(None));
    assert_eq!(table.row(0), &row("a", None, 2, MAX_COMMIT_NUM, 20));
}

#[test]
fn replace_current_changes_nothing_when_it_is_refused() {
    let mut table: VersionedTable<String, i64> = VersionedTable::new();
    table.insert_current(key("a"), None, 5, 10).unwrap();
    assert_eq!(table.replace_current(key("a"), None, 5, 20), Err(InvariantViolation));
    assert_eq!(table.len(), 1);
    assert_eq!(table.row(0), &row("a", None, 5, MAX_COMMIT_NUM, 10));
}

#[test]
fn read_as_of_finds_the_version_that_was_valid() {
    let mut table: VersionedTable<String, i64> = VersionedTable::new();
    table.insert_current(key("a"), None, 1, 10).unwrap();
    table.replace_current(key("a"), None, 4, 20).unwrap();
    table.replace_current(key("a"), None, 9, 30).unwrap();
    assert_eq!(table.read_as_of(&key("a"), &None, 0), None);
    assert_eq!(table.read_as_of(&key("a"), &None, 1).unwrap().payload, 10);
    assert_eq!(table.read_as_of(&key("a"), &None, 3).unwrap().payload, 10);
    assert_eq!(table.read_as_of(&key("a"), &None, 4).unwrap().payload, 20);
    assert_eq!(table.read_as_of(&key("a"), &None, 8).unwrap().payload, 20);
    assert_eq!(table.read_as_of(&key("a"), &None, 9).unwrap().payload, 30);
    assert_eq!(table.read_as_of(&key("a"), &None, 1000).unwrap().payload, 30);
    assert_eq!(table.read_as_of(&key("b"), &None, 4), None);
}

#[test]
fn scopes_are_matched_exactly() {
    let mut table: VersionedTable<String, i64> = VersionedTable::new();
    table.insert_current(key("a"), None, 1, 10).unwrap();
    table.insert_current(key("a"), scope("A"), 1, 11).unwrap();
    table.insert_current(key("a"), scope("B"), 1, 12).unwrap();
    assert_eq!(table.read_current(&key("a"), &None).unwrap().payload, 10);
    assert_eq!(table.read_current(&key("a"), &scope("A")).unwrap().payload, 11);
    assert_eq!(table.read_current(&key("a"), &scope("B")).unwrap().payload, 12);
    assert_eq!(table.read_current(&key("a"), &scope("C")), None);
}

#[test]
fn list_current_gives_the_current_rows_of_one_scope_in_order() {
    let mut table: VersionedTable<String, i64> = VersionedTable::new();
    table.insert_current(key("a"), scope("A"), 1, 1).unwrap();
    table.insert_current(key("b"), scope("B"), 1, 2).unwrap();
    table.insert_current(key("c"), scope("A"), 2, 3).unwrap();
    table.insert_current(key("d"), None, 2, 4).unwrap();
    table.close_current(&key("a"), &scope("A"), 3).unwrap();
    table.insert_current(key("e"), scope("A"), 3, 5).unwrap();

    let listed = table.list_current(&scope("A"), &AnyRow);
    assert_eq!(
        listed,
        vec![row("c", scope("A"), 2, MAX_COMMIT_NUM, 3), row("e", scope("A"), 3, MAX_COMMIT_NUM, 5)]
    );
    assert_eq!(table.list_current(&None, &AnyRow), vec![row("d", None, 2, MAX_COMMIT_NUM, 4)]);
    assert_eq!(table.list_current(&scope("C"), &AnyRow), vec![]);
}

#[test]
fn list_as_of_gives_the_rows_that_were_valid() {
    let mut table: VersionedTable<String, i64> = VersionedTable::new();
    table.insert_current(key("a"), None, 1, 1).unwrap();
    table.insert_current(key("b"), None, 2, 2).unwrap();
    table.close_current(&key("a"), &None, 3).unwrap();
    assert_eq!(table.list(&None, Some(1), &AnyRow), vec![row("a", None, 1, 3, 1)]);
    assert_eq!(
        table.list(&None, Some(2), &AnyRow),
        vec![row("a", None, 1, 3, 1), row("b", None, 2, MAX_COMMIT_NUM, 2)]
    );
    assert_eq!(table.list(&None, Some(3), &AnyRow), vec![row("b", None, 2, MAX_COMMIT_NUM, 2)]);
}

#[test]
fn insert_all_stores_all_rows_or_none() {
    let mut table: VersionedTable<String, i64> = VersionedTable::new();
    table.insert_current(key("b"), None, 1, 0).unwrap();
    assert_eq!(
        table.insert_all(&None, 2, vec![(key("a"), 1), (key("b"), 2)]),
        Err(InvariantViolation)
    );
    assert_eq!(table.len(), 1);
    assert_eq!(
        table.insert_all(&None, 2, vec![(key("a"), 1), (key("a"), 2)]),
        Err(InvariantViolation)
    );
    assert_eq!(table.len(), 1);
    assert_eq!(table.insert_all(&None, 2, vec![(key("a"), 1), (key("c"), 2)]), Ok(()));
    assert_eq!(table.len(), 3);
    assert_eq!(table.row(1), &row("a", None, 2, MAX_COMMIT_NUM, 1));
    assert_eq!(table.row(2), &row("c", None, 2, MAX_COMMIT_NUM, 2));
}

#[test]
fn close_all_closes_every_selected_row_or_none() {
    let mut table: VersionedTable<String, i64> = VersionedTable::new();
    table.insert_current(key("a"), None, 1, 1).unwrap();
    table.insert_current(key("b"), None, 4, 2).unwrap();
    table.insert_current(key("c"), scope("A"), 1, 3).unwrap();
    assert_eq!(table.close_all(&None, &AnyRow, 4), Err(InvariantViolation));
    assert_eq!(table.list_current(&None, &AnyRow).len(), 2);
    assert_eq!(table.close_all(&None, &AnyRow, 5), Ok(()));
    assert_eq!(table.row(0), &row("a", None, 1, 5, 1));
    assert_eq!(table.row(1), &row("b", None, 4, 5, 2));
    assert_eq!(table.row(2), &row("c", scope("A"), 1, MAX_COMMIT_NUM, 3));
}

#[test]
fn rollback_removes_later_rows_and_reopens_rows_closed_later() {
    let mut table: VersionedTable<String, i64> = VersionedTable::new();
    table.insert_current(key("a"), None, 1, 10).unwrap();
    table.insert_current(key("b"), None, 2, 20).unwrap();
    table.replace_current(key("a"), None, 3, 11).unwrap();
    table.close_current(&key("b"), &None, 4).unwrap();
    table.insert_current(key("c"), None, 5, 30).unwrap();

    table.rollback_to(3);
    assert_eq!(table.len(), 3);
    assert_eq!(table.row(0), &row("a", None, 1, 3, 10));
    assert_eq!(table.row(1), &row("b", None, 2, MAX_COMMIT_NUM, 20));
    assert_eq!(table.row(2), &row("a", None, 3, MAX_COMMIT_NUM, 11));

    table.rollback_to(2);
    assert_eq!(table.len(), 2);
    assert_eq!(table.row(0), &row("a", None, 1, MAX_COMMIT_NUM, 10));
    assert_eq!(table.row(1), &row("b", None, 2, MAX_COMMIT_NUM, 20));
}

#[test]
fn rollback_equals_the_table_built_up_to_the_commit() {
    let mut long: VersionedTable<String, i64> = VersionedTable::new();
    let mut short: VersionedTable<String, i64> = VersionedTable::new();
    for table in [&mut long, &mut short] {
        table.insert_current(key("a"), None, 1, 10).unwrap();
        table.insert_current(key("b"), scope("A"), 2, 20).unwrap();
        table.replace_current(key("a"), None, 3, 11).unwrap();
    }
    long.close_current(&key("a"), &None, 4).unwrap();
    long.replace_current(key("b"), scope("A"), 4, 21).unwrap();
    long.insert_current(key("c"), None, 5, 30).unwrap();
    long.rollback_to(3);
    assert_eq!(long, short);
}

#[test]
fn clear_removes_every_row() {
    let mut table: VersionedTable<String, i64> = VersionedTable::new();
    table.insert_current(key("a"), None, 1, 10).unwrap();
    table.clear();
    assert_eq!(table.len(), 0);
    assert_eq!(table, VersionedTable::new());
}

use grid_store::ledger::{VersionError, VersionLedger, GENESIS_COMMIT_NUM, MAX_COMMIT_NUM};

#[test]
fn empty_ledger_is_at_the_genesis_height() {
    let ledger = VersionLedger::new();
    assert_eq!(ledger.current_height(), GENESIS_COMMIT_NUM);
    assert_eq!(ledger.current_height(), 0);
}

#[test]
fn max_commit_is_the_largest_commit_number() {
    assert_eq!(MAX_COMMIT_NUM, i64::MAX);
}

#[test]
fn record_commit_appends_when_the_predecessor_is_the_head() {
    let mut ledger = VersionLedger::new();
    assert_eq!(ledger.record_commit(1, 0), Ok(()));
    assert_eq!(ledger.current_height(), 1);
    assert_eq!(ledger.record_commit(4, 1), Ok(()));
    assert_eq!(ledger.current_height(), 4);
}

#[test]
fn record_commit_detects_a_fork() {
    let mut ledger = VersionLedger::new();
    ledger.record_commit(1, 0).unwrap();
    ledger.record_commit(2, 1).unwrap();
    assert_eq!(
        ledger.record_commit(3, 1),
        Err(VersionError::ForkDetected { head: 2, predecessor: 1 })
    );
    assert_eq!(ledger.current_height(), 2);
}

#[test]
fn record_commit_refuses_a_commit_that_is_out_of_order() {
    let mut ledger = VersionLedger::new();
    ledger.record_commit(5, 0).unwrap();
    assert_eq!(
        ledger.record_commit(5, 5),
        Err(VersionError::OutOfOrder { commit: 5, predecessor: 5 })
    );
    assert_eq!(
        ledger.record_commit(3, 5),
        Err(VersionError::OutOfOrder { commit: 3, predecessor: 5 })
    );
    assert_eq!(
        ledger.record_commit(MAX_COMMIT_NUM, 5),
        Err(VersionError::OutOfOrder { commit: MAX_COMMIT_NUM, predecessor: 5 })
    );
    assert_eq!(ledger.current_height(), 5);
}

#[test]
fn a_fork_is_reported_before_a_commit_out_of_order() {
    let mut ledger = VersionLedger::new();
    ledger.record_commit(5, 0).unwrap();
    assert_eq!(
        ledger.record_commit(2, 3),
        Err(VersionError::ForkDetected { head: 5, predecessor: 3 })
    );
}

#[test]
fn ledger_knows_the_genesis_height_and_what_was_recorded() {
    let mut ledger = VersionLedger::new();
    ledger.record_commit(2, 0).unwrap();
    ledger.record_commit(7, 2).unwrap();
    assert!(ledger.knows(0));
    assert!(ledger.knows(2));
    assert!(ledger.knows(7));
    assert!(!ledger.knows(1));
    assert!(!ledger.knows(8));
    assert!(!ledger.knows(-1));
}

#[test]
fn rollback_makes_the_commit_the_head_again() {
    let mut ledger = VersionLedger::new();
    for (commit, predecessor) in [(1, 0), (2, 1), (3, 2), (4, 3), (5, 4)] {
        ledger.record_commit(commit, predecessor).unwrap();
    }
    assert_eq!(ledger.rollback_to(3), Ok(()));
    assert_eq!(ledger.current_height(), 3);
    assert!(ledger.knows(3));
    assert!(!ledger.knows(4));
    assert!(!ledger.knows(5));

    let mut expected = VersionLedger::new();
    for (commit, predecessor) in [(1, 0), (2, 1), (3, 2)] {
        expected.record_commit(commit, predecessor).unwrap();
    }
    assert_eq!(ledger, expected);
}

#[test]
fn rollback_to_the_head_changes_nothing() {
    let mut ledger = VersionLedger::new();
    ledger.record_commit(1, 0).unwrap();
    ledger.record_commit(2, 1).unwrap();
    assert_eq!(ledger.rollback_to(2), Ok(()));
    assert_eq!(ledger.current_height(), 2);
}

#[test]
fn rollback_to_the_genesis_height_empties_the_ledger() {
    let mut ledger = VersionLedger::new();
    ledger.record_commit(1, 0).unwrap();
    ledger.record_commit(2, 1).unwrap();
    assert_eq!(ledger.rollback_to(0), Ok(()));
    assert_eq!(ledger, VersionLedger::new());
}

#[test]
fn rollback_to_an_unknown_commit_is_refused() {
    let mut ledger = VersionLedger::new();
    ledger.record_commit(1, 0).unwrap();
    ledger.record_commit(3, 1).unwrap();
    assert_eq!(ledger.rollback_to(2), Err(VersionError::UnknownCommit { commit: 2 }));
    assert_eq!(ledger.rollback_to(9), Err(VersionError::UnknownCommit { commit: 9 }));
    assert_eq!(ledger.current_height(), 3);
}

#[test]
fn after_a_fork_rollback_then_retry_succeeds() {
    let mut ledger = VersionLedger::new();
    ledger.record_commit(1, 0).unwrap();
    ledger.record_commit(2, 1).unwrap();
    ledger.record_commit(3, 2).unwrap();
    // A block that builds on commit 1 arrives.
    assert!(matches!(ledger.record_commit(4, 1), Err(VersionError::ForkDetected { .. })));
    ledger.rollback_to(1).unwrap();
    assert_eq!(ledger.record_commit(4, 1), Ok(()));
    assert_eq!(ledger.current_height(), 4);
}

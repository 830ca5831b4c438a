use meow_auth::migrate::ledger::{AppliedRecord, Ledger};

fn versions(ledger: &Ledger) -> Vec<i64> {
    ledger.list_applied().iter().map(|r| r.version).collect()
}

#[test]
fn new_ledger_is_empty() {
    let ledger = Ledger::new();
    assert_eq!(ledger.len(), 0);
    assert!(ledger.list_applied().is_empty());
    assert!(!ledger.contains(1));
    assert!(ledger.get(1).is_none());
}

#[test]
fn ensure_table_is_idempotent() {
    let mut ledger = Ledger::new();
    assert!(ledger.ensure_table());
    assert!(!ledger.ensure_table());
    assert!(!ledger.ensure_table());
    assert_eq!(ledger.len(), 0);
}

#[test]
fn ensure_table_keeps_the_records() {
    let mut ledger = Ledger::new();
    assert!(ledger.record_apply(4, vec![1, 2], 100, 9));
    assert!(!ledger.ensure_table());
    assert_eq!(versions(&ledger), vec![4]);
}

#[test]
fn record_apply_keeps_versions_ascending() {
    let mut ledger = Ledger::new();
    assert!(ledger.record_apply(20, vec![2], 1, 1));
    assert!(ledger.record_apply(10, vec![1], 2, 2));
    assert!(ledger.record_apply(30, vec![3], 3, 3));
    assert!(ledger.record_apply(15, vec![4], 4, 4));
    assert_eq!(versions(&ledger), vec![10, 15, 20, 30]);
    assert_eq!(ledger.len(), 4);
}

#[test]
fn record_apply_stores_all_fields() {
    let mut ledger = Ledger::new();
    assert!(ledger.record_apply(7, vec![9, 8, 7], 1_700_000_000, 1234));
    let expected = AppliedRecord {
        version: 7,
        content_checksum: vec![9, 8, 7],
        applied_at: 1_700_000_000,
        execution_duration: 1234,
    };
    assert_eq!(ledger.get(7), Some(&expected));
    assert_eq!(ledger.list_applied(), vec![expected]);
}

#[test]
fn record_apply_refuses_a_recorded_version() {
    let mut ledger = Ledger::new();
    assert!(ledger.record_apply(7, vec![1], 10, 20));
    assert!(!ledger.record_apply(7, vec![2], 30, 40));
    assert_eq!(ledger.len(), 1);
    assert_eq!(ledger.get(7).unwrap().content_checksum, vec![1]);
    assert_eq!(ledger.get(7).unwrap().applied_at, 10);
}

#[test]
fn record_revert_removes_only_that_version() {
    let mut ledger = Ledger::new();
    ledger.record_apply(1, vec![1], 0, 0);
    ledger.record_apply(2, vec![2], 0, 0);
    ledger.record_apply(3, vec![3], 0, 0);
    assert!(ledger.record_revert(2));
    assert_eq!(versions(&ledger), vec![1, 3]);
    assert!(!ledger.contains(2));
    assert!(ledger.contains(1));
    assert!(ledger.contains(3));
}

#[test]
fn record_revert_of_an_unknown_version_changes_nothing() {
    let mut ledger = Ledger::new();
    ledger.record_apply(1, vec![1], 0, 0);
    assert!(!ledger.record_revert(5));
    assert_eq!(versions(&ledger), vec![1]);
}

#[test]
fn apply_then_revert_restores_the_ledger() {
    let mut ledger = Ledger::new();
    ledger.record_apply(1, vec![1], 5, 6);
    let before = ledger.list_applied();
    assert!(ledger.record_apply(2, vec![2], 7, 8));
    assert!(ledger.record_revert(2));
    assert_eq!(ledger.list_applied(), before);
}

#[test]
fn records_and_list_applied_agree() {
    let mut ledger = Ledger::new();
    ledger.record_apply(i64::MAX, vec![], 0, 0);
    ledger.record_apply(i64::MIN, vec![], 0, 0);
    ledger.record_apply(0, vec![], 0, 0);
    assert_eq!(ledger.records().clone(), ledger.list_applied());
    assert_eq!(versions(&ledger), vec![i64::MIN, 0, i64::MAX]);
}

#[test]
fn record_duplicate_copies_every_field() {
    let record = AppliedRecord {
        version: 3,
        content_checksum: vec![1, 2, 3],
        applied_at: -5,
        execution_duration: u64::MAX,
    };
    assert_eq!(record.duplicate(), record);
}

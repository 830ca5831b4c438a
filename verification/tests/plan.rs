use meow_auth::migrate::definition::{MigrationDefinition, MigrationKind};
use meow_auth::migrate::error::MigrationError;
use meow_auth::migrate::ledger::{AppliedRecord, Ledger};
use meow_auth::migrate::plan::{
    count_applied, first_modified, hunt_simple_migrations, check_missing_migrations,
    missing_migrations, pending_migrations, plan_apply, plan_revert, revertible_migrations,
    status, MigrationStatus, StatusEntry,
};
use meow_auth::migrate::source::MigrationSource;

fn simple(version: i64, checksum: u8) -> MigrationDefinition {
    MigrationDefinition {
        version,
        description: format!("simple {version}"),
        content_checksum: vec![checksum],
        kind: MigrationKind::Simple { up_script: format!("up {version}") },
    }
}

fn reversible(version: i64, checksum: u8) -> MigrationDefinition {
    MigrationDefinition {
        version,
        description: format!("reversible {version}"),
        content_checksum: vec![checksum],
        kind: MigrationKind::Reversible {
            up_script: format!("up {version}"),
            down_script: format!("down {version}"),
        },
    }
}

fn source_of(definitions: Vec<MigrationDefinition>) -> MigrationSource {
    let mut source = MigrationSource::new();
    for definition in definitions {
        assert!(source.insert(definition));
    }
    source
}

fn ledger_of(records: &[(i64, u8)]) -> Ledger {
    let mut ledger = Ledger::new();
    for (version, checksum) in records {
        assert!(ledger.record_apply(*version, vec![*checksum], 0, 0));
    }
    ledger
}

// V1(Simple), V2(Reversible), V3(Reversible)
fn mixed_source() -> MigrationSource {
    source_of(vec![simple(1, 1), reversible(2, 2), reversible(3, 3)])
}

#[test]
fn apply_plans_pending_in_ascending_order() {
    let source = source_of(vec![reversible(30, 3), simple(10, 1), reversible(20, 2), simple(40, 4)]);
    let ledger = ledger_of(&[(20, 2)]);
    assert_eq!(plan_apply(&source, &ledger, false), Ok(vec![10, 30, 40]));
    assert_eq!(pending_migrations(&source, &ledger), vec![10, 30, 40]);
}

#[test]
fn apply_on_an_empty_ledger_plans_everything() {
    let source = mixed_source();
    assert_eq!(plan_apply(&source, &Ledger::new(), false), Ok(vec![1, 2, 3]));
}

#[test]
fn apply_with_nothing_pending_is_a_no_op() {
    let source = mixed_source();
    let ledger = ledger_of(&[(1, 1), (2, 2), (3, 3)]);
    assert_eq!(plan_apply(&source, &ledger, false), Ok(vec![]));
}

#[test]
fn apply_with_nothing_defined_is_a_no_op() {
    assert_eq!(plan_apply(&MigrationSource::new(), &Ledger::new(), false), Ok(vec![]));
}

#[test]
fn revert_plans_in_descending_order() {
    let source = source_of(vec![reversible(1, 1), reversible(2, 2), reversible(3, 3)]);
    let ledger = ledger_of(&[(1, 1), (2, 2), (3, 3)]);
    assert_eq!(plan_revert(&source, &ledger, 3, false), Ok(vec![3, 2, 1]));
    assert_eq!(revertible_migrations(&source, &ledger), vec![3, 2, 1]);
}

#[test]
fn revert_count_beyond_applied_is_refused() {
    let source = source_of(vec![reversible(1, 1), reversible(2, 2), reversible(3, 3)]);
    let ledger = ledger_of(&[(1, 1), (2, 2), (3, 3)]);
    let before = ledger.list_applied();
    assert_eq!(
        plan_revert(&source, &ledger, 5, false),
        Err(MigrationError::InsufficientHistory { requested: 5, applied: 3 })
    );
    assert_eq!(ledger.list_applied(), before);
}

#[test]
fn revert_count_equal_to_applied_is_accepted() {
    let source = source_of(vec![reversible(1, 1), reversible(2, 2), reversible(3, 3)]);
    let ledger = ledger_of(&[(1, 1), (2, 2), (3, 3)]);
    assert_eq!(plan_revert(&source, &ledger, 3, false), Ok(vec![3, 2, 1]));
    assert_eq!(
        plan_revert(&source, &ledger, 4, false),
        Err(MigrationError::InsufficientHistory { requested: 4, applied: 3 })
    );
}

#[test]
fn revert_of_zero_is_a_no_op() {
    let source = mixed_source();
    let ledger = ledger_of(&[(1, 1), (2, 2), (3, 3)]);
    assert_eq!(plan_revert(&source, &ledger, 0, false), Ok(vec![]));
    assert_eq!(plan_revert(&source, &Ledger::new(), 0, false), Ok(vec![]));
}

#[test]
fn revert_on_an_empty_ledger_is_refused() {
    let source = mixed_source();
    assert_eq!(
        plan_revert(&source, &Ledger::new(), 1, false),
        Err(MigrationError::InsufficientHistory { requested: 1, applied: 0 })
    );
}

#[test]
fn simple_skip_revert_one() {
    let source = mixed_source();
    let ledger = ledger_of(&[(1, 1), (2, 2), (3, 3)]);
    assert_eq!(plan_revert(&source, &ledger, 1, false), Ok(vec![3]));
}

#[test]
fn simple_skip_revert_two() {
    let source = mixed_source();
    let ledger = ledger_of(&[(1, 1), (2, 2), (3, 3)]);
    assert_eq!(plan_revert(&source, &ledger, 2, false), Ok(vec![3, 2]));
}

#[test]
fn simple_skip_revert_three_reverts_fewer_than_asked() {
    let source = mixed_source();
    let ledger = ledger_of(&[(1, 1), (2, 2), (3, 3)]);
    assert_eq!(plan_revert(&source, &ledger, 3, false), Ok(vec![3, 2]));
    assert_eq!(hunt_simple_migrations(&source), vec![1]);
}

#[test]
fn simple_in_the_middle_does_not_consume_the_count() {
    let source = source_of(vec![reversible(1, 1), simple(2, 2), reversible(3, 3)]);
    let ledger = ledger_of(&[(1, 1), (2, 2), (3, 3)]);
    assert_eq!(plan_revert(&source, &ledger, 2, false), Ok(vec![3, 1]));
}

#[test]
fn revert_passes_over_what_is_not_applied() {
    let source = source_of(vec![reversible(1, 1), reversible(2, 2), reversible(3, 3)]);
    let ledger = ledger_of(&[(1, 1), (2, 2)]);
    assert_eq!(plan_revert(&source, &ledger, 1, false), Ok(vec![2]));
    assert_eq!(count_applied(&source, &ledger), 2);
}

#[test]
fn drift_stops_an_apply() {
    let source = mixed_source();
    let ledger = ledger_of(&[(1, 1), (2, 99)]);
    assert_eq!(
        plan_apply(&source, &ledger, false),
        Err(MigrationError::ModifiedMigration { version: 2 })
    );
    assert_eq!(first_modified(&source, &ledger), Some(2));
}

#[test]
fn drift_names_the_lowest_version() {
    let source = mixed_source();
    let ledger = ledger_of(&[(1, 7), (2, 2), (3, 9)]);
    assert_eq!(
        plan_apply(&source, &ledger, true),
        Err(MigrationError::ModifiedMigration { version: 1 })
    );
}

#[test]
fn drift_is_reported_by_status() {
    let source = mixed_source();
    let ledger = ledger_of(&[(1, 1), (2, 99)]);
    let report = status(&source, &ledger, false).unwrap();
    let lines: Vec<(i64, MigrationStatus)> = report.iter().map(|e| (e.version, e.status)).collect();
    assert_eq!(
        lines,
        vec![
            (3, MigrationStatus::NotInstalled),
            (2, MigrationStatus::InstalledModified),
            (1, MigrationStatus::Installed),
        ]
    );
}

#[test]
fn drift_does_not_stop_a_revert() {
    let source = mixed_source();
    let ledger = ledger_of(&[(1, 1), (2, 99)]);
    assert_eq!(plan_revert(&source, &ledger, 1, false), Ok(vec![2]));
}

#[test]
fn status_lists_descriptions_highest_first() {
    let source = mixed_source();
    let report = status(&source, &Ledger::new(), false).unwrap();
    assert_eq!(
        report,
        vec![
            StatusEntry {
                version: 3,
                description: "reversible 3".to_string(),
                status: MigrationStatus::NotInstalled
            },
            StatusEntry {
                version: 2,
                description: "reversible 2".to_string(),
                status: MigrationStatus::NotInstalled
            },
            StatusEntry {
                version: 1,
                description: "simple 1".to_string(),
                status: MigrationStatus::NotInstalled
            },
        ]
    );
}

#[test]
fn missing_stops_every_command() {
    let source = mixed_source();
    let ledger = ledger_of(&[(1, 1), (5, 5), (9, 9)]);
    let expected = MigrationError::MissingMigration { versions: vec![5, 9] };
    assert_eq!(plan_apply(&source, &ledger, false), Err(expected.clone()));
    assert_eq!(plan_revert(&source, &ledger, 1, false), Err(expected.clone()));
    assert_eq!(status(&source, &ledger, false), Err(expected.clone()));
    assert_eq!(check_missing_migrations(&ledger, &source, false), Err(expected));
}

#[test]
fn missing_is_tolerated_on_request() {
    let source = mixed_source();
    let ledger = ledger_of(&[(1, 1), (5, 5)]);
    assert_eq!(check_missing_migrations(&ledger, &source, true), Ok(()));
    assert_eq!(plan_apply(&source, &ledger, true), Ok(vec![2, 3]));
    let report = status(&source, &ledger, true).unwrap();
    let versions: Vec<i64> = report.iter().map(|e| e.version).collect();
    assert_eq!(versions, vec![3, 2, 1]);
}

#[test]
fn missing_precedes_drift() {
    let source = mixed_source();
    let ledger = ledger_of(&[(1, 77), (5, 5)]);
    assert_eq!(
        plan_apply(&source, &ledger, false),
        Err(MigrationError::MissingMigration { versions: vec![5] })
    );
}

#[test]
fn tolerated_missing_records_do_not_count_as_applied() {
    let source = source_of(vec![reversible(1, 1), reversible(2, 2)]);
    let ledger = ledger_of(&[(1, 1), (5, 5), (6, 6)]);
    assert_eq!(count_applied(&source, &ledger), 1);
    assert_eq!(plan_revert(&source, &ledger, 1, true), Ok(vec![1]));
    assert_eq!(
        plan_revert(&source, &ledger, 2, true),
        Err(MigrationError::InsufficientHistory { requested: 2, applied: 1 })
    );
}

#[test]
fn missing_migrations_keeps_the_order_of_the_records() {
    let source = mixed_source();
    let applied = vec![
        AppliedRecord { version: 9, content_checksum: vec![], applied_at: 0, execution_duration: 0 },
        AppliedRecord { version: 2, content_checksum: vec![], applied_at: 0, execution_duration: 0 },
        AppliedRecord { version: 4, content_checksum: vec![], applied_at: 0, execution_duration: 0 },
    ];
    assert_eq!(missing_migrations(&applied, &source), vec![9, 4]);
}

#[test]
fn hunt_finds_every_simple_migration() {
    let source = source_of(vec![simple(1, 1), reversible(2, 2), simple(3, 3)]);
    assert_eq!(hunt_simple_migrations(&source), vec![1, 3]);
    assert_eq!(hunt_simple_migrations(&MigrationSource::new()), Vec::<i64>::new());
}

#[test]
fn first_modified_finds_nothing_where_checksums_agree() {
    let source = mixed_source();
    let ledger = ledger_of(&[(1, 1), (2, 2), (3, 3)]);
    assert_eq!(first_modified(&source, &ledger), None);
}

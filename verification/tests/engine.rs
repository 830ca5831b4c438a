use meow_auth::migrate::definition::{MigrationDefinition, MigrationKind};
use meow_auth::migrate::engine::{Action, Event, Phase, ReconciliationEngine, Request};
use meow_auth::migrate::error::MigrationError;
use meow_auth::migrate::ledger::Ledger;
use meow_auth::migrate::plan::MigrationStatus;
use meow_auth::migrate::source::MigrationSource;

fn simple(version: i64) -> MigrationDefinition {
    MigrationDefinition {
        version,
        description: format!("simple {version}"),
        content_checksum: vec![version as u8],
        kind: MigrationKind::Simple { up_script: format!("up {version}") },
    }
}

fn reversible(version: i64) -> MigrationDefinition {
    MigrationDefinition {
        version,
        description: format!("reversible {version}"),
        content_checksum: vec![version as u8],
        kind: MigrationKind::Reversible {
            up_script: format!("up {version}"),
            down_script: format!("down {version}"),
        },
    }
}

fn source_of(definitions: Vec<MigrationDefinition>) -> MigrationSource {
    let mut source = MigrationSource::new();
    for definition in definitions {
        assert!(source.insert(definition));
    }
    source
}

fn mixed_source() -> MigrationSource {
    source_of(vec![simple(1), reversible(2), reversible(3)])
}

fn versions(ledger: &Ledger) -> Vec<i64> {
    ledger.list_applied().iter().map(|r| r.version).collect()
}

/// Runs a request against a store that holds `store`, with every script
/// succeeding, and hands back the engine and the actions it asked for.
fn run_to_end(
    source: MigrationSource,
    request: Request,
    store: &mut Ledger,
) -> (ReconciliationEngine, Vec<Action>) {
    let mut engine = ReconciliationEngine::new(source, request);
    let mut asked = vec![engine.next_action()];
    let mut clock = 1000;
    loop {
        let event = match *asked.last().unwrap() {
            Action::Connect => {
                store.ensure_table();
                Event::Connected
            }
            Action::ListApplied => Event::Listed(store.clone()),
            Action::Apply { version } => {
                let checksum =
                    engine.source().find(version).unwrap().content_checksum.clone();
                clock += 1;
                assert!(store.record_apply(version, checksum, clock, 5));
                Event::Committed { applied_at: clock, duration: 5 }
            }
            Action::Revert { version } => {
                assert!(store.record_revert(version));
                Event::Committed { applied_at: 0, duration: 5 }
            }
            Action::Report => Event::Reported,
            Action::Stop | Action::Abort => break,
        };
        asked.push(engine.step(event));
    }
    (engine, asked)
}

#[test]
fn a_new_engine_asks_to_connect() {
    let engine = ReconciliationEngine::new(mixed_source(), Request::Apply { ignore_missing: false });
    assert_eq!(engine.phase(), Phase::Initializing);
    assert_eq!(engine.next_action(), Action::Connect);
    assert_eq!(engine.completed(), 0);
    assert_eq!(engine.failure(), &None);
    assert!(engine.plan().is_empty());
}

#[test]
fn apply_goes_through_every_phase() {
    let mut engine =
        ReconciliationEngine::new(mixed_source(), Request::Apply { ignore_missing: false });
    assert_eq!(engine.step(Event::Connected), Action::ListApplied);
    assert_eq!(engine.phase(), Phase::Validating);
    assert_eq!(engine.step(Event::Listed(Ledger::new())), Action::Apply { version: 1 });
    assert_eq!(engine.phase(), Phase::Executing);
    assert_eq!(engine.plan(), &vec![1, 2, 3]);
    assert_eq!(
        engine.step(Event::Committed { applied_at: 10, duration: 1 }),
        Action::Apply { version: 2 }
    );
    assert_eq!(
        engine.step(Event::Committed { applied_at: 11, duration: 1 }),
        Action::Apply { version: 3 }
    );
    assert_eq!(engine.step(Event::Committed { applied_at: 12, duration: 1 }), Action::Report);
    assert_eq!(engine.phase(), Phase::Reporting);
    assert_eq!(engine.completed(), 3);
    assert_eq!(engine.step(Event::Reported), Action::Stop);
    assert_eq!(engine.phase(), Phase::Done);
    assert_eq!(versions(engine.ledger()), vec![1, 2, 3]);
    let record = engine.ledger().get(2).unwrap();
    assert_eq!(record.content_checksum, vec![2]);
    assert_eq!(record.applied_at, 11);
    assert_eq!(record.execution_duration, 1);
}

#[test]
fn apply_executes_in_ascending_order() {
    let source = source_of(vec![reversible(30), simple(10), reversible(20), simple(40)]);
    let mut store = Ledger::new();
    store.record_apply(20, vec![20], 0, 0);
    let (engine, asked) = run_to_end(source, Request::Apply { ignore_missing: false }, &mut store);
    assert_eq!(
        asked,
        vec![
            Action::Connect,
            Action::ListApplied,
            Action::Apply { version: 10 },
            Action::Apply { version: 30 },
            Action::Apply { version: 40 },
            Action::Report,
            Action::Stop,
        ]
    );
    assert_eq!(engine.phase(), Phase::Done);
    assert_eq!(versions(&store), vec![10, 20, 30, 40]);
    assert_eq!(engine.ledger(), &store);
}

#[test]
fn revert_executes_in_descending_order() {
    let source = source_of(vec![reversible(1), reversible(2), reversible(3)]);
    let mut store = Ledger::new();
    for v in [1, 2, 3] {
        store.record_apply(v, vec![v as u8], 0, 0);
    }
    let request = Request::Revert { count: None, all: true, ignore_missing: false };
    let (engine, asked) = run_to_end(source, request, &mut store);
    assert_eq!(
        asked,
        vec![
            Action::Connect,
            Action::ListApplied,
            Action::Revert { version: 3 },
            Action::Revert { version: 2 },
            Action::Revert { version: 1 },
            Action::Report,
            Action::Stop,
        ]
    );
    assert!(versions(&store).is_empty());
    assert_eq!(engine.completed(), 3);
}

#[test]
fn round_trip_of_a_single_reversible_migration() {
    let mut store = Ledger::new();
    let (_, _) =
        run_to_end(source_of(vec![reversible(7)]), Request::Apply { ignore_missing: false }, &mut store);
    assert_eq!(versions(&store), vec![7]);
    let request = Request::Revert { count: Some(1), all: false, ignore_missing: false };
    let (engine, asked) = run_to_end(source_of(vec![reversible(7)]), request, &mut store);
    assert!(asked.contains(&Action::Revert { version: 7 }));
    assert_eq!(engine.phase(), Phase::Done);
    assert!(versions(&store).is_empty());
    assert_eq!(store.list_applied(), Ledger::new().list_applied());
}

#[test]
fn apply_twice_adds_nothing_the_second_time() {
    let mut store = Ledger::new();
    let (first, _) = run_to_end(mixed_source(), Request::Apply { ignore_missing: false }, &mut store);
    assert_eq!(first.phase(), Phase::Done);
    assert_eq!(first.completed(), 3);
    let after_first = store.list_applied();
    let (second, asked) =
        run_to_end(mixed_source(), Request::Apply { ignore_missing: false }, &mut store);
    assert_eq!(second.phase(), Phase::Done);
    assert_eq!(second.completed(), 0);
    assert!(second.plan().is_empty());
    assert_eq!(asked, vec![Action::Connect, Action::ListApplied, Action::Report, Action::Stop]);
    assert_eq!(store.list_applied(), after_first);
}

#[test]
fn drift_fails_an_apply_before_any_step() {
    let mut store = Ledger::new();
    store.record_apply(2, vec![99], 0, 0);
    let before = store.list_applied();
    let (engine, asked) =
        run_to_end(mixed_source(), Request::Apply { ignore_missing: false }, &mut store);
    assert_eq!(engine.phase(), Phase::Failed);
    assert_eq!(engine.failure(), &Some(MigrationError::ModifiedMigration { version: 2 }));
    assert_eq!(asked, vec![Action::Connect, Action::ListApplied, Action::Abort]);
    assert_eq!(store.list_applied(), before);
}

#[test]
fn drift_is_only_reported_by_a_status_run() {
    let mut store = Ledger::new();
    store.record_apply(2, vec![99], 0, 0);
    let (engine, _) =
        run_to_end(mixed_source(), Request::Status { ignore_missing: false }, &mut store);
    assert_eq!(engine.phase(), Phase::Done);
    assert_eq!(engine.failure(), &None);
    let lines: Vec<(i64, MigrationStatus)> =
        engine.status_lines().iter().map(|e| (e.version, e.status)).collect();
    assert_eq!(
        lines,
        vec![
            (3, MigrationStatus::NotInstalled),
            (2, MigrationStatus::InstalledModified),
            (1, MigrationStatus::NotInstalled),
        ]
    );
}

#[test]
fn missing_fails_the_run_unless_tolerated() {
    let mut store = Ledger::new();
    store.record_apply(1, vec![1], 0, 0);
    store.record_apply(8, vec![8], 0, 0);
    let (engine, _) =
        run_to_end(mixed_source(), Request::Apply { ignore_missing: false }, &mut store);
    assert_eq!(engine.phase(), Phase::Failed);
    assert_eq!(engine.failure(), &Some(MigrationError::MissingMigration { versions: vec![8] }));
    assert_eq!(versions(&store), vec![1, 8]);

    let (engine, _) = run_to_end(mixed_source(), Request::Apply { ignore_missing: true }, &mut store);
    assert_eq!(engine.phase(), Phase::Done);
    assert_eq!(versions(&store), vec![1, 2, 3, 8]);

    let (engine, _) =
        run_to_end(mixed_source(), Request::Status { ignore_missing: true }, &mut store);
    let reported: Vec<i64> = engine.status_lines().iter().map(|e| e.version).collect();
    assert_eq!(reported, vec![3, 2, 1]);
}

#[test]
fn revert_bound_leaves_the_ledger_unchanged() {
    let source = source_of(vec![reversible(1), reversible(2), reversible(3)]);
    let mut store = Ledger::new();
    for v in [1, 2, 3] {
        store.record_apply(v, vec![v as u8], 0, 0);
    }
    let before = store.list_applied();
    let request = Request::Revert { count: Some(5), all: false, ignore_missing: false };
    let (engine, asked) = run_to_end(source, request, &mut store);
    assert_eq!(engine.phase(), Phase::Failed);
    assert_eq!(
        engine.failure(),
        &Some(MigrationError::InsufficientHistory { requested: 5, applied: 3 })
    );
    assert_eq!(asked, vec![Action::Connect, Action::ListApplied, Action::Abort]);
    assert_eq!(store.list_applied(), before);
    assert_eq!(engine.ledger().list_applied(), before);
}

#[test]
fn simple_skip_scenario_revert_one() {
    let mut store = Ledger::new();
    run_to_end(mixed_source(), Request::Apply { ignore_missing: false }, &mut store);
    let request = Request::Revert { count: Some(1), all: false, ignore_missing: false };
    let (engine, asked) = run_to_end(mixed_source(), request, &mut store);
    assert_eq!(engine.plan(), &vec![3]);
    assert!(!asked.contains(&Action::Revert { version: 1 }));
    assert_eq!(versions(&store), vec![1, 2]);
}

#[test]
fn simple_skip_scenario_revert_two() {
    let mut store = Ledger::new();
    run_to_end(mixed_source(), Request::Apply { ignore_missing: false }, &mut store);
    let request = Request::Revert { count: Some(2), all: false, ignore_missing: false };
    let (engine, asked) = run_to_end(mixed_source(), request, &mut store);
    assert_eq!(engine.plan(), &vec![3, 2]);
    assert_eq!(
        asked,
        vec![
            Action::Connect,
            Action::ListApplied,
            Action::Revert { version: 3 },
            Action::Revert { version: 2 },
            Action::Report,
            Action::Stop,
        ]
    );
    assert_eq!(versions(&store), vec![1]);
}

#[test]
fn revert_all_leaves_simple_migrations_applied() {
    let mut store = Ledger::new();
    run_to_end(mixed_source(), Request::Apply { ignore_missing: false }, &mut store);
    let request = Request::Revert { count: None, all: true, ignore_missing: false };
    let (engine, _) = run_to_end(mixed_source(), request, &mut store);
    assert_eq!(engine.phase(), Phase::Done);
    assert_eq!(engine.completed(), 2);
    assert_eq!(versions(&store), vec![1]);
}

#[test]
fn revert_defaults_to_one() {
    let mut store = Ledger::new();
    run_to_end(mixed_source(), Request::Apply { ignore_missing: false }, &mut store);
    let request = Request::Revert { count: None, all: false, ignore_missing: false };
    let (engine, _) = run_to_end(mixed_source(), request, &mut store);
    assert_eq!(engine.plan(), &vec![3]);
}

#[test]
fn revert_of_zero_succeeds_without_a_step() {
    let mut store = Ledger::new();
    run_to_end(mixed_source(), Request::Apply { ignore_missing: false }, &mut store);
    let request = Request::Revert { count: Some(0), all: false, ignore_missing: false };
    let (engine, asked) = run_to_end(mixed_source(), request, &mut store);
    assert_eq!(engine.phase(), Phase::Done);
    assert_eq!(asked, vec![Action::Connect, Action::ListApplied, Action::Report, Action::Stop]);
    assert_eq!(versions(&store), vec![1, 2, 3]);
}

#[test]
fn a_failing_script_stops_the_batch_and_keeps_what_was_committed() {
    let mut engine =
        ReconciliationEngine::new(mixed_source(), Request::Apply { ignore_missing: false });
    engine.step(Event::Connected);
    engine.step(Event::Listed(Ledger::new()));
    assert_eq!(
        engine.step(Event::Committed { applied_at: 1, duration: 1 }),
        Action::Apply { version: 2 }
    );
    assert_eq!(engine.step(Event::RolledBack), Action::Abort);
    assert_eq!(engine.phase(), Phase::Failed);
    assert_eq!(engine.failure(), &Some(MigrationError::Execution { version: 2 }));
    assert_eq!(engine.completed(), 1);
    assert_eq!(versions(engine.ledger()), vec![1]);
    // A failed run stays failed.
    assert_eq!(engine.step(Event::Committed { applied_at: 2, duration: 1 }), Action::Abort);
    assert_eq!(versions(engine.ledger()), vec![1]);
}

#[test]
fn an_unreachable_store_fails_the_run() {
    let mut engine =
        ReconciliationEngine::new(mixed_source(), Request::Apply { ignore_missing: false });
    assert_eq!(engine.step(Event::Unreachable), Action::Abort);
    assert_eq!(engine.phase(), Phase::Failed);
    assert_eq!(engine.failure(), &Some(MigrationError::Connectivity));

    let mut engine =
        ReconciliationEngine::new(mixed_source(), Request::Status { ignore_missing: false });
    engine.step(Event::Connected);
    assert_eq!(engine.step(Event::Unreachable), Action::Abort);
    assert_eq!(engine.failure(), &Some(MigrationError::Connectivity));
}

#[test]
fn an_event_that_is_not_waited_for_changes_nothing() {
    let mut engine =
        ReconciliationEngine::new(mixed_source(), Request::Apply { ignore_missing: false });
    let before = engine.clone();
    assert_eq!(engine.step(Event::Committed { applied_at: 1, duration: 1 }), Action::Connect);
    assert_eq!(engine.step(Event::Reported), Action::Connect);
    assert_eq!(engine.step(Event::Listed(Ledger::new())), Action::Connect);
    assert_eq!(engine, before);
    engine.step(Event::Connected);
    engine.step(Event::Listed(Ledger::new()));
    let executing = engine.clone();
    assert_eq!(engine.step(Event::Connected), Action::Apply { version: 1 });
    assert_eq!(engine.step(Event::Unreachable), Action::Apply { version: 1 });
    assert_eq!(engine, executing);
}

#[test]
fn status_changes_nothing() {
    let mut store = Ledger::new();
    store.record_apply(1, vec![1], 3, 4);
    let before = store.list_applied();
    let (engine, asked) =
        run_to_end(mixed_source(), Request::Status { ignore_missing: false }, &mut store);
    assert_eq!(asked, vec![Action::Connect, Action::ListApplied, Action::Report, Action::Stop]);
    assert_eq!(store.list_applied(), before);
    assert_eq!(engine.request(), Request::Status { ignore_missing: false });
    assert_eq!(engine.status_lines().len(), 3);
    assert_eq!(engine.status_lines()[2].status, MigrationStatus::Installed);
}

#[test]
fn the_advisory_names_every_simple_migration_once_validated() {
    let mut engine =
        ReconciliationEngine::new(mixed_source(), Request::Status { ignore_missing: false });
    assert!(engine.advisory().is_empty());
    engine.step(Event::Connected);
    engine.step(Event::Listed(Ledger::new()));
    assert_eq!(engine.advisory(), &vec![1]);
    assert_eq!(engine.requested(), 0);
}

#[test]
fn a_revert_reports_how_many_were_asked_for() {
    let mut store = Ledger::new();
    run_to_end(mixed_source(), Request::Apply { ignore_missing: false }, &mut store);
    let request = Request::Revert { count: Some(3), all: false, ignore_missing: false };
    let (engine, _) = run_to_end(mixed_source(), request, &mut store);
    assert_eq!(engine.phase(), Phase::Done);
    assert_eq!(engine.requested(), 3);
    assert_eq!(engine.completed(), 2);
    assert_eq!(versions(&store), vec![1]);
}

#[test]
fn a_failing_revert_keeps_the_record() {
    let mut store = Ledger::new();
    run_to_end(mixed_source(), Request::Apply { ignore_missing: false }, &mut store);
    let request = Request::Revert { count: Some(2), all: false, ignore_missing: false };
    let mut engine = ReconciliationEngine::new(mixed_source(), request);
    engine.step(Event::Connected);
    assert_eq!(engine.step(Event::Listed(store.clone())), Action::Revert { version: 3 });
    assert_eq!(
        engine.step(Event::Committed { applied_at: 0, duration: 1 }),
        Action::Revert { version: 2 }
    );
    assert_eq!(engine.step(Event::RolledBack), Action::Abort);
    assert_eq!(engine.failure(), &Some(MigrationError::Execution { version: 2 }));
    assert_eq!(versions(engine.ledger()), vec![1, 2]);
    assert_eq!(engine.completed(), 1);
}

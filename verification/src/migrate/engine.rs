//! One run of the engine, from the request to the report.
//!
//! The engine decides; the caller acts. Each call of [`ReconciliationEngine::step`]
//! takes what happened at the store and answers with what to do next. Running a
//! script and recording it are one transaction on the caller's side, so the
//! engine hears of each migration either that it was committed or that it was
//! rolled back, and follows the ledger accordingly.

use vstd::prelude::*;
use crate::migrate::definition::{MigrationDefinitionView, Version, copy_bytes};
use crate::migrate::error::{MigrationError, MigrationErrorView};
use crate::migrate::ledger::{AppliedRecordView, Ledger, records_as_map};
use crate::migrate::plan::{
    StatusEntry, StatusEntryView, applied_count, apply_outcome, count_applied,
    hunt_simple_migrations, plan_apply, plan_revert, revert_outcome, simple_versions, status,
    status_outcome, status_views,
};
use crate::migrate::source::{MigrationSource, defines, definition_index};

verus! {

/// What the caller asks of a run.
#[derive(Debug, Clone, Copy, PartialEq, Eq, Structural)]
pub enum Request {
    /// Report where each defined migration stands. Changes nothing.
    Status { ignore_missing: bool },
    /// Apply every pending migration, lowest version first.
    Apply { ignore_missing: bool },
    /// Undo applied migrations, highest version first: `count` of them, or
    /// as many as are applied where `all` is set, or one where neither is
    /// given.
    Revert { count: Option<u64>, all: bool, ignore_missing: bool },
}

/// Where a run stands.
#[derive(Debug, Clone, Copy, PartialEq, Eq, Structural)]
pub enum Phase {
    /// The store has not been reached yet.
    Initializing,
    /// The store is reached; what it has applied is being read and compared
    /// with what is defined.
    Validating,
    /// Migrations are being applied or reverted, one transaction each.
    Executing,
    /// Nothing is left to do and the results can be read.
    Reporting,
    /// The run ended well.
    Done,
    /// The run ended with a failure.
    Failed,
}

/// What happened at the store since the last step.
#[derive(Debug, Clone, PartialEq, Eq)]
pub enum Event {
    /// The store is reached and the structure of its ledger exists.
    Connected,
    /// The store cannot be reached.
    Unreachable,
    /// The store listed what it has applied.
    Listed(Ledger),
    /// The script of the current step ran and its record was written, in one
    /// transaction that committed.
    Committed { applied_at: i64, duration: u64 },
    /// The script of the current step failed and its transaction was rolled
    /// back.
    RolledBack,
    /// The results were handed to the caller.
    Reported,
}

/// Mathematical value of an [`Event`].
pub ghost enum EventView {
    Connected,
    Unreachable,
    Listed { applied: Seq<AppliedRecordView> },
    Committed { applied_at: int, duration: int },
    RolledBack,
    Reported,
}

impl View for Event {
    type V = EventView;

    open spec fn view(&self) -> EventView {
        match *self {
            Event::Connected => EventView::Connected,
            Event::Unreachable => EventView::Unreachable,
            Event::Listed(ledger) => EventView::Listed { applied: ledger.entries() },
            Event::Committed { applied_at, duration } => EventView::Committed {
                applied_at: applied_at as int,
                duration: duration as int,
            },
            Event::RolledBack => EventView::RolledBack,
            Event::Reported => EventView::Reported,
        }
    }
}

impl Event {
    /// The ledger that an event carries is a valid one.
    pub open spec fn wf(&self) -> bool {
        match *self {
            Event::Listed(ledger) => ledger.wf(),
            _ => true,
        }
    }
}

/// What the caller is to do next.
#[derive(Debug, Clone, Copy, PartialEq, Eq, Structural)]
pub enum Action {
    /// Reach the store and make sure the structure of its ledger exists.
    Connect,
    /// Read what the store has applied.
    ListApplied,
    /// Run the up script of `version` and record it, in one transaction.
    Apply { version: Version },
    /// Run the down script of `version` and delete its record, in one
    /// transaction.
    Revert { version: Version },
    /// Read the results.
    Report,
    /// Nothing: the run is over.
    Stop,
    /// Nothing: the run failed.
    Abort,
}

/// Mathematical value of a [`ReconciliationEngine`].
pub ghost struct EngineView {
    pub request: Request,
    pub defined: Seq<MigrationDefinitionView>,
    pub ledger: Map<Version, AppliedRecordView>,
    pub phase: Phase,
    /// The versions that the run executes, in order.
    pub plan: Seq<Version>,
    /// How many steps of the plan are committed.
    pub done: nat,
    pub failure: Option<MigrationErrorView>,
    /// The lines of a status report.
    pub lines: Seq<StatusEntryView>,
    /// The defined versions that can never be reverted. The caller is told
    /// of them once in every run; they are no failure.
    pub advisory: Seq<Version>,
    /// How many migrations a revert was asked to undo. It may undo fewer
    /// where migrations without a down script are among those applied.
    pub requested: nat,
}

/// How many migrations a revert is to undo.
pub open spec fn target_count(count: Option<u64>, all: bool, applied: nat) -> nat {
    if all {
        applied
    } else {
        match count {
            Some(n) => n as nat,
            None => 1,
        }
    }
}

/// The definition with version `v`, if the source has one.
pub open spec fn definition_of(defined: Seq<MigrationDefinitionView>, v: Version) -> Option<
    MigrationDefinitionView,
> {
    if defines(defined, v) {
        Some(defined[definition_index(defined, v)])
    } else {
        None
    }
}

/// The record that a committed apply of `d` leaves in the ledger.
pub open spec fn record_of(
    d: MigrationDefinitionView,
    applied_at: int,
    duration: int,
) -> AppliedRecordView {
    AppliedRecordView {
        version: d.version,
        content_checksum: d.content_checksum,
        applied_at,
        execution_duration: duration,
    }
}

/// The state in which a run starts.
pub open spec fn initial(defined: Seq<MigrationDefinitionView>, request: Request) -> EngineView {
    EngineView {
        request,
        defined,
        ledger: Map::empty(),
        phase: Phase::Initializing,
        plan: Seq::empty(),
        done: 0,
        failure: None,
        lines: Seq::empty(),
        advisory: Seq::empty(),
        requested: 0,
    }
}

/// The state after a fatal condition: the phase is left at once.
pub open spec fn failed(s: EngineView, e: MigrationErrorView) -> EngineView {
    EngineView { phase: Phase::Failed, failure: Some(e), ..s }
}

/// The state once the plan is known: a run with nothing to do goes straight
/// to its report.
pub open spec fn planned(s: EngineView, plan: Seq<Version>) -> EngineView {
    EngineView {
        plan,
        done: 0,
        phase: if plan.len() == 0 {
            Phase::Reporting
        } else {
            Phase::Executing
        },
        ..s
    }
}

/// The state after the store listed `applied`: the ledger is known, and the
/// request is either refused or turned into a plan.
pub open spec fn validated(s: EngineView, applied: Seq<AppliedRecordView>) -> EngineView {
    let ledger = records_as_map(applied);
    let requested = match s.request {
        Request::Revert { count, all, .. } => target_count(
            count,
            all,
            applied_count(s.defined, ledger),
        ),
        _ => 0,
    };
    let known = EngineView { ledger, advisory: simple_versions(s.defined), requested, ..s };
    match s.request {
        Request::Status { ignore_missing } => match status_outcome(
            s.defined,
            applied,
            ignore_missing,
        ) {
            Ok(lines) => EngineView { phase: Phase::Reporting, lines, ..known },
            Err(e) => failed(known, e),
        },
        Request::Apply { ignore_missing } => match apply_outcome(
            s.defined,
            applied,
            ignore_missing,
        ) {
            Ok(plan) => planned(known, plan),
            Err(e) => failed(known, e),
        },
        Request::Revert { count, all, ignore_missing } => match revert_outcome(
            s.defined,
            applied,
            target_count(count, all, applied_count(s.defined, ledger)),
            ignore_missing,
        ) {
            Ok(plan) => planned(known, plan),
            Err(e) => failed(known, e),
        },
    }
}

/// The ledger after the current step committed.
pub open spec fn ledger_after_commit(s: EngineView, applied_at: int, duration: int) -> Map<
    Version,
    AppliedRecordView,
> {
    let version = s.plan[s.done as int];
    match s.request {
        Request::Status { .. } => s.ledger,
        Request::Apply { .. } => match definition_of(s.defined, version) {
            Some(d) => if s.ledger.dom().contains(version) {
                s.ledger
            } else {
                s.ledger.insert(version, record_of(d, applied_at, duration))
            },
            None => s.ledger,
        },
        Request::Revert { .. } => s.ledger.remove(version),
    }
}

/// The state after the current step committed: the ledger follows, and the
/// run moves to the next step or, after the last, to its report.
pub open spec fn committed(s: EngineView, applied_at: int, duration: int) -> EngineView {
    EngineView {
        ledger: ledger_after_commit(s, applied_at, duration),
        done: s.done + 1,
        phase: if s.done + 1 == s.plan.len() {
            Phase::Reporting
        } else {
            Phase::Executing
        },
        ..s
    }
}

/// The state after `e` happened in state `s`. An event that the phase does
/// not wait for changes nothing.
pub open spec fn transition(s: EngineView, e: EventView) -> EngineView {
    match s.phase {
        Phase::Initializing => match e {
            EventView::Connected => EngineView { phase: Phase::Validating, ..s },
            EventView::Unreachable => failed(s, MigrationErrorView::Connectivity),
            _ => s,
        },
        Phase::Validating => match e {
            EventView::Listed { applied } => validated(s, applied),
            EventView::Unreachable => failed(s, MigrationErrorView::Connectivity),
            _ => s,
        },
        Phase::Executing => match e {
            EventView::Committed { applied_at, duration } => committed(s, applied_at, duration),
            EventView::RolledBack => failed(
                s,
                MigrationErrorView::Execution { version: s.plan[s.done as int] },
            ),
            _ => s,
        },
        Phase::Reporting => match e {
            EventView::Reported => EngineView { phase: Phase::Done, ..s },
            _ => s,
        },
        Phase::Done => s,
        Phase::Failed => s,
    }
}

/// The state after the events `events` happened one after the other.
pub open spec fn run(s: EngineView, events: Seq<EventView>) -> EngineView
    decreases events.len(),
{
    if events.len() == 0 {
        s
    } else {
        transition(run(s, events.drop_last()), events.last())
    }
}

/// The events of a store at which every script succeeds: one commit for
/// each step, each with the time at which it was committed and the time it
/// took.
pub open spec fn commits(stamps: Seq<(int, int)>) -> Seq<EventView> {
    stamps.map_values(|t: (int, int)| EventView::Committed { applied_at: t.0, duration: t.1 })
}

/// The state at the end of a run over a store that is reached, lists
/// `applied`, commits each step and takes the report.
pub open spec fn successful_run(
    defined: Seq<MigrationDefinitionView>,
    request: Request,
    applied: Seq<AppliedRecordView>,
    stamps: Seq<(int, int)>,
) -> EngineView {
    run(
        run(
            run(
                initial(defined, request),
                seq![EventView::Connected, EventView::Listed { applied }],
            ),
            commits(stamps),
        ),
        seq![EventView::Reported],
    )
}

/// What the caller is to do in state `s`.
pub open spec fn action_of(s: EngineView) -> Action {
    match s.phase {
        Phase::Initializing => Action::Connect,
        Phase::Validating => Action::ListApplied,
        Phase::Executing => match s.request {
            Request::Status { .. } => Action::Report,
            Request::Apply { .. } => Action::Apply { version: s.plan[s.done as int] },
            Request::Revert { .. } => Action::Revert { version: s.plan[s.done as int] },
        },
        Phase::Reporting => Action::Report,
        Phase::Done => Action::Stop,
        Phase::Failed => Action::Abort,
    }
}

/// The mathematical value of a failure, if there is one.
pub open spec fn failure_view(failure: Option<MigrationError>) -> Option<MigrationErrorView> {
    match failure {
        Some(e) => Some(e@),
        None => None,
    }
}

/// One run of the engine against one target store.
#[derive(Debug, Clone, PartialEq, Eq)]
pub struct ReconciliationEngine {
    request: Request,
    source: MigrationSource,
    ledger: Ledger,
    phase: Phase,
    plan: Vec<Version>,
    done: usize,
    failure: Option<MigrationError>,
    lines: Vec<StatusEntry>,
    advisory: Vec<Version>,
    requested: u64,
}

impl View for ReconciliationEngine {
    type V = EngineView;

    closed spec fn view(&self) -> EngineView {
        EngineView {
            request: self.request,
            defined: self.source@,
            ledger: self.ledger@,
            phase: self.phase,
            plan: self.plan@,
            done: self.done as nat,
            failure: failure_view(self.failure),
            lines: status_views(self.lines@),
            advisory: self.advisory@,
            requested: self.requested as nat,
        }
    }
}

impl ReconciliationEngine {
    /// What every engine satisfies: its source and its ledger are valid,
    /// and while it executes a step of its plan is still open.
    pub closed spec fn wf(&self) -> bool {
        &&& self.source.wf()
        &&& self.ledger.wf()
        &&& self.done <= self.plan@.len()
        &&& self.phase == Phase::Executing ==> self.done < self.plan@.len()
    }

    /// A run of `request` over `source` that has not reached the store yet.
    pub fn new(source: MigrationSource, request: Request) -> (engine: ReconciliationEngine)
        requires
            source.wf(),
        ensures
            engine.wf(),
            engine@ == initial(source@, request),
    {
        let engine = ReconciliationEngine {
            request,
            source,
            ledger: Ledger::new(),
            phase: Phase::Initializing,
            plan: Vec::new(),
            done: 0,
            failure: None,
            lines: Vec::new(),
            advisory: Vec::new(),
            requested: 0,
        };
        assert(engine@.plan =~= Seq::empty());
        assert(engine@.lines =~= Seq::empty());
        assert(engine@.advisory =~= Seq::empty());
        engine
    }

    /// The phase of the run.
    pub fn phase(&self) -> (phase: Phase)
        ensures
            phase == self@.phase,
    {
        self.phase
    }

    /// The request that the run serves.
    pub fn request(&self) -> (request: Request)
        ensures
            request == self@.request,
    {
        self.request
    }

    /// The definitions that the run works on.
    pub fn source(&self) -> (source: &MigrationSource)
        requires
            self.wf(),
        ensures
            source.wf(),
            source@ == self@.defined,
    {
        &self.source
    }

    /// The ledger as the run knows it: what the store listed, with every
    /// committed step of this run followed.
    pub fn ledger(&self) -> (ledger: &Ledger)
        requires
            self.wf(),
        ensures
            ledger.wf(),
            ledger@ == self@.ledger,
    {
        &self.ledger
    }

    /// The versions that the run executes, in order.
    pub fn plan(&self) -> (plan: &Vec<Version>)
        ensures
            plan@ == self@.plan,
    {
        &self.plan
    }

    /// How many migrations this run has applied or reverted so far.
    pub fn completed(&self) -> (done: usize)
        ensures
            done == self@.done,
    {
        self.done
    }

    /// The failure that ended the run, if it failed.
    pub fn failure(&self) -> (failure: &Option<MigrationError>)
        ensures
            failure_view(*failure) == self@.failure,
    {
        &self.failure
    }

    /// The lines of the status report, highest version first.
    pub fn status_lines(&self) -> (lines: &Vec<StatusEntry>)
        ensures
            status_views(lines@) == self@.lines,
    {
        &self.lines
    }

    /// The defined versions that can never be reverted, lowest first, once
    /// the run has compared what is defined with what is applied.
    pub fn advisory(&self) -> (advisory: &Vec<Version>)
        ensures
            advisory@ == self@.advisory,
    {
        &self.advisory
    }

    /// How many migrations a revert was asked to undo.
    pub fn requested(&self) -> (requested: u64)
        ensures
            requested == self@.requested,
    {
        self.requested
    }

    /// What the caller is to do next.
    pub fn next_action(&self) -> (action: Action)
        requires
            self.wf(),
        ensures
            action == action_of(self@),
    {
        match self.phase {
            Phase::Initializing => Action::Connect,
            Phase::Validating => Action::ListApplied,
            Phase::Executing => match self.request {
                Request::Status { .. } => Action::Report,
                Request::Apply { .. } => Action::Apply { version: self.plan[self.done] },
                Request::Revert { .. } => Action::Revert { version: self.plan[self.done] },
            },
            Phase::Reporting => Action::Report,
            Phase::Done => Action::Stop,
            Phase::Failed => Action::Abort,
        }
    }

    /// Leaves the current phase with a failure.
    fn fail(&mut self, error: MigrationError)
        requires
            old(self).wf(),
        ensures
            final(self).wf(),
            final(self)@ == failed(old(self)@, error@),
    {
        self.phase = Phase::Failed;
        self.failure = Some(error);
    }

    /// Takes the plan of the run and enters the phase that it calls for.
    fn start(&mut self, plan: Vec<Version>)
        requires
            old(self).wf(),
        ensures
            final(self).wf(),
            final(self)@ == planned(old(self)@, plan@),
    {
        self.phase = if plan.len() == 0 {
            Phase::Reporting
        } else {
            Phase::Executing
        };
        self.plan = plan;
        self.done = 0;
    }

    /// Takes the ledger that the store listed and decides what the run does.
    fn validate(&mut self, ledger: Ledger)
        requires
            old(self).wf(),
            ledger.wf(),
        ensures
            final(self).wf(),
            final(self)@ == validated(old(self)@, ledger.entries()),
    {
        self.ledger = ledger;
        self.advisory = hunt_simple_migrations(&self.source);
        self.requested = 0;
        match self.request {
            Request::Status { ignore_missing } => {
                match status(&self.source, &self.ledger, ignore_missing) {
                    Ok(lines) => {
                        self.lines = lines;
                        self.phase = Phase::Reporting;
                    },
                    Err(e) => {
                        self.fail(e);
                    },
                }
            },
            Request::Apply { ignore_missing } => {
                match plan_apply(&self.source, &self.ledger, ignore_missing) {
                    Ok(plan) => {
                        self.start(plan);
                    },
                    Err(e) => {
                        self.fail(e);
                    },
                }
            },
            Request::Revert { count, all, ignore_missing } => {
                let target: u64 = if all {
                    count_applied(&self.source, &self.ledger) as u64
                } else {
                    match count {
                        Some(n) => n,
                        None => 1,
                    }
                };
                self.requested = target;
                match plan_revert(&self.source, &self.ledger, target, ignore_missing) {
                    Ok(plan) => {
                        self.start(plan);
                    },
                    Err(e) => {
                        self.fail(e);
                    },
                }
            },
        }
    }

    /// Follows the commit of the current step.
    fn commit(&mut self, applied_at: i64, duration: u64)
        requires
            old(self).wf(),
            old(self)@.phase == Phase::Executing,
        ensures
            final(self).wf(),
            final(self)@ == committed(old(self)@, applied_at as int, duration as int),
    {
        let version = self.plan[self.done];
        let steps = self.plan.len();
        let next = self.done + 1;
        match self.request {
            Request::Status { .. } => {},
            Request::Apply { .. } => {
                match self.source.find(version) {
                    Some(definition) => {
                        let checksum = copy_bytes(&definition.content_checksum);
                        let _ = self.ledger.record_apply(version, checksum, applied_at, duration);
                    },
                    None => {},
                }
            },
            Request::Revert { .. } => {
                let _ = self.ledger.record_revert(version);
            },
        }
        self.done = next;
        self.phase = if next == steps {
            Phase::Reporting
        } else {
            Phase::Executing
        };
    }

    /// Takes what happened at the store and answers with what to do next.
    /// An event that the phase does not wait for changes nothing, and the
    /// answer is again what the engine waits for.
    pub fn step(&mut self, event: Event) -> (action: Action)
        requires
            old(self).wf(),
            event.wf(),
        ensures
            final(self).wf(),
            final(self)@ == transition(old(self)@, event@),
            action == action_of(final(self)@),
    {
        match self.phase {
            Phase::Initializing => match event {
                Event::Connected => {
                    self.phase = Phase::Validating;
                },
                Event::Unreachable => {
                    self.fail(MigrationError::Connectivity);
                },
                _ => {},
            },
            Phase::Validating => match event {
                Event::Listed(ledger) => {
                    self.validate(ledger);
                },
                Event::Unreachable => {
                    self.fail(MigrationError::Connectivity);
                },
                _ => {},
            },
            Phase::Executing => match event {
                Event::Committed { applied_at, duration } => {
                    self.commit(applied_at, duration);
                },
                Event::RolledBack => {
                    let version = self.plan[self.done];
                    self.fail(MigrationError::Execution { version });
                },
                _ => {},
            },
            Phase::Reporting => match event {
                Event::Reported => {
                    self.phase = Phase::Done;
                },
                _ => {},
            },
            Phase::Done => {},
            Phase::Failed => {},
        }
        self.next_action()
    }
}

} // verus!

//! The commands that work on the database.

pub mod down;
pub mod env_file;
pub mod reset;
pub mod status;
pub mod up;

use vstd::prelude::*;
use crate::cli::database::down::DownDatabase;
use crate::cli::database::reset::{ResetDatabase, ResetStep};
use crate::cli::database::status::StatusDatabase;
use crate::cli::database::up::UpDatabase;
use crate::migrate::definition::Version;
use crate::migrate::engine::{Request, target_count};
use crate::migrate::error::{MigrationError, MigrationErrorView};
use crate::migrate::ledger::Ledger;
use crate::migrate::plan::{
    StatusEntry, StatusEntryView, applied_count, apply_outcome, revert_outcome, status_outcome,
    status_views,
};
use crate::migrate::source::MigrationSource;

verus! {

/// One of the database commands.
#[derive(Debug, Clone, Copy, PartialEq, Eq, Structural)]
pub enum DatabaseCommand {
    Up(UpDatabase),
    Down(DownDatabase),
    Reset(ResetDatabase),
    Status(StatusDatabase),
}

/// Database related commands.
#[derive(Debug, Clone, Copy, PartialEq, Eq, Structural)]
pub struct Database {
    pub command: Option<DatabaseCommand>,
}

impl Default for Database {
    fn default() -> (database: Database)
        ensures
            database.command is None,
    {
        Database { command: None }
    }
}

/// What a database command has to go by: what is defined, what the store
/// has applied, and whether the store can be reached at all.
pub struct DatabaseContext {
    pub source: MigrationSource,
    pub ledger: Ledger,
    pub reachable: bool,
}

impl DatabaseContext {
    /// The source and the ledger of the context are valid.
    pub open spec fn wf(&self) -> bool {
        self.source.wf() && self.ledger.wf()
    }
}

/// What a database command decided.
#[derive(Debug, Clone, PartialEq, Eq)]
pub enum DatabaseOutcome {
    /// No command was given.
    Nothing,
    /// The versions to apply, lowest first.
    Apply(Vec<Version>),
    /// The versions to roll back, highest first.
    Revert(Vec<Version>),
    /// Where each defined migration stands, highest version first.
    Report(Vec<StatusEntry>),
    /// The steps of a reset, in order.
    Reset(Vec<ResetStep>),
}

/// Mathematical value of a [`DatabaseOutcome`].
pub ghost enum DatabaseOutcomeView {
    Nothing,
    Apply(Seq<Version>),
    Revert(Seq<Version>),
    Report(Seq<StatusEntryView>),
    Reset(Seq<ResetStep>),
}

impl View for DatabaseOutcome {
    type V = DatabaseOutcomeView;

    open spec fn view(&self) -> DatabaseOutcomeView {
        match *self {
            DatabaseOutcome::Nothing => DatabaseOutcomeView::Nothing,
            DatabaseOutcome::Apply(plan) => DatabaseOutcomeView::Apply(plan@),
            DatabaseOutcome::Revert(plan) => DatabaseOutcomeView::Revert(plan@),
            DatabaseOutcome::Report(report) => DatabaseOutcomeView::Report(status_views(report@)),
            DatabaseOutcome::Reset(steps) => DatabaseOutcomeView::Reset(steps@),
        }
    }
}

/// The mathematical value of an outcome or of the failure in its place.
pub open spec fn outcome_view(r: Result<DatabaseOutcome, MigrationError>) -> Result<
    DatabaseOutcomeView,
    MigrationErrorView,
> {
    match r {
        Ok(outcome) => Ok(outcome@),
        Err(e) => Err(e@),
    }
}

impl DatabaseCommand {
    /// What the command decides in `context`: each command decides as its
    /// own `run` does.
    pub open spec fn spec_execute(&self, context: &DatabaseContext) -> Result<
        DatabaseOutcomeView,
        MigrationErrorView,
    > {
        let defined = context.source@;
        let applied = context.ledger.entries();
        match *self {
            DatabaseCommand::Up(up) => match apply_outcome(defined, applied, up.ignore_missing) {
                Ok(plan) => Ok(DatabaseOutcomeView::Apply(plan)),
                Err(e) => Err(e),
            },
            DatabaseCommand::Down(down) => match revert_outcome(
                defined,
                applied,
                target_count(
                    down.spec_count(),
                    down.spec_all(),
                    applied_count(defined, context.ledger@),
                ),
                down.spec_ignore_missing(),
            ) {
                Ok(plan) => Ok(DatabaseOutcomeView::Revert(plan)),
                Err(e) => Err(e),
            },
            DatabaseCommand::Reset(reset) => Ok(
                DatabaseOutcomeView::Reset(reset.spec_steps(context.reachable)),
            ),
            DatabaseCommand::Status(status) => match status_outcome(
                defined,
                applied,
                status.spec_ignore_missing(),
            ) {
                Ok(report) => Ok(DatabaseOutcomeView::Report(report)),
                Err(e) => Err(e),
            },
        }
    }

    /// What the command asks of the engine. A reset asks nothing of it.
    pub fn request(&self) -> (request: Option<Request>)
        ensures
            request == match *self {
                DatabaseCommand::Up(up) => Some(
                    Request::Apply { ignore_missing: up.ignore_missing },
                ),
                DatabaseCommand::Down(down) => Some(
                    Request::Revert {
                        count: down.spec_count(),
                        all: down.spec_all(),
                        ignore_missing: down.spec_ignore_missing(),
                    },
                ),
                DatabaseCommand::Reset(_) => None,
                DatabaseCommand::Status(status) => Some(
                    Request::Status { ignore_missing: status.spec_ignore_missing() },
                ),
            },
    {
        match self {
            DatabaseCommand::Up(up) => Some(up.request()),
            DatabaseCommand::Down(down) => Some(down.request()),
            DatabaseCommand::Reset(_) => None,
            DatabaseCommand::Status(status) => Some(status.request()),
        }
    }

    /// Decides what the command does in `context`.
    pub fn execute(&self, context: &DatabaseContext) -> (r: Result<
        DatabaseOutcome,
        MigrationError,
    >)
        requires
            context.wf(),
        ensures
            outcome_view(r) == self.spec_execute(context),
    {
        match self {
            DatabaseCommand::Up(up) => match up.run(&context.source, &context.ledger) {
                Ok(plan) => Ok(DatabaseOutcome::Apply(plan)),
                Err(e) => Err(e),
            },
            DatabaseCommand::Down(down) => match down.run(&context.source, &context.ledger) {
                Ok(plan) => Ok(DatabaseOutcome::Revert(plan)),
                Err(e) => Err(e),
            },
            DatabaseCommand::Reset(reset) => Ok(DatabaseOutcome::Reset(reset.run(context.reachable))),
            DatabaseCommand::Status(status) => match status.run(
                &context.source,
                &context.ledger,
            ) {
                Ok(report) => Ok(DatabaseOutcome::Report(report)),
                Err(e) => Err(e),
            },
        }
    }
}

impl Database {
    /// Decides what the given command does in `context`. Where no command
    /// was given there is nothing to do.
    pub fn run(&self, context: &DatabaseContext) -> (r: Result<DatabaseOutcome, MigrationError>)
        requires
            context.wf(),
        ensures
            outcome_view(r) == match self.command {
                Some(command) => command.spec_execute(context),
                None => Ok(DatabaseOutcomeView::Nothing),
            },
    {
        match &self.command {
            Some(command) => command.execute(context),
            None => Ok(DatabaseOutcome::Nothing),
        }
    }
}

} // verus!

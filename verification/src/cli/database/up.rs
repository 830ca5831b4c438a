//! The command that applies pending migrations.

use vstd::prelude::*;
use crate::migrate::definition::Version;
use crate::migrate::engine::Request;
use crate::migrate::error::MigrationError;
use crate::migrate::ledger::Ledger;
use crate::migrate::plan::{apply_outcome, plan_apply, plan_view};
use crate::migrate::source::MigrationSource;

verus! {

/// Apply all pending database migrations.
#[derive(Debug, Clone, Copy, PartialEq, Eq, Structural)]
pub struct UpDatabase {
    /// Tolerate applied migrations that are no longer defined.
    pub ignore_missing: bool,
}

impl UpDatabase {
    /// The command with its option.
    pub fn new(ignore_missing: bool) -> (command: UpDatabase)
        ensures
            command.ignore_missing == ignore_missing,
    {
        UpDatabase { ignore_missing }
    }

    /// What the command asks of the engine.
    pub fn request(&self) -> (request: Request)
        ensures
            request == (Request::Apply { ignore_missing: self.ignore_missing }),
    {
        Request::Apply { ignore_missing: self.ignore_missing }
    }

    /// Decides what the command does to a store with this ledger: the
    /// versions to apply, lowest first, or the failure that forbids applying
    /// anything.
    pub fn run(&self, source: &MigrationSource, ledger: &Ledger) -> (r: Result<
        Vec<Version>,
        MigrationError,
    >)
        requires
            source.wf(),
            ledger.wf(),
        ensures
            plan_view(r) == apply_outcome(source@, ledger.entries(), self.ignore_missing),
    {
        plan_apply(source, ledger, self.ignore_missing)
    }
}

} // verus!

//! The command that reports where each migration stands.

use vstd::prelude::*;
use crate::migrate::engine::Request;
use crate::migrate::error::MigrationError;
use crate::migrate::ledger::Ledger;
use crate::migrate::plan::{StatusEntry, report_view, status, status_outcome};
use crate::migrate::source::MigrationSource;

verus! {

/// Show the status of database migrations.
#[derive(Debug, Clone, Copy, PartialEq, Eq, Structural)]
pub struct StatusDatabase {
    /// Tolerate applied migrations that are no longer defined.
    ignore_missing: bool,
}

impl StatusDatabase {
    /// Whether missing migrations are tolerated.
    pub closed spec fn spec_ignore_missing(&self) -> bool {
        self.ignore_missing
    }

    /// The command with its option.
    pub fn new(ignore_missing: bool) -> (command: StatusDatabase)
        ensures
            command.spec_ignore_missing() == ignore_missing,
    {
        StatusDatabase { ignore_missing }
    }

    /// What the command asks of the engine.
    pub fn request(&self) -> (request: Request)
        ensures
            request == (Request::Status { ignore_missing: self.spec_ignore_missing() }),
    {
        Request::Status { ignore_missing: self.ignore_missing }
    }

    /// Reports where each defined migration stands at a store with this
    /// ledger, highest version first.
    pub fn run(&self, source: &MigrationSource, ledger: &Ledger) -> (r: Result<
        Vec<StatusEntry>,
        MigrationError,
    >)
        requires
            source.wf(),
            ledger.wf(),
        ensures
            report_view(r) == status_outcome(
                source@,
                ledger.entries(),
                self.spec_ignore_missing(),
            ),
    {
        status(source, ledger, self.ignore_missing)
    }
}

} // verus!

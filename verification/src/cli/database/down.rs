//! The command that rolls applied migrations back.

use vstd::prelude::*;
use crate::migrate::definition::Version;
use crate::migrate::engine::{Request, target_count};
use crate::migrate::error::MigrationError;
use crate::migrate::ledger::Ledger;
use crate::migrate::plan::{applied_count, count_applied, plan_revert, plan_view, revert_outcome};
use crate::migrate::source::MigrationSource;

verus! {

/// Rollback applied database migrations.
#[derive(Debug, Clone, Copy, PartialEq, Eq, Structural)]
pub struct DownDatabase {
    /// How many migrations to roll back. One where nothing is given.
    count: Option<u64>,
    /// Roll back all applied migrations.
    all: bool,
    /// Tolerate applied migrations that are no longer defined.
    ignore_missing: bool,
}

impl DownDatabase {
    /// The count as given.
    pub closed spec fn spec_count(&self) -> Option<u64> {
        self.count
    }

    /// Whether all applied migrations are to be rolled back.
    pub closed spec fn spec_all(&self) -> bool {
        self.all
    }

    /// Whether missing migrations are tolerated.
    pub closed spec fn spec_ignore_missing(&self) -> bool {
        self.ignore_missing
    }

    /// The command with its options.
    pub fn new(count: Option<u64>, all: bool, ignore_missing: bool) -> (command: DownDatabase)
        ensures
            command.spec_count() == count,
            command.spec_all() == all,
            command.spec_ignore_missing() == ignore_missing,
    {
        DownDatabase { count, all, ignore_missing }
    }

    /// Whether the command rolls back everything, which the caller had
    /// better confirm before it runs.
    pub fn all(&self) -> (all: bool)
        ensures
            all == self.spec_all(),
    {
        self.all
    }

    /// What the command asks of the engine.
    pub fn request(&self) -> (request: Request)
        ensures
            request == (Request::Revert {
                count: self.spec_count(),
                all: self.spec_all(),
                ignore_missing: self.spec_ignore_missing(),
            }),
    {
        Request::Revert { count: self.count, all: self.all, ignore_missing: self.ignore_missing }
    }

    /// How many migrations the command is to roll back where `applied` are
    /// applied.
    pub fn target(&self, applied: usize) -> (target: u64)
        ensures
            target == target_count(self.spec_count(), self.spec_all(), applied as nat),
    {
        if self.all {
            applied as u64
        } else {
            match self.count {
                Some(n) => n,
                None => 1,
            }
        }
    }

    /// Decides what the command does to a store with this ledger: the
    /// versions to roll back, highest first, or the failure that forbids
    /// rolling anything back.
    pub fn run(&self, source: &MigrationSource, ledger: &Ledger) -> (r: Result<
        Vec<Version>,
        MigrationError,
    >)
        requires
            source.wf(),
            ledger.wf(),
        ensures
            plan_view(r) == revert_outcome(
                source@,
                ledger.entries(),
                target_count(
                    self.spec_count(),
                    self.spec_all(),
                    applied_count(source@, ledger@),
                ),
                self.spec_ignore_missing(),
            ),
    {
        let target = self.target(count_applied(source, ledger));
        plan_revert(source, ledger, target, self.ignore_missing)
    }
}

} // verus!

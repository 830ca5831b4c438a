//! The command that drops the database and builds it anew.

use vstd::prelude::*;
use crate::cli::database::up::UpDatabase;

verus! {

/// Reset the database by dropping and recreating it.
#[derive(Debug, Clone, Copy, PartialEq, Eq, Structural)]
pub struct ResetDatabase {
    /// Drop the database even while others are connected to it.
    force: bool,
    /// Apply all migrations again after the drop.
    recreate: bool,
}

/// One thing that a reset does at the store.
#[derive(Debug, Clone, Copy, PartialEq, Eq, Structural)]
pub enum ResetStep {
    /// Drop the database, closing the connections of others first.
    ForceDrop,
    /// Drop the database.
    Drop,
    /// Apply every migration to the fresh database.
    Recreate(UpDatabase),
}

impl ResetDatabase {
    /// Whether the drop is forced.
    pub closed spec fn spec_force(&self) -> bool {
        self.force
    }

    /// Whether the database is built anew after the drop.
    pub closed spec fn spec_recreate(&self) -> bool {
        self.recreate
    }

    /// The command with its options.
    pub fn new(force: bool, recreate: bool) -> (command: ResetDatabase)
        ensures
            command.spec_force() == force,
            command.spec_recreate() == recreate,
    {
        ResetDatabase { force, recreate }
    }

    /// Whether the drop is forced.
    pub fn force(&self) -> (force: bool)
        ensures
            force == self.spec_force(),
    {
        self.force
    }

    /// The steps of a reset, in order. A store that cannot be reached is
    /// left alone. A forced reset closes the connections of others and then
    /// drops the database as an unforced one does. The fresh database is
    /// built with missing migrations not tolerated.
    pub open spec fn spec_steps(&self, reachable: bool) -> Seq<ResetStep> {
        if !reachable {
            Seq::empty()
        } else {
            let forced = if self.spec_force() {
                seq![ResetStep::ForceDrop]
            } else {
                Seq::empty()
            };
            let rebuilt = if self.spec_recreate() {
                seq![ResetStep::Recreate(UpDatabase { ignore_missing: false })]
            } else {
                Seq::empty()
            };
            forced + seq![ResetStep::Drop] + rebuilt
        }
    }

    /// Decides what the command does, given whether the store can be
    /// reached.
    pub fn run(&self, reachable: bool) -> (steps: Vec<ResetStep>)
        ensures
            steps@ == self.spec_steps(reachable),
    {
        let mut steps: Vec<ResetStep> = Vec::new();
        if !reachable {
            return steps;
        }
        if self.force {
            steps.push(ResetStep::ForceDrop);
        }
        steps.push(ResetStep::Drop);
        if self.recreate {
            steps.push(ResetStep::Recreate(UpDatabase::new(false)));
        }
        assert(steps@ =~= self.spec_steps(reachable));
        steps
    }
}

} // verus!

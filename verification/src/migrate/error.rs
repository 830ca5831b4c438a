//! The failures of a run.

use vstd::prelude::*;
use crate::migrate::definition::Version;

verus! {

/// Why a set of migration files could not be turned into definitions.
#[derive(Debug, Clone, PartialEq, Eq)]
pub enum ParseError {
    /// The part of a file's name before the first underscore is no version.
    InvalidVersion { name: String },
    /// Two files define the same variant of one version.
    DuplicateVersion { version: Version },
    /// The content of a file could not be read, so it has no checksum.
    UnreadableContent { name: String },
}

/// Mathematical value of a [`ParseError`].
pub ghost enum ParseErrorView {
    InvalidVersion { name: Seq<char> },
    DuplicateVersion { version: Version },
    UnreadableContent { name: Seq<char> },
}

impl View for ParseError {
    type V = ParseErrorView;

    open spec fn view(&self) -> ParseErrorView {
        match *self {
            ParseError::InvalidVersion { name } => ParseErrorView::InvalidVersion { name: name@ },
            ParseError::DuplicateVersion { version } => ParseErrorView::DuplicateVersion {
                version,
            },
            ParseError::UnreadableContent { name } => ParseErrorView::UnreadableContent {
                name: name@,
            },
        }
    }
}

/// Why a run stopped. Each of these ends the phase in which it arises.
#[derive(Debug, Clone, PartialEq, Eq)]
pub enum MigrationError {
    /// The source is malformed. Nothing has touched the store.
    Parse(ParseError),
    /// The store cannot be reached. Nothing has been changed.
    Connectivity,
    /// The ledger records versions that the source does not define, and the
    /// caller does not tolerate that.
    MissingMigration { versions: Vec<Version> },
    /// An applied migration was edited after it was applied.
    ModifiedMigration { version: Version },
    /// More reverts were asked for than migrations are applied. Nothing has
    /// been changed.
    InsufficientHistory { requested: u64, applied: u64 },
    /// A script failed. Its transaction was rolled back; what was committed
    /// before it in the same run stays committed.
    Execution { version: Version },
}

/// Mathematical value of a [`MigrationError`].
pub ghost enum MigrationErrorView {
    Parse(ParseErrorView),
    Connectivity,
    MissingMigration { versions: Seq<Version> },
    ModifiedMigration { version: Version },
    InsufficientHistory { requested: nat, applied: nat },
    Execution { version: Version },
}

impl View for MigrationError {
    type V = MigrationErrorView;

    open spec fn view(&self) -> MigrationErrorView {
        match *self {
            MigrationError::Parse(e) => MigrationErrorView::Parse(e@),
            MigrationError::Connectivity => MigrationErrorView::Connectivity,
            MigrationError::MissingMigration { versions } => MigrationErrorView::MissingMigration {
                versions: versions@,
            },
            MigrationError::ModifiedMigration { version } => MigrationErrorView::ModifiedMigration {
                version,
            },
            MigrationError::InsufficientHistory {
                requested,
                applied,
            } => MigrationErrorView::InsufficientHistory {
                requested: requested as nat,
                applied: applied as nat,
            },
            MigrationError::Execution { version } => MigrationErrorView::Execution { version },
        }
    }
}

} // verus!

//! The commands of the toolbelt, as a tagged union that is dispatched by
//! matching.

pub mod database;
pub mod settings;

use vstd::prelude::*;
use crate::cli::database::Database;
use crate::cli::settings::Settings;

verus! {

/// The commands of the toolbelt.
#[derive(Debug, Clone, PartialEq, Eq)]
pub enum Commands {
    Settings(Settings),
    Database(Database),
}

} // verus!

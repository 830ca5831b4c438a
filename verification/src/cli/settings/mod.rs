//! The commands that work on settings files.

pub mod generate;
pub mod update;

use vstd::prelude::*;
use crate::cli::settings::generate::GenerateSettings;
use crate::cli::settings::update::UpdateSettings;

verus! {

/// One of the settings commands.
#[derive(Debug, Clone, PartialEq, Eq)]
pub enum SettingsCommand {
    Generate(GenerateSettings),
    Update(UpdateSettings),
}

/// Settings related commands.
#[derive(Debug, Clone, PartialEq, Eq)]
pub struct Settings {
    pub command: Option<SettingsCommand>,
}

impl Default for Settings {
    fn default() -> (settings: Settings)
        ensures
            settings.command is None,
    {
        Settings { command: None }
    }
}

} // verus!

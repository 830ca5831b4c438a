//! What every part of the running service shares.

use vstd::prelude::*;
use crate::settings::Settings;

verus! {

/// The state that the parts of the service share.
pub struct GlobalState {
    settings: Settings,
}

impl GlobalState {
    /// The settings that the state was made with.
    pub closed spec fn spec_settings(&self) -> Settings {
        self.settings
    }

    /// The shared state of a service that runs with `settings`.
    pub fn new(settings: Settings) -> (state: GlobalState)
        ensures
            state.spec_settings() == settings,
    {
        GlobalState { settings }
    }

    /// The settings that the service runs with.
    pub fn settings(&self) -> (settings: &Settings)
        ensures
            *settings == self.spec_settings(),
    {
        &self.settings
    }
}

} // verus!

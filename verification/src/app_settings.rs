//! flock's own application settings, kept apart from the device registry.

use vstd::prelude::*;

use crate::device::opt_view;
use crate::text::copy_opt;

verus! {

/// Application-level settings.
#[derive(Clone, Debug, Default, PartialEq, Eq)]
pub struct AppSettings {
    /// The operator's NDI Discovery Server address, if they run one. flock
    /// cannot speak that server's protocol itself; the address is pushed to
    /// every device's own Network settings, which can.
    pub discovery_server: Option<String>,
}

impl View for AppSettings {
    type V = Option<Seq<char>>;

    open spec fn view(&self) -> Option<Seq<char>> {
        opt_view(self.discovery_server)
    }
}

impl AppSettings {
    /// A copy of these settings.
    pub fn duplicate(&self) -> (r: Self)
        ensures
            r@ == self@,
    {
        AppSettings { discovery_server: copy_opt(&self.discovery_server) }
    }
}

/// The current application settings (persisting them is the caller's).
pub struct AppSettingsStore {
    settings: AppSettings,
}

impl View for AppSettingsStore {
    type V = Option<Seq<char>>;

    closed spec fn view(&self) -> Option<Seq<char>> {
        self.settings@
    }
}

impl AppSettingsStore {
    /// A store holding `settings`.
    pub fn new(settings: AppSettings) -> (s: Self)
        ensures
            s@ == settings@,
    {
        AppSettingsStore { settings }
    }

    /// The current settings.
    pub fn get(&self) -> (r: AppSettings)
        ensures
            r@ == self@,
    {
        self.settings.duplicate()
    }

    /// Replaces the settings.
    pub fn set(&mut self, settings: AppSettings)
        ensures
            final(self)@ == settings@,
    {
        self.settings = settings;
    }
}

} // verus!

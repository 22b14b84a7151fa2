//! The server's configuration and the start-up decisions taken from it.

use vstd::prelude::*;

use crate::device::opt_view;
use crate::registry::Registry;
use crate::text::{owned, str_eq};

verus! {

/// The server's configuration; every field has a default.
#[derive(Clone)]
pub struct Config {
    pub bind: String,
    pub registry_path: String,
    pub app_settings_path: String,
    /// Seeds a few canned simulated devices on first run, so a fresh
    /// instance is not an empty screen; no effect once the registry holds
    /// devices.
    pub seed_demo_devices: bool,
    /// `"mock"` (default) talks to the built-in simulated Play; `"http"` to
    /// real BirdDog PLAY hardware over its BirdUI.
    pub provider: String,
    /// Unset (default) means the web UI has no login gate; set, one shared
    /// session login protects everything.
    pub admin_password: Option<String>,
}

impl Default for Config {
    fn default() -> (c: Self)
        ensures
            c.bind@ == "0.0.0.0:8080"@,
            c.registry_path@ == "data/registry.json"@,
            c.app_settings_path@ == "data/app_settings.json"@,
            c.seed_demo_devices,
            c.provider@ == "mock"@,
            c.admin_password is None,
    {
        Config {
            bind: owned("0.0.0.0:8080"),
            registry_path: owned("data/registry.json"),
            app_settings_path: owned("data/app_settings.json"),
            seed_demo_devices: true,
            provider: owned("mock"),
            admin_password: None,
        }
    }
}

/// Which device backend the server uses.
#[derive(Clone, Copy, Debug, PartialEq, Eq)]
pub enum ProviderKind {
    /// Real hardware over BirdUI.
    Http,
    /// The built-in simulated device.
    Mock,
}

impl Config {
    /// `"http"` selects real hardware; anything else the simulated device.
    pub fn provider_kind(&self) -> (k: ProviderKind)
        ensures
            k == (if self.provider@ == "http"@ {
                ProviderKind::Http
            } else {
                ProviderKind::Mock
            }),
    {
        if str_eq(self.provider.as_str(), "http") {
            ProviderKind::Http
        } else {
            ProviderKind::Mock
        }
    }

    /// The admin password as the configuration is shown in logs: never the
    /// password itself, only `<redacted>` where one is set.
    pub fn shown_admin_password(&self) -> (r: Option<String>)
        ensures
            match self.admin_password {
                Some(_) => r matches Some(s) && s@ == "<redacted>"@,
                None => r is None,
            },
    {
        match &self.admin_password {
            Some(_) => Some(owned("<redacted>")),
            None => None,
        }
    }

    /// Whether the web UI asks for a login.
    pub fn requires_login(&self) -> (r: bool)
        ensures
            r == opt_view(self.admin_password) is Some,
    {
        self.admin_password.is_some()
    }
}

/// Whether to seed the demo devices at start-up: asked for, and the
/// registry is still empty.
pub fn should_seed_demo(config: &Config, registry: &Registry) -> (r: bool)
    ensures
        r == (config.seed_demo_devices && registry@.dom().len() == 0),
{
    config.seed_demo_devices && registry.len() == 0
}

} // verus!

//! Application settings and the store that holds the current ones.
use vstd::prelude::*;

verus! {

/// The user's application settings.
#[derive(Debug)]
pub struct Settings {
    pub theme: String,
    pub autostart_enabled: bool,
    pub port_range_min: u16,
    pub port_range_max: u16,
    pub notifications_enabled: bool,
}

/// The value of `Settings`.
pub struct SettingsSpec {
    pub theme: Seq<char>,
    pub autostart_enabled: bool,
    pub port_range_min: u16,
    pub port_range_max: u16,
    pub notifications_enabled: bool,
}

impl View for Settings {
    type V = SettingsSpec;

    open spec fn view(&self) -> SettingsSpec {
        SettingsSpec {
            theme: self.theme@,
            autostart_enabled: self.autostart_enabled,
            port_range_min: self.port_range_min,
            port_range_max: self.port_range_max,
            notifications_enabled: self.notifications_enabled,
        }
    }
}

/// The settings a fresh installation starts with.
pub open spec fn default_settings() -> SettingsSpec {
    SettingsSpec {
        theme: "system"@,
        autostart_enabled: false,
        port_range_min: 1080,
        port_range_max: 1179,
        notifications_enabled: true,
    }
}

/// Whether notifications are on when stored settings do not say.
pub fn default_notifications_enabled() -> (enabled: bool)
    ensures
        enabled,
{
    true
}

impl Default for Settings {
    fn default() -> (s: Settings)
        ensures
            s@ == default_settings(),
    {
        Settings {
            theme: "system".to_owned(),
            autostart_enabled: false,
            port_range_min: 1080,
            port_range_max: 1179,
            notifications_enabled: default_notifications_enabled(),
        }
    }
}

impl Clone for Settings {
    fn clone(&self) -> (copy: Settings)
        ensures
            copy@ == self@,
    {
        Settings {
            theme: self.theme.clone(),
            autostart_enabled: self.autostart_enabled,
            port_range_min: self.port_range_min,
            port_range_max: self.port_range_max,
            notifications_enabled: self.notifications_enabled,
        }
    }
}

/// Holds the current settings, and the path of the file they persist to.
pub struct SettingsStore {
    path: String,
    current: Settings,
}

impl SettingsStore {
    /// The settings the store holds.
    pub closed spec fn current(&self) -> SettingsSpec {
        self.current@
    }

    /// The path of the file the settings persist to.
    pub closed spec fn file(&self) -> Seq<char> {
        self.path@
    }

    /// A store for the settings file at `path`, holding the settings read from it, or
    /// the defaults where there were none to read.
    pub fn load(path: String, stored: Option<Settings>) -> (store: SettingsStore)
        ensures
            store.file() == path@,
            store.current() == match stored {
                Some(s) => s@,
                None => default_settings(),
            },
    {
        let current = match stored {
            Some(s) => s,
            None => Settings::default(),
        };
        SettingsStore { path, current }
    }

    /// The current settings.
    pub fn get(&self) -> (settings: Settings)
        ensures
            settings@ == self.current(),
    {
        self.current.clone()
    }

    /// Replaces the current settings.
    pub fn update(&mut self, settings: Settings)
        ensures
            final(self).current() == settings@,
            final(self).file() == old(self).file(),
    {
        self.current = settings;
    }

    /// The path of the settings file.
    pub fn path(&self) -> (path: &str)
        ensures
            path@ == self.file(),
    {
        self.path.as_str()
    }
}

/// The change to the autostart entry that new settings ask for: `None` where the wanted
/// state is the current one (so the entry is left alone), else `Some(enable)`.
pub fn autostart_change(wanted: bool, currently_enabled: bool) -> (change: Option<bool>)
    ensures
        change == (if wanted == currently_enabled { None } else { Some(wanted) }),
{
    if wanted != currently_enabled {
        Some(wanted)
    } else {
        None
    }
}

} // verus!

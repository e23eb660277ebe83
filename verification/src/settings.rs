use vstd::prelude::*;

use crate::quota::{clone_opt_string, opt_string_view};

verus! {

/// Where the widget window was last placed.
#[derive(Debug, Clone)]
pub struct WindowPlacement {
    pub monitor_id: Option<String>,
    pub x: i32,
    pub y: i32,
}

/// The mathematical content of a [`WindowPlacement`].
pub struct WindowPlacementView {
    pub monitor_id: Option<Seq<char>>,
    pub x: i32,
    pub y: i32,
}

impl View for WindowPlacement {
    type V = WindowPlacementView;

    open spec fn view(&self) -> WindowPlacementView {
        WindowPlacementView { monitor_id: opt_string_view(self.monitor_id), x: self.x, y: self.y }
    }
}

/// The view of an optional placement.
pub open spec fn opt_placement_view(o: Option<WindowPlacement>) -> Option<WindowPlacementView> {
    match o {
        Some(p) => Some(p@),
        None => None,
    }
}

impl WindowPlacement {
    /// A copy of the placement.
    pub fn duplicate(&self) -> (r: WindowPlacement)
        ensures
            r@ == self@,
    {
        WindowPlacement { monitor_id: clone_opt_string(&self.monitor_id), x: self.x, y: self.y }
    }
}

/// The user's settings.
#[derive(Debug, Clone)]
pub struct AppSettings {
    pub schema_version: u8,
    pub always_on_top: bool,
    pub locked: bool,
    pub launch_at_login: bool,
    pub quota_reminder: bool,
    pub reduced_motion: String,
    pub widget_mode: String,
    pub refresh_seconds_visible: u64,
    pub refresh_seconds_hidden: u64,
    pub locale: String,
    pub codex_override: Option<String>,
    pub window_placement: Option<WindowPlacement>,
}

/// The mathematical content of [`AppSettings`].
pub struct AppSettingsView {
    pub schema_version: u8,
    pub always_on_top: bool,
    pub locked: bool,
    pub launch_at_login: bool,
    pub quota_reminder: bool,
    pub reduced_motion: Seq<char>,
    pub widget_mode: Seq<char>,
    pub refresh_seconds_visible: u64,
    pub refresh_seconds_hidden: u64,
    pub locale: Seq<char>,
    pub codex_override: Option<Seq<char>>,
    pub window_placement: Option<WindowPlacementView>,
}

impl View for AppSettings {
    type V = AppSettingsView;

    open spec fn view(&self) -> AppSettingsView {
        AppSettingsView {
            schema_version: self.schema_version,
            always_on_top: self.always_on_top,
            locked: self.locked,
            launch_at_login: self.launch_at_login,
            quota_reminder: self.quota_reminder,
            reduced_motion: self.reduced_motion@,
            widget_mode: self.widget_mode@,
            refresh_seconds_visible: self.refresh_seconds_visible,
            refresh_seconds_hidden: self.refresh_seconds_hidden,
            locale: self.locale@,
            codex_override: opt_string_view(self.codex_override),
            window_placement: opt_placement_view(self.window_placement),
        }
    }
}

/// The settings of a first start: schema 1, on top, unlocked, not launched at login,
/// reminders on, system motion and locale, the default widget, refreshes every 60 s while
/// visible and every 300 s while hidden, no Codex override and no saved placement.
pub open spec fn default_settings() -> AppSettingsView {
    AppSettingsView {
        schema_version: 1,
        always_on_top: true,
        locked: false,
        launch_at_login: false,
        quota_reminder: true,
        reduced_motion: "system"@,
        widget_mode: "default"@,
        refresh_seconds_visible: 60,
        refresh_seconds_hidden: 300,
        locale: "system"@,
        codex_override: None,
        window_placement: None,
    }
}

/// The value that a stored settings file without `quotaReminder` gets for it.
pub fn default_true() -> (b: bool)
    ensures
        b,
{
    true
}

impl Default for AppSettings {
    fn default() -> (s: Self)
        ensures
            s@ == default_settings(),
    {
        AppSettings {
            schema_version: 1,
            always_on_top: true,
            locked: false,
            launch_at_login: false,
            quota_reminder: true,
            reduced_motion: "system".to_owned(),
            widget_mode: "default".to_owned(),
            refresh_seconds_visible: 60,
            refresh_seconds_hidden: 300,
            locale: "system".to_owned(),
            codex_override: None,
            window_placement: None,
        }
    }
}

impl AppSettings {
    /// A copy of the settings.
    pub fn duplicate(&self) -> (r: AppSettings)
        ensures
            r@ == self@,
    {
        AppSettings {
            schema_version: self.schema_version,
            always_on_top: self.always_on_top,
            locked: self.locked,
            launch_at_login: self.launch_at_login,
            quota_reminder: self.quota_reminder,
            reduced_motion: self.reduced_motion.clone(),
            widget_mode: self.widget_mode.clone(),
            refresh_seconds_visible: self.refresh_seconds_visible,
            refresh_seconds_hidden: self.refresh_seconds_hidden,
            locale: self.locale.clone(),
            codex_override: clone_opt_string(&self.codex_override),
            window_placement: match &self.window_placement {
                Some(p) => Some(p.duplicate()),
                None => None,
            },
        }
    }

    /// The settings with `placement` as the saved window placement, all else kept.
    pub fn with_window_placement(&self, placement: WindowPlacement) -> (r: AppSettings)
        ensures
            r@ == (AppSettingsView { window_placement: Some(placement@), ..self@ }),
    {
        let mut next = self.duplicate();
        next.window_placement = Some(placement);
        next
    }
}

/// The settings held in memory, and the file they are persisted to.
pub struct SettingsStore {
    path: String,
    value: AppSettings,
}

/// The mathematical content of a [`SettingsStore`].
pub struct SettingsStoreView {
    pub path: Seq<char>,
    pub value: AppSettingsView,
}

impl View for SettingsStore {
    type V = SettingsStoreView;

    closed spec fn view(&self) -> SettingsStoreView {
        SettingsStoreView { path: self.path@, value: self.value@ }
    }
}

/// What a store holds after `set` was asked to keep `value`: the new value where it was
/// persisted, the old one where persisting failed.
pub open spec fn after_set(
    store: SettingsStoreView,
    value: AppSettingsView,
    persisted: bool,
) -> SettingsStoreView {
    if persisted {
        SettingsStoreView { value: value, ..store }
    } else {
        store
    }
}

impl SettingsStore {
    /// The store for the settings file at `path`, holding what that file held (`stored`,
    /// where it could be read and parsed) or else the defaults.
    pub fn load(path: String, stored: Option<AppSettings>) -> (r: Result<Self, String>)
        ensures
            r matches Ok(s) && s@.path == path@ && s@.value == (match stored {
                Some(v) => v@,
                None => default_settings(),
            }),
    {
        let value = match stored {
            Some(v) => v,
            None => AppSettings::default(),
        };
        Ok(SettingsStore { path, value })
    }

    /// The file the settings are persisted to.
    pub fn path(&self) -> (p: &str)
        ensures
            p@ == self@.path,
    {
        self.path.as_str()
    }

    /// The current settings.
    pub fn get(&self) -> (r: Result<AppSettings, String>)
        ensures
            r matches Ok(v) && v@ == self@.value,
    {
        Ok(self.value.duplicate())
    }

    /// Keeps `value` as the current settings once writing it to the file has gone through
    /// (`persisted` is that outcome); where writing failed, the error is returned and the
    /// settings stay as they were.
    pub fn set(&mut self, value: AppSettings, persisted: Result<(), String>) -> (r: Result<
        (),
        String,
    >)
        ensures
            final(self)@ == after_set(old(self)@, value@, persisted is Ok),
            persisted is Ok ==> r is Ok,
            persisted matches Err(e) ==> (r matches Err(f) && f@ == e@),
    {
        match persisted {
            Ok(()) => {
                self.value = value;
                Ok(())
            },
            Err(e) => Err(e),
        }
    }
}

/// Law: what `get` returns after a `set` whose write went through is the value that was set.
pub proof fn law_get_returns_what_was_set(store: SettingsStoreView, value: AppSettingsView)
    ensures
        after_set(store, value, true).value == value,
        after_set(store, value, true).path == store.path,
{
}

/// Law: a `set` whose write failed leaves the store as it was.
pub proof fn law_failed_set_keeps_settings(store: SettingsStoreView, value: AppSettingsView)
    ensures
        after_set(store, value, false) == store,
{
}

} // verus!

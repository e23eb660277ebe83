use quota_critter::settings::{default_true, AppSettings, SettingsStore, WindowPlacement};

#[test]
fn missing_file_yields_default_settings() {
    let store = SettingsStore::load("settings.json".to_string(), None).expect("load");
    let got = store.get().expect("get");
    assert_eq!(got.schema_version, 1);
    assert!(got.always_on_top);
    assert!(got.quota_reminder);
}

#[test]
fn round_trips_persisted_settings() {
    // The settings file: what a successful write leaves there is what a reload reads.
    let mut file: Option<AppSettings> = None;
    {
        let mut store = SettingsStore::load("settings.json".to_string(), file.clone()).expect("load");
        let mut next = store.get().unwrap();
        next.always_on_top = false;
        next.locale = "zh-CN".into();
        next.refresh_seconds_visible = 90;
        file = Some(next.clone());
        store.set(next, Ok(())).expect("set");
    }
    let store2 = SettingsStore::load("settings.json".to_string(), file).expect("reload");
    let got = store2.get().unwrap();
    assert!(!got.always_on_top);
    assert_eq!(got.locale, "zh-CN");
    assert_eq!(got.refresh_seconds_visible, 90);
}

#[test]
fn failed_write_keeps_the_old_settings() {
    let mut store = SettingsStore::load("s.json".to_string(), None).unwrap();
    let mut next = store.get().unwrap();
    next.locale = "en".into();
    let r = store.set(next, Err("SETTINGS_WRITE_FAILED: disk full".to_string()));
    assert_eq!(r, Err("SETTINGS_WRITE_FAILED: disk full".to_string()));
    assert_eq!(store.get().unwrap().locale, "system");
    assert_eq!(store.path(), "s.json");
}

#[test]
fn stored_settings_are_loaded() {
    let mut stored = AppSettings::default();
    stored.widget_mode = "collapsed".into();
    let store = SettingsStore::load("x".to_string(), Some(stored)).unwrap();
    assert_eq!(store.get().unwrap().widget_mode, "collapsed");
}

#[test]
fn defaults_are_exact() {
    let d = AppSettings::default();
    assert_eq!(d.schema_version, 1);
    assert!(d.always_on_top && !d.locked && !d.launch_at_login && d.quota_reminder);
    assert_eq!(d.reduced_motion, "system");
    assert_eq!(d.widget_mode, "default");
    assert_eq!(d.refresh_seconds_visible, 60);
    assert_eq!(d.refresh_seconds_hidden, 300);
    assert_eq!(d.locale, "system");
    assert!(d.codex_override.is_none() && d.window_placement.is_none());
    assert!(default_true());
}

#[test]
fn placement_is_saved_into_settings() {
    let d = AppSettings::default();
    let next = d.with_window_placement(WindowPlacement { monitor_id: None, x: -5, y: 7 });
    let p = next.window_placement.unwrap();
    assert_eq!((p.x, p.y), (-5, 7));
    assert_eq!(next.locale, "system");
}

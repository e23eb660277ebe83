use quota_critter::quota::{
    check_account_type, parse_limits, quota_from_limits_at, snapshot_at, timestamp_millis,
    BucketDoc, IndividualLimitDoc, LimitsDoc, QuotaSnapshot, QuotaWindow, WindowDoc,
};

fn bucket(name: Option<&str>) -> BucketDoc {
    BucketDoc {
        limit_id: None,
        limit_name: name.map(|n| n.to_string()),
        individual_limit: None,
        primary: None,
        secondary: None,
    }
}

#[test]
fn parses_primary_and_secondary_windows() {
    let mut codex = bucket(Some("Codex"));
    codex.primary = Some(WindowDoc { used_percent: 36, window_duration_mins: 300, resets_at: 1700000000 });
    codex.secondary = Some(WindowDoc {
        used_percent: 59,
        window_duration_mins: 10080,
        resets_at: 1701000000000_u64,
    });
    let value = LimitsDoc {
        rate_limits_by_limit_id: Some(vec![("codex".to_string(), codex)]),
        rate_limits: None,
    };
    let windows = parse_limits(&value, Some("business".into())).expect("valid limits");
    assert_eq!(windows.len(), 2);
    assert_eq!(windows[0].remaining_percent, 64);
    assert_eq!(windows[0].resets_at, 1_700_000_000_000);
    assert_eq!(windows[1].remaining_percent, 41);
    assert_eq!(windows[1].resets_at, 1_701_000_000_000);
    assert_eq!(windows[0].plan_type.as_deref(), Some("business"));
}

#[test]
fn prefers_the_account_usage_limit_when_present() {
    let mut spark = bucket(Some("GPT-5.3-Codex-Spark-Preview"));
    spark.primary = Some(WindowDoc { used_percent: 0, window_duration_mins: 300, resets_at: 1700000000 });
    let mut codex = bucket(None);
    codex.individual_limit = Some(IndividualLimitDoc {
        remaining_percent: 13,
        limit_amount: Some(7500.0f64.to_bits()),
        used_amount: Some(6558.67f64.to_bits()),
        resets_at: 1701000000,
    });
    let value = LimitsDoc {
        rate_limits_by_limit_id: Some(vec![
            ("codex".to_string(), codex),
            ("codex_bengalfox".to_string(), spark),
        ]),
        rate_limits: None,
    };
    let windows = parse_limits(&value, Some("business".into())).expect("valid limits");
    assert_eq!(windows.len(), 1);
    assert_eq!(windows[0].kind, "individual");
    assert_eq!(windows[0].remaining_percent, 13);
    assert_eq!(windows[0].limit_amount.map(f64::from_bits), Some(7500.0));
    assert_eq!(windows[0].used_amount.map(f64::from_bits), Some(6558.67));
}

#[test]
fn individual_window_fields() {
    let mut codex = bucket(Some(""));
    codex.individual_limit = Some(IndividualLimitDoc {
        remaining_percent: 13,
        limit_amount: None,
        used_amount: None,
        resets_at: 1701000000,
    });
    let value = LimitsDoc { rate_limits_by_limit_id: Some(vec![("codex".to_string(), codex)]), rate_limits: None };
    let w = &parse_limits(&value, None).unwrap()[0];
    assert_eq!(w.key, "codex:individual");
    assert_eq!(w.limit_id, "codex");
    assert_eq!(w.limit_name.as_deref(), Some("Monthly usage limit"));
    assert_eq!(w.used_percent, 87);
    assert_eq!(w.window_duration_mins, 0);
    assert_eq!(w.resets_at, 1_701_000_000_000);
    assert_eq!(w.plan_type, None);
}

#[test]
fn single_bucket_defaults_to_codex_id() {
    let mut b = bucket(Some("Codex"));
    b.secondary = Some(WindowDoc { used_percent: 100, window_duration_mins: 60, resets_at: 5 });
    let value = LimitsDoc { rate_limits_by_limit_id: None, rate_limits: Some(b) };
    let windows = parse_limits(&value, None).unwrap();
    assert_eq!(windows.len(), 1);
    assert_eq!(windows[0].key, "codex:secondary");
    assert_eq!(windows[0].kind, "secondary");
    assert_eq!(windows[0].remaining_percent, 0);
    assert_eq!(windows[0].resets_at, 5000);
    assert_eq!(windows[0].limit_name.as_deref(), Some("Codex"));

    let mut named = bucket(None);
    named.limit_id = Some("other".to_string());
    named.primary = Some(WindowDoc { used_percent: 1, window_duration_mins: 1, resets_at: 1 });
    let value = LimitsDoc { rate_limits_by_limit_id: None, rate_limits: Some(named) };
    assert_eq!(parse_limits(&value, None).unwrap()[0].key, "other:primary");
}

#[test]
fn no_limits_give_no_windows_and_empty_error() {
    let value = LimitsDoc { rate_limits_by_limit_id: None, rate_limits: None };
    assert!(parse_limits(&value, None).unwrap().is_empty());
    match quota_from_limits_at(&value, None, 7) {
        Err(e) => assert_eq!(e, "RATE_LIMITS_EMPTY"),
        Ok(_) => panic!("an empty reply has no snapshot"),
    }
    match snapshot_at(Vec::new(), 1) {
        Err(e) => assert_eq!(e, "RATE_LIMITS_EMPTY"),
        Ok(_) => panic!("no windows, no snapshot"),
    }
}

#[test]
fn live_snapshot_carries_time_and_source() {
    let mut b = bucket(None);
    b.primary = Some(WindowDoc { used_percent: 20, window_duration_mins: 300, resets_at: 10 });
    let value = LimitsDoc { rate_limits_by_limit_id: Some(vec![("codex".to_string(), b)]), rate_limits: None };
    let snap = quota_from_limits_at(&value, Some("plus".into()), 1234).unwrap();
    assert_eq!(snap.fetched_at, 1234);
    assert_eq!(snap.source, "live");
    assert!(!snap.stale);
    assert_eq!(snap.windows[0].remaining_percent, 80);
}

#[test]
fn timestamps_are_made_milliseconds() {
    assert_eq!(timestamp_millis(0), 0);
    assert_eq!(timestamp_millis(1_000_000_000_000), 1_000_000_000_000_000);
    assert_eq!(timestamp_millis(1_000_000_000_001), 1_000_000_000_001);
    assert_eq!(timestamp_millis(u64::MAX), u64::MAX);
}

#[test]
fn account_types() {
    assert_eq!(check_account_type(None), Err("AUTH_REQUIRED".to_string()));
    assert_eq!(check_account_type(Some("chatgpt")), Ok(()));
    assert_eq!(check_account_type(Some("agentIdentity")), Ok(()));
    assert_eq!(check_account_type(Some("apiKey")), Err("AUTH_UNSUPPORTED".to_string()));
}

fn window(used: u8) -> QuotaWindow {
    QuotaWindow {
        key: "codex:primary".into(),
        limit_id: "codex".into(),
        limit_name: None,
        kind: "primary".into(),
        used_percent: used,
        remaining_percent: 100 - used,
        window_duration_mins: 300,
        resets_at: 0,
        plan_type: None,
        limit_amount: None,
        used_amount: None,
    }
}

#[test]
fn cached_snapshots_go_stale_after_a_day() {
    let snap = QuotaSnapshot { windows: vec![window(3)], fetched_at: 1_000, source: "live".into(), stale: false };
    let fresh = snap.duplicate().into_cached(1_000 + 86_400_000);
    assert_eq!(fresh.source, "cache");
    assert!(!fresh.stale);
    let old = snap.duplicate().into_cached(1_001 + 86_400_000);
    assert!(old.stale);
    let future = snap.into_cached(0);
    assert!(!future.stale);
}

#[test]
fn failed_refresh_marks_snapshot_stale() {
    let mut snap = QuotaSnapshot { windows: vec![window(50)], fetched_at: 9, source: "live".into(), stale: false };
    snap.mark_stale();
    assert_eq!(snap.source, "cache");
    assert!(snap.stale);
    assert_eq!(snap.windows.len(), 1);
    assert_eq!(snap.fetched_at, 9);
}

#[test]
fn percents_always_add_up_and_unknown_buckets_are_kept() {
    let mut a = bucket(Some("A"));
    a.primary = Some(WindowDoc { used_percent: 0, window_duration_mins: 1, resets_at: 1 });
    a.secondary = Some(WindowDoc { used_percent: 100, window_duration_mins: 2, resets_at: 2 });
    let mut b = bucket(None);
    b.primary = Some(WindowDoc { used_percent: 37, window_duration_mins: 3, resets_at: 3 });
    let value = LimitsDoc {
        rate_limits_by_limit_id: Some(vec![
            ("some_future_limit".to_string(), a),
            ("zz-unknown".to_string(), b),
        ]),
        rate_limits: None,
    };
    let windows = parse_limits(&value, None).unwrap();
    assert_eq!(windows.len(), 3);
    for w in &windows {
        assert_eq!(w.used_percent as u32 + w.remaining_percent as u32, 100);
    }
    assert!(windows.iter().any(|w| w.limit_id == "zz-unknown" && w.kind == "primary"));
    assert_eq!(windows[0].key, "some_future_limit:primary");
    assert_eq!(windows[1].key, "some_future_limit:secondary");
}

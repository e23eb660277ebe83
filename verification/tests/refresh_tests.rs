use quota_critter::codex::Platform;
use quota_critter::refresh::{
    auth_state_for_error, is_connection_error, refresh_interval, scheduled_refresh_due,
    should_refresh_on_show, should_retry_refresh, RefreshState,
};
use quota_critter::settings::AppSettings;
use quota_critter::window::{
    check_external_url, clamp_into_work_area, login_url, moved_placement, placement_to_save,
};

#[test]
fn connection_errors() {
    assert!(is_connection_error("APP_SERVER_WRITE_FAILED: broken pipe"));
    assert!(is_connection_error("REQUEST_TIMEOUT: timed out"));
    assert!(is_connection_error("RATE_LIMITS_EMPTY"));
    assert!(is_connection_error("APP_SERVER_STDIN_LOCK_FAILED"));
    assert!(!is_connection_error("AUTH_REQUIRED"));
    assert!(should_retry_refresh(false, "APP_SERVER_RPC: x"));
    assert!(!should_retry_refresh(true, "APP_SERVER_RPC: x"));
    assert!(!should_retry_refresh(false, "AUTH_UNSUPPORTED"));
}

#[test]
fn auth_states() {
    assert_eq!(auth_state_for_error("AUTH_REQUIRED"), Some("signedOut"));
    assert_eq!(auth_state_for_error("x AUTH_UNSUPPORTED"), Some("unsupported"));
    assert_eq!(auth_state_for_error("REQUEST_TIMEOUT"), None);
}

#[test]
fn backoff_intervals() {
    // Without failures: the base interval, at most 300 s.
    assert_eq!(refresh_interval(60, 0, 0), 60_000);
    assert_eq!(refresh_interval(60, 0, 200), 60_000);
    assert_eq!(refresh_interval(1000, 0, 0), 300_000);
    assert_eq!(refresh_interval(u64::MAX, 0, 0), 300_000);
    // After failures: 5 s, 15 s, 30 s, 60 s, 5 min, whatever the base.
    assert_eq!(refresh_interval(60, 1, 0), 5_000);
    assert_eq!(refresh_interval(60, 2, 0), 15_000);
    assert_eq!(refresh_interval(60, 3, 0), 30_000);
    assert_eq!(refresh_interval(60, 4, 0), 60_000);
    assert_eq!(refresh_interval(60, 5, 0), 300_000);
    assert_eq!(refresh_interval(10, 50, 0), 300_000);
    // Jitter adds up to 20 %.
    assert_eq!(refresh_interval(60, 1, 200), 6_000);
    assert_eq!(refresh_interval(60, 2, 100), 16_500);
    assert_eq!(refresh_interval(60, 5, 200), 360_000);
}

#[test]
fn scheduler_decisions() {
    let s = AppSettings::default();
    assert!(!scheduled_refresh_due(&s, true, 0, 0, 1_000, 60_999));
    assert!(scheduled_refresh_due(&s, true, 0, 0, 1_000, 61_000));
    assert!(!scheduled_refresh_due(&s, false, 0, 0, 1_000, 61_000));
    assert!(scheduled_refresh_due(&s, false, 0, 0, 0, 300_000));
    // One failure, visible, 10 s after the attempt: the 5 s back-off has passed.
    assert!(scheduled_refresh_due(&s, true, 1, 0, 0, 10_000));
    assert!(!scheduled_refresh_due(&s, true, 1, 200, 0, 5_999));
    assert!(scheduled_refresh_due(&s, true, 1, 200, 0, 6_000));
    assert!(!scheduled_refresh_due(&s, true, 2, 0, 0, 14_999));
    assert!(scheduled_refresh_due(&s, true, 2, 0, 0, 15_000));
    assert!(!scheduled_refresh_due(&s, true, 0, 0, 5_000, 0));
    assert!(should_refresh_on_show(&s, 0, 60_000));
    assert!(!should_refresh_on_show(&s, 1, 60_000));
}

#[test]
fn refresh_bookkeeping() {
    let s = AppSettings::default();
    let mut state = RefreshState::new(7);
    assert_eq!((state.consecutive_errors, state.last_attempt, state.last_refresh), (0, 0, 7));
    state.start_attempt(100_000);
    state.record_refresh_outcome(None, 150);
    assert_eq!((state.consecutive_errors, state.jitter_permille), (1, 150));
    assert_eq!((state.last_attempt, state.last_refresh), (100_000, 7));
    assert!(!state.refresh_due(&s, true, 105_749));
    assert!(state.refresh_due(&s, true, 105_750));
    state.start_attempt(106_000);
    state.record_refresh_outcome(None, 0);
    assert_eq!(state.consecutive_errors, 2);
    assert!(!state.refresh_due(&s, true, 120_999));
    assert!(state.refresh_due(&s, true, 121_000));
    state.start_attempt(121_000);
    state.record_refresh_outcome(Some(121_500), 90);
    assert_eq!((state.consecutive_errors, state.jitter_permille, state.last_refresh), (0, 0, 121_500));
    assert!(!state.refresh_due(&s, true, 180_999));
    assert!(state.refresh_due(&s, true, 181_000));
    let mut saturated = RefreshState::new(0);
    saturated.consecutive_errors = u32::MAX;
    saturated.record_refresh_outcome(None, 0);
    assert_eq!(saturated.consecutive_errors, u32::MAX);
}

#[test]
fn external_urls() {
    for platform in [Platform::Windows, Platform::Macos, Platform::Linux] {
        assert_eq!(check_external_url("https://chatgpt.com/auth", platform), Ok(()));
        assert_eq!(check_external_url("http://localhost:1455/x", platform), Ok(()));
        assert_eq!(check_external_url("file:///etc/passwd", platform), Err("UNSAFE_URL".to_string()));
        assert_eq!(check_external_url("https://a\"&calc", platform), Err("UNSAFE_URL".to_string()));
        assert_eq!(check_external_url("https://a\nb", platform), Err("UNSAFE_URL".to_string()));
    }
    // cmd.exe metacharacters are refused where the URL goes through `cmd /C start`.
    for url in [
        "https://example.com/?a=1&calc",
        "https://e.com/|x",
        "https://e.com/^x",
        "https://e.com/<x",
        "https://e.com/>x",
    ] {
        assert_eq!(check_external_url(url, Platform::Windows), Err("UNSAFE_URL".to_string()));
        assert_eq!(check_external_url(url, Platform::Linux), Ok(()));
    }
    // Percent-encoded URLs open everywhere.
    for platform in [Platform::Windows, Platform::Macos, Platform::Linux] {
        assert_eq!(check_external_url("https://example.com/a%20b", platform), Ok(()));
    }
    assert_eq!(login_url(Some("https://x")), Ok("https://x".to_string()));
    assert_eq!(login_url(None), Err("AUTH_URL_MISSING".to_string()));
}

#[test]
fn windows_stay_in_the_work_area() {
    // A 300x200 window at (1800, 1000) on a 1920x1040 work area moves up and left.
    assert_eq!(clamp_into_work_area(1800, 1000, 300, 200, 0, 0, 1920, 1040), Some((1620, 840)));
    assert_eq!(clamp_into_work_area(10, 10, 300, 200, 0, 0, 1920, 1040), None);
    assert_eq!(clamp_into_work_area(-50, 5, 300, 200, 0, 0, 1920, 1040), Some((0, 5)));
    // Larger than the area: kept at the area's start.
    assert_eq!(clamp_into_work_area(40, 40, 3000, 200, 0, 0, 1920, 1040), Some((0, 40)));
}

#[test]
fn placements() {
    let p = moved_placement(3, 4);
    assert_eq!((p.x, p.y, p.monitor_id.is_none()), (3, 4, true));
    let kept = placement_to_save(Some(moved_placement(1, 2)), Some((9, 9))).unwrap();
    assert_eq!((kept.x, kept.y), (1, 2));
    let from_window = placement_to_save(None, Some((9, 8))).unwrap();
    assert_eq!((from_window.x, from_window.y), (9, 8));
    assert!(placement_to_save(None, None).is_none());
}

#[test]
fn backoff_never_shrinks_and_is_capped() {
    for base in [0u64, 1, 5, 60, 299, 300, 301, 10_000] {
        assert!(refresh_interval(base, 0, 0) <= 300_000);
        for jitter in [0u64, 57, 200] {
            let mut previous = 0;
            for errors in 1u32..40 {
                let interval = refresh_interval(base, errors, jitter);
                assert!(interval <= 360_000);
                assert!(interval >= previous);
                previous = interval;
            }
        }
    }
}

#[test]
fn a_due_refresh_stays_due() {
    let s = AppSettings::default();
    let mut now = 61_000;
    while now < 200_000 {
        assert!(scheduled_refresh_due(&s, true, 0, 0, 1_000, now));
        now += 7_777;
    }
}

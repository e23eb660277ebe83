use vstd::prelude::*;

use crate::settings::{AppSettings, AppSettingsView};
use crate::text::{contains, contains_exec};

verus! {

/// The error codes after which the app-server connection is dropped and opened anew.
pub open spec fn is_connection_error_spec(error: Seq<char>) -> bool {
    contains(error, "APP_SERVER_WRITE_FAILED"@) || contains(error, "APP_SERVER_FLUSH_FAILED"@)
        || contains(error, "APP_SERVER_STDIN"@) || contains(error, "APP_SERVER_MESSAGES"@)
        || contains(error, "APP_SERVER_RPC"@) || contains(error, "REQUEST_TIMEOUT"@) || contains(
        error,
        "RATE_LIMITS_EMPTY"@,
    )
}

/// Whether `error` says that the connection to the app server broke down.
pub fn is_connection_error(error: &str) -> (b: bool)
    ensures
        b == is_connection_error_spec(error@),
{
    contains_exec(error, "APP_SERVER_WRITE_FAILED") || contains_exec(
        error,
        "APP_SERVER_FLUSH_FAILED",
    ) || contains_exec(error, "APP_SERVER_STDIN") || contains_exec(error, "APP_SERVER_MESSAGES")
        || contains_exec(error, "APP_SERVER_RPC") || contains_exec(error, "REQUEST_TIMEOUT")
        || contains_exec(error, "RATE_LIMITS_EMPTY")
}

/// Whether a refresh that failed with `error` opens a new connection and tries once more:
/// only on a connection error, and only where it has not yet done so.
pub fn should_retry_refresh(retried_connection: bool, error: &str) -> (b: bool)
    ensures
        b == (!retried_connection && is_connection_error_spec(error@)),
{
    !retried_connection && is_connection_error(error)
}

/// The account state to announce after a refresh failed with `error`: `signedOut` where
/// the user is not signed in, `unsupported` where the account's quota cannot be read.
pub open spec fn auth_state_for_error_spec(error: Seq<char>) -> Option<Seq<char>> {
    if contains(error, "AUTH_REQUIRED"@) {
        Some("signedOut"@)
    } else if contains(error, "AUTH_UNSUPPORTED"@) {
        Some("unsupported"@)
    } else {
        None
    }
}

/// The account state to announce after a refresh failed with `error`, if any.
pub fn auth_state_for_error(error: &str) -> (r: Option<&'static str>)
    ensures
        match r {
            Some(s) => auth_state_for_error_spec(error@) == Some(s@),
            None => auth_state_for_error_spec(error@) is None,
        },
{
    if contains_exec(error, "AUTH_REQUIRED") {
        Some("signedOut")
    } else if contains_exec(error, "AUTH_UNSUPPORTED") {
        Some("unsupported")
    } else {
        None
    }
}

/// The longest regular interval between scheduled refreshes, in seconds.
pub open spec fn max_refresh_interval() -> int {
    300
}

/// The most jitter added to a back-off wait, in thousandths of the wait (20 %).
pub open spec fn max_jitter_permille() -> int {
    200
}

/// The wait after `consecutive_errors` failures in a row, in seconds, before jitter:
/// 5 s after the first, then 15 s, 30 s, 60 s, and 5 min from the fifth on.
pub open spec fn backoff_secs(consecutive_errors: u32) -> int {
    if consecutive_errors <= 1 {
        5
    } else if consecutive_errors == 2 {
        15
    } else if consecutive_errors == 3 {
        30
    } else if consecutive_errors == 4 {
        60
    } else {
        300
    }
}

/// The interval before the next scheduled refresh, in milliseconds. Without a failure it
/// is the base interval, at most 300 seconds; after failures it is the back-off wait,
/// stretched by `jitter_permille` thousandths.
pub open spec fn refresh_interval_spec(base_secs: u64, consecutive_errors: u32, jitter_permille: u64) -> int {
    if consecutive_errors == 0 {
        if base_secs > max_refresh_interval() {
            max_refresh_interval() * 1000
        } else {
            base_secs * 1000
        }
    } else {
        backoff_secs(consecutive_errors) * (1000 + jitter_permille)
    }
}

/// The interval, in milliseconds, before the next scheduled refresh.
pub fn refresh_interval(base_secs: u64, consecutive_errors: u32, jitter_permille: u64) -> (ms: u64)
    requires
        jitter_permille <= max_jitter_permille(),
    ensures
        ms == refresh_interval_spec(base_secs, consecutive_errors, jitter_permille),
{
    if consecutive_errors == 0 {
        if base_secs > 300 {
            300_000
        } else {
            base_secs * 1000
        }
    } else {
        let backoff: u64 = if consecutive_errors <= 1 {
            5
        } else if consecutive_errors == 2 {
            15
        } else if consecutive_errors == 3 {
            30
        } else if consecutive_errors == 4 {
            60
        } else {
            300
        };
        assert(backoff * (1000 + jitter_permille) <= 300 * 1200) by (nonlinear_arith)
            requires
                backoff <= 300,
                jitter_permille <= 200,
        ;
        backoff * (1000 + jitter_permille)
    }
}

/// The base interval between refreshes: the visible one while the widget shows, the hidden
/// one otherwise.
pub open spec fn base_interval_spec(settings: AppSettingsView, visible: bool) -> u64 {
    if visible {
        settings.refresh_seconds_visible
    } else {
        settings.refresh_seconds_hidden
    }
}

/// Whole seconds from `then` to `now` (both in milliseconds), 0 where `then` is later.
pub open spec fn elapsed_secs(now: u64, then: u64) -> int {
    if now >= then {
        (now - then) / 1000
    } else {
        0
    }
}

/// Milliseconds from `then` to `now`, 0 where `then` is later.
pub open spec fn elapsed_millis(now: u64, then: u64) -> int {
    if now >= then {
        now - then
    } else {
        0
    }
}

/// Whether the scheduler refreshes now: when at least the refresh interval has passed since
/// the last attempt.
pub fn scheduled_refresh_due(
    settings: &AppSettings,
    visible: bool,
    consecutive_errors: u32,
    jitter_permille: u64,
    last_attempt: u64,
    now: u64,
) -> (due: bool)
    requires
        jitter_permille <= max_jitter_permille(),
    ensures
        due == (elapsed_millis(now, last_attempt) >= refresh_interval_spec(
            base_interval_spec(settings@, visible),
            consecutive_errors,
            jitter_permille,
        )),
{
    let base = if visible {
        settings.refresh_seconds_visible
    } else {
        settings.refresh_seconds_hidden
    };
    let interval = refresh_interval(base, consecutive_errors, jitter_permille);
    let elapsed = now.saturating_sub(last_attempt);
    elapsed >= interval
}

/// Whether showing the widget refreshes the quota: when at least the visible refresh
/// interval has passed since the last successful refresh.
pub fn should_refresh_on_show(settings: &AppSettings, last_refresh: u64, now: u64) -> (b: bool)
    ensures
        b == (elapsed_secs(now, last_refresh) >= settings@.refresh_seconds_visible),
{
    let elapsed = now.saturating_sub(last_refresh) / 1000;
    elapsed >= settings.refresh_seconds_visible
}

/// The refresh bookkeeping: failures in a row, the jitter drawn for the current back-off,
/// and when the last attempt started and the last successful refresh was read (ms).
pub struct RefreshState {
    pub consecutive_errors: u32,
    pub jitter_permille: u64,
    pub last_attempt: u64,
    pub last_refresh: u64,
}

impl RefreshState {
    /// The jitter lies within 0..=20 %.
    pub open spec fn wf(&self) -> bool {
        self.jitter_permille <= max_jitter_permille()
    }

    /// The bookkeeping at start-up: no failure, no attempt yet, and the last refresh being
    /// the time of the cached snapshot (0 without one).
    pub fn new(last_refresh: u64) -> (r: RefreshState)
        ensures
            r.wf(),
            r.consecutive_errors == 0,
            r.jitter_permille == 0,
            r.last_attempt == 0,
            r.last_refresh == last_refresh,
    {
        RefreshState { consecutive_errors: 0, jitter_permille: 0, last_attempt: 0, last_refresh }
    }

    /// An attempt starts at `now`.
    pub fn start_attempt(&mut self, now: u64)
        ensures
            final(self).last_attempt == now,
            final(self).consecutive_errors == old(self).consecutive_errors,
            final(self).jitter_permille == old(self).jitter_permille,
            final(self).last_refresh == old(self).last_refresh,
    {
        self.last_attempt = now;
    }

    /// Records how an attempt ended: `Some(fetched_at)` for a snapshot read at `fetched_at`,
    /// which resets the failure count; `None` for a failure, which counts one more failure
    /// (saturating) and keeps `jitter_permille`, drawn by the caller, for the back-off.
    pub fn record_refresh_outcome(&mut self, fetched_at: Option<u64>, jitter_permille: u64)
        requires
            jitter_permille <= max_jitter_permille(),
        ensures
            final(self).wf(),
            final(self).last_attempt == old(self).last_attempt,
            fetched_at matches Some(t) ==> final(self).consecutive_errors == 0
                && final(self).last_refresh == t && final(self).jitter_permille == 0,
            fetched_at is None ==> final(self).consecutive_errors == (if old(
                self,
            ).consecutive_errors == u32::MAX {
                u32::MAX as int
            } else {
                old(self).consecutive_errors + 1
            }) && final(self).last_refresh == old(self).last_refresh && final(self).jitter_permille
                == jitter_permille,
    {
        match fetched_at {
            Some(t) => {
                self.consecutive_errors = 0;
                self.last_refresh = t;
                self.jitter_permille = 0;
            },
            None => {
                self.consecutive_errors = self.consecutive_errors.saturating_add(1);
                self.jitter_permille = jitter_permille;
            },
        }
    }

    /// Whether the scheduler refreshes now, by [`scheduled_refresh_due`].
    pub fn refresh_due(&self, settings: &AppSettings, visible: bool, now: u64) -> (due: bool)
        requires
            self.wf(),
        ensures
            due == (elapsed_millis(now, self.last_attempt) >= refresh_interval_spec(
                base_interval_spec(settings@, visible),
                self.consecutive_errors,
                self.jitter_permille,
            )),
    {
        scheduled_refresh_due(
            settings,
            visible,
            self.consecutive_errors,
            self.jitter_permille,
            self.last_attempt,
            now,
        )
    }
}

/// Law: without a failure the interval is at most 300 seconds; after failures it is at
/// most 5 minutes plus 20 %.
pub proof fn law_refresh_interval_capped(base_secs: u64, consecutive_errors: u32, jitter_permille: u64)
    requires
        jitter_permille <= max_jitter_permille(),
    ensures
        consecutive_errors == 0 ==> refresh_interval_spec(base_secs, consecutive_errors, jitter_permille)
            <= max_refresh_interval() * 1000,
        refresh_interval_spec(base_secs, consecutive_errors, jitter_permille) <= 360_000,
{
    assert(backoff_secs(consecutive_errors) * (1000 + jitter_permille) <= 300 * 1200)
        by (nonlinear_arith)
        requires
            0 < backoff_secs(consecutive_errors) <= 300,
            jitter_permille <= 200,
    ;
}

/// Law: after failures, the wait follows the schedule 5 s, 15 s, 30 s, 60 s, 5 min, and the
/// jitter adds between 0 and 20 % to it.
pub proof fn law_backoff_schedule(base_secs: u64, consecutive_errors: u32, jitter_permille: u64)
    requires
        consecutive_errors >= 1,
        jitter_permille <= max_jitter_permille(),
    ensures
        consecutive_errors == 1 ==> backoff_secs(consecutive_errors) == 5,
        consecutive_errors == 2 ==> backoff_secs(consecutive_errors) == 15,
        consecutive_errors == 3 ==> backoff_secs(consecutive_errors) == 30,
        consecutive_errors == 4 ==> backoff_secs(consecutive_errors) == 60,
        consecutive_errors >= 5 ==> backoff_secs(consecutive_errors) == 300,
        backoff_secs(consecutive_errors) * 1000 <= refresh_interval_spec(
            base_secs,
            consecutive_errors,
            jitter_permille,
        ) <= backoff_secs(consecutive_errors) * 1200,
{
    assert(backoff_secs(consecutive_errors) * (1000 + jitter_permille) <= backoff_secs(
        consecutive_errors,
    ) * 1200) by (nonlinear_arith)
        requires
            0 < backoff_secs(consecutive_errors),
            jitter_permille <= 200,
    ;
    assert(backoff_secs(consecutive_errors) * 1000 <= backoff_secs(consecutive_errors) * (1000
        + jitter_permille)) by (nonlinear_arith)
        requires
            0 < backoff_secs(consecutive_errors),
            jitter_permille >= 0,
    ;
}

/// Law: without a failure the interval is the base one (up to the cap): no back-off.
pub proof fn law_no_backoff_without_failure(base_secs: u64, jitter_permille: u64)
    ensures
        refresh_interval_spec(base_secs, 0, jitter_permille) == if base_secs > 300 {
            300_000
        } else {
            base_secs * 1000
        },
{
}

/// Law: with the same jitter, more failures in a row never shorten the back-off.
pub proof fn law_backoff_monotone(base_secs: u64, fewer: u32, more: u32, jitter_permille: u64)
    requires
        1 <= fewer <= more,
    ensures
        refresh_interval_spec(base_secs, fewer, jitter_permille) <= refresh_interval_spec(
            base_secs,
            more,
            jitter_permille,
        ),
{
    assert(backoff_secs(fewer) <= backoff_secs(more));
    assert(backoff_secs(fewer) * (1000 + jitter_permille) <= backoff_secs(more) * (1000
        + jitter_permille)) by (nonlinear_arith)
        requires
            backoff_secs(fewer) <= backoff_secs(more),
            jitter_permille >= 0,
    ;
}

/// Law: once a scheduled refresh is due, it stays due as time goes on.
pub proof fn law_due_refresh_stays_due(interval: int, last_attempt: u64, now: u64, later: u64)
    requires
        now <= later,
        elapsed_millis(now, last_attempt) >= interval,
    ensures
        elapsed_millis(later, last_attempt) >= interval,
{
}

} // verus!

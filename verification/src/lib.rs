use vstd::prelude::*;

pub mod codex;
pub mod quota;
pub mod redact;
pub mod refresh;
pub mod settings;
pub mod text;
pub mod window;

verus! {

/// Connection state of the Codex app server child process.
#[derive(Debug, Clone, Copy, PartialEq, Eq, Structural)]
pub enum AppServerState {
    Starting,
    Handshaking,
    Ready,
    Backoff,
    Error,
}

#[verifier::external_type_specification]
#[verifier::external_body]
pub struct ExSystemTime(std::time::SystemTime);

#[verifier::external_type_specification]
#[verifier::external_body]
pub struct ExSystemTimeError(std::time::SystemTimeError);

/// `SystemTime::now`: the system clock's current reading. Nothing is promised of it.
#[verifier::external_body]
fn system_now() -> std::time::SystemTime {
    std::time::SystemTime::now()
}

/// `SystemTime::duration_since` with `UNIX_EPOCH`: how long after the epoch `t` lies, or an
/// error where it lies before. Nothing is stated of the duration.
#[verifier::external_body]
fn since_unix_epoch(t: &std::time::SystemTime) -> Result<
    std::time::Duration,
    std::time::SystemTimeError,
> {
    t.duration_since(std::time::UNIX_EPOCH)
}

/// `Duration::as_millis`: the whole milliseconds of `d`. Nothing is stated of the value, as
/// the duration itself is opaque here.
#[verifier::external_body]
fn whole_millis(d: &std::time::Duration) -> u128 {
    d.as_millis()
}

/// Milliseconds since the Unix epoch by the system clock, truncated to 64 bits; 0 where the
/// clock is set before the epoch. The value is whatever the clock says.
pub(crate) fn now_millis() -> u64 {
    let t = system_now();
    match since_unix_epoch(&t) {
        Ok(d) => {
            let ms = whole_millis(&d);
            #[verifier::truncate]
            (ms as u64)
        },
        Err(_) => 0,
    }
}

} // verus!

//! Wall-clock time and its display.

use vstd::prelude::*;
use crate::text::{push_char, push_two_digits, two_digits};

verus! {

/// `std::time::SystemTime`, carried through opaque.
#[verifier::external_type_specification]
#[verifier::external_body]
pub struct ExSystemTime(std::time::SystemTime);

/// `std::time::SystemTimeError`, carried through opaque.
#[verifier::external_type_specification]
#[verifier::external_body]
pub struct ExSystemTimeError(std::time::SystemTimeError);

/// `SystemTime::now()`. Nothing is stated of it: it is the time.
#[verifier::external_body]
fn system_now() -> (r: std::time::SystemTime) {
    std::time::SystemTime::now()
}

/// `SystemTime::duration_since(UNIX_EPOCH)`: how long after the Unix epoch
/// `t` is, or an error for a time before it. Nothing is stated of which.
#[verifier::external_body]
fn since_unix_epoch(t: &std::time::SystemTime) -> (r: Result<std::time::Duration, std::time::SystemTimeError>) {
    t.duration_since(std::time::UNIX_EPOCH)
}

/// `Duration::as_secs`: the whole seconds of `d`. `Duration` is opaque
/// here, so nothing is stated of the number.
#[verifier::external_body]
fn whole_secs(d: &std::time::Duration) -> (r: u64) {
    d.as_secs()
}

/// The system clock as whole seconds since the Unix epoch; a clock set
/// before the epoch reads as 0.
fn clock_secs() -> u64 {
    match since_unix_epoch(&system_now()) {
        Ok(d) => whole_secs(&d),
        Err(_) => 0,
    }
}

/// Current Unix timestamp in seconds.
pub fn now_secs() -> u64 {
    clock_secs()
}

/// Current Unix timestamp in seconds (the timestamp given to sent messages).
pub fn now() -> u64 {
    clock_secs()
}

/// `HH:MM:SS` (UTC) of a Unix timestamp in seconds.
pub open spec fn time_text(unix_secs: u64) -> Seq<char> {
    let s = (unix_secs % 86400) as nat;
    two_digits(s / 3600) + seq![':'] + two_digits((s % 3600) / 60) + seq![':'] + two_digits(s % 60)
}

/// Formats a Unix timestamp (seconds) as `HH:MM:SS` (UTC).
pub fn format_time(unix_secs: u64) -> (r: String)
    ensures
        r@ == time_text(unix_secs),
{
    let s = unix_secs % 86400;
    let mut r = String::new();
    push_two_digits(&mut r, s / 3600);
    push_char(&mut r, ':');
    push_two_digits(&mut r, (s % 3600) / 60);
    push_char(&mut r, ':');
    push_two_digits(&mut r, s % 60);
    assert(r@ =~= time_text(unix_secs));
    r
}

} // verus!

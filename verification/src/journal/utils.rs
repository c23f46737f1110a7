//! Wall-clock readings.
use chrono::TimeZone;
use vstd::prelude::*;

verus! {

/// Milliseconds since the Unix epoch, read from `std::time::SystemTime::now`;
/// `None` when the clock is set before the epoch.
///
/// The reading depends on the clock, so nothing is stated of it.
#[verifier::external_body]
fn clock_millis() -> (ms: Option<u64>) {
    match std::time::SystemTime::now().duration_since(std::time::UNIX_EPOCH) {
        Ok(d) => Some(d.as_millis() as u64),
        Err(_) => None,
    }
}

/// Nanoseconds since the Unix epoch, read from `std::time::SystemTime::now`;
/// `None` when the clock is set before the epoch.
///
/// The reading depends on the clock, so nothing is stated of it.
#[verifier::external_body]
fn clock_nanos() -> (ns: Option<u64>) {
    match std::time::SystemTime::now().duration_since(std::time::UNIX_EPOCH) {
        Ok(d) => Some(d.as_nanos() as u64),
        Err(_) => None,
    }
}

/// Milliseconds since the Unix epoch; a clock set before the epoch reads
/// as the epoch itself.
pub fn current_millis() -> (ms: u64) {
    match clock_millis() {
        Some(ms) => ms,
        None => 0,
    }
}

/// Nanoseconds since the Unix epoch; a clock set before the epoch reads as
/// the epoch itself.
pub fn current_nanos() -> (ns: u64) {
    match clock_nanos() {
        Some(ns) => ns,
        None => 0,
    }
}

/// Instants up to this many milliseconds after the Unix epoch (about the
/// year 33,600) lie well inside the range of dates that `chrono` can
/// represent.
pub const LOCAL_MILLIS_MAX: u64 = 1_000_000_000_000_000;

/// The text that `chrono` gives, with the format `%Y-%m-%d %H:%M:%S`, of
/// the instant `ms` milliseconds after the Unix epoch (taken as an `i64`)
/// shown at a local offset of `offset_secs` seconds east of UTC.
pub uninterp spec fn spec_local_text(ms: u64, offset_secs: i32) -> Seq<char>;

/// `t` is the local date and time of the instant `ms` at some offset from
/// UTC of less than a day; an instant beyond the range that `chrono`
/// represents may instead show the epoch at that offset.
pub open spec fn is_local_stamp(ms: u64, t: Seq<char>) -> bool {
    exists|off: i32|
        -86400 < off < 86400 && (t == spec_local_text(ms, off) || (ms > LOCAL_MILLIS_MAX && t == spec_local_text(0, off)))
}

/// `chrono::Local.timestamp_millis_opt(ms)`, formatted as
/// `%Y-%m-%d %H:%M:%S`, together with the offset from UTC (in seconds,
/// `FixedOffset::local_minus_utc`) at which it was shown.
///
/// `chrono` gives a single local time for every instant that
/// `DateTime::from_timestamp_millis` can represent, which holds of every
/// instant up to `LOCAL_MILLIS_MAX`, and its offsets are always less than a
/// day. Which offset the machine's time zone gives is not stated.
#[verifier::external_body]
fn local_text_at(ms: u64) -> (r: Option<(String, i32)>)
    ensures
        ms <= LOCAL_MILLIS_MAX ==> r is Some,
        match r {
            Some(p) => p.0@ == spec_local_text(ms, p.1) && -86400 < p.1 < 86400,
            None => true,
        },
{
    match chrono::Local.timestamp_millis_opt(ms as i64).single() {
        Some(dt) => Some((dt.format("%Y-%m-%d %H:%M:%S").to_string(), dt.offset().local_minus_utc())),
        None => None,
    }
}

/// Formats `ms` milliseconds since the Unix epoch as `YYYY-MM-DD HH:MM:SS`
/// in the machine's local time zone; an instant beyond what `chrono`
/// represents is shown as the epoch.
pub fn millis_to_local(ms: u64) -> (s: String)
    ensures
        is_local_stamp(ms, s@),
{
    match local_text_at(ms) {
        Some(p) => p.0,
        None => {
            let q = local_text_at(0).unwrap();
            q.0
        },
    }
}

} // verus!

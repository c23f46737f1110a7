//! Timestamps as `YYYY-MM-DD HH:MM:SS.mmm`, optionally followed by the
//! UTC offset as `+HHMM`.
use crate::text::{push_str, push_zero_padded, zero_pad};
use vstd::prelude::*;

verus! {

/// The UTC calendar date and time of day `(year, month, day, hour, minute,
/// second)` of the instant `secs` seconds after the Unix epoch, in the
/// proleptic Gregorian calendar (days are counted in 400-year eras from
/// 0000-03-01).
pub open spec fn civil_of(secs: int) -> (int, int, int, int, int, int) {
    let sod = secs % 86400;
    let z = secs / 86400 + 719468;
    let era = z / 146097;
    let doe = z - era * 146097;
    let yoe = (doe - doe / 1460 + doe / 36524 - doe / 146096) / 365;
    let doy = doe - (365 * yoe + yoe / 4 - yoe / 100);
    let mp = (5 * doy + 2) / 153;
    let day = doy - (153 * mp + 2) / 5 + 1;
    let month = if mp < 10 { mp + 3 } else { mp - 9 };
    let year = yoe + era * 400 + if month <= 2 { 1int } else { 0int };
    (year, month, day, sod / 3600, (sod % 3600) / 60, sod % 60)
}

/// `civil_of` in the integer types the `time` crate reports it in.
pub open spec fn utc_parts(secs: i64) -> (i32, u8, u8, u8, u8, u8) {
    let c = civil_of(secs as int);
    (c.0 as i32, c.1 as u8, c.2 as u8, c.3 as u8, c.4 as u8, c.5 as u8)
}

/// The first second of the year -9999 as a Unix timestamp.
pub const CIVIL_SECS_MIN: i64 = -377_705_116_800;

/// The last second of the year 9999 as a Unix timestamp.
pub const CIVIL_SECS_MAX: i64 = 253_402_300_799;

/// `time::OffsetDateTime::from_unix_timestamp`, read back as the date-time's
/// year, month number, day, hour, minute and second; an error from the
/// `time` crate (a timestamp outside the dates it supports) is `None`.
///
/// The `time` crate supports at least the years -9999 to 9999, and the
/// date-time it gives is the proleptic Gregorian UTC date-time of the
/// timestamp.
#[verifier::external_body]
fn utc_civil(unix_secs: i64) -> (r: Option<(i32, u8, u8, u8, u8, u8)>)
    ensures
        CIVIL_SECS_MIN <= unix_secs <= CIVIL_SECS_MAX ==> r is Some,
        r matches Some(p) ==> p == utc_parts(unix_secs),
{
    match time::OffsetDateTime::from_unix_timestamp(unix_secs) {
        Ok(dt) => Some((dt.year(), dt.month() as u8, dt.day(), dt.hour(), dt.minute(), dt.second())),
        Err(_) => None,
    }
}

/// `time::UtcOffset::current_local_offset`, read back as whole seconds east
/// of UTC; `None` when the `time` crate cannot determine the offset.
///
/// The offset depends on the machine and the moment, so only the range that
/// every `UtcOffset` lies in (under 26 hours either way) is stated.
#[verifier::external_body]
pub(crate) fn current_local_offset_seconds() -> (r: Option<i32>)
    ensures
        r matches Some(s) ==> -93600 < s < 93600,
{
    match time::UtcOffset::current_local_offset() {
        Ok(offset) => Some(offset.whole_seconds()),
        Err(_) => None,
    }
}

/// A UTC offset, as a local-time source may report it.
pub open spec fn valid_offset(o: Option<i32>) -> bool {
    o matches Some(s) ==> -93600 < s < 93600
}

/// A year padded to four places, the sign counting as one (`{:04}`).
pub open spec fn year_text(y: i32) -> Seq<char> {
    if y < 0 {
        seq!['-'] + zero_pad((-y) as nat, 3)
    } else {
        zero_pad(y as nat, 4)
    }
}

/// ` +HHMM` / ` -HHMM` for an offset in seconds, or nothing.
pub open spec fn offset_text(offset: Option<i32>) -> Seq<char> {
    match offset {
        Some(o) => {
            let abs: nat = if o < 0 { (-o) as nat } else { o as nat };
            seq![' ', if o >= 0 { '+' } else { '-' }] + zero_pad(abs / 3600, 2) + zero_pad((abs % 3600) / 60, 2)
        },
        None => Seq::empty(),
    }
}

/// `YYYY-MM-DD`.
pub open spec fn date_text(y: i32, m: u8, d: u8) -> Seq<char> {
    year_text(y) + "-"@ + zero_pad(m as nat, 2) + "-"@ + zero_pad(d as nat, 2)
}

/// `HH:MM:SS.mmm`.
pub open spec fn clock_text(h: u8, mi: u8, s: u8, millis: nat) -> Seq<char> {
    zero_pad(h as nat, 2) + ":"@ + zero_pad(mi as nat, 2) + ":"@ + zero_pad(s as nat, 2) + "."@ + zero_pad(millis, 3)
}

/// `YYYY-MM-DD HH:MM:SS.mmm` for calendar parts and milliseconds, then the offset.
pub open spec fn datetime_text(p: (i32, u8, u8, u8, u8, u8), millis: nat, offset: Option<i32>) -> Seq<char> {
    date_text(p.0, p.1, p.2) + " "@ + clock_text(p.3, p.4, p.5, millis) + offset_text(offset)
}

/// Whole seconds of a nanosecond timestamp.
pub open spec fn ns_secs(time_ns: u64) -> i64 {
    (time_ns / 1_000_000_000) as i64
}

/// Milliseconds within the second of a nanosecond timestamp.
pub open spec fn ns_millis(time_ns: u64) -> nat {
    ((time_ns % 1_000_000_000) / 1_000_000) as nat
}

/// A nanosecond Unix timestamp in UTC.
pub open spec fn utc_timestamp_text(time_ns: u64) -> Seq<char> {
    datetime_text(utc_parts(ns_secs(time_ns)), ns_millis(time_ns), None)
}

/// A nanosecond Unix timestamp in local time at `offset` seconds east of
/// UTC, followed by the offset; in UTC without an offset when no offset is
/// known.
///
/// The wall clock at an offset is the UTC wall clock of the instant shifted
/// by that offset.
pub open spec fn local_timestamp_text(time_ns: u64, offset: Option<i32>) -> Seq<char> {
    match offset {
        Some(o) => datetime_text(utc_parts((ns_secs(time_ns) + o) as i64), ns_millis(time_ns), Some(o)),
        None => datetime_text(utc_parts(ns_secs(time_ns)), ns_millis(time_ns), None),
    }
}

fn push_year(out: &mut String, y: i32)
    ensures
        final(out)@ == old(out)@ + year_text(y),
{
    if y < 0 {
        out.push('-');
        let magnitude: u64 = (-(y as i64)) as u64;
        push_zero_padded(out, magnitude, 3);
        assert(out@ =~= old(out)@ + year_text(y));
    } else {
        push_zero_padded(out, y as u64, 4);
    }
}

fn push_offset(out: &mut String, offset: Option<i32>)
    requires
        valid_offset(offset),
    ensures
        final(out)@ == old(out)@ + offset_text(offset),
{
    match offset {
        Some(o) => {
            let abs: u64 = if o < 0 { (-(o as i64)) as u64 } else { o as u64 };
            out.push(' ');
            out.push(if o >= 0 { '+' } else { '-' });
            push_zero_padded(out, abs / 3600, 2);
            push_zero_padded(out, (abs % 3600) / 60, 2);
            assert(out@ =~= old(out)@ + offset_text(offset));
        },
        None => {
            assert(out@ =~= old(out)@ + offset_text(offset));
        },
    }
}

fn push_date(out: &mut String, y: i32, m: u8, d: u8)
    ensures
        final(out)@ == old(out)@ + date_text(y, m, d),
{
    let ghost start = out@;
    push_year(out, y);
    push_str(out, "-");
    push_zero_padded(out, m as u64, 2);
    push_str(out, "-");
    push_zero_padded(out, d as u64, 2);
    assert(out@ =~= start + date_text(y, m, d));
}

fn push_clock(out: &mut String, h: u8, mi: u8, sec: u8, millis: u64)
    ensures
        final(out)@ == old(out)@ + clock_text(h, mi, sec, millis as nat),
{
    let ghost start = out@;
    push_zero_padded(out, h as u64, 2);
    push_str(out, ":");
    push_zero_padded(out, mi as u64, 2);
    push_str(out, ":");
    push_zero_padded(out, sec as u64, 2);
    push_str(out, ".");
    push_zero_padded(out, millis, 3);
    assert(out@ =~= start + clock_text(h, mi, sec, millis as nat));
}

/// Appends a date-time as `YYYY-MM-DD HH:MM:SS.mmm` and the offset.
pub fn push_datetime(out: &mut String, p: (i32, u8, u8, u8, u8, u8), millis: u64, offset: Option<i32>)
    requires
        valid_offset(offset),
    ensures
        final(out)@ == old(out)@ + datetime_text(p, millis as nat, offset),
{
    let ghost start = out@;
    push_date(out, p.0, p.1, p.2);
    push_str(out, " ");
    push_clock(out, p.3, p.4, p.5, millis);
    push_offset(out, offset);
    assert(out@ =~= start + datetime_text(p, millis as nat, offset));
}

/// Appends a nanosecond Unix timestamp in UTC.
pub fn push_timestamp_ns_utc(out: &mut String, time_ns: u64)
    ensures
        final(out)@ == old(out)@ + utc_timestamp_text(time_ns),
{
    let secs = (time_ns / 1_000_000_000) as i64;
    let millis = (time_ns % 1_000_000_000) / 1_000_000;
    let p = utc_civil(secs).unwrap();
    push_datetime(out, p, millis, None);
}

/// A nanosecond Unix timestamp in UTC.
pub fn format_timestamp_ns_utc(time_ns: u64) -> (s: String)
    ensures
        s@ == utc_timestamp_text(time_ns),
{
    let mut s = String::new();
    push_timestamp_ns_utc(&mut s, time_ns);
    assert(s@ =~= utc_timestamp_text(time_ns));
    s
}

/// Appends a nanosecond Unix timestamp in local time at `offset`.
pub fn push_timestamp_ns_local(out: &mut String, time_ns: u64, offset: Option<i32>)
    requires
        valid_offset(offset),
    ensures
        final(out)@ == old(out)@ + local_timestamp_text(time_ns, offset),
{
    let secs = (time_ns / 1_000_000_000) as i64;
    let millis = (time_ns % 1_000_000_000) / 1_000_000;
    match offset {
        Some(o) => {
            let shifted = secs + o as i64;
            let q = utc_civil(shifted).unwrap();
            push_datetime(out, q, millis, Some(o));
        },
        None => {
            let p = utc_civil(secs).unwrap();
            push_datetime(out, p, millis, None);
        },
    }
}


/// Local time at an offset is UTC time shifted by that offset: the local
/// text of an instant at `o` seconds east of UTC is the UTC text of the
/// instant `o` seconds later, followed by the offset.
pub proof fn lemma_local_is_shifted_utc(time_ns: u64, o: i32)
    requires
        0 <= time_ns + o * 1_000_000_000 <= u64::MAX,
    ensures
        local_timestamp_text(time_ns, Some(o)) == utc_timestamp_text((time_ns + o * 1_000_000_000) as u64)
            + offset_text(Some(o)),
{
    let d: int = 1_000_000_000;
    let t2: u64 = (time_ns + o * 1_000_000_000) as u64;
    let q: int = time_ns as int / d;
    let r: int = time_ns as int % d;
    vstd::arithmetic::div_mod::lemma_fundamental_div_mod(time_ns as int, d);
    assert(t2 as int == (q + o) * d + r) by (nonlinear_arith)
        requires
            time_ns as int == d * q + r,
            t2 as int == time_ns + o * d,
    ;
    vstd::arithmetic::div_mod::lemma_fundamental_div_mod_converse(t2 as int, d, q + o, r);
    assert(ns_secs(t2) == (ns_secs(time_ns) + o) as i64);
    assert(ns_millis(t2) == ns_millis(time_ns));
    let p = utc_parts(ns_secs(t2));
    assert(datetime_text(p, ns_millis(t2), Some(o)) =~= datetime_text(p, ns_millis(t2), None) + offset_text(Some(o)));
}

} // verus!

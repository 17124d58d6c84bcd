//! Instants and their text forms, through `chrono`. An instant is held as
//! nanoseconds since the Unix epoch, UTC; `chrono` hands it over as whole
//! seconds and the nanoseconds within the second.
use vstd::prelude::*;
use chrono::{DateTime, Utc};

verus! {

/// Nanoseconds in a second.
pub const NANOS_PER_SEC: i128 = 1_000_000_000;

/// The instant made of whole seconds and nanoseconds within the second.
pub open spec fn instant(secs: i64, nanos: u32) -> int {
    secs as int * 1_000_000_000 + nanos as int
}

/// The instant made of whole seconds and nanoseconds within the second.
pub fn instant_of(secs: i64, nanos: u32) -> (r: i128)
    ensures
        r == instant(secs, nanos),
{
    (secs as i128) * NANOS_PER_SEC + (nanos as i128)
}

/// Whether time `a` comes after time `b`, times held as `chrono` hands
/// them over (whole seconds since the epoch, and the nanoseconds past them,
/// which reach a second or more only within a leap second `:60`): by the
/// second, then by the nanoseconds, so a leap second comes after the second
/// before it and before the next one, as `chrono` orders them.
pub open spec fn time_after(a: (i64, u32), b: (i64, u32)) -> bool {
    a.0 > b.0 || (a.0 == b.0 && a.1 > b.1)
}

/// The instant of a time with a leap second kept in its own second, at its
/// last nanosecond: against every time without a leap second it keeps
/// `chrono`'s order and its date.
pub open spec fn ordered_instant(secs: i64, nanos: u32) -> int {
    instant(secs, if nanos < 1_000_000_000 { nanos } else { 999_999_999 })
}

/// The instant of a time with a leap second kept in its own second.
pub fn instant_in_order(secs: i64, nanos: u32) -> (r: i128)
    ensures
        r == ordered_instant(secs, nanos),
{
    let n: u32 = if nanos < 1_000_000_000 { nanos } else { 999_999_999 };
    instant_of(secs, n)
}

/// The whole seconds of an instant (rounded down).
pub open spec fn secs_of(t: int) -> int {
    t / 1_000_000_000
}

/// The nanoseconds of an instant within its second.
pub open spec fn subsec_of(t: int) -> int {
    t % 1_000_000_000
}

/// The whole seconds (rounded down) and the nanoseconds within the second
/// of an instant in the span a UTC date-time can hold.
pub fn split_instant(t: i128) -> (r: (i64, u32))
    requires
        -8_334_601_315_200_000_000_000 <= t <= 8_210_266_876_799_999_999_999,
    ensures
        r.0 == secs_of(t as int),
        r.1 == subsec_of(t as int),
        -8_334_601_315_200 <= r.0 <= 8_210_266_876_799,
        r.1 < 1_000_000_000,
{
    let q = t / NANOS_PER_SEC;
    let m = t % NANOS_PER_SEC;
    if m < 0 {
        assert(secs_of(t as int) == q - 1 && subsec_of(t as int) == m + 1_000_000_000);
        ((q - 1) as i64, (m + NANOS_PER_SEC) as u32)
    } else {
        assert(secs_of(t as int) == q && subsec_of(t as int) == m);
        (q as i64, m as u32)
    }
}

/// The seconds and nanoseconds that `RFC 3339` text names, as
/// `DateTime::parse_from_rfc3339` reads it (converted to UTC), if it reads
/// it.
pub uninterp spec fn rfc3339_parts(s: Seq<char>) -> Option<(i64, u32)>;

/// Calls `DateTime::parse_from_rfc3339` and converts the result to UTC; the
/// outcome depends on the text alone and is named `rfc3339_parts`. The
/// parser reads a four-digit year and an offset below a day, so what it
/// reads lies between the last day of year -1 and the first of year 10000
/// (in seconds); its nanoseconds stay below two seconds' worth (a leap
/// second `:60` adds one).
#[verifier::external_body]
pub(crate) fn parse_rfc3339_parts(s: &str) -> (r: Option<(i64, u32)>)
    ensures
        r == rfc3339_parts(s@),
        r matches Some(p) ==> -62_167_305_600 <= p.0 <= 253_402_387_200 && p.1 < 2_000_000_000,
{
    match DateTime::parse_from_rfc3339(s) {
        Ok(dt) => {
            let utc = dt.with_timezone(&Utc);
            Some((utc.timestamp(), utc.timestamp_subsec_nanos()))
        },
        Err(_) => None,
    }
}

/// Calls `Utc::now`: the current instant, as seconds and nanoseconds. Which
/// instant depends on the clock; what holds of every outcome is what its
/// source shows: it is at or after the Unix epoch (earlier clocks panic), it
/// is a date `chrono` holds (`from_timestamp(..).unwrap()`), and its
/// nanoseconds are those of a `Duration` within its second.
#[verifier::external_body]
pub(crate) fn utc_now_parts() -> (r: (i64, u32))
    ensures
        0 <= r.0 <= 8_210_266_876_799,
        r.1 < 1_000_000_000,
{
    let now = Utc::now();
    (now.timestamp(), now.timestamp_subsec_nanos())
}

/// The RFC 3339 text that `chrono` writes for an instant (`to_rfc3339` of
/// the UTC date-time, so with a `+00:00` offset).
pub uninterp spec fn rfc3339_text(secs: i64, nanos: u32) -> Seq<char>;

/// Calls `DateTime::from_timestamp` and `to_rfc3339`; the text depends on
/// the instant alone and is named `rfc3339_text`. `requires` keeps the
/// instant within the dates `chrono` holds (and the nanoseconds within a
/// second), where `from_timestamp` gives a value.
#[verifier::external_body]
pub(crate) fn format_rfc3339(secs: i64, nanos: u32) -> (r: String)
    requires
        -8_334_601_315_200 <= secs <= 8_210_266_876_799,
        nanos < 1_000_000_000,
    ensures
        r@ == rfc3339_text(secs, nanos),
{
    match DateTime::<Utc>::from_timestamp(secs, nanos) {
        Some(dt) => dt.to_rfc3339(),
        None => String::new(),
    }
}

/// The `%Y-%m-%d` text that `chrono` writes for an instant.
pub uninterp spec fn ymd_text(secs: i64, nanos: u32) -> Seq<char>;

/// Calls `DateTime::from_timestamp` and formats the date as `%Y-%m-%d`; the
/// text depends on the instant alone and is named `ymd_text`. `requires`
/// keeps the instant within the dates `chrono` holds (and the nanoseconds
/// within a second), where `from_timestamp` gives a value.
#[verifier::external_body]
pub(crate) fn format_ymd(secs: i64, nanos: u32) -> (r: String)
    requires
        -8_334_601_315_200 <= secs <= 8_210_266_876_799,
        nanos < 1_000_000_000,
    ensures
        r@ == ymd_text(secs, nanos),
{
    match DateTime::<Utc>::from_timestamp(secs, nanos) {
        Some(dt) => dt.format("%Y-%m-%d").to_string(),
        None => String::new(),
    }
}

} // verus!

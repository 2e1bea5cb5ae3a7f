//! Calendar dates and time-zone boundaries, computed by `chrono` and `chrono-tz`.
//! Each item here is trusted: it states what the outside crate returns.

use vstd::prelude::*;
use chrono::{DateTime, Datelike, LocalResult, NaiveDate, Offset, TimeZone, Utc};
use chrono_tz::Tz;

verus! {

/// A proleptic Gregorian calendar date as plain values.
#[derive(Debug, Clone, Copy, PartialEq, Eq, Structural)]
pub struct CivilDate {
    pub year: i32,
    pub month: u32,
    pub day: u32,
}

/// How a local midnight maps to UTC in a time zone.
#[derive(Debug, Clone, Copy, PartialEq, Eq, Structural)]
pub enum LocalMidnight {
    /// Exactly one instant, in UTC epoch seconds.
    Single(i64),
    /// Two instants (the clock was turned back over midnight).
    Ambiguous,
    /// No instant (the clock skipped midnight).
    Nonexistent,
}

/// The date `chrono` reads from `s` with the pattern `%Y-%m-%d`, if any.
pub uninterp spec fn iso_date_parse(s: Seq<char>) -> Option<CivilDate>;

/// The text `chrono` writes for a date with the pattern `%Y-%m-%d`; `None` when
/// the year, month and day name no date.
pub uninterp spec fn iso_date_format(year: i32, month: u32, day: u32) -> Option<Seq<char>>;

/// The day after a date, if `chrono` can represent it.
pub uninterp spec fn next_civil_day(year: i32, month: u32, day: u32) -> Option<CivilDate>;

/// The UTC calendar date of an epoch second, if `chrono` can represent it.
pub uninterp spec fn utc_date_at(timestamp: i64) -> Option<CivilDate>;

/// The local date in the zone named `id` at the UTC epoch second `timestamp`, if
/// `chrono` can represent it.
pub uninterp spec fn zone_date_at(id: Seq<char>, timestamp: i64) -> Option<CivilDate>;

/// Whether `chrono-tz` knows the IANA zone named `id`.
pub uninterp spec fn timezone_known(id: Seq<char>) -> bool;

/// Where local midnight of a date falls in UTC in the IANA zone named `id`.
pub uninterp spec fn zone_midnight(id: Seq<char>, year: i32, month: u32, day: u32) -> LocalMidnight;

/// Whether the plain values name a date that `chrono` can represent.
pub open spec fn is_real_date(d: CivilDate) -> bool {
    iso_date_format(d.year, d.month, d.day) is Some
}

/// Calls `chrono::NaiveDate::parse_from_str(s, "%Y-%m-%d")`; a date it returns
/// is a real date (built by `chrono`, so `from_ymd_opt` accepts its parts).
#[verifier::external_body]
pub(crate) fn parse_iso_date(s: &str) -> (r: Option<CivilDate>)
    ensures
        r == iso_date_parse(s@),
        r matches Some(d) ==> is_real_date(d),
{
    match NaiveDate::parse_from_str(s, "%Y-%m-%d") {
        Ok(d) => Some(CivilDate { year: d.year(), month: d.month(), day: d.day() }),
        Err(_) => None,
    }
}

/// Calls `NaiveDate::format("%Y-%m-%d")` on the date `from_ymd_opt` builds from
/// the parts, and `to_string` on it; `None` when `from_ymd_opt` refuses the parts.
#[verifier::external_body]
pub(crate) fn format_iso_date(d: CivilDate) -> (r: Option<String>)
    ensures
        match r {
            Some(s) => iso_date_format(d.year, d.month, d.day) == Some(s@),
            None => iso_date_format(d.year, d.month, d.day) is None,
        },
{
    match NaiveDate::from_ymd_opt(d.year, d.month, d.day) {
        Some(date) => Some(date.format("%Y-%m-%d").to_string()),
        None => None,
    }
}

/// Calls `NaiveDate::succ_opt` on the date built from the parts; the day it
/// returns is a real date.
#[verifier::external_body]
pub(crate) fn next_date(d: CivilDate) -> (r: Option<CivilDate>)
    requires
        is_real_date(d),
    ensures
        r == next_civil_day(d.year, d.month, d.day),
        r matches Some(n) ==> is_real_date(n),
{
    let date = NaiveDate::from_ymd_opt(d.year, d.month, d.day).unwrap();
    match date.succ_opt() {
        Some(n) => Some(CivilDate { year: n.year(), month: n.month(), day: n.day() }),
        None => None,
    }
}

/// Calls `DateTime::<Utc>::from_timestamp(timestamp, 0)` and reads the date of
/// the instant; the day it returns is a real date. `chrono` dates span the years
/// -262144 to 262143, so an instant it accepts lies within 9 * 10^12 seconds of the epoch.
#[verifier::external_body]
pub(crate) fn utc_date_of_timestamp(timestamp: i64) -> (r: Option<CivilDate>)
    ensures
        r == utc_date_at(timestamp),
        r matches Some(n) ==> is_real_date(n),
        r is Some ==> -9_000_000_000_000 < timestamp < 9_000_000_000_000,
{
    match DateTime::<Utc>::from_timestamp(timestamp, 0) {
        Some(dt) => {
            let d = dt.date_naive();
            Some(CivilDate { year: d.year(), month: d.month(), day: d.day() })
        },
        None => None,
    }
}

/// Calls `str::parse::<chrono_tz::Tz>` and reports whether it succeeded.
#[verifier::external_body]
pub(crate) fn is_known_timezone(id: &str) -> (b: bool)
    ensures
        b == timezone_known(id@),
{
    id.parse::<Tz>().is_ok()
}

/// Calls `TimeZone::from_local_datetime` of the zone named `id` on midnight of
/// the date, and tells its three outcomes apart.
#[verifier::external_body]
pub(crate) fn local_midnight(id: &str, d: CivilDate) -> (r: LocalMidnight)
    requires
        timezone_known(id@),
        is_real_date(d),
    ensures
        r == zone_midnight(id@, d.year, d.month, d.day),
{
    let zone: Tz = id.parse().unwrap();
    let midnight = NaiveDate::from_ymd_opt(d.year, d.month, d.day).unwrap().and_hms_opt(0, 0, 0).unwrap();
    match zone.from_local_datetime(&midnight) {
        LocalResult::Single(v) => LocalMidnight::Single(v.timestamp()),
        LocalResult::Ambiguous(_, _) => LocalMidnight::Ambiguous,
        LocalResult::None => LocalMidnight::Nonexistent,
    }
}

/// Calls `DateTime::<Utc>::from_timestamp(timestamp, 0)`, then the zone's
/// `TimeZone::offset_from_utc_datetime` and `NaiveDateTime::checked_add_offset`,
/// and reads the local date; `None` where either `chrono` call finds the instant
/// out of its range. The day it returns is a real date.
#[verifier::external_body]
pub(crate) fn zone_local_date(id: &str, timestamp: i64) -> (r: Option<CivilDate>)
    requires
        timezone_known(id@),
    ensures
        r == zone_date_at(id@, timestamp),
        r matches Some(d) ==> is_real_date(d),
{
    let zone: Tz = id.parse().unwrap();
    let utc = DateTime::<Utc>::from_timestamp(timestamp, 0)?.naive_utc();
    let local = utc.checked_add_offset(zone.offset_from_utc_datetime(&utc).fix())?;
    let d = local.date();
    Some(CivilDate { year: d.year(), month: d.month(), day: d.day() })
}

} // verus!

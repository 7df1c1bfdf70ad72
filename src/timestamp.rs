//! The creation-time fallback: from an instant in epoch milliseconds to a day.
use vstd::prelude::*;
use crate::date::{days_in_month, valid_ymd, CalendarDate};
use crate::plan::RenameError;

verus! {

/// The (year, month, day) of the proleptic Gregorian calendar that lies `z`
/// days after 1970-01-01 (before it where `z` is negative).
pub open spec fn civil_from_days(z: int) -> (int, int, int) {
    let shifted = z + 719468;
    let era = shifted / 146097;
    let doe = shifted - era * 146097;
    let yoe = (doe - doe / 1460 + doe / 36524 - doe / 146096) / 365;
    let doy = doe - (365 * yoe + yoe / 4 - yoe / 100);
    let mp = (5 * doy + 2) / 153;
    let d = doy - (153 * mp + 2) / 5 + 1;
    let m = if mp < 10 { mp + 3 } else { mp - 9 };
    let y = yoe + era * 400;
    (if m <= 2 { y + 1 } else { y }, m, d)
}

/// The UTC calendar day of an instant given in milliseconds since the Unix
/// epoch: the day that holds the floor of `ms` / 86 400 000.
pub open spec fn utc_day_of(ms: int) -> (int, int, int) {
    civil_from_days(ms / 86400000)
}

/// The instant falls between 0000-01-01T00:00Z and 9999-12-31T23:59:59.999Z.
pub open spec fn in_four_digit_years(ms: int) -> bool {
    -62167219200000 <= ms <= 253402300799999
}

/// The month and day of `t` name a real day of its year (a chrono date always
/// does; its year may lie outside the four-digit years).
pub open spec fn real_day_of_year(t: (i32, u32, u32)) -> bool {
    1 <= t.1 <= 12 && 1 <= t.2 <= days_in_month(t.0 as int, t.1 as int)
}

/// The triple as integers.
pub open spec fn as_ints(t: (i32, u32, u32)) -> (int, int, int) {
    (t.0 as int, t.1 as int, t.2 as int)
}

/// Relies on chrono's `Utc.timestamp_millis_opt` and `Datelike`: the UTC
/// calendar day of the instant, always a real day (a `NaiveDate`); `None`
/// only outside chrono's range of dates, which holds every four-digit year.
#[verifier::external_body]
fn utc_calendar(ms: i64) -> (r: Option<(i32, u32, u32)>)
    ensures
        r matches Some(t) ==> as_ints(t) == utc_day_of(ms as int) && real_day_of_year(t),
        in_four_digit_years(ms as int) ==> r is Some,
        r matches Some(t) ==> (in_four_digit_years(ms as int) ==> 0 <= t.0 <= 9999),
{
    match chrono::TimeZone::timestamp_millis_opt(&chrono::Utc, ms).single() {
        Some(dt) => Some((
            chrono::Datelike::year(&dt),
            chrono::Datelike::month(&dt),
            chrono::Datelike::day(&dt),
        )),
        None => None,
    }
}

/// The UTC day of the instant, or the day before or after it: where a local
/// day can fall, since every local offset is less than a day.
pub open spec fn near_utc_day(ms: int, t: (int, int, int)) -> bool {
    let z = ms / 86400000;
    t == civil_from_days(z - 1) || t == civil_from_days(z) || t == civil_from_days(z + 1)
}

/// The instant falls between 0000-01-02T00:00Z and 9999-12-30T23:59:59.999Z, so
/// its local day has a four-digit year in any time zone.
pub open spec fn in_four_digit_years_anywhere(ms: int) -> bool {
    -62167132800000 <= ms <= 253402214399999
}

/// Relies on chrono's `Local.timestamp_millis_opt` and `Datelike`: the calendar
/// day of the instant in the machine's time zone. chrono returns a single
/// result wherever the instant is in its range, and its local offset
/// (`FixedOffset::east_opt`) is always less than a day, so the day is the UTC
/// day or one next to it; it is always a real day (a `NaiveDate`).
#[verifier::external_body]
fn local_calendar(ms: i64) -> (r: Option<(i32, u32, u32)>)
    ensures
        r matches Some(t) ==> near_utc_day(ms as int, as_ints(t)) && real_day_of_year(t),
        in_four_digit_years_anywhere(ms as int) ==> r is Some,
        r matches Some(t) ==> (in_four_digit_years_anywhere(ms as int) ==> 0 <= t.0 <= 9999),
{
    match chrono::TimeZone::timestamp_millis_opt(&chrono::Local, ms).single() {
        Some(dt) => Some((
            chrono::Datelike::year(&dt),
            chrono::Datelike::month(&dt),
            chrono::Datelike::day(&dt),
        )),
        None => None,
    }
}

/// The date that a converted creation time gives: the day itself where it is a
/// real day with a four-digit year, else `MetadataUnavailable`.
pub open spec fn date_from_parts_spec(t: Option<(i32, u32, u32)>) -> Option<(int, int, int)> {
    match t {
        Some(v) => if valid_ymd(v.0 as int, v.1 as int, v.2 as int) {
            Some((v.0 as int, v.1 as int, v.2 as int))
        } else {
            None
        },
        None => None,
    }
}

pub open spec fn date_result_view(r: Result<CalendarDate, RenameError>) -> Option<(int, int, int)> {
    match r {
        Ok(c) => Some((c.spec_year(), c.spec_month(), c.spec_day())),
        Err(_) => None,
    }
}

/// Turns a converted creation time into a date; a missing conversion or a day
/// outside the four-digit years gives `MetadataUnavailable`.
pub fn date_from_parts(t: Option<(i32, u32, u32)>) -> (r: Result<CalendarDate, RenameError>)
    ensures
        date_result_view(r) == date_from_parts_spec(t),
        r matches Ok(c) ==> c.wf(),
        r matches Err(e) ==> e == RenameError::MetadataUnavailable,
{
    match t {
        None => Err(RenameError::MetadataUnavailable),
        Some((y, m, d)) => match CalendarDate::new(y as i64, m as i64, d as i64) {
            Some(c) => Ok(c),
            None => Err(RenameError::MetadataUnavailable),
        },
    }
}

/// The UTC day of a creation time in epoch milliseconds, as the remote vault
/// reports it; an instant outside the four-digit years gives
/// `MetadataUnavailable`.
pub fn creation_date_utc(ms: i64) -> (r: Result<CalendarDate, RenameError>)
    ensures
        r matches Ok(c) ==> c.wf() && (c.spec_year(), c.spec_month(), c.spec_day()) == utc_day_of(ms as int),
        in_four_digit_years(ms as int) <==> r is Ok,
        r matches Err(e) ==> e == RenameError::MetadataUnavailable,
{
    date_from_parts(utc_calendar(ms))
}

/// The local day of a creation time in epoch milliseconds, as the local file
/// system reports it: the UTC day or one next to it, as the machine's time zone
/// decides; `MetadataUnavailable` where that day is outside the four-digit
/// years.
pub fn creation_date_local(ms: i64) -> (r: Result<CalendarDate, RenameError>)
    ensures
        r matches Ok(c) ==> c.wf() && near_utc_day(ms as int, (c.spec_year(), c.spec_month(), c.spec_day())),
        in_four_digit_years_anywhere(ms as int) ==> r is Ok,
        r matches Err(e) ==> e == RenameError::MetadataUnavailable,
{
    date_from_parts(local_calendar(ms))
}

} // verus!

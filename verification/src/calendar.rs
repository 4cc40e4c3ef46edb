//! Proleptic Gregorian calendar dates as plain values, with the few calendar
//! operations that are delegated to `chrono`.
use chrono::Datelike;
use vstd::prelude::*;

verus! {

/// The earliest year that `chrono::NaiveDate` represents.
pub const MIN_CALENDAR_YEAR: i32 = -262143;

/// The latest year that `chrono::NaiveDate` represents.
pub const MAX_CALENDAR_YEAR: i32 = 262142;

/// A calendar date (year, month 1..=12, day of month).
#[derive(Debug, Clone, Copy, PartialEq, Eq, Structural)]
pub struct CivilDate {
    pub year: i32,
    pub month: u32,
    pub day: u32,
}

/// Gregorian leap-year rule.
pub open spec fn leap_year(y: int) -> bool {
    (y % 4 == 0 && y % 100 != 0) || y % 400 == 0
}

/// Number of days in month `m` of year `y`; months outside 1..=12 count 30 days.
pub open spec fn days_in_month(y: int, m: int) -> int {
    if m == 1 || m == 3 || m == 5 || m == 7 || m == 8 || m == 10 || m == 12 {
        31
    } else if m == 4 || m == 6 || m == 9 || m == 11 {
        30
    } else if m == 2 {
        if leap_year(y) { 29 } else { 28 }
    } else {
        30
    }
}

/// The date exists and lies in the range that `chrono` represents.
pub open spec fn ymd_valid(y: int, m: int, d: int) -> bool {
    &&& MIN_CALENDAR_YEAR <= y <= MAX_CALENDAR_YEAR
    &&& 1 <= m <= 12
    &&& 1 <= d <= days_in_month(y, m)
}

impl CivilDate {
    pub open spec fn valid(self) -> bool {
        ymd_valid(self.year as int, self.month as int, self.day as int)
    }

    pub open spec fn ymd(self) -> (int, int, int) {
        (self.year as int, self.month as int, self.day as int)
    }
}

/// Strict chronological order of two dates.
pub open spec fn ymd_before(a: (int, int, int), b: (int, int, int)) -> bool {
    ||| a.0 < b.0
    ||| a.0 == b.0 && a.1 < b.1
    ||| a.0 == b.0 && a.1 == b.1 && a.2 < b.2
}

/// The calendar day before `(y, m, d)`.
pub open spec fn prev_ymd(y: int, m: int, d: int) -> (int, int, int) {
    if d > 1 {
        (y, m, d - 1)
    } else if m > 1 {
        (y, m - 1, days_in_month(y, m - 1))
    } else {
        (y - 1, 12, 31)
    }
}

/// Days since 1970-01-01 of a proleptic Gregorian date.
pub open spec fn days_from_civil(y: int, m: int, d: int) -> int {
    let yy = if m <= 2 { y - 1 } else { y };
    let era = yy / 400;
    let yoe = yy - era * 400;
    let mp = if m > 2 { m - 3 } else { m + 9 };
    let doy = (153 * mp + 2) / 5 + d - 1;
    let doe = yoe * 365 + yoe / 4 - yoe / 100 + doy;
    era * 146097 + doe - 719468
}

/// Day of the week counted from Monday (Monday 0, ..., Friday 4, Saturday 5, Sunday 6).
pub open spec fn weekday_index(y: int, m: int, d: int) -> int {
    (days_from_civil(y, m, d) + 3) % 7
}

/// Saturday or Sunday.
pub open spec fn is_weekend(y: int, m: int, d: int) -> bool {
    weekday_index(y, m, d) >= 5
}

/// Within a month, the weekday advances by one per day.
pub proof fn lemma_weekday_shift(y: int, m: int, d: int, k: int)
    requires
        k >= 0,
    ensures
        days_from_civil(y, m, d + k) == days_from_civil(y, m, d) + k,
        weekday_index(y, m, d + k) == (weekday_index(y, m, d) + k) % 7,
{
}

/// Whether `chrono::NaiveDate::from_ymd_opt` accepts the date.
#[verifier::external_body]
pub(crate) fn date_exists(year: i32, month: u32, day: u32) -> (b: bool)
    ensures
        b == ymd_valid(year as int, month as int, day as int),
{
    chrono::NaiveDate::from_ymd_opt(year, month, day).is_some()
}

/// `Datelike::weekday` of a date, as `Weekday::num_days_from_monday`.
#[verifier::external_body]
pub(crate) fn weekday_from_monday(year: i32, month: u32, day: u32) -> (w: u32)
    requires
        ymd_valid(year as int, month as int, day as int),
    ensures
        w as int == weekday_index(year as int, month as int, day as int),
{
    chrono::NaiveDate::from_ymd_opt(year, month, day).unwrap().weekday().num_days_from_monday()
}

/// `NaiveDate::pred_opt`: the previous calendar day, `None` before the first representable date.
#[verifier::external_body]
pub(crate) fn previous_day(year: i32, month: u32, day: u32) -> (res: Option<(i32, u32, u32)>)
    requires
        ymd_valid(year as int, month as int, day as int),
    ensures
        res is Some <==> ymd_valid(
            prev_ymd(year as int, month as int, day as int).0,
            prev_ymd(year as int, month as int, day as int).1,
            prev_ymd(year as int, month as int, day as int).2,
        ),
        res matches Some(q) ==> (q.0 as int, q.1 as int, q.2 as int) == prev_ymd(
            year as int,
            month as int,
            day as int,
        ),
{
    match chrono::NaiveDate::from_ymd_opt(year, month, day).unwrap().pred_opt() {
        Some(p) => Some((p.year(), p.month(), p.day())),
        None => None,
    }
}

/// `NaiveDate + Duration::days(days)` for a result in the same month.
#[verifier::external_body]
pub(crate) fn add_days_in_month(year: i32, month: u32, day: u32, days: u32) -> (res: (i32, u32, u32))
    requires
        ymd_valid(year as int, month as int, day as int),
        day + days <= days_in_month(year as int, month as int),
    ensures
        res.0 == year,
        res.1 == month,
        res.2 == day + days,
{
    let d = chrono::NaiveDate::from_ymd_opt(year, month, day).unwrap() + chrono::Duration::days(days as i64);
    (d.year(), d.month(), d.day())
}

/// `Local::now().date_naive()`: today's date in the local time zone.
#[verifier::external_body]
pub(crate) fn local_today() -> (res: (i32, u32, u32))
    ensures
        ymd_valid(res.0 as int, res.1 as int, res.2 as int),
{
    let d = chrono::Local::now().date_naive();
    (d.year(), d.month(), d.day())
}

/// An instant as seconds and nanoseconds since 1970-01-01 00:00:00 UTC.
#[derive(Debug, Clone, Copy, PartialEq, Eq, Structural)]
pub struct Timestamp {
    pub secs: i64,
    pub nanos: u32,
}

/// `DateTime::from_timestamp(secs, 0)` exists: the day lies in the representable calendar.
pub open spec fn unix_seconds_representable(secs: int) -> bool {
    days_from_civil(MIN_CALENDAR_YEAR as int, 1, 1) <= secs / 86400 <= days_from_civil(
        MAX_CALENDAR_YEAR as int,
        12,
        31,
    )
}

/// `Utc::now()`: the current instant, as `timestamp()` and `timestamp_subsec_nanos()`. Being
/// a chrono date-time, it lies in the representable calendar.
#[verifier::external_body]
pub(crate) fn utc_now() -> (t: Timestamp)
    ensures
        t.nanos < 1_000_000_000,
        unix_seconds_representable(t.secs as int),
{
    let now = chrono::Utc::now();
    Timestamp { secs: now.timestamp(), nanos: now.timestamp_subsec_nanos() }
}

/// Strict chronological order of two dates.
pub fn date_is_after(a: CivilDate, b: CivilDate) -> (r: bool)
    ensures
        r == ymd_before(b.ymd(), a.ymd()),
{
    a.year > b.year || (a.year == b.year && (a.month > b.month || (a.month == b.month && a.day > b.day)))
}

} // verus!

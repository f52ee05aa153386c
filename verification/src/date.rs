//! Calendar dates and the delivery timestamp: a date is taken at 23:59:00
//! UTC, counted in seconds from the Unix epoch, and shifted to the custom
//! epoch of the year 2000.

use vstd::prelude::*;

use crate::consts::SECONDS_TO_2000;

verus! {

/// The Gregorian leap-year rule.
pub open spec fn is_leap_year(y: int) -> bool {
    y % 4 == 0 && (y % 100 != 0 || y % 400 == 0)
}

pub open spec fn days_in_year(y: int) -> int {
    if is_leap_year(y) {
        366
    } else {
        365
    }
}

pub open spec fn days_in_month(y: int, m: int) -> int {
    if m == 2 {
        if is_leap_year(y) {
            29
        } else {
            28
        }
    } else if m == 4 || m == 6 || m == 9 || m == 11 {
        30
    } else {
        31
    }
}

/// Days from 1970-01-01 to the first day of year `y`.
pub open spec fn days_before_year(y: int) -> int
    decreases y - 1970,
{
    if y <= 1970 {
        0
    } else {
        days_before_year(y - 1) + days_in_year(y - 1)
    }
}

/// Days from the first of January to the first day of month `m` of year `y`.
pub open spec fn days_before_month(y: int, m: int) -> int
    decreases m,
{
    if m <= 1 {
        0
    } else {
        days_before_month(y, m - 1) + days_in_month(y, m - 1)
    }
}

/// Days from 1970-01-01 to the given calendar day.
pub open spec fn days_from_unix_epoch(y: int, m: int, d: int) -> int {
    days_before_year(y) + days_before_month(y, m) + d - 1
}

/// True for a day that exists in the proleptic Gregorian calendar, within
/// the four-digit years this library formats.
pub open spec fn valid_date(y: int, m: int, d: int) -> bool {
    1970 <= y <= 9999 && 1 <= m <= 12 && 1 <= d <= days_in_month(y, m)
}

/// Seconds from the Unix epoch to 23:59:00 UTC of the given date.
pub open spec fn spec_unix_2359(y: int, m: int, d: int) -> int {
    86400 * days_from_unix_epoch(y, m, d) + 23 * 3600 + 59 * 60
}

/// The delivery timestamp: 23:59:00 UTC of the date, in seconds since the
/// custom epoch of 2000-01-01 00:00:00 UTC.
pub open spec fn spec_cdb_time(y: int, m: int, d: int) -> int {
    spec_unix_2359(y, m, d) - SECONDS_TO_2000
}

/// A calendar date, valid by construction through `new`.
#[derive(Clone, Copy, Debug, PartialEq, Eq, Structural)]
pub struct Date {
    pub year: u16,
    pub month: u8,
    pub day: u8,
}

impl Date {
    /// True when the fields name a day that exists.
    pub open spec fn wf(self) -> bool {
        valid_date(self.year as int, self.month as int, self.day as int)
    }

    /// The date, when the fields name a day that exists; `None` otherwise.
    pub fn new(year: u16, month: u8, day: u8) -> (r: Option<Date>)
        ensures
            match r {
                Some(d) => d.wf() && d.year == year && d.month == month && d.day == day,
                None => !valid_date(year as int, month as int, day as int),
            },
    {
        if year < 1970 || year > 9999 || month < 1 || month > 12 {
            return None;
        }
        if day < 1 || day > days_in_month_exec(year, month) {
            return None;
        }
        Some(Date { year, month, day })
    }
}

/// The number of days of month `m` of year `y`.
fn days_in_month_exec(y: u16, m: u8) -> (r: u8)
    requires
        1 <= m <= 12,
    ensures
        r == days_in_month(y as int, m as int),
{
    if m == 2 {
        if y % 4 == 0 && (y % 100 != 0 || y % 400 == 0) {
            29
        } else {
            28
        }
    } else if m == 4 || m == 6 || m == 9 || m == 11 {
        30
    } else {
        31
    }
}

/// Days from 1970-01-01 to the date: the day count beneath the Unix time of
/// any moment of that day.
fn days_from_epoch(date: &Date) -> (r: u64)
    requires
        date.wf(),
    ensures
        r == days_from_unix_epoch(date.year as int, date.month as int, date.day as int),
        r <= (date.year as int - 1968) * 366,
{
    let mut days: u64 = 0;
    let mut y: u16 = 1970;
    while y < date.year
        invariant
            date.wf(),
            1970 <= y <= date.year,
            days == days_before_year(y as int),
            days <= (y - 1970) * 366,
        decreases date.year - y,
    {
        if y % 4 == 0 && (y % 100 != 0 || y % 400 == 0) {
            days = days + 366;
        } else {
            days = days + 365;
        }
        y = y + 1;
    }
    let mut m: u8 = 1;
    while m < date.month
        invariant
            date.wf(),
            1 <= m <= date.month,
            days == days_before_year(date.year as int) + days_before_month(
                date.year as int,
                m as int,
            ),
            days <= (date.year - 1970) * 366 + (m - 1) * 31,
        decreases date.month - m,
    {
        days = days + days_in_month_exec(date.year, m) as u64;
        m = m + 1;
    }
    days + date.day as u64 - 1
}

/// The delivery timestamp of the date: its Unix time at 23:59:00 UTC, less
/// the seconds between the Unix epoch and the year 2000.
pub fn cdb_time_from_date(date: &Date) -> (r: u32)
    requires
        date.wf(),
        2000 <= date.year <= 2035,
    ensures
        r == spec_cdb_time(date.year as int, date.month as int, date.day as int),
{
    let days = days_from_epoch(date);
    proof {
        lemma_days_before_year_2000();
        lemma_days_before_year_monotonic(2000, date.year as int);
        lemma_days_before_month_nonneg(date.year as int, date.month as int);
        assert((date.year as int - 2000) * 365 >= 0) by (nonlinear_arith)
            requires
                date.year >= 2000,
        ;
        assert((date.year as int - 1968) * 366 <= 67 * 366) by (nonlinear_arith)
            requires
                date.year <= 2035,
        ;
        assert(days >= 10957);
    }
    let unix: u64 = 86400 * days + 23 * 3600 + 59 * 60;
    let shifted: u64 = unix - SECONDS_TO_2000;
    shifted as u32
}

/// There are 10957 days between 1970-01-01 and 2000-01-01.
proof fn lemma_days_before_year_2000()
    ensures
        days_before_year(2000) == 10957,
{
    reveal_with_fuel(days_before_year, 32);
}

/// No month lies before the first of January.
proof fn lemma_days_before_month_nonneg(y: int, m: int)
    requires
        m >= 1,
    ensures
        days_before_month(y, m) >= 0,
    decreases m,
{
    if m > 1 {
        lemma_days_before_month_nonneg(y, m - 1);
    }
}

/// Later years lie at later day counts.
proof fn lemma_days_before_year_monotonic(a: int, b: int)
    requires
        1970 <= a <= b,
    ensures
        days_before_year(a) + (b - a) * 365 <= days_before_year(b),
    decreases b - a,
{
    if a < b {
        lemma_days_before_year_monotonic(a, b - 1);
        assert(days_before_year(b) == days_before_year(b - 1) + days_in_year(b - 1));
        assert((b - a) * 365 == (b - 1 - a) * 365 + 365) by (nonlinear_arith);
    }
}

} // verus!

//! Conversion of a naive calendar date-time to Unix epoch seconds.
//!
//! The embedded capture date carries no timezone, so it is converted as if
//! it were UTC: whole days since 1970-01-01 times 86400, plus the seconds
//! into the day. The day count is defined by plain calendar sums, proleptic
//! Gregorian, from year 0 (the earliest a four-digit field can name).

use vstd::prelude::*;
use crate::datetime::DateTime;
use crate::datetime::days_in_month;
use crate::datetime::is_leap_year;
use crate::datetime::spec_days_in_month;
use crate::datetime::spec_is_leap_year;

verus! {

pub open spec fn spec_days_in_year(y: int) -> int {
    if spec_is_leap_year(y) {
        366
    } else {
        365
    }
}

/// Days from January 1 of year 0 to January 1 of year `y` (0 for `y <= 0`).
pub open spec fn spec_days_before_year(y: int) -> int
    decreases y,
{
    if y <= 0 {
        0
    } else {
        spec_days_before_year(y - 1) + spec_days_in_year(y - 1)
    }
}

/// Days from January 1 to the first of month `m` in year `y`.
pub open spec fn spec_days_before_month(y: int, m: int) -> int
    decreases m,
{
    if m <= 1 {
        0
    } else {
        spec_days_before_month(y, m - 1) + spec_days_in_month(y, m - 1)
    }
}

/// Days from January 1 of year 0 to the date named by `dt`.
pub open spec fn spec_civil_days(dt: DateTime) -> int {
    spec_days_before_year(dt.year as int) + spec_days_before_month(dt.year as int, dt.month as int)
        + dt.day - 1
}

/// Unix epoch seconds of `dt`, read as a UTC instant.
pub open spec fn spec_unix_seconds(dt: DateTime) -> int {
    (spec_civil_days(dt) - spec_days_before_year(1970)) * 86400 + dt.hour * 3600 + dt.minute * 60
        + dt.second
}

proof fn lemma_days_before_year_bounds(y: int)
    requires
        y >= 0,
    ensures
        365 * y <= spec_days_before_year(y) <= 366 * y,
    decreases y,
{
    if y > 0 {
        lemma_days_before_year_bounds(y - 1);
    }
}

proof fn lemma_days_before_month_bounds(y: int, m: int)
    requires
        m >= 1,
    ensures
        0 <= spec_days_before_month(y, m) <= 31 * (m - 1),
    decreases m,
{
    if m > 1 {
        lemma_days_before_month_bounds(y, m - 1);
    }
}

/// The epoch second count of any valid date-time fits an `i64`: carrying
/// it in one loses nothing.
pub proof fn lemma_unix_seconds_in_range(dt: DateTime)
    requires
        dt.valid(),
    ensures
        i64::MIN <= spec_unix_seconds(dt) <= i64::MAX,
{
    lemma_days_before_year_bounds(dt.year as int);
    lemma_days_before_year_bounds(1970);
    lemma_days_before_month_bounds(dt.year as int, dt.month as int);
}

/// Days from January 1 of year 0 to January 1 of year `y`, by summing
/// year lengths.
pub fn days_before_year(y: u16) -> (r: u32)
    requires
        y <= 9999,
    ensures
        r as int == spec_days_before_year(y as int),
{
    let mut r: u32 = 0;
    let mut i: u16 = 0;
    while i < y
        invariant
            i <= y <= 9999,
            r as int == spec_days_before_year(i as int),
        decreases y - i,
    {
        proof {
            lemma_days_before_year_bounds(i as int);
        }
        r = r + if is_leap_year(i) {
            366
        } else {
            365
        };
        i = i + 1;
    }
    r
}

/// Days from January 1 to the first of month `m` in year `y`, by summing
/// month lengths.
pub fn days_before_month(y: u16, m: u8) -> (r: u16)
    requires
        1 <= m <= 12,
    ensures
        r as int == spec_days_before_month(y as int, m as int),
{
    let mut r: u16 = 0;
    let mut i: u8 = 1;
    while i < m
        invariant
            1 <= i <= m <= 12,
            r as int == spec_days_before_month(y as int, i as int),
        decreases m - i,
    {
        proof {
            lemma_days_before_month_bounds(y as int, i as int);
        }
        r = r + days_in_month(y, i) as u16;
        i = i + 1;
    }
    r
}

/// The Unix epoch second count for `dt`, read as a UTC instant, with zero
/// sub-second remainder.
pub fn to_unix_seconds(dt: &DateTime) -> (r: i64)
    requires
        dt.valid(),
    ensures
        r as int == spec_unix_seconds(*dt),
{
    proof {
        lemma_days_before_year_bounds(dt.year as int);
        lemma_days_before_year_bounds(1970);
        lemma_days_before_month_bounds(dt.year as int, dt.month as int);
    }
    let civil: i64 = days_before_year(dt.year) as i64 + days_before_month(dt.year, dt.month) as i64
        + dt.day as i64 - 1;
    let days: i64 = civil - days_before_year(1970) as i64;
    days * 86400 + dt.hour as i64 * 3600 + dt.minute as i64 * 60 + dt.second as i64
}

} // verus!

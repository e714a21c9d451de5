//! Proleptic Gregorian calendar arithmetic from the Unix epoch, used to
//! derive day and hour bucket labels from a timestamp in seconds.

use vstd::prelude::*;
use crate::text::{padded, push_padded, text_of};

verus! {

pub const SECONDS_PER_DAY: u64 = 86400;

pub const SECONDS_PER_HOUR: u64 = 3600;

/// Gregorian leap rule.
pub open spec fn is_leap(y: int) -> bool {
    (y % 4 == 0 && y % 100 != 0) || y % 400 == 0
}

pub open spec fn year_length(y: int) -> int {
    if is_leap(y) { 366 } else { 365 }
}

/// Days in month `m` (1-based) of year `y`.
pub open spec fn month_length(y: int, m: int) -> int {
    if m == 2 {
        if is_leap(y) { 29 } else { 28 }
    } else if m == 4 || m == 6 || m == 9 || m == 11 {
        30
    } else {
        31
    }
}

/// Starting in year `y`, whole years are taken off `days` while they fit;
/// gives the year reached and the (0-based) day within it.
pub open spec fn year_and_day(days: nat, y: nat) -> (nat, nat)
    decreases days,
{
    if days < year_length(y as int) {
        (y, days)
    } else {
        year_and_day((days - year_length(y as int)) as nat, y + 1)
    }
}

/// Starting in month `m` of year `y`, whole months are taken off the
/// day-of-year `d` while they fit (December takes the rest); gives the month
/// reached and the (0-based) day within it.
pub open spec fn month_and_day(y: nat, d: nat, m: nat) -> (nat, nat)
    decreases 12 - m,
{
    if m >= 12 || d < month_length(y as int, m as int) {
        (m, d)
    } else {
        month_and_day(y, (d - month_length(y as int, m as int)) as nat, m + 1)
    }
}

/// The civil date `(year, month, day)` of the UTC day holding `ts`.
pub open spec fn civil(ts: nat) -> (nat, nat, nat) {
    let (y, doy) = year_and_day(ts / 86400, 1970);
    let (m, dom) = month_and_day(y, doy, 1);
    (y, m, dom + 1)
}

/// `YYYY-MM-DD` for the day holding `ts`.
pub open spec fn civil_date(ts: nat) -> Seq<char> {
    let (y, m, d) = civil(ts);
    padded(y, 4) + seq!['-'] + padded(m, 2) + seq!['-'] + padded(d, 2)
}

/// `YYYY-MM-DD-HH` for the hour holding `ts`.
pub open spec fn civil_hour(ts: nat) -> Seq<char> {
    civil_date(ts) + seq!['-'] + padded((ts % 86400) / 3600, 2)
}

/// Whether `year` is a leap year of the Gregorian calendar.
pub fn is_leap_year(year: u64) -> (r: bool)
    ensures
        r == is_leap(year as int),
{
    (year % 4 == 0 && year % 100 != 0) || (year % 400 == 0)
}

fn year_days(year: u64) -> (r: u64)
    ensures
        r == year_length(year as int),
{
    if is_leap_year(year) { 366 } else { 365 }
}

fn month_days(year: u64, month: u64) -> (r: u64)
    ensures
        r == month_length(year as int, month as int),
{
    if month == 2 {
        if is_leap_year(year) { 29 } else { 28 }
    } else if month == 4 || month == 6 || month == 9 || month == 11 {
        30
    } else {
        31
    }
}

/// Appends `YYYY-MM-DD` for the day holding `timestamp`.
pub fn push_date(out: &mut Vec<char>, timestamp: u64)
    ensures
        final(out)@ == old(out)@ + civil_date(timestamp as nat),
{
    let days = timestamp / SECONDS_PER_DAY;
    let mut year: u64 = 1970;
    let mut remaining: u64 = days;
    while remaining >= year_days(year)
        invariant
            1970 <= year <= 1970 + days,
            year_and_day(remaining as nat, year as nat) == year_and_day(days as nat, 1970),
            remaining + 365 * (year - 1970) <= days,
        decreases remaining,
    {
        remaining = remaining - year_days(year);
        year = year + 1;
    }
    assert(remaining <= days);
    let mut month: u64 = 1;
    while month < 12 && remaining >= month_days(year, month)
        invariant
            1 <= month <= 12,
            remaining <= days,
            month_and_day(year as nat, remaining as nat, month as nat)
                == month_and_day(year as nat, year_and_day(days as nat, 1970).1, 1),
        decreases 12 - month,
    {
        remaining = remaining - month_days(year, month);
        month = month + 1;
    }
    let day = remaining + 1;
    push_padded(out, year, 4);
    out.push('-');
    push_padded(out, month, 2);
    out.push('-');
    push_padded(out, day, 2);
    assert(final(out)@ =~= old(out)@ + civil_date(timestamp as nat));
}

/// Formats `timestamp` (Unix seconds, UTC) as `YYYY-MM-DD`.
pub fn format_date(timestamp: u64) -> (r: String)
    ensures
        r@ == civil_date(timestamp as nat),
{
    let mut out: Vec<char> = Vec::new();
    push_date(&mut out, timestamp);
    assert(out@ =~= civil_date(timestamp as nat));
    text_of(&out)
}

/// Formats `timestamp` (Unix seconds, UTC) as `YYYY-MM-DD-HH`.
pub fn format_hour(timestamp: u64) -> (r: String)
    ensures
        r@ == civil_hour(timestamp as nat),
{
    let mut out: Vec<char> = Vec::new();
    push_date(&mut out, timestamp);
    let hour = (timestamp % SECONDS_PER_DAY) / SECONDS_PER_HOUR;
    out.push('-');
    push_padded(&mut out, hour, 2);
    assert(out@ =~= civil_hour(timestamp as nat));
    text_of(&out)
}

} // verus!

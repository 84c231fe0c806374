//! Days and moments in the Gregorian calendar.

use crate::text::{padded, padded_text};
use vstd::prelude::*;

verus! {

/// Whether a year has a twenty-ninth of February.
pub open spec fn leap(year: int) -> bool {
    year % 4 == 0 && (year % 100 != 0 || year % 400 == 0)
}

/// How many days a year has.
pub open spec fn year_length(year: int) -> int {
    if leap(year) {
        366
    } else {
        365
    }
}

/// How many days a month has.
pub open spec fn month_length(year: int, month: int) -> int {
    if month == 2 {
        if leap(year) {
            29
        } else {
            28
        }
    } else if month == 4 || month == 6 || month == 9 || month == 11 {
        30
    } else {
        31
    }
}

/// How many days lie between the first of January 1970 and the first day of a
/// year.
pub open spec fn year_start(year: int) -> int
    decreases year - 1970,
{
    if year <= 1970 {
        0
    } else {
        year_start(year - 1) + year_length(year - 1)
    }
}

/// How many days of a year lie before the first of a month.
pub open spec fn month_start(year: int, month: int) -> int
    decreases month,
{
    if month <= 1 {
        0
    } else {
        month_start(year, month - 1) + month_length(year, month - 1)
    }
}

/// How many days lie between the first of January 1970 and a date.
pub open spec fn day_number(year: int, month: int, day: int) -> int {
    year_start(year) + month_start(year, month) + day - 1
}

/// Whether a year, a month and a day are a date.
pub open spec fn is_date(year: int, month: int, day: int) -> bool {
    1 <= month <= 12 && 1 <= day <= month_length(year, month)
}

proof fn the_years_in_closed_form(year: int)
    requires
        year >= 1970,
    ensures
        year_start(year) == 365 * (year - 1970) + ((year - 1) / 4 - (year - 1) / 100 + (year - 1)
            / 400) - 477,
    decreases year,
{
    if year > 1970 {
        the_years_in_closed_form(year - 1);
    }
}

/// Four centuries have as many days wherever they begin.
#[verifier::spinoff_prover]
pub proof fn the_calendar_repeats_every_four_centuries(year: int)
    requires
        year >= 1970,
    ensures
        year_start(year + 400) == year_start(year) + 146_097,
{
    the_years_in_closed_form(year);
    the_years_in_closed_form(year + 400);
    assert((year + 399) / 4 == (year - 1) / 4 + 100);
    assert((year + 399) / 100 == (year - 1) / 100 + 4);
    assert((year + 399) / 400 == (year - 1) / 400 + 1);
}

proof fn whole_cycles(cycles: int)
    requires
        cycles >= 0,
    ensures
        year_start(1970 + 400 * cycles) == 146_097 * cycles,
    decreases cycles,
{
    if cycles > 0 {
        whole_cycles(cycles - 1);
        the_calendar_repeats_every_four_centuries(1970 + 400 * (cycles - 1));
    }
}

proof fn the_months_fill_the_year(year: int)
    ensures
        month_start(year, 13) == year_length(year),
{
    reveal_with_fuel(month_start, 14);
}

proof fn later_years_start_later(from: int, to: int)
    requires
        from <= to,
    ensures
        year_start(from) <= year_start(to),
    decreases to - from,
{
    if from < to {
        later_years_start_later(from, to - 1);
    }
}

proof fn later_months_start_later(year: int, from: int, to: int)
    requires
        from <= to,
    ensures
        month_start(year, from) <= month_start(year, to),
    decreases to - from,
{
    if from < to {
        later_months_start_later(year, from, to - 1);
    }
}

/// A day has one date: two dates that are as many days from the epoch are the
/// same date.
pub proof fn a_day_has_one_date(y1: int, m1: int, d1: int, y2: int, m2: int, d2: int)
    requires
        y1 >= 1970,
        y2 >= 1970,
        is_date(y1, m1, d1),
        is_date(y2, m2, d2),
        day_number(y1, m1, d1) == day_number(y2, m2, d2),
    ensures
        y1 == y2 && m1 == m2 && d1 == d2,
{
    later_months_start_later(y1, m1 + 1, 13);
    later_months_start_later(y2, m2 + 1, 13);
    later_months_start_later(y1, 1, m1);
    later_months_start_later(y2, 1, m2);
    the_months_fill_the_year(y1);
    the_months_fill_the_year(y2);
    if y1 < y2 {
        later_years_start_later(y1 + 1, y2);
    } else if y2 < y1 {
        later_years_start_later(y2 + 1, y1);
    } else if m1 < m2 {
        later_months_start_later(y1, m1 + 1, m2);
    } else if m2 < m1 {
        later_months_start_later(y1, m2 + 1, m1);
    }
}

fn is_leap(year: u64) -> (r: bool)
    ensures
        r == leap(year as int),
{
    year % 4 == 0 && (year % 100 != 0 || year % 400 == 0)
}

fn days_in_month(year: u64, month: u64) -> (days: u64)
    ensures
        days == month_length(year as int, month as int),
{
    if month == 2 {
        if is_leap(year) {
            29
        } else {
            28
        }
    } else if month == 4 || month == 6 || month == 9 || month == 11 {
        30
    } else {
        31
    }
}

/// The date of a day, by how many days it lies after the first of January
/// 1970.
pub fn days_to_ymd(days: u64) -> (date: (u64, u64, u64))
    ensures
        date.0 >= 1970,
        is_date(date.0 as int, date.1 as int, date.2 as int),
        day_number(date.0 as int, date.1 as int, date.2 as int) == days,
{
    let cycles: u64 = days / 146_097;
    let mut left: u64 = days % 146_097;
    let mut year: u64 = 1970 + 400 * cycles;
    let ghost last: int = 1970 + 400 * (cycles + 1);
    proof {
        whole_cycles(cycles as int);
        whole_cycles(cycles + 1);
    }
    loop
        invariant
            1970 <= year,
            year < last,
            last == 1970 + 400 * (cycles + 1),
            cycles <= 200_000_000_000_000,
            year_start(last) == 146_097 * (cycles + 1),
            year_start(year as int) + left == days,
            days < 146_097 * (cycles + 1),
        ensures
            1970 <= year,
            year_start(year as int) + left == days,
            left < year_length(year as int),
        decreases last - year,
    {
        let length: u64 = if is_leap(year) {
            366
        } else {
            365
        };
        if left < length {
            break;
        }
        proof {
            assert(year_start(year + 1) == year_start(year as int) + year_length(year as int));
        }
        left = left - length;
        year = year + 1;
    }
    let mut month: u64 = 1;
    proof {
        the_months_fill_the_year(year as int);
    }
    loop
        invariant
            1 <= month <= 12,
            month_start(year as int, 13) == year_length(year as int),
            year_start(year as int) + month_start(year as int, month as int) + left == days,
            month_start(year as int, month as int) + left < year_length(year as int),
        ensures
            1 <= month <= 12,
            year_start(year as int) + month_start(year as int, month as int) + left == days,
            left < month_length(year as int, month as int),
        decreases 13 - month,
    {
        let length: u64 = days_in_month(year, month);
        if left < length {
            break;
        }
        left = left - length;
        month = month + 1;
    }
    (year, month, left + 1)
}

/// How many days after the epoch the last day of the year 9999 is.
pub const LAST_DAY: i32 = 2_932_896;

proof fn each_day_has_a_date(days: nat) -> (date: (int, int, int))
    ensures
        date.0 >= 1970,
        is_date(date.0, date.1, date.2),
        day_number(date.0, date.1, date.2) == days,
    decreases days,
{
    if days == 0 {
        (1970, 1, 1)
    } else {
        let (year, month, day) = each_day_has_a_date((days - 1) as nat);
        the_months_fill_the_year(year);
        if day < month_length(year, month) {
            (year, month, day + 1)
        } else if month < 12 {
            (year, month + 1, 1)
        } else {
            (year + 1, 1, 1)
        }
    }
}

/// Every day on or after the epoch has a date, and the days up to the last of
/// the year 9999 have theirs in the years to it.
pub proof fn a_day_has_its_date(days: nat)
    ensures
        ({
            let date = date_of(days);
            &&& date.0 >= 1970
            &&& is_date(date.0 as int, date.1 as int, date.2 as int)
            &&& day_number(date.0 as int, date.1 as int, date.2 as int) == days
            &&& date.0 <= 9999 <==> days <= LAST_DAY
        }),
{
    let found = each_day_has_a_date(days);
    let date = (found.0 as nat, found.1 as nat, found.2 as nat);
    assert(day_number(date.0 as int, date.1 as int, date.2 as int) == days);
    let (year, month, day) = date_of(days);
    the_years_in_closed_form(10_000);
    the_months_fill_the_year(year as int);
    later_months_start_later(year as int, 1, month as int);
    later_months_start_later(year as int, month as int + 1, 13);
    if year <= 9999 {
        later_years_start_later(year as int + 1, 10_000);
    } else {
        later_years_start_later(10_000, year as int);
    }
}

/// A moment of the day, by its second.
pub open spec fn clock(second: nat) -> Seq<char> {
    padded(second / 3600, 2).push(':') + padded(second / 60 % 60, 2).push(':') + padded(
        second % 60,
        2,
    )
}

/// The dash-joined form of a moment: `YYYYMMDD-HH:MM:SS`.
pub open spec fn dashed(year: nat, month: nat, day: nat, second: nat) -> Seq<char> {
    (padded(year, 4) + padded(month, 2) + padded(day, 2)).push('-') + clock(second)
}

/// The date a number of days after the epoch falls on.
pub open spec fn date_of(days: nat) -> (nat, nat, nat) {
    choose|date: (nat, nat, nat)|
        {
            &&& date.0 >= 1970
            &&& is_date(date.0 as int, date.1 as int, date.2 as int)
            &&& #[trigger] day_number(date.0 as int, date.1 as int, date.2 as int) == days
        }
}

/// The dash-joined form of the moment `unix` seconds after the epoch.
pub open spec fn ib_utc_dash(unix: nat) -> Seq<char> {
    let date = date_of(unix / 86_400);
    dashed(date.0, date.1, date.2, unix % 86_400)
}

/// A day's date is the one that lies as many days after the epoch.
pub proof fn the_date_of_a_day(year: nat, month: nat, day: nat)
    requires
        year >= 1970,
        is_date(year as int, month as int, day as int),
    ensures
        date_of(day_number(year as int, month as int, day as int) as nat) == (year, month, day),
{
    let days = day_number(year as int, month as int, day as int);
    later_years_start_later(1970, year as int);
    later_months_start_later(year as int, 1, month as int);
    let date = (year, month, day);
    assert(day_number(date.0 as int, date.1 as int, date.2 as int) == days as nat);
    let chosen = date_of(days as nat);
    a_day_has_one_date(
        chosen.0 as int,
        chosen.1 as int,
        chosen.2 as int,
        year as int,
        month as int,
        day as int,
    );
}

fn push_clock(text: &mut String, second: u64)
    requires
        second < 86_400,
    ensures
        final(text)@ == old(text)@ + clock(second as nat),
{
    text.append(padded_text(second / 3600, 2).as_str());
    text.push(':');
    text.append(padded_text(second / 60 % 60, 2).as_str());
    text.push(':');
    text.append(padded_text(second % 60, 2).as_str());
    proof {
        assert(text@ =~= old(text)@ + clock(second as nat));
    }
}

/// A moment in the dash-joined UTC form, by how many seconds it lies after
/// the epoch.
pub fn unix_to_ib_utc_dash(unix: u64) -> (text: String)
    ensures
        text@ == ib_utc_dash(unix as nat),
{
    let (year, month, day) = days_to_ymd(unix / 86_400);
    let mut text: String = padded_text(year, 4);
    text.append(padded_text(month, 2).as_str());
    text.append(padded_text(day, 2).as_str());
    text.push('-');
    push_clock(&mut text, unix % 86_400);
    proof {
        the_date_of_a_day(year as nat, month as nat, day as nat);
    }
    text
}

/// A moment to the nanosecond: `YYYY-MM-DDTHH:MM:SS.NNNNNNNNNZ`.
pub open spec fn nano_timestamp(unix: nat, nanos: nat) -> Seq<char> {
    let date = date_of(unix / 86_400);
    ((padded(date.0, 4).push('-') + padded(date.1, 2)).push('-') + padded(date.2, 2)).push('T')
        + clock(unix % 86_400).push('.') + padded(nanos, 9).push('Z')
}

/// A moment to the nanosecond, by how many seconds it lies after the epoch and
/// how many nanoseconds after that.
pub fn nano_timestamp_text(unix: u64, nanos: u32) -> (text: String)
    ensures
        text@ == nano_timestamp(unix as nat, nanos as nat),
{
    let (year, month, day) = days_to_ymd(unix / 86_400);
    let mut text: String = padded_text(year, 4);
    text.push('-');
    text.append(padded_text(month, 2).as_str());
    text.push('-');
    text.append(padded_text(day, 2).as_str());
    text.push('T');
    push_clock(&mut text, unix % 86_400);
    text.push('.');
    text.append(padded_text(nanos as u64, 9).as_str());
    text.push('Z');
    proof {
        the_date_of_a_day(year as nat, month as nat, day as nat);
        assert(text@ =~= nano_timestamp(unix as nat, nanos as nat));
    }
    text
}

} // verus!

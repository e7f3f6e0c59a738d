//! Dates and times: the proleptic Gregorian calendar, counted in days from
//! 1970-01-01, and the text of dates and timestamps.

use crate::bytes::{lemma_span, signed, unwrap_i64};
use crate::text::{padded, push_padded, text_chars, text_of_chars};
use vstd::arithmetic::div_mod::{lemma_fundamental_div_mod, lemma_fundamental_div_mod_converse};
use vstd::prelude::*;
use vstd::string::*;

verus! {

/// Whether a year has a 29th of February.
pub open spec fn is_leap(year: int) -> bool {
    year % 4 == 0 && (year % 100 != 0 || year % 400 == 0)
}

/// The number of days of a month.
pub open spec fn month_length(year: int, month: int) -> int {
    if month == 2 {
        if is_leap(year) {
            29
        } else {
            28
        }
    } else if month == 4 || month == 6 || month == 9 || month == 11 {
        30
    } else {
        31
    }
}

/// The number of days of a common year before a month begins.
pub open spec fn days_before_month(month: int) -> int {
    if month <= 1 {
        0
    } else if month == 2 {
        31
    } else if month == 3 {
        59
    } else if month == 4 {
        90
    } else if month == 5 {
        120
    } else if month == 6 {
        151
    } else if month == 7 {
        181
    } else if month == 8 {
        212
    } else if month == 9 {
        243
    } else if month == 10 {
        273
    } else if month == 11 {
        304
    } else {
        334
    }
}

/// The number of days from 0001-01-01 to the first day of a year.
pub open spec fn days_before_year(year: int) -> int {
    365 * (year - 1) + (year - 1) / 4 - (year - 1) / 100 + (year - 1) / 400
}

/// The number of days from 1970-01-01 to a day of the calendar.
pub open spec fn day_number(year: int, month: int, day: int) -> int {
    days_before_year(year) + days_before_month(month) + (if month > 2 && is_leap(year) {
        1int
    } else {
        0
    }) + (day - 1) - 719_162
}

/// Whether a year, a month and a day name a day of the calendar.
pub open spec fn is_date(year: int, month: int, day: int) -> bool {
    1 <= month <= 12 && 1 <= day <= month_length(year, month)
}

/// Rounds a quotient down.
pub fn floor_div(a: i64, b: i64) -> (q: i64)
    requires
        b > 0,
    ensures
        q == a as int / b as int,
{
    if a >= 0 {
        a / b
    } else {
        let m: i64 = -(a + 1);
        let q: i64 = m / b;
        proof {
            let (x, y) = (m as int, b as int);
            assert((-x - 1) / y == -(x / y) - 1) by (nonlinear_arith)
                requires
                    x >= 0,
                    y > 0,
            ;
            assert(q <= m) by (nonlinear_arith)
                requires
                    q as int == m as int / b as int,
                    m >= 0,
                    b > 0,
            ;
        }
        -q - 1
    }
}

/// The distance from the number rounded down to a multiple.
pub fn floor_rem(a: i64, b: i64) -> (r: i64)
    requires
        b > 0,
    ensures
        r == a as int % b as int,
{
    if a >= 0 {
        a % b
    } else {
        let m: i64 = -(a + 1);
        proof {
            let (x, y) = (m as int, b as int);
            lemma_fundamental_div_mod(x, y);
            assert(-x - 1 == (-(x / y) - 1) * y + (y - 1 - x % y)) by (nonlinear_arith)
                requires
                    x == y * (x / y) + x % y,
            ;
            lemma_fundamental_div_mod_converse(-x - 1, y, -(x / y) - 1, y - 1 - x % y);
        }
        b - 1 - m % b
    }
}

// The days of the four hundred years that repeat, cut into years that start on
// the first of March.
proof fn lemma_year_of_era(doe: int, yoe: int)
    requires
        0 <= doe <= 146_096,
        yoe == (doe - doe / 1_460 + doe / 36_524 - doe / 146_096) / 365,
    ensures
        0 <= yoe <= 399,
        0 <= doe - (365 * yoe + yoe / 4 - yoe / 100) <= 365,
        doe - (365 * yoe + yoe / 4 - yoe / 100) == 365 ==> is_leap(yoe + 1),
{
    let c = if doe == 146_096 {
        3
    } else {
        doe / 36_524
    };
    let r = doe - 36_524 * c;
    let q = r / 1_461;
    let s = r - 1_461 * q;
    let t = if s == 1_460 {
        3
    } else {
        s / 365
    };
    let y = 100 * c + 4 * q + t;
    let e = (24 * c + q + s) / 1_460;
    assert(0 <= c <= 3 && 0 <= r <= 36_524 && 0 <= q <= 24 && 0 <= s <= 1_460 && 0 <= t <= 3);
    assert(r == 36_524 ==> c == 3);
    assert(doe / 36_524 - doe / 146_096 == c);
    assert(doe == 1_460 * (25 * c + q) + (24 * c + q + s));
    assert(doe / 1_460 == 25 * c + q + e);
    assert(0 <= e <= 1);
    assert(e == 1 ==> s >= 1_364);
    let n = doe - doe / 1_460 + doe / 36_524 - doe / 146_096;
    assert(n == 365 * y + (s - 365 * t - e));
    assert(0 <= s - 365 * t - e < 365) by {
        if s < 1_460 {
            assert(s - 365 * t < 365);
            if e == 1 {
                assert(t == 3);
            }
        }
    }
    assert(yoe == y);
    assert(y / 100 == c);
    assert(y / 4 == 25 * c + q);
    assert(doe - (365 * y + y / 4 - y / 100) == s - 365 * t);
    if s - 365 * t == 365 {
        assert(s == 1_460 && t == 3);
        if q == 24 {
            assert(r == 36_524);
        }
    }
}

// The leap days from 0001-01-01 on, before the year `y` is out.
spec fn leap_days(y: int) -> int {
    y / 4 - y / 100 + y / 400
}

proof fn lemma_leap_days(y: int)
    ensures
        leap_days(y) == leap_days(y - 1) + (if is_leap(y) {
            1int
        } else {
            0
        }),
{
    assert(y / 4 == (y - 1) / 4 + (if y % 4 == 0 {
        1int
    } else {
        0
    }));
    assert(y / 100 == (y - 1) / 100 + (if y % 100 == 0 {
        1int
    } else {
        0
    }));
    assert(y / 400 == (y - 1) / 400 + (if y % 400 == 0 {
        1int
    } else {
        0
    }));
    assert(y % 400 == 0 ==> y % 100 == 0);
    assert(y % 100 == 0 ==> y % 4 == 0);
}

proof fn lemma_era(era: int, yoe: int)
    requires
        0 <= yoe <= 399,
    ensures
        leap_days(400 * era + yoe) == 97 * era + yoe / 4 - yoe / 100,
        is_leap(400 * era + yoe + 1) == is_leap(yoe + 1),
{
    assert((400 * era + yoe) / 4 == 100 * era + yoe / 4);
    assert((400 * era + yoe) / 100 == 4 * era + yoe / 100);
    assert((400 * era + yoe) / 400 == era);
    assert((400 * era + yoe + 1) % 4 == (yoe + 1) % 4);
    assert((400 * era + yoe + 1) % 100 == (yoe + 1) % 100);
    assert((400 * era + yoe + 1) % 400 == (yoe + 1) % 400);
}

// The months of a year that starts on the first of March, by their number
// from March.
proof fn lemma_month(mp: int)
    requires
        0 <= mp <= 11,
    ensures
        mp < 10 ==> (153 * mp + 2) / 5 == days_before_month(mp + 3) - 59,
        mp >= 10 ==> (153 * mp + 2) / 5 == days_before_month(mp - 9) + 306,
{
    if mp == 0 {
    } else if mp == 1 {
    } else if mp == 2 {
    } else if mp == 3 {
    } else if mp == 4 {
    } else if mp == 5 {
    } else if mp == 6 {
    } else if mp == 7 {
    } else if mp == 8 {
    } else if mp == 9 {
    } else if mp == 10 {
    } else {
    }
}

// The number of the day `d` of the month `mp` from March, in the year of the
// era `era` that starts in March `yoe` years into it.
proof fn lemma_day_number(era: int, yoe: int, mp: int, d: int)
    requires
        0 <= yoe <= 399,
        0 <= mp <= 11,
    ensures
        ({
            let y = 400 * era + yoe;
            let m = if mp < 10 {
                mp + 3
            } else {
                mp - 9
            };
            day_number(if m <= 2 {
                y + 1
            } else {
                y
            }, m, d) == 146_097 * era + 365 * yoe + yoe / 4 - yoe / 100 + (153 * mp + 2) / 5 + d - 1
                - 719_468
        }),
{
    let y = 400 * era + yoe;
    lemma_month(mp);
    lemma_era(era, yoe);
    lemma_leap_days(y);
    assert(days_before_year(y) == 365 * (y - 1) + leap_days(y - 1));
    assert(days_before_year(y + 1) == 365 * y + leap_days(y));
}

// The day of a year that starts in March lies in the month that its number
// gives.
proof fn lemma_day_of_month(doy: int, mp: int, d: int, leap: bool)
    requires
        0 <= doy <= 365,
        doy == 365 ==> leap,
        mp == (5 * doy + 2) / 153,
        d == doy - (153 * mp + 2) / 5 + 1,
    ensures
        0 <= mp <= 11,
        1 <= d,
        mp == 11 ==> d <= if leap {
            29int
        } else {
            28
        },
        mp == 1 || mp == 3 || mp == 6 || mp == 8 ==> d <= 30,
        d <= 31,
{
    if mp == 0 {
    } else if mp == 1 {
    } else if mp == 2 {
    } else if mp == 3 {
    } else if mp == 4 {
    } else if mp == 5 {
    } else if mp == 6 {
    } else if mp == 7 {
    } else if mp == 8 {
    } else if mp == 9 {
    } else if mp == 10 {
    } else {
    }
}

/// The year, the month and the day of a day counted from 1970-01-01.
pub fn civil_from_days(days: i64) -> (date: (i64, i64, i64))
    requires
        days <= i64::MAX - 719_468,
    ensures
        is_date(date.0 as int, date.1 as int, date.2 as int),
        day_number(date.0 as int, date.1 as int, date.2 as int) == days,
{
    let z: i64 = days + 719_468;
    let era: i64 = floor_div(z, 146_097);
    let doe: i64 = z - era * 146_097;
    let yoe: i64 = (doe - doe / 1_460 + doe / 36_524 - doe / 146_096) / 365;
    proof {
        lemma_year_of_era(doe as int, yoe as int);
    }
    let y: i64 = yoe + era * 400;
    let doy: i64 = doe - (365 * yoe + yoe / 4 - yoe / 100);
    let mp: i64 = (5 * doy + 2) / 153;
    proof {
        let ghost_d = doy - (153 * mp + 2) / 5 + 1;
        lemma_day_of_month(doy as int, mp as int, ghost_d, is_leap(yoe + 1));
        lemma_day_number(era as int, yoe as int, mp as int, ghost_d);
        lemma_era(era as int, yoe as int);
    }
    let d: i64 = doy - (153 * mp + 2) / 5 + 1;
    let m: i64 = if mp < 10 {
        mp + 3
    } else {
        mp - 9
    };
    let year: i64 = if m <= 2 {
        y + 1
    } else {
        y
    };
    (year, m, d)
}

/// The day count that a year, a month and a day are given: the era is found by
/// rounding down, after a year before year 0 was moved 399 years back.
pub open spec fn civil_days(year: int, month: int, day: int) -> int {
    let y = if month <= 2 {
        year - 1
    } else {
        year
    };
    let era = (if y >= 0 {
        y
    } else {
        y - 399
    }) / 400;
    let yoe = y - era * 400;
    let mp = if month > 2 {
        month - 3
    } else {
        month + 9
    };
    era * 146_097 + (yoe * 365 + yoe / 4 - yoe / 100 + ((153 * mp + 2) / 5 + day - 1)) - 719_468
}

/// The day count of a date, the inverse of [`civil_from_days`] from the year 0
/// on. A day beyond the end of its month counts on into the next one.
pub fn days_from_civil(year: i64, month: i64, day: i64) -> (days: Option<i64>)
    requires
        1 <= month <= 12,
        1 <= day <= 31,
        -25_252_734_927_764_000 <= year <= 25_252_734_927_766_000 || year == i64::MIN && month
            <= 2,
    ensures
        days == (if year == i64::MIN && month <= 2 {
            None::<i64>
        } else {
            Some(civil_days(year as int, month as int, day as int) as i64)
        }),
        -25_252_734_927_764_000 <= year ==> i64::MIN <= civil_days(
            year as int,
            month as int,
            day as int,
        ) <= i64::MAX,
{
    let shift: i64 = if month <= 2 {
        1
    } else {
        0
    };
    let y: i64 = match year.checked_sub(shift) {
        Some(y) => y,
        None => {
            return None;
        },
    };
    let era: i64 = floor_div(
        if y >= 0 {
            y
        } else {
            y - 399
        },
        400,
    );
    let yoe: i64 = y - era * 400;
    assert(0 <= yoe <= 798);
    let mp: i64 = if month > 2 {
        month - 3
    } else {
        month + 9
    };
    let doy: i64 = (153 * mp + 2) / 5 + day - 1;
    let doe: i64 = yoe * 365 + yoe / 4 - yoe / 100 + doy;
    Some(era * 146_097 + doe - 719_468)
}

/// The year that a month belongs to where years start in March.
pub open spec fn march_year(year: int, month: int) -> int {
    if month <= 2 {
        year - 1
    } else {
        year
    }
}

/// The day count of a date is its day number from the year 0 on, and before it
/// in the last year of each era, where years start in March.
pub proof fn civil_days_is_day_number(year: int, month: int, day: int)
    requires
        1 <= month <= 12,
        march_year(year, month) >= 0 || (march_year(year, month) + 1) % 400 == 0,
    ensures
        civil_days(year, month, day) == day_number(year, month, day),
{
    let y = march_year(year, month);
    let era = (if y >= 0 {
        y
    } else {
        y - 399
    }) / 400;
    let yoe = y - era * 400;
    let mp = if month > 2 {
        month - 3
    } else {
        month + 9
    };
    lemma_day_number(era, yoe, mp, day);
}

/// The day count of the date of a day is that day, from the year 0 on.
pub proof fn civil_date_counts_back(days: int, year: int, month: int, day: int)
    requires
        is_date(year, month, day),
        day_number(year, month, day) == days,
        days >= -719_528,
    ensures
        civil_days(year, month, day) == days,
{
    if year < 0 {
        lemma_day_number_monotone(year, month, day);
    } else {
        civil_days_is_day_number(year, month, day);
    }
}

// No date before the year 0 has a day number from there on.
proof fn lemma_day_number_monotone(year: int, month: int, day: int)
    requires
        is_date(year, month, day),
        year < 0,
    ensures
        day_number(year, month, day) < -719_528,
{
    lemma_day_in_year(year, month, day);
    lemma_years_before_zero(year);
}

// The years before the year 0 end before it begins.
proof fn lemma_years_before_zero(year: int)
    requires
        year < 0,
    ensures
        days_before_year(year + 1) <= days_before_year(0),
    decreases -year,
{
    if year < -1 {
        lemma_years_before_zero(year + 1);
        let y = year + 1;
        lemma_leap_days(y);
        assert(days_before_year(y + 1) == 365 * y + leap_days(y));
        assert(days_before_year(y) == 365 * (y - 1) + leap_days(y - 1));
    }
}

// ---------------------------------------------------------------------------
// Text
// ---------------------------------------------------------------------------

/// A date as four digits of the year, two of the month and two of the day.
pub open spec fn date_text(year: int, month: int, day: int) -> Seq<char> {
    padded(year, 4).push('-') + padded(month, 2).push('-') + padded(day, 2)
}

/// The one date of a day counted from 1970-01-01: year, month and day.
pub open spec fn civil(days: int) -> (int, int, int) {
    choose|date: (int, int, int)|
        is_date(date.0, date.1, date.2) && #[trigger] day_number(date.0, date.1, date.2) == days
}

proof fn lemma_civil(year: int, month: int, day: int)
    requires
        is_date(year, month, day),
    ensures
        civil(day_number(year, month, day)) == (year, month, day),
{
    let days = day_number(year, month, day);
    let date = (year, month, day);
    assert(is_date(date.0, date.1, date.2) && day_number(date.0, date.1, date.2) == days);
    let c = civil(days);
    assert(is_date(c.0, c.1, c.2) && day_number(c.0, c.1, c.2) == days);
    date_is_unique(c.0, c.1, c.2, year, month, day);
}

/// Every day has a date.
pub proof fn days_have_dates(days: int)
    ensures
        is_date(civil(days).0, civil(days).1, civil(days).2),
        day_number(civil(days).0, civil(days).1, civil(days).2) == days,
{
    let z = days + 719_468;
    let era = z / 146_097;
    let doe = z % 146_097;
    let yoe = (doe - doe / 1_460 + doe / 36_524 - doe / 146_096) / 365;
    lemma_year_of_era(doe, yoe);
    let y = yoe + era * 400;
    let doy = doe - (365 * yoe + yoe / 4 - yoe / 100);
    let mp = (5 * doy + 2) / 153;
    let d = doy - (153 * mp + 2) / 5 + 1;
    lemma_day_of_month(doy, mp, d, is_leap(yoe + 1));
    lemma_day_number(era, yoe, mp, d);
    lemma_era(era, yoe);
    let m = if mp < 10 {
        mp + 3
    } else {
        mp - 9
    };
    let year = if m <= 2 {
        y + 1
    } else {
        y
    };
    let date = (year, m, d);
    assert(is_date(date.0, date.1, date.2) && day_number(date.0, date.1, date.2) == days);
}

/// The days from 0000-01-01 on that fit in 32 bits have dates in years that are
/// not negative.
pub proof fn later_days_have_later_years(days: int)
    requires
        -719_528 <= days <= i32::MAX,
    ensures
        0 <= civil(days).0 <= 10_000_000,
{
    days_have_dates(days);
    let date = civil(days);
    if date.0 < 0 {
        lemma_day_number_monotone(date.0, date.1, date.2);
    }
    if date.0 > 10_000_000 {
        lemma_day_in_year(date.0, date.1, date.2);
        assert(days_before_year(date.0) == 365 * (date.0 - 1) + leap_days(date.0 - 1));
        assert(leap_days(date.0 - 1) >= 0);
    }
}

/// The text of the date of a day counted from 1970-01-01.
pub open spec fn date_chars(days: int) -> Seq<char> {
    let date = civil(days);
    date_text(date.0, date.1, date.2)
}

fn push_date(text: &mut String, year: i64, month: i64, day: i64)
    ensures
        final(text)@ == old(text)@ + date_text(year as int, month as int, day as int),
{
    push_padded(text, year, 4);
    text.push('-');
    push_padded(text, month, 2);
    text.push('-');
    push_padded(text, day, 2);
    assert(text@ == old(text)@ + date_text(year as int, month as int, day as int));
}

/// The text of a date counted in days from 1970-01-01.
pub fn format_date(days_since_unix_epoch: i32) -> (text: String)
    ensures
        text@ == date_chars(days_since_unix_epoch as int),
{
    let date = civil_from_days(days_since_unix_epoch as i64);
    let mut text = String::new();
    push_date(&mut text, date.0, date.1, date.2);
    proof {
        lemma_civil(date.0 as int, date.1 as int, date.2 as int);
    }
    assert(text@ == date_text(date.0 as int, date.1 as int, date.2 as int));
    text
}

/// A text without the zeros at its end.
pub open spec fn without_trailing_zeros(s: Seq<char>) -> Seq<char>
    decreases s.len(),
{
    if s.len() > 0 && s.last() == '0' {
        without_trailing_zeros(s.drop_last())
    } else {
        s
    }
}

/// The text of a time of day, counted in microseconds from midnight: hours,
/// minutes, seconds and, where it is not zero, the fraction of the second.
pub open spec fn time_text(micros: int) -> Seq<char> {
    let seconds = micros / 1_000_000;
    let whole = padded(seconds / 3_600, 2).push(':') + padded(seconds % 3_600 / 60, 2).push(':')
        + padded(seconds % 60, 2);
    if micros % 1_000_000 == 0 {
        whole
    } else {
        whole.push('.') + without_trailing_zeros(padded(micros % 1_000_000, 6))
    }
}

/// The text of the moment that many microseconds after 1970-01-01 00:00 UTC.
pub open spec fn timestamp_chars(micros: int) -> Seq<char> {
    date_chars(micros / 86_400_000_000).push(' ') + time_text(micros % 86_400_000_000)
}

fn fraction_text(fraction: i64) -> (text: String)
    ensures
        text@ == without_trailing_zeros(padded(fraction as int, 6)),
{
    let mut all = String::new();
    push_padded(&mut all, fraction, 6);
    assert(all@ == padded(fraction as int, 6));
    let mut chars = text_chars(all.as_str());
    while chars.len() > 0 && chars[chars.len() - 1] == '0'
        invariant
            without_trailing_zeros(chars@) == without_trailing_zeros(padded(fraction as int, 6)),
        decreases chars@.len(),
    {
        assert(chars@.drop_last() == chars@.subrange(0, chars@.len() - 1));
        let _ = chars.pop();
    }
    text_of_chars(chars.as_slice())
}

fn push_clock(text: &mut String, seconds: i64)
    requires
        0 <= seconds < 86_400,
    ensures
        final(text)@ == old(text)@ + (padded(seconds / 3_600, 2).push(':') + padded(
            seconds % 3_600 / 60,
            2,
        ).push(':') + padded((seconds % 60) as int, 2)),
{
    push_padded(text, seconds / 3_600, 2);
    text.push(':');
    push_padded(text, (seconds % 3_600) / 60, 2);
    text.push(':');
    push_padded(text, seconds % 60, 2);
    assert(text@ == old(text)@ + (padded(seconds / 3_600, 2).push(':') + padded(
        seconds % 3_600 / 60,
        2,
    ).push(':') + padded((seconds % 60) as int, 2)));
}

fn push_time(text: &mut String, micros: i64)
    requires
        0 <= micros < 86_400_000_000,
    ensures
        final(text)@ == old(text)@ + time_text(micros as int),
{
    push_clock(text, micros / 1_000_000);
    let fraction: i64 = micros % 1_000_000;
    if fraction != 0 {
        text.push('.');
        text.append(fraction_text(fraction).as_str());
    }
    assert(text@ == old(text)@ + time_text(micros as int));
}

/// The text of a moment counted in microseconds from 1970-01-01 00:00 UTC.
pub fn format_timestamp(micros: i64) -> (text: String)
    ensures
        text@ == timestamp_chars(micros as int),
{
    let days: i64 = floor_div(micros, 86_400_000_000);
    let rest: i64 = floor_rem(micros, 86_400_000_000);
    let date = civil_from_days(days);
    let mut text = String::new();
    push_date(&mut text, date.0, date.1, date.2);
    let ghost day_text = text@;
    proof {
        lemma_civil(date.0 as int, date.1 as int, date.2 as int);
    }
    assert(day_text == date_chars(days as int));
    text.push(' ');
    push_time(&mut text, rest);
    assert(text@ == day_text.push(' ') + time_text(rest as int));
    text
}

/// A day has one date: two dates with the same day number are the same.
pub proof fn date_is_unique(y1: int, m1: int, d1: int, y2: int, m2: int, d2: int)
    requires
        is_date(y1, m1, d1),
        is_date(y2, m2, d2),
        day_number(y1, m1, d1) == day_number(y2, m2, d2),
    ensures
        y1 == y2,
        m1 == m2,
        d1 == d2,
{
    lemma_day_in_year(y1, m1, d1);
    lemma_day_in_year(y2, m2, d2);
    if y1 < y2 {
        lemma_year_starts(y1 + 1, y2);
    } else if y2 < y1 {
        lemma_year_starts(y2 + 1, y1);
    }
}

proof fn lemma_day_in_year(year: int, month: int, day: int)
    requires
        is_date(year, month, day),
    ensures
        days_before_year(year) <= day_number(year, month, day) + 719_162 < days_before_year(
            year + 1,
        ),
{
    lemma_leap_days(year);
    assert(days_before_year(year) == 365 * (year - 1) + leap_days(year - 1));
    assert(days_before_year(year + 1) == 365 * year + leap_days(year));
}

proof fn lemma_year_starts(a: int, b: int)
    requires
        a <= b,
    ensures
        days_before_year(a) <= days_before_year(b),
    decreases b - a,
{
    if a < b {
        lemma_leap_days(b - 1);
        assert(days_before_year(b) == 365 * (b - 1) + leap_days(b - 1));
        assert(days_before_year(b - 1) == 365 * (b - 2) + leap_days(b - 2));
        lemma_year_starts(a, b - 1);
    }
}

// ---------------------------------------------------------------------------
// The clock
// ---------------------------------------------------------------------------

/// `std::time::SystemTime::now` and the microseconds since 1970-01-01 by it,
/// or nothing where the clock stands before that. Nothing is promised of them.
#[verifier::external_body]
fn clock_micros() -> Option<u128> {
    std::time::SystemTime::now().duration_since(std::time::UNIX_EPOCH).ok().map(|d| d.as_micros())
}

/// The moment that a clock reading stands for: zero where there is none, and
/// the low 64 bits as a signed number.
pub fn clock_value(micros: Option<u128>) -> (value: i64)
    ensures
        micros is None ==> value == 0,
        micros matches Some(m) ==> value == signed((m % 0x1_0000_0000_0000_0000) as nat, 8),
        micros matches Some(m) ==> (m <= i64::MAX ==> value == m),
{
    proof {
        lemma_span();
    }
    match micros {
        Some(m) => {
            let low: u64 = (m % 0x1_0000_0000_0000_0000) as u64;
            unwrap_i64(low)
        },
        None => 0,
    }
}

/// The moment that the clock shows, in microseconds from 1970-01-01.
pub fn unix_now_us() -> i64 {
    clock_value(clock_micros())
}

/// The days from 1970-01-01 to 2000-01-01.
pub fn unix_days_to_pg_epoch_days() -> (days: i32)
    ensures
        days == 10_957,
        days == day_number(2000, 1, 1),
{
    10_957
}

} // verus!

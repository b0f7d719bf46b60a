//! Calendar dates as plain values: validity, the proleptic-Gregorian day
//! number used to state day differences exactly, and the primary date parser.

use vstd::prelude::*;
use crate::digits::{digits_val, is_digit, pow10};

verus! {

/// A calendar date held as plain values.
#[derive(Clone, Copy, PartialEq, Eq, Structural, Debug)]
pub struct Date {
    pub year: i32,
    pub month: u32,
    pub day: u32,
}

/// True on leap years of the proleptic Gregorian calendar.
pub open spec fn is_leap_year(y: int) -> bool {
    (y % 4 == 0 && y % 100 != 0) || y % 400 == 0
}

/// Number of days in the given month of the given year.
pub open spec fn days_in_month(y: int, m: int) -> int {
    if m == 2 {
        if is_leap_year(y) {
            29
        } else {
            28
        }
    } else if m == 4 || m == 6 || m == 9 || m == 11 {
        30
    } else {
        31
    }
}

/// A real calendar date: month in range and day within the month's length.
pub open spec fn valid_ymd(y: int, m: int, d: int) -> bool {
    1 <= m <= 12 && 1 <= d <= days_in_month(y, m)
}

/// A real calendar date.
pub open spec fn date_valid(d: Date) -> bool {
    valid_ymd(d.year as int, d.month as int, d.day as int)
}

/// The years the calendar library can represent.
pub open spec fn year_in_range(y: int) -> bool {
    -262143 <= y <= 262142
}

/// Day number of a date in the proleptic Gregorian calendar, with day 0 at
/// 1970-01-01, so that differences of day numbers are exact day counts.
/// This is the standard days-from-civil formula: years are counted from
/// March so that the leap day is the last day of the shifted year, and
/// `(153 * mp + 2) / 5` lays the shifted months out in 31/30-day runs.
#[verifier::opaque]
pub open spec fn day_number(y: int, m: int, d: int) -> int {
    let yp = if m <= 2 {
        y - 1
    } else {
        y
    };
    let z = yp + 400000;
    let era = z / 400;
    let yoe = z % 400;
    let mp = if m <= 2 {
        m + 9
    } else {
        m - 3
    };
    let doy = (153 * mp + 2) / 5 + d - 1;
    let doe = yoe * 365 + yoe / 4 - yoe / 100 + doy;
    (era - 1000) * 146097 + doe - 719468
}

/// Computes the day number of a real in-range date.
pub fn day_number_of(date: Date) -> (n: i64)
    requires
        date_valid(date),
        year_in_range(date.year as int),
    ensures
        n == day_number(date.year as int, date.month as int, date.day as int),
        -200000000 <= n <= 200000000,
{
    proof {
        reveal(day_number);
    }
    let y = date.year as i64;
    let m = date.month as i64;
    let d = date.day as i64;
    let yp: i64 = if m <= 2 {
        y - 1
    } else {
        y
    };
    let z: u64 = (yp + 400000) as u64;
    let era: u64 = z / 400;
    let yoe: u64 = z % 400;
    let mp: u64 = if m <= 2 {
        (m + 9) as u64
    } else {
        (m - 3) as u64
    };
    let doy: u64 = (153 * mp + 2) / 5 + d as u64 - 1;
    let doe: u64 = yoe * 365 + yoe / 4 - yoe / 100 + doy;
    (era as i64 - 1000) * 146097 + doe as i64 - 719468
}

/// The date after a real date: the next day, rolling over month and year
/// ends.
pub open spec fn next_date(y: int, m: int, d: int) -> (int, int, int) {
    if d < days_in_month(y, m) {
        (y, m, d + 1)
    } else if m < 12 {
        (y, m + 1, 1)
    } else {
        (y + 1, 1, 1)
    }
}

/// The epoch anchors the day numbers: 1970-01-01 is day zero.
pub proof fn lemma_day_number_epoch()
    ensures
        day_number(1970, 1, 1) == 0,
{
    reveal(day_number);
}

/// Day numbers count the calendar one day at a time: the date after a real
/// date has the next day number. Together with the epoch anchor this pins
/// `day_number` to true calendar day counting, leap years included.
pub proof fn lemma_day_number_next(y: int, m: int, d: int)
    requires
        valid_ymd(y, m, d),
    ensures
        ({
            let (y2, m2, d2) = next_date(y, m, d);
            day_number(y2, m2, d2) == day_number(y, m, d) + 1
        }),
{
    reveal(day_number);
    if d < days_in_month(y, m) {
        // same month: only the day of year grows
    } else if m == 2 {
        lemma_day_number_next_after_february(y, d);
    } else if m < 12 {
        // a month end away from February: the shifted year is unchanged
        // and each month's day-of-year offset is a known constant
        if m == 1 {
            assert(day_number(y, 2, 1) == day_number(y, 1, d) + 1);
        } else if m == 3 {
            assert(day_number(y, 4, 1) == day_number(y, 3, d) + 1);
        } else if m == 4 {
            assert(day_number(y, 5, 1) == day_number(y, 4, d) + 1);
        } else if m == 5 {
            assert(day_number(y, 6, 1) == day_number(y, 5, d) + 1);
        } else if m == 6 {
            assert(day_number(y, 7, 1) == day_number(y, 6, d) + 1);
        } else if m == 7 {
            assert(day_number(y, 8, 1) == day_number(y, 7, d) + 1);
        } else if m == 8 {
            assert(day_number(y, 9, 1) == day_number(y, 8, d) + 1);
        } else if m == 9 {
            assert(day_number(y, 10, 1) == day_number(y, 9, d) + 1);
        } else if m == 10 {
            assert(day_number(y, 11, 1) == day_number(y, 10, d) + 1);
        } else {
            assert(day_number(y, 12, 1) == day_number(y, 11, d) + 1);
        }
    } else {
        // a year end: both dates shift their year to the same March-based
        // year, so only the day-of-year offsets differ
        assert(day_number(y + 1, 1, 1) == day_number(y, 12, 31) + 1);
    }
}

/// The step from the last day of February to March the first: the
/// March-based year advances by one, and the day count gained over 365
/// matches the leap rule.
proof fn lemma_day_number_next_after_february(y: int, d: int)
    requires
        valid_ymd(y, 2, d),
        d == days_in_month(y, 2),
    ensures
        day_number(y, 3, 1) == day_number(y, 2, d) + 1,
{
    reveal(day_number);
    let z1 = y - 1 + 400000;
    let z2 = y + 400000;
    let era1 = z1 / 400;
    let yoe1 = z1 % 400;
    vstd::arithmetic::div_mod::lemma_fundamental_div_mod(z1, 400);
    vstd::arithmetic::div_mod::lemma_mod_bound(z1, 400);
    vstd::arithmetic::div_mod::lemma_mod_multiples_vanish(1000, y, 400);
    assert(z2 % 400 == y % 400);
    vstd::arithmetic::div_mod::lemma_mod_mod(z2, 4, 100);
    vstd::arithmetic::div_mod::lemma_mod_multiples_vanish(100000, y, 4);
    assert((z2 % 400) % 4 == y % 4);
    vstd::arithmetic::div_mod::lemma_mod_mod(z2, 100, 4);
    vstd::arithmetic::div_mod::lemma_mod_multiples_vanish(4000, y, 100);
    assert((z2 % 400) % 100 == y % 100);
    if yoe1 == 399 {
        // the whole 400-year era rolls over; such a year is a leap year
        vstd::arithmetic::div_mod::lemma_fundamental_div_mod_converse(z2, 400, era1 + 1, 0);
        assert(y % 400 == 0);
        assert(is_leap_year(y));
    } else {
        vstd::arithmetic::div_mod::lemma_fundamental_div_mod_converse(z2, 400, era1, yoe1 + 1);
        let yoe2 = yoe1 + 1;
        let q4 = yoe2 / 4;
        let r4 = yoe2 % 4;
        vstd::arithmetic::div_mod::lemma_fundamental_div_mod(yoe2, 4);
        vstd::arithmetic::div_mod::lemma_mod_bound(yoe2, 4);
        if r4 == 0 {
            vstd::arithmetic::div_mod::lemma_fundamental_div_mod_converse(yoe1, 4, q4 - 1, 3);
        } else {
            vstd::arithmetic::div_mod::lemma_fundamental_div_mod_converse(yoe1, 4, q4, r4 - 1);
        }
        let q100 = yoe2 / 100;
        let r100 = yoe2 % 100;
        vstd::arithmetic::div_mod::lemma_fundamental_div_mod(yoe2, 100);
        vstd::arithmetic::div_mod::lemma_mod_bound(yoe2, 100);
        if r100 == 0 {
            vstd::arithmetic::div_mod::lemma_fundamental_div_mod_converse(yoe1, 100, q100 - 1, 99);
        } else {
            vstd::arithmetic::div_mod::lemma_fundamental_div_mod_converse(yoe1, 100, q100, r100 - 1);
        }
        // the year does not end an era, so it is a leap year exactly when
        // divisible by four but not by one hundred
        assert(y % 400 != 0);
    }
}

/// The strict zero-padded form `"YYYY-MM-DD"`.
pub open spec fn strict_ymd(s: Seq<char>) -> bool {
    &&& s.len() == 10
    &&& is_digit(s[0]) && is_digit(s[1]) && is_digit(s[2]) && is_digit(s[3])
    &&& s[4] == '-'
    &&& is_digit(s[5]) && is_digit(s[6])
    &&& s[7] == '-'
    &&& is_digit(s[8]) && is_digit(s[9])
}

/// The year field of a strict `"YYYY-MM-DD"` string.
pub open spec fn strict_year(s: Seq<char>) -> int {
    digits_val(s.subrange(0, 4))
}

/// The month field of a strict `"YYYY-MM-DD"` string.
pub open spec fn strict_month(s: Seq<char>) -> int {
    digits_val(s.subrange(5, 7))
}

/// The day field of a strict `"YYYY-MM-DD"` string.
pub open spec fn strict_day(s: Seq<char>) -> int {
    digits_val(s.subrange(8, 10))
}

/// The fields of a strict string are bounded by their digit counts.
pub proof fn lemma_strict_field_bounds(s: Seq<char>)
    requires
        strict_ymd(s),
    ensures
        0 <= strict_year(s) < 10000,
        0 <= strict_month(s) < 100,
        0 <= strict_day(s) < 100,
{
    assert forall|i: int| 0 <= i < s.subrange(0, 4).len() implies is_digit(s.subrange(0, 4)[i]) by {
        assert(s.subrange(0, 4)[i] == s[i]);
    }
    crate::digits::lemma_digits_val_bounds(s.subrange(0, 4));
    assert forall|i: int| 0 <= i < s.subrange(5, 7).len() implies is_digit(s.subrange(5, 7)[i]) by {
        assert(s.subrange(5, 7)[i] == s[i + 5]);
    }
    crate::digits::lemma_digits_val_bounds(s.subrange(5, 7));
    assert forall|i: int| 0 <= i < s.subrange(8, 10).len() implies is_digit(
        s.subrange(8, 10)[i],
    ) by {
        assert(s.subrange(8, 10)[i] == s[i + 8]);
    }
    crate::digits::lemma_digits_val_bounds(s.subrange(8, 10));
    assert(pow10(0) == 1);
    assert(pow10(1) == 10);
    assert(pow10(2) == 100);
    assert(pow10(3) == 1000);
    assert(pow10(4) == 10000);
}

/// What the primary calendar parser returns on a given string.
pub uninterp spec fn primary_parse(s: Seq<char>) -> Option<Date>;

/// Relies on chrono's `NaiveDate::parse_from_str` with format `"%Y-%m-%d"`
/// (and the `Datelike` field accessors): any date it returns is a real
/// calendar date within chrono's representable years, and a zero-padded
/// four-digit string of a real date in that form parses to exactly that date.
#[verifier::external_body]
pub(crate) fn parse_primary(s: &str) -> (r: Option<Date>)
    ensures
        r == primary_parse(s@),
        r matches Some(d) ==> date_valid(d) && year_in_range(d.year as int),
        (strict_ymd(s@) && valid_ymd(strict_year(s@), strict_month(s@), strict_day(s@))) ==> r
            == Some(
            (Date {
                year: strict_year(s@) as i32,
                month: strict_month(s@) as u32,
                day: strict_day(s@) as u32,
            }),
        ),
{
    match chrono::NaiveDate::parse_from_str(s, "%Y-%m-%d") {
        Ok(d) => Some(
            Date {
                year: chrono::Datelike::year(&d),
                month: chrono::Datelike::month(&d),
                day: chrono::Datelike::day(&d),
            },
        ),
        Err(_) => None,
    }
}

} // verus!

//! The date-delta calculator: days between today and a target date string,
//! with the magnitude and an overdue flag kept apart.

use vstd::prelude::*;
use crate::bignum::{
    big_add, big_div_trunc, big_from_i64, big_is_negative, big_is_zero, big_mul, big_neg, big_sub,
    big_value, trunc_div,
};
use crate::date::{
    date_valid, day_number, day_number_of, lemma_strict_field_bounds, parse_primary, primary_parse,
    strict_day, strict_month, strict_year, strict_ymd, valid_ymd, year_in_range, Date,
};
use crate::parse::{fallback_parse_spec, parse_date_fallback};

verus! {

/// A countdown: how many days lie between today and the target, with the
/// sign kept in `overdue`. The magnitude is never negative.
pub struct CountdownResult {
    pub magnitude: num_bigint::BigInt,
    pub overdue: bool,
}

/// What the fallback path computes: zero and not overdue when the fallback
/// parse fails; otherwise 30-day months within a year, and 365-day years
/// plus a quarter of the year difference (truncated) across years.
pub open spec fn fallback_delta_spec(s: Seq<char>, today: Date) -> (int, bool) {
    match fallback_parse_spec(s) {
        None => (0, false),
        Some((y, m, d)) => {
            let yd = y - today.year as int;
            let md = (m - today.month as int) * 30 + (d - today.day as int);
            let total = if yd == 0 {
                md
            } else {
                yd * 365 + trunc_div(yd, 4) + md
            };
            if total < 0 {
                (-total, true)
            } else {
                (total, false)
            }
        },
    }
}

/// What `compute_delta` returns: the exact day difference when the primary
/// parser reads the target, and the fallback arithmetic otherwise.
pub open spec fn delta_spec(s: Seq<char>, today: Date) -> (int, bool) {
    match primary_parse(s) {
        Some(t) => {
            let dd = day_number(t.year as int, t.month as int, t.day as int) - day_number(
                today.year as int,
                today.month as int,
                today.day as int,
            );
            if dd < 0 {
                (-dd, true)
            } else {
                (dd, false)
            }
        },
        None => fallback_delta_spec(s, today),
    }
}

/// The fallback path on its own: approximate day arithmetic over the
/// fallback parse, absorbing parse failure into (0, not overdue).
pub fn compute_delta_fallback(target: &str, today: Date) -> (r: CountdownResult)
    ensures
        big_value(r.magnitude) == fallback_delta_spec(target@, today).0,
        r.overdue == fallback_delta_spec(target@, today).1,
        big_value(r.magnitude) >= 0,
{
    match parse_date_fallback(target) {
        None => CountdownResult { magnitude: big_from_i64(0), overdue: false },
        Some((y, m, d)) => {
            let today_year = big_from_i64(today.year as i64);
            let year_diff = big_sub(&y, &today_year);
            let md: i64 = (m as i64 - today.month as i64) * 30 + (d as i64 - today.day as i64);
            let total = if big_is_zero(&year_diff) {
                big_from_i64(md)
            } else {
                let base = big_mul(&year_diff, &big_from_i64(365));
                let leap = big_div_trunc(&year_diff, &big_from_i64(4));
                big_add(&big_add(&base, &leap), &big_from_i64(md))
            };
            if big_is_negative(&total) {
                CountdownResult { magnitude: big_neg(&total), overdue: true }
            } else {
                CountdownResult { magnitude: total, overdue: false }
            }
        },
    }
}

/// Days between today and the target date string. The primary calendar
/// parser is tried first; on its failure the fallback path runs. On a
/// strict zero-padded `"YYYY-MM-DD"` string of a real date the result is
/// the exact calendar day difference, with the sign in `overdue`.
pub fn compute_delta(target: &str, today: Date) -> (r: CountdownResult)
    requires
        date_valid(today),
        year_in_range(today.year as int),
    ensures
        big_value(r.magnitude) == delta_spec(target@, today).0,
        r.overdue == delta_spec(target@, today).1,
        big_value(r.magnitude) >= 0,
        (strict_ymd(target@) && valid_ymd(
            strict_year(target@),
            strict_month(target@),
            strict_day(target@),
        )) ==> ({
            let dd = day_number(strict_year(target@), strict_month(target@), strict_day(target@))
                - day_number(today.year as int, today.month as int, today.day as int);
            &&& big_value(r.magnitude) == (if dd < 0 {
                -dd
            } else {
                dd
            })
            &&& r.overdue == (dd < 0)
        }),
{
    proof {
        if strict_ymd(target@) {
            lemma_strict_field_bounds(target@);
        }
    }
    match parse_primary(target) {
        Some(t) => {
            let dn_target = day_number_of(t);
            let dn_today = day_number_of(today);
            let diff: i64 = dn_target - dn_today;
            if diff < 0 {
                CountdownResult { magnitude: big_from_i64(-diff), overdue: true }
            } else {
                CountdownResult { magnitude: big_from_i64(diff), overdue: false }
            }
        },
        None => compute_delta_fallback(target, today),
    }
}

} // verus!

//! The display formatter: thousands separators in the day count, and the
//! message shown for a running or an overdue countdown.

use vstd::prelude::*;
use vstd::string::*;
use crate::bignum::{big_to_string, big_value};
use crate::digits::{dec_str, lemma_dec_str_len_small};

verus! {

/// A comma inserted every three characters, counted from the right; a
/// string of at most three characters is unchanged.
pub open spec fn grouped(s: Seq<char>) -> Seq<char>
    decreases s.len(),
{
    if s.len() <= 3 {
        s
    } else {
        grouped(s.take(s.len() - 3)) + seq![','] + s.skip(s.len() - 3)
    }
}

/// Inserts a comma every three characters, counted from the right.
pub fn with_separators(digits: &str) -> (r: String)
    ensures
        r@ == grouped(digits@),
    decreases digits@.len(),
{
    let len = digits.unicode_len();
    if len <= 3 {
        String::from_str(digits)
    } else {
        let head = digits.substring_char(0, len - 3);
        let tail = digits.substring_char(len - 3, len);
        let mut r = with_separators(head);
        r.append(",");
        r.append(tail);
        proof {
            reveal_strlit(",");
            assert(","@ =~= seq![',']);
            assert(head@ =~= digits@.take(digits@.len() - 3));
            assert(tail@ =~= digits@.skip(digits@.len() - 3));
            assert(r@ =~= grouped(digits@));
        }
        r
    }
}

/// The digit string of a non-negative day count with thousands separators.
pub open spec fn formatted_magnitude(m: int) -> Seq<char> {
    grouped(dec_str(m))
}

/// Renders a non-negative day count with thousands separators.
pub fn format_magnitude(magnitude: &num_bigint::BigInt) -> (r: String)
    requires
        big_value(*magnitude) >= 0,
    ensures
        r@ == formatted_magnitude(big_value(*magnitude)),
{
    let digits = big_to_string(magnitude);
    with_separators(digits.as_str())
}

/// The whole countdown message: the title, then either the remaining days,
/// or a zero count with the overdue days in a parenthetical note.
pub open spec fn countdown_message(m: int, overdue: bool, title: Seq<char>) -> Seq<char> {
    if overdue {
        title + " 0 天（倒计时已过期"@ + formatted_magnitude(m) + "天）"@
    } else {
        title + " "@ + formatted_magnitude(m) + " 天"@
    }
}

/// Composes the message shown for a countdown with the given magnitude,
/// overdue flag and title.
pub fn format_countdown(magnitude: &num_bigint::BigInt, overdue: bool, title: &str) -> (r: String)
    requires
        big_value(*magnitude) >= 0,
    ensures
        r@ == countdown_message(big_value(*magnitude), overdue, title@),
{
    let formatted = format_magnitude(magnitude);
    let mut r = String::from_str(title);
    if overdue {
        r.append(" 0 天（倒计时已过期");
        r.append(formatted.as_str());
        r.append("天）");
    } else {
        r.append(" ");
        r.append(formatted.as_str());
        r.append(" 天");
    }
    proof {
        assert(r@ =~= countdown_message(big_value(*magnitude), overdue, title@));
    }
    r
}

/// A magnitude of at most three digits is rendered as its plain digit
/// string: no separator is ever inserted into it.
pub proof fn lemma_small_magnitude_plain(m: int)
    requires
        0 <= m < 1000,
    ensures
        formatted_magnitude(m) == dec_str(m),
{
    lemma_dec_str_len_small(m);
}

} // verus!

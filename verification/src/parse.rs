//! The fallback date parser: split the input on `'-'` into exactly three
//! fields, read the year as an arbitrary-precision integer and month and day
//! as bounded integers, and range-check month and day.

use vstd::prelude::*;
use vstd::string::*;
use crate::bignum::{big_from_str_spec, big_parse, big_value};
use crate::digits::{all_digits, digits_val};

verus! {

/// Splitting on `'-'` char by char: `cur` is the field being read and `acc`
/// the fields already read.
pub open spec fn split_dash_from(s: Seq<char>, cur: Seq<char>, acc: Seq<Seq<char>>) -> Seq<
    Seq<char>,
>
    decreases s.len(),
{
    if s.len() == 0 {
        acc.push(cur)
    } else if s[0] == '-' {
        split_dash_from(s.skip(1), Seq::empty(), acc.push(cur))
    } else {
        split_dash_from(s.skip(1), cur.push(s[0]), acc)
    }
}

/// The fields of a string split on `'-'`; the empty string gives one empty
/// field, as `str::split` does.
pub open spec fn split_dash(s: Seq<char>) -> Seq<Seq<char>> {
    split_dash_from(s, Seq::empty(), Seq::empty())
}

/// Splits a string on `'-'`.
pub fn split_dash_exec(s: &str) -> (parts: Vec<String>)
    ensures
        parts.deep_view() == split_dash(s@),
{
    let len = s.unicode_len();
    let mut parts: Vec<String> = Vec::new();
    let mut cur = String::new();
    let mut i: usize = 0;
    assert(s@.skip(0) =~= s@);
    assert(parts.deep_view() =~= Seq::<Seq<char>>::empty());
    while i < len
        invariant
            i <= len,
            len == s@.len(),
            split_dash_from(s@.skip(i as int), cur@, parts.deep_view()) == split_dash(s@),
        decreases len - i,
    {
        let ghost pre_cur = cur@;
        let ghost pre_dv = parts.deep_view();
        assert(s@.skip(i as int).len() > 0);
        assert(s@.skip(i as int)[0] == s@[i as int]);
        assert(s@.skip(i as int).skip(1) =~= s@.skip(i as int + 1));
        let c = s.get_char(i);
        if c == '-' {
            parts.push(cur);
            cur = String::new();
            assert(parts.deep_view() =~= pre_dv.push(pre_cur));
        } else {
            let piece = s.substring_char(i, i + 1);
            cur.append(piece);
            assert(cur@ =~= pre_cur.push(s@[i as int]));
        }
        i = i + 1;
    }
    assert(s@.skip(i as int).len() == 0);
    let ghost pre_dv = parts.deep_view();
    let ghost pre_cur = cur@;
    parts.push(cur);
    assert(parts.deep_view() =~= pre_dv.push(pre_cur));
    parts
}

/// What `str::parse::<u32>` returns: an optional leading `'+'`, then at
/// least one digit and nothing else, with values above `u32::MAX` refused.
pub open spec fn u32_from_str_spec(t: Seq<char>) -> Option<int> {
    let u = if t.len() >= 1 && t[0] == '+' {
        t.skip(1)
    } else {
        t
    };
    if u.len() >= 1 && all_digits(u) && digits_val(u) <= u32::MAX as int {
        Some(digits_val(u))
    } else {
        None
    }
}

/// Relies on `str::parse::<u32>`: an optional leading `'+'` sign followed by
/// only digits; anything else, and overflow, is an error.
#[verifier::external_body]
fn parse_u32(s: &str) -> (r: Option<u32>)
    ensures
        r is Some <==> u32_from_str_spec(s@) is Some,
        r matches Some(v) ==> u32_from_str_spec(s@) == Some(v as int),
{
    s.parse::<u32>().ok()
}

/// The fallback parse of a date string: exactly three `'-'`-separated
/// fields, a year of arbitrary size, and month and day within [1, 12] and
/// [1, 31].
pub open spec fn fallback_parse_spec(s: Seq<char>) -> Option<(int, int, int)> {
    let parts = split_dash(s);
    if parts.len() != 3 {
        None
    } else {
        match big_from_str_spec(parts[0]) {
            None => None,
            Some(y) => match u32_from_str_spec(parts[1]) {
                None => None,
                Some(m) => match u32_from_str_spec(parts[2]) {
                    None => None,
                    Some(d) => if 1 <= m <= 12 && 1 <= d <= 31 {
                        Some((y, m, d))
                    } else {
                        None
                    },
                },
            },
        }
    }
}

/// Splits a date string into year, month and day by the fallback rules.
pub fn parse_date_fallback(s: &str) -> (r: Option<(num_bigint::BigInt, u32, u32)>)
    ensures
        r is Some <==> fallback_parse_spec(s@) is Some,
        r matches Some(t) ==> fallback_parse_spec(s@) == Some(
            (big_value(t.0), t.1 as int, t.2 as int),
        ),
{
    let parts = split_dash_exec(s);
    assert(parts@.len() == split_dash(s@).len());
    if parts.len() != 3 {
        return None;
    }
    assert(parts.deep_view()[0] == parts@[0]@);
    assert(parts.deep_view()[1] == parts@[1]@);
    assert(parts.deep_view()[2] == parts@[2]@);
    let y_opt = big_parse(parts[0].as_str());
    let m_opt = parse_u32(parts[1].as_str());
    let d_opt = parse_u32(parts[2].as_str());
    match (y_opt, m_opt, d_opt) {
        (Some(y), Some(m), Some(d)) => {
            if 1 <= m && m <= 12 && 1 <= d && d <= 31 {
                Some((y, m, d))
            } else {
                None
            }
        },
        _ => None,
    }
}

} // verus!

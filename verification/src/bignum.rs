//! Arbitrary-precision integers, held as `num_bigint::BigInt` behind trusted
//! wrappers. `big_value` names the integer a `BigInt` stands for; every
//! wrapper's contract speaks of it.

use vstd::prelude::*;
use crate::digits::{dec_str, digits_val, is_digit};

verus! {

#[verifier::external_type_specification]
#[verifier::external_body]
pub struct ExBigInt(num_bigint::BigInt);

/// The integer a `BigInt` stands for.
pub uninterp spec fn big_value(b: num_bigint::BigInt) -> int;

/// Integer division truncated toward zero, for a positive divisor.
pub open spec fn trunc_div(a: int, b: int) -> int
    recommends
        b > 0,
{
    if a >= 0 {
        a / b
    } else {
        -((-a) / b)
    }
}

/// The decimal form `num_bigint` accepts after the minus sign is handled:
/// an optional single leading `'+'`, then at least one digit, where
/// underscores after the first character are allowed and ignored.
pub open spec fn big_body_spec(t: Seq<char>) -> Option<int> {
    let u = if t.len() >= 1 && t[0] == '+' && !(t.len() >= 2 && t[1] == '+') {
        t.skip(1)
    } else {
        t
    };
    if u.len() >= 1 && is_digit(u[0]) && (forall|i: int|
        0 <= i < u.len() ==> is_digit(u[i]) || u[i] == '_') {
        Some(digits_val(u.filter(|c: char| c != '_')))
    } else {
        None
    }
}

/// What `BigInt`'s decimal `FromStr` returns: an optional leading `'-'`
/// (refused when a `'+'` follows it), then the unsigned form above.
pub open spec fn big_from_str_spec(s: Seq<char>) -> Option<int> {
    if s.len() >= 1 && s[0] == '-' {
        if s.len() >= 2 && s[1] == '+' {
            None
        } else {
            match big_body_spec(s.skip(1)) {
                Some(v) => Some(-v),
                None => None,
            }
        }
    } else {
        big_body_spec(s)
    }
}

/// Relies on `str::parse::<num_bigint::BigInt>` (its decimal `FromStr`).
#[verifier::external_body]
pub(crate) fn big_parse(s: &str) -> (r: Option<num_bigint::BigInt>)
    ensures
        r is Some <==> big_from_str_spec(s@) is Some,
        r matches Some(b) ==> big_from_str_spec(s@) == Some(big_value(b)),
{
    s.parse::<num_bigint::BigInt>().ok()
}

/// Relies on `<num_bigint::BigInt as From<i64>>::from`.
#[verifier::external_body]
pub(crate) fn big_from_i64(v: i64) -> (r: num_bigint::BigInt)
    ensures
        big_value(r) == v as int,
{
    num_bigint::BigInt::from(v)
}

/// Relies on `Add` of `&num_bigint::BigInt`.
#[verifier::external_body]
pub(crate) fn big_add(a: &num_bigint::BigInt, b: &num_bigint::BigInt) -> (r: num_bigint::BigInt)
    ensures
        big_value(r) == big_value(*a) + big_value(*b),
{
    a + b
}

/// Relies on `Sub` of `&num_bigint::BigInt`.
#[verifier::external_body]
pub(crate) fn big_sub(a: &num_bigint::BigInt, b: &num_bigint::BigInt) -> (r: num_bigint::BigInt)
    ensures
        big_value(r) == big_value(*a) - big_value(*b),
{
    a - b
}

/// Relies on `Mul` of `&num_bigint::BigInt`.
#[verifier::external_body]
pub(crate) fn big_mul(a: &num_bigint::BigInt, b: &num_bigint::BigInt) -> (r: num_bigint::BigInt)
    ensures
        big_value(r) == big_value(*a) * big_value(*b),
{
    a * b
}

/// Relies on `Div` of `&num_bigint::BigInt`, which rounds toward zero.
#[verifier::external_body]
pub(crate) fn big_div_trunc(a: &num_bigint::BigInt, b: &num_bigint::BigInt) -> (r:
    num_bigint::BigInt)
    requires
        big_value(*b) > 0,
    ensures
        big_value(r) == trunc_div(big_value(*a), big_value(*b)),
{
    a / b
}

/// Relies on `Neg` of `&num_bigint::BigInt`.
#[verifier::external_body]
pub(crate) fn big_neg(a: &num_bigint::BigInt) -> (r: num_bigint::BigInt)
    ensures
        big_value(r) == -big_value(*a),
{
    -a
}

/// Relies on `num_traits::Signed::is_negative`, false on zero.
#[verifier::external_body]
pub(crate) fn big_is_negative(a: &num_bigint::BigInt) -> (r: bool)
    ensures
        r == (big_value(*a) < 0),
{
    num_traits::Signed::is_negative(a)
}

/// Relies on `num_traits::Zero::is_zero`.
#[verifier::external_body]
pub(crate) fn big_is_zero(a: &num_bigint::BigInt) -> (r: bool)
    ensures
        r == (big_value(*a) == 0),
{
    num_traits::Zero::is_zero(a)
}

/// Relies on `BigInt`'s `Display` through `ToString`: a non-negative value
/// prints as its plain decimal digits.
#[verifier::external_body]
pub(crate) fn big_to_string(a: &num_bigint::BigInt) -> (r: String)
    requires
        big_value(*a) >= 0,
    ensures
        r@ == dec_str(big_value(*a)),
{
    a.to_string()
}

} // verus!

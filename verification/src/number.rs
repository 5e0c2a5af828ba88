//! Numbers: IEEE-754 double precision values, held as their 64-bit patterns.
//!
//! Ordering, equality and negation are defined here on the bit patterns.
//! Rounded arithmetic and the reading of decimal literals are had from the
//! `rustc_apfloat` software implementation; their results are named, not
//! defined, in this module.

use rustc_apfloat::Float;
use rustc_apfloat::ieee::Double;
use vstd::prelude::*;

verus! {

/// The bit that holds the sign.
pub const SIGN_BIT: u64 = 0x8000_0000_0000_0000;

/// The pattern of positive infinity: exponent all ones, fraction zero.
pub const INFINITY: u64 = 0x7ff0_0000_0000_0000;

/// The pattern without its sign bit.
pub open spec fn magnitude(x: u64) -> u64 {
    if x >= SIGN_BIT {
        (x - SIGN_BIT) as u64
    } else {
        x
    }
}

/// Whether the pattern is a NaN: exponent all ones and a fraction that is not zero.
pub open spec fn is_nan(x: u64) -> bool {
    magnitude(x) > INFINITY
}

/// The position of a pattern that is no NaN in the order of the values:
/// magnitudes grow with the value, and a set sign bit mirrors them, so that
/// both zeros stand at 0.
pub open spec fn rank(x: u64) -> int {
    if x >= SIGN_BIT {
        -(magnitude(x) as int)
    } else {
        x as int
    }
}

/// Numeric equality: no NaN equals anything, and the two zeros are equal.
pub open spec fn double_eq(a: u64, b: u64) -> bool {
    !is_nan(a) && !is_nan(b) && rank(a) == rank(b)
}

/// Numeric `<`: false whenever a NaN takes part.
pub open spec fn double_lt(a: u64, b: u64) -> bool {
    !is_nan(a) && !is_nan(b) && rank(a) < rank(b)
}

/// Numeric `<=`: false whenever a NaN takes part.
pub open spec fn double_le(a: u64, b: u64) -> bool {
    !is_nan(a) && !is_nan(b) && rank(a) <= rank(b)
}

/// The pattern with its sign bit flipped.
pub open spec fn double_neg(x: u64) -> u64 {
    if x >= SIGN_BIT {
        (x - SIGN_BIT) as u64
    } else {
        (x + SIGN_BIT) as u64
    }
}

/// Whether `text` is digits with a dot at `dot`, or all digits where `dot` is
/// its length; with a digit before the dot and one after it.
pub open spec fn is_decimal_with_dot(text: Seq<u8>, dot: int) -> bool {
    0 < dot <= text.len() && (dot == text.len() || (text[dot] == 46 && dot + 1 < text.len()))
        && forall|i: int| 0 <= i < text.len() && i != dot ==> 48 <= #[trigger] text[i] <= 57
}

/// A decimal literal: one or more digits, optionally followed by a dot and
/// one or more digits.
pub open spec fn is_decimal_literal(text: Seq<u8>) -> bool {
    exists|dot: int| is_decimal_with_dot(text, dot)
}

/// The sum of two doubles, rounded to nearest, ties to even.
pub uninterp spec fn double_sum(a: u64, b: u64) -> u64;

/// The difference of two doubles, rounded to nearest, ties to even.
pub uninterp spec fn double_difference(a: u64, b: u64) -> u64;

/// The product of two doubles, rounded to nearest, ties to even.
pub uninterp spec fn double_product(a: u64, b: u64) -> u64;

/// The quotient of two doubles, rounded to nearest, ties to even.
pub uninterp spec fn double_quotient(a: u64, b: u64) -> u64;

/// The double nearest to a decimal text, where the text can be read as one.
pub uninterp spec fn double_of_decimal(text: Seq<u8>) -> Option<u64>;

/// `rustc_apfloat`'s `Add` for `ieee::Double`, which is `add_r` with
/// `Round::NearestTiesToEven`, between `from_bits` and `to_bits`. The status
/// flags are dropped. The contract names the pattern that comes back.
#[verifier::external_body]
pub(crate) fn sum(a: u64, b: u64) -> (r: u64)
    ensures
        r == double_sum(a, b),
{
    (Double::from_bits(a as u128) + Double::from_bits(b as u128)).value.to_bits() as u64
}

/// `rustc_apfloat`'s `Sub` for `ieee::Double`, which is `sub_r` with
/// `Round::NearestTiesToEven`, between `from_bits` and `to_bits`. The status
/// flags are dropped. The contract names the pattern that comes back.
#[verifier::external_body]
pub(crate) fn difference(a: u64, b: u64) -> (r: u64)
    ensures
        r == double_difference(a, b),
{
    (Double::from_bits(a as u128) - Double::from_bits(b as u128)).value.to_bits() as u64
}

/// `rustc_apfloat`'s `Mul` for `ieee::Double`, which is `mul_r` with
/// `Round::NearestTiesToEven`, between `from_bits` and `to_bits`. The status
/// flags are dropped. The contract names the pattern that comes back.
#[verifier::external_body]
pub(crate) fn product(a: u64, b: u64) -> (r: u64)
    ensures
        r == double_product(a, b),
{
    (Double::from_bits(a as u128) * Double::from_bits(b as u128)).value.to_bits() as u64
}

/// `rustc_apfloat`'s `Div` for `ieee::Double`, which is `div_r` with
/// `Round::NearestTiesToEven`, between `from_bits` and `to_bits`. The status
/// flags are dropped; a zero divisor gives an infinity or a NaN. The contract
/// names the pattern that comes back.
#[verifier::external_body]
pub(crate) fn quotient(a: u64, b: u64) -> (r: u64)
    ensures
        r == double_quotient(a, b),
{
    (Double::from_bits(a as u128) / Double::from_bits(b as u128)).value.to_bits() as u64
}

/// `rustc_apfloat`'s `FromStr` for `ieee::Double`, which is `from_str_r` with
/// `Round::NearestTiesToEven`, on a decimal literal. The contract names what
/// comes back: the pattern, or nothing where the crate reports an error.
#[verifier::external_body]
pub(crate) fn of_decimal(text: &[u8]) -> (r: Option<u64>)
    requires
        is_decimal_literal(text@),
    ensures
        r == double_of_decimal(text@),
{
    match core::str::from_utf8(text) {
        Ok(digits) => match digits.parse::<Double>() {
            Ok(double) => Some(double.to_bits() as u64),
            Err(_) => None,
        },
        Err(_) => None,
    }
}

/// Whether `x` is a NaN.
pub fn nan(x: u64) -> (r: bool)
    ensures
        r == is_nan(x),
{
    let m: u64 = if x >= SIGN_BIT { x - SIGN_BIT } else { x };
    m > INFINITY
}

/// The pattern of `-x`.
pub fn negate(x: u64) -> (r: u64)
    ensures
        r == double_neg(x),
{
    if x >= SIGN_BIT {
        x - SIGN_BIT
    } else {
        x + SIGN_BIT
    }
}

/// Whether `a == b` as numbers.
pub fn equal(a: u64, b: u64) -> (r: bool)
    ensures
        r == double_eq(a, b),
{
    if nan(a) || nan(b) {
        return false;
    }
    let ma: u64 = if a >= SIGN_BIT { a - SIGN_BIT } else { a };
    let mb: u64 = if b >= SIGN_BIT { b - SIGN_BIT } else { b };
    if ma == 0 && mb == 0 {
        return true;
    }
    a == b
}

/// Whether `a < b` as numbers.
pub fn less(a: u64, b: u64) -> (r: bool)
    ensures
        r == double_lt(a, b),
{
    if nan(a) || nan(b) {
        return false;
    }
    let ma: u64 = if a >= SIGN_BIT { a - SIGN_BIT } else { a };
    let mb: u64 = if b >= SIGN_BIT { b - SIGN_BIT } else { b };
    if a >= SIGN_BIT {
        if b >= SIGN_BIT {
            ma > mb
        } else {
            ma > 0 || mb > 0
        }
    } else {
        if b >= SIGN_BIT {
            false
        } else {
            ma < mb
        }
    }
}

/// Whether `a <= b` as numbers.
pub fn less_or_equal(a: u64, b: u64) -> (r: bool)
    ensures
        r == double_le(a, b),
{
    less(a, b) || equal(a, b)
}

/// Negating twice gives the number back.
pub proof fn negation_undoes_itself(x: u64)
    ensures
        double_neg(double_neg(x)) == x,
{
}

/// Negation keeps what is a NaN, and mirrors the order of all else.
pub proof fn negation_mirrors_the_order(a: u64, b: u64)
    ensures
        is_nan(double_neg(a)) == is_nan(a),
        double_lt(double_neg(a), double_neg(b)) == double_lt(b, a),
        double_eq(double_neg(a), double_neg(b)) == double_eq(a, b),
{
}

/// `<` is a strict order on the numbers: no number is less than itself, and
/// what is less than something less than a third is less than the third.
pub proof fn less_than_is_a_strict_order(a: u64, b: u64, c: u64)
    ensures
        !double_lt(a, a),
        double_lt(a, b) ==> !double_lt(b, a),
        double_lt(a, b) && double_lt(b, c) ==> double_lt(a, c),
{
}

/// Of two numbers neither of which is a NaN, exactly one of `a < b`,
/// `a == b` and `b < a` holds; and `a <= b` says that one of the first two
/// does.
pub proof fn numbers_compare_one_way(a: u64, b: u64)
    ensures
        double_le(a, b) == (double_lt(a, b) || double_eq(a, b)),
        !is_nan(a) && !is_nan(b) ==> (double_lt(a, b) || double_eq(a, b) || double_lt(b, a)),
        !(double_lt(a, b) && double_eq(a, b)),
        is_nan(a) || is_nan(b) ==> !double_lt(a, b) && !double_eq(a, b) && !double_le(a, b),
{
}

} // verus!

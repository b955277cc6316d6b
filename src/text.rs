//! Character-level facts about strings and decimal numbers.

use vstd::prelude::*;

verus! {

/// `suffix` is a suffix of `s`.
pub open spec fn is_suffix(s: Seq<char>, suffix: Seq<char>) -> bool {
    suffix.len() <= s.len() && s.subrange(s.len() - suffix.len(), s.len() as int) == suffix
}

/// `pattern` occurs somewhere in `s`.
pub open spec fn occurs_in(s: Seq<char>, pattern: Seq<char>) -> bool {
    exists|i: int| 0 <= i && i + pattern.len() <= s.len() && #[trigger] s.subrange(i, i + pattern.len()) == pattern
}

pub open spec fn is_digit(c: char) -> bool {
    '0' <= c && c <= '9'
}

pub open spec fn all_digits(s: Seq<char>) -> bool {
    forall|i: int| 0 <= i < s.len() ==> is_digit(#[trigger] s[i])
}

/// Value of a run of decimal digits, most significant first.
pub open spec fn digits_value(s: Seq<char>) -> int
    decreases s.len(),
{
    if s.len() == 0 {
        0
    } else {
        digits_value(s.drop_last()) * 10 + (s.last() as int - '0' as int)
    }
}

/// The integer written in `s`: an optional sign, then at least one decimal digit.
pub open spec fn decimal_value(s: Seq<char>) -> Option<int> {
    let negative = s.len() > 0 && s[0] == '-';
    let digits = if s.len() > 0 && (s[0] == '-' || s[0] == '+') {
        s.skip(1)
    } else {
        s
    };
    if digits.len() > 0 && all_digits(digits) {
        Some(
            if negative {
                -digits_value(digits)
            } else {
                digits_value(digits)
            },
        )
    } else {
        None
    }
}

pub open spec fn digit_char(d: int) -> char {
    seq!['0', '1', '2', '3', '4', '5', '6', '7', '8', '9'][d]
}

/// Decimal digits of a natural number, without leading zeros.
pub open spec fn nat_text(n: nat) -> Seq<char>
    decreases n,
{
    if n < 10 {
        seq![digit_char(n as int)]
    } else {
        nat_text(n / 10).push(digit_char((n % 10) as int))
    }
}

/// Decimal text of an integer, with a leading `-` when negative.
pub open spec fn int_text(n: int) -> Seq<char> {
    if n < 0 {
        seq!['-'] + nat_text((-n) as nat)
    } else {
        nat_text(n as nat)
    }
}

#[verifier::external_type_specification]
#[verifier::external_body]
pub struct ExParseIntError(core::num::ParseIntError);

/// Relies on `str == str`: two string slices are equal when they hold the same characters.
#[verifier::external_body]
pub(crate) fn str_eq(a: &str, b: &str) -> (r: bool)
    ensures
        r == (a@ == b@),
{
    a == b
}

/// Relies on `str::ends_with`: true when `suffix` is a suffix of `s`.
#[verifier::external_body]
pub(crate) fn str_ends_with(s: &str, suffix: &str) -> (r: bool)
    ensures
        r == is_suffix(s@, suffix@),
{
    s.ends_with(suffix)
}

/// Relies on `str::contains`: true when `pattern` occurs in `s`.
#[verifier::external_body]
pub(crate) fn str_contains(s: &str, pattern: &str) -> (r: bool)
    ensures
        r == occurs_in(s@, pattern@),
{
    s.contains(pattern)
}

/// Relies on `i64::from_str`: an optional sign followed by decimal digits, in range.
#[verifier::external_body]
pub(crate) fn parse_i64(s: &str) -> (r: Result<i64, core::num::ParseIntError>)
    ensures
        r is Ok <==> (decimal_value(s@) is Some && i64::MIN <= decimal_value(s@)->Some_0
            <= i64::MAX),
        r is Ok ==> r->Ok_0 == decimal_value(s@)->Some_0,
{
    s.parse::<i64>()
}

/// Relies on `i32::from_str`: an optional sign followed by decimal digits, in range.
#[verifier::external_body]
pub(crate) fn parse_i32(s: &str) -> (r: Result<i32, core::num::ParseIntError>)
    ensures
        r is Ok <==> (decimal_value(s@) is Some && i32::MIN <= decimal_value(s@)->Some_0
            <= i32::MAX),
        r is Ok ==> r->Ok_0 == decimal_value(s@)->Some_0,
{
    s.parse::<i32>()
}

/// Relies on `i64`'s `Display` (through `to_string`): decimal digits, `-` when negative.
#[verifier::external_body]
pub(crate) fn i64_text(n: i64) -> (r: String)
    ensures
        r@ == int_text(n as int),
{
    n.to_string()
}

/// Relies on `i32`'s `Display` (through `to_string`): decimal digits, `-` when negative.
#[verifier::external_body]
pub(crate) fn i32_text(n: i32) -> (r: String)
    ensures
        r@ == int_text(n as int),
{
    n.to_string()
}

} // verus!

//! Numbers and quoted strings as they stand in the generated code.

use vstd::prelude::*;
use vstd::string::*;

verus! {

/// One decimal digit as text.
pub open spec fn digit_text(d: nat) -> Seq<char> {
    if d == 0 {
        "0"@
    } else if d == 1 {
        "1"@
    } else if d == 2 {
        "2"@
    } else if d == 3 {
        "3"@
    } else if d == 4 {
        "4"@
    } else if d == 5 {
        "5"@
    } else if d == 6 {
        "6"@
    } else if d == 7 {
        "7"@
    } else if d == 8 {
        "8"@
    } else {
        "9"@
    }
}

/// A natural number in decimal digits, without leading zeros.
pub open spec fn decimal_text(n: nat) -> Seq<char>
    decreases n,
{
    if n < 10 {
        digit_text(n)
    } else {
        decimal_text(n / 10) + digit_text(n % 10)
    }
}

/// An integer in decimal digits, with a minus sign if it is negative.
pub open spec fn signed_text(i: int) -> Seq<char> {
    if i < 0 {
        "-"@ + decimal_text((-i) as nat)
    } else {
        decimal_text(i as nat)
    }
}

/// One decimal digit as text.
fn digit(d: u64) -> (r: &'static str)
    requires
        d < 10,
    ensures
        r@ == digit_text(d as nat),
{
    if d == 0 {
        "0"
    } else if d == 1 {
        "1"
    } else if d == 2 {
        "2"
    } else if d == 3 {
        "3"
    } else if d == 4 {
        "4"
    } else if d == 5 {
        "5"
    } else if d == 6 {
        "6"
    } else if d == 7 {
        "7"
    } else if d == 8 {
        "8"
    } else {
        "9"
    }
}

/// A number in decimal digits.
pub fn number_text(n: u64) -> (r: String)
    ensures
        r@ == decimal_text(n as nat),
    decreases n,
{
    if n < 10 {
        String::from_str(digit(n))
    } else {
        let mut s = number_text(n / 10);
        s.append(digit(n % 10));
        s
    }
}

/// An integer in decimal digits.
pub fn signed_number_text(i: i32) -> (r: String)
    ensures
        r@ == signed_text(i as int),
{
    let wide: i64 = i as i64;
    if wide < 0 {
        let mut s = String::from_str("-");
        let digits = number_text((-wide) as u64);
        s.append(digits.as_str());
        s
    } else {
        number_text(wide as u64)
    }
}

/// A text as a string literal of the generated code: between quotes, with
/// what needs it escaped.
pub uninterp spec fn quoted_text(s: Seq<char>) -> Seq<char>;

/// The text as the `Debug` formatting of `str` in the standard library
/// writes it: a string literal. Nothing more is claimed of the result than
/// that it depends on the text alone.
#[verifier::external_body]
pub(crate) fn quoted(s: &str) -> (r: String)
    ensures
        r@ == quoted_text(s@),
{
    format!("{:?}", s)
}

} // verus!

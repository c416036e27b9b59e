//! Text helpers for names and messages.

use vstd::prelude::*;

verus! {

/// `String::push_str` appends the given string slice to the end of the
/// string.
pub assume_specification[ String::push_str ](s: &mut String, string: &str)
    ensures
        final(s)@ == old(s)@ + string@,
;

/// The digit that stands for a number below ten.
pub open spec fn digit(d: u32) -> Seq<char> {
    if d == 0 {
        "0"@
    } else if d == 1 {
        "1"@
    } else if d == 2 {
        "2"@
    } else if d == 3 {
        "3"@
    } else if d == 4 {
        "4"@
    } else if d == 5 {
        "5"@
    } else if d == 6 {
        "6"@
    } else if d == 7 {
        "7"@
    } else if d == 8 {
        "8"@
    } else {
        "9"@
    }
}

/// The decimal digits of a number, without leading zeros.
pub open spec fn decimal_digits(n: u32) -> Seq<char>
    decreases n,
{
    if n < 10 {
        digit(n)
    } else {
        decimal_digits(n / 10) + digit(n % 10)
    }
}

/// Whether the two texts are the same, character for character.
pub fn str_eq(a: &str, b: &str) -> (eq: bool)
    ensures
        eq == (a@ == b@),
{
    let first = a.to_owned();
    let second = b.to_owned();
    first == second
}

/// The digit that stands for a number below ten.
fn digit_of(d: u32) -> (text: &'static str)
    requires
        d < 10,
    ensures
        text@ == digit(d),
{
    if d == 0 {
        "0"
    } else if d == 1 {
        "1"
    } else if d == 2 {
        "2"
    } else if d == 3 {
        "3"
    } else if d == 4 {
        "4"
    } else if d == 5 {
        "5"
    } else if d == 6 {
        "6"
    } else if d == 7 {
        "7"
    } else if d == 8 {
        "8"
    } else {
        "9"
    }
}

/// The number in decimal.
pub fn decimal(n: u32) -> (text: String)
    ensures
        text@ == decimal_digits(n),
    decreases n,
{
    if n < 10 {
        owned(digit_of(n))
    } else {
        let head = decimal(n / 10);
        join(head.as_str(), digit_of(n % 10))
    }
}

/// The two texts, one after the other.
pub fn join(a: &str, b: &str) -> (text: String)
    ensures
        text@ == a@ + b@,
{
    let mut text = String::new();
    text.push_str(a);
    text.push_str(b);
    assert(text@ =~= a@ + b@);
    text
}

/// The text as an owned string.
pub fn owned(a: &str) -> (text: String)
    ensures
        text@ == a@,
{
    a.to_owned()
}

} // verus!

//! Names of synthesized variables and of sized builtins: a stem followed
//! by a number in decimal.

use vstd::prelude::*;

verus! {

/// The character of a decimal digit.
pub open spec fn digit(d: int) -> char {
    if d == 0 {
        '0'
    } else if d == 1 {
        '1'
    } else if d == 2 {
        '2'
    } else if d == 3 {
        '3'
    } else if d == 4 {
        '4'
    } else if d == 5 {
        '5'
    } else if d == 6 {
        '6'
    } else if d == 7 {
        '7'
    } else if d == 8 {
        '8'
    } else {
        '9'
    }
}

/// The decimal numeral of `n`, without leading zeros.
pub open spec fn decimal(n: nat) -> Seq<char>
    decreases n,
{
    if n < 10 {
        seq![digit(n as int)]
    } else {
        decimal(n / 10).push(digit((n % 10) as int))
    }
}

/// `stem` followed by the decimal numeral of `n`.
///
/// Trusted: the body formats `n` with the standard library's `Display` for
/// `usize`, which is documented to write the number in decimal; that it
/// writes exactly the digits of `decimal`, with no sign, padding or
/// separator, is assumed here, not proved.
#[verifier::external_body]
pub(crate) fn numbered(stem: &str, n: usize) -> (s: String)
    ensures
        s@ == stem@ + decimal(n as nat),
{
    format!("{}{}", stem, n)
}

} // verus!

//! Text that comes from numbers, from raw bytes and from other text.

use vstd::prelude::*;
use vstd::utf8::{decode_utf8, valid_utf8};

verus! {

/// The decimal digits of a number, most significant first.
pub open spec fn digits(n: nat) -> Seq<char>
    decreases n,
{
    if n < 10 {
        seq![(48 + n) as char]
    } else {
        digits(n / 10).push((48 + n % 10) as char)
    }
}

/// A number in decimal, with a minus sign in front where it is negative.
pub open spec fn decimal(n: int) -> Seq<char> {
    if n < 0 {
        seq!['-'] + digits((-n) as nat)
    } else {
        digits(n as nat)
    }
}

/// A number is written with its last digit behind the digits of its tenth part, a single digit is
/// written as itself, and a negative number as its opposite behind a minus sign.
pub proof fn law_decimal_is_positional(n: int)
    ensures
        0 <= n < 10 ==> decimal(n) == seq![('0' as int + n) as char],
        n >= 10 ==> decimal(n) == decimal(n / 10).push(('0' as int + n % 10) as char),
        n < 0 ==> decimal(n) == seq!['-'] + decimal(-n),
{
}

/// Writes a number with `Display` of `i32`, which is decimal.
#[verifier::external_body]
pub(crate) fn display_i32(n: i32) -> (text: String)
    ensures
        text@ == decimal(n as int),
{
    n.to_string()
}

/// What `String::from_utf8_lossy` makes of bytes.
pub uninterp spec fn utf8_lossy(bytes: Seq<u8>) -> Seq<char>;

/// Reads bytes with `String::from_utf8_lossy`: valid UTF-8 gives the text that it encodes. What
/// stands for bytes that are not valid is left to the name of the result.
#[verifier::external_body]
pub(crate) fn read_utf8_lossy(bytes: &[u8]) -> (text: String)
    ensures
        text@ == utf8_lossy(bytes@),
        valid_utf8(bytes@) ==> text@ == decode_utf8(bytes@),
{
    String::from_utf8_lossy(bytes).into_owned()
}

/// The upper case form that `str::to_uppercase` gives a text.
pub uninterp spec fn uppercase(text: Seq<char>) -> Seq<char>;

/// Puts a text into upper case with `str::to_uppercase`.
#[verifier::external_body]
pub(crate) fn to_uppercase(text: &str) -> (upper: String)
    ensures
        upper@ == uppercase(text@),
{
    text.to_uppercase()
}

} // verus!

//! Text parsing from std, with what it accepts spelled out.

use vstd::prelude::*;
use vstd::utf8::*;

verus! {

/// `std::str::Utf8Error`, carried as a cause and never looked into.
#[verifier::external_type_specification]
#[verifier::external_body]
pub struct ExUtf8Error(std::str::Utf8Error);

/// `std::num::ParseIntError`, carried as a cause and never looked into.
#[verifier::external_type_specification]
#[verifier::external_body]
pub struct ExParseIntError(std::num::ParseIntError);

/// `std::str::from_utf8`: succeeds exactly on valid UTF-8, and gives the text
/// those bytes encode.
pub assume_specification<'a>[ std::str::from_utf8 ](v: &'a [u8]) -> (r: std::result::Result<
    &'a str,
    std::str::Utf8Error,
>)
    ensures
        r is Ok <==> valid_utf8(v@),
        r matches Ok(text) ==> encode_utf8(text@) == v@,
;

/// The value of a digit in bases up to 36, in either case.
pub open spec fn digit_value(c: char) -> Option<nat> {
    if '0' <= c <= '9' {
        Some((c as nat - 48) as nat)
    } else if 'a' <= c <= 'z' {
        Some((c as nat - 87) as nat)
    } else if 'A' <= c <= 'Z' {
        Some((c as nat - 55) as nat)
    } else {
        None
    }
}

/// Whether `c` is a digit in base `radix`.
pub open spec fn is_digit(c: char, radix: nat) -> bool {
    digit_value(c) matches Some(d) && d < radix
}

/// The number that `digits` spell in base `radix`.
pub open spec fn digits_value(digits: Seq<char>, radix: nat) -> nat
    decreases digits.len(),
{
    if digits.len() == 0 {
        0
    } else {
        digits_value(digits.drop_last(), radix) * radix + digit_value(digits.last())->0
    }
}

/// The digits of a number that may be written with a leading `+`.
pub open spec fn unsigned_digits(text: Seq<char>) -> Seq<char> {
    if text.len() > 0 && text[0] == '+' {
        text.drop_first()
    } else {
        text
    }
}

/// What `text` says as an unsigned 64-bit number in base `radix`: one or more
/// digits after an optional `+`, of a value that fits.
pub open spec fn parsed_u64(text: Seq<char>, radix: nat) -> Option<u64> {
    let digits = unsigned_digits(text);
    if digits.len() > 0 && (forall|i: int| 0 <= i < digits.len() ==> is_digit(digits[i], radix))
        && digits_value(digits, radix) <= u64::MAX {
        Some(digits_value(digits, radix) as u64)
    } else {
        None
    }
}

/// `u64::from_str_radix`: accepts an optional `+` and then digits alone, as long
/// as the value fits, and panics on a radix outside 2 to 36.
pub assume_specification[ u64::from_str_radix ](src: &str, radix: u32) -> (r: std::result::Result<
    u64,
    std::num::ParseIntError,
>)
    requires
        2 <= radix <= 36,
    ensures
        r is Ok <==> parsed_u64(src@, radix as nat) is Some,
        r matches Ok(n) ==> parsed_u64(src@, radix as nat) == Some(n),
;

} // verus!

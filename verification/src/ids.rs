//! Fresh identifiers, their text, and the time.

use vstd::arithmetic::power::pow;
use vstd::prelude::*;

verus! {

/// `uuid::Uuid::now_v7`: a new identifier. It depends on the time and on
/// chance, so nothing is claimed of it.
#[verifier::external_body]
pub(crate) fn fresh_id() -> (r: u128) {
    uuid::Uuid::now_v7().as_u128()
}

/// `chrono::Utc::now`: the time in microseconds. Nothing is claimed of it.
#[verifier::external_body]
pub(crate) fn now_micros() -> (r: i64) {
    chrono::Utc::now().timestamp_micros()
}

/// The lower-case hexadecimal digit for `d`.
pub open spec fn hex_digit(d: int) -> char {
    if d < 10 {
        ('0' as int + d) as char
    } else {
        ('a' as int + d - 10) as char
    }
}

/// Which of the 32 hexadecimal digits stands at `i` of an identifier's text.
pub open spec fn digit_place(i: int) -> int {
    if i < 8 {
        i
    } else if i < 13 {
        i - 1
    } else if i < 18 {
        i - 2
    } else if i < 23 {
        i - 3
    } else {
        i - 4
    }
}

/// The text of an identifier: 32 hexadecimal digits, the highest first, in
/// groups of 8, 4, 4, 4 and 12 with hyphens between them.
pub open spec fn id_chars(raw: u128) -> Seq<char> {
    Seq::new(
        36,
        |i: int|
            if i == 8 || i == 13 || i == 18 || i == 23 {
                '-'
            } else {
                hex_digit((raw as int / pow(16, (31 - digit_place(i)) as nat)) % 16)
            },
    )
}

/// `Display` of `uuid::Uuid`: the hyphenated text of the identifier in lower
/// case.
#[verifier::external_body]
pub(crate) fn id_text(raw: u128) -> (r: String)
    ensures
        r@ == id_chars(raw),
{
    uuid::Uuid::from_u128(raw).to_string()
}

} // verus!

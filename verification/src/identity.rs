//! Identifiers of calls and callbacks.
//!
//! An identifier is a 128-bit number. New ones are drawn at random, and are
//! written as 32 hexadecimal digits in five groups.

use vstd::arithmetic::power::pow;
use vstd::prelude::*;

verus! {

/// Whether `id` has the marks of an identifier drawn at random: the digit
/// that tells the version is 4, and the two bits that tell the variant are 1
/// and 0.
pub open spec fn drawn_at_random(id: u128) -> bool {
    &&& (id / 0x1000_0000_0000_0000_0000) % 16 == 4
    &&& (id / 0x4000_0000_0000_0000) % 4 == 2
}

/// The character for a hexadecimal digit, in lower case.
pub open spec fn hex_char(digit: int) -> char
    recommends
        0 <= digit < 16,
{
    if digit < 10 {
        ((48 + digit) as u8) as char
    } else {
        ((87 + digit) as u8) as char
    }
}

/// The `k`-th of the 32 hexadecimal digits of `id`, the most significant
/// being the first.
pub open spec fn id_digit(id: u128, k: int) -> int
    recommends
        0 <= k < 32,
{
    (id as int / pow(16, (31 - k) as nat)) % 16
}

/// How many hyphens stand before place `i` of an identifier's text.
pub open spec fn hyphens_before(i: int) -> int {
    if i < 8 {
        0
    } else if i < 13 {
        1
    } else if i < 18 {
        2
    } else if i < 23 {
        3
    } else {
        4
    }
}

/// An identifier as text: its 32 hexadecimal digits in lower case, in
/// groups of 8, 4, 4, 4 and 12 with a hyphen between two groups.
pub open spec fn id_text(id: u128) -> Seq<char> {
    Seq::new(
        36,
        |i: int|
            if i == 8 || i == 13 || i == 18 || i == 23 {
                '-'
            } else {
                hex_char(id_digit(id, i - hyphens_before(i)))
            },
    )
}

/// Draws a new identifier.
///
/// Calls `uuid::Uuid::new_v4` and takes the result's `as_u128`. The number is
/// random; the contract claims only the version and variant marks that every
/// identifier made this way carries. `new_v4` panics on a machine that can
/// supply no randomness.
#[verifier::external_body]
pub(crate) fn draw_id() -> (id: u128)
    ensures
        drawn_at_random(id),
{
    uuid::Uuid::new_v4().as_u128()
}

/// Writes an identifier as text.
///
/// Calls `uuid::Uuid::from_u128` and formats the result in the hyphenated
/// form, which is also how `Uuid` displays itself. The contract claims that
/// this is the lower-case hexadecimal text that `id_text` describes.
#[verifier::external_body]
pub(crate) fn write_id(id: u128) -> (text: String)
    ensures
        text@ == id_text(id),
{
    uuid::Uuid::from_u128(id).hyphenated().to_string()
}

} // verus!

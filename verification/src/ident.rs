//! The 128-bit identifier of an attribute, and the text that stands for it on
//! the wire.

use vstd::prelude::*;

verus! {

/// The character of one hexadecimal digit, in lower case.
pub open spec fn hex_char(d: nat) -> char {
    if d == 0 {
        '0'
    } else if d == 1 {
        '1'
    } else if d == 2 {
        '2'
    } else if d == 3 {
        '3'
    } else if d == 4 {
        '4'
    } else if d == 5 {
        '5'
    } else if d == 6 {
        '6'
    } else if d == 7 {
        '7'
    } else if d == 8 {
        '8'
    } else if d == 9 {
        '9'
    } else if d == 10 {
        'a'
    } else if d == 11 {
        'b'
    } else if d == 12 {
        'c'
    } else if d == 13 {
        'd'
    } else if d == 14 {
        'e'
    } else {
        'f'
    }
}

/// Sixteen to the power of `e`.
pub open spec fn pow16(e: nat) -> nat
    decreases e,
{
    if e == 0 {
        1
    } else {
        16 * pow16((e - 1) as nat)
    }
}

/// The hexadecimal digit of `value` at position `k`, counted from the most
/// significant of its thirty-two.
pub open spec fn hex_digit_at(value: u128, k: nat) -> nat {
    ((value as nat) / pow16((31 - k) as nat)) % 16
}

/// Whether a hyphen stands at position `i` of an identifier's text.
pub open spec fn hyphen_at(i: int) -> bool {
    i == 8 || i == 13 || i == 18 || i == 23
}

/// How many hyphens stand before position `i` of an identifier's text.
pub open spec fn hyphens_before(i: int) -> int {
    if i < 8 {
        0
    } else if i < 13 {
        1
    } else if i < 18 {
        2
    } else if i < 23 {
        3
    } else {
        4
    }
}

/// The text of an identifier: its thirty-two hexadecimal digits in lower
/// case, most significant first, in groups of 8, 4, 4, 4 and 12 that hyphens
/// separate.
pub open spec fn uuid_text(value: u128) -> Seq<char> {
    Seq::new(
        36,
        |i: int|
            if hyphen_at(i) {
                '-'
            } else {
                hex_char(hex_digit_at(value, (i - hyphens_before(i)) as nat))
            },
    )
}

/// `uuid::Uuid::to_string` on the identifier that `uuid::Uuid::from_u128`
/// makes of `value`: the hyphenated lower-case form of its sixteen bytes,
/// most significant first.
#[verifier::external_body]
fn hyphenated(value: u128) -> (text: String)
    ensures
        text@ == uuid_text(value),
{
    ::uuid::Uuid::from_u128(value).to_string()
}

/// Writes an identifier as it goes on the wire.
pub fn uuid_string(value: u128) -> (text: String)
    ensures
        text@ == uuid_text(value),
        text@.len() == 36,
{
    hyphenated(value)
}

} // verus!

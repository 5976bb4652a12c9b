//! Identifiers and timestamps minted for traces and sessions.

use crate::flags::Timestamp;
use vstd::prelude::*;

verus! {

/// Identifies one trace: a 128-bit random identifier.
pub type TraceId = u128;

/// Identifies one session: a 128-bit random identifier.
pub type SessionId = u128;

/// Whether the version and variant bits of `id` are those of a random
/// (version 4, RFC variant) identifier.
pub open spec fn is_random_id(id: u128) -> bool {
    id & 0xF000_C000_0000_0000_0000u128 == 0x4000_8000_0000_0000_0000u128
}

/// Calls `uuid::Uuid::new_v4` and `Uuid::as_u128`. Trusted: the identifier
/// carries the version and variant bits of a random identifier; the other
/// 122 bits are random, so nothing is claimed of them.
#[verifier::external_body]
pub(crate) fn new_random_id() -> (id: u128)
    ensures
        is_random_id(id),
{
    uuid::Uuid::new_v4().as_u128()
}

/// Calls `chrono::Utc::now`, `DateTime::timestamp` and
/// `DateTime::timestamp_subsec_nanos`. Nothing is claimed of the time read.
#[verifier::external_body]
pub(crate) fn now() -> (time: Timestamp) {
    let t = chrono::Utc::now();
    Timestamp { secs: t.timestamp(), nanos: t.timestamp_subsec_nanos() }
}

/// The character of a hexadecimal digit, in lower case.
pub open spec fn hex_char(digit: u128) -> char {
    if digit == 0 {
        '0'
    } else if digit == 1 {
        '1'
    } else if digit == 2 {
        '2'
    } else if digit == 3 {
        '3'
    } else if digit == 4 {
        '4'
    } else if digit == 5 {
        '5'
    } else if digit == 6 {
        '6'
    } else if digit == 7 {
        '7'
    } else if digit == 8 {
        '8'
    } else if digit == 9 {
        '9'
    } else if digit == 10 {
        'a'
    } else if digit == 11 {
        'b'
    } else if digit == 12 {
        'c'
    } else if digit == 13 {
        'd'
    } else if digit == 14 {
        'e'
    } else {
        'f'
    }
}

/// The hexadecimal digit of `id` at `place`, counted from the most
/// significant of its 32 digits.
pub open spec fn hex_digit_at(id: u128, place: int) -> u128 {
    (id >> ((4 * (31 - place)) as u128)) & 0xFu128
}

/// An identifier in its usual written form: 32 hexadecimal digits in lower
/// case, most significant first, in groups of 8, 4, 4, 4 and 12 with a hyphen
/// between groups.
pub open spec fn hyphenated(id: u128) -> Seq<char> {
    Seq::new(
        36,
        |i: int|
            if i == 8 || i == 13 || i == 18 || i == 23 {
                '-'
            } else if i < 8 {
                hex_char(hex_digit_at(id, i))
            } else if i < 13 {
                hex_char(hex_digit_at(id, i - 1))
            } else if i < 18 {
                hex_char(hex_digit_at(id, i - 2))
            } else if i < 23 {
                hex_char(hex_digit_at(id, i - 3))
            } else {
                hex_char(hex_digit_at(id, i - 4))
            },
    )
}

/// Calls `uuid::Uuid::from_u128` and the identifier's `to_string`. Trusted:
/// the text is the hyphenated lower-case form of the identifier.
#[verifier::external_body]
pub(crate) fn id_text(id: u128) -> (text: String)
    ensures
        text@ == hyphenated(id),
{
    uuid::Uuid::from_u128(id).to_string()
}

} // verus!

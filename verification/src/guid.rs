//! Globally unique identifiers of mods, and their textual form.

use vstd::prelude::*;
use crate::text::digit_char;

verus! {

/// A 128-bit identifier: the value of a UUID, most significant byte first.
pub type Guid = u128;

/// The identifier that the `uuid` crate reads from a text, if it reads one.
/// It accepts the hyphenated form and several others.
pub uninterp spec fn guid_of_text(text: Seq<char>) -> Option<Guid>;

/// The character that writes the hexadecimal digit `d`, in lower case.
pub open spec fn hex_char(d: int) -> char {
    if d < 10 {
        digit_char(d)
    } else if d == 10 {
        'a'
    } else if d == 11 {
        'b'
    } else if d == 12 {
        'c'
    } else if d == 13 {
        'd'
    } else if d == 14 {
        'e'
    } else {
        'f'
    }
}

/// The `k`-th of the 32 hexadecimal digits of `g`, the most significant
/// being the one with `k == 0`.
pub open spec fn hex_digit(g: Guid, k: int) -> int {
    (g as int / vstd::arithmetic::power::pow(16, (31 - k) as nat)) % 16
}

/// How many hyphens stand before position `i` of the hyphenated form.
pub open spec fn hyphens_before(i: int) -> int {
    if i < 8 {
        0
    } else if i < 13 {
        1
    } else if i < 18 {
        2
    } else if i < 23 {
        3
    } else {
        4
    }
}

/// The hyphenated form of `g`: 32 lower-case hexadecimal digits in groups
/// of 8, 4, 4, 4 and 12, with a hyphen between the groups.
pub open spec fn guid_text(g: Guid) -> Seq<char> {
    Seq::new(
        36,
        |i: int|
            if i == 8 || i == 13 || i == 18 || i == 23 {
                '-'
            } else {
                hex_char(hex_digit(g, i - hyphens_before(i)))
            },
    )
}

/// Reads an identifier with `uuid::Uuid::parse_str` and takes its value with
/// `Uuid::as_u128`. Trusted: the result is what that parser makes of the text,
/// `None` where it rejects it.
#[verifier::external_body]
pub(crate) fn parse_guid(text: &str) -> (r: Option<Guid>)
    ensures
        r == guid_of_text(text@),
{
    match uuid::Uuid::parse_str(text) {
        Ok(id) => Some(id.as_u128()),
        Err(_) => None,
    }
}

/// Writes an identifier with `uuid::Uuid::from_u128` and the `Display` of
/// `Uuid`. Trusted: the result is the lower-case hyphenated form, and the
/// parser of the same crate reads the identifier back from it.
#[verifier::external_body]
pub(crate) fn format_guid(g: Guid) -> (r: String)
    ensures
        r@ == guid_text(g),
        guid_of_text(r@) == Some(g),
{
    uuid::Uuid::from_u128(g).to_string()
}

/// Draws a random identifier with `uuid::Uuid::new_v4`. Trusted: whatever is
/// drawn, the version digit is 4 and the two variant bits are `10`.
#[verifier::external_body]
pub(crate) fn fresh_guid() -> (r: Guid)
    ensures
        hex_digit(r, 12) == 4,
        8 <= hex_digit(r, 16) < 12,
{
    uuid::Uuid::new_v4().as_u128()
}

} // verus!

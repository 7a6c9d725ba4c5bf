//! Connection identifiers: 128-bit UUIDs, read and written through the `uuid` crate.
use vstd::prelude::*;
use crate::text::digit_char;

verus! {

/// What `uuid::Uuid::parse_str` makes of a text: the UUID's 128-bit value, or nothing.
pub uninterp spec fn uuid_parse(text: Seq<char>) -> Option<u128>;

/// The lower-case hexadecimal digit for `d` (0 to 15).
pub open spec fn hex_char(d: u128) -> char {
    if d < 10 {
        digit_char(d as nat)
    } else if d == 10 {
        'a'
    } else if d == 11 {
        'b'
    } else if d == 12 {
        'c'
    } else if d == 13 {
        'd'
    } else if d == 14 {
        'e'
    } else {
        'f'
    }
}

/// The `k`-th of the 32 hexadecimal digits of `id` (0 to 31), most significant first.
pub open spec fn nibble(id: u128, k: int) -> u128 {
    (id >> ((124 - 4 * k) as u128)) & 0xf
}

/// How many hyphens of the hyphenated form stand before position `i`.
pub open spec fn hyphens_before(i: int) -> int {
    if i > 23 {
        4
    } else if i > 18 {
        3
    } else if i > 13 {
        2
    } else if i > 8 {
        1
    } else {
        0
    }
}

/// The hyphenated lower-case form of a 128-bit value, as `uuid::Uuid`'s `Display` writes
/// it: its 32 hexadecimal digits, most significant first, in groups of 8, 4, 4, 4 and 12
/// separated by hyphens.
pub open spec fn uuid_text(id: u128) -> Seq<char> {
    Seq::new(
        36,
        |i: int|
            if i == 8 || i == 13 || i == 18 || i == 23 {
                '-'
            } else {
                hex_char(nibble(id, i - hyphens_before(i)))
            },
    )
}

/// Whether `c` may occur in a hyphenated lower-case UUID.
pub open spec fn is_uuid_char(c: char) -> bool {
    c == '-' || ('0' <= c && c <= '9') || ('a' <= c && c <= 'f')
}

/// Calls `uuid::Uuid::parse_str` and takes the parsed UUID's 128-bit value.
///
/// Trusted: the value is the named result `uuid_parse`; and a text that is the hyphenated
/// form of a UUID parses back to that UUID, which the crate's documentation promises of
/// the formats it accepts.
#[verifier::external_body]
pub fn parse_uuid(text: &str) -> (r: Option<u128>)
    ensures
        r == uuid_parse(text@),
        forall|id: u128| text@ == #[trigger] uuid_text(id) ==> r == Some(id),
{
    uuid::Uuid::parse_str(text).ok().map(|id| id.as_u128())
}

/// Calls `uuid::Uuid::from_u128` and formats the UUID with `to_string`.
///
/// Trusted: the text is the hyphenated lower-case form `uuid_text` of the value, which is
/// how the crate's `Display` writes a UUID made with `from_u128`; so it has 36 characters,
/// each a lower-case hexadecimal digit or a hyphen.
#[verifier::external_body]
pub fn uuid_string(id: u128) -> (r: String)
    ensures
        r@ == uuid_text(id),
        r@.len() == 36,
        forall|i: int| 0 <= i < 36 ==> is_uuid_char(#[trigger] r@[i]),
{
    uuid::Uuid::from_u128(id).to_string()
}

} // verus!

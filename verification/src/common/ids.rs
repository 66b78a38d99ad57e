//! Identifiers: UUIDs are held as their 128-bit value; text conversion goes through the
//! `uuid` crate.
use vstd::prelude::*;
use crate::common::random::os_random_bytes;

verus! {

/// The lower-case hex digit of `n < 16`.
pub open spec fn lower_hex_digit(n: int) -> char {
    if n < 10 {
        ('0' as int + n) as char
    } else {
        ('a' as int + n - 10) as char
    }
}

/// Which of the 32 hex digits of a UUID (most significant first) stands at position `i`
/// of its hyphenated text.
pub open spec fn uuid_digit_at(i: int) -> int {
    if i < 8 {
        i
    } else if i < 13 {
        i - 1
    } else if i < 18 {
        i - 2
    } else if i < 23 {
        i - 3
    } else {
        i - 4
    }
}

/// The hyphenated lower-case text of a UUID (`Uuid`'s `Display`): its 32 hex digits, most
/// significant first, in groups of 8, 4, 4, 4 and 12 joined by `-`.
pub open spec fn uuid_display(id: u128) -> Seq<char> {
    Seq::new(
        36,
        |i: int|
            if i == 8 || i == 13 || i == 18 || i == 23 {
                '-'
            } else {
                lower_hex_digit(((id >> ((124 - 4 * uuid_digit_at(i)) as u128)) & 0xf) as int)
            },
    )
}

/// What `Uuid::parse_str` makes of a text: the UUID, or `None`.
pub uninterp spec fn uuid_parsed(text: Seq<char>) -> Option<u128>;

/// The text of the error `Uuid::parse_str` reports for a text it refuses.
pub uninterp spec fn uuid_parse_error(text: Seq<char>) -> Seq<char>;

/// The text of a UUID (`Uuid::from_u128(id).to_string()`).
#[verifier::external_body]
pub(crate) fn uuid_text(id: u128) -> (t: String)
    ensures
        t@ == uuid_display(id),
{
    uuid::Uuid::from_u128(id).to_string()
}

/// Parses a UUID in any of the forms `Uuid::parse_str` accepts; the error is the
/// parser's message.
#[verifier::external_body]
pub(crate) fn parse_uuid(text: &str) -> (r: Result<u128, String>)
    ensures
        match r {
            Ok(id) => uuid_parsed(text@) == Some(id),
            Err(e) => uuid_parsed(text@) is None && e@ == uuid_parse_error(text@),
        },
{
    match uuid::Uuid::parse_str(text) {
        Ok(u) => Ok(u.as_u128()),
        Err(e) => Err(e.to_string()),
    }
}

/// The big-endian value of some bytes.
pub open spec fn big_endian(bytes: Seq<u8>) -> int
    decreases bytes.len(),
{
    if bytes.len() == 0 {
        0
    } else {
        big_endian(bytes.drop_last()) * 256 + bytes.last() as int
    }
}

/// The version-4 UUID that `Builder::from_random_bytes` makes of 16 bytes: the bytes with
/// the version (high half of byte 6) set to 4 and the variant (top two bits of byte 8)
/// set to `10`, read big-endian.
pub open spec fn random_uuid(bytes: Seq<u8>) -> u128 {
    big_endian(bytes.update(6, (bytes[6] & 0x0f) | 0x40).update(8, (bytes[8] & 0x3f) | 0x80)) as u128
}

/// `Builder::from_random_bytes(bytes).into_uuid()`, as its 128-bit value.
#[verifier::external_body]
fn uuid_from_random_bytes(bytes: &[u8]) -> (id: u128)
    requires
        bytes@.len() == 16,
    ensures
        id == random_uuid(bytes@),
{
    let mut raw = [0u8; 16];
    raw.copy_from_slice(bytes);
    uuid::Builder::from_random_bytes(raw).into_uuid().as_u128()
}

/// A random version-4 UUID, made of 16 bytes of the operating system's random source;
/// `None` when the source fails.
pub fn new_v4() -> (id: Option<u128>)
    ensures
        id matches Some(v) ==> exists|b: Seq<u8>| b.len() == 16 && v == random_uuid(b),
{
    match os_random_bytes(16) {
        Some(bytes) => Some(uuid_from_random_bytes(bytes.as_slice())),
        None => None,
    }
}

} // verus!

//! Object identifiers. An identifier is a UUID, held as its 128-bit
//! big-endian value; text forms go through the `uuid` crate.

use vstd::prelude::*;
use crate::text::{ascii_lower_text, hex_char_value, is_hex_char, lower_hex_digit};
use crate::error::Error;

verus! {

/// An object identifier: the 128-bit value of a UUID (most significant
/// byte first, as `uuid::Uuid::as_u128` gives it).
pub type ObjectId = u128;

/// The four bits of `v` at hexadecimal position `k`, counting from the
/// most significant digit (`0 <= k < 32`).
pub open spec fn nibble_at(v: u128, k: int) -> u8 {
    ((v >> ((4 * (31 - k)) as u128)) & 15) as u8
}

/// The 32 lower-case hexadecimal digits of `v`, most significant first.
pub open spec fn simple_hex(v: u128) -> Seq<char> {
    Seq::new(32, |k: int| lower_hex_digit(nibble_at(v, k)))
}

/// The value of hexadecimal digits (either case), most significant first.
pub open spec fn hex_digits_value(s: Seq<char>) -> nat
    decreases s.len(),
{
    if s.len() == 0 {
        0
    } else {
        hex_digits_value(s.drop_last()) * 16 + hex_char_value(s.last()) as nat
    }
}

/// Thirty-two hexadecimal digits, read as an identifier.
pub open spec fn hex_uuid(d: Seq<char>) -> Option<u128> {
    if d.len() == 32 && forall|i: int| 0 <= i < 32 ==> is_hex_char(#[trigger] d[i]) {
        Some(hex_digits_value(d) as u128)
    } else {
        None
    }
}

/// The digits of a hyphenated form (groups of 8, 4, 4, 4 and 12 joined by
/// `-`), `None` when the dashes are misplaced.
pub open spec fn hyphenated_digits(s: Seq<char>) -> Option<Seq<char>> {
    if s.len() == 36 && s[8] == '-' && s[13] == '-' && s[18] == '-' && s[23] == '-' {
        Some(
            s.subrange(0, 8) + s.subrange(9, 13) + s.subrange(14, 18) + s.subrange(19, 23)
                + s.subrange(24, 36),
        )
    } else {
        None
    }
}

/// A hyphenated form read as an identifier.
pub open spec fn hyphenated_uuid(s: Seq<char>) -> Option<u128> {
    match hyphenated_digits(s) {
        Some(d) => hex_uuid(d),
        None => None,
    }
}

/// The value that `uuid::Uuid::parse_str` gives for `text`, `None` when it
/// refuses the text: 32 hexadecimal digits; the hyphenated form; the
/// hyphenated form in braces; or `urn:uuid:` (in either case) followed by
/// the hyphenated form. Digits may be of either case.
pub open spec fn uuid_text_value(text: Seq<char>) -> Option<u128> {
    if text.len() == 32 {
        hex_uuid(text)
    } else if text.len() == 36 {
        hyphenated_uuid(text)
    } else if text.len() == 38 && text[0] == '{' && text[37] == '}' {
        hyphenated_uuid(text.subrange(1, 37))
    } else if text.len() == 45 && ascii_lower_text(text.take(9)) == seq![
        'u',
        'r',
        'n',
        ':',
        'u',
        'u',
        'i',
        'd',
        ':',
    ] {
        hyphenated_uuid(text.skip(9))
    } else {
        None
    }
}

/// Parses UUID text.
///
/// Trusted: calls `uuid::Uuid::parse_str` and `Uuid::as_u128`. The crate's
/// `try_parse` dispatches on the length (32, 36, 38 braced, 45 with a
/// case-insensitive `urn:uuid:` prefix), checks the dashes of the
/// hyphenated form and decodes the 32 digits in either case, most
/// significant first; non-ASCII text fails at the digits. The contract
/// states that as [`uuid_text_value`].
#[verifier::external_body]
pub(crate) fn parse_uuid_text(text: &str) -> (r: Option<u128>)
    ensures
        r == uuid_text_value(text@),
{
    match uuid::Uuid::parse_str(text) {
        Ok(id) => Some(id.as_u128()),
        Err(_) => None,
    }
}

/// The simple (un-hyphenated) text form of an identifier.
///
/// Trusted: calls `uuid::Uuid::from_u128(id).simple().to_string()`. The
/// crate writes the sixteen big-endian bytes as two lower-case hexadecimal
/// digits each (`format_simple` with `nibble_to_hex`), which is what the
/// contract states.
#[verifier::external_body]
pub(crate) fn uuid_simple_text(id: u128) -> (r: String)
    ensures
        r@ == simple_hex(id),
{
    uuid::Uuid::from_u128(id).simple().to_string()
}

/// The hyphenated text form: the 32 digits of [`simple_hex`] in groups of
/// 8, 4, 4, 4 and 12, joined by `-`.
pub open spec fn hyphenated_hex(v: u128) -> Seq<char> {
    let s = simple_hex(v);
    s.subrange(0, 8) + seq!['-'] + s.subrange(8, 12) + seq!['-'] + s.subrange(12, 16) + seq!['-']
        + s.subrange(16, 20) + seq!['-'] + s.subrange(20, 32)
}

/// The version number of a UUID: the high four bits of its seventh byte.
pub open spec fn version_of(v: u128) -> u8 {
    nibble_at(v, 12)
}

/// A UUID of the RFC 4122 variant: the top two bits of its ninth byte are
/// `10`.
pub open spec fn is_rfc4122_variant(v: u128) -> bool {
    8 <= nibble_at(v, 16) < 12
}

/// The hyphenated text form of an identifier.
///
/// Trusted: calls `uuid::Uuid::from_u128(id).to_string()`. `Display` for
/// `Uuid` writes the lower-case hyphenated form (`format_hyphenated`: the
/// simple digits with `-` after the 8th, 12th, 16th and 20th), which is what
/// the contract states; and `Uuid::parse_str` reads that form back as the
/// same identifier.
#[verifier::external_body]
pub(crate) fn uuid_hyphenated_text(id: u128) -> (r: String)
    ensures
        r@ == hyphenated_hex(id),
        uuid_text_value(r@) == Some(id),
{
    uuid::Uuid::from_u128(id).to_string()
}

/// The version number of an identifier.
///
/// Trusted: calls `uuid::Uuid::get_version_num`, which the crate computes as
/// `(self.as_bytes()[6] >> 4) as usize`.
#[verifier::external_body]
pub(crate) fn uuid_version_num(id: u128) -> (r: usize)
    ensures
        r == version_of(id),
{
    uuid::Uuid::from_u128(id).get_version_num()
}

/// Whether an identifier is of the RFC 4122 variant.
///
/// Trusted: calls `uuid::Uuid::get_variant` and tells `Variant::RFC4122`
/// from the others; the crate returns it exactly when
/// `as_bytes()[8] & 0xc0 == 0x80`.
#[verifier::external_body]
pub(crate) fn uuid_is_rfc4122(id: u128) -> (r: bool)
    ensures
        r == is_rfc4122_variant(id),
{
    matches!(uuid::Uuid::from_u128(id).get_variant(), uuid::Variant::RFC4122)
}

/// The value of bytes read as a big-endian number.
pub open spec fn be_value(bytes: Seq<u8>) -> nat
    decreases bytes.len(),
{
    if bytes.len() == 0 {
        0
    } else {
        be_value(bytes.drop_last()) * 256 + bytes.last() as nat
    }
}

/// The identifier held in sixteen bytes, most significant first; `None`
/// for any other length.
///
/// Trusted: calls `uuid::Uuid::from_slice` and `Uuid::as_u128`. The crate
/// refuses a slice whose length is not 16 and otherwise copies the bytes,
/// and `as_u128` reads them with `u128::from_be_bytes`.
#[verifier::external_body]
fn uuid_from_slice(bytes: &[u8]) -> (r: Option<u128>)
    ensures
        r == (if bytes@.len() == 16 {
            Some(be_value(bytes@) as u128)
        } else {
            None
        }),
{
    match uuid::Uuid::from_slice(bytes) {
        Ok(id) => Some(id.as_u128()),
        Err(_) => None,
    }
}

/// Reads a stored object identifier: exactly sixteen bytes, most
/// significant first.
pub fn object_id_from_bytes(bytes: &[u8]) -> (r: Result<ObjectId, Error>)
    ensures
        r == (if bytes@.len() == 16 {
            Ok::<ObjectId, Error>(be_value(bytes@) as u128)
        } else {
            Err(Error::InvalidUuid("object_id"))
        }),
{
    match uuid_from_slice(bytes) {
        Some(id) => Ok(id),
        None => Err(Error::InvalidUuid("object_id")),
    }
}

} // verus!

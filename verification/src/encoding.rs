//! Byte and text encodings that the discovery payload is made of.
//!
//! Everything here is a thin, trusted boundary: each function makes one call
//! into `base64`, `hex`, `byteorder` or `std`, and its contract is believed,
//! not proved. The contracts say what the rest of the crate relies on.

use byteorder::{BigEndian, ByteOrder};
use vstd::prelude::*;
use vstd::utf8::*;

verus! {

/// The text that `base64::encode` produces for `data`
/// (standard alphabet, padded).
pub uninterp spec fn base64_text(data: Seq<u8>) -> Seq<char>;

/// The outcome of `base64::decode` on `text`: the decoded bytes, or `None`
/// where the crate reports an error.
pub uninterp spec fn base64_bytes(text: Seq<u8>) -> Option<Seq<u8>>;

/// The lower-case hexadecimal digit for a value below sixteen.
pub open spec fn hex_digit(nibble: int) -> char {
    if nibble < 10 {
        (nibble + 48) as char
    } else {
        (nibble + 87) as char
    }
}

/// Lower-case hexadecimal text: two digits per byte, high nibble first.
pub open spec fn hex_text(data: Seq<u8>) -> Seq<char> {
    Seq::new(
        2 * data.len(),
        |i: int|
            hex_digit(
                if i % 2 == 0 {
                    data[i / 2] as int / 16
                } else {
                    data[i / 2] as int % 16
                },
            ),
    )
}

/// Longest input whose padded base64 text still has a length that fits in
/// `usize`.
pub open spec fn base64_encodable(len: nat) -> bool {
    len / 3 * 4 + 4 <= usize::MAX
}

/// Trusted: `base64::encode`.
///
/// Claims that the result is the crate's encoding of `data`, that it is
/// ASCII text of four characters for every started group of three bytes, and
/// that `base64::decode` turns its bytes back into `data`. The crate aborts
/// when the text length overflows; `requires` leaves such inputs out.
#[verifier::external_body]
pub(crate) fn base64_encode(data: &[u8]) -> (text: String)
    requires
        base64_encodable(data@.len()),
    ensures
        text@ == base64_text(data@),
        is_ascii_chars(text@),
        text@.len() == (data@.len() + 2) / 3 * 4,
        base64_bytes(encode_utf8(text@)) == Some(data@),
{
    base64::encode(data)
}

/// Trusted: `base64::decode`.
///
/// Claims only that the result is the crate's verdict on `text`. The crate
/// rounds the input length up to a multiple of eight before it decodes;
/// `requires` keeps that sum within `usize`.
#[verifier::external_body]
pub(crate) fn base64_decode(text: &[u8]) -> (data: Option<Vec<u8>>)
    requires
        text@.len() + 7 <= usize::MAX,
    ensures
        match data {
            Some(bytes) => base64_bytes(text@) == Some(bytes@),
            None => base64_bytes(text@) is None,
        },
{
    base64::decode(text).ok()
}

/// Trusted: `hex::encode`.
///
/// Claims that every byte becomes two lower-case hexadecimal digits, high
/// nibble first, as the crate documents.
#[verifier::external_body]
pub(crate) fn hex_encode(data: &[u8]) -> (text: String)
    ensures
        text@ == hex_text(data@),
{
    hex::encode(data)
}

/// Trusted: `byteorder::BigEndian::write_u16`.
///
/// Claims that the high byte comes first.
#[verifier::external_body]
pub(crate) fn u16_to_be(value: u16) -> (bytes: [u8; 2])
    ensures
        bytes@[0] == value / 256,
        bytes@[1] == value % 256,
{
    let mut bytes: [u8; 2] = [0; 2];
    BigEndian::write_u16(&mut bytes, value);
    bytes
}

/// Trusted: `byteorder::BigEndian::read_u16`.
///
/// Claims that two bytes are read as one number, high byte first.
#[verifier::external_body]
pub(crate) fn u16_from_be(high: u8, low: u8) -> (value: u16)
    ensures
        value == high * 256 + low,
{
    BigEndian::read_u16(&[high, low])
}

/// Trusted: `String::from_utf8`.
///
/// Claims that it succeeds exactly on well-formed UTF-8, and that the string
/// then encodes to the bytes it was given.
#[verifier::external_body]
pub(crate) fn utf8_string(bytes: Vec<u8>) -> (text: Option<String>)
    ensures
        text is Some <==> valid_utf8(bytes@),
        text matches Some(s) ==> encode_utf8(s@) == bytes@,
{
    String::from_utf8(bytes).ok()
}

} // verus!

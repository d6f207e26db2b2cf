//! Base64 and percent-encoding of text, as the `base64` and `urlencoding`
//! crates perform them.

use base64::engine::general_purpose::STANDARD;
use base64::Engine;
use vstd::prelude::*;
use vstd::utf8::*;

verus! {

/// The standard, padded Base64 text of a byte sequence.
pub uninterp spec fn base64_text(bytes: Seq<u8>) -> Seq<char>;

/// The bytes that a standard Base64 text stands for, if it is well formed.
pub uninterp spec fn base64_bytes(text: Seq<char>) -> Option<Seq<u8>>;

/// `Engine::encode` of `base64` on the `STANDARD` engine, applied to the
/// UTF-8 bytes of `text`. Trusted: the result is the Base64 text of those
/// bytes, and that text decodes to the same bytes again.
#[verifier::external_body]
pub(crate) fn base64_encode(text: &str) -> (out: String)
    ensures
        out@ == base64_text(encode_utf8(text@)),
        base64_bytes(out@) == Some(encode_utf8(text@)),
{
    STANDARD.encode(text)
}

/// `Engine::decode` of `base64` on the `STANDARD` engine. Trusted: it
/// succeeds exactly on well-formed text and then returns the bytes the text
/// stands for.
#[verifier::external_body]
pub(crate) fn base64_decode(text: &str) -> (out: Option<Vec<u8>>)
    ensures
        match out {
            Some(bytes) => base64_bytes(text@) == Some(bytes@),
            None => base64_bytes(text@).is_none(),
        },
{
    STANDARD.decode(text).ok()
}

/// `String::from_utf8`. Trusted: it succeeds exactly on valid UTF-8 and then
/// returns the text that the bytes encode.
#[verifier::external_body]
pub(crate) fn string_from_utf8(bytes: Vec<u8>) -> (out: Option<String>)
    ensures
        match out {
            Some(s) => valid_utf8(bytes@) && s@ == decode_utf8(bytes@),
            None => !valid_utf8(bytes@),
        },
{
    String::from_utf8(bytes).ok()
}

/// The text behind a Base64 payload: `None` where the payload is not Base64
/// or its bytes are not UTF-8.
pub open spec fn decoded_text(payload: Seq<char>) -> Option<Seq<char>> {
    match base64_bytes(payload) {
        Some(bytes) => if valid_utf8(bytes) {
            Some(decode_utf8(bytes))
        } else {
            None
        },
        None => None,
    }
}

/// Why a Base64 payload could not be turned back into text.
#[derive(Debug, Clone, Copy, PartialEq, Eq, Structural)]
pub enum PayloadError {
    /// The payload is not well-formed Base64.
    NotBase64,
    /// The decoded bytes are not UTF-8.
    NotUtf8,
}

/// Decodes a Base64 payload into the text it carries.
pub fn decode_payload(payload: &str) -> (out: Result<String, PayloadError>)
    ensures
        match out {
            Ok(s) => decoded_text(payload@) == Some(s@),
            Err(PayloadError::NotBase64) => base64_bytes(payload@).is_none(),
            Err(PayloadError::NotUtf8) => base64_bytes(payload@).is_some() && !valid_utf8(
                base64_bytes(payload@).unwrap(),
            ),
        },
{
    match base64_decode(payload) {
        Some(bytes) => match string_from_utf8(bytes) {
            Some(s) => Ok(s),
            None => Err(PayloadError::NotUtf8),
        },
        None => Err(PayloadError::NotBase64),
    }
}

/// Encoding a text and decoding the payload gives the text back.
pub proof fn lemma_payload_round_trip(text: Seq<char>, payload: Seq<char>)
    requires
        base64_bytes(payload) == Some(encode_utf8(text)),
    ensures
        decoded_text(payload) == Some(text),
{
    encode_utf8_valid_utf8(text);
    encode_utf8_decode_utf8(text);
}

/// A byte that percent-encoding leaves as it is: an ASCII letter or digit,
/// or one of `-`, `.`, `_`, `~`.
pub open spec fn is_unreserved(b: u8) -> bool {
    (0x30 <= b <= 0x39) || (0x41 <= b <= 0x5a) || (0x61 <= b <= 0x7a) || b == 0x2d || b == 0x2e
        || b == 0x5f || b == 0x7e
}

/// The upper-case hexadecimal digit for a value below sixteen.
pub open spec fn hex_digit(d: u8) -> char {
    if d < 10 {
        (0x30 + d) as u8 as char
    } else {
        (0x41 + d - 10) as u8 as char
    }
}

/// Percent-encoding of a byte sequence: unreserved bytes stay, every other
/// byte becomes `%` and two upper-case hexadecimal digits.
pub open spec fn percent_encoded(bytes: Seq<u8>) -> Seq<char>
    decreases bytes.len(),
{
    if bytes.len() == 0 {
        Seq::empty()
    } else {
        let b = bytes[0];
        let head = if is_unreserved(b) {
            seq![b as char]
        } else {
            seq!['%', hex_digit(b / 16), hex_digit(b % 16)]
        };
        head + percent_encoded(bytes.drop_first())
    }
}

/// What percent-decoding makes of a text: `None` where the decoded bytes are
/// not UTF-8.
pub uninterp spec fn percent_decoded(text: Seq<char>) -> Option<Seq<char>>;

/// `urlencoding::encode`. Trusted: the result is the percent-encoding of the
/// UTF-8 bytes of `text`.
#[verifier::external_body]
pub(crate) fn percent_encode(text: &str) -> (out: String)
    ensures
        out@ == percent_encoded(encode_utf8(text@)),
{
    urlencoding::encode(text).into_owned()
}

/// `urlencoding::decode`. Trusted: whether it succeeds, and what it
/// returns, is a function of the text alone.
#[verifier::external_body]
pub(crate) fn percent_decode(text: &str) -> (out: Option<String>)
    ensures
        match out {
            Some(s) => percent_decoded(text@) == Some(s@),
            None => percent_decoded(text@).is_none(),
        },
{
    match urlencoding::decode(text) {
        Ok(s) => Some(s.into_owned()),
        Err(_) => None,
    }
}

} // verus!

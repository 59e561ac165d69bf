//! The transport wrapper around the save text: standard base64 of its
//! UTF-8 bytes.

use vstd::prelude::*;
use vstd::string::*;
use vstd::utf8::{decode_utf8, valid_utf8};
use crate::text::{chars_of, trim_bounds, trimmed};

verus! {

/// The error that `base64` reports for text that it cannot decode.
#[verifier::external_type_specification]
#[verifier::external_body]
pub struct ExDecodeError(base64::DecodeError);

/// The text that the standard base64 engine encodes a byte string to.
pub uninterp spec fn base64_standard_text(bytes: Seq<u8>) -> Seq<char>;

/// The bytes that the standard base64 engine decodes a text to, if it
/// accepts the text.
pub uninterp spec fn base64_standard_bytes(text: Seq<char>) -> Option<Seq<u8>>;

/// Why a text could not be wrapped or unwrapped.
#[derive(Debug, Clone, Copy, PartialEq, Eq, Structural)]
pub enum CodecError {
    /// The encoded length would not fit in a `usize`.
    TooLong,
    /// The payload is not standard base64.
    InvalidBase64,
    /// The decoded payload is not UTF-8.
    NotUtf8,
}

/// Whether the padded base64 length of `len` bytes fits in a `usize`: four
/// characters for every three bytes, the last group filled up.
pub open spec fn encodable(len: nat) -> bool {
    (len / 3) * 4 + (if len % 3 > 0 { 4int } else { 0 }) <= usize::MAX
}

/// `base64::Engine::encode` on `base64::engine::general_purpose::STANDARD`.
/// The result is named, not described; the call panics only when the
/// encoded length overflows, which the precondition excludes.
#[verifier::external_body]
fn encode_standard(bytes: &[u8]) -> (text: String)
    requires
        encodable(bytes@.len()),
    ensures
        text@ == base64_standard_text(bytes@),
{
    base64::Engine::encode(&base64::engine::general_purpose::STANDARD, bytes)
}

/// `base64::Engine::decode` on `base64::engine::general_purpose::STANDARD`.
/// The result is named, not described: the bytes where the engine accepts
/// the text, its error where it does not.
#[verifier::external_body]
fn decode_standard(text: &str) -> (decoded: Result<Vec<u8>, base64::DecodeError>)
    ensures
        match decoded {
            Ok(bytes) => base64_standard_bytes(text@) == Some(bytes@),
            Err(_) => base64_standard_bytes(text@) is None,
        },
{
    base64::Engine::decode(&base64::engine::general_purpose::STANDARD, text)
}

/// `String::from_utf8`: the text of a byte string that is valid UTF-8,
/// nothing for any other byte string.
#[verifier::external_body]
fn text_from_utf8(bytes: Vec<u8>) -> (text: Option<String>)
    ensures
        match text {
            Some(s) => valid_utf8(bytes@) && s@ == decode_utf8(bytes@),
            None => !valid_utf8(bytes@),
        },
{
    String::from_utf8(bytes).ok()
}

fn can_encode(len: usize) -> (b: bool)
    ensures
        b == encodable(len as nat),
{
    let chunks: usize = len / 3;
    if chunks > usize::MAX / 4 {
        return false;
    }
    let whole: usize = chunks * 4;
    len % 3 == 0 || whole <= usize::MAX - 4
}

/// The text that a decoded payload stands for: the payload must have been
/// accepted as base64 and must be UTF-8.
pub open spec fn spec_payload_text(decoded: Option<Seq<u8>>) -> Result<Seq<char>, CodecError> {
    match decoded {
        None => Err(CodecError::InvalidBase64),
        Some(bytes) => if valid_utf8(bytes) {
            Ok(decode_utf8(bytes))
        } else {
            Err(CodecError::NotUtf8)
        },
    }
}

/// Turns a decoded payload into text.
pub fn payload_text(decoded: Option<Vec<u8>>) -> (r: Result<String, CodecError>)
    ensures
        match r {
            Ok(text) => spec_payload_text(
                match decoded {
                    Some(bytes) => Some(bytes@),
                    None => None,
                },
            ) == Ok::<Seq<char>, CodecError>(text@),
            Err(e) => spec_payload_text(
                match decoded {
                    Some(bytes) => Some(bytes@),
                    None => None,
                },
            ) == Err::<Seq<char>, CodecError>(e),
        },
{
    match decoded {
        None => Err(CodecError::InvalidBase64),
        Some(bytes) => match text_from_utf8(bytes) {
            Some(text) => Ok(text),
            None => Err(CodecError::NotUtf8),
        },
    }
}

/// Wraps a save text for transport: the standard base64 text of its UTF-8
/// bytes. Only a text whose encoding would not fit in memory is refused.
pub fn export_to_base64(json: &str) -> (r: Result<String, CodecError>)
    ensures
        match r {
            Ok(encoded) => encodable(json.spec_bytes().len()) && encoded@ == base64_standard_text(
                json.spec_bytes(),
            ),
            Err(e) => !encodable(json.spec_bytes().len()) && e == CodecError::TooLong,
        },
{
    let bytes = json.as_bytes();
    if !can_encode(bytes.len()) {
        return Err(CodecError::TooLong);
    }
    Ok(encode_standard(bytes))
}

/// Unwraps a transported save text: white space around the payload is
/// ignored, the payload is decoded as standard base64 and read as UTF-8.
pub fn import_from_base64(encoded: &str) -> (r: Result<String, CodecError>)
    ensures
        match r {
            Ok(json) => spec_payload_text(base64_standard_bytes(trimmed(encoded@))) == Ok::<
                Seq<char>,
                CodecError,
            >(json@),
            Err(e) => spec_payload_text(base64_standard_bytes(trimmed(encoded@))) == Err::<
                Seq<char>,
                CodecError,
            >(e),
        },
{
    let chars = chars_of(encoded);
    let (from, to) = trim_bounds(&chars);
    let payload = encoded.substring_char(from, to);
    let decoded = match decode_standard(payload) {
        Ok(bytes) => Some(bytes),
        Err(_) => None,
    };
    payload_text(decoded)
}

} // verus!

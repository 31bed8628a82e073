//! What this library takes on trust: the `base64` crate's standard engine and
//! the UTF-8 check of `String::from_utf8`. Nothing here is proved; every
//! contract below restates what the called function does.

use vstd::prelude::*;
use vstd::utf8::{encode_utf8, valid_utf8};
use base64::engine::general_purpose::STANDARD;
use base64::{DecodeError, Engine};
use std::string::FromUtf8Error;
use crate::encoding::{base64_text, is_base64_text, text_len};

verus! {

/// `base64::DecodeError`, the reason the engine gives for refusing a text.
/// Its contents are not read here.
#[verifier::external_type_specification]
#[verifier::external_body]
pub struct ExDecodeError(base64::DecodeError);

/// `std::string::FromUtf8Error`, returned by `String::from_utf8` for bytes
/// that are not UTF-8. Its contents are not read here.
#[verifier::external_type_specification]
#[verifier::external_body]
pub struct ExFromUtf8Error(std::string::FromUtf8Error);

/// Calls `Engine::encode` on `base64::engine::general_purpose::STANDARD`.
///
/// Claimed: the returned string is the standard padded base64 text of
/// `bytes`: each three bytes give four symbols of the alphabet `A`-`Z`,
/// `a`-`z`, `0`-`9`, `+`, `/`, and a last group of one or two bytes is
/// filled up with `=`. The engine panics where the length of the text
/// overflows or is more than a buffer can have, `isize::MAX`; the
/// precondition leaves those inputs out.
#[verifier::external_body]
pub(crate) fn standard_encode(bytes: &[u8]) -> (text: String)
    requires
        text_len(bytes@.len()) <= isize::MAX,
    ensures
        text@ == base64_text(bytes@),
{
    STANDARD.encode(bytes)
}

/// Calls `Engine::decode` on `base64::engine::general_purpose::STANDARD`.
///
/// Claimed: the engine accepts exactly the texts that `standard_encode`
/// produces, and returns the bytes whose text the input is. It refuses a
/// character outside the alphabet, a length that is no multiple of four,
/// padding that is missing, misplaced or too long, and a last symbol with
/// bits set that belong to no byte. The buffer it asks for has three bytes
/// for every four of the input, rounded up; a `str` is never longer than
/// `isize::MAX` bytes, so that buffer can always be asked for, and no input
/// makes the engine panic.
#[verifier::external_body]
pub(crate) fn standard_decode(text: &str) -> (outcome: Result<Vec<u8>, DecodeError>)
    ensures
        match outcome {
            Ok(bytes) => base64_text(bytes@) == text@,
            Err(_) => !is_base64_text(text@),
        },
{
    STANDARD.decode(text)
}

/// `String::from_utf8` succeeds exactly on valid UTF-8, and the string it
/// returns consists of the bytes it was given.
pub assume_specification[ String::from_utf8 ](vec: Vec<u8>) -> (outcome: Result<
    String,
    FromUtf8Error,
>)
    ensures
        match outcome {
            Ok(text) => valid_utf8(vec@) && encode_utf8(text@) == vec@,
            Err(_) => !valid_utf8(vec@),
        },
;

} // verus!

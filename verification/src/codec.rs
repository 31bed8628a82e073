//! The codec: a text to the base64 text of its UTF-8 bytes, and back.

use vstd::prelude::*;
use vstd::utf8::{decode_utf8, encode_utf8, encode_utf8_decode_utf8, valid_utf8};
use crate::alphabet::pad;
use crate::encoding::{
    base64_text, bytes_of, has_text_shape, is_canonical, lemma_payload_of_text,
    lemma_text_iff_canonical, lemma_text_len, lemma_text_padding, lemma_text_shape, padding_len,
    payload, text_len,
};
use crate::engine::{standard_decode, standard_encode};

verus! {

/// Why a text could not be decoded.
#[derive(Clone, Copy, Debug, PartialEq, Eq, Structural)]
pub enum DecodeFailure {
    /// The input is not the base64 text of any byte sequence.
    InvalidEncoding,
    /// The input is base64 text, but of bytes that are not UTF-8.
    InvalidUtf8,
}

/// What `encode` returns for `text`: the base64 text of its UTF-8 bytes.
pub open spec fn encoded_text(text: Seq<char>) -> Seq<char> {
    base64_text(encode_utf8(text))
}

/// What decoding `text` comes to: the text whose UTF-8 bytes `text` stands
/// for, or the reason why there is none.
pub open spec fn decode_outcome(text: Seq<char>) -> Result<Seq<char>, DecodeFailure> {
    match payload(text) {
        None => Err(DecodeFailure::InvalidEncoding),
        Some(bytes) => if valid_utf8(bytes) {
            Ok(decode_utf8(bytes))
        } else {
            Err(DecodeFailure::InvalidUtf8)
        },
    }
}

/// What `decode` returns for `text`: the decoded text, and the empty text for
/// every failure.
pub open spec fn decoded_text(text: Seq<char>) -> Seq<char> {
    match decode_outcome(text) {
        Ok(decoded) => decoded,
        Err(_) => Seq::empty(),
    }
}

/// Whether a text of `bytes_len` UTF-8 bytes can be encoded: its base64 text
/// must fit into one allocation, which holds `isize::MAX` bytes at most.
pub open spec fn encodable_len(bytes_len: nat) -> bool {
    text_len(bytes_len) <= isize::MAX
}

/// The base64 text of the UTF-8 bytes of `to`.
///
/// The input must be short enough for its text to fit into memory; on every
/// such input the call succeeds.
pub fn encode(to: &str) -> (encoded: String)
    requires
        encodable_len(encode_utf8(to@).len()),
    ensures
        encoded@ == encoded_text(to@),
        encoded@.len() == text_len(encode_utf8(to@).len()),
        has_text_shape(encoded@),
        forall|i: int|
            0 <= i < encoded@.len() ==> (#[trigger] encoded@[i] == pad() <==> i >= encoded@.len()
                - padding_len(encode_utf8(to@).len())),
{
    proof {
        lemma_text_len(encode_utf8(to@));
        lemma_text_shape(encode_utf8(to@));
        lemma_text_padding(encode_utf8(to@));
    }
    standard_encode(to.as_bytes())
}

/// `encode` for an input of any length: `None` exactly where the base64 text
/// would not fit into memory.
pub fn try_encode(to: &str) -> (encoded: Option<String>)
    ensures
        encoded is Some <==> encodable_len(encode_utf8(to@).len()),
        encoded matches Some(text) ==> text@ == encoded_text(to@),
{
    let bytes_len: usize = to.as_bytes().len();
    let partial: usize = if bytes_len % 3 == 0 {
        0
    } else {
        1
    };
    let groups: usize = bytes_len / 3 + partial;
    if groups <= (isize::MAX as usize) / 4 {
        Some(encode(to))
    } else {
        None
    }
}

/// Decodes `from`, telling the two failures apart.
///
/// It succeeds exactly on the canonical texts whose bytes are UTF-8, and
/// returns the text that those bytes spell.
pub fn try_decode(from: &str) -> (outcome: Result<String, DecodeFailure>)
    ensures
        match outcome {
            Ok(text) => decode_outcome(from@) == Ok::<Seq<char>, DecodeFailure>(text@),
            Err(failure) => decode_outcome(from@) == Err::<Seq<char>, DecodeFailure>(failure),
        },
        match outcome {
            Ok(text) => is_canonical(from@) && valid_utf8(bytes_of(from@)) && text@ == decode_utf8(
                bytes_of(from@),
            ),
            Err(DecodeFailure::InvalidEncoding) => !is_canonical(from@),
            Err(DecodeFailure::InvalidUtf8) => is_canonical(from@) && !valid_utf8(bytes_of(from@)),
        },
{
    proof {
        lemma_text_iff_canonical(from@);
    }
    match standard_decode(from) {
        Err(_) => Err(DecodeFailure::InvalidEncoding),
        Ok(bytes) => {
            proof {
                lemma_payload_of_text(bytes@);
            }
            match String::from_utf8(bytes) {
                Ok(text) => {
                    proof {
                        encode_utf8_decode_utf8(text@);
                    }
                    Ok(text)
                },
                Err(_) => Err(DecodeFailure::InvalidUtf8),
            }
        },
    }
}

/// The text whose UTF-8 bytes `from` is the base64 text of; the empty text
/// where `from` is no base64 text, or stands for bytes that are not UTF-8.
///
/// No failure reaches the caller, and none leaves a part of the input in the
/// result.
pub fn decode(from: &str) -> (decoded: String)
    ensures
        decoded@ == decoded_text(from@),
        decoded@ == if is_canonical(from@) && valid_utf8(bytes_of(from@)) {
            decode_utf8(bytes_of(from@))
        } else {
            Seq::<char>::empty()
        },
{
    match try_decode(from) {
        Ok(text) => text,
        Err(_) => String::new(),
    }
}

} // verus!

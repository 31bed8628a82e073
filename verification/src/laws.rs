//! What holds between the two directions of the codec, for every text.

use vstd::prelude::*;
use vstd::utf8::{
    decode_utf8, decode_utf8_encode_utf8, encode_utf8, encode_utf8_decode_utf8,
    encode_utf8_valid_utf8, valid_utf8,
};
use crate::codec::{decode_outcome, decoded_text, encoded_text, DecodeFailure};
use crate::encoding::{
    base64_text, bytes_of, is_canonical, lemma_payload_of_text, lemma_text_iff_canonical,
    lemma_text_injective, payload,
};

verus! {

/// Decoding what was encoded gives the text back: for every text, the
/// encoded text decodes without failure, and to that text.
pub proof fn lemma_round_trip(text: Seq<char>)
    ensures
        decode_outcome(encoded_text(text)) == Ok::<Seq<char>, DecodeFailure>(text),
        decoded_text(encoded_text(text)) == text,
{
    lemma_payload_of_text(encode_utf8(text));
    encode_utf8_valid_utf8(text);
    encode_utf8_decode_utf8(text);
}

/// Encoding what was decoded gives the input back, wherever decoding did not
/// fail.
pub proof fn lemma_reencode(input: Seq<char>)
    requires
        decode_outcome(input) is Ok,
    ensures
        encoded_text(decoded_text(input)) == input,
{
    let bytes = payload(input)->Some_0;
    assert(base64_text(bytes) == input);
    decode_utf8_encode_utf8(bytes);
}

/// Decoding is decided by the groups of the input: it succeeds on the
/// canonical texts whose groups spell out UTF-8, with the text that those
/// bytes are; it fails as an invalid encoding on every input that is not
/// canonical, and as invalid UTF-8 on the others.
pub proof fn lemma_decode_by_groups(input: Seq<char>)
    ensures
        decode_outcome(input) == if !is_canonical(input) {
            Err::<Seq<char>, DecodeFailure>(DecodeFailure::InvalidEncoding)
        } else if !valid_utf8(bytes_of(input)) {
            Err::<Seq<char>, DecodeFailure>(DecodeFailure::InvalidUtf8)
        } else {
            Ok::<Seq<char>, DecodeFailure>(decode_utf8(bytes_of(input)))
        },
{
    lemma_text_iff_canonical(input);
}

/// A failure leaves nothing of the input: malformed input, and input that
/// stands for bytes that are not UTF-8, decode to exactly the empty text.
pub proof fn lemma_failure_is_empty(input: Seq<char>)
    requires
        !is_canonical(input) || !valid_utf8(bytes_of(input)),
    ensures
        decode_outcome(input) is Err,
        decoded_text(input) == Seq::<char>::empty(),
{
    lemma_decode_by_groups(input);
}

/// No two texts are encoded alike.
pub proof fn lemma_encoding_injective(first: Seq<char>, second: Seq<char>)
    requires
        encoded_text(first) == encoded_text(second),
    ensures
        first == second,
{
    lemma_text_injective(encode_utf8(first), encode_utf8(second));
    encode_utf8_decode_utf8(first);
    encode_utf8_decode_utf8(second);
}

/// Decoding succeeds on the encoded texts and on nothing else: an input
/// decodes to `text` without failure if and only if `text` is encoded to it.
pub proof fn lemma_decodes_what_was_encoded(input: Seq<char>, text: Seq<char>)
    ensures
        decode_outcome(input) == Ok::<Seq<char>, DecodeFailure>(text) <==> input == encoded_text(
            text,
        ),
{
    if input == encoded_text(text) {
        lemma_round_trip(text);
    }
    if decode_outcome(input) == Ok::<Seq<char>, DecodeFailure>(text) {
        lemma_reencode(input);
    }
}

} // verus!

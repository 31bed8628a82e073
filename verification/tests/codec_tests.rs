use ancryptor::{decode, encode, try_decode, try_encode, DecodeFailure};
use base64::engine::general_purpose::STANDARD;
use base64::Engine;

#[test]
fn round_trip_on_plain_text() {
    for text in ["", "a", "ab", "abc", "abcd", "hello_world_from_rust", "with spaces\nand lines\t"] {
        assert_eq!(decode(&encode(text)), text);
    }
}

#[test]
fn round_trip_beyond_ascii() {
    for text in ["é", "日本語", "naïve café", "🦀 crab", "\u{0}\u{7f}\u{80}\u{7ff}\u{800}\u{ffff}\u{10000}\u{10ffff}"] {
        let encoded = encode(text);
        assert!(encoded.is_ascii());
        assert_eq!(decode(&encoded), text);
        assert_eq!(try_decode(&encoded), Ok(text.to_string()));
    }
}

#[test]
fn encode_pads_by_remainder() {
    assert_eq!(encode(""), "");
    assert_eq!(encode("f"), "Zg==");
    assert_eq!(encode("fo"), "Zm8=");
    assert_eq!(encode("foo"), "Zm9v");
    assert_eq!(encode("foob"), "Zm9vYg==");
    assert_eq!(encode("fooba"), "Zm9vYmE=");
    assert_eq!(encode("foobar"), "Zm9vYmFy");
}

#[test]
fn encode_uses_the_utf8_bytes() {
    // U+00E9 is the two bytes C3 A9
    assert_eq!(encode("é"), "w6k=");
    // U+20AC is the three bytes E2 82 AC
    assert_eq!(encode("€"), "4oKs");
}

#[test]
fn encode_reaches_the_last_symbols() {
    // bytes EF BF BF; the text uses the values 59, 59, 62 and 63
    assert_eq!(encode("\u{ffff}"), "77+/");
    assert_eq!(decode("77+/"), "\u{ffff}");
}

#[test]
fn encoded_length_is_four_per_three_bytes() {
    let mut text = String::new();
    for bytes_len in 0..50usize {
        let encoded = encode(&text);
        assert_eq!(encoded.len(), (bytes_len + 2) / 3 * 4);
        assert_eq!(encoded.len() % 4, 0);
        text.push('x');
    }
    // counted in bytes, not in characters
    assert_eq!(encode("日本語").len(), 12);
}

#[test]
fn encode_agrees_with_the_engine() {
    for text in ["", "a", "hello_world_from_rust", "日本語", "~~~???>>>"] {
        assert_eq!(encode(text), STANDARD.encode(text));
    }
}

#[test]
fn encode_is_deterministic() {
    assert_eq!(encode("same input"), encode("same input"));
    assert_ne!(encode("same input"), encode("same inpus"));
}

#[test]
fn try_encode_agrees_with_encode() {
    assert_eq!(try_encode("hello_world_from_rust"), Some("aGVsbG9fd29ybGRfZnJvbV9ydXN0".to_string()));
    assert_eq!(try_encode(""), Some(String::new()));
    assert_eq!(try_encode("é"), Some(encode("é")));
}

#[test]
fn decode_known_vectors() {
    assert_eq!(decode("Zg=="), "f");
    assert_eq!(decode("Zm8="), "fo");
    assert_eq!(decode("Zm9v"), "foo");
    assert_eq!(decode("Zm9vYmFy"), "foobar");
    assert_eq!(decode("w6k="), "é");
    assert_eq!(try_decode("aGVsbG9fd29ybGRfZnJvbV9ydXN0"), Ok("hello_world_from_rust".to_string()));
}

#[test]
fn decode_of_payload_that_is_not_utf8_is_empty() {
    let lone_ff = STANDARD.encode([0xFFu8]);
    assert_eq!(lone_ff, "/w==");
    assert_eq!(decode(&lone_ff), "");
    assert_eq!(try_decode(&lone_ff), Err(DecodeFailure::InvalidUtf8));

    // a valid first character followed by a broken continuation
    let broken_tail = STANDARD.encode([b'a', 0xC3, 0x28]);
    assert_eq!(decode(&broken_tail), "");
    assert_eq!(try_decode(&broken_tail), Err(DecodeFailure::InvalidUtf8));

    // a surrogate, and an overlong form of '/'
    assert_eq!(decode(&STANDARD.encode([0xEDu8, 0xA0, 0x80])), "");
    assert_eq!(decode(&STANDARD.encode([0xC0u8, 0xAF])), "");
}

#[test]
fn decode_of_malformed_input_is_empty() {
    // wrong length
    assert_eq!(decode("dfoiuerw892"), "");
    assert_eq!(decode("Z"), "");
    assert_eq!(decode("Zm9"), "");
    assert_eq!(decode("Zm9vY"), "");
    // missing padding
    assert_eq!(decode("Zg"), "");
    assert_eq!(decode("Zm8"), "");
    // characters outside the alphabet
    assert_eq!(decode("Zm9-"), "");
    assert_eq!(decode("Zm9_"), "");
    assert_eq!(decode("Zm 9v"), "");
    assert_eq!(decode("Zm9v\n"), "");
    assert_eq!(decode("Zm9vé==="), "");
    // misplaced or excessive padding
    assert_eq!(decode("===="), "");
    assert_eq!(decode("Z==="), "");
    assert_eq!(decode("Zg=v"), "");
    assert_eq!(decode("Zg==Zm9v"), "");
    assert_eq!(decode("Zm9v===="), "");
    assert_eq!(decode("Zm9v="), "");
    // bits set that belong to no byte
    assert_eq!(decode("Zh=="), "");
    assert_eq!(decode("Zm9="), "");
}

#[test]
fn malformed_input_never_decodes_in_part() {
    // valid groups in front of a broken one give nothing
    assert_eq!(decode("aGVsbG9fd29ybGRfZnJvbV9ydXN0!"), "");
    assert_eq!(decode("aGVsbG9fd29ybGRfZnJvbV9ydXN"), "");
    assert_eq!(decode("aGVs*G9f"), "");
    for input in ["aGVsbG9fd29ybGRfZnJvbV9ydXN0!", "aGVsbG9fd29ybGRfZnJvbV9ydXN", "aGVs*G9f"] {
        assert_eq!(try_decode(input), Err(DecodeFailure::InvalidEncoding));
    }
}

#[test]
fn try_decode_tells_the_failures_apart() {
    assert_eq!(try_decode(""), Ok(String::new()));
    assert_eq!(try_decode("Zm9v"), Ok("foo".to_string()));
    assert_eq!(try_decode("dfoiuerw892"), Err(DecodeFailure::InvalidEncoding));
    assert_eq!(try_decode("Zh=="), Err(DecodeFailure::InvalidEncoding));
    assert_eq!(try_decode("/w=="), Err(DecodeFailure::InvalidUtf8));
    assert_eq!(try_decode("gA=="), Err(DecodeFailure::InvalidUtf8));
}

#[test]
fn decode_collapses_every_failure_to_empty() {
    for input in ["", "dfoiuerw892", "/w==", "Zh==", "===="] {
        let collapsed = match try_decode(input) {
            Ok(text) => text,
            Err(_) => String::new(),
        };
        assert_eq!(decode(input), collapsed);
        assert_eq!(decode(input), "");
    }
}

#[test]
fn reencoding_a_decoded_text_gives_the_input() {
    for input in ["", "Zg==", "Zm8=", "Zm9v", "aGVsbG9fd29ybGRfZnJvbV9ydXN0", "w6k=", "77+/"] {
        assert!(try_decode(input).is_ok());
        assert_eq!(encode(&decode(input)), input);
    }
}

#[test]
fn different_texts_have_different_encodings() {
    let texts = ["", "a", "b", "aa", "ab", "a\u{0}", "é", "e"];
    for first in texts {
        for second in texts {
            assert_eq!(encode(first) == encode(second), first == second);
        }
    }
}

#[test]
fn padding_counts_the_missing_bytes() {
    let mut text = String::new();
    for bytes_len in 0..20usize {
        let encoded = encode(&text);
        let pads = encoded.chars().filter(|c| *c == '=').count();
        assert_eq!(pads, (3 - bytes_len % 3) % 3);
        assert!(encoded.ends_with(&"=".repeat(pads)));
        assert!(encoded.chars().all(|c| c.is_ascii_alphanumeric() || c == '+' || c == '/' || c == '='));
        text.push('y');
    }
}

#[test]
fn try_decode_accepts_exactly_what_encode_gives() {
    // the same bytes written with other last symbols or paddings are refused
    assert_eq!(try_decode("YQ=="), Ok("a".to_string()));
    for other in ["YR==", "YS==", "YQ=", "YQ", "YQ===", "YQ==\n", " YQ=="] {
        assert_eq!(try_decode(other), Err(DecodeFailure::InvalidEncoding));
    }
}

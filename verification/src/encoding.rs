//! The standard padded base64 text of a byte sequence, as a mathematical
//! function, and what follows from its definition: the length of a text, the
//! shape that tells a text from other character sequences, the bytes that a
//! text stands for, and that no two byte sequences share a text.

use vstd::prelude::*;
use crate::alphabet::{is_symbol, lemma_symbol_of_value, lemma_value_of_symbol, pad, symbol, value};

verus! {

/// The four symbols that stand for three bytes: their 24 bits, most
/// significant first, cut into four 6-bit values.
pub open spec fn full_group(b0: int, b1: int, b2: int) -> Seq<char> {
    seq![
        symbol(b0 / 4),
        symbol((b0 % 4) * 16 + b1 / 16),
        symbol((b1 % 16) * 4 + b2 / 64),
        symbol(b2 % 64),
    ]
}

/// The group that ends the text of a byte sequence whose length leaves the
/// remainder 2: three symbols, the missing bits taken as zero, and one pad.
pub open spec fn group_of_two(b0: int, b1: int) -> Seq<char> {
    seq![symbol(b0 / 4), symbol((b0 % 4) * 16 + b1 / 16), symbol((b1 % 16) * 4), pad()]
}

/// The group that ends the text of a byte sequence whose length leaves the
/// remainder 1: two symbols, the missing bits taken as zero, and two pads.
pub open spec fn group_of_one(b0: int) -> Seq<char> {
    seq![symbol(b0 / 4), symbol((b0 % 4) * 16), pad(), pad()]
}

/// The standard padded base64 text of `bytes`.
pub open spec fn base64_text(bytes: Seq<u8>) -> Seq<char>
    decreases bytes.len(),
{
    if bytes.len() == 0 {
        Seq::empty()
    } else if bytes.len() == 1 {
        group_of_one(bytes[0] as int)
    } else if bytes.len() == 2 {
        group_of_two(bytes[0] as int, bytes[1] as int)
    } else {
        full_group(bytes[0] as int, bytes[1] as int, bytes[2] as int) + base64_text(bytes.skip(3))
    }
}

/// The length of the text of `n` bytes: four characters for every three
/// bytes, the last group filled up.
pub open spec fn text_len(n: nat) -> nat {
    4 * ((n + 2) / 3)
}

/// Whether `text` is the base64 text of some byte sequence.
pub open spec fn is_base64_text(text: Seq<char>) -> bool {
    exists|bytes: Seq<u8>| #[trigger] base64_text(bytes) == text
}

/// The bytes that `text` stands for, if it is the base64 text of any.
pub open spec fn payload(text: Seq<char>) -> Option<Seq<u8>> {
    if is_base64_text(text) {
        Some(choose|bytes: Seq<u8>| #[trigger] base64_text(bytes) == text)
    } else {
        None
    }
}

/// A text stands for the bytes it was made from, and for no others.
pub proof fn lemma_payload_of_text(bytes: Seq<u8>)
    ensures
        is_base64_text(base64_text(bytes)),
        payload(base64_text(bytes)) == Some(bytes),
{
    let text = base64_text(bytes);
    assert(is_base64_text(text));
    let chosen = choose|other: Seq<u8>| #[trigger] base64_text(other) == text;
    lemma_text_injective(chosen, bytes);
}

/// The text of `n` bytes has `text_len(n)` characters.
pub proof fn lemma_text_len(bytes: Seq<u8>)
    ensures
        base64_text(bytes).len() == text_len(bytes.len()),
    decreases bytes.len(),
{
    if bytes.len() >= 3 {
        lemma_text_len(bytes.skip(3));
    }
}

/// The shape that every base64 text has: whole groups of four characters,
/// symbols everywhere but in the last two places, and there either symbols,
/// one pad at the end, or two pads.
pub open spec fn has_text_shape(text: Seq<char>) -> bool {
    &&& text.len() % 4 == 0
    &&& forall|i: int| 0 <= i < text.len() - 2 ==> is_symbol(#[trigger] text[i])
    &&& text.len() > 0 ==> {
        let last = text[text.len() - 1];
        let before = text[text.len() - 2];
        &&& is_symbol(last) || last == pad()
        &&& is_symbol(before) || (before == pad() && last == pad())
    }
}

/// The text of any byte sequence has the shape of a base64 text.
pub proof fn lemma_text_shape(bytes: Seq<u8>)
    ensures
        has_text_shape(base64_text(bytes)),
    decreases bytes.len(),
{
    let text = base64_text(bytes);
    lemma_text_len(bytes);
    if bytes.len() == 0 {
    } else {
        lemma_head_symbols(bytes);
        let values = head_values(bytes);
        lemma_symbol_of_value(values.0);
        lemma_symbol_of_value(values.1);
        if bytes.len() >= 2 {
            lemma_symbol_of_value(values.2);
        }
        if bytes.len() >= 3 {
            lemma_symbol_of_value(values.3);
            let rest = base64_text(bytes.skip(3));
            lemma_text_shape(bytes.skip(3));
            lemma_text_len(bytes.skip(3));
            assert forall|i: int| 0 <= i < text.len() - 2 implies is_symbol(#[trigger] text[i]) by {
                if i >= 4 {
                    assert(text[i] == rest[i - 4]);
                }
            }
            if rest.len() > 0 {
                assert(text[text.len() - 1] == rest[rest.len() - 1]);
                assert(text[text.len() - 2] == rest[rest.len() - 2]);
            }
        }
    }
}

/// How many pads end the text of `n` bytes: none where `n` is a multiple of
/// three, else as many as bytes are missing from the last group.
pub open spec fn padding_len(n: nat) -> nat {
    ((3 - n % 3) % 3) as nat
}

/// The pads of a text are its last characters, as many as bytes are missing
/// from the last group of three.
pub proof fn lemma_text_padding(bytes: Seq<u8>)
    ensures
        forall|i: int|
            0 <= i < base64_text(bytes).len() ==> (#[trigger] base64_text(bytes)[i] == pad() <==> i
                >= base64_text(bytes).len() - padding_len(bytes.len())),
    decreases bytes.len(),
{
    let text = base64_text(bytes);
    lemma_text_len(bytes);
    if bytes.len() > 0 {
        lemma_head_symbols(bytes);
        let values = head_values(bytes);
        lemma_symbol_of_value(values.0);
        lemma_symbol_of_value(values.1);
        if bytes.len() >= 2 {
            lemma_symbol_of_value(values.2);
        }
        if bytes.len() >= 3 {
            lemma_symbol_of_value(values.3);
            let rest = base64_text(bytes.skip(3));
            lemma_text_padding(bytes.skip(3));
            lemma_text_len(bytes.skip(3));
            assert forall|i: int| 0 <= i < text.len() implies (#[trigger] text[i] == pad() <==> i
                >= text.len() - padding_len(bytes.len())) by {
                if i >= 4 {
                    assert(text[i] == rest[i - 4]);
                }
            }
        }
    }
}

/// Whether `text` is written the way a base64 text is: it has the shape of
/// one, and the last symbol before padding holds no bits beyond the bytes it
/// closes.
pub open spec fn is_canonical(text: Seq<char>) -> bool {
    &&& has_text_shape(text)
    &&& text.len() > 0 ==> {
        let last = text[text.len() - 1];
        let before = text[text.len() - 2];
        &&& before == pad() ==> value(text[text.len() - 3]) % 16 == 0
        &&& before != pad() && last == pad() ==> value(before) % 4 == 0
    }
}

/// The bytes that the groups of `text` spell out, read group by group: three
/// bytes from four symbols, two from three symbols and a pad, one from two
/// symbols and two pads.
pub open spec fn bytes_of(text: Seq<char>) -> Seq<u8>
    decreases text.len(),
{
    if text.len() < 4 {
        Seq::empty()
    } else {
        let b0 = (value(text[0]) * 4 + value(text[1]) / 16) as u8;
        let b1 = ((value(text[1]) % 16) * 16 + value(text[2]) / 4) as u8;
        let b2 = ((value(text[2]) % 4) * 64 + value(text[3])) as u8;
        if text[2] == pad() {
            seq![b0]
        } else if text[3] == pad() {
            seq![b0, b1]
        } else {
            seq![b0, b1, b2] + bytes_of(text.skip(4))
        }
    }
}

/// The text of any byte sequence is canonical.
pub proof fn lemma_text_is_canonical(bytes: Seq<u8>)
    ensures
        is_canonical(base64_text(bytes)),
    decreases bytes.len(),
{
    let text = base64_text(bytes);
    lemma_text_len(bytes);
    lemma_text_shape(bytes);
    if bytes.len() > 0 {
        lemma_head_symbols(bytes);
        let values = head_values(bytes);
        lemma_symbol_of_value(values.0);
        lemma_symbol_of_value(values.1);
        if bytes.len() == 2 {
            lemma_symbol_of_value(values.2);
        }
        if bytes.len() > 3 {
            let rest = base64_text(bytes.skip(3));
            lemma_text_is_canonical(bytes.skip(3));
            lemma_text_len(bytes.skip(3));
            assert(text[text.len() - 1] == rest[rest.len() - 1]);
            assert(text[text.len() - 2] == rest[rest.len() - 2]);
            assert(text[text.len() - 3] == rest[rest.len() - 3]);
        } else if bytes.len() == 3 {
            lemma_symbol_of_value(values.2);
            lemma_symbol_of_value(values.3);
        }
    }
}

/// A canonical text is the text of the bytes that its groups spell out.
pub proof fn lemma_canonical_is_text(text: Seq<char>)
    requires
        is_canonical(text),
    ensures
        base64_text(bytes_of(text)) == text,
        is_base64_text(text),
        payload(text) == Some(bytes_of(text)),
    decreases text.len(),
{
    let bytes = bytes_of(text);
    if text.len() == 0 {
        assert(base64_text(bytes) =~= text);
    } else {
        assert(text.len() >= 4);
        lemma_value_of_symbol(text[0]);
        lemma_value_of_symbol(text[1]);
        let v0 = value(text[0]);
        let v1 = value(text[1]);
        if text[2] == pad() {
            assert(text.len() == 4);
            assert(base64_text(bytes) =~= text);
        } else {
            lemma_value_of_symbol(text[2]);
            let v2 = value(text[2]);
            if text[3] == pad() {
                assert(text.len() == 4);
                assert(base64_text(bytes) =~= text);
            } else {
                lemma_value_of_symbol(text[3]);
                let v3 = value(text[3]);
                let rest = text.skip(4);
                assert(is_canonical(rest)) by {
                    assert forall|i: int| 0 <= i < rest.len() - 2 implies is_symbol(
                        #[trigger] rest[i],
                    ) by {
                        assert(rest[i] == text[i + 4]);
                    }
                    if rest.len() > 0 {
                        assert(rest[rest.len() - 1] == text[text.len() - 1]);
                        assert(rest[rest.len() - 2] == text[text.len() - 2]);
                        assert(rest[rest.len() - 3] == text[text.len() - 3]);
                    }
                }
                lemma_canonical_is_text(rest);
                let head = seq![
                    (v0 * 4 + v1 / 16) as u8,
                    ((v1 % 16) * 16 + v2 / 4) as u8,
                    ((v2 % 4) * 64 + v3) as u8,
                ];
                assert(bytes == head + bytes_of(rest));
                assert(bytes.skip(3) =~= bytes_of(rest));
                assert(base64_text(bytes) =~= full_group(
                    bytes[0] as int,
                    bytes[1] as int,
                    bytes[2] as int,
                ) + rest);
                assert(base64_text(bytes) =~= text);
            }
        }
    }
    lemma_payload_of_text(bytes);
}

/// The base64 texts are the canonical texts, and each stands for the bytes
/// that its groups spell out.
pub proof fn lemma_text_iff_canonical(text: Seq<char>)
    ensures
        is_base64_text(text) <==> is_canonical(text),
        payload(text) == if is_canonical(text) {
            Some(bytes_of(text))
        } else {
            None
        },
{
    if is_canonical(text) {
        lemma_canonical_is_text(text);
    }
    if is_base64_text(text) {
        let bytes = choose|bytes: Seq<u8>| #[trigger] base64_text(bytes) == text;
        lemma_text_is_canonical(bytes);
    }
}

/// Two byte sequences with the same text are the same sequence.
pub proof fn lemma_text_injective(a: Seq<u8>, b: Seq<u8>)
    requires
        base64_text(a) == base64_text(b),
    ensures
        a == b,
    decreases a.len(),
{
    lemma_text_len(a);
    lemma_text_len(b);
    let ta = base64_text(a);
    let tb = base64_text(b);
    if a.len() == 0 {
        assert(b.len() == 0);
        assert(a =~= b);
    } else {
        assert(b.len() > 0);
        lemma_head_symbols(a);
        lemma_head_symbols(b);
        assert(ta[0] == tb[0]);
        assert(ta[1] == tb[1]);
        assert(ta[2] == tb[2]);
        assert(ta[3] == tb[3]);
        lemma_head_bytes(a, b);
        if a.len() >= 3 {
            let ra = base64_text(a.skip(3));
            let rb = base64_text(b.skip(3));
            assert(ra =~= ta.skip(4));
            assert(rb =~= tb.skip(4));
            lemma_text_injective(a.skip(3), b.skip(3));
            assert(a =~= a.take(3) + a.skip(3));
            assert(b =~= b.take(3) + b.skip(3));
            assert(a.take(3) =~= b.take(3));
        } else {
            assert(a =~= b);
        }
    }
}

/// The 6-bit values that the first group of the text of a non-empty `bytes`
/// is made of; a value that is absent where the group holds a pad is -1.
spec fn head_values(bytes: Seq<u8>) -> (int, int, int, int) {
    let b0 = bytes[0] as int;
    if bytes.len() == 1 {
        (b0 / 4, (b0 % 4) * 16, -1, -1)
    } else {
        let b1 = bytes[1] as int;
        if bytes.len() == 2 {
            (b0 / 4, (b0 % 4) * 16 + b1 / 16, (b1 % 16) * 4, -1)
        } else {
            let b2 = bytes[2] as int;
            (b0 / 4, (b0 % 4) * 16 + b1 / 16, (b1 % 16) * 4 + b2 / 64, b2 % 64)
        }
    }
}

/// The character that stands for `v` in a group: the pad for an absent value.
spec fn group_char(v: int) -> char {
    if v < 0 {
        pad()
    } else {
        symbol(v)
    }
}

proof fn lemma_head_symbols(bytes: Seq<u8>)
    requires
        bytes.len() > 0,
    ensures
        base64_text(bytes).len() >= 4,
        base64_text(bytes)[0] == group_char(head_values(bytes).0),
        base64_text(bytes)[1] == group_char(head_values(bytes).1),
        base64_text(bytes)[2] == group_char(head_values(bytes).2),
        base64_text(bytes)[3] == group_char(head_values(bytes).3),
        -1 <= head_values(bytes).0 < 64,
        -1 <= head_values(bytes).1 < 64,
        -1 <= head_values(bytes).2 < 64,
        -1 <= head_values(bytes).3 < 64,
{
}

proof fn lemma_group_char_injective(v: int, w: int)
    requires
        -1 <= v < 64,
        -1 <= w < 64,
        group_char(v) == group_char(w),
    ensures
        v == w,
{
    if v >= 0 {
        lemma_symbol_of_value(v);
    }
    if w >= 0 {
        lemma_symbol_of_value(w);
    }
}

proof fn lemma_head_bytes(a: Seq<u8>, b: Seq<u8>)
    requires
        a.len() > 0,
        b.len() > 0,
        base64_text(a).len() == base64_text(b).len(),
        base64_text(a)[0] == base64_text(b)[0],
        base64_text(a)[1] == base64_text(b)[1],
        base64_text(a)[2] == base64_text(b)[2],
        base64_text(a)[3] == base64_text(b)[3],
    ensures
        a.len() >= 3 <==> b.len() >= 3,
        a.len() < 3 ==> a.len() == b.len(),
        a[0] == b[0],
        a.len() >= 2 ==> a[1] == b[1],
        a.len() >= 3 ==> a[2] == b[2],
{
    lemma_head_symbols(a);
    lemma_head_symbols(b);
    lemma_text_len(a);
    lemma_text_len(b);
    let va = head_values(a);
    let vb = head_values(b);
    lemma_group_char_injective(va.0, vb.0);
    lemma_group_char_injective(va.1, vb.1);
    lemma_group_char_injective(va.2, vb.2);
    lemma_group_char_injective(va.3, vb.3);
}

} // verus!

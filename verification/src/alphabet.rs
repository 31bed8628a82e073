//! The 64 symbols of the standard base64 alphabet and the padding character.

use vstd::prelude::*;

verus! {

/// The padding character `=`.
pub open spec fn pad() -> char {
    '='
}

/// The symbol that stands for the 6-bit value `v`: `A`-`Z`, `a`-`z`, `0`-`9`,
/// `+`, `/`, in this order.
pub open spec fn symbol(v: int) -> char
    recommends
        0 <= v < 64,
{
    if v < 26 {
        ('A' as u8 + v) as u8 as char
    } else if v < 52 {
        ('a' as u8 + (v - 26)) as u8 as char
    } else if v < 62 {
        ('0' as u8 + (v - 52)) as u8 as char
    } else if v == 62 {
        '+'
    } else {
        '/'
    }
}

/// Whether `c` is one of the 64 symbols.
pub open spec fn is_symbol(c: char) -> bool {
    ('A' <= c && c <= 'Z') || ('a' <= c && c <= 'z') || ('0' <= c && c <= '9') || c == '+' || c
        == '/'
}

/// The 6-bit value that the symbol `c` stands for.
pub open spec fn value(c: char) -> int
    recommends
        is_symbol(c),
{
    if 'A' <= c && c <= 'Z' {
        c as u8 - 'A' as u8
    } else if 'a' <= c && c <= 'z' {
        c as u8 - 'a' as u8 + 26
    } else if '0' <= c && c <= '9' {
        c as u8 - '0' as u8 + 52
    } else if c == '+' {
        62
    } else {
        63
    }
}

/// Each of the 64 values has a symbol, which is not the pad and stands for
/// that value.
pub proof fn lemma_symbol_of_value(v: int)
    requires
        0 <= v < 64,
    ensures
        is_symbol(symbol(v)),
        symbol(v) != pad(),
        value(symbol(v)) == v,
{
}

/// Each symbol stands for one of the 64 values, whose symbol it is.
pub proof fn lemma_value_of_symbol(c: char)
    requires
        is_symbol(c),
    ensures
        0 <= value(c) < 64,
        symbol(value(c)) == c,
        c != pad(),
{
}

} // verus!

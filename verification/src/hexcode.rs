//! Hexadecimal text, with the `hex` crate doing the coding.
use vstd::prelude::*;

verus! {

pub open spec fn is_hex_digit(c: char) -> bool {
    ('0' <= c && c <= '9') || ('a' <= c && c <= 'f') || ('A' <= c && c <= 'F')
}

pub open spec fn all_hex_digits(s: Seq<char>) -> bool {
    forall|i: int| 0 <= i < s.len() ==> is_hex_digit(#[trigger] s[i])
}

pub open spec fn hex_digit_value(c: char) -> int {
    if '0' <= c && c <= '9' {
        (c as u32 - '0' as u32) as int
    } else if 'a' <= c && c <= 'f' {
        (c as u32 - 'a' as u32 + 10) as int
    } else {
        (c as u32 - 'A' as u32 + 10) as int
    }
}

/// The bytes that a valid hex string (even length, hex digits only) stands for.
pub open spec fn hex_bytes(s: Seq<char>) -> Seq<u8> {
    Seq::new(
        s.len() / 2,
        |i: int| (hex_digit_value(s[2 * i]) * 16 + hex_digit_value(s[2 * i + 1])) as u8,
    )
}

/// The lower-case hex digit for a value below sixteen.
pub open spec fn lower_hex_char(v: int) -> char {
    if v < 10 {
        ((v + 48) as u32) as char
    } else {
        ((v + 87) as u32) as char
    }
}

/// Lower-case hex text of bytes, two digits per byte.
pub open spec fn hex_text(b: Seq<u8>) -> Seq<char> {
    Seq::new(
        2 * b.len(),
        |i: int|
            if i % 2 == 0 {
                lower_hex_char(b[i / 2] as int / 16)
            } else {
                lower_hex_char(b[i / 2] as int % 16)
            },
    )
}

/// Decodes hex text with `hex::decode`. Trusted: it succeeds exactly on text of even
/// length made of hex digits (either case), and gives the bytes that the digit pairs stand for.
#[verifier::external_body]
pub(crate) fn hex_decode(s: &str) -> (r: Option<Vec<u8>>)
    ensures
        r is Some <==> (all_hex_digits(s@) && s@.len() % 2 == 0),
        r matches Some(b) ==> b@ == hex_bytes(s@),
{
    hex::decode(s).ok()
}

/// Encodes bytes with `hex::encode`. Trusted: two lower-case hex digits per byte.
#[verifier::external_body]
pub(crate) fn hex_encode(b: &[u8]) -> (r: String)
    ensures
        r@ == hex_text(b@),
{
    hex::encode(b)
}

proof fn lemma_hex_char(v: int)
    requires
        0 <= v < 16,
    ensures
        is_hex_digit(lower_hex_char(v)),
        hex_digit_value(lower_hex_char(v)) == v,
{
}

/// Hex text of bytes is valid hex (lower-case digits, two per byte) and decodes back to
/// the same bytes.
pub proof fn lemma_hex_roundtrip(b: Seq<u8>)
    ensures
        all_hex_digits(hex_text(b)),
        hex_text(b).len() == 2 * b.len(),
        hex_bytes(hex_text(b)) == b,
{
    let t = hex_text(b);
    assert forall|i: int| 0 <= i < t.len() implies is_hex_digit(#[trigger] t[i]) by {
        let x = b[i / 2] as int;
        assert(0 <= x / 16 < 16 && 0 <= x % 16 < 16) by (nonlinear_arith)
            requires
                0 <= x < 256,
        ;
        lemma_hex_char(x / 16);
        lemma_hex_char(x % 16);
    }
    assert forall|i: int| 0 <= i < b.len() implies #[trigger] hex_bytes(t)[i] == b[i] by {
        let x = b[i] as int;
        assert(0 <= x / 16 < 16 && 0 <= x % 16 < 16 && (x / 16) * 16 + x % 16 == x) by (nonlinear_arith)
            requires
                0 <= x < 256,
        ;
        assert((2 * i) / 2 == i && (2 * i + 1) / 2 == i && (2 * i) % 2 == 0 && (2 * i + 1) % 2 == 1) by (nonlinear_arith);
        lemma_hex_char(x / 16);
        lemma_hex_char(x % 16);
        assert(t[2 * i] == lower_hex_char(x / 16));
        assert(t[2 * i + 1] == lower_hex_char(x % 16));
    }
    assert(hex_bytes(t) =~= b);
}

} // verus!

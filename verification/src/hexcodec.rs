//! Hexadecimal text, through the `hex` crate.

use vstd::prelude::*;

verus! {

/// The error that `hex::decode` reports.
#[verifier::external_type_specification]
#[verifier::external_body]
pub struct ExFromHexError(hex::FromHexError);

/// The lower-case hexadecimal digit of `n` (`n < 16`).
pub open spec fn hex_digit(n: int) -> char {
    if n < 10 {
        (48 + n) as char
    } else {
        (87 + n) as char
    }
}

/// The value of a hexadecimal digit of either case.
pub open spec fn hex_value(c: char) -> Option<u8> {
    let u = c as u32;
    if 48 <= u <= 57 {
        Some((u - 48) as u8)
    } else if 97 <= u <= 102 {
        Some((u - 87) as u8)
    } else if 65 <= u <= 70 {
        Some((u - 55) as u8)
    } else {
        None
    }
}

/// Lower-case hexadecimal text of `data`: two digits per byte, the high
/// nibble first.
pub open spec fn hex_encoding(data: Seq<u8>) -> Seq<char> {
    Seq::new(
        2 * data.len(),
        |i: int|
            if i % 2 == 0 {
                hex_digit(data[i / 2] as int / 16)
            } else {
                hex_digit(data[i / 2] as int % 16)
            },
    )
}

/// The bytes that hexadecimal text `s` stands for: `None` unless `s` has an
/// even number of characters, each a hexadecimal digit of either case.
pub open spec fn hex_decoding(s: Seq<char>) -> Option<Seq<u8>> {
    if s.len() % 2 == 0 && forall|i: int| 0 <= i < s.len() ==> (#[trigger] hex_value(s[i])) is Some {
        Some(
            Seq::new(
                s.len() / 2,
                |i: int| (hex_value(s[2 * i])->0 * 16 + hex_value(s[2 * i + 1])->0) as u8,
            ),
        )
    } else {
        None
    }
}

/// `hex::encode`: the lower-case hexadecimal text of `data`, as `hex_encoding`
/// states it (the crate maps each byte to two digits of `0123456789abcdef`,
/// high nibble first).
#[verifier::external_body]
pub(crate) fn hex_encode(data: &[u8]) -> (s: String)
    ensures
        s@ == hex_encoding(data@),
{
    hex::encode(data)
}

/// `hex::decode`: succeeds exactly when `hex_decoding` gives bytes, and then
/// gives those bytes (the crate refuses an odd length and any character that
/// is not a digit `0-9`, `a-f` or `A-F`, and combines each pair high nibble
/// first).
#[verifier::external_body]
pub(crate) fn hex_decode(s: &str) -> (r: Result<Vec<u8>, hex::FromHexError>)
    ensures
        r is Ok <==> hex_decoding(s@) is Some,
        r matches Ok(v) ==> hex_decoding(s@) == Some(v@),
{
    hex::decode(s)
}

/// Whether `s` is hexadecimal text that `hex::decode` accepts.
pub fn is_valid_hex(s: &str) -> (r: bool)
    ensures
        r == hex_decoding(s@) is Some,
{
    hex_decode(s).is_ok()
}

/// Each digit reads back as the nibble it was made from.
pub proof fn lemma_hex_digit_value(n: int)
    requires
        0 <= n < 16,
    ensures
        hex_value(hex_digit(n)) == Some(n as u8),
{
}

/// Hexadecimal text has two characters per byte.
pub proof fn lemma_hex_encoding_len(data: Seq<u8>)
    ensures
        hex_encoding(data).len() == 2 * data.len(),
{
}

/// Decoding the hexadecimal text of some bytes gives those bytes back.
pub proof fn lemma_hex_round_trip(data: Seq<u8>)
    ensures
        hex_decoding(hex_encoding(data)) == Some(data),
{
    let s = hex_encoding(data);
    assert forall|i: int| 0 <= i < s.len() implies (#[trigger] hex_value(s[i])) is Some by {
        let b = data[i / 2] as int;
        assert(0 <= b / 16 < 16 && 0 <= b % 16 < 16) by (nonlinear_arith)
            requires
                0 <= b < 256,
        ;
        lemma_hex_digit_value(b / 16);
        lemma_hex_digit_value(b % 16);
    }
    let d = hex_decoding(s)->0;
    assert forall|i: int| 0 <= i < data.len() implies d[i] == data[i] by {
        let b = data[i] as int;
        assert((2 * i) / 2 == i && (2 * i) % 2 == 0 && (2 * i + 1) / 2 == i && (2 * i + 1) % 2
            == 1);
        assert(0 <= b / 16 < 16 && 0 <= b % 16 < 16 && (b / 16) * 16 + b % 16 == b)
            by (nonlinear_arith)
            requires
                0 <= b < 256,
        ;
        lemma_hex_digit_value(b / 16);
        lemma_hex_digit_value(b % 16);
    }
    assert(d =~= data);
}

/// Different bytes have different hexadecimal text.
pub proof fn lemma_hex_encoding_injective(a: Seq<u8>, b: Seq<u8>)
    ensures
        hex_encoding(a) == hex_encoding(b) <==> a == b,
{
    lemma_hex_round_trip(a);
    lemma_hex_round_trip(b);
}

/// The upper-case hexadecimal digit of `n` (`n < 16`).
pub open spec fn hex_digit_upper(n: int) -> char {
    if n < 10 {
        (48 + n) as char
    } else {
        (55 + n) as char
    }
}

/// Upper-case hexadecimal text of `data`, high nibble first.
pub open spec fn hex_encoding_upper(data: Seq<u8>) -> Seq<char> {
    Seq::new(
        2 * data.len(),
        |i: int|
            if i % 2 == 0 {
                hex_digit_upper(data[i / 2] as int / 16)
            } else {
                hex_digit_upper(data[i / 2] as int % 16)
            },
    )
}

/// Decoding does not depend on case: upper-case hexadecimal text of some
/// bytes decodes to those bytes too; and text of odd length never decodes.
pub proof fn lemma_hex_decoding_ignores_case(data: Seq<u8>, odd: Seq<char>)
    ensures
        hex_decoding(hex_encoding_upper(data)) == Some(data),
        odd.len() % 2 == 1 ==> hex_decoding(odd) is None,
{
    let s = hex_encoding_upper(data);
    assert forall|i: int| 0 <= i < s.len() implies (#[trigger] hex_value(s[i])) is Some by {
        let b = data[i / 2] as int;
        assert(0 <= b / 16 < 16 && 0 <= b % 16 < 16) by (nonlinear_arith)
            requires
                0 <= b < 256,
        ;
    }
    let d = hex_decoding(s)->0;
    assert forall|i: int| 0 <= i < data.len() implies d[i] == data[i] by {
        let b = data[i] as int;
        assert((2 * i) / 2 == i && (2 * i) % 2 == 0 && (2 * i + 1) / 2 == i && (2 * i + 1) % 2
            == 1);
        assert(0 <= b / 16 < 16 && 0 <= b % 16 < 16 && (b / 16) * 16 + b % 16 == b)
            by (nonlinear_arith)
            requires
                0 <= b < 256,
        ;
    }
    assert(d =~= data);
}

} // verus!

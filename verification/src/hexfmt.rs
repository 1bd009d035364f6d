//! Hexadecimal encoding and decoding of byte strings.
//!
//! The executable work is done by the `hex` crate behind two trusted
//! wrappers; the spec functions here state exactly what those calls return.

use vstd::prelude::*;

verus! {

/// True of the ASCII code of a hexadecimal digit, either case.
pub open spec fn is_hex_digit(b: u8) -> bool {
    (48 <= b <= 57) || (97 <= b <= 102) || (65 <= b <= 70)
}

/// The value of one hexadecimal digit given by its ASCII code.
pub open spec fn hex_digit_val(b: u8) -> u8
    recommends
        is_hex_digit(b),
{
    if 48 <= b <= 57 {
        (b - 48) as u8
    } else if 97 <= b <= 102 {
        (b - 87) as u8
    } else {
        (b - 55) as u8
    }
}

/// True when a byte string is a well-formed hexadecimal spelling:
/// even length, every byte the ASCII code of a hex digit.
pub open spec fn hex_ok(s: Seq<u8>) -> bool {
    s.len() % 2 == 0 && (forall|i: int| 0 <= i < s.len() ==> is_hex_digit(#[trigger] s[i]))
}

/// The bytes spelled by a well-formed hexadecimal byte string,
/// two digits per byte, high digit first.
pub open spec fn hex_bytes(s: Seq<u8>) -> Seq<u8>
    recommends
        hex_ok(s),
{
    Seq::new(
        s.len() / 2,
        |i: int| (16 * hex_digit_val(s[2 * i]) + hex_digit_val(s[2 * i + 1])) as u8,
    )
}

/// The lowercase ASCII code of the hexadecimal digit of a value below 16.
pub open spec fn lower_hex_digit(v: u8) -> char
    recommends
        v < 16,
{
    if v < 10 {
        ((48 + v) as u8) as char
    } else {
        ((87 + v) as u8) as char
    }
}

/// The lowercase hexadecimal spelling of a byte string:
/// two digits per byte, high digit first.
pub open spec fn hex_chars(b: Seq<u8>) -> Seq<char> {
    Seq::new(
        2 * b.len(),
        |i: int| if i % 2 == 0 {
            lower_hex_digit(b[i / 2] / 16)
        } else {
            lower_hex_digit(b[i / 2] % 16)
        },
    )
}

/// Relies on hex::encode: one pair of lowercase digits per input byte,
/// high digit first, in input order.
#[verifier::external_body]
pub(crate) fn hex_encode(b: &[u8]) -> (r: String)
    ensures
        r@ == hex_chars(b@),
{
    hex::encode(b)
}

/// Relies on hex::decode: fails exactly on an odd-length input or a byte
/// that is not an ASCII hex digit; otherwise decodes each digit pair,
/// high digit first.
#[verifier::external_body]
pub(crate) fn hex_decode(s: &[u8]) -> (r: Option<Vec<u8>>)
    ensures
        r is Some <==> hex_ok(s@),
        r matches Some(v) ==> v@ == hex_bytes(s@),
{
    match hex::decode(s) {
        Ok(v) => Some(v),
        Err(_) => None,
    }
}

} // verus!

//! Field normalization: fixed fallback values for absent or malformed
//! source fields, so one defective transaction never blocks its block.

use vstd::prelude::*;
use vstd::slice::slice_to_vec;
use crate::decimal::dec_digits;
use crate::decimal::u64_to_dec;
use crate::hexfmt::hex_chars;
use crate::hexfmt::hex_encode;

verus! {

/// A run of zero bytes of the given length.
pub open spec fn zero_bytes(n: nat) -> Seq<u8> {
    Seq::new(n, |i: int| 0u8)
}

/// The normalized form of an optional big-number field: "0x0" when the
/// wrapper is absent or holds no bytes, otherwise "0x" followed by the
/// lowercase hex spelling of the raw bytes, byte order preserved and
/// leading zeros kept.
pub open spec fn quantity_label(v: Option<Seq<u8>>) -> Seq<char> {
    match v {
        Option::None => "0x0"@,
        Option::Some(b) => if b.len() == 0 {
            "0x0"@
        } else {
            "0x"@ + hex_chars(b)
        },
    }
}

/// The normalized form of the gas limit: its decimal string when
/// positive, the minimum valid transaction gas cost when zero.
pub open spec fn gas_limit_label(g: u64) -> Seq<char> {
    if g > 0 {
        dec_digits(g as nat)
    } else {
        "21000"@
    }
}

/// The normalized form of the access list, from its entry count: "0x"
/// when empty, otherwise a hex-prefixed zero-filled placeholder of one
/// byte per entry.
pub open spec fn access_list_label(n: nat) -> Seq<char> {
    if n > 0 {
        "0x"@ + hex_chars(zero_bytes(n))
    } else {
        "0x"@
    }
}

/// The normalized sender: itself when present, the 20-byte zero address
/// when empty.
pub open spec fn from_label(from: Seq<u8>) -> Seq<u8> {
    if from.len() > 0 {
        from
    } else {
        zero_bytes(20)
    }
}

/// The record identifier: the transaction hash when present, a fixed
/// 32-byte zero placeholder when empty.
pub open spec fn id_label(hash: Seq<u8>) -> Seq<u8> {
    if hash.len() > 0 {
        hash
    } else {
        zero_bytes(32)
    }
}

/// A vector of zero bytes of the given length.
fn zero_vec(n: usize) -> (r: Vec<u8>)
    ensures
        r@ == zero_bytes(n as nat),
{
    let mut v: Vec<u8> = Vec::new();
    let mut i: usize = 0;
    while i < n
        invariant
            0 <= i <= n,
            v@ =~= zero_bytes(i as nat),
        decreases n - i,
    {
        v.push(0u8);
        i = i + 1;
        proof {
            assert(v@ =~= zero_bytes(i as nat));
        }
    }
    proof {
        assert(v@ =~= zero_bytes(n as nat));
    }
    v
}

/// Normalizes one optional big-number field.
pub fn normalize_quantity(v: &Option<Vec<u8>>) -> (r: String)
    ensures
        r@ == quantity_label(crate::trace::opt_bytes_view(*v)),
{
    match v {
        Option::None => String::from_str("0x0"),
        Option::Some(b) => {
            if b.len() == 0 {
                String::from_str("0x0")
            } else {
                let prefix = String::from_str("0x");
                let digits = hex_encode(b.as_slice());
                prefix.concat(digits.as_str())
            }
        },
    }
}

/// Normalizes the gas limit.
pub fn normalize_gas_limit(g: u64) -> (r: String)
    ensures
        r@ == gas_limit_label(g),
{
    if g > 0 {
        u64_to_dec(g)
    } else {
        String::from_str("21000")
    }
}

/// Normalizes the access list from its entry count.
pub fn normalize_access_list(n: usize) -> (r: String)
    ensures
        r@ == access_list_label(n as nat),
{
    if n > 0 {
        let fill = zero_vec(n);
        let prefix = String::from_str("0x");
        prefix.concat(hex_encode(fill.as_slice()).as_str())
    } else {
        String::from_str("0x")
    }
}

/// Normalizes the sender address.
pub fn normalize_from(from: &Vec<u8>) -> (r: Vec<u8>)
    ensures
        r@ == from_label(from@),
{
    if from.len() > 0 {
        slice_to_vec(from.as_slice())
    } else {
        zero_vec(20)
    }
}

/// Normalizes the record identifier.
pub fn normalize_id(hash: &Vec<u8>) -> (r: Vec<u8>)
    ensures
        r@ == id_label(hash@),
{
    if hash.len() > 0 {
        slice_to_vec(hash.as_slice())
    } else {
        zero_vec(32)
    }
}

/// Law: an absent or empty big-number field normalizes to exactly "0x0".
pub proof fn lemma_quantity_fallback(v: Option<Seq<u8>>)
    requires
        v matches Option::Some(b) ==> b.len() == 0,
    ensures
        quantity_label(v) == "0x0"@,
{
}

/// Law: a zero gas limit normalizes to exactly "21000", and a positive
/// one to exactly its decimal string.
pub proof fn lemma_gas_limit_exact(g: u64)
    ensures
        g == 0 ==> gas_limit_label(g) == "21000"@,
        g > 0 ==> gas_limit_label(g) == dec_digits(g as nat),
{
}

} // verus!

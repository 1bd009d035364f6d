//! The wire form of `TxRecords`: a tag-length-value message layout with
//! variable-length integers, encoded and decoded by verified code, with a
//! proof that decoding inverts encoding.
//!
//! Tags are one byte each, the field number shifted left by three bits or-ed
//! with the wire type (two for length-delimited, zero for an integer):
//! records 0x0A; record id 0x0A, kind 0x12, raw 0x1A, decoded 0x22; raw
//! fields 0x0A to 0x4A in declaration order and tx_type 0x50; decoded
//! fields 0x0A to 0x2A with each repeated argument under 0x1A.

use vstd::prelude::*;
use vstd::slice::slice_index_get;
use vstd::slice::slice_subrange;
use vstd::slice::slice_to_vec;
use vstd::utf8::encode_utf8;
use vstd::utf8::decode_utf8;
use vstd::utf8::valid_utf8;
use vstd::utf8::encode_utf8_valid_utf8;
use vstd::utf8::encode_utf8_decode_utf8;
use vstd::arithmetic::div_mod::lemma_fundamental_div_mod;
use crate::records::Decoded;
use crate::records::DecodedView;
use crate::records::Raw;
use crate::records::RawView;
use crate::records::TxRecord;
use crate::records::TxRecordView;
use crate::records::TxRecords;

verus! {

/// The variable-length spelling of an unsigned integer: seven bits per
/// byte, least significant group first, the high bit marking continuation.
pub open spec fn varint(n: nat) -> Seq<u8>
    decreases n,
{
    if n < 128 {
        seq![n as u8]
    } else {
        seq![(128 + n % 128) as u8] + varint(n / 128)
    }
}

/// A length-delimited field: tag, payload length, payload.
pub open spec fn enc_bytes_field(tag: u8, payload: Seq<u8>) -> Seq<u8> {
    seq![tag] + varint(payload.len()) + payload
}

/// A string field: its characters in their unique byte encoding.
pub open spec fn enc_str_field(tag: u8, s: Seq<char>) -> Seq<u8> {
    enc_bytes_field(tag, encode_utf8(s))
}

/// An integer field: tag, then the value's variable-length spelling.
pub open spec fn enc_varint_field(tag: u8, value: nat) -> Seq<u8> {
    seq![tag] + varint(value)
}

/// The wire form of the normalized raw fields.
pub open spec fn enc_raw(r: RawView) -> Seq<u8> {
    enc_bytes_field(0x0A, r.from) + enc_bytes_field(0x12, r.to) + enc_str_field(0x1A, r.value)
        + enc_str_field(0x22, r.gas_limit) + enc_str_field(0x2A, r.gas_price) + enc_str_field(
        0x32,
        r.max_fee_per_gas,
    ) + enc_str_field(0x3A, r.max_priority_fee_per_gas) + enc_str_field(0x42, r.access_list)
        + enc_bytes_field(0x4A, r.data) + enc_varint_field(0x50, r.tx_type as nat)
}

/// The wire form of a run of repeated argument strings.
pub open spec fn enc_args(args: Seq<Seq<char>>) -> Seq<u8>
    decreases args.len(),
{
    if args.len() == 0 {
        Seq::<u8>::empty()
    } else {
        enc_str_field(0x1A, args.first()) + enc_args(args.drop_first())
    }
}

/// The wire form of a decoded-arguments section.
pub open spec fn enc_decoded(d: DecodedView) -> Seq<u8> {
    enc_str_field(0x0A, d.selector) + (enc_str_field(0x12, d.fn_sig) + (enc_args(d.args)
        + (enc_str_field(0x22, d.abi_source) + enc_str_field(0x2A, d.args_json))))
}

/// The wire form of one record; an absent section is simply omitted.
pub open spec fn enc_record(r: TxRecordView) -> Seq<u8> {
    enc_bytes_field(0x0A, r.id) + (enc_str_field(0x12, r.kind) + ((match r.raw {
        Option::Some(raw) => enc_bytes_field(0x1A, enc_raw(raw)),
        Option::None => Seq::<u8>::empty(),
    }) + (match r.decoded {
        Option::Some(d) => enc_bytes_field(0x22, enc_decoded(d)),
        Option::None => Seq::<u8>::empty(),
    })))
}

/// The wire form of a whole output: each record as one repeated field.
pub open spec fn enc_records(rs: Seq<TxRecordView>) -> Seq<u8>
    decreases rs.len(),
{
    if rs.len() == 0 {
        Seq::<u8>::empty()
    } else {
        enc_bytes_field(0x0A, enc_record(rs.first())) + enc_records(rs.drop_first())
    }
}

/// One step of `enc_args` taken at the back.
proof fn lemma_enc_args_push(args: Seq<Seq<char>>, a: Seq<char>)
    ensures
        enc_args(args.push(a)) == enc_args(args) + enc_str_field(0x1A, a),
    decreases args.len(),
{
    if args.len() == 0 {
        assert(args.push(a).first() == a);
        assert(args.push(a).drop_first() =~= Seq::<Seq<char>>::empty());
        assert(enc_args(args.push(a)) == enc_str_field(0x1A, a) + enc_args(
            Seq::<Seq<char>>::empty(),
        ));
        assert(enc_args(args.push(a)) =~= enc_args(args) + enc_str_field(0x1A, a));
    } else {
        assert(args.push(a).first() == args.first());
        assert(args.push(a).drop_first() =~= args.drop_first().push(a));
        lemma_enc_args_push(args.drop_first(), a);
        assert(enc_args(args.push(a)) =~= enc_args(args) + enc_str_field(0x1A, a));
    }
}

/// One step of `enc_records` taken at the back.
proof fn lemma_enc_records_push(rs: Seq<TxRecordView>, r: TxRecordView)
    ensures
        enc_records(rs.push(r)) == enc_records(rs) + enc_bytes_field(0x0A, enc_record(r)),
    decreases rs.len(),
{
    if rs.len() == 0 {
        assert(rs.push(r).first() == r);
        assert(rs.push(r).drop_first() =~= Seq::<TxRecordView>::empty());
        assert(enc_records(rs.push(r)) == enc_bytes_field(0x0A, enc_record(r)) + enc_records(
            Seq::<TxRecordView>::empty(),
        ));
        assert(enc_records(rs.push(r)) =~= enc_records(rs) + enc_bytes_field(
            0x0A,
            enc_record(r),
        ));
    } else {
        assert(rs.push(r).first() == rs.first());
        assert(rs.push(r).drop_first() =~= rs.drop_first().push(r));
        lemma_enc_records_push(rs.drop_first(), r);
        assert(enc_records(rs.push(r)) =~= enc_records(rs) + enc_bytes_field(
            0x0A,
            enc_record(r),
        ));
    }
}

/// Appends the variable-length spelling of `n`.
fn push_varint(out: &mut Vec<u8>, n: u64)
    ensures
        final(out)@ == old(out)@ + varint(n as nat),
{
    let mut cur: u64 = n;
    while cur >= 128
        invariant
            old(out)@ + varint(n as nat) == out@ + varint(cur as nat),
        decreases cur,
    {
        let ghost prev = cur as nat;
        out.push((128 + (cur % 128) as u8) as u8);
        cur = cur / 128;
        proof {
            assert(varint(prev) =~= seq![(128 + prev % 128) as u8] + varint(prev / 128));
            assert(old(out)@ + varint(n as nat) =~= out@ + varint(cur as nat));
        }
    }
    out.push(cur as u8);
    proof {
        assert(varint(cur as nat) =~= seq![cur as u8]);
        assert(final(out)@ =~= old(out)@ + varint(n as nat));
    }
}

/// Appends a byte string verbatim.
fn push_bytes(out: &mut Vec<u8>, b: &[u8])
    ensures
        final(out)@ == old(out)@ + b@,
{
    let mut i: usize = 0;
    while i < b.len()
        invariant
            i <= b@.len(),
            out@ == old(out)@ + b@.take(i as int),
        decreases b@.len() - i,
    {
        out.push(*slice_index_get(b, i));
        i = i + 1;
        proof {
            assert(old(out)@ + b@.take(i as int) =~= out@);
        }
    }
    proof {
        assert(b@.take(i as int) =~= b@);
    }
}

/// Appends one length-delimited field.
fn push_bytes_field(out: &mut Vec<u8>, tag: u8, b: &[u8])
    ensures
        final(out)@ == old(out)@ + enc_bytes_field(tag, b@),
{
    out.push(tag);
    push_varint(out, b.len() as u64);
    push_bytes(out, b);
    proof {
        assert(final(out)@ =~= old(out)@ + enc_bytes_field(tag, b@));
    }
}

/// Appends one string field.
fn push_str_field(out: &mut Vec<u8>, tag: u8, s: &str)
    ensures
        final(out)@ == old(out)@ + enc_str_field(tag, s@),
{
    let b = s.as_bytes();
    push_bytes_field(out, tag, b);
}

/// The wire bytes of one normalized raw section.
fn encode_raw(r: &Raw) -> (out: Vec<u8>)
    ensures
        out@ == enc_raw(r@),
{
    let mut out: Vec<u8> = Vec::new();
    push_bytes_field(&mut out, 0x0A, r.from.as_slice());
    push_bytes_field(&mut out, 0x12, r.to.as_slice());
    push_str_field(&mut out, 0x1A, r.value.as_str());
    push_str_field(&mut out, 0x22, r.gas_limit.as_str());
    push_str_field(&mut out, 0x2A, r.gas_price.as_str());
    push_str_field(&mut out, 0x32, r.max_fee_per_gas.as_str());
    push_str_field(&mut out, 0x3A, r.max_priority_fee_per_gas.as_str());
    push_str_field(&mut out, 0x42, r.access_list.as_str());
    push_bytes_field(&mut out, 0x4A, r.data.as_slice());
    out.push(0x50);
    push_varint(&mut out, r.tx_type as u64);
    proof {
        assert(out@ =~= enc_raw(r@));
    }
    out
}

/// The wire bytes of one decoded-arguments section.
fn encode_decoded(d: &Decoded) -> (out: Vec<u8>)
    ensures
        out@ == enc_decoded(d@),
{
    let mut out: Vec<u8> = Vec::new();
    push_str_field(&mut out, 0x0A, d.selector.as_str());
    push_str_field(&mut out, 0x12, d.fn_sig.as_str());
    let ghost head = out@;
    let mut i: usize = 0;
    while i < d.args.len()
        invariant
            i <= d.args@.len(),
            out@ == head + enc_args(Seq::new(i as nat, |j: int| d.args@[j]@)),
        decreases d.args@.len() - i,
    {
        let ghost done = Seq::new(i as nat, |j: int| d.args@[j]@);
        push_str_field(&mut out, 0x1A, d.args[i].as_str());
        i = i + 1;
        proof {
            lemma_enc_args_push(done, d.args@[i - 1]@);
            assert(Seq::new(i as nat, |j: int| d.args@[j]@) =~= done.push(d.args@[i - 1]@));
        }
    }
    push_str_field(&mut out, 0x22, d.abi_source.as_str());
    push_str_field(&mut out, 0x2A, d.args_json.as_str());
    proof {
        assert(Seq::new(i as nat, |j: int| d.args@[j]@) =~= d@.args);
        assert(out@ =~= enc_decoded(d@));
    }
    out
}

/// The wire bytes of one record.
fn encode_record(r: &TxRecord) -> (out: Vec<u8>)
    ensures
        out@ == enc_record(r@),
{
    let mut out: Vec<u8> = Vec::new();
    push_bytes_field(&mut out, 0x0A, r.id.as_slice());
    push_str_field(&mut out, 0x12, r.kind.as_str());
    match &r.raw {
        Option::Some(raw) => {
            let payload = encode_raw(raw);
            push_bytes_field(&mut out, 0x1A, payload.as_slice());
        },
        Option::None => {},
    }
    match &r.decoded {
        Option::Some(d) => {
            let payload = encode_decoded(d);
            push_bytes_field(&mut out, 0x22, payload.as_slice());
        },
        Option::None => {},
    }
    proof {
        assert(out@ =~= enc_record(r@));
    }
    out
}

/// Encodes a whole output into its wire bytes.
pub fn encode_tx_records(rs: &TxRecords) -> (out: Vec<u8>)
    ensures
        out@ == enc_records(rs@),
{
    let mut out: Vec<u8> = Vec::new();
    let mut i: usize = 0;
    while i < rs.records.len()
        invariant
            i <= rs.records@.len(),
            out@ == enc_records(Seq::new(i as nat, |j: int| rs.records@[j]@)),
        decreases rs.records@.len() - i,
    {
        let ghost done = Seq::new(i as nat, |j: int| rs.records@[j]@);
        let payload = encode_record(&rs.records[i]);
        push_bytes_field(&mut out, 0x0A, payload.as_slice());
        i = i + 1;
        proof {
            lemma_enc_records_push(done, rs.records@[i - 1]@);
            assert(Seq::new(i as nat, |j: int| rs.records@[j]@) =~= done.push(
                rs.records@[i - 1]@,
            ));
        }
    }
    proof {
        assert(Seq::new(i as nat, |j: int| rs.records@[j]@) =~= rs@);
    }
    out
}

} // verus!

verus! {

/// Parses one variable-length integer from the front of the input:
/// the value and the remainder.
pub open spec fn parse_varint(s: Seq<u8>) -> Option<(nat, Seq<u8>)>
    decreases s.len(),
{
    if s.len() == 0 {
        Option::None
    } else if s[0] < 128 {
        Option::Some((s[0] as nat, s.drop_first()))
    } else {
        match parse_varint(s.drop_first()) {
            Option::Some(q) => Option::Some((((s[0] - 128) + 128 * q.0) as nat, q.1)),
            Option::None => Option::None,
        }
    }
}

/// Parses one length-delimited field under the given tag: the payload
/// and the remainder.
pub open spec fn parse_bytes_field(tag: u8, s: Seq<u8>) -> Option<(Seq<u8>, Seq<u8>)> {
    if s.len() == 0 || s[0] != tag {
        Option::None
    } else {
        match parse_varint(s.drop_first()) {
            Option::Some(q) => if q.0 <= q.1.len() {
                Option::Some((q.1.take(q.0 as int), q.1.skip(q.0 as int)))
            } else {
                Option::None
            },
            Option::None => Option::None,
        }
    }
}

/// Parses one string field: its payload must be a valid character
/// encoding.
pub open spec fn parse_str_field(tag: u8, s: Seq<u8>) -> Option<(Seq<char>, Seq<u8>)> {
    match parse_bytes_field(tag, s) {
        Option::Some(q) => if valid_utf8(q.0) {
            Option::Some((decode_utf8(q.0), q.1))
        } else {
            Option::None
        },
        Option::None => Option::None,
    }
}

/// Parses one integer field whose value must fit 32 bits.
pub open spec fn parse_u32_field(tag: u8, s: Seq<u8>) -> Option<(u32, Seq<u8>)> {
    if s.len() == 0 || s[0] != tag {
        Option::None
    } else {
        match parse_varint(s.drop_first()) {
            Option::Some(q) => if q.0 <= u32::MAX {
                Option::Some((q.0 as u32, q.1))
            } else {
                Option::None
            },
            Option::None => Option::None,
        }
    }
}

/// Parses a complete raw section: all ten fields in order, nothing left.
pub open spec fn parse_raw(s: Seq<u8>) -> Option<RawView> {
    match parse_bytes_field(0x0A, s) {
        Option::None => Option::None,
        Option::Some((from, s1)) => match parse_bytes_field(0x12, s1) {
            Option::None => Option::None,
            Option::Some((to, s2)) => match parse_str_field(0x1A, s2) {
                Option::None => Option::None,
                Option::Some((value, s3)) => match parse_str_field(0x22, s3) {
                    Option::None => Option::None,
                    Option::Some((gas_limit, s4)) => match parse_str_field(0x2A, s4) {
                        Option::None => Option::None,
                        Option::Some((gas_price, s5)) => match parse_str_field(0x32, s5) {
                            Option::None => Option::None,
                            Option::Some((max_fee, s6)) => match parse_str_field(0x3A, s6) {
                                Option::None => Option::None,
                                Option::Some((max_prio, s7)) => match parse_str_field(0x42, s7) {
                                    Option::None => Option::None,
                                    Option::Some((access, s8)) => match parse_bytes_field(
                                        0x4A,
                                        s8,
                                    ) {
                                        Option::None => Option::None,
                                        Option::Some((data, s9)) => match parse_u32_field(
                                            0x50,
                                            s9,
                                        ) {
                                            Option::None => Option::None,
                                            Option::Some((tx_type, s10)) => if s10.len() == 0 {
                                                Option::Some(
                                                    RawView {
                                                        from,
                                                        to,
                                                        value,
                                                        gas_limit,
                                                        gas_price,
                                                        max_fee_per_gas: max_fee,
                                                        max_priority_fee_per_gas: max_prio,
                                                        access_list: access,
                                                        data,
                                                        tx_type,
                                                    },
                                                )
                                            } else {
                                                Option::None
                                            },
                                        },
                                    },
                                },
                            },
                        },
                    },
                },
            },
        },
    }
}

/// Parses the run of repeated argument strings: every consecutive field
/// under the argument tag, and the remainder.
pub open spec fn parse_args(s: Seq<u8>) -> Option<(Seq<Seq<char>>, Seq<u8>)>
    decreases s.len(),
{
    if s.len() > 0 && s[0] == 0x1A {
        match parse_str_field(0x1A, s) {
            Option::Some(q) => if q.1.len() < s.len() {
                match parse_args(q.1) {
                    Option::Some(t) => Option::Some((seq![q.0] + t.0, t.1)),
                    Option::None => Option::None,
                }
            } else {
                Option::None
            },
            Option::None => Option::None,
        }
    } else {
        Option::Some((Seq::<Seq<char>>::empty(), s))
    }
}

/// Parses a complete decoded-arguments section, nothing left.
pub open spec fn parse_decoded(s: Seq<u8>) -> Option<DecodedView> {
    match parse_str_field(0x0A, s) {
        Option::None => Option::None,
        Option::Some((selector, s1)) => match parse_str_field(0x12, s1) {
            Option::None => Option::None,
            Option::Some((fn_sig, s2)) => match parse_args(s2) {
                Option::None => Option::None,
                Option::Some((args, s3)) => match parse_str_field(0x22, s3) {
                    Option::None => Option::None,
                    Option::Some((abi_source, s4)) => match parse_str_field(0x2A, s4) {
                        Option::None => Option::None,
                        Option::Some((args_json, s5)) => if s5.len() == 0 {
                            Option::Some(
                                DecodedView { selector, fn_sig, args, abi_source, args_json },
                            )
                        } else {
                            Option::None
                        },
                    },
                },
            },
        },
    }
}

/// Parses the optional raw section: present exactly when its tag opens
/// the remainder.
pub open spec fn parse_opt_raw(s: Seq<u8>) -> Option<(Option<RawView>, Seq<u8>)> {
    if s.len() > 0 && s[0] == 0x1A {
        match parse_bytes_field(0x1A, s) {
            Option::None => Option::None,
            Option::Some((payload, rest)) => match parse_raw(payload) {
                Option::None => Option::None,
                Option::Some(raw) => Option::Some((Option::Some(raw), rest)),
            },
        }
    } else {
        Option::Some((Option::None, s))
    }
}

/// Parses the optional decoded section.
pub open spec fn parse_opt_decoded(s: Seq<u8>) -> Option<(Option<DecodedView>, Seq<u8>)> {
    if s.len() > 0 && s[0] == 0x22 {
        match parse_bytes_field(0x22, s) {
            Option::None => Option::None,
            Option::Some((payload, rest)) => match parse_decoded(payload) {
                Option::None => Option::None,
                Option::Some(d) => Option::Some((Option::Some(d), rest)),
            },
        }
    } else {
        Option::Some((Option::None, s))
    }
}

/// Parses one complete record, nothing left.
pub open spec fn parse_record(s: Seq<u8>) -> Option<TxRecordView> {
    match parse_bytes_field(0x0A, s) {
        Option::None => Option::None,
        Option::Some((id, s1)) => match parse_str_field(0x12, s1) {
            Option::None => Option::None,
            Option::Some((kind, s2)) => match parse_opt_raw(s2) {
                Option::None => Option::None,
                Option::Some((raw, s3)) => match parse_opt_decoded(s3) {
                    Option::None => Option::None,
                    Option::Some((decoded, s4)) => if s4.len() == 0 {
                        Option::Some(TxRecordView { id, kind, raw, decoded })
                    } else {
                        Option::None
                    },
                },
            },
        },
    }
}

/// Parses a whole output: one record per repeated field, to the end.
pub open spec fn parse_records(s: Seq<u8>) -> Option<Seq<TxRecordView>>
    decreases s.len(),
{
    if s.len() == 0 {
        Option::Some(Seq::<TxRecordView>::empty())
    } else {
        match parse_bytes_field(0x0A, s) {
            Option::None => Option::None,
            Option::Some((payload, rest)) => if rest.len() < s.len() {
                match (parse_record(payload), parse_records(rest)) {
                    (Option::Some(r), Option::Some(more)) => Option::Some(seq![r] + more),
                    _ => Option::None,
                }
            } else {
                Option::None
            },
        }
    }
}

/// A variable-length spelling is never empty.
proof fn lemma_varint_len(n: nat)
    ensures
        varint(n).len() >= 1,
    decreases n,
{
    if n >= 128 {
        lemma_varint_len(n / 128);
    }
}

/// Parsing inverts the variable-length spelling, whatever follows it.
proof fn lemma_parse_varint_enc(n: nat, rest: Seq<u8>)
    ensures
        parse_varint(varint(n) + rest) == Option::Some((n, rest)),
    decreases n,
{
    let s = varint(n) + rest;
    if n < 128 {
        assert(s[0] == n as u8);
        assert(s.drop_first() =~= rest);
    } else {
        assert(s[0] == (128 + n % 128) as u8);
        assert(s.drop_first() =~= varint(n / 128) + rest);
        lemma_parse_varint_enc(n / 128, rest);
        assert((s[0] - 128) + 128 * (n / 128) == n) by {
            lemma_fundamental_div_mod(n as int, 128);
        }
    }
}

/// Parsing inverts a length-delimited field, whatever follows it.
proof fn lemma_parse_bytes_field_enc(tag: u8, payload: Seq<u8>, rest: Seq<u8>)
    ensures
        parse_bytes_field(tag, enc_bytes_field(tag, payload) + rest) == Option::Some(
            (payload, rest),
        ),
{
    let s = enc_bytes_field(tag, payload) + rest;
    lemma_varint_len(payload.len());
    assert(s.len() > 0);
    assert(s[0] == tag);
    assert(s.drop_first() =~= varint(payload.len()) + (payload + rest));
    lemma_parse_varint_enc(payload.len(), payload + rest);
    assert((payload + rest).take(payload.len() as int) =~= payload);
    assert((payload + rest).skip(payload.len() as int) =~= rest);
}

/// Parsing inverts a string field, whatever follows it.
proof fn lemma_parse_str_field_enc(tag: u8, s: Seq<char>, rest: Seq<u8>)
    ensures
        parse_str_field(tag, enc_str_field(tag, s) + rest) == Option::Some((s, rest)),
{
    lemma_parse_bytes_field_enc(tag, encode_utf8(s), rest);
    encode_utf8_valid_utf8(s);
    encode_utf8_decode_utf8(s);
}

/// Parsing inverts an integer field, whatever follows it.
proof fn lemma_parse_u32_field_enc(tag: u8, v: u32, rest: Seq<u8>)
    ensures
        parse_u32_field(tag, enc_varint_field(tag, v as nat) + rest) == Option::Some((v, rest)),
{
    let s = enc_varint_field(tag, v as nat) + rest;
    lemma_varint_len(v as nat);
    assert(s[0] == tag);
    assert(s.drop_first() =~= varint(v as nat) + rest);
    lemma_parse_varint_enc(v as nat, rest);
}

/// A length-delimited field occupies at least two bytes.
proof fn lemma_field_len(tag: u8, payload: Seq<u8>)
    ensures
        enc_bytes_field(tag, payload).len() >= 2,
{
    lemma_varint_len(payload.len());
}

/// The wire suffix of the raw section from each field on; the first
/// suffix is the whole section.
pub open spec fn raw_rest10(r: RawView) -> Seq<u8> {
    enc_varint_field(0x50, r.tx_type as nat)
}

pub open spec fn raw_rest9(r: RawView) -> Seq<u8> {
    enc_bytes_field(0x4A, r.data) + raw_rest10(r)
}

pub open spec fn raw_rest8(r: RawView) -> Seq<u8> {
    enc_str_field(0x42, r.access_list) + raw_rest9(r)
}

pub open spec fn raw_rest7(r: RawView) -> Seq<u8> {
    enc_str_field(0x3A, r.max_priority_fee_per_gas) + raw_rest8(r)
}

pub open spec fn raw_rest6(r: RawView) -> Seq<u8> {
    enc_str_field(0x32, r.max_fee_per_gas) + raw_rest7(r)
}

pub open spec fn raw_rest5(r: RawView) -> Seq<u8> {
    enc_str_field(0x2A, r.gas_price) + raw_rest6(r)
}

pub open spec fn raw_rest4(r: RawView) -> Seq<u8> {
    enc_str_field(0x22, r.gas_limit) + raw_rest5(r)
}

pub open spec fn raw_rest3(r: RawView) -> Seq<u8> {
    enc_str_field(0x1A, r.value) + raw_rest4(r)
}

pub open spec fn raw_rest2(r: RawView) -> Seq<u8> {
    enc_bytes_field(0x12, r.to) + raw_rest3(r)
}

pub open spec fn raw_rest1(r: RawView) -> Seq<u8> {
    enc_bytes_field(0x0A, r.from) + raw_rest2(r)
}

proof fn lemma_raw_step1(r: RawView)
    ensures
        parse_bytes_field(0x0A, raw_rest1(r)) == Option::Some((r.from, raw_rest2(r))),
{
    lemma_parse_bytes_field_enc(0x0A, r.from, raw_rest2(r));
}

proof fn lemma_raw_step2(r: RawView)
    ensures
        parse_bytes_field(0x12, raw_rest2(r)) == Option::Some((r.to, raw_rest3(r))),
{
    lemma_parse_bytes_field_enc(0x12, r.to, raw_rest3(r));
}

proof fn lemma_raw_step3(r: RawView)
    ensures
        parse_str_field(0x1A, raw_rest3(r)) == Option::Some((r.value, raw_rest4(r))),
{
    lemma_parse_str_field_enc(0x1A, r.value, raw_rest4(r));
}

proof fn lemma_raw_step4(r: RawView)
    ensures
        parse_str_field(0x22, raw_rest4(r)) == Option::Some((r.gas_limit, raw_rest5(r))),
{
    lemma_parse_str_field_enc(0x22, r.gas_limit, raw_rest5(r));
}

proof fn lemma_raw_step5(r: RawView)
    ensures
        parse_str_field(0x2A, raw_rest5(r)) == Option::Some((r.gas_price, raw_rest6(r))),
{
    lemma_parse_str_field_enc(0x2A, r.gas_price, raw_rest6(r));
}

proof fn lemma_raw_step6(r: RawView)
    ensures
        parse_str_field(0x32, raw_rest6(r)) == Option::Some((r.max_fee_per_gas, raw_rest7(r))),
{
    lemma_parse_str_field_enc(0x32, r.max_fee_per_gas, raw_rest7(r));
}

proof fn lemma_raw_step7(r: RawView)
    ensures
        parse_str_field(0x3A, raw_rest7(r)) == Option::Some(
            (r.max_priority_fee_per_gas, raw_rest8(r)),
        ),
{
    lemma_parse_str_field_enc(0x3A, r.max_priority_fee_per_gas, raw_rest8(r));
}

proof fn lemma_raw_step8(r: RawView)
    ensures
        parse_str_field(0x42, raw_rest8(r)) == Option::Some((r.access_list, raw_rest9(r))),
{
    lemma_parse_str_field_enc(0x42, r.access_list, raw_rest9(r));
}

proof fn lemma_raw_step9(r: RawView)
    ensures
        parse_bytes_field(0x4A, raw_rest9(r)) == Option::Some((r.data, raw_rest10(r))),
{
    lemma_parse_bytes_field_enc(0x4A, r.data, raw_rest10(r));
}

proof fn lemma_raw_step10(r: RawView)
    ensures
        parse_u32_field(0x50, raw_rest10(r)) == Option::Some((r.tx_type, Seq::<u8>::empty())),
{
    let e = Seq::<u8>::empty();
    assert(raw_rest10(r) + e =~= raw_rest10(r));
    lemma_parse_u32_field_enc(0x50, r.tx_type, e);
}

/// The raw-section parse chain, step facts given.
proof fn lemma_parse_raw_chain(
    r: RawView,
    t1: Seq<u8>,
    t2: Seq<u8>,
    t3: Seq<u8>,
    t4: Seq<u8>,
    t5: Seq<u8>,
    t6: Seq<u8>,
    t7: Seq<u8>,
    t8: Seq<u8>,
    t9: Seq<u8>,
    t10: Seq<u8>,
    e: Seq<u8>,
)
    requires
        e.len() == 0,
        parse_bytes_field(0x0A, t1) == Option::Some((r.from, t2)),
        parse_bytes_field(0x12, t2) == Option::Some((r.to, t3)),
        parse_str_field(0x1A, t3) == Option::Some((r.value, t4)),
        parse_str_field(0x22, t4) == Option::Some((r.gas_limit, t5)),
        parse_str_field(0x2A, t5) == Option::Some((r.gas_price, t6)),
        parse_str_field(0x32, t6) == Option::Some((r.max_fee_per_gas, t7)),
        parse_str_field(0x3A, t7) == Option::Some((r.max_priority_fee_per_gas, t8)),
        parse_str_field(0x42, t8) == Option::Some((r.access_list, t9)),
        parse_bytes_field(0x4A, t9) == Option::Some((r.data, t10)),
        parse_u32_field(0x50, t10) == Option::Some((r.tx_type, e)),
    ensures
        parse_raw(t1) == Option::Some(r),
{
}

/// The raw section reads as its own first suffix.
#[verifier::rlimit(100)]
proof fn lemma_enc_raw_rest(r: RawView)
    ensures
        enc_raw(r) == raw_rest1(r),
{
    assert(enc_raw(r) =~= raw_rest1(r));
}

/// Parsing inverts the raw section.
proof fn lemma_parse_raw_enc(r: RawView)
    ensures
        parse_raw(enc_raw(r)) == Option::Some(r),
{
    lemma_enc_raw_rest(r);
    lemma_raw_step1(r);
    lemma_raw_step2(r);
    lemma_raw_step3(r);
    lemma_raw_step4(r);
    lemma_raw_step5(r);
    lemma_raw_step6(r);
    lemma_raw_step7(r);
    lemma_raw_step8(r);
    lemma_raw_step9(r);
    lemma_raw_step10(r);
    lemma_parse_raw_chain(
        r,
        raw_rest1(r),
        raw_rest2(r),
        raw_rest3(r),
        raw_rest4(r),
        raw_rest5(r),
        raw_rest6(r),
        raw_rest7(r),
        raw_rest8(r),
        raw_rest9(r),
        raw_rest10(r),
        Seq::<u8>::empty(),
    );
}

/// Parsing inverts a run of argument strings when what follows does not
/// open with the argument tag.
proof fn lemma_parse_args_enc(args: Seq<Seq<char>>, rest: Seq<u8>)
    requires
        rest.len() == 0 || rest[0] != 0x1A,
    ensures
        parse_args(enc_args(args) + rest) == Option::Some((args, rest)),
    decreases args.len(),
{
    if args.len() == 0 {
        assert(enc_args(args) + rest =~= rest);
    } else {
        let s = enc_args(args) + rest;
        let tail = enc_args(args.drop_first()) + rest;
        assert(s =~= enc_str_field(0x1A, args.first()) + tail);
        lemma_parse_str_field_enc(0x1A, args.first(), tail);
        lemma_field_len(0x1A, encode_utf8(args.first()));
        assert(s[0] == 0x1A);
        assert(tail.len() < s.len());
        lemma_parse_args_enc(args.drop_first(), rest);
        assert(seq![args.first()] + args.drop_first() =~= args);
    }
}

/// Parsing inverts the decoded section.
proof fn lemma_parse_decoded_enc(d: DecodedView)
    ensures
        parse_decoded(enc_decoded(d)) == Option::Some(d),
{
    let e = Seq::<u8>::empty();
    let t5 = enc_str_field(0x2A, d.args_json);
    let t4 = enc_str_field(0x22, d.abi_source) + t5;
    let t3 = enc_args(d.args) + t4;
    let t2 = enc_str_field(0x12, d.fn_sig) + t3;
    let t1 = enc_str_field(0x0A, d.selector) + t2;
    assert(enc_decoded(d) == t1);
    lemma_parse_str_field_enc(0x0A, d.selector, t2);
    lemma_parse_str_field_enc(0x12, d.fn_sig, t3);
    lemma_field_len(0x22, encode_utf8(d.abi_source));
    assert(t4[0] == 0x22);
    lemma_parse_args_enc(d.args, t4);
    lemma_parse_str_field_enc(0x22, d.abi_source, t5);
    assert(t5 + e =~= t5);
    lemma_parse_str_field_enc(0x2A, d.args_json, e);
}

/// Parsing inverts one record.
#[verifier::rlimit(100)]
proof fn lemma_parse_record_enc(r: TxRecordView)
    ensures
        parse_record(enc_record(r)) == Option::Some(r),
{
    let e = Seq::<u8>::empty();
    let t_dec = match r.decoded {
        Option::Some(d) => enc_bytes_field(0x22, enc_decoded(d)),
        Option::None => e,
    };
    let t_raw = (match r.raw {
        Option::Some(raw) => enc_bytes_field(0x1A, enc_raw(raw)),
        Option::None => e,
    }) + t_dec;
    let t1 = enc_str_field(0x12, r.kind) + t_raw;
    assert(enc_record(r) == enc_bytes_field(0x0A, r.id) + t1);
    lemma_parse_bytes_field_enc(0x0A, r.id, t1);
    lemma_parse_str_field_enc(0x12, r.kind, t_raw);
    match r.raw {
        Option::Some(raw) => {
            assert(t_raw =~= enc_bytes_field(0x1A, enc_raw(raw)) + t_dec);
            lemma_field_len(0x1A, enc_raw(raw));
            assert(t_raw[0] == 0x1A);
            lemma_parse_bytes_field_enc(0x1A, enc_raw(raw), t_dec);
            lemma_parse_raw_enc(raw);
        },
        Option::None => {
            assert(t_raw =~= t_dec);
        },
    }
    match r.decoded {
        Option::Some(d) => {
            lemma_field_len(0x22, enc_decoded(d));
            assert(t_dec[0] == 0x22);
            assert(t_dec =~= enc_bytes_field(0x22, enc_decoded(d)) + e);
            lemma_parse_bytes_field_enc(0x22, enc_decoded(d), e);
            lemma_parse_decoded_enc(d);
        },
        Option::None => {
        },
    }
}

/// Law: decoding inverts encoding — parsing the wire form of any record
/// sequence yields exactly that sequence.
pub proof fn lemma_wire_round_trip(rs: Seq<TxRecordView>)
    ensures
        parse_records(enc_records(rs)) == Option::Some(rs),
    decreases rs.len(),
{
    if rs.len() > 0 {
        let s = enc_records(rs);
        let tail = enc_records(rs.drop_first());
        assert(s =~= enc_bytes_field(0x0A, enc_record(rs.first())) + tail);
        lemma_parse_bytes_field_enc(0x0A, enc_record(rs.first()), tail);
        lemma_field_len(0x0A, enc_record(rs.first()));
        assert(s.len() > 0);
        assert(tail.len() < s.len());
        lemma_parse_record_enc(rs.first());
        lemma_wire_round_trip(rs.drop_first());
        assert(seq![rs.first()] + rs.drop_first() =~= rs);
    }
}

} // verus!

verus! {

/// What a variable-length parse leaves over never exceeds its input.
proof fn lemma_parse_varint_rest(s: Seq<u8>)
    ensures
        parse_varint(s) matches Some(q) ==> q.1.len() <= s.len(),
    decreases s.len(),
{
    if s.len() > 0 && s[0] >= 128 {
        lemma_parse_varint_rest(s.drop_first());
    }
}

/// Relies on String::from_utf8: it succeeds exactly on a valid UTF-8
/// byte string and returns the string those bytes encode.
#[verifier::external_body]
fn bytes_to_string(v: Vec<u8>) -> (r: Option<String>)
    ensures
        r is Some <==> valid_utf8(v@),
        r matches Some(s) ==> encode_utf8(s@) == v@,
{
    match String::from_utf8(v) {
        Ok(s) => Some(s),
        Err(_) => None,
    }
}

/// Reads one variable-length integer at `pos`; fails where the input
/// ends too soon or the value exceeds 64 bits.
fn read_varint(buf: &[u8], pos: usize) -> (r: Option<(u64, usize)>)
    requires
        pos <= buf@.len(),
    ensures
        r matches Some(p) ==> pos < p.1 <= buf@.len() && parse_varint(buf@.skip(pos as int))
            == Option::Some((p.0 as nat, buf@.skip(p.1 as int))),
        r is None ==> (parse_varint(buf@.skip(pos as int)) is None || (parse_varint(
            buf@.skip(pos as int),
        ) matches Some(q) && q.0 > u64::MAX)),
    decreases buf@.len() - pos,
{
    if pos == buf.len() {
        return None;
    }
    let b = *slice_index_get(buf, pos);
    proof {
        assert(buf@.skip(pos as int)[0] == buf@[pos as int]);
        assert(buf@.skip(pos as int).drop_first() =~= buf@.skip(pos as int + 1));
    }
    if b < 128 {
        Some((b as u64, pos + 1))
    } else {
        match read_varint(buf, pos + 1) {
            None => None,
            Some((v, p)) => {
                let low = b - 128;
                let limit = (u64::MAX - low as u64) / 128;
                proof {
                    lemma_fundamental_div_mod((u64::MAX - low as u64) as int, 128);
                    vstd::arithmetic::div_mod::lemma_mod_bound(
                        (u64::MAX - low as u64) as int,
                        128,
                    );
                }
                if v <= limit {
                    proof {
                        assert(v as int * 128 <= limit as int * 128) by (nonlinear_arith)
                            requires
                                v as int <= limit as int,
                        ;
                    }
                    Some((v * 128 + low as u64, p))
                } else {
                    proof {
                        assert(v as int * 128 >= (limit as int + 1) * 128) by (nonlinear_arith)
                            requires
                                v as int >= limit as int + 1,
                        ;
                    }
                    None
                }
            },
        }
    }
}

/// Reads one length-delimited field under `tag` at `pos`.
fn read_bytes_field(buf: &[u8], pos: usize, tag: u8) -> (r: Option<(Vec<u8>, usize)>)
    requires
        pos <= buf@.len(),
    ensures
        r matches Some(p) ==> pos < p.1 <= buf@.len() && parse_bytes_field(
            tag,
            buf@.skip(pos as int),
        ) == Option::Some((p.0@, buf@.skip(p.1 as int))),
        r is None ==> parse_bytes_field(tag, buf@.skip(pos as int)) is None,
{
    if pos == buf.len() {
        return None;
    }
    let b = *slice_index_get(buf, pos);
    proof {
        assert(buf@.skip(pos as int)[0] == buf@[pos as int]);
        assert(buf@.skip(pos as int).drop_first() =~= buf@.skip(pos as int + 1));
    }
    if b != tag {
        return None;
    }
    match read_varint(buf, pos + 1) {
        None => {
            proof {
                lemma_parse_varint_rest(buf@.skip(pos as int + 1));
                assert(buf@.len() <= usize::MAX);
                assert(usize::MAX <= u64::MAX);
            }
            None
        },
        Some((v, p2)) => {
            let remaining = buf.len() - p2;
            if v <= remaining as u64 {
                let n = v as usize;
                let payload = slice_to_vec(slice_subrange(buf, p2, p2 + n));
                proof {
                    assert(buf@.skip(p2 as int).take(v as int) =~= buf@.subrange(
                        p2 as int,
                        p2 as int + v as int,
                    ));
                    assert(buf@.skip(p2 as int).skip(v as int) =~= buf@.skip(
                        p2 as int + v as int,
                    ));
                }
                Some((payload, p2 + n))
            } else {
                None
            }
        },
    }
}

/// Reads one string field under `tag` at `pos`.
fn read_str_field(buf: &[u8], pos: usize, tag: u8) -> (r: Option<(String, usize)>)
    requires
        pos <= buf@.len(),
    ensures
        r matches Some(p) ==> pos < p.1 <= buf@.len() && parse_str_field(
            tag,
            buf@.skip(pos as int),
        ) == Option::Some((p.0@, buf@.skip(p.1 as int))),
        r is None ==> parse_str_field(tag, buf@.skip(pos as int)) is None,
{
    match read_bytes_field(buf, pos, tag) {
        None => None,
        Some((payload, p)) => {
            let ghost pseq = payload@;
            match bytes_to_string(payload) {
                None => None,
                Some(s) => {
                    proof {
                        encode_utf8_decode_utf8(s@);
                    }
                    Some((s, p))
                },
            }
        },
    }
}

/// Reads one 32-bit integer field under `tag` at `pos`.
fn read_u32_field(buf: &[u8], pos: usize, tag: u8) -> (r: Option<(u32, usize)>)
    requires
        pos <= buf@.len(),
    ensures
        r matches Some(p) ==> pos < p.1 <= buf@.len() && parse_u32_field(
            tag,
            buf@.skip(pos as int),
        ) == Option::Some((p.0, buf@.skip(p.1 as int))),
        r is None ==> parse_u32_field(tag, buf@.skip(pos as int)) is None,
{
    if pos == buf.len() {
        return None;
    }
    let b = *slice_index_get(buf, pos);
    proof {
        assert(buf@.skip(pos as int)[0] == buf@[pos as int]);
        assert(buf@.skip(pos as int).drop_first() =~= buf@.skip(pos as int + 1));
    }
    if b != tag {
        return None;
    }
    match read_varint(buf, pos + 1) {
        None => None,
        Some((v, p)) => {
            if v <= u32::MAX as u64 {
                Some((v as u32, p))
            } else {
                None
            }
        },
    }
}

/// Decodes a complete raw section from its payload bytes.
fn decode_raw(payload: &[u8]) -> (r: Option<Raw>)
    ensures
        r matches Some(raw) ==> parse_raw(payload@) == Option::Some(raw@),
        r is None ==> parse_raw(payload@) is None,
{
    proof {
        assert(payload@.skip(0) =~= payload@);
    }
    let (from, p1) = match read_bytes_field(payload, 0, 0x0A) {
        Some(x) => x,
        None => {
            return None;
        },
    };
    let (to, p2) = match read_bytes_field(payload, p1, 0x12) {
        Some(x) => x,
        None => {
            return None;
        },
    };
    let (value, p3) = match read_str_field(payload, p2, 0x1A) {
        Some(x) => x,
        None => {
            return None;
        },
    };
    let (gas_limit, p4) = match read_str_field(payload, p3, 0x22) {
        Some(x) => x,
        None => {
            return None;
        },
    };
    let (gas_price, p5) = match read_str_field(payload, p4, 0x2A) {
        Some(x) => x,
        None => {
            return None;
        },
    };
    let (max_fee, p6) = match read_str_field(payload, p5, 0x32) {
        Some(x) => x,
        None => {
            return None;
        },
    };
    let (max_prio, p7) = match read_str_field(payload, p6, 0x3A) {
        Some(x) => x,
        None => {
            return None;
        },
    };
    let (access, p8) = match read_str_field(payload, p7, 0x42) {
        Some(x) => x,
        None => {
            return None;
        },
    };
    let (data, p9) = match read_bytes_field(payload, p8, 0x4A) {
        Some(x) => x,
        None => {
            return None;
        },
    };
    let (tx_type, p10) = match read_u32_field(payload, p9, 0x50) {
        Some(x) => x,
        None => {
            return None;
        },
    };
    if p10 != payload.len() {
        proof {
            assert(payload@.skip(p10 as int).len() > 0);
        }
        return None;
    }
    proof {
        assert(payload@.skip(p10 as int).len() == 0);
    }
    Some(
        Raw {
            from,
            to,
            value,
            gas_limit,
            gas_price,
            max_fee_per_gas: max_fee,
            max_priority_fee_per_gas: max_prio,
            access_list: access,
            data,
            tx_type,
        },
    )
}

} // verus!

verus! {

/// Decodes a complete decoded-arguments section from its payload bytes.
#[verifier::loop_isolation(false)]
fn decode_decoded(payload: &[u8]) -> (r: Option<Decoded>)
    ensures
        r matches Some(d) ==> parse_decoded(payload@) == Option::Some(d@),
        r is None ==> parse_decoded(payload@) is None,
{
    proof {
        assert(payload@.skip(0) =~= payload@);
    }
    let (selector, p1) = match read_str_field(payload, 0, 0x0A) {
        Some(x) => x,
        None => {
            return None;
        },
    };
    let (fn_sig, p2) = match read_str_field(payload, p1, 0x12) {
        Some(x) => x,
        None => {
            return None;
        },
    };
    let mut args: Vec<String> = Vec::new();
    let mut pos: usize = p2;
    let ghost s0 = payload@.skip(p2 as int);
    while pos < payload.len() && *slice_index_get(payload, pos) == 0x1A
        invariant
            p2 <= pos <= payload@.len(),
            parse_args(payload@.skip(pos as int)) matches Some(q) ==> parse_args(s0)
                == Option::Some((Seq::new(args@.len(), |j: int| args@[j]@) + q.0, q.1)),
            parse_args(payload@.skip(pos as int)) is None ==> parse_args(s0) is None,
            s0 == payload@.skip(p2 as int),
        decreases payload@.len() - pos,
    {
        let ghost pre = payload@.skip(pos as int);
        let ghost done = Seq::new(args@.len(), |j: int| args@[j]@);
        proof {
            assert(pre[0] == payload@[pos as int]);
        }
        match read_str_field(payload, pos, 0x1A) {
            None => {
                return None;
            },
            Some((a, p)) => {
                proof {
                    assert(payload@.skip(p as int).len() < pre.len());
                }
                args.push(a);
                pos = p;
                proof {
                    assert(Seq::new(args@.len(), |j: int| args@[j]@) =~= done.push(a@));
                    let po = parse_args(payload@.skip(pos as int));
                    if po is Some {
                        let q = po.unwrap();
                        assert(parse_args(pre) == Option::Some((seq![a@] + q.0, q.1)));
                        assert(done + (seq![a@] + q.0) =~= done.push(a@) + q.0);
                    }
                }
            },
        }
    }
    proof {
        if pos < payload@.len() {
            assert(payload@.skip(pos as int)[0] == payload@[pos as int]);
        }
        assert(parse_args(payload@.skip(pos as int)) == Option::Some(
            (Seq::<Seq<char>>::empty(), payload@.skip(pos as int)),
        ));
        assert(Seq::new(args@.len(), |j: int| args@[j]@) + Seq::<Seq<char>>::empty() =~= Seq::new(
            args@.len(),
            |j: int| args@[j]@,
        ));
    }
    let (abi_source, p4) = match read_str_field(payload, pos, 0x22) {
        Some(x) => x,
        None => {
            return None;
        },
    };
    let (args_json, p5) = match read_str_field(payload, p4, 0x2A) {
        Some(x) => x,
        None => {
            return None;
        },
    };
    if p5 != payload.len() {
        proof {
            assert(payload@.skip(p5 as int).len() > 0);
        }
        return None;
    }
    proof {
        assert(payload@.skip(p5 as int).len() == 0);
    }
    Some(Decoded { selector, fn_sig, args, abi_source, args_json })
}

/// Decodes one complete record from its payload bytes.
#[verifier::rlimit(100)]
fn decode_record(payload: &[u8]) -> (r: Option<TxRecord>)
    ensures
        r matches Some(rec) ==> parse_record(payload@) == Option::Some(rec@),
        r is None ==> parse_record(payload@) is None,
{
    proof {
        assert(payload@.skip(0) =~= payload@);
    }
    let (id, p1) = match read_bytes_field(payload, 0, 0x0A) {
        Some(x) => x,
        None => {
            return None;
        },
    };
    let (kind, p2) = match read_str_field(payload, p1, 0x12) {
        Some(x) => x,
        None => {
            return None;
        },
    };

    let mut raw_out: Option<Raw> = None;
    let mut pos: usize = p2;
    if pos < payload.len() && *slice_index_get(payload, pos) == 0x1A {
        proof {
            assert(payload@.skip(pos as int)[0] == payload@[pos as int]);
        }
        match read_bytes_field(payload, pos, 0x1A) {
            None => {
                return None;
            },
            Some((rp, p)) => {
                match decode_raw(rp.as_slice()) {
                    None => {
                        return None;
                    },
                    Some(raw) => {
                        raw_out = Some(raw);
                        pos = p;
                    },
                }
            },
        }
    } else {
        proof {
            if pos < payload@.len() {
                assert(payload@.skip(pos as int)[0] == payload@[pos as int]);
            }
        }
    }
    let ghost raw_view = match raw_out {
        Option::Some(ref raw) => Option::Some(raw@),
        Option::None => Option::None,
    };
    proof {
        assert(parse_opt_raw(payload@.skip(p2 as int)) == Option::Some(
            (raw_view, payload@.skip(pos as int)),
        ));
    }

    let mut dec_out: Option<Decoded> = None;
    let mut pos2: usize = pos;
    if pos2 < payload.len() && *slice_index_get(payload, pos2) == 0x22 {
        proof {
            assert(payload@.skip(pos2 as int)[0] == payload@[pos2 as int]);
        }
        match read_bytes_field(payload, pos2, 0x22) {
            None => {
                return None;
            },
            Some((dp, p)) => {
                match decode_decoded(dp.as_slice()) {
                    None => {
                        return None;
                    },
                    Some(d) => {
                        dec_out = Some(d);
                        pos2 = p;
                    },
                }
            },
        }
    } else {
        proof {
            if pos2 < payload@.len() {
                assert(payload@.skip(pos2 as int)[0] == payload@[pos2 as int]);
            }
        }
    }
    let ghost dec_view = match dec_out {
        Option::Some(ref d) => Option::Some(d@),
        Option::None => Option::None,
    };
    proof {
        assert(parse_opt_decoded(payload@.skip(pos as int)) == Option::Some(
            (dec_view, payload@.skip(pos2 as int)),
        ));
    }

    if pos2 != payload.len() {
        proof {
            assert(payload@.skip(pos2 as int).len() > 0);
        }
        return None;
    }
    proof {
        assert(payload@.skip(pos2 as int).len() == 0);
    }
    Some(TxRecord { id, kind, raw: raw_out, decoded: dec_out })
}

/// Decodes a whole output from its wire bytes: exactly the sequences the
/// encoder produces are accepted, and what was encoded is returned.
pub fn decode_tx_records(buf: &[u8]) -> (r: Option<TxRecords>)
    ensures
        r matches Some(v) ==> parse_records(buf@) == Option::Some(v@),
        r is None ==> parse_records(buf@) is None,
{
    proof {
        assert(buf@.skip(0) =~= buf@);
    }
    let mut records: Vec<TxRecord> = Vec::new();
    let mut pos: usize = 0;
    while pos < buf.len()
        invariant
            pos <= buf@.len(),
            parse_records(buf@.skip(pos as int)) matches Some(m) ==> parse_records(buf@)
                == Option::Some(Seq::new(records@.len(), |j: int| records@[j]@) + m),
            parse_records(buf@.skip(pos as int)) is None ==> parse_records(buf@) is None,
        decreases buf@.len() - pos,
    {
        let ghost pre = buf@.skip(pos as int);
        let ghost done = Seq::new(records@.len(), |j: int| records@[j]@);
        proof {
            assert(pre.len() > 0);
        }
        match read_bytes_field(buf, pos, 0x0A) {
            None => {
                return None;
            },
            Some((payload, p)) => {
                match decode_record(payload.as_slice()) {
                    None => {
                        proof {
                            assert(buf@.skip(p as int).len() < pre.len());
                        }
                        return None;
                    },
                    Some(rec) => {
                        proof {
                            assert(buf@.skip(p as int).len() < pre.len());
                        }
                        records.push(rec);
                        pos = p;
                        proof {
                            assert(Seq::new(records@.len(), |j: int| records@[j]@) =~= done.push(
                                rec@,
                            ));
                            let po = parse_records(buf@.skip(pos as int));
                            if po is Some {
                                let m = po.unwrap();
                                assert(parse_records(pre) == Option::Some(seq![rec@] + m));
                                assert(done + (seq![rec@] + m) =~= done.push(rec@) + m);
                            }
                        }
                    },
                }
            },
        }
    }
    proof {
        assert(buf@.skip(pos as int).len() == 0);
        assert(parse_records(buf@.skip(pos as int)) == Option::Some(Seq::<TxRecordView>::empty()));
        assert(Seq::new(records@.len(), |j: int| records@[j]@) + Seq::<TxRecordView>::empty()
            =~= Seq::new(records@.len(), |j: int| records@[j]@));
    }
    Some(TxRecords { records })
}

} // verus!

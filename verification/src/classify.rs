//! The classifier: one transaction kind per trace, from its topology alone.

use vstd::prelude::*;
use vstd::slice::slice_index_get;
use vstd::slice::slice_subrange;
use crate::hexfmt::hex_bytes;
use crate::hexfmt::hex_decode;
use crate::hexfmt::hex_ok;
use crate::kinds::TransactionKind;
use crate::trace::TraceView;
use crate::trace::TransactionTrace;

verus! {

/// A reserved precompile address: exactly 20 bytes, the first 19 all zero,
/// the last in the inclusive range 1 to 9.
pub open spec fn is_precompile_address(a: Seq<u8>) -> bool {
    &&& a.len() == 20
    &&& forall|i: int| 0 <= i < 19 ==> a[i] == 0
    &&& 1 <= a[19] <= 9
}

/// True when `to` spells an address textually: it starts with the ASCII
/// bytes of "0x".
pub open spec fn has_hex_text_prefix(to: Seq<u8>) -> bool {
    to.len() >= 2 && to[0] == 0x30 && to[1] == 0x78
}

/// The effective target address of a non-empty `to` field. A textual
/// "0x"-prefixed spelling is decoded; a spelling that is not well-formed
/// hex resolves to nothing (the trace then falls through to the decision
/// table). Any other `to` stands for itself.
pub open spec fn resolved_target(to: Seq<u8>) -> Option<Seq<u8>> {
    if has_hex_text_prefix(to) {
        if hex_ok(to.skip(2)) {
            Option::Some(hex_bytes(to.skip(2)))
        } else {
            Option::None
        }
    } else {
        Option::Some(to)
    }
}

/// The 2x2 decision table over the presence of call sites and of payload
/// data. Payload sent without call sites is treated as a contract call
/// with data (the externally-owned-account fallback).
pub open spec fn table_kind(has_calls: bool, has_data: bool) -> TransactionKind {
    if has_calls && has_data {
        TransactionKind::ContractCallWithData
    } else if has_calls {
        TransactionKind::EthTransferToContract
    } else if has_data {
        TransactionKind::ContractCallWithData
    } else {
        TransactionKind::EthTransfer
    }
}

/// The kind assigned to a trace, in priority order: no target address
/// means contract creation; a resolved precompile address wins next;
/// everything else goes by the decision table.
pub open spec fn classify_spec(t: TraceView) -> TransactionKind {
    if t.to.len() == 0 {
        TransactionKind::ContractCreation
    } else if resolved_target(t.to) matches Option::Some(a) && is_precompile_address(a) {
        TransactionKind::PrecompileCall
    } else {
        table_kind(t.call_count > 0, t.input.len() > 0)
    }
}

/// Whether a byte slice is a precompile address.
fn is_precompile_slice(a: &[u8]) -> (r: bool)
    ensures
        r == is_precompile_address(a@),
{
    if a.len() != 20 {
        return false;
    }
    let mut i: usize = 0;
    while i < 19
        invariant
            0 <= i <= 19,
            a@.len() == 20,
            forall|j: int| 0 <= j < i ==> a@[j] == 0,
        decreases 19 - i,
    {
        if *slice_index_get(a, i) != 0 {
            return false;
        }
        i = i + 1;
    }
    let last = *slice_index_get(a, 19);
    1 <= last && last <= 9
}

/// Assigns a trace its kind. Total: a malformed textual address never
/// aborts classification, it only rules the precompile case out.
pub fn classify_transaction(trace: &TransactionTrace) -> (k: TransactionKind)
    ensures
        k == classify_spec(trace@),
{
    if trace.to.len() == 0 {
        return TransactionKind::ContractCreation;
    }

    let precompile: bool;
    if trace.to.len() >= 2 && trace.to[0] == 0x30 && trace.to[1] == 0x78 {
        let body = slice_subrange(trace.to.as_slice(), 2, trace.to.len());
        proof {
            assert(body@ =~= trace.to@.skip(2));
        }
        match hex_decode(body) {
            Option::Some(address) => {
                precompile = is_precompile_slice(address.as_slice());
            },
            Option::None => {
                precompile = false;
            },
        }
    } else {
        precompile = is_precompile_slice(trace.to.as_slice());
    }
    if precompile {
        return TransactionKind::PrecompileCall;
    }

    let has_calls = trace.call_count > 0;
    let has_data = trace.input.len() > 0;
    if has_calls && has_data {
        TransactionKind::ContractCallWithData
    } else if has_calls {
        TransactionKind::EthTransferToContract
    } else if has_data {
        TransactionKind::ContractCallWithData
    } else {
        TransactionKind::EthTransfer
    }
}

/// Law: a trace without a target address is a contract creation,
/// whatever its other fields hold.
pub proof fn lemma_empty_to_is_creation(t: TraceView)
    requires
        t.to.len() == 0,
    ensures
        classify_spec(t) == TransactionKind::ContractCreation,
{
}

/// Law: a non-empty target that resolves to a precompile address is a
/// precompile call, even when call sites or payload data are present.
pub proof fn lemma_precompile_wins(t: TraceView, a: Seq<u8>)
    requires
        t.to.len() > 0,
        resolved_target(t.to) == Option::Some(a),
        is_precompile_address(a),
    ensures
        classify_spec(t) == TransactionKind::PrecompileCall,
{
}

/// Law: the decision procedure is exhaustive and never yields the
/// forward-compatibility variant `ContractCallNoData`.
pub proof fn lemma_no_data_call_unreachable(t: TraceView)
    ensures
        classify_spec(t) != TransactionKind::ContractCallNoData,
{
}

} // verus!

//! The mapper: one normalized, classified record per transaction trace,
//! in source order, with diagnostics as plain data for the caller's sink.

use vstd::prelude::*;
use vstd::slice::slice_to_vec;
use crate::classify::classify_spec;
use crate::classify::classify_transaction;
use crate::kinds::kind_label;
use crate::normalize::access_list_label;
use crate::normalize::from_label;
use crate::normalize::gas_limit_label;
use crate::normalize::id_label;
use crate::normalize::normalize_access_list;
use crate::normalize::normalize_from;
use crate::normalize::normalize_gas_limit;
use crate::normalize::normalize_id;
use crate::normalize::normalize_quantity;
use crate::normalize::quantity_label;
use crate::records::Raw;
use crate::records::RawView;
use crate::records::TxRecord;
use crate::records::TxRecordView;
use crate::records::TxRecords;
use crate::trace::Block;
use crate::trace::TraceView;

verus! {

/// What a diagnostic warns about.
#[derive(Clone, Copy, PartialEq, Eq, Structural, Debug)]
pub enum DiagnosticKind {
    /// The transaction hash was empty; the record carries the 32-byte
    /// zero placeholder identifier.
    EmptyHash,
    /// The sender address was empty; the record carries the 20-byte zero
    /// address.
    EmptyFrom,
    /// The gas limit was zero, which is never valid on-chain; the record
    /// carries the minimum transaction gas cost.
    ZeroGasLimit,
}

/// One warning, tied to the index of the transaction it concerns.
/// Diagnostics are returned as data so the core stays pure; the caller
/// owns the sink that reports them.
#[derive(Clone, Copy, PartialEq, Eq, Structural, Debug)]
pub struct Diagnostic {
    pub index: usize,
    pub kind: DiagnosticKind,
}

/// The diagnostics one trace gives rise to, in a fixed order.
pub open spec fn trace_diags(i: usize, t: TraceView) -> Seq<Diagnostic> {
    (if t.hash.len() == 0 {
        seq![Diagnostic { index: i, kind: DiagnosticKind::EmptyHash }]
    } else {
        Seq::<Diagnostic>::empty()
    }) + (if t.from.len() == 0 {
        seq![Diagnostic { index: i, kind: DiagnosticKind::EmptyFrom }]
    } else {
        Seq::<Diagnostic>::empty()
    }) + (if t.gas_limit == 0 {
        seq![Diagnostic { index: i, kind: DiagnosticKind::ZeroGasLimit }]
    } else {
        Seq::<Diagnostic>::empty()
    })
}

/// The diagnostics of a whole block, trace by trace in source order.
pub open spec fn block_diags(ts: Seq<TraceView>) -> Seq<Diagnostic>
    decreases ts.len(),
{
    if ts.len() == 0 {
        Seq::<Diagnostic>::empty()
    } else {
        block_diags(ts.drop_last()) + trace_diags((ts.len() - 1) as usize, ts.last())
    }
}

/// The record a single trace maps to: identifier and sender with their
/// fallbacks, normalized quantities, the kind label, and an absent
/// decoded section.
pub open spec fn record_spec(t: TraceView) -> TxRecordView {
    TxRecordView {
        id: id_label(t.hash),
        kind: kind_label(classify_spec(t)),
        raw: Option::Some(
            RawView {
                from: from_label(t.from),
                to: t.to,
                value: quantity_label(t.value),
                gas_limit: gas_limit_label(t.gas_limit),
                gas_price: quantity_label(t.gas_price),
                max_fee_per_gas: quantity_label(t.max_fee_per_gas),
                max_priority_fee_per_gas: quantity_label(t.max_priority_fee_per_gas),
                access_list: access_list_label(t.access_list_count as nat),
                data: t.input,
                tx_type: t.tx_type as u32,
            },
        ),
        decoded: Option::None,
    }
}

/// Maps one block's traces to records, one per trace and in source
/// order, never failing on a malformed field: every anomaly is repaired
/// by its documented fallback and reported in the returned diagnostics.
pub fn map_transactions(block: &Block) -> (r: (TxRecords, Vec<Diagnostic>))
    ensures
        r.0@.len() == block@.len(),
        forall|i: int| 0 <= i < block@.len() ==> r.0@[i] == record_spec(block@[i]),
        r.1@ == block_diags(block@),
{
    let mut records: Vec<TxRecord> = Vec::new();
    let mut diags: Vec<Diagnostic> = Vec::new();
    let n = block.transaction_traces.len();
    let mut i: usize = 0;
    while i < n
        invariant
            n == block.transaction_traces.len(),
            0 <= i <= n,
            records@.len() == i,
            forall|j: int| 0 <= j < i ==> records@[j]@ == record_spec(block@[j]),
            diags@ == block_diags(block@.take(i as int)),
        decreases n - i,
    {
        let trace = &block.transaction_traces[i];
        proof {
            assert(block@[i as int] == trace@);
        }

        if trace.hash.len() == 0 {
            diags.push(Diagnostic { index: i, kind: DiagnosticKind::EmptyHash });
        }
        if trace.from.len() == 0 {
            diags.push(Diagnostic { index: i, kind: DiagnosticKind::EmptyFrom });
        }
        if trace.gas_limit == 0 {
            diags.push(Diagnostic { index: i, kind: DiagnosticKind::ZeroGasLimit });
        }

        let kind = classify_transaction(trace);
        let raw = Raw {
            from: normalize_from(&trace.from),
            to: slice_to_vec(trace.to.as_slice()),
            value: normalize_quantity(&trace.value),
            gas_limit: normalize_gas_limit(trace.gas_limit),
            gas_price: normalize_quantity(&trace.gas_price),
            max_fee_per_gas: normalize_quantity(&trace.max_fee_per_gas),
            max_priority_fee_per_gas: normalize_quantity(&trace.max_priority_fee_per_gas),
            access_list: normalize_access_list(trace.access_list_count),
            data: slice_to_vec(trace.input.as_slice()),
            tx_type: trace.tx_type as u32,
        };
        let record = TxRecord {
            id: normalize_id(&trace.hash),
            kind: kind.to_string(),
            raw: Option::Some(raw),
            decoded: Option::None,
        };
        records.push(record);
        i = i + 1;
        proof {
            assert(block@.take(i as int).drop_last() =~= block@.take(i as int - 1));
            assert(block@.take(i as int).last() == block@[i as int - 1]);
            assert(diags@ =~= block_diags(block@.take(i as int)));
        }
    }
    proof {
        assert(block@.take(n as int) =~= block@);
    }
    (TxRecords { records }, diags)
}

} // verus!

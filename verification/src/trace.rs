//! The library's own model of a block and its transaction traces: every
//! field the classification and normalization logic reads, as plain values.

use vstd::prelude::*;

verus! {

/// A view of an optional byte buffer as an optional byte sequence.
pub open spec fn opt_bytes_view(v: Option<Vec<u8>>) -> Option<Seq<u8>> {
    match v {
        Option::Some(b) => Option::Some(b@),
        Option::None => Option::None,
    }
}

/// One transaction trace, reduced to the fields this core reads.
///
/// Optional big-number fields carry their raw big-endian byte content;
/// absence and emptiness are distinct and both legitimate. `to` may hold
/// either a raw 20-byte address or the ASCII bytes of a "0x"-prefixed hex
/// spelling; resolution happens at the classifier boundary. Of the nested
/// call sites and the access-list entries the logic reads only how many
/// there are.
#[derive(Debug, Clone)]
pub struct TransactionTrace {
    pub hash: Vec<u8>,
    pub from: Vec<u8>,
    pub to: Vec<u8>,
    pub input: Vec<u8>,
    pub value: Option<Vec<u8>>,
    pub gas_limit: u64,
    pub gas_price: Option<Vec<u8>>,
    pub max_fee_per_gas: Option<Vec<u8>>,
    pub max_priority_fee_per_gas: Option<Vec<u8>>,
    pub access_list_count: usize,
    pub call_count: usize,
    pub tx_type: i32,
}

/// The mathematical value of a trace.
pub struct TraceView {
    pub hash: Seq<u8>,
    pub from: Seq<u8>,
    pub to: Seq<u8>,
    pub input: Seq<u8>,
    pub value: Option<Seq<u8>>,
    pub gas_limit: u64,
    pub gas_price: Option<Seq<u8>>,
    pub max_fee_per_gas: Option<Seq<u8>>,
    pub max_priority_fee_per_gas: Option<Seq<u8>>,
    pub access_list_count: usize,
    pub call_count: usize,
    pub tx_type: i32,
}

impl View for TransactionTrace {
    type V = TraceView;

    open spec fn view(&self) -> TraceView {
        TraceView {
            hash: self.hash@,
            from: self.from@,
            to: self.to@,
            input: self.input@,
            value: opt_bytes_view(self.value),
            gas_limit: self.gas_limit,
            gas_price: opt_bytes_view(self.gas_price),
            max_fee_per_gas: opt_bytes_view(self.max_fee_per_gas),
            max_priority_fee_per_gas: opt_bytes_view(self.max_priority_fee_per_gas),
            access_list_count: self.access_list_count,
            call_count: self.call_count,
            tx_type: self.tx_type,
        }
    }
}

/// One block: an ordered sequence of transaction traces.
#[derive(Debug, Clone)]
pub struct Block {
    pub transaction_traces: Vec<TransactionTrace>,
}

impl View for Block {
    type V = Seq<TraceView>;

    open spec fn view(&self) -> Seq<TraceView> {
        Seq::new(self.transaction_traces@.len(), |i: int| self.transaction_traces@[i]@)
    }
}

} // verus!

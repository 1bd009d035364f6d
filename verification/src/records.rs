//! The output shape: one normalized, classified record per transaction.

use vstd::prelude::*;

verus! {

/// The normalized raw fields of one transaction. Quantities are
/// "0x"-prefixed lowercase hex strings, the gas limit a decimal string,
/// the access list a "0x"-prefixed string; `to` may be empty (contract
/// creation) and `data` may be empty (no payload).
#[derive(Debug, Clone, PartialEq, Eq)]
pub struct Raw {
    pub from: Vec<u8>,
    pub to: Vec<u8>,
    pub value: String,
    pub gas_limit: String,
    pub gas_price: String,
    pub max_fee_per_gas: String,
    pub max_priority_fee_per_gas: String,
    pub access_list: String,
    pub data: Vec<u8>,
    pub tx_type: u32,
}

/// The mathematical value of a `Raw`.
pub struct RawView {
    pub from: Seq<u8>,
    pub to: Seq<u8>,
    pub value: Seq<char>,
    pub gas_limit: Seq<char>,
    pub gas_price: Seq<char>,
    pub max_fee_per_gas: Seq<char>,
    pub max_priority_fee_per_gas: Seq<char>,
    pub access_list: Seq<char>,
    pub data: Seq<u8>,
    pub tx_type: u32,
}

impl View for Raw {
    type V = RawView;

    open spec fn view(&self) -> RawView {
        RawView {
            from: self.from@,
            to: self.to@,
            value: self.value@,
            gas_limit: self.gas_limit@,
            gas_price: self.gas_price@,
            max_fee_per_gas: self.max_fee_per_gas@,
            max_priority_fee_per_gas: self.max_priority_fee_per_gas@,
            access_list: self.access_list@,
            data: self.data@,
            tx_type: self.tx_type,
        }
    }
}

/// The decoded-arguments section. This core never fills it: it is
/// reserved for a later enrichment stage, and every record it emits
/// carries an absent `decoded`. It still round-trips through the wire
/// form so that enriched records stay readable.
#[derive(Debug, Clone, PartialEq, Eq)]
pub struct Decoded {
    pub selector: String,
    pub fn_sig: String,
    pub args: Vec<String>,
    pub abi_source: String,
    pub args_json: String,
}

/// The mathematical value of a `Decoded`.
pub struct DecodedView {
    pub selector: Seq<char>,
    pub fn_sig: Seq<char>,
    pub args: Seq<Seq<char>>,
    pub abi_source: Seq<char>,
    pub args_json: Seq<char>,
}

impl View for Decoded {
    type V = DecodedView;

    open spec fn view(&self) -> DecodedView {
        DecodedView {
            selector: self.selector@,
            fn_sig: self.fn_sig@,
            args: Seq::new(self.args@.len(), |i: int| self.args@[i]@),
            abi_source: self.abi_source@,
            args_json: self.args_json@,
        }
    }
}

/// One output record: the identifier (normally the transaction hash),
/// the kind label, the normalized raw fields, and the reserved decoded
/// section.
#[derive(Debug, Clone, PartialEq, Eq)]
pub struct TxRecord {
    pub id: Vec<u8>,
    pub kind: String,
    pub raw: Option<Raw>,
    pub decoded: Option<Decoded>,
}

/// The mathematical value of a `TxRecord`.
pub struct TxRecordView {
    pub id: Seq<u8>,
    pub kind: Seq<char>,
    pub raw: Option<RawView>,
    pub decoded: Option<DecodedView>,
}

impl View for TxRecord {
    type V = TxRecordView;

    open spec fn view(&self) -> TxRecordView {
        TxRecordView {
            id: self.id@,
            kind: self.kind@,
            raw: match self.raw {
                Option::Some(r) => Option::Some(r@),
                Option::None => Option::None,
            },
            decoded: match self.decoded {
                Option::Some(d) => Option::Some(d@),
                Option::None => Option::None,
            },
        }
    }
}

/// The output of one invocation: records in source order, one per trace.
#[derive(Debug, Clone, PartialEq, Eq)]
pub struct TxRecords {
    pub records: Vec<TxRecord>,
}

impl View for TxRecords {
    type V = Seq<TxRecordView>;

    open spec fn view(&self) -> Seq<TxRecordView> {
        Seq::new(self.records@.len(), |i: int| self.records@[i]@)
    }
}

} // verus!

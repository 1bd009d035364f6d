//! The closed enumeration of transaction kinds and its string form.

use vstd::prelude::*;

verus! {

/// Exactly one of these six kinds applies to every transaction; assignment
/// is a pure function of the trace's fields (see `classify`).
/// `ContractCallNoData` is declared for forward compatibility: the current
/// decision table never produces it, but it must survive serialization.
#[derive(Clone, Copy, PartialEq, Eq, Structural, Debug)]
pub enum TransactionKind {
    ContractCreation,
    EthTransfer,
    EthTransferToContract,
    ContractCallWithData,
    ContractCallNoData,
    PrecompileCall,
}

/// The wire label of each kind, as a character sequence.
pub open spec fn kind_label(k: TransactionKind) -> Seq<char> {
    match k {
        TransactionKind::ContractCreation => "contractCreation"@,
        TransactionKind::EthTransfer => "ethTransfer"@,
        TransactionKind::EthTransferToContract => "ethTransferToContract"@,
        TransactionKind::ContractCallWithData => "contractCallWithData"@,
        TransactionKind::ContractCallNoData => "contractCallNoData"@,
        TransactionKind::PrecompileCall => "precompileCall"@,
    }
}

impl TransactionKind {
    /// The string form of the kind, used as the `kind` field of a record.
    pub fn to_string(&self) -> (r: String)
        ensures
            r@ == kind_label(*self),
    {
        match self {
            TransactionKind::ContractCreation => String::from_str("contractCreation"),
            TransactionKind::EthTransfer => String::from_str("ethTransfer"),
            TransactionKind::EthTransferToContract => String::from_str("ethTransferToContract"),
            TransactionKind::ContractCallWithData => String::from_str("contractCallWithData"),
            TransactionKind::ContractCallNoData => String::from_str("contractCallNoData"),
            TransactionKind::PrecompileCall => String::from_str("precompileCall"),
        }
    }
}

} // verus!

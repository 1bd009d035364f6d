use tx_indexer::classify::classify_transaction;
use tx_indexer::kinds::TransactionKind;
use tx_indexer::mapper::map_transactions;
use tx_indexer::mapper::Diagnostic;
use tx_indexer::mapper::DiagnosticKind;
use tx_indexer::trace::Block;
use tx_indexer::trace::TransactionTrace;

fn base_trace() -> TransactionTrace {
    TransactionTrace {
        hash: vec![0xAA; 32],
        from: vec![0x11; 20],
        to: vec![0x22; 20],
        input: Vec::new(),
        value: None,
        gas_limit: 21000,
        gas_price: None,
        max_fee_per_gas: None,
        max_priority_fee_per_gas: None,
        access_list_count: 0,
        call_count: 0,
        tx_type: 2,
    }
}

fn precompile_addr(last: u8) -> Vec<u8> {
    let mut a = vec![0u8; 20];
    a[19] = last;
    a
}

#[test]
fn empty_to_is_contract_creation() {
    let mut t = base_trace();
    t.to = Vec::new();
    t.input = vec![1, 2, 3];
    t.call_count = 5;
    assert_eq!(classify_transaction(&t), TransactionKind::ContractCreation);
}

#[test]
fn precompile_raw_bytes() {
    let mut t = base_trace();
    t.to = precompile_addr(0x04);
    t.input = vec![0xDE, 0xAD];
    assert_eq!(classify_transaction(&t), TransactionKind::PrecompileCall);
}

#[test]
fn precompile_wins_over_calls_and_data() {
    let mut t = base_trace();
    t.to = precompile_addr(0x09);
    t.input = vec![1];
    t.call_count = 3;
    assert_eq!(classify_transaction(&t), TransactionKind::PrecompileCall);
}

#[test]
fn precompile_textual_hex_form() {
    let mut t = base_trace();
    t.to = b"0x0000000000000000000000000000000000000003".to_vec();
    assert_eq!(classify_transaction(&t), TransactionKind::PrecompileCall);
}

#[test]
fn malformed_textual_hex_degrades_to_table() {
    let mut t = base_trace();
    t.to = b"0xzz00000000000000000000000000000000000003".to_vec();
    assert_eq!(classify_transaction(&t), TransactionKind::EthTransfer);
}

#[test]
fn odd_length_textual_hex_degrades_to_table() {
    let mut t = base_trace();
    t.to = b"0x003".to_vec();
    t.input = vec![7];
    assert_eq!(classify_transaction(&t), TransactionKind::ContractCallWithData);
}

#[test]
fn address_not_twenty_bytes_is_never_precompile() {
    let mut t = base_trace();
    t.to = vec![0, 0, 0, 0, 4];
    assert_eq!(classify_transaction(&t), TransactionKind::EthTransfer);
}

#[test]
fn zero_last_byte_is_not_precompile() {
    let mut t = base_trace();
    t.to = vec![0u8; 20];
    assert_eq!(classify_transaction(&t), TransactionKind::EthTransfer);
}

#[test]
fn last_byte_ten_is_not_precompile() {
    let mut t = base_trace();
    t.to = precompile_addr(10);
    assert_eq!(classify_transaction(&t), TransactionKind::EthTransfer);
}

#[test]
fn calls_and_data_is_contract_call_with_data() {
    let mut t = base_trace();
    t.call_count = 1;
    t.input = vec![0xAB];
    assert_eq!(classify_transaction(&t), TransactionKind::ContractCallWithData);
}

#[test]
fn calls_without_data_is_eth_transfer_to_contract() {
    let mut t = base_trace();
    t.call_count = 2;
    assert_eq!(classify_transaction(&t), TransactionKind::EthTransferToContract);
}

#[test]
fn data_without_calls_falls_back_to_contract_call_with_data() {
    let mut t = base_trace();
    t.input = vec![0xAB, 0xCD];
    assert_eq!(classify_transaction(&t), TransactionKind::ContractCallWithData);
}

#[test]
fn no_calls_no_data_is_eth_transfer() {
    let t = base_trace();
    assert_eq!(classify_transaction(&t), TransactionKind::EthTransfer);
}

#[test]
fn kind_labels() {
    assert_eq!(TransactionKind::ContractCreation.to_string(), "contractCreation");
    assert_eq!(TransactionKind::EthTransfer.to_string(), "ethTransfer");
    assert_eq!(TransactionKind::EthTransferToContract.to_string(), "ethTransferToContract");
    assert_eq!(TransactionKind::ContractCallWithData.to_string(), "contractCallWithData");
    assert_eq!(TransactionKind::ContractCallNoData.to_string(), "contractCallNoData");
    assert_eq!(TransactionKind::PrecompileCall.to_string(), "precompileCall");
}

#[test]
fn scenario_precompile_four_with_data() {
    let mut t = base_trace();
    t.to = precompile_addr(0x04);
    t.input = vec![1, 2, 3, 4];
    let block = Block { transaction_traces: vec![t] };
    let (records, diags) = map_transactions(&block);
    assert_eq!(records.records.len(), 1);
    assert_eq!(records.records[0].kind, "precompileCall");
    assert!(diags.is_empty());
}

#[test]
fn scenario_contract_creation_record() {
    let mut t = base_trace();
    t.to = Vec::new();
    let block = Block { transaction_traces: vec![t] };
    let (records, _) = map_transactions(&block);
    assert_eq!(records.records[0].kind, "contractCreation");
    let raw = records.records[0].raw.as_ref().unwrap();
    assert!(raw.to.is_empty());
}

#[test]
fn scenario_plain_eth_transfer_record() {
    let t = base_trace();
    let block = Block { transaction_traces: vec![t] };
    let (records, _) = map_transactions(&block);
    assert_eq!(records.records[0].kind, "ethTransfer");
}

#[test]
fn scenario_empty_hash_and_from_get_placeholders_and_warnings() {
    let mut t = base_trace();
    t.hash = Vec::new();
    t.from = Vec::new();
    let block = Block { transaction_traces: vec![t] };
    let (records, diags) = map_transactions(&block);
    assert_eq!(records.records.len(), 1);
    assert_eq!(records.records[0].id, vec![0u8; 32]);
    let raw = records.records[0].raw.as_ref().unwrap();
    assert_eq!(raw.from, vec![0u8; 20]);
    assert_eq!(
        diags,
        vec![
            Diagnostic { index: 0, kind: DiagnosticKind::EmptyHash },
            Diagnostic { index: 0, kind: DiagnosticKind::EmptyFrom },
        ]
    );
}

#[test]
fn output_length_and_order_match_input() {
    let mut a = base_trace();
    a.hash = vec![1; 32];
    let mut b = base_trace();
    b.hash = vec![2; 32];
    b.to = Vec::new();
    let mut c = base_trace();
    c.hash = vec![3; 32];
    c.call_count = 1;
    let block = Block { transaction_traces: vec![a, b, c] };
    let (records, _) = map_transactions(&block);
    assert_eq!(records.records.len(), 3);
    assert_eq!(records.records[0].id, vec![1; 32]);
    assert_eq!(records.records[1].id, vec![2; 32]);
    assert_eq!(records.records[2].id, vec![3; 32]);
    assert_eq!(records.records[1].kind, "contractCreation");
    assert_eq!(records.records[2].kind, "ethTransferToContract");
}

#[test]
fn absent_and_empty_quantities_normalize_to_zero() {
    let mut t = base_trace();
    t.value = None;
    t.gas_price = Some(Vec::new());
    t.max_fee_per_gas = None;
    t.max_priority_fee_per_gas = Some(Vec::new());
    let block = Block { transaction_traces: vec![t] };
    let (records, _) = map_transactions(&block);
    let raw = records.records[0].raw.as_ref().unwrap();
    assert_eq!(raw.value, "0x0");
    assert_eq!(raw.gas_price, "0x0");
    assert_eq!(raw.max_fee_per_gas, "0x0");
    assert_eq!(raw.max_priority_fee_per_gas, "0x0");
}

#[test]
fn present_quantities_keep_their_bytes_in_hex() {
    let mut t = base_trace();
    t.value = Some(vec![0x01, 0x02]);
    t.gas_price = Some(vec![0x00, 0xFF]);
    let block = Block { transaction_traces: vec![t] };
    let (records, _) = map_transactions(&block);
    let raw = records.records[0].raw.as_ref().unwrap();
    assert_eq!(raw.value, "0x0102");
    assert_eq!(raw.gas_price, "0x00ff");
}

#[test]
fn zero_gas_limit_gets_minimum_and_warning() {
    let mut t = base_trace();
    t.gas_limit = 0;
    let block = Block { transaction_traces: vec![t] };
    let (records, diags) = map_transactions(&block);
    let raw = records.records[0].raw.as_ref().unwrap();
    assert_eq!(raw.gas_limit, "21000");
    assert_eq!(diags, vec![Diagnostic { index: 0, kind: DiagnosticKind::ZeroGasLimit }]);
}

#[test]
fn positive_gas_limit_is_exact_decimal() {
    let mut t = base_trace();
    t.gas_limit = 18446744073709551615;
    let block = Block { transaction_traces: vec![t.clone()] };
    let (records, _) = map_transactions(&block);
    let raw = records.records[0].raw.as_ref().unwrap();
    assert_eq!(raw.gas_limit, "18446744073709551615");

    t.gas_limit = 7;
    let block = Block { transaction_traces: vec![t] };
    let (records, _) = map_transactions(&block);
    let raw = records.records[0].raw.as_ref().unwrap();
    assert_eq!(raw.gas_limit, "7");
}

#[test]
fn access_list_normalization() {
    let mut t = base_trace();
    t.access_list_count = 2;
    let block = Block { transaction_traces: vec![t.clone()] };
    let (records, _) = map_transactions(&block);
    let raw = records.records[0].raw.as_ref().unwrap();
    assert_eq!(raw.access_list, "0x0000");

    t.access_list_count = 0;
    let block = Block { transaction_traces: vec![t] };
    let (records, _) = map_transactions(&block);
    let raw = records.records[0].raw.as_ref().unwrap();
    assert_eq!(raw.access_list, "0x");
}

#[test]
fn data_and_tx_type_pass_through_and_decoded_is_absent() {
    let mut t = base_trace();
    t.input = vec![9, 8, 7];
    t.tx_type = 3;
    let block = Block { transaction_traces: vec![t] };
    let (records, _) = map_transactions(&block);
    let rec = &records.records[0];
    assert!(rec.decoded.is_none());
    let raw = rec.raw.as_ref().unwrap();
    assert_eq!(raw.data, vec![9, 8, 7]);
    assert_eq!(raw.tx_type, 3);
}

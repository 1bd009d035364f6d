use tx_indexer::codec::decode_tx_records;
use tx_indexer::codec::encode_tx_records;
use tx_indexer::mapper::map_transactions;
use tx_indexer::records::Decoded;
use tx_indexer::records::Raw;
use tx_indexer::records::TxRecord;
use tx_indexer::records::TxRecords;
use tx_indexer::trace::Block;
use tx_indexer::trace::TransactionTrace;

fn sample_raw() -> Raw {
    Raw {
        from: vec![0x11; 20],
        to: vec![0x22; 20],
        value: "0x0102".to_string(),
        gas_limit: "21000".to_string(),
        gas_price: "0x0".to_string(),
        max_fee_per_gas: "0x00ff".to_string(),
        max_priority_fee_per_gas: "0x0".to_string(),
        access_list: "0x".to_string(),
        data: vec![0xDE, 0xAD, 0xBE, 0xEF],
        tx_type: 2,
    }
}

#[test]
fn round_trip_empty() {
    let rs = TxRecords { records: Vec::new() };
    let bytes = encode_tx_records(&rs);
    assert!(bytes.is_empty());
    let back = decode_tx_records(&bytes).unwrap();
    assert_eq!(back, rs);
}

#[test]
fn round_trip_full_record() {
    let rec = TxRecord {
        id: vec![0xAB; 32],
        kind: "contractCallWithData".to_string(),
        raw: Some(sample_raw()),
        decoded: None,
    };
    let rs = TxRecords { records: vec![rec] };
    let bytes = encode_tx_records(&rs);
    let back = decode_tx_records(&bytes).unwrap();
    assert_eq!(back, rs);
}

#[test]
fn round_trip_with_decoded_section() {
    let dec = Decoded {
        selector: "0xa9059cbb".to_string(),
        fn_sig: "transfer(address,uint256)".to_string(),
        args: vec!["0x22".to_string(), "1000".to_string()],
        abi_source: "etherscan".to_string(),
        args_json: "[\"0x22\",\"1000\"]".to_string(),
    };
    let rec = TxRecord {
        id: vec![0x01; 32],
        kind: "contractCallNoData".to_string(),
        raw: Some(sample_raw()),
        decoded: Some(dec),
    };
    let rs = TxRecords { records: vec![rec] };
    let bytes = encode_tx_records(&rs);
    let back = decode_tx_records(&bytes).unwrap();
    assert_eq!(back, rs);
}

#[test]
fn round_trip_several_records_keeps_order() {
    let mut recs = Vec::new();
    for i in 0..5u8 {
        recs.push(TxRecord {
            id: vec![i; 32],
            kind: "ethTransfer".to_string(),
            raw: Some(sample_raw()),
            decoded: None,
        });
    }
    let rs = TxRecords { records: recs };
    let bytes = encode_tx_records(&rs);
    let back = decode_tx_records(&bytes).unwrap();
    assert_eq!(back, rs);
    for i in 0..5u8 {
        assert_eq!(back.records[i as usize].id, vec![i; 32]);
    }
}

#[test]
fn round_trip_record_without_raw() {
    let rec = TxRecord {
        id: Vec::new(),
        kind: String::new(),
        raw: None,
        decoded: None,
    };
    let rs = TxRecords { records: vec![rec] };
    let bytes = encode_tx_records(&rs);
    let back = decode_tx_records(&bytes).unwrap();
    assert_eq!(back, rs);
}

#[test]
fn round_trip_mapper_output() {
    let t = TransactionTrace {
        hash: vec![0xCC; 32],
        from: Vec::new(),
        to: b"0x0000000000000000000000000000000000000001".to_vec(),
        input: vec![1, 2],
        value: Some(vec![0x10]),
        gas_limit: 0,
        gas_price: None,
        max_fee_per_gas: Some(vec![0x05, 0x00]),
        max_priority_fee_per_gas: Some(Vec::new()),
        access_list_count: 1,
        call_count: 2,
        tx_type: 1,
    };
    let block = Block { transaction_traces: vec![t] };
    let (records, _) = map_transactions(&block);
    assert_eq!(records.records[0].kind, "precompileCall");
    let bytes = encode_tx_records(&records);
    let back = decode_tx_records(&bytes).unwrap();
    assert_eq!(back, records);
}

#[test]
fn wire_layout_of_minimal_record() {
    let rec = TxRecord {
        id: vec![0x07],
        kind: "k".to_string(),
        raw: None,
        decoded: None,
    };
    let rs = TxRecords { records: vec![rec] };
    let bytes = encode_tx_records(&rs);
    // records field: tag 0x0A, length 6; id field: tag 0x0A, length 1,
    // byte 0x07; kind field: tag 0x12, length 1, byte 'k'.
    assert_eq!(bytes, vec![0x0A, 0x06, 0x0A, 0x01, 0x07, 0x12, 0x01, b'k']);
}

#[test]
fn varint_length_spelling_over_two_bytes() {
    let rec = TxRecord {
        id: vec![0x55; 300],
        kind: String::new(),
        raw: None,
        decoded: None,
    };
    let rs = TxRecords { records: vec![rec] };
    let bytes = encode_tx_records(&rs);
    // Record payload: id field (3 + 300 bytes) and empty kind field (2),
    // 305 = 0xB1 0x02 in varint form; id payload length 300 = 0xAC 0x02.
    assert_eq!(&bytes[..6], &[0x0A, 0xB1, 0x02, 0x0A, 0xAC, 0x02]);
    let back = decode_tx_records(&bytes).unwrap();
    assert_eq!(back, rs);
}

#[test]
fn decode_rejects_garbage() {
    assert!(decode_tx_records(&[0xFF]).is_none());
    assert!(decode_tx_records(&[0x0A]).is_none());
    assert!(decode_tx_records(&[0x0A, 0x05, 0x00]).is_none());
}

#[test]
fn decode_rejects_trailing_bytes_in_record() {
    let rec = TxRecord {
        id: vec![0x07],
        kind: "k".to_string(),
        raw: None,
        decoded: None,
    };
    let rs = TxRecords { records: vec![rec] };
    let mut bytes = encode_tx_records(&rs);
    // Extend the record's framed length by one stray byte.
    bytes[1] += 1;
    bytes.push(0x00);
    assert!(decode_tx_records(&bytes).is_none());
}

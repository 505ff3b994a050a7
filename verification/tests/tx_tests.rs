use bitcoin::hashes::Hash as BitcoinHash;
use bitcoin::{absolute, transaction, Amount, OutPoint, ScriptBuf, Sequence, Transaction, TxIn, TxOut, Txid, Witness};

use kernel_playground::tx::{
    bitcoin_tx_from_bytes, bytes_eq, prevouts_from_kernel_coins, txid, txid_display, TxInput,
    TxOutput,
};

fn sample_bitcoin_tx() -> Transaction {
    let mut witness = Witness::new();
    witness.push([0x30u8; 71]);
    witness.push([0x02u8; 33]);
    Transaction {
        version: transaction::Version::TWO,
        lock_time: absolute::LockTime::from_consensus(800_123),
        input: vec![
            TxIn {
                previous_output: OutPoint::new(Txid::from_byte_array([0xab; 32]), 3),
                script_sig: ScriptBuf::new(),
                sequence: Sequence(0xFFFF_FFFD),
                witness,
            },
            TxIn {
                previous_output: OutPoint::new(Txid::from_byte_array([0x12; 32]), 0),
                script_sig: ScriptBuf::from_bytes(vec![0x51]),
                sequence: Sequence(0xFFFF_FFFF),
                witness: Witness::new(),
            },
        ],
        output: vec![
            TxOut {
                value: Amount::from_sat(50_000),
                script_pubkey: ScriptBuf::from_bytes(vec![0x00, 0x14, 1, 2, 3, 4, 5, 6, 7, 8, 9, 10, 11, 12, 13, 14, 15, 16, 17, 18, 19, 20]),
            },
            TxOut { value: Amount::from_sat(1_234), script_pubkey: ScriptBuf::from_bytes(vec![0x6a, 0x01, 0x07]) },
        ],
    }
}

#[test]
fn decodes_consensus_bytes_field_by_field() {
    let tx = sample_bitcoin_tx();
    let bytes = bitcoin::consensus::encode::serialize(&tx);
    let data = bitcoin_tx_from_bytes(&bytes).unwrap();
    assert_eq!(data.version, 2);
    assert_eq!(data.lock_time, 800_123);
    assert_eq!(data.inputs.len(), 2);
    assert_eq!(data.inputs[0].prev_txid, [0xab; 32]);
    assert_eq!(data.inputs[0].prev_vout, 3);
    assert_eq!(data.inputs[0].sequence, 0xFFFF_FFFD);
    assert_eq!(data.inputs[0].witness, vec![vec![0x30u8; 71], vec![0x02u8; 33]]);
    assert_eq!(data.inputs[1].script_sig, vec![0x51]);
    assert!(data.inputs[1].witness.is_empty());
    assert_eq!(data.outputs[0].value, 50_000);
    assert_eq!(data.outputs[1].script_pubkey, vec![0x6a, 0x01, 0x07]);
    assert!(data.outputs[1].is_op_return());
    assert!(!data.outputs[0].is_op_return());
    assert!(!data.is_coinbase());
}

#[test]
fn decode_rejects_garbage_and_trailing_bytes() {
    let err = bitcoin_tx_from_bytes(&[0x01, 0x02]).unwrap_err();
    assert!(!err.detail.is_empty());
    let mut bytes = bitcoin::consensus::encode::serialize(&sample_bitcoin_tx());
    bytes.push(0);
    assert!(bitcoin_tx_from_bytes(&bytes).is_err());
}

#[test]
fn txid_matches_rust_bitcoin() {
    let tx = sample_bitcoin_tx();
    let bytes = bitcoin::consensus::encode::serialize(&tx);
    let data = bitcoin_tx_from_bytes(&bytes).unwrap();
    let id = txid(&data);
    assert_eq!(id, tx.compute_txid().to_byte_array());
    assert_eq!(txid_display(&id), tx.compute_txid().to_string());
}

#[test]
fn txid_display_reverses_bytes() {
    let mut id = [0u8; 32];
    id[0] = 0x01;
    id[31] = 0xab;
    let s = txid_display(&id);
    assert_eq!(s.len(), 64);
    assert!(s.starts_with("ab00"));
    assert!(s.ends_with("0001"));
}

#[test]
fn coinbase_needs_a_single_null_outpoint_input() {
    let cb = TxInput { prev_txid: [0; 32], prev_vout: 0xFFFF_FFFF, script_sig: vec![3, 1, 2, 3], sequence: 0xFFFF_FFFF, witness: vec![] };
    assert!(cb.spends_null_outpoint());
    let mut tx = kernel_playground::tx::TxData { version: 1, lock_time: 0, inputs: vec![cb.clone()], outputs: vec![] };
    assert!(tx.is_coinbase());
    tx.inputs.push(cb.clone());
    assert!(!tx.is_coinbase());
    let mut not_null = cb.clone();
    not_null.prev_txid[5] = 1;
    assert!(!not_null.spends_null_outpoint());
    not_null.prev_txid[5] = 0;
    not_null.prev_vout = 0;
    assert!(!not_null.spends_null_outpoint());
}

#[test]
fn kernel_coins_become_prevouts_in_order() {
    let outs = prevouts_from_kernel_coins(vec![(5_000, vec![0x51]), (0, vec![])]).unwrap();
    assert_eq!(outs, vec![TxOutput { value: 5_000, script_pubkey: vec![0x51] }, TxOutput { value: 0, script_pubkey: vec![] }]);
    assert!(prevouts_from_kernel_coins(vec![]).unwrap().is_empty());
}

#[test]
fn negative_kernel_coin_is_refused_at_the_first_one() {
    let err = prevouts_from_kernel_coins(vec![(1, vec![]), (-5, vec![]), (-7, vec![])]).unwrap_err();
    assert_eq!(err.value_sat, -5);
}

#[test]
fn byte_equality() {
    assert!(bytes_eq(&[1, 2, 3], &[1, 2, 3]));
    assert!(!bytes_eq(&[1, 2, 3], &[1, 2]));
    assert!(!bytes_eq(&[1, 2, 3], &[1, 2, 4]));
    assert!(bytes_eq(&[], &[]));
}

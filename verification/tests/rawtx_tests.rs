use kernel_playground::rawtx::{extract, p2pk_misread, rawtx_panic_input, RawTxError};
use kernel_playground::tx::{TxData, TxInput, TxOutput};
use kernel_playground::types::{Categorical, DerEncoding, PubkeyAlgo, RawInputType, RawOutputType, SigAlgo, SighashType};

const GENERATOR: [u8; 33] = [
    0x02, 0x79, 0xbe, 0x66, 0x7e, 0xf9, 0xdc, 0xbb, 0xac, 0x55, 0xa0, 0x62, 0x95, 0xce, 0x87, 0x0b, 0x07,
    0x02, 0x9b, 0xfc, 0xdb, 0x2d, 0xce, 0x28, 0xd9, 0x59, 0xf2, 0x81, 0x5b, 0x16, 0xf8, 0x17, 0x98,
];

fn der_signature(sighash: u8) -> Vec<u8> {
    let mut s = vec![0x30, 0x44, 0x02, 0x20];
    s.extend([0x01u8; 32]);
    s.extend([0x02, 0x20]);
    s.extend([0x01u8; 32]);
    s.push(sighash);
    s
}

fn input(script_sig: Vec<u8>, witness: Vec<Vec<u8>>) -> TxInput {
    TxInput { prev_txid: [7; 32], prev_vout: 0, script_sig, sequence: 0xFFFF_FFFF, witness }
}

fn p2tr_out() -> TxOutput {
    let mut s = vec![0x51, 0x20];
    s.extend([0x33u8; 32]);
    TxOutput { value: 900, script_pubkey: s }
}

fn tx(inputs: Vec<TxInput>, outputs: Vec<TxOutput>) -> TxData {
    TxData { version: 2, lock_time: 0, inputs, outputs }
}

#[test]
fn p2wpkh_spend_characteristics() {
    let t = tx(
        vec![input(vec![], vec![der_signature(0x01), GENERATOR.to_vec()])],
        vec![p2tr_out(), TxOutput { value: 0, script_pubkey: vec![0x6a, 0x01, 0x05] }],
    );
    let f = extract(&t).unwrap();
    assert_eq!(f.version, 2);
    assert_eq!(f.inputs.len(), 1);
    let i = &f.inputs[0];
    assert_eq!(i.input_type, RawInputType::P2wpkh);
    assert!(i.multisig.is_none());
    assert!(!i.reveals_inscription);
    assert_eq!(i.signatures.len(), 1);
    let s = &i.signatures[0];
    assert_eq!(s.signature_type, SigAlgo::Ecdsa);
    assert_eq!(s.der_encoding, DerEncoding::Valid);
    assert_eq!(s.sighash, SighashType::All);
    assert_eq!(s.sighash_flag, 0x01);
    assert_eq!(s.length, 71);
    assert!(s.low_r);
    assert!(s.low_s);
    assert_eq!(i.pubkeys.len(), 1);
    assert_eq!(i.pubkeys[0].pubkey_type, PubkeyAlgo::Ecdsa);
    assert!(i.pubkeys[0].compressed);
    assert_eq!(f.outputs.len(), 2);
    assert_eq!(f.outputs[0].output_type, RawOutputType::P2tr);
    assert!(f.outputs[1].output_type.as_u8() >= RawOutputType::OpReturn.as_u8());
}

#[test]
fn anyone_can_pay_sighash_is_kept() {
    let t = tx(vec![input(vec![], vec![der_signature(0x83), GENERATOR.to_vec()])], vec![p2tr_out()]);
    let f = extract(&t).unwrap();
    assert_eq!(f.inputs[0].signatures[0].sighash, SighashType::SingleAnyoneCanPay);
    assert_eq!(f.inputs[0].signatures[0].sighash_flag, 0x83);
}

#[test]
fn sixty_four_byte_schnorr_signature_is_sighash_default() {
    let t = tx(vec![input(vec![], vec![vec![0x42; 64]])], vec![p2tr_out()]);
    let f = extract(&t).unwrap();
    let i = &f.inputs[0];
    assert_eq!(i.input_type, RawInputType::P2trkp);
    assert_eq!(i.signatures.len(), 1);
    assert_eq!(i.signatures[0].signature_type, SigAlgo::Schnorr);
    assert_eq!(i.signatures[0].sighash, SighashType::Default);
    assert_eq!(i.signatures[0].sighash_flag, 0x00);
    assert_eq!(i.signatures[0].der_encoding, DerEncoding::NotApplicable);
}

#[test]
fn coinbase_input_type() {
    let cb = TxInput { prev_txid: [0; 32], prev_vout: 0xFFFF_FFFF, script_sig: vec![0x03, 0x01, 0x02, 0x03], sequence: 0xFFFF_FFFF, witness: vec![] };
    let f = extract(&tx(vec![cb], vec![p2tr_out()])).unwrap();
    assert_eq!(f.inputs[0].input_type, RawInputType::Coinbase);
    assert!(f.inputs[0].signatures.is_empty());
}

#[test]
fn unreadable_input_is_reported_by_position() {
    let good = input(vec![], vec![der_signature(0x01), GENERATOR.to_vec()]);
    let bad = input(vec![0x4c], vec![]);
    let r = extract(&tx(vec![good.clone(), bad.clone(), bad], vec![p2tr_out()]));
    match r.unwrap_err() {
        RawTxError::Input(k, detail) => {
            assert_eq!(k, 1);
            // rawtx-rs's own text: the input's type could not be determined.
            assert!(detail.starts_with("Could not determine type of input"), "{detail}");
        }
        other => panic!("unexpected {other:?}"),
    }
}

fn p2pk_input(pushdata: bool) -> TxInput {
    let sig = der_signature(0x01);
    let mut script_sig = if pushdata { vec![0x4c, sig.len() as u8] } else { vec![sig.len() as u8] };
    script_sig.extend(sig);
    input(script_sig, vec![])
}

#[test]
fn p2pk_signature_pushed_directly_is_read() {
    let i = p2pk_input(false);
    assert!(!p2pk_misread(&i));
    let t = tx(vec![i], vec![p2tr_out()]);
    assert_eq!(rawtx_panic_input(&t), None);
    let f = extract(&t).unwrap();
    assert_eq!(f.inputs[0].input_type, RawInputType::P2pk);
    assert_eq!(f.inputs[0].signatures.len(), 1);
    assert_eq!(f.inputs[0].signatures[0].sighash, SighashType::All);
}

#[test]
fn p2pk_signature_pushed_with_pushdata_is_flagged() {
    let bad = p2pk_input(true);
    assert!(p2pk_misread(&bad));
    let good = input(vec![], vec![der_signature(0x01), GENERATOR.to_vec()]);
    assert_eq!(rawtx_panic_input(&tx(vec![good.clone(), bad.clone()], vec![p2tr_out()])), Some(1));
    // An unreadable input before it ends the reading first: no panic.
    let unreadable = input(vec![0x4c], vec![]);
    assert_eq!(rawtx_panic_input(&tx(vec![unreadable, bad.clone()], vec![p2tr_out()])), None);
    // A PUSHDATA push of something that is not a signature is no P2PK input.
    assert!(!p2pk_misread(&input(vec![0x4c, 0x02, 0x51, 0x51], vec![])));
}

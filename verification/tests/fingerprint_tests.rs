use bitcoin::hashes::Hash as BitcoinHash;
use bitcoin::{OutPoint, ScriptBuf, Sequence, TxIn, Txid, Witness};
use rawtx_rs::input::InputTypeDetection;

use kernel_playground::fingerprints::{
    extract, is_p2trkp, is_p2trsp, taproot_input_info, witness_has_annex, IndexerInputFingerprints,
    TransactionFingerprints,
};
use kernel_playground::tx::{TxData, TxInput, TxOutput};
use kernel_playground::types::{InputSorting, OutputStructure, RawOutputType, SchnorrSighashForm};

fn input(script_sig: Vec<u8>, witness: Vec<Vec<u8>>) -> TxInput {
    TxInput { prev_txid: [9; 32], prev_vout: 1, script_sig, sequence: 0xFFFF_FFFD, witness }
}

fn as_txin(i: &TxInput) -> TxIn {
    TxIn {
        previous_output: OutPoint::new(Txid::from_byte_array(i.prev_txid), i.prev_vout),
        script_sig: ScriptBuf::from_bytes(i.script_sig.clone()),
        sequence: Sequence(i.sequence),
        witness: Witness::from_slice(&i.witness),
    }
}

fn sig65(flag: u8) -> Vec<u8> {
    let mut s = vec![0x11u8; 65];
    s[64] = flag;
    s
}

fn control_block(len: usize, first: u8) -> Vec<u8> {
    let mut c = vec![0x22u8; len];
    c[0] = first;
    c
}

fn annex() -> Vec<u8> {
    vec![0x50, 0x01, 0x02]
}

fn sample_inputs() -> Vec<TxInput> {
    vec![
        input(vec![], vec![vec![0x11; 64]]),
        input(vec![], vec![sig65(0x01)]),
        input(vec![], vec![sig65(0x83)]),
        input(vec![], vec![sig65(0x42)]),
        input(vec![], vec![vec![0x11; 64], annex()]),
        input(vec![], vec![vec![0x11; 64], vec![0x00]]),
        input(vec![], vec![vec![0x11; 63]]),
        input(vec![0x51], vec![vec![0x11; 64]]),
        input(vec![], vec![]),
        input(vec![], vec![vec![0x11; 64], vec![0x51, 0xac], control_block(33, 0xc0)]),
        input(vec![], vec![vec![0x11; 64], vec![0x51], control_block(33, 0xc1), annex()]),
        input(vec![], vec![vec![0x51], control_block(65, 0xc0)]),
        input(vec![], vec![vec![0x51], control_block(34, 0xc0)]),
        input(vec![], vec![vec![0x51], control_block(33, 0xc2)]),
        input(vec![], vec![control_block(33, 0xc0), annex()]),
        input(vec![], vec![vec![0x30; 72], vec![0x02; 33]]),
        input(vec![], vec![vec![], vec![0x50]]),
    ]
}

#[test]
fn taproot_path_detection_agrees_with_rawtx() {
    for i in sample_inputs() {
        let txin = as_txin(&i);
        assert_eq!(is_p2trkp(&i), txin.is_p2trkp(), "key path on {:?}", i.witness);
        assert_eq!(is_p2trsp(&i), txin.is_p2trsp(), "script path on {:?}", i.witness);
    }
}

#[test]
fn key_path_forms() {
    let info = taproot_input_info(&input(vec![], vec![vec![0x11; 64]]));
    assert!(!info.has_annex);
    assert_eq!(info.schnorr_forms, vec![SchnorrSighashForm::Default]);
    let info = taproot_input_info(&input(vec![], vec![sig65(0x01), annex()]));
    assert!(info.has_annex);
    assert_eq!(info.schnorr_forms, vec![SchnorrSighashForm::ExplicitAll]);
    let info = taproot_input_info(&input(vec![], vec![sig65(0x82)]));
    assert_eq!(info.schnorr_forms, vec![SchnorrSighashForm::ExplicitOther]);
}

#[test]
fn script_path_forms_skip_script_and_control_block() {
    let w = vec![vec![0x11; 64], sig65(0x03), vec![0x07; 10], vec![0x51], control_block(33, 0xc0)];
    let info = taproot_input_info(&input(vec![], w));
    assert!(!info.has_annex);
    assert_eq!(info.schnorr_forms, vec![SchnorrSighashForm::Default, SchnorrSighashForm::ExplicitOther]);

    let w = vec![vec![0x11; 64], vec![0x51], control_block(33, 0xc0), annex()];
    let info = taproot_input_info(&input(vec![], w));
    assert!(info.has_annex);
    assert_eq!(info.schnorr_forms, vec![SchnorrSighashForm::Default]);

    let w = vec![vec![0x11; 64], vec![0x51; 64], control_block(33, 0xc0)];
    let info = taproot_input_info(&input(vec![], w));
    assert_eq!(info.schnorr_forms.len(), 1);
}

#[test]
fn annex_only_counts_on_taproot_spends() {
    let segwit_v0 = input(vec![], vec![vec![0x30; 72], vec![0x50; 33], vec![0x50, 0x01]]);
    assert!(witness_has_annex(&segwit_v0));
    let info = taproot_input_info(&segwit_v0);
    assert!(!info.has_annex);
    assert!(info.schnorr_forms.is_empty());
    assert!(!witness_has_annex(&input(vec![], vec![annex()])));
    assert!(!witness_has_annex(&input(vec![], vec![vec![0x11; 64], vec![]])));
}

#[test]
fn extract_assembles_per_input_facts() {
    let mut p2tr = vec![0x51, 0x20];
    p2tr.extend([0x33u8; 32]);
    let tx = TxData {
        version: 2,
        lock_time: 0,
        inputs: vec![input(vec![], vec![vec![0x11; 64], annex()]), input(vec![0x51], vec![])],
        outputs: vec![TxOutput { value: 10, script_pubkey: vec![0x6a] }],
    };
    let prevouts = vec![TxOutput { value: 1_000, script_pubkey: p2tr }];
    let transaction = TransactionFingerprints {
        address_reuse: true,
        mixed_input_types: false,
        input_order: vec![InputSorting::Bip69],
        nlocktime_optin_without_use: false,
        bip68_with_absolute_locktime: false,
        outputs_bip69_sorted: true,
        output_structure: OutputStructure::Single,
        round_fee: Some(false),
    };
    let indexer = vec![
        IndexerInputFingerprints { low_r_grinding: true, has_uncompressed_pubkey: true },
        IndexerInputFingerprints { low_r_grinding: false, has_uncompressed_pubkey: true },
    ];
    let fp = extract(&tx, &prevouts, transaction, &indexer);
    assert!(fp.transaction.address_reuse);
    assert_eq!(fp.transaction.input_order, vec![InputSorting::Bip69]);
    assert_eq!(fp.inputs.len(), 2);
    assert!(fp.inputs[0].low_r_grinding);
    assert_eq!(fp.inputs[0].input_type, RawOutputType::P2tr);
    assert!(fp.inputs[0].has_uncompressed_pubkey);
    assert!(fp.inputs[0].has_taproot_annex);
    assert_eq!(fp.inputs[0].schnorr_sighash_forms, vec![SchnorrSighashForm::Default]);
    // The second input has no prevout: unknown type, and no uncompressed key.
    assert_eq!(fp.inputs[1].input_type, RawOutputType::Unknown);
    assert!(!fp.inputs[1].has_uncompressed_pubkey);
    assert!(!fp.inputs[1].has_taproot_annex);
    assert!(fp.inputs[1].schnorr_sighash_forms.is_empty());
}

use kernel_playground::block::BlockTxContext;
use kernel_playground::fingerprints::{FingerprintFeatures, InputFingerprints, TransactionFingerprints};
use kernel_playground::heuristics::{extract, HeuristicFeatures};
use kernel_playground::rawtx::{
    InputCharacteristics, MultisigInfo, OutputCharacteristics, PubkeyCharacteristics, RawTxFeatures,
    SignatureCharacteristics,
};
use kernel_playground::tx::{TxData, TxInput, TxOutput};
use kernel_playground::types::{
    Categorical, CpfpRole, DerEncoding, LocktimeShape, OutputStructure, PubkeyAlgo, RawInputType, RawOutputType,
    SequenceShape, SigAlgo, SighashType,
};

fn spend(n: u8, sequence: u32) -> TxInput {
    TxInput { prev_txid: [n; 32], prev_vout: 0, script_sig: vec![], sequence, witness: vec![vec![1]] }
}

fn out(value: u64) -> TxOutput {
    TxOutput { value, script_pubkey: vec![0x51] }
}

fn op_return(value: u64) -> TxOutput {
    TxOutput { value, script_pubkey: vec![0x6a, 0x00] }
}

fn tx(n_inputs: u8, outputs: Vec<TxOutput>) -> TxData {
    TxData { version: 2, lock_time: 0, inputs: (1..=n_inputs).map(|n| spend(n, 0xFFFF_FFFF)).collect(), outputs }
}

fn fingerprints(n_inputs: usize, uncompressed: bool) -> FingerprintFeatures {
    FingerprintFeatures {
        transaction: TransactionFingerprints {
            address_reuse: false,
            mixed_input_types: false,
            input_order: vec![],
            nlocktime_optin_without_use: false,
            bip68_with_absolute_locktime: false,
            outputs_bip69_sorted: false,
            output_structure: OutputStructure::Multi,
            round_fee: None,
        },
        inputs: (0..n_inputs)
            .map(|_| InputFingerprints {
                low_r_grinding: false,
                input_type: RawOutputType::P2wpkhV0,
                has_uncompressed_pubkey: uncompressed,
                has_taproot_annex: false,
                schnorr_sighash_forms: vec![],
            })
            .collect(),
    }
}

fn plain_input(input_type: RawInputType) -> InputCharacteristics {
    InputCharacteristics { input_type, multisig: None, signatures: vec![], pubkeys: vec![], reveals_inscription: false }
}

fn rawtx(inputs: Vec<InputCharacteristics>) -> RawTxFeatures {
    RawTxFeatures { version: 2, inputs, outputs: vec![] }
}

fn signature(sighash: SighashType) -> SignatureCharacteristics {
    SignatureCharacteristics {
        signature_type: SigAlgo::Ecdsa,
        der_encoding: DerEncoding::Valid,
        sighash,
        sighash_flag: sighash_flag(sighash),
        length: 72,
        low_r: true,
        low_s: true,
    }
}

fn sighash_flag(s: SighashType) -> u8 {
    s.as_u8()
}

const NO_CTX: BlockTxContext = BlockTxContext { spends_same_block_parent: false, has_same_block_child: false };

fn run(t: &TxData, prevouts: &[TxOutput], raw: &RawTxFeatures) -> HeuristicFeatures {
    extract(t, prevouts, &fingerprints(t.inputs.len(), false), raw, &NO_CTX, 800_000)
}

fn plain_raw(t: &TxData) -> RawTxFeatures {
    rawtx(t.inputs.iter().map(|_| plain_input(RawInputType::P2wpkh)).collect())
}

#[test]
fn equal_payment_amounts_count_as_coinjoin() {
    let t = tx(2, vec![out(500), out(700), out(500)]);
    let h = run(&t, &[out(1_000), out(1_000)], &plain_raw(&t));
    assert!(h.equal_amount_outputs);
    assert!(h.likely_coinjoin);

    let t = tx(2, vec![out(500), op_return(500)]);
    let h = run(&t, &[out(1_000), out(1_000)], &plain_raw(&t));
    assert!(!h.equal_amount_outputs);
    assert!(!h.likely_coinjoin);
}

#[test]
fn shared_value_coinjoin_shape() {
    // Three outputs share an amount (OP_RETURNs count here), one in three or more.
    let t = tx(2, vec![op_return(0), op_return(0), op_return(0), out(5)]);
    let h = run(&t, &[out(10), out(10)], &plain_raw(&t));
    assert!(!h.equal_amount_outputs);
    assert!(h.likely_coinjoin);

    // A single input never looks like a coinjoin of that kind.
    let t = tx(1, vec![op_return(0), op_return(0), op_return(0), out(5)]);
    let h = run(&t, &[out(10)], &plain_raw(&t));
    assert!(!h.likely_coinjoin);

    // Shared by only two outputs: not enough.
    let t = tx(2, vec![op_return(0), op_return(0), out(5)]);
    let h = run(&t, &[out(10), out(10)], &plain_raw(&t));
    assert!(!h.likely_coinjoin);

    // Three of ten outputs share a value: fewer than a third of them.
    let mut outs = vec![op_return(0), op_return(0), op_return(0)];
    outs.extend((1..8).map(out));
    let t = tx(2, outs);
    let h = run(&t, &[out(10), out(10)], &plain_raw(&t));
    assert!(!h.likely_coinjoin);

    // Three of nine outputs: exactly a third.
    let mut outs = vec![op_return(0), op_return(0), op_return(0)];
    outs.extend((1..7).map(out));
    let t = tx(2, outs);
    let h = run(&t, &[out(10), out(10)], &plain_raw(&t));
    assert!(h.likely_coinjoin);

    // Three of twelve outputs share a value, fewer than a third of them.
    let mut outs = vec![op_return(1), op_return(1), op_return(1)];
    outs.extend((10..19).map(out));
    let t = tx(2, outs);
    let h = run(&t, &[out(10), out(10)], &plain_raw(&t));
    assert!(!h.likely_coinjoin);
}

#[test]
fn consolidation_shapes() {
    let t = tx(3, vec![out(10), out(20)]);
    assert!(run(&t, &[], &plain_raw(&t)).likely_consolidation);
    let t = tx(3, vec![out(10), out(20), out(30)]);
    assert!(!run(&t, &[], &plain_raw(&t)).likely_consolidation);
    let t = tx(2, vec![out(10)]);
    assert!(!run(&t, &[], &plain_raw(&t)).likely_consolidation);
    let t = tx(3, vec![out(10), out(20), op_return(0)]);
    assert!(run(&t, &[], &plain_raw(&t)).likely_consolidation);
    // Only OP_RETURN outputs: no payment output, so no consolidation.
    let t = tx(3, vec![op_return(0), op_return(0), op_return(1)]);
    assert!(!run(&t, &[], &plain_raw(&t)).likely_consolidation);
    let t = tx(3, vec![]);
    assert!(!run(&t, &[], &plain_raw(&t)).likely_consolidation);
    // Ten inputs into at most two outputs, whatever they are.
    let t = tx(10, vec![op_return(0)]);
    assert!(run(&t, &[], &plain_raw(&t)).likely_consolidation);
}

#[test]
fn cpfp_role_from_block_context() {
    let t = tx(1, vec![out(10)]);
    let raw = plain_raw(&t);
    let fp = fingerprints(1, false);
    let role = |p: bool, c: bool| {
        extract(&t, &[], &fp, &raw, &BlockTxContext { spends_same_block_parent: p, has_same_block_child: c }, 1).cpfp
    };
    assert_eq!(role(false, false), CpfpRole::NoRole);
    assert_eq!(role(false, true), CpfpRole::Parent);
    assert_eq!(role(true, false), CpfpRole::Child);
    assert_eq!(role(true, true), CpfpRole::Both);
}

#[test]
fn sighashes_are_distinct_and_ordered() {
    let t = tx(2, vec![out(10)]);
    let mut a = plain_input(RawInputType::P2wpkh);
    a.signatures = vec![signature(SighashType::All), signature(SighashType::SingleAnyoneCanPay)];
    let mut b = plain_input(RawInputType::P2trkp);
    b.signatures = vec![signature(SighashType::Default), signature(SighashType::All)];
    let h = run(&t, &[], &rawtx(vec![a, b]));
    assert_eq!(h.sighashes, vec![SighashType::Default, SighashType::All, SighashType::SingleAnyoneCanPay]);
}

#[test]
fn sequence_and_locktime_shapes() {
    let mut t = tx(0, vec![out(10)]);
    t.inputs = vec![spend(1, 0xFFFF_FFFD), spend(2, 0), spend(3, 0xFFFF_FFFF)];
    t.lock_time = 799_999;
    let h = run(&t, &[], &plain_raw(&t));
    assert_eq!(h.sequence_shapes, vec![SequenceShape::RbfMax, SequenceShape::Zero, SequenceShape::Final]);
    assert_eq!(h.locktime_shape, LocktimeShape::PrevHeight);
}

#[test]
fn uncompressed_keys_from_any_source() {
    let t = tx(1, vec![out(10)]);
    assert!(!run(&t, &[], &plain_raw(&t)).has_uncompressed_pubkey);
    let fp = fingerprints(1, true);
    assert!(extract(&t, &[], &fp, &plain_raw(&t), &NO_CTX, 1).has_uncompressed_pubkey);

    let mut i = plain_input(RawInputType::P2pkh);
    i.pubkeys = vec![PubkeyCharacteristics { pubkey_type: PubkeyAlgo::Ecdsa, compressed: false }];
    assert!(run(&t, &[], &rawtx(vec![i])).has_uncompressed_pubkey);

    let mut raw = plain_raw(&t);
    raw.outputs = vec![OutputCharacteristics {
        output_type: RawOutputType::P2ms,
        pubkeys: vec![PubkeyCharacteristics { pubkey_type: PubkeyAlgo::Ecdsa, compressed: false }],
    }];
    assert!(run(&t, &[], &raw).has_uncompressed_pubkey);

    // A Schnorr key is never "uncompressed ECDSA".
    let mut i = plain_input(RawInputType::P2trkp);
    i.pubkeys = vec![PubkeyCharacteristics { pubkey_type: PubkeyAlgo::Schnorr, compressed: false }];
    assert!(!run(&t, &[], &rawtx(vec![i])).has_uncompressed_pubkey);
}

#[test]
fn multisig_configs_sorted_and_distinct() {
    let t = tx(3, vec![out(10)]);
    let ms = |m: u8, n: u8| {
        let mut i = plain_input(RawInputType::P2shP2wsh);
        i.multisig = Some(MultisigInfo { m, n, unknown_n: false });
        i
    };
    let h = run(&t, &[], &rawtx(vec![ms(2, 3), ms(1, 2), ms(2, 3)]));
    assert_eq!(h.multisig_configs, vec![MultisigInfo { m: 1, n: 2, unknown_n: false }, MultisigInfo { m: 2, n: 3, unknown_n: false }]);
    assert!(h.has_multisig);

    let t = tx(1, vec![out(10)]);
    let h = run(&t, &[], &rawtx(vec![plain_input(RawInputType::P2msLaxDer)]));
    assert!(h.multisig_configs.is_empty());
    assert!(h.has_multisig);
    let h = run(&t, &[], &rawtx(vec![plain_input(RawInputType::P2wpkh)]));
    assert!(!h.has_multisig);
}

#[test]
fn unnecessary_input_heuristics() {
    let t = tx(2, vec![out(6_000), out(100), op_return(1)]);
    let h = run(&t, &[out(5_000), out(7_000)], &plain_raw(&t));
    assert!(h.uih1);
    assert!(h.uih2);

    let t = tx(2, vec![out(6_000), out(5_500)]);
    let h = run(&t, &[out(5_000), out(7_000)], &plain_raw(&t));
    assert!(!h.uih1);
    assert!(h.uih2);

    let t = tx(2, vec![out(8_000), out(100)]);
    let h = run(&t, &[out(5_000), out(7_000)], &plain_raw(&t));
    assert!(h.uih1);
    assert!(!h.uih2);

    // No prevouts (a coinbase), or no payment output: neither.
    let h = run(&t, &[], &plain_raw(&t));
    assert!(!h.uih1 && !h.uih2);
    let t = tx(2, vec![op_return(0)]);
    let h = run(&t, &[out(5_000), out(7_000)], &plain_raw(&t));
    assert!(!h.uih1 && !h.uih2);
}

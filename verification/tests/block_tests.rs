use kernel_playground::block::{analyze_tx, analyze_tx_guarded, build_cpfp_context, BlockTxContext};
use kernel_playground::fingerprints::{IndexerFingerprints, IndexerInputFingerprints, TransactionFingerprints};
use kernel_playground::rawtx::RawTxError;
use kernel_playground::tx::{txid, txid_display, TxData, TxInput, TxOutput};
use kernel_playground::types::{CpfpRole, OutputStructure};

fn spend(prev_txid: [u8; 32], vout: u32) -> TxInput {
    TxInput { prev_txid, prev_vout: vout, script_sig: vec![], sequence: 0xFFFF_FFFF, witness: vec![vec![0x42; 64]] }
}

fn p2tr(tag: u8) -> TxOutput {
    let mut s = vec![0x51, 0x20];
    s.extend([tag; 32]);
    TxOutput { value: 1_000 + tag as u64, script_pubkey: s }
}

fn coinbase() -> TxData {
    TxData {
        version: 1,
        lock_time: 0,
        inputs: vec![TxInput { prev_txid: [0; 32], prev_vout: 0xFFFF_FFFF, script_sig: vec![0x03, 1, 2, 3], sequence: 0xFFFF_FFFF, witness: vec![] }],
        outputs: vec![p2tr(1)],
    }
}

fn tx(inputs: Vec<TxInput>, tag: u8) -> TxData {
    TxData { version: 2, lock_time: 0, inputs, outputs: vec![p2tr(tag), p2tr(tag + 1)] }
}

const NONE: BlockTxContext = BlockTxContext { spends_same_block_parent: false, has_same_block_child: false };

#[test]
fn same_block_parents_and_children() {
    let cb = coinbase();
    let t1 = tx(vec![spend([0xaa; 32], 0)], 10);
    let t2 = tx(vec![spend([0xbb; 32], 1), spend(txid(&t1), 1)], 20);
    let t4 = tx(vec![spend([0xcc; 32], 0)], 40);
    // t3 names t4, which comes later in the block: not a same-block parent.
    let t3 = tx(vec![spend(txid(&t4), 0)], 30);
    // t5 spends the coinbase and t2.
    let t5 = tx(vec![spend(txid(&cb), 0), spend(txid(&t2), 0)], 50);
    let block = vec![cb, t1, t2, t3, t4, t5];
    let ctx = build_cpfp_context(&block);
    assert_eq!(ctx.len(), 6);
    let both = BlockTxContext { spends_same_block_parent: true, has_same_block_child: true };
    let parent = BlockTxContext { spends_same_block_parent: false, has_same_block_child: true };
    let child = BlockTxContext { spends_same_block_parent: true, has_same_block_child: false };
    assert_eq!(ctx[0], parent);
    assert_eq!(ctx[1], parent);
    assert_eq!(ctx[2], both);
    assert_eq!(ctx[3], NONE);
    assert_eq!(ctx[4], NONE);
    assert_eq!(ctx[5], child);
}

#[test]
fn default_context_has_no_same_block_relations() {
    assert_eq!(BlockTxContext::default(), NONE);
}

#[test]
fn empty_and_single_blocks() {
    assert!(build_cpfp_context(&[]).is_empty());
    assert_eq!(build_cpfp_context(&[coinbase()]), vec![NONE]);
}

#[test]
fn duplicate_txids_resolve_to_the_last_occurrence() {
    // Two identical transactions share a txid; a later child of that txid is a
    // child of the last one only.
    let a = tx(vec![spend([0x11; 32], 0)], 60);
    let dup = a.clone();
    let c = tx(vec![spend(txid(&a), 0)], 70);
    let ctx = build_cpfp_context(&[coinbase(), a, dup, c]);
    assert_eq!(ctx[1], NONE);
    assert!(ctx[2].has_same_block_child);
    assert!(ctx[3].spends_same_block_parent);
}

fn indexer(n: usize) -> IndexerFingerprints {
    IndexerFingerprints {
        transaction: TransactionFingerprints {
            address_reuse: false,
            mixed_input_types: false,
            input_order: vec![],
            nlocktime_optin_without_use: false,
            bip68_with_absolute_locktime: false,
            outputs_bip69_sorted: false,
            output_structure: OutputStructure::Double,
            round_fee: None,
        },
        inputs: (0..n).map(|_| IndexerInputFingerprints { low_r_grinding: false, has_uncompressed_pubkey: false }).collect(),
    }
}

#[test]
fn analyze_tx_records_identity_and_parts() {
    let t = tx(vec![spend([0xaa; 32], 0)], 10);
    let prevouts = vec![p2tr(200)];
    let ctx = BlockTxContext { spends_same_block_parent: true, has_same_block_child: false };
    let a = analyze_tx(&t, &prevouts, 812_345, "00000000deadbeef", 7, &ctx, indexer(1)).unwrap();
    assert_eq!(a.txid, txid_display(&txid(&t)));
    assert_eq!(a.block_height, 812_345);
    assert_eq!(a.block_hash, "00000000deadbeef");
    assert_eq!(a.tx_index, 7);
    assert!(!a.is_coinbase);
    assert_eq!(a.heuristics.cpfp, CpfpRole::Child);
    assert_eq!(a.fingerprints.inputs.len(), 1);
    assert_eq!(a.rawtx.inputs.len(), 1);
    // Two P2TR payments below the 1200-sat input: the smaller one is change.
    assert!(a.change.uih1_optimal_change);
    assert_eq!(a.change.candidates.len(), 1);
    assert_eq!(a.change.candidates[0].vout, 0);
    assert!(a.heuristics.uih1);

    let cb = analyze_tx(&coinbase(), &[], 812_345, "h", 0, &NONE, indexer(1)).unwrap();
    assert!(cb.is_coinbase);
    assert!(cb.change.no_change_apparent);
}

#[test]
fn analyze_tx_fails_when_rawtx_cannot_read_an_input() {
    let bad = TxInput { prev_txid: [5; 32], prev_vout: 0, script_sig: vec![0x4c], sequence: 0, witness: vec![] };
    let t = tx(vec![spend([0xaa; 32], 0), bad], 10);
    let r = analyze_tx(&t, &[p2tr(1), p2tr(2)], 1, "h", 1, &NONE, indexer(2));
    match r.unwrap_err() {
        RawTxError::Input(k, detail) => {
            assert_eq!(k, 1);
            // rawtx-rs's own text: the input's type could not be determined.
            assert!(detail.starts_with("Could not determine type of input"), "{detail}");
        }
        other => panic!("unexpected {other:?}"),
    }
}

#[test]
fn guarded_analysis_refuses_a_misread_p2pk_input() {
    let mut sig = vec![0x30, 0x44, 0x02, 0x20];
    sig.extend([0x01u8; 32]);
    sig.extend([0x02, 0x20]);
    sig.extend([0x01u8; 32]);
    sig.push(0x01);
    let mut script_sig = vec![0x4c, sig.len() as u8];
    script_sig.extend(sig);
    let bad = TxInput { prev_txid: [5; 32], prev_vout: 0, script_sig, sequence: 0, witness: vec![] };
    let t = tx(vec![bad], 10);
    assert!(analyze_tx_guarded(&t, &[p2tr(1)], 1, "h", 1, &NONE, indexer(1)).is_none());

    let ok = tx(vec![spend([0xaa; 32], 0)], 10);
    let r = analyze_tx_guarded(&ok, &[p2tr(200)], 1, "h", 1, &NONE, indexer(1)).unwrap().unwrap();
    assert_eq!(r.tx_index, 1);
}

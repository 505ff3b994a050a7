use kernel_playground::block::{analyze_tx, BlockTxContext, TxAnalysis};
use kernel_playground::fingerprints::{IndexerFingerprints, IndexerInputFingerprints, TransactionFingerprints};
use kernel_playground::normalize::{normalize_tx, schema, FeatureValue};
use kernel_playground::tx::{TxData, TxInput, TxOutput};
use kernel_playground::types::{InputSorting, OutputStructure};

fn p2tr(value: u64, tag: u8) -> TxOutput {
    let mut s = vec![0x51, 0x20];
    s.extend([tag; 32]);
    TxOutput { value, script_pubkey: s }
}

fn analysis(round_fee: Option<bool>) -> TxAnalysis {
    let t = TxData {
        version: 2,
        lock_time: 0,
        inputs: vec![
            TxInput { prev_txid: [1; 32], prev_vout: 0, script_sig: vec![], sequence: 0xFFFF_FFFD, witness: vec![vec![0x42; 64]] },
            TxInput { prev_txid: [2; 32], prev_vout: 3, script_sig: vec![], sequence: 0xFFFF_FFFD, witness: vec![vec![0x42; 64], vec![0x50, 1]] },
        ],
        outputs: vec![p2tr(500, 7), p2tr(500, 8), TxOutput { value: 0, script_pubkey: vec![0x6a, 0x01, 0x01] }],
    };
    let indexer = IndexerFingerprints {
        transaction: TransactionFingerprints {
            address_reuse: false,
            mixed_input_types: false,
            input_order: vec![InputSorting::Bip69, InputSorting::Ascending],
            nlocktime_optin_without_use: true,
            bip68_with_absolute_locktime: false,
            outputs_bip69_sorted: true,
            output_structure: OutputStructure::Multi,
            round_fee,
        },
        inputs: vec![
            IndexerInputFingerprints { low_r_grinding: false, has_uncompressed_pubkey: false },
            IndexerInputFingerprints { low_r_grinding: true, has_uncompressed_pubkey: false },
        ],
    };
    let ctx = BlockTxContext { spends_same_block_parent: false, has_same_block_child: true };
    analyze_tx(&t, &[p2tr(2_000, 1), p2tr(3_000, 2)], 800_000, "blockhash", 3, &ctx, indexer).unwrap()
}

fn column(name: &str) -> usize {
    schema().columns.iter().position(|c| c == name).unwrap_or_else(|| panic!("no column {name}"))
}

fn flag(x: &[FeatureValue], name: &str) -> bool {
    match x[column(name)] {
        FeatureValue::Flag(b) => b,
        FeatureValue::Number(_) => panic!("{name} is not a flag"),
    }
}

#[test]
fn schema_layout() {
    let cols = schema().columns;
    assert_eq!(cols.len(), 121);
    assert_eq!(cols[0], "version");
    assert_eq!(cols[1], "fp_address_reuse");
    assert_eq!(cols[6], "fp_round_fee__none");
    assert_eq!(cols[7], "fp_round_fee__false");
    assert_eq!(cols[8], "fp_round_fee__true");
    assert_eq!(cols[9], "fp_input_order__single");
    assert_eq!(cols.last().unwrap(), "change_heuristic__script_type_match");
    for name in [
        "fp_output_structure__multi",
        "fp_any_low_r_grinding",
        "fp_any_taproot_annex",
        "fp_schnorr_sighash_form__default",
        "h_cpfp__none",
        "h_cpfp__both",
        "h_sighash__ALL|ANYONECANPAY",
        "h_sequence_shape__rbf_max",
        "h_locktime_shape__zero",
        "h_uih2",
        "prevout_type__p2tr",
        "input_type__p2tr_keypath",
        "output_type__op_return_runestone",
        "reveals_inscription",
        "change_no_change_apparent",
        "change_heuristic__optimal_change",
    ] {
        column(name);
    }
    let mut sorted = cols.clone();
    sorted.sort();
    sorted.dedup();
    assert_eq!(sorted.len(), cols.len(), "column names repeat");
}

#[test]
fn schema_is_stable() {
    assert_eq!(schema().columns, schema().columns);
}

#[test]
fn normalized_row_matches_the_record() {
    let a = analysis(Some(true));
    let n = normalize_tx(&a);
    assert_eq!(n.txid, a.txid);
    assert_eq!(n.block_height, 800_000);
    assert_eq!(n.tx_index, 3);
    assert!(!n.is_coinbase);
    assert_eq!(n.x.len(), schema().columns.len());
    assert_eq!(n.x[0], FeatureValue::Number(2));
    assert!(!flag(&n.x, "fp_address_reuse"));
    assert!(flag(&n.x, "fp_nlocktime_optin_without_use"));
    assert!(flag(&n.x, "fp_outputs_bip69_sorted"));
    assert!(!flag(&n.x, "fp_round_fee__none"));
    assert!(!flag(&n.x, "fp_round_fee__false"));
    assert!(flag(&n.x, "fp_round_fee__true"));
    assert!(flag(&n.x, "fp_input_order__bip69"));
    assert!(flag(&n.x, "fp_input_order__ascending"));
    assert!(!flag(&n.x, "fp_input_order__single"));
    assert!(flag(&n.x, "fp_output_structure__multi"));
    assert!(!flag(&n.x, "fp_output_structure__double"));
    assert!(flag(&n.x, "fp_any_low_r_grinding"));
    assert!(flag(&n.x, "fp_any_taproot_annex"));
    assert!(flag(&n.x, "fp_schnorr_sighash_form__default"));
    assert!(!flag(&n.x, "fp_schnorr_sighash_form__explicit_all"));
    assert!(flag(&n.x, "h_equal_amount_outputs"));
    assert!(flag(&n.x, "h_likely_coinjoin"));
    assert!(flag(&n.x, "h_cpfp__parent"));
    assert!(!flag(&n.x, "h_cpfp__none"));
    assert!(flag(&n.x, "h_sighash__DEFAULT"));
    assert!(flag(&n.x, "h_sequence_shape__rbf_max"));
    assert!(!flag(&n.x, "h_sequence_shape__final"));
    assert!(flag(&n.x, "h_locktime_shape__zero"));
    assert!(flag(&n.x, "h_uih1"));
    assert!(flag(&n.x, "prevout_type__p2tr"));
    assert!(!flag(&n.x, "prevout_type__p2pkh"));
    assert!(flag(&n.x, "input_type__p2tr_keypath"));
    assert!(flag(&n.x, "output_type__p2tr"));
    assert!(!flag(&n.x, "reveals_inscription"));
    assert!(!flag(&n.x, "change_no_change_apparent"));
    assert!(flag(&n.x, "change_heuristic__optimal_change"));
    assert!(!flag(&n.x, "change_heuristic__address_reuse"));
}

#[test]
fn round_fee_one_hot_covers_none() {
    let n = normalize_tx(&analysis(None));
    assert!(flag(&n.x, "fp_round_fee__none"));
    assert!(!flag(&n.x, "fp_round_fee__false"));
    assert!(!flag(&n.x, "fp_round_fee__true"));
    let n = normalize_tx(&analysis(Some(false)));
    assert!(flag(&n.x, "fp_round_fee__false"));
}

#[test]
fn every_row_has_one_value_per_column() {
    let width = schema().columns.len();
    for rf in [None, Some(false), Some(true)] {
        assert_eq!(normalize_tx(&analysis(rf)).x.len(), width);
    }
}

#[test]
fn one_hot_blocks_have_exactly_one_flag() {
    let n = normalize_tx(&analysis(Some(true)));
    let cols = schema().columns;
    for prefix in ["fp_round_fee__", "fp_output_structure__", "h_cpfp__", "h_locktime_shape__"] {
        let set = cols
            .iter()
            .zip(n.x.iter())
            .filter(|(c, v)| c.starts_with(prefix) && **v == FeatureValue::Flag(true))
            .count();
        assert_eq!(set, 1, "{prefix}");
    }
}

#[test]
fn row_ignores_order_and_repetition_of_lists() {
    let mut a = analysis(Some(true));
    let before = normalize_tx(&a);
    a.fingerprints.transaction.input_order.reverse();
    a.fingerprints.transaction.input_order.push(InputSorting::Bip69);
    a.fingerprints.inputs.reverse();
    a.rawtx.inputs.reverse();
    a.rawtx.outputs.reverse();
    let first = a.heuristics.sequence_shapes[0];
    a.heuristics.sequence_shapes.push(first);
    a.heuristics.sighashes.reverse();
    for c in a.change.candidates.iter_mut() {
        c.heuristics.reverse();
    }
    let after = normalize_tx(&a);
    assert_eq!(before.x, after.x);
}

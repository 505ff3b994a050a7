use kernel_playground::change::{analyze, push_heuristic};
use kernel_playground::fingerprints::{FingerprintFeatures, InputFingerprints, TransactionFingerprints};
use kernel_playground::tx::{TxData, TxInput, TxOutput};
use kernel_playground::types::{ChangeHeuristic, OutputStructure, RawOutputType};

fn p2wpkh(tag: u8) -> Vec<u8> {
    let mut s = vec![0x00, 0x14];
    s.extend([tag; 20]);
    s
}

fn p2tr(tag: u8) -> Vec<u8> {
    let mut s = vec![0x51, 0x20];
    s.extend([tag; 32]);
    s
}

fn spend(n: u8) -> TxInput {
    TxInput { prev_txid: [n; 32], prev_vout: 0, script_sig: vec![], sequence: 0xFFFF_FFFF, witness: vec![vec![1]] }
}

fn out(value: u64, script: Vec<u8>) -> TxOutput {
    TxOutput { value, script_pubkey: script }
}

fn tx(n_inputs: u8, outputs: Vec<TxOutput>) -> TxData {
    TxData { version: 2, lock_time: 0, inputs: (1..=n_inputs).map(spend).collect(), outputs }
}

fn fingerprints(address_reuse: bool, types: &[RawOutputType]) -> FingerprintFeatures {
    FingerprintFeatures {
        transaction: TransactionFingerprints {
            address_reuse,
            mixed_input_types: false,
            input_order: vec![],
            nlocktime_optin_without_use: false,
            bip68_with_absolute_locktime: false,
            outputs_bip69_sorted: false,
            output_structure: OutputStructure::Double,
            round_fee: None,
        },
        inputs: types
            .iter()
            .map(|t| InputFingerprints {
                low_r_grinding: false,
                input_type: *t,
                has_uncompressed_pubkey: false,
                has_taproot_annex: false,
                schnorr_sighash_forms: vec![],
            })
            .collect(),
    }
}

#[test]
fn coinbase_has_no_change() {
    let cb = TxData {
        version: 1,
        lock_time: 0,
        inputs: vec![TxInput { prev_txid: [0; 32], prev_vout: 0xFFFF_FFFF, script_sig: vec![1], sequence: 0, witness: vec![] }],
        outputs: vec![out(50, p2wpkh(1)), out(60, p2wpkh(2))],
    };
    let r = analyze(&cb, &[], &fingerprints(true, &[RawOutputType::Unknown]));
    assert!(r.candidates.is_empty());
    assert!(r.no_change_apparent);
    assert!(!r.address_reuse);
    assert!(!r.uih1_optimal_change);
}

#[test]
fn single_payment_output_has_no_change() {
    let t = tx(1, vec![out(10, p2wpkh(1)), out(0, vec![0x6a, 0x01, 0x02])]);
    let prevouts = vec![out(1_000, p2wpkh(1))];
    let r = analyze(&t, &prevouts, &fingerprints(true, &[RawOutputType::P2wpkhV0]));
    assert!(r.candidates.is_empty());
    assert!(r.no_change_apparent);
    assert!(r.address_reuse);
    assert!(!r.uih1_optimal_change);
}

#[test]
fn address_reuse_marks_the_reused_output() {
    let t = tx(1, vec![out(5_000, p2tr(7)), out(3_000, p2wpkh(9))]);
    let prevouts = vec![out(2_000, p2wpkh(9))];
    let r = analyze(&t, &prevouts, &fingerprints(true, &[RawOutputType::P2pkh]));
    assert_eq!(r.candidates.len(), 1);
    assert_eq!(r.candidates[0].vout, 1);
    assert_eq!(r.candidates[0].value_sat, 3_000);
    assert_eq!(r.candidates[0].heuristics, vec![ChangeHeuristic::AddressReuse]);
    assert!(!r.no_change_apparent);
    assert!(!r.uih1_optimal_change);

    // Without the transaction-level flag, reuse is not looked at.
    let r = analyze(&t, &prevouts, &fingerprints(false, &[RawOutputType::P2pkh]));
    assert!(r.candidates.is_empty());
    assert!(r.no_change_apparent);
}

#[test]
fn optimal_change_marks_the_first_smallest_payment() {
    let t = tx(2, vec![out(9_000, p2tr(1)), out(400, p2tr(2)), out(400, p2tr(3)), out(0, vec![0x6a])]);
    let prevouts = vec![out(5_000, p2wpkh(1)), out(7_000, p2wpkh(2))];
    let r = analyze(&t, &prevouts, &fingerprints(false, &[RawOutputType::P2wpkhV0, RawOutputType::P2tr]));
    assert!(r.uih1_optimal_change);
    assert_eq!(r.candidates.len(), 1);
    assert_eq!(r.candidates[0].vout, 1);
    assert_eq!(r.candidates[0].heuristics, vec![ChangeHeuristic::OptimalChange]);
}

#[test]
fn no_optimal_change_when_a_payment_is_not_below_every_input() {
    let t = tx(2, vec![out(9_000, p2tr(1)), out(6_000, p2tr(2))]);
    let prevouts = vec![out(5_000, p2wpkh(1)), out(7_000, p2wpkh(2))];
    let r = analyze(&t, &prevouts, &fingerprints(false, &[RawOutputType::P2wpkhV0, RawOutputType::P2tr]));
    assert!(!r.uih1_optimal_change);
    assert!(r.no_change_apparent);
}

#[test]
fn script_type_match_needs_uniform_inputs_and_a_unique_match() {
    let t = tx(2, vec![out(9_000, p2tr(1)), out(6_000, p2wpkh(2))]);
    let prevouts = vec![out(5_000, p2wpkh(1)), out(5_000, p2wpkh(3))];
    let types = [RawOutputType::P2wpkhV0, RawOutputType::P2wpkhV0];
    let r = analyze(&t, &prevouts, &fingerprints(false, &types));
    assert_eq!(r.candidates.len(), 1);
    assert_eq!(r.candidates[0].vout, 1);
    assert_eq!(r.candidates[0].heuristics, vec![ChangeHeuristic::ScriptTypeMatch]);

    // Two outputs of the input type: no unique match.
    let t2 = tx(2, vec![out(9_000, p2wpkh(1)), out(6_000, p2wpkh(2))]);
    let r = analyze(&t2, &prevouts, &fingerprints(false, &types));
    assert!(r.no_change_apparent);

    // Mixed input types: no match at all.
    let mixed = [RawOutputType::P2wpkhV0, RawOutputType::P2tr];
    let r = analyze(&t, &prevouts, &fingerprints(false, &mixed));
    assert!(r.no_change_apparent);
}

#[test]
fn heuristics_accumulate_in_order_and_candidates_ascend() {
    // Output 2 reuses an input script, is the smallest payment, and is the only
    // P2WPKH output; output 0 reuses another input script.
    let t = tx(2, vec![out(9_000, p2tr(5)), out(8_000, p2tr(6)), out(100, p2wpkh(2))]);
    let prevouts = vec![out(5_000, p2tr(5)), out(7_000, p2wpkh(2))];
    let types = [RawOutputType::P2wpkhV0, RawOutputType::P2wpkhV0];
    let r = analyze(&t, &prevouts, &fingerprints(true, &types));
    assert!(r.uih1_optimal_change);
    assert_eq!(r.candidates.len(), 2);
    assert_eq!(r.candidates[0].vout, 0);
    assert_eq!(r.candidates[0].heuristics, vec![ChangeHeuristic::AddressReuse]);
    assert_eq!(r.candidates[1].vout, 2);
    assert_eq!(
        r.candidates[1].heuristics,
        vec![ChangeHeuristic::AddressReuse, ChangeHeuristic::OptimalChange, ChangeHeuristic::ScriptTypeMatch]
    );
    assert!(!r.no_change_apparent);
}

#[test]
fn push_heuristic_adds_once_to_the_first_matching_entry() {
    let mut scores = vec![(1usize, vec![]), (3usize, vec![ChangeHeuristic::AddressReuse]), (3usize, vec![])];
    push_heuristic(&mut scores, 3, ChangeHeuristic::OptimalChange);
    push_heuristic(&mut scores, 3, ChangeHeuristic::OptimalChange);
    push_heuristic(&mut scores, 3, ChangeHeuristic::AddressReuse);
    push_heuristic(&mut scores, 7, ChangeHeuristic::ScriptTypeMatch);
    assert_eq!(scores[0], (1, vec![]));
    assert_eq!(scores[1], (3, vec![ChangeHeuristic::AddressReuse, ChangeHeuristic::OptimalChange]));
    assert_eq!(scores[2], (3, vec![]));
}

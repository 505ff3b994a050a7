use kernel_playground::normalize::{schema, FeatureValue, NormalizedTx};
use kernel_playground::rows::{ParquetRows, RowWidthError};
use kernel_playground::scan::{
    check_scan_args, prevout_source, prevouts_for_inputs, saturating_sub_i32, scan_start_height,
    walk_step, PrevoutError, PrevoutSource, ScanArgsError, WalkStep,
};
use kernel_playground::tx::TxOutput;

#[test]
fn scan_arguments_are_checked() {
    assert_eq!(check_scan_args(Some(0), 10), Err(ScanArgsError::DepthZero));
    assert_eq!(check_scan_args(Some(0), 0), Err(ScanArgsError::DepthZero));
    assert_eq!(check_scan_args(Some(5), 0), Err(ScanArgsError::BatchSizeZero));
    assert_eq!(check_scan_args(None, 0), Err(ScanArgsError::BatchSizeZero));
    assert_eq!(check_scan_args(None, 1), Ok(()));
    assert_eq!(check_scan_args(Some(1), 1_000_000), Ok(()));
}

#[test]
fn start_height_counts_the_tip() {
    assert_eq!(scan_start_height(800_000, Some(1)), 800_000);
    assert_eq!(scan_start_height(800_000, Some(1000)), 799_001);
    assert_eq!(scan_start_height(800_000, None), 0);
    // Deeper than the chain: below genesis, so the walk ends at genesis.
    assert_eq!(scan_start_height(10, Some(100)), -89);
    // A depth beyond the range of heights still reaches back past genesis.
    assert_eq!(scan_start_height(10, Some(u32::MAX)), i32::MIN);
    assert_eq!(scan_start_height(100, Some(0x8000_0005)), -2_147_483_552);
    assert!(scan_start_height(800_000, Some(3_000_000_000)) <= 0);
    assert_eq!(scan_start_height(-2_147_483_000, Some(2_000)), i32::MIN);
}

#[test]
fn saturating_height_subtraction() {
    assert_eq!(saturating_sub_i32(5, 7), -2);
    assert_eq!(saturating_sub_i32(i32::MIN, 1), i32::MIN);
    assert_eq!(saturating_sub_i32(i32::MAX, -1), i32::MAX);
    assert_eq!(saturating_sub_i32(0, i32::MIN), i32::MAX);
}

#[test]
fn walk_steps_from_tip_to_start() {
    let start = scan_start_height(5, Some(3));
    assert_eq!(start, 3);
    let mut visited = vec![];
    let mut h = 5;
    loop {
        match walk_step(h, start) {
            WalkStep::Stop => break,
            WalkStep::AnalyzeThenStop => {
                visited.push(h);
                break;
            }
            WalkStep::AnalyzeThenPrevious => {
                visited.push(h);
                h -= 1;
            }
        }
    }
    assert_eq!(visited, vec![5, 4, 3]);
    assert_eq!(walk_step(0, 0), WalkStep::AnalyzeThenStop);
    assert_eq!(walk_step(0, -5), WalkStep::AnalyzeThenStop);
    assert_eq!(walk_step(2, 3), WalkStep::Stop);
}

#[test]
fn prevout_sources() {
    assert_eq!(prevout_source(true, 0, false), Ok(PrevoutSource::NoPrevouts));
    assert_eq!(prevout_source(true, 4, true), Ok(PrevoutSource::NoPrevouts));
    assert_eq!(prevout_source(false, 4, false), Err(PrevoutError::MissingSpentOutputs));
    assert_eq!(prevout_source(false, 0, true), Err(PrevoutError::NonCoinbaseAtIndexZero));
    assert_eq!(prevout_source(false, 4, true), Ok(PrevoutSource::SpentOutputs(3)));
}

#[test]
fn prevouts_need_one_coin_per_input() {
    assert_eq!(
        prevouts_for_inputs(vec![(1, vec![])], 2),
        Err(PrevoutError::CountMismatch { coins: 1, inputs: 2 })
    );
    assert_eq!(prevouts_for_inputs(vec![(3, vec![]), (-1, vec![]), (-9, vec![])], 3), Err(PrevoutError::NegativeValue(-1)));
    assert_eq!(
        prevouts_for_inputs(vec![(3, vec![0x51]), (0, vec![])], 2),
        Ok(vec![TxOutput { value: 3, script_pubkey: vec![0x51] }, TxOutput { value: 0, script_pubkey: vec![] }])
    );
    assert_eq!(prevouts_for_inputs(vec![], 0), Ok(vec![]));
}

fn row(i: usize, columns: &[String]) -> NormalizedTx {
    let x = columns
        .iter()
        .enumerate()
        .map(|(j, name)| if name == "version" { FeatureValue::Number(2) } else { FeatureValue::Flag((i + j) % 3 == 0) })
        .collect();
    NormalizedTx { txid: format!("tx{i}"), block_height: i as i32, tx_index: i, is_coinbase: i == 0, x }
}

#[test]
fn staged_rows_split_version_and_flags() {
    let columns = schema().columns;
    let mut rows = ParquetRows::new(&columns);
    assert_eq!(rows.bool_names.len(), columns.len() - 1);
    assert!(!rows.bool_names.iter().any(|n| n == "version"));
    assert_eq!(rows.bool_names[0], "fp_address_reuse");
    for i in 0..5 {
        rows.push(&row(i, &columns), &columns).unwrap();
    }
    assert_eq!(rows.len(), 5);
    assert_eq!(rows.txid[4], "tx4");
    assert_eq!(rows.tx_index, vec![0, 1, 2, 3, 4]);
    assert_eq!(rows.is_coinbase, vec![true, false, false, false, false]);
    assert_eq!(rows.version, vec![2; 5]);
    for (b, col) in rows.bool_cols.iter().enumerate() {
        assert_eq!(col.len(), 5);
        // Flag column b is feature column b + 1 (after version).
        for (i, v) in col.iter().enumerate() {
            assert_eq!(*v, (i + b + 1) % 3 == 0);
        }
    }
}

#[test]
fn staged_rows_refuse_a_width_mismatch() {
    let columns = schema().columns;
    let mut rows = ParquetRows::new(&columns);
    let mut bad = row(1, &columns);
    bad.x.pop();
    assert_eq!(
        rows.push(&bad, &columns),
        Err(RowWidthError { width: columns.len() - 1, schema_width: columns.len() })
    );
    assert_eq!(rows.len(), 0);
    assert!(rows.bool_cols.iter().all(|c| c.is_empty()));
}

#[test]
fn numbers_and_flags_convert_across_columns() {
    let columns = vec!["version".to_string(), "a".to_string(), "b".to_string()];
    let mut rows = ParquetRows::new(&columns);
    let n = NormalizedTx {
        txid: "t".to_string(),
        block_height: 1,
        tx_index: 0,
        is_coinbase: false,
        x: vec![FeatureValue::Flag(true), FeatureValue::Number(0), FeatureValue::Number(7)],
    };
    rows.push(&n, &columns).unwrap();
    assert_eq!(rows.version, vec![1]);
    assert_eq!(rows.bool_cols, vec![vec![false], vec![true]]);
}

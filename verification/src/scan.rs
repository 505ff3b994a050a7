//! Decisions of the block scan: argument checks, which heights the walk from the
//! tip covers, and where each transaction's prevouts come from.
//!
//! The walk itself (reading blocks and spent outputs from the node's data
//! directory) is I/O and happens outside the library; at each step it asks
//! [`walk_step`] what to do, and per transaction [`prevout_source`] and
//! [`prevouts_for_inputs`].

use vstd::prelude::*;

use crate::tx::{prevouts_from_kernel_coins, KernelCoin, TxOutput};

verus! {

/// Why the scan arguments are refused.
#[derive(Debug, Clone, Copy, PartialEq, Eq, Structural)]
pub enum ScanArgsError {
    /// `--depth 0` asks for no block at all.
    DepthZero,
    /// Row groups must hold at least one row.
    BatchSizeZero,
}

/// Check the scan arguments: a depth, when given, must be at least 1, and the
/// batch size must be at least 1 (the depth is checked first).
pub fn check_scan_args(depth: Option<u32>, batch_size: usize) -> (r: Result<(), ScanArgsError>)
    ensures
        depth == Some(0u32) ==> r == Err::<(), ScanArgsError>(ScanArgsError::DepthZero),
        depth != Some(0u32) && batch_size == 0 ==> r == Err::<(), ScanArgsError>(
            ScanArgsError::BatchSizeZero,
        ),
        depth != Some(0u32) && batch_size != 0 ==> r is Ok,
{
    match depth {
        Some(0) => {
            return Err(ScanArgsError::DepthZero);
        },
        _ => {},
    }
    if batch_size == 0 {
        return Err(ScanArgsError::BatchSizeZero);
    }
    Ok(())
}

/// `a - b`, clamped to the range of `i32`.
pub open spec fn spec_saturating_sub_i32(a: int, b: int) -> i32 {
    if a - b > i32::MAX {
        i32::MAX
    } else if a - b < i32::MIN {
        i32::MIN
    } else {
        (a - b) as i32
    }
}

/// `a - b`, clamped to the range of `i32`.
pub fn saturating_sub_i32(a: i32, b: i32) -> (r: i32)
    ensures
        r == spec_saturating_sub_i32(a as int, b as int),
{
    match a.checked_sub(b) {
        Some(d) => d,
        None => if b > 0 {
            i32::MIN
        } else {
            i32::MAX
        },
    }
}

/// The lowest height the walk visits: `depth` blocks back from the tip, tip
/// included (`tip_height - (depth - 1)`, clamped to the range of `i32`, so that
/// any depth beyond the chain reaches genesis), or genesis when no depth is given.
pub open spec fn spec_start_height(tip_height: i32, depth: Option<u32>) -> i32 {
    match depth {
        Some(d) => {
            let back: int = if d == 0 {
                0
            } else {
                d - 1
            };
            spec_saturating_sub_i32(tip_height as int, back)
        },
        None => 0,
    }
}

pub fn scan_start_height(tip_height: i32, depth: Option<u32>) -> (r: i32)
    ensures
        r == spec_start_height(tip_height, depth),
{
    match depth {
        Some(d) => {
            let back: u32 = d.saturating_sub(1);
            let start: i64 = tip_height as i64 - back as i64;
            if start < i32::MIN as i64 {
                i32::MIN
            } else if start > i32::MAX as i64 {
                i32::MAX
            } else {
                start as i32
            }
        },
        None => 0,
    }
}

/// What the walk does at a block of a given height.
#[derive(Debug, Clone, Copy, PartialEq, Eq, Structural)]
pub enum WalkStep {
    /// Below the start height: the walk is over.
    Stop,
    /// Analyze this block; it is genesis, so the walk ends after it.
    AnalyzeThenStop,
    /// Analyze this block, then go on with its predecessor (if it has one).
    AnalyzeThenPrevious,
}

/// The walk goes from the tip towards genesis: it analyzes every block at or
/// above `start_height`, and stops below it or after genesis.
pub fn walk_step(height: i32, start_height: i32) -> (r: WalkStep)
    ensures
        height < start_height ==> r == WalkStep::Stop,
        height >= start_height && height == 0 ==> r == WalkStep::AnalyzeThenStop,
        height >= start_height && height != 0 ==> r == WalkStep::AnalyzeThenPrevious,
{
    if height < start_height {
        WalkStep::Stop
    } else if height == 0 {
        WalkStep::AnalyzeThenStop
    } else {
        WalkStep::AnalyzeThenPrevious
    }
}

/// A walk of depth `depth` (at least 1) from a tip at `tip_height >= 0`
/// analyzes exactly the heights above `tip_height - depth`: `depth` blocks back
/// from the tip, tip included, or the whole chain when `depth` exceeds the tip
/// height.
pub proof fn lemma_walk_window(tip_height: i32, depth: u32, height: i32)
    requires
        tip_height >= 0,
        depth >= 1,
        0 <= height <= tip_height,
    ensures
        spec_start_height(tip_height, Some(depth)) <= tip_height,
        (height >= spec_start_height(tip_height, Some(depth))) <==> (height > tip_height - depth),
{
}

/// Where a transaction's prevouts come from.
#[derive(Debug, Clone, Copy, PartialEq, Eq, Structural)]
pub enum PrevoutSource {
    /// A coinbase spends nothing.
    NoPrevouts,
    /// The block's spent-output record at this position (the block's
    /// transactions after the coinbase, in order).
    SpentOutputs(usize),
}

/// Why a transaction's prevouts cannot be had.
#[derive(Debug, Clone, Copy, PartialEq, Eq, Structural)]
pub enum PrevoutError {
    /// A non-coinbase transaction in a block without spent-output data (genesis).
    MissingSpentOutputs,
    /// A non-coinbase transaction at position 0 of its block.
    NonCoinbaseAtIndexZero,
    /// The spent-output record has `coins` entries for `inputs` inputs.
    CountMismatch { coins: usize, inputs: usize },
    /// A spent coin carries a negative amount.
    NegativeValue(i64),
}

/// Decide where the prevouts of the transaction at `tx_index` come from: none
/// for a coinbase; otherwise the spent-output record at `tx_index - 1`, which
/// needs the block's spent-output data and a position after the coinbase.
pub fn prevout_source(is_coinbase: bool, tx_index: usize, have_spent_outputs: bool) -> (r: Result<
    PrevoutSource,
    PrevoutError,
>)
    ensures
        is_coinbase ==> r == Ok::<PrevoutSource, PrevoutError>(PrevoutSource::NoPrevouts),
        !is_coinbase && !have_spent_outputs ==> r == Err::<PrevoutSource, PrevoutError>(
            PrevoutError::MissingSpentOutputs,
        ),
        !is_coinbase && have_spent_outputs && tx_index == 0 ==> r == Err::<
            PrevoutSource,
            PrevoutError,
        >(PrevoutError::NonCoinbaseAtIndexZero),
        !is_coinbase && have_spent_outputs && tx_index > 0 ==> r == Ok::<
            PrevoutSource,
            PrevoutError,
        >(PrevoutSource::SpentOutputs((tx_index - 1) as usize)),
{
    if is_coinbase {
        return Ok(PrevoutSource::NoPrevouts);
    }
    if !have_spent_outputs {
        return Err(PrevoutError::MissingSpentOutputs);
    }
    match tx_index.checked_sub(1) {
        Some(i) => Ok(PrevoutSource::SpentOutputs(i)),
        None => Err(PrevoutError::NonCoinbaseAtIndexZero),
    }
}

/// `v` is the amount of the first coin with a negative amount.
pub open spec fn spec_first_negative(coins: Seq<KernelCoin>, v: i64) -> bool {
    exists|k: int|
        0 <= k < coins.len() && (#[trigger] coins[k]).0 == v && v < 0 && forall|j: int|
            0 <= j < k ==> coins[j].0 >= 0
}

/// The prevouts of a transaction with `n_inputs` inputs from its spent-output
/// record: refused when the counts differ or (at the first such coin) a coin has
/// a negative amount; otherwise each coin becomes the prevout of the input at its
/// position.
pub fn prevouts_for_inputs(coins: Vec<KernelCoin>, n_inputs: usize) -> (r: Result<
    Vec<TxOutput>,
    PrevoutError,
>)
    ensures
        coins@.len() != n_inputs ==> r == Err::<Vec<TxOutput>, PrevoutError>(
            PrevoutError::CountMismatch { coins: coins@.len() as usize, inputs: n_inputs },
        ),
        coins@.len() == n_inputs ==> (r is Ok <==> forall|k: int|
            0 <= k < coins@.len() ==> (#[trigger] coins@[k]).0 >= 0),
        coins@.len() == n_inputs ==> (r matches Err(e) ==> e matches PrevoutError::NegativeValue(v)
            && spec_first_negative(coins@, v)),
        r matches Ok(p) ==> p@.len() == n_inputs && forall|k: int|
            0 <= k < n_inputs ==> (#[trigger] p@[k]).value == coins@[k].0 && p@[k].script_pubkey@
                == coins@[k].1@,
{
    let got = coins.len();
    if got != n_inputs {
        return Err(PrevoutError::CountMismatch { coins: got, inputs: n_inputs });
    }
    match prevouts_from_kernel_coins(coins) {
        Ok(p) => Ok(p),
        Err(e) => Err(PrevoutError::NegativeValue(e.value_sat)),
    }
}

} // verus!

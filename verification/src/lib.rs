//! Per-transaction wallet fingerprints and heuristics for Bitcoin transactions,
//! and their encoding as a fixed feature vector.

pub mod types;
pub mod tx;
pub mod rawtx;
pub mod fingerprints;
pub mod change;
pub mod heuristics;
pub mod block;
pub mod normalize;
pub mod scan;
pub mod rows;

//! Column-major staging of normalized rows for one row group of the output file.
//!
//! The `version` column keeps its number; every other feature column is a flag.
//! Writing the staged columns out is left to the caller.

use vstd::prelude::*;

use crate::normalize::{FeatureValue, NormalizedTx};

verus! {

/// The number a feature value stands for (a flag is 0 or 1).
pub open spec fn spec_number_of(v: FeatureValue) -> i32 {
    match v {
        FeatureValue::Number(n) => n,
        FeatureValue::Flag(b) => if b {
            1
        } else {
            0
        },
    }
}

/// The flag a feature value stands for (a number is set when non-zero).
pub open spec fn spec_flag_of(v: FeatureValue) -> bool {
    match v {
        FeatureValue::Number(n) => n != 0,
        FeatureValue::Flag(b) => b,
    }
}

pub open spec fn spec_is_version(name: Seq<char>) -> bool {
    name == "version"@
}

/// The names of the flag columns: every column but `version`, in order.
pub open spec fn spec_flag_names(columns: Seq<Seq<char>>) -> Seq<Seq<char>>
    decreases columns.len(),
{
    if columns.len() == 0 {
        seq![]
    } else {
        spec_flag_names(columns.drop_last()) + if spec_is_version(columns.last()) {
            seq![]
        } else {
            seq![columns.last()]
        }
    }
}

/// The values of a row that go to the `version` column, in column order.
pub open spec fn spec_version_values(columns: Seq<Seq<char>>, x: Seq<FeatureValue>) -> Seq<i32>
    decreases columns.len(),
{
    if columns.len() == 0 {
        seq![]
    } else {
        let n = (columns.len() - 1) as int;
        spec_version_values(columns.drop_last(), x) + if spec_is_version(columns[n]) {
            seq![spec_number_of(x[n])]
        } else {
            seq![]
        }
    }
}

/// The values of a row that go to the flag columns, in column order.
pub open spec fn spec_flag_values(columns: Seq<Seq<char>>, x: Seq<FeatureValue>) -> Seq<bool>
    decreases columns.len(),
{
    if columns.len() == 0 {
        seq![]
    } else {
        let n = (columns.len() - 1) as int;
        spec_flag_values(columns.drop_last(), x) + if spec_is_version(columns[n]) {
            seq![]
        } else {
            seq![spec_flag_of(x[n])]
        }
    }
}

proof fn lemma_flag_values_len(columns: Seq<Seq<char>>, x: Seq<FeatureValue>)
    ensures
        spec_flag_values(columns, x).len() == spec_flag_names(columns).len(),
    decreases columns.len(),
{
    if columns.len() > 0 {
        lemma_flag_values_len(columns.drop_last(), x);
    }
}

/// The flag values of a prefix of the columns are a prefix of the flag values.
proof fn lemma_flag_values_prefix(columns: Seq<Seq<char>>, x: Seq<FeatureValue>, i: int)
    requires
        0 <= i <= columns.len(),
    ensures
        spec_flag_values(columns.take(i), x).len() <= spec_flag_values(columns, x).len(),
        forall|b: int|
            0 <= b < spec_flag_values(columns.take(i), x).len() ==> spec_flag_values(columns.take(i), x)[b]
                == spec_flag_values(columns, x)[b],
        i < columns.len() && !spec_is_version(columns[i]) ==> spec_flag_values(columns, x)[spec_flag_values(
            columns.take(i),
            x,
        ).len() as int] == spec_flag_of(x[i]),
    decreases columns.len() - i,
{
    if i < columns.len() {
        lemma_flag_values_prefix(columns, x, i + 1);
        assert(columns.take(i + 1).drop_last() =~= columns.take(i));
    } else {
        assert(columns.take(i) =~= columns);
    }
}

/// The views of a list of strings.
pub open spec fn spec_names(v: Seq<String>) -> Seq<Seq<char>> {
    v.map_values(|s: String| s@)
}

/// A row's width differs from the schema's.
#[derive(Debug, Clone, Copy, PartialEq, Eq, Structural)]
pub struct RowWidthError {
    pub width: usize,
    pub schema_width: usize,
}

/// Staged rows, one vector per output column.
#[derive(Debug)]
pub struct ParquetRows {
    pub txid: Vec<String>,
    pub block_height: Vec<i32>,
    pub tx_index: Vec<u32>,
    pub is_coinbase: Vec<bool>,
    pub version: Vec<i32>,
    pub bool_names: Vec<String>,
    pub bool_cols: Vec<Vec<bool>>,
}

impl ParquetRows {
    /// Empty staging for the given feature columns: one flag column per name
    /// other than `version`.
    pub fn new(columns: &Vec<String>) -> (r: ParquetRows)
        ensures
            spec_names(r.bool_names@) == spec_flag_names(spec_names(columns@)),
            r.bool_cols@.len() == r.bool_names@.len(),
            forall|b: int| 0 <= b < r.bool_cols@.len() ==> (#[trigger] r.bool_cols@[b])@.len() == 0,
            r.txid@.len() == 0,
            r.block_height@.len() == 0,
            r.tx_index@.len() == 0,
            r.is_coinbase@.len() == 0,
            r.version@.len() == 0,
    {
        let version_name = String::from_str("version");
        let mut bool_names: Vec<String> = Vec::new();
        let mut bool_cols: Vec<Vec<bool>> = Vec::new();
        let mut i: usize = 0;
        while i < columns.len()
            invariant
                i <= columns@.len(),
                version_name@ == "version"@,
                spec_names(bool_names@) == spec_flag_names(spec_names(columns@.take(i as int))),
                bool_cols@.len() == bool_names@.len(),
                forall|b: int| 0 <= b < bool_cols@.len() ==> (#[trigger] bool_cols@[b])@.len() == 0,
            decreases columns@.len() - i,
        {
            proof {
                assert(spec_names(columns@.take(i + 1)).drop_last() =~= spec_names(
                    columns@.take(i as int),
                ));
                assert(spec_names(columns@.take(i + 1)).last() == columns@[i as int]@);
            }
            let ghost prev = bool_names@;
            if !(columns[i] == version_name) {
                bool_names.push(columns[i].clone());
                bool_cols.push(Vec::new());
                assert(spec_names(bool_names@) =~= spec_names(prev).push(columns@[i as int]@));
            }
            i = i + 1;
        }
        assert(columns@.take(columns@.len() as int) =~= columns@);
        ParquetRows {
            txid: Vec::new(),
            block_height: Vec::new(),
            tx_index: Vec::new(),
            is_coinbase: Vec::new(),
            version: Vec::new(),
            bool_names,
            bool_cols,
        }
    }

    /// Number of staged rows.
    pub fn len(&self) -> (n: usize)
        ensures
            n == self.txid@.len(),
    {
        self.txid.len()
    }

    /// Stage one row. Refused, with nothing staged, when the row's width differs
    /// from the schema's. Otherwise the metadata are appended (the position as a
    /// `u32`), the `version` value to the version column, and each other value,
    /// as a flag, to the flag column of its rank among the non-`version` columns.
    pub fn push(&mut self, norm: &NormalizedTx, columns: &Vec<String>) -> (r: Result<(), RowWidthError>)
        requires
            spec_flag_names(spec_names(columns@)).len() <= old(self).bool_cols@.len(),
        ensures
            norm.x@.len() != columns@.len() ==> r == Err::<(), RowWidthError>(
                RowWidthError { width: norm.x@.len() as usize, schema_width: columns@.len() as usize },
            ) && *final(self) == *old(self),
            norm.x@.len() == columns@.len() ==> r is Ok && {
                let cols = spec_names(columns@);
                let flags = spec_flag_values(cols, norm.x@);
                &&& final(self).txid@ == old(self).txid@.push(norm.txid)
                &&& final(self).block_height@ == old(self).block_height@.push(norm.block_height)
                &&& final(self).tx_index@ == old(self).tx_index@.push(norm.tx_index as u32)
                &&& final(self).is_coinbase@ == old(self).is_coinbase@.push(norm.is_coinbase)
                &&& final(self).version@ == old(self).version@ + spec_version_values(cols, norm.x@)
                &&& final(self).bool_names == old(self).bool_names
                &&& final(self).bool_cols@.len() == old(self).bool_cols@.len()
                &&& forall|b: int|
                    0 <= b < flags.len() ==> (#[trigger] final(self).bool_cols@[b])@
                        == old(self).bool_cols@[b]@.push(flags[b])
                &&& forall|b: int|
                    flags.len() <= b < old(self).bool_cols@.len() ==> (
                    #[trigger] final(self).bool_cols@[b]) == old(self).bool_cols@[b]
            },
    {
        if norm.x.len() != columns.len() {
            return Err(RowWidthError { width: norm.x.len(), schema_width: columns.len() });
        }
        let ghost cols = spec_names(columns@);
        proof {
            lemma_flag_values_len(cols, norm.x@);
        }
        self.txid.push(norm.txid.clone());
        self.block_height.push(norm.block_height);
        self.tx_index.push(norm.tx_index as u32);
        self.is_coinbase.push(norm.is_coinbase);
        let ghost start = *self;
        let version_name = String::from_str("version");
        let mut bool_i: usize = 0;
        let mut i: usize = 0;
        while i < columns.len()
            invariant
                i <= columns@.len(),
                norm.x@.len() == columns@.len(),
                cols == spec_names(columns@),
                version_name@ == "version"@,
                bool_i == spec_flag_values(cols.take(i as int), norm.x@).len(),
                spec_flag_values(cols, norm.x@).len() <= start.bool_cols@.len(),
                self.txid == start.txid,
                self.block_height == start.block_height,
                self.tx_index == start.tx_index,
                self.is_coinbase == start.is_coinbase,
                self.bool_names == start.bool_names,
                self.version@ == start.version@ + spec_version_values(cols.take(i as int), norm.x@),
                self.bool_cols@.len() == start.bool_cols@.len(),
                forall|b: int|
                    0 <= b < bool_i ==> (#[trigger] self.bool_cols@[b])@ == start.bool_cols@[b]@.push(
                        spec_flag_values(cols, norm.x@)[b],
                    ),
                forall|b: int|
                    bool_i <= b < self.bool_cols@.len() ==> (#[trigger] self.bool_cols@[b])
                        == start.bool_cols@[b],
            decreases columns@.len() - i,
        {
            proof {
                assert(cols.take(i + 1).drop_last() =~= cols.take(i as int));
                assert(cols.take(i + 1)[i as int] == cols[i as int]);
                assert(cols[i as int] == columns@[i as int]@);
                lemma_flag_values_prefix(cols, norm.x@, i as int);
                lemma_flag_values_prefix(cols, norm.x@, i + 1);
            }
            let value = norm.x[i];
            if columns[i] == version_name {
                let n: i32 = match value {
                    FeatureValue::Number(n) => n,
                    FeatureValue::Flag(b) => if b {
                        1
                    } else {
                        0
                    },
                };
                self.version.push(n);
            } else {
                let f: bool = match value {
                    FeatureValue::Number(n) => n != 0,
                    FeatureValue::Flag(b) => b,
                };
                assert(bool_i < self.bool_cols@.len());
                assert(self.bool_cols@.len() == self.bool_cols.len());
                self.bool_cols[bool_i].push(f);
                bool_i = bool_i + 1;
            }
            i = i + 1;
        }
        proof {
            assert(cols.take(columns@.len() as int) =~= cols);
        }
        Ok(())
    }
}

} // verus!

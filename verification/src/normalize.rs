//! Encode a [`TxAnalysis`] record as a fixed feature vector.
//!
//! Encoding chosen for fingerprint distribution and co-occurrence work:
//! - bools become flags
//! - single categoricals are one-hot over their vocabulary
//! - set-valued categoricals are multi-hot over the same vocabulary
//! - the version is kept as a raw number
//!
//! Identifiers (txid, block hash) stay as metadata beside the vector. Aggregates
//! that are functions of another block of columns (such as "any RBF" beside the
//! sequence-shape multi-hot) are omitted.

use vstd::prelude::*;

use crate::block::TxAnalysis;
use crate::change::{ChangeAnalysis, ChangeCandidate};
use crate::fingerprints::{
    FingerprintFeatures, InputFingerprints, TransactionFingerprints,
};
use crate::heuristics::HeuristicFeatures;
use crate::rawtx::{InputCharacteristics, OutputCharacteristics, RawTxFeatures};
use crate::types::{
    lemma_unique_by, spec_unique_by_code, unique_by, Categorical, ChangeHeuristic, CpfpRole,
    InputSorting, LocktimeShape, OutputStructure, RawInputType, RawOutputType, SchnorrSighashForm,
    SequenceShape, SighashType,
};

verus! {

/// One entry of a feature vector: the raw version number, or a 0/1 flag.
#[derive(Debug, Clone, Copy, PartialEq, Eq, Structural)]
pub enum FeatureValue {
    Number(i32),
    Flag(bool),
}

/// Column names of the feature vector, in order.
#[derive(Debug)]
pub struct FeatureSchema {
    pub columns: Vec<String>,
}

/// One encoded transaction: identifying metadata and the feature vector, aligned
/// with [`schema`].
#[derive(Debug)]
pub struct NormalizedTx {
    pub txid: String,
    pub block_height: i32,
    pub tx_index: usize,
    pub is_coinbase: bool,
    pub x: Vec<FeatureValue>,
}

pub open spec fn spec_flag(b: bool) -> Seq<FeatureValue> {
    seq![FeatureValue::Flag(b)]
}

/// Column names `prefix__label` for each value of a vocabulary.
pub open spec fn spec_hot_columns<T: Categorical>(prefix: Seq<char>) -> Seq<Seq<char>> {
    T::spec_all().map_values(|v: T| prefix + "__"@ + v.spec_label())
}

/// One-hot encoding of `value` over its vocabulary.
pub open spec fn spec_one_hot<T: Categorical>(value: T) -> Seq<FeatureValue> {
    T::spec_all().map_values(|v: T| FeatureValue::Flag(v == value))
}

/// Multi-hot encoding of the values in `items` over their vocabulary.
pub open spec fn spec_multi_hot<T: Categorical>(items: Seq<T>) -> Seq<FeatureValue> {
    T::spec_all().map_values(|v: T| FeatureValue::Flag(items.contains(v)))
}

pub open spec fn spec_optional_columns(prefix: Seq<char>) -> Seq<Seq<char>> {
    seq![prefix + "__none"@, prefix + "__false"@, prefix + "__true"@]
}

/// One-hot encoding of an optional bool over none / false / true.
pub open spec fn spec_optional_bool(value: Option<bool>) -> Seq<FeatureValue> {
    seq![
        FeatureValue::Flag(value is None),
        FeatureValue::Flag(value == Some(false)),
        FeatureValue::Flag(value == Some(true)),
    ]
}

/// The Schnorr sighash forms of all inputs, input by input.
pub open spec fn spec_all_schnorr_forms(inputs: Seq<InputFingerprints>) -> Seq<SchnorrSighashForm>
    decreases inputs.len(),
{
    if inputs.len() == 0 {
        seq![]
    } else {
        spec_all_schnorr_forms(inputs.drop_last()) + inputs.last().schnorr_sighash_forms@
    }
}

/// The heuristics of all change candidates, candidate by candidate.
pub open spec fn spec_all_change_heuristics(candidates: Seq<ChangeCandidate>) -> Seq<ChangeHeuristic>
    decreases candidates.len(),
{
    if candidates.len() == 0 {
        seq![]
    } else {
        spec_all_change_heuristics(candidates.drop_last()) + candidates.last().heuristics@
    }
}

/// A single column name.
pub open spec fn spec_col(name: &str) -> Seq<Seq<char>> {
    seq![name@]
}

pub open spec fn spec_fingerprint_columns() -> Seq<Seq<char>> {
    spec_col("version") + spec_col("fp_address_reuse") + spec_col("fp_mixed_input_types")
        + spec_col("fp_nlocktime_optin_without_use") + spec_col("fp_bip68_with_absolute_locktime")
        + spec_col("fp_outputs_bip69_sorted") + spec_optional_columns("fp_round_fee"@)
        + spec_hot_columns::<InputSorting>("fp_input_order"@) + spec_hot_columns::<OutputStructure>(
        "fp_output_structure"@,
    ) + spec_col("fp_any_low_r_grinding") + spec_col("fp_any_taproot_annex") + spec_hot_columns::<
        SchnorrSighashForm,
    >("fp_schnorr_sighash_form"@)
}

pub open spec fn spec_fingerprint_row(a: &TxAnalysis) -> Seq<FeatureValue> {
    let fp = a.fingerprints.transaction;
    let inputs = a.fingerprints.inputs@;
    seq![FeatureValue::Number(a.rawtx.version)] + spec_flag(fp.address_reuse) + spec_flag(
        fp.mixed_input_types,
    ) + spec_flag(fp.nlocktime_optin_without_use) + spec_flag(fp.bip68_with_absolute_locktime)
        + spec_flag(fp.outputs_bip69_sorted) + spec_optional_bool(fp.round_fee) + spec_multi_hot(
        fp.input_order@,
    ) + spec_one_hot(fp.output_structure) + spec_flag(
        exists|k: int| 0 <= k < inputs.len() && (#[trigger] inputs[k]).low_r_grinding,
    ) + spec_flag(exists|k: int| 0 <= k < inputs.len() && (#[trigger] inputs[k]).has_taproot_annex)
        + spec_multi_hot(spec_all_schnorr_forms(inputs))
}

pub open spec fn spec_heuristic_columns() -> Seq<Seq<char>> {
    spec_col("h_equal_amount_outputs") + spec_col("h_likely_coinjoin") + spec_col(
        "h_likely_consolidation",
    ) + spec_hot_columns::<CpfpRole>("h_cpfp"@) + spec_hot_columns::<SighashType>("h_sighash"@)
        + spec_hot_columns::<SequenceShape>("h_sequence_shape"@) + spec_hot_columns::<LocktimeShape>(
        "h_locktime_shape"@,
    ) + spec_col("h_has_uncompressed_pubkey") + spec_col("h_has_multisig") + spec_col("h_uih1")
        + spec_col("h_uih2")
}

pub open spec fn spec_heuristic_row(h: &HeuristicFeatures) -> Seq<FeatureValue> {
    spec_flag(h.equal_amount_outputs) + spec_flag(h.likely_coinjoin) + spec_flag(
        h.likely_consolidation,
    ) + spec_one_hot(h.cpfp) + spec_multi_hot(h.sighashes@) + spec_multi_hot(h.sequence_shapes@)
        + spec_one_hot(h.locktime_shape) + spec_flag(h.has_uncompressed_pubkey) + spec_flag(
        h.has_multisig,
    ) + spec_flag(h.uih1) + spec_flag(h.uih2)
}

pub open spec fn spec_type_columns() -> Seq<Seq<char>> {
    spec_hot_columns::<RawOutputType>("prevout_type"@) + spec_hot_columns::<RawInputType>(
        "input_type"@,
    ) + spec_hot_columns::<RawOutputType>("output_type"@) + spec_col("reveals_inscription")
}

pub open spec fn spec_type_row(a: &TxAnalysis) -> Seq<FeatureValue> {
    let raw = a.rawtx.inputs@;
    spec_multi_hot(a.fingerprints.inputs@.map_values(|i: InputFingerprints| i.input_type))
        + spec_multi_hot(raw.map_values(|i: InputCharacteristics| i.input_type)) + spec_multi_hot(
        a.rawtx.outputs@.map_values(|o: OutputCharacteristics| o.output_type),
    ) + spec_flag(exists|k: int| 0 <= k < raw.len() && (#[trigger] raw[k]).reveals_inscription)
}

pub open spec fn spec_change_columns() -> Seq<Seq<char>> {
    spec_col("change_no_change_apparent") + spec_hot_columns::<ChangeHeuristic>("change_heuristic"@)
}

pub open spec fn spec_change_row(c: &ChangeAnalysis) -> Seq<FeatureValue> {
    spec_flag(c.no_change_apparent) + spec_multi_hot(spec_all_change_heuristics(c.candidates@))
}

/// The column names of the feature vector.
pub open spec fn spec_columns() -> Seq<Seq<char>> {
    spec_fingerprint_columns() + spec_heuristic_columns() + spec_type_columns()
        + spec_change_columns()
}

/// The feature vector of an analysis record, aligned with [`spec_columns`].
pub open spec fn spec_row(a: &TxAnalysis) -> Seq<FeatureValue> {
    spec_fingerprint_row(a) + spec_heuristic_row(&a.heuristics) + spec_type_row(a)
        + spec_change_row(&a.change)
}

/// Accumulates column names (when recording the schema) or values (when encoding
/// a row).
struct FeatureBuilder {
    columns: Vec<String>,
    values: Vec<FeatureValue>,
    recording_schema: bool,
}

impl FeatureBuilder {
    spec fn spec_columns(&self) -> Seq<Seq<char>> {
        self.columns@.map_values(|s: String| s@)
    }

    /// `new` is `old` with `cols` appended (recording) or `vals` appended (encoding).
    spec fn absorbed(
        old: &FeatureBuilder,
        new: &FeatureBuilder,
        cols: Seq<Seq<char>>,
        vals: Seq<FeatureValue>,
    ) -> bool {
        &&& new.recording_schema == old.recording_schema
        &&& if old.recording_schema {
            new.spec_columns() == old.spec_columns() + cols && new.values@ == old.values@
        } else {
            new.values@ == old.values@ + vals && new.spec_columns() == old.spec_columns()
        }
    }

    proof fn lemma_absorbed_trans(
        a: &FeatureBuilder,
        b: &FeatureBuilder,
        c: &FeatureBuilder,
        cols1: Seq<Seq<char>>,
        vals1: Seq<FeatureValue>,
        cols2: Seq<Seq<char>>,
        vals2: Seq<FeatureValue>,
    )
        requires
            Self::absorbed(a, b, cols1, vals1),
            Self::absorbed(b, c, cols2, vals2),
        ensures
            Self::absorbed(a, c, cols1 + cols2, vals1 + vals2),
    {
        if a.recording_schema {
            assert(c.spec_columns() =~= a.spec_columns() + (cols1 + cols2));
        } else {
            assert(c.values@ =~= a.values@ + (vals1 + vals2));
        }
    }

    /// Whatever `old` had absorbed since some earlier state, `new` has absorbed
    /// that followed by `cols` / `vals`.
    spec fn chained(
        old: &FeatureBuilder,
        new: &FeatureBuilder,
        cols: Seq<Seq<char>>,
        vals: Seq<FeatureValue>,
    ) -> bool {
        forall|s: FeatureBuilder, c: Seq<Seq<char>>, v: Seq<FeatureValue>|
            #[trigger] Self::absorbed(&s, old, c, v) ==> Self::absorbed(&s, new, c + cols, v + vals)
    }

    proof fn lemma_chained(
        old: &FeatureBuilder,
        new: &FeatureBuilder,
        cols: Seq<Seq<char>>,
        vals: Seq<FeatureValue>,
    )
        requires
            Self::absorbed(old, new, cols, vals),
        ensures
            Self::chained(old, new, cols, vals),
    {
        assert forall|s: FeatureBuilder, c: Seq<Seq<char>>, v: Seq<FeatureValue>|
            #[trigger] Self::absorbed(&s, old, c, v) implies Self::absorbed(
            &s,
            new,
            c + cols,
            v + vals,
        ) by {
            Self::lemma_absorbed_trans(&s, old, new, c, v, cols, vals);
        }
    }

    /// A state has absorbed nothing since itself.
    proof fn lemma_absorbed_nothing(a: &FeatureBuilder)
        ensures
            Self::absorbed(a, a, Seq::empty(), Seq::empty()),
    {
        assert(a.spec_columns() + Seq::<Seq<char>>::empty() =~= a.spec_columns());
        assert(a.values@ + Seq::<FeatureValue>::empty() =~= a.values@);
    }

    fn new_schema() -> (b: FeatureBuilder)
        ensures
            b.recording_schema,
            b.spec_columns() == Seq::<Seq<char>>::empty(),
            b.values@ == Seq::<FeatureValue>::empty(),
    {
        let b = FeatureBuilder { columns: Vec::new(), values: Vec::new(), recording_schema: true };
        assert(b.spec_columns() =~= Seq::<Seq<char>>::empty());
        b
    }

    fn new_row() -> (b: FeatureBuilder)
        ensures
            !b.recording_schema,
            b.spec_columns() == Seq::<Seq<char>>::empty(),
            b.values@ == Seq::<FeatureValue>::empty(),
    {
        let b = FeatureBuilder { columns: Vec::new(), values: Vec::new(), recording_schema: false };
        assert(b.spec_columns() =~= Seq::<Seq<char>>::empty());
        b
    }

    fn push_column(&mut self, name: String, v: FeatureValue)
        ensures
            Self::absorbed(old(self), final(self), seq![name@], seq![v]),
    {
        if self.recording_schema {
            self.columns.push(name);
            assert(self.spec_columns() =~= old(self).spec_columns() + seq![name@]);
        } else {
            self.values.push(v);
            assert(self.values@ =~= old(self).values@ + seq![v]);
        }
    }

    fn push_bool(&mut self, name: &str, v: bool)
        ensures
            Self::absorbed(old(self), final(self), seq![name@], spec_flag(v)),
            Self::chained(old(self), final(self), seq![name@], spec_flag(v)),
    {
        self.push_column(String::from_str(name), FeatureValue::Flag(v));
        proof {
            Self::lemma_chained(old(self), self, seq![name@], spec_flag(v));
        }
    }

    fn push_number(&mut self, name: &str, v: i32)
        ensures
            Self::chained(old(self), final(self), seq![name@], seq![FeatureValue::Number(v)]),
    {
        self.push_column(String::from_str(name), FeatureValue::Number(v));
        proof {
            Self::lemma_chained(old(self), self, seq![name@], seq![FeatureValue::Number(v)]);
        }
    }

    fn push_one_hot<T: Categorical>(&mut self, prefix: &str, value: T)
        ensures
            Self::chained(old(self), final(self), spec_hot_columns::<T>(prefix@), spec_one_hot(value)),
    {
        let all = T::all();
        let ghost start = *self;
        let mut k: usize = 0;
        while k < all.len()
            invariant
                all@ == T::spec_all(),
                k <= all@.len(),
                Self::absorbed(
                    &start,
                    self,
                    spec_hot_columns::<T>(prefix@).take(k as int),
                    spec_one_hot(value).take(k as int),
                ),
                start == *old(self),
            decreases all@.len() - k,
        {
            let ghost before = *self;
            let variant = all[k];
            let name = String::from_str(prefix).concat("__").concat(variant.label());
            proof {
                T::lemma_code_order(variant, value);
            }
            let same = variant.as_u8() == value.as_u8();
            self.push_bool(name.as_str(), same);
            proof {
                assert(spec_hot_columns::<T>(prefix@).take(k + 1) =~= spec_hot_columns::<T>(
                    prefix@,
                ).take(k as int) + seq![name@]);
                assert(spec_one_hot(value).take(k + 1) =~= spec_one_hot(value).take(k as int)
                    + spec_flag(same));
                Self::lemma_absorbed_trans(
                    &start,
                    &before,
                    self,
                    spec_hot_columns::<T>(prefix@).take(k as int),
                    spec_one_hot(value).take(k as int),
                    seq![name@],
                    spec_flag(same),
                );
            }
            k = k + 1;
        }
        assert(spec_hot_columns::<T>(prefix@).take(all@.len() as int) =~= spec_hot_columns::<T>(
            prefix@,
        ));
        assert(spec_one_hot(value).take(all@.len() as int) =~= spec_one_hot(value));
        proof {
            Self::lemma_chained(old(self), self, spec_hot_columns::<T>(prefix@), spec_one_hot(value));
        }
    }

    fn push_multi_hot<T: Categorical>(&mut self, prefix: &str, values: &Vec<T>)
        ensures
            Self::chained(
                old(self),
                final(self),
                spec_hot_columns::<T>(prefix@),
                spec_multi_hot(values@),
            ),
    {
        let all = T::all();
        let ghost start = *self;
        let mut k: usize = 0;
        while k < all.len()
            invariant
                all@ == T::spec_all(),
                k <= all@.len(),
                Self::absorbed(
                    &start,
                    self,
                    spec_hot_columns::<T>(prefix@).take(k as int),
                    spec_multi_hot(values@).take(k as int),
                ),
                start == *old(self),
            decreases all@.len() - k,
        {
            let ghost before = *self;
            let variant = all[k];
            let name = String::from_str(prefix).concat("__").concat(variant.label());
            let present = crate::types::contains_value(values, variant);
            self.push_bool(name.as_str(), present);
            proof {
                assert(spec_hot_columns::<T>(prefix@).take(k + 1) =~= spec_hot_columns::<T>(
                    prefix@,
                ).take(k as int) + seq![name@]);
                assert(spec_multi_hot(values@).take(k + 1) =~= spec_multi_hot(values@).take(k as int)
                    + spec_flag(present));
                Self::lemma_absorbed_trans(
                    &start,
                    &before,
                    self,
                    spec_hot_columns::<T>(prefix@).take(k as int),
                    spec_multi_hot(values@).take(k as int),
                    seq![name@],
                    spec_flag(present),
                );
            }
            k = k + 1;
        }
        assert(spec_hot_columns::<T>(prefix@).take(all@.len() as int) =~= spec_hot_columns::<T>(
            prefix@,
        ));
        assert(spec_multi_hot(values@).take(all@.len() as int) =~= spec_multi_hot(values@));
        proof {
            Self::lemma_chained(
                old(self),
                self,
                spec_hot_columns::<T>(prefix@),
                spec_multi_hot(values@),
            );
        }
    }

    fn push_optional_bool_one_hot(&mut self, prefix: &str, value: Option<bool>)
        ensures
            Self::chained(
                old(self),
                final(self),
                spec_optional_columns(prefix@),
                spec_optional_bool(value),
            ),
    {
        let ghost start = *self;
        let n1 = String::from_str(prefix).concat("__none");
        self.push_bool(n1.as_str(), value.is_none());
        let ghost s1 = *self;
        let n2 = String::from_str(prefix).concat("__false");
        self.push_bool(n2.as_str(), value == Some(false));
        let ghost s2 = *self;
        let n3 = String::from_str(prefix).concat("__true");
        self.push_bool(n3.as_str(), value == Some(true));
        proof {
            Self::lemma_absorbed_trans(
                &start,
                &s1,
                &s2,
                seq![n1@],
                spec_flag(value is None),
                seq![n2@],
                spec_flag(value == Some(false)),
            );
            Self::lemma_absorbed_trans(
                &start,
                &s2,
                self,
                seq![n1@] + seq![n2@],
                spec_flag(value is None) + spec_flag(value == Some(false)),
                seq![n3@],
                spec_flag(value == Some(true)),
            );
            assert(seq![n1@] + seq![n2@] + seq![n3@] =~= spec_optional_columns(prefix@));
            assert(spec_flag(value is None) + spec_flag(value == Some(false)) + spec_flag(
                value == Some(true),
            ) =~= spec_optional_bool(value));
            Self::lemma_chained(
                &start,
                self,
                spec_optional_columns(prefix@),
                spec_optional_bool(value),
            );
        }
    }
}


/// Deduplicating a list does not change its multi-hot encoding.
proof fn lemma_multi_hot_unique<T: Categorical>(items: Seq<T>)
    ensures
        spec_multi_hot(spec_unique_by_code(items)) == spec_multi_hot(items),
{
    lemma_unique_by(items);
    assert(spec_multi_hot(spec_unique_by_code(items)) =~= spec_multi_hot(items));
}

fn any_low_r_grinding(inputs: &Vec<InputFingerprints>) -> (r: bool)
    ensures
        r == exists|k: int| 0 <= k < inputs@.len() && (#[trigger] inputs@[k]).low_r_grinding,
{
    let mut i: usize = 0;
    while i < inputs.len()
        invariant
            i <= inputs@.len(),
            forall|k: int| 0 <= k < i ==> !(#[trigger] inputs@[k]).low_r_grinding,
        decreases inputs@.len() - i,
    {
        if inputs[i].low_r_grinding {
            return true;
        }
        i = i + 1;
    }
    false
}

fn any_taproot_annex(inputs: &Vec<InputFingerprints>) -> (r: bool)
    ensures
        r == exists|k: int| 0 <= k < inputs@.len() && (#[trigger] inputs@[k]).has_taproot_annex,
{
    let mut i: usize = 0;
    while i < inputs.len()
        invariant
            i <= inputs@.len(),
            forall|k: int| 0 <= k < i ==> !(#[trigger] inputs@[k]).has_taproot_annex,
        decreases inputs@.len() - i,
    {
        if inputs[i].has_taproot_annex {
            return true;
        }
        i = i + 1;
    }
    false
}

fn any_reveals_inscription(inputs: &Vec<InputCharacteristics>) -> (r: bool)
    ensures
        r == exists|k: int| 0 <= k < inputs@.len() && (#[trigger] inputs@[k]).reveals_inscription,
{
    let mut i: usize = 0;
    while i < inputs.len()
        invariant
            i <= inputs@.len(),
            forall|k: int| 0 <= k < i ==> !(#[trigger] inputs@[k]).reveals_inscription,
        decreases inputs@.len() - i,
    {
        if inputs[i].reveals_inscription {
            return true;
        }
        i = i + 1;
    }
    false
}

fn all_schnorr_forms(inputs: &Vec<InputFingerprints>) -> (r: Vec<SchnorrSighashForm>)
    ensures
        r@ == spec_all_schnorr_forms(inputs@),
{
    let mut r: Vec<SchnorrSighashForm> = Vec::new();
    let mut i: usize = 0;
    while i < inputs.len()
        invariant
            i <= inputs@.len(),
            r@ == spec_all_schnorr_forms(inputs@.take(i as int)),
        decreases inputs@.len() - i,
    {
        let forms = &inputs[i].schnorr_sighash_forms;
        let ghost base = r@;
        let mut j: usize = 0;
        while j < forms.len()
            invariant
                j <= forms@.len(),
                forms@ == inputs@[i as int].schnorr_sighash_forms@,
                r@ == base + forms@.take(j as int),
            decreases forms@.len() - j,
        {
            r.push(forms[j]);
            assert(forms@.take(j + 1) =~= forms@.take(j as int).push(forms@[j as int]));
            j = j + 1;
        }
        assert(inputs@.take(i + 1).drop_last() =~= inputs@.take(i as int));
        assert(forms@.take(forms@.len() as int) =~= forms@);
        i = i + 1;
    }
    assert(inputs@.take(inputs@.len() as int) =~= inputs@);
    r
}

fn all_change_heuristics(candidates: &Vec<ChangeCandidate>) -> (r: Vec<ChangeHeuristic>)
    ensures
        r@ == spec_all_change_heuristics(candidates@),
{
    let mut r: Vec<ChangeHeuristic> = Vec::new();
    let mut i: usize = 0;
    while i < candidates.len()
        invariant
            i <= candidates@.len(),
            r@ == spec_all_change_heuristics(candidates@.take(i as int)),
        decreases candidates@.len() - i,
    {
        let hs = &candidates[i].heuristics;
        let ghost base = r@;
        let mut j: usize = 0;
        while j < hs.len()
            invariant
                j <= hs@.len(),
                hs@ == candidates@[i as int].heuristics@,
                r@ == base + hs@.take(j as int),
            decreases hs@.len() - j,
        {
            r.push(hs[j]);
            assert(hs@.take(j + 1) =~= hs@.take(j as int).push(hs@[j as int]));
            j = j + 1;
        }
        assert(candidates@.take(i + 1).drop_last() =~= candidates@.take(i as int));
        assert(hs@.take(hs@.len() as int) =~= hs@);
        i = i + 1;
    }
    assert(candidates@.take(candidates@.len() as int) =~= candidates@);
    r
}

fn prevout_types(inputs: &Vec<InputFingerprints>) -> (r: Vec<RawOutputType>)
    ensures
        r@ == inputs@.map_values(|i: InputFingerprints| i.input_type),
{
    let mut r: Vec<RawOutputType> = Vec::new();
    let mut i: usize = 0;
    while i < inputs.len()
        invariant
            i <= inputs@.len(),
            r@ == inputs@.take(i as int).map_values(|x: InputFingerprints| x.input_type),
        decreases inputs@.len() - i,
    {
        r.push(inputs[i].input_type);
        assert(inputs@.take(i + 1).map_values(|x: InputFingerprints| x.input_type) =~= inputs@.take(
            i as int,
        ).map_values(|x: InputFingerprints| x.input_type).push(inputs@[i as int].input_type));
        i = i + 1;
    }
    assert(inputs@.take(inputs@.len() as int) =~= inputs@);
    r
}

fn input_types(inputs: &Vec<InputCharacteristics>) -> (r: Vec<RawInputType>)
    ensures
        r@ == inputs@.map_values(|i: InputCharacteristics| i.input_type),
{
    let mut r: Vec<RawInputType> = Vec::new();
    let mut i: usize = 0;
    while i < inputs.len()
        invariant
            i <= inputs@.len(),
            r@ == inputs@.take(i as int).map_values(|x: InputCharacteristics| x.input_type),
        decreases inputs@.len() - i,
    {
        r.push(inputs[i].input_type);
        assert(inputs@.take(i + 1).map_values(|x: InputCharacteristics| x.input_type)
            =~= inputs@.take(i as int).map_values(|x: InputCharacteristics| x.input_type).push(
            inputs@[i as int].input_type,
        ));
        i = i + 1;
    }
    assert(inputs@.take(inputs@.len() as int) =~= inputs@);
    r
}

fn output_types(outputs: &Vec<OutputCharacteristics>) -> (r: Vec<RawOutputType>)
    ensures
        r@ == outputs@.map_values(|o: OutputCharacteristics| o.output_type),
{
    let mut r: Vec<RawOutputType> = Vec::new();
    let mut i: usize = 0;
    while i < outputs.len()
        invariant
            i <= outputs@.len(),
            r@ == outputs@.take(i as int).map_values(|x: OutputCharacteristics| x.output_type),
        decreases outputs@.len() - i,
    {
        r.push(outputs[i].output_type);
        assert(outputs@.take(i + 1).map_values(|x: OutputCharacteristics| x.output_type)
            =~= outputs@.take(i as int).map_values(|x: OutputCharacteristics| x.output_type).push(
            outputs@[i as int].output_type,
        ));
        i = i + 1;
    }
    assert(outputs@.take(outputs@.len() as int) =~= outputs@);
    r
}

fn encode_fingerprints(a: &TxAnalysis, b: &mut FeatureBuilder)
    ensures
        FeatureBuilder::absorbed(old(b), final(b), spec_fingerprint_columns(), spec_fingerprint_row(a)),
{
    let ghost start = *b;
    proof {
        FeatureBuilder::lemma_absorbed_nothing(&start);
    }
    let fp = &a.fingerprints.transaction;
    let inputs = &a.fingerprints.inputs;
    b.push_number("version", a.rawtx.version);
    b.push_bool("fp_address_reuse", fp.address_reuse);
    b.push_bool("fp_mixed_input_types", fp.mixed_input_types);
    b.push_bool("fp_nlocktime_optin_without_use", fp.nlocktime_optin_without_use);
    b.push_bool("fp_bip68_with_absolute_locktime", fp.bip68_with_absolute_locktime);
    b.push_bool("fp_outputs_bip69_sorted", fp.outputs_bip69_sorted);
    b.push_optional_bool_one_hot("fp_round_fee", fp.round_fee);
    b.push_multi_hot("fp_input_order", &fp.input_order);
    b.push_one_hot("fp_output_structure", fp.output_structure);
    b.push_bool("fp_any_low_r_grinding", any_low_r_grinding(inputs));
    b.push_bool("fp_any_taproot_annex", any_taproot_annex(inputs));
    let forms = all_schnorr_forms(inputs);
    let schnorr_forms = unique_by(&forms);
    b.push_multi_hot("fp_schnorr_sighash_form", &schnorr_forms);
    proof {
        lemma_multi_hot_unique(forms@);
        assert(Seq::<Seq<char>>::empty() + spec_col("version") =~= spec_col("version"));
        assert(Seq::<FeatureValue>::empty() + seq![FeatureValue::Number(a.rawtx.version)]
            =~= seq![FeatureValue::Number(a.rawtx.version)]);
    }
}

fn encode_heuristics(h: &HeuristicFeatures, b: &mut FeatureBuilder)
    ensures
        FeatureBuilder::absorbed(old(b), final(b), spec_heuristic_columns(), spec_heuristic_row(h)),
{
    let ghost start = *b;
    proof {
        FeatureBuilder::lemma_absorbed_nothing(&start);
    }
    b.push_bool("h_equal_amount_outputs", h.equal_amount_outputs);
    b.push_bool("h_likely_coinjoin", h.likely_coinjoin);
    b.push_bool("h_likely_consolidation", h.likely_consolidation);
    b.push_one_hot("h_cpfp", h.cpfp);
    b.push_multi_hot("h_sighash", &h.sighashes);
    let sequence_shapes = unique_by(&h.sequence_shapes);
    b.push_multi_hot("h_sequence_shape", &sequence_shapes);
    b.push_one_hot("h_locktime_shape", h.locktime_shape);
    b.push_bool("h_has_uncompressed_pubkey", h.has_uncompressed_pubkey);
    b.push_bool("h_has_multisig", h.has_multisig);
    b.push_bool("h_uih1", h.uih1);
    b.push_bool("h_uih2", h.uih2);
    proof {
        lemma_multi_hot_unique(h.sequence_shapes@);
        assert(Seq::<Seq<char>>::empty() + spec_col("h_equal_amount_outputs") =~= spec_col(
            "h_equal_amount_outputs",
        ));
        assert(Seq::<FeatureValue>::empty() + spec_flag(h.equal_amount_outputs) =~= spec_flag(
            h.equal_amount_outputs,
        ));
    }
}

fn encode_types(a: &TxAnalysis, b: &mut FeatureBuilder)
    ensures
        FeatureBuilder::absorbed(old(b), final(b), spec_type_columns(), spec_type_row(a)),
{
    let ghost start = *b;
    proof {
        FeatureBuilder::lemma_absorbed_nothing(&start);
    }
    let prevouts = prevout_types(&a.fingerprints.inputs);
    let inputs = input_types(&a.rawtx.inputs);
    let outputs = output_types(&a.rawtx.outputs);
    let prevout_set = unique_by(&prevouts);
    let input_set = unique_by(&inputs);
    let output_set = unique_by(&outputs);
    b.push_multi_hot("prevout_type", &prevout_set);
    b.push_multi_hot("input_type", &input_set);
    b.push_multi_hot("output_type", &output_set);
    b.push_bool("reveals_inscription", any_reveals_inscription(&a.rawtx.inputs));
    proof {
        lemma_multi_hot_unique(prevouts@);
        lemma_multi_hot_unique(inputs@);
        lemma_multi_hot_unique(outputs@);
        assert(Seq::<Seq<char>>::empty() + spec_hot_columns::<RawOutputType>("prevout_type"@)
            =~= spec_hot_columns::<RawOutputType>("prevout_type"@));
        assert(Seq::<FeatureValue>::empty() + spec_multi_hot(prevout_set@) =~= spec_multi_hot(
            prevout_set@,
        ));
    }
}

fn encode_change(c: &ChangeAnalysis, b: &mut FeatureBuilder)
    ensures
        FeatureBuilder::absorbed(old(b), final(b), spec_change_columns(), spec_change_row(c)),
{
    let ghost start = *b;
    proof {
        FeatureBuilder::lemma_absorbed_nothing(&start);
    }
    b.push_bool("change_no_change_apparent", c.no_change_apparent);
    let all = all_change_heuristics(&c.candidates);
    let heuristics = unique_by(&all);
    b.push_multi_hot("change_heuristic", &heuristics);
    proof {
        lemma_multi_hot_unique(all@);
        assert(Seq::<Seq<char>>::empty() + spec_col("change_no_change_apparent") =~= spec_col(
            "change_no_change_apparent",
        ));
        assert(Seq::<FeatureValue>::empty() + spec_flag(c.no_change_apparent) =~= spec_flag(
            c.no_change_apparent,
        ));
    }
}

fn encode_into(a: &TxAnalysis, b: &mut FeatureBuilder)
    ensures
        FeatureBuilder::absorbed(old(b), final(b), spec_columns(), spec_row(a)),
{
    let ghost s0 = *b;
    encode_fingerprints(a, b);
    let ghost s1 = *b;
    encode_heuristics(&a.heuristics, b);
    let ghost s2 = *b;
    encode_types(a, b);
    let ghost s3 = *b;
    encode_change(&a.change, b);
    proof {
        FeatureBuilder::lemma_absorbed_trans(
            &s0,
            &s1,
            &s2,
            spec_fingerprint_columns(),
            spec_fingerprint_row(a),
            spec_heuristic_columns(),
            spec_heuristic_row(&a.heuristics),
        );
        FeatureBuilder::lemma_absorbed_trans(
            &s0,
            &s2,
            &s3,
            spec_fingerprint_columns() + spec_heuristic_columns(),
            spec_fingerprint_row(a) + spec_heuristic_row(&a.heuristics),
            spec_type_columns(),
            spec_type_row(a),
        );
        FeatureBuilder::lemma_absorbed_trans(
            &s0,
            &s3,
            b,
            spec_fingerprint_columns() + spec_heuristic_columns() + spec_type_columns(),
            spec_fingerprint_row(a) + spec_heuristic_row(&a.heuristics) + spec_type_row(a),
            spec_change_columns(),
            spec_change_row(&a.change),
        );
    }
}

/// A stand-in record, used only while recording the column names: txid and
/// block hash `"0"`, height, position and version 2 aside all zero or false, no
/// inputs, outputs, candidates or lists, round fee unknown, and the first value
/// of each single categorical; no change is apparent.
fn dummy_analysis() -> (a: TxAnalysis)
    ensures
        a.txid@ == "0"@,
        a.block_height == 0,
        a.block_hash@ == "0"@,
        a.tx_index == 0,
        !a.is_coinbase,
        !a.fingerprints.transaction.address_reuse,
        !a.fingerprints.transaction.mixed_input_types,
        a.fingerprints.transaction.input_order@.len() == 0,
        !a.fingerprints.transaction.nlocktime_optin_without_use,
        !a.fingerprints.transaction.bip68_with_absolute_locktime,
        !a.fingerprints.transaction.outputs_bip69_sorted,
        a.fingerprints.transaction.output_structure == OutputStructure::Single,
        a.fingerprints.transaction.round_fee is None,
        a.fingerprints.inputs@.len() == 0,
        a.rawtx.version == 2,
        a.rawtx.inputs@.len() == 0,
        a.rawtx.outputs@.len() == 0,
        !a.heuristics.equal_amount_outputs,
        !a.heuristics.likely_coinjoin,
        !a.heuristics.likely_consolidation,
        a.heuristics.cpfp == CpfpRole::NoRole,
        a.heuristics.sighashes@.len() == 0,
        a.heuristics.sequence_shapes@.len() == 0,
        a.heuristics.locktime_shape == LocktimeShape::Zero,
        !a.heuristics.has_uncompressed_pubkey,
        a.heuristics.multisig_configs@.len() == 0,
        !a.heuristics.has_multisig,
        !a.heuristics.uih1,
        !a.heuristics.uih2,
        a.change.candidates@.len() == 0,
        a.change.no_change_apparent,
        !a.change.address_reuse,
        !a.change.uih1_optimal_change,
{
    TxAnalysis {
        txid: String::from_str("0"),
        block_height: 0,
        block_hash: String::from_str("0"),
        tx_index: 0,
        is_coinbase: false,
        fingerprints: FingerprintFeatures {
            transaction: TransactionFingerprints {
                address_reuse: false,
                mixed_input_types: false,
                input_order: Vec::new(),
                nlocktime_optin_without_use: false,
                bip68_with_absolute_locktime: false,
                outputs_bip69_sorted: false,
                output_structure: OutputStructure::Single,
                round_fee: None,
            },
            inputs: Vec::new(),
        },
        rawtx: RawTxFeatures { version: 2, inputs: Vec::new(), outputs: Vec::new() },
        heuristics: HeuristicFeatures {
            equal_amount_outputs: false,
            likely_coinjoin: false,
            likely_consolidation: false,
            cpfp: CpfpRole::NoRole,
            sighashes: Vec::new(),
            sequence_shapes: Vec::new(),
            locktime_shape: LocktimeShape::Zero,
            has_uncompressed_pubkey: false,
            multisig_configs: Vec::new(),
            has_multisig: false,
            uih1: false,
            uih2: false,
        },
        change: ChangeAnalysis {
            candidates: Vec::new(),
            no_change_apparent: true,
            address_reuse: false,
            uih1_optimal_change: false,
        },
    }
}

/// Stable column names of the feature vector.
pub fn schema() -> (s: FeatureSchema)
    ensures
        s.columns@.map_values(|c: String| c@) == spec_columns(),
{
    let mut b = FeatureBuilder::new_schema();
    let a = dummy_analysis();
    encode_into(&a, &mut b);
    assert(Seq::<Seq<char>>::empty() + spec_columns() =~= spec_columns());
    FeatureSchema { columns: b.columns }
}

/// Encode one analysis record as a feature row aligned with [`schema`].
pub fn normalize_tx(tx: &TxAnalysis) -> (n: NormalizedTx)
    ensures
        n.txid@ == tx.txid@,
        n.block_height == tx.block_height,
        n.tx_index == tx.tx_index,
        n.is_coinbase == tx.is_coinbase,
        n.x@ == spec_row(tx),
{
    let mut b = FeatureBuilder::new_row();
    encode_into(tx, &mut b);
    assert(Seq::<FeatureValue>::empty() + spec_row(tx) =~= spec_row(tx));
    NormalizedTx {
        txid: tx.txid.clone(),
        block_height: tx.block_height,
        tx_index: tx.tx_index,
        is_coinbase: tx.is_coinbase,
        x: b.values,
    }
}

/// A one-hot block sets exactly one flag: the one at the value's position in
/// its vocabulary.
pub proof fn lemma_one_hot_exactly_one<T: Categorical>(value: T)
    ensures
        spec_one_hot(value).len() == T::spec_all().len(),
        forall|i: int|
            0 <= i < T::spec_all().len() ==> #[trigger] spec_one_hot(value)[i] == FeatureValue::Flag(
                i == value.spec_dense_id(),
            ),
{
    T::lemma_dense_id(value);
    T::lemma_positions();
    assert forall|i: int| 0 <= i < T::spec_all().len() implies #[trigger] spec_one_hot(value)[i]
        == FeatureValue::Flag(i == value.spec_dense_id()) by {
        if T::spec_all()[i] == value {
            assert(T::spec_all()[i].spec_dense_id() == i);
        }
    }
}

/// A multi-hot block sets the flag of each vocabulary value that occurs in the
/// list, and only those.
pub proof fn lemma_multi_hot_members<T: Categorical>(items: Seq<T>)
    ensures
        spec_multi_hot(items).len() == T::spec_all().len(),
        forall|i: int|
            0 <= i < T::spec_all().len() ==> #[trigger] spec_multi_hot(items)[i] == FeatureValue::Flag(
                items.contains(T::spec_all()[i]),
            ),
{
}

/// The first column is `version`, and it holds the record's version number.
pub proof fn lemma_version_column(a: &TxAnalysis)
    ensures
        spec_columns()[0] == "version"@,
        spec_row(a)[0] == FeatureValue::Number(a.rawtx.version),
{
}

/// Two lists hold the same elements (in any order and multiplicity).
pub open spec fn spec_same_members<T>(s: Seq<T>, t: Seq<T>) -> bool {
    forall|x: T| s.contains(x) <==> t.contains(x)
}

proof fn lemma_multi_hot_same_members<T: Categorical>(s: Seq<T>, t: Seq<T>)
    requires
        spec_same_members(s, t),
    ensures
        spec_multi_hot(s) == spec_multi_hot(t),
{
    assert(spec_multi_hot(s) =~= spec_multi_hot(t));
}

proof fn lemma_map_same_members<A, B>(s: Seq<A>, t: Seq<A>, f: spec_fn(A) -> B)
    requires
        spec_same_members(s, t),
    ensures
        spec_same_members(s.map_values(f), t.map_values(f)),
{
    assert forall|y: B| s.map_values(f).contains(y) implies t.map_values(f).contains(y) by {
        let i = choose|i: int| 0 <= i < s.map_values(f).len() && s.map_values(f)[i] == y;
        assert(s.contains(s[i]));
        let j = choose|j: int| 0 <= j < t.len() && t[j] == s[i];
        assert(t.map_values(f)[j] == y);
    }
    assert forall|y: B| t.map_values(f).contains(y) implies s.map_values(f).contains(y) by {
        let i = choose|i: int| 0 <= i < t.map_values(f).len() && t.map_values(f)[i] == y;
        assert(t.contains(t[i]));
        let j = choose|j: int| 0 <= j < s.len() && s[j] == t[i];
        assert(s.map_values(f)[j] == y);
    }
}

/// A form occurs among the inputs' Schnorr sighash forms exactly when some input
/// lists it.
proof fn lemma_all_schnorr_forms_members(inputs: Seq<InputFingerprints>, x: SchnorrSighashForm)
    ensures
        spec_all_schnorr_forms(inputs).contains(x) <==> exists|k: int|
            0 <= k < inputs.len() && (#[trigger] inputs[k]).schnorr_sighash_forms@.contains(x),
    decreases inputs.len(),
{
    if inputs.len() > 0 {
        let pre = inputs.drop_last();
        lemma_all_schnorr_forms_members(pre, x);
        let rest = spec_all_schnorr_forms(pre);
        let last = inputs.last().schnorr_sighash_forms@;
        let all = spec_all_schnorr_forms(inputs);
        assert(all == rest + last);
        if all.contains(x) {
            let i = choose|i: int| 0 <= i < all.len() && all[i] == x;
            if i < rest.len() {
                assert(rest[i] == x);
                let k = choose|k: int| 0 <= k < pre.len() && (#[trigger] pre[k]).schnorr_sighash_forms@.contains(x);
                assert(inputs[k] == pre[k]);
            } else {
                assert(last[i - rest.len()] == x);
                assert(inputs[inputs.len() - 1].schnorr_sighash_forms@.contains(x));
            }
        }
        if exists|k: int| 0 <= k < inputs.len() && (#[trigger] inputs[k]).schnorr_sighash_forms@.contains(x) {
            let k = choose|k: int| 0 <= k < inputs.len() && (#[trigger] inputs[k]).schnorr_sighash_forms@.contains(x);
            if k < inputs.len() - 1 {
                assert(pre[k] == inputs[k]);
                assert(rest.contains(x));
                let i = choose|i: int| 0 <= i < rest.len() && rest[i] == x;
                assert(all[i] == x);
            } else {
                let i = choose|i: int| 0 <= i < last.len() && last[i] == x;
                assert(all[rest.len() + i] == x);
            }
        }
    }
}

proof fn lemma_fingerprint_rows_agree(a: &TxAnalysis, b: &TxAnalysis)
    requires
        a.rawtx.version == b.rawtx.version,
        a.fingerprints.transaction.address_reuse == b.fingerprints.transaction.address_reuse,
        a.fingerprints.transaction.mixed_input_types == b.fingerprints.transaction.mixed_input_types,
        a.fingerprints.transaction.nlocktime_optin_without_use
            == b.fingerprints.transaction.nlocktime_optin_without_use,
        a.fingerprints.transaction.bip68_with_absolute_locktime
            == b.fingerprints.transaction.bip68_with_absolute_locktime,
        a.fingerprints.transaction.outputs_bip69_sorted
            == b.fingerprints.transaction.outputs_bip69_sorted,
        a.fingerprints.transaction.output_structure == b.fingerprints.transaction.output_structure,
        a.fingerprints.transaction.round_fee == b.fingerprints.transaction.round_fee,
        spec_same_members(
            a.fingerprints.transaction.input_order@,
            b.fingerprints.transaction.input_order@,
        ),
        spec_same_members(a.fingerprints.inputs@, b.fingerprints.inputs@),
    ensures
        spec_fingerprint_row(a) == spec_fingerprint_row(b),
{
    let fa = a.fingerprints.inputs@;
    let fb = b.fingerprints.inputs@;
    lemma_multi_hot_same_members(
        a.fingerprints.transaction.input_order@,
        b.fingerprints.transaction.input_order@,
    );
    // The any-of flags over the inputs.
    assert((exists|k: int| 0 <= k < fa.len() && (#[trigger] fa[k]).low_r_grinding) == (exists|k: int|
        0 <= k < fb.len() && (#[trigger] fb[k]).low_r_grinding)) by {
        if exists|k: int| 0 <= k < fa.len() && (#[trigger] fa[k]).low_r_grinding {
            let k = choose|k: int| 0 <= k < fa.len() && (#[trigger] fa[k]).low_r_grinding;
            assert(fa.contains(fa[k]));
            let j = choose|j: int| 0 <= j < fb.len() && fb[j] == fa[k];
            assert(fb[j].low_r_grinding);
        }
        if exists|k: int| 0 <= k < fb.len() && (#[trigger] fb[k]).low_r_grinding {
            let k = choose|k: int| 0 <= k < fb.len() && (#[trigger] fb[k]).low_r_grinding;
            assert(fb.contains(fb[k]));
            let j = choose|j: int| 0 <= j < fa.len() && fa[j] == fb[k];
            assert(fa[j].low_r_grinding);
        }
    }
    assert((exists|k: int| 0 <= k < fa.len() && (#[trigger] fa[k]).has_taproot_annex) == (exists|
        k: int,
    | 0 <= k < fb.len() && (#[trigger] fb[k]).has_taproot_annex)) by {
        if exists|k: int| 0 <= k < fa.len() && (#[trigger] fa[k]).has_taproot_annex {
            let k = choose|k: int| 0 <= k < fa.len() && (#[trigger] fa[k]).has_taproot_annex;
            assert(fa.contains(fa[k]));
            let j = choose|j: int| 0 <= j < fb.len() && fb[j] == fa[k];
            assert(fb[j].has_taproot_annex);
        }
        if exists|k: int| 0 <= k < fb.len() && (#[trigger] fb[k]).has_taproot_annex {
            let k = choose|k: int| 0 <= k < fb.len() && (#[trigger] fb[k]).has_taproot_annex;
            assert(fb.contains(fb[k]));
            let j = choose|j: int| 0 <= j < fa.len() && fa[j] == fb[k];
            assert(fa[j].has_taproot_annex);
        }
    }
    // The Schnorr sighash forms over all inputs.
    assert(spec_same_members(spec_all_schnorr_forms(fa), spec_all_schnorr_forms(fb))) by {
        assert forall|x: SchnorrSighashForm| spec_all_schnorr_forms(fa).contains(x)
            <==> spec_all_schnorr_forms(fb).contains(x) by {
            lemma_all_schnorr_forms_members(fa, x);
            lemma_all_schnorr_forms_members(fb, x);
            if exists|k: int| 0 <= k < fa.len() && (#[trigger] fa[k]).schnorr_sighash_forms@.contains(x) {
                let k = choose|k: int|
                    0 <= k < fa.len() && (#[trigger] fa[k]).schnorr_sighash_forms@.contains(x);
                assert(fa.contains(fa[k]));
                let j = choose|j: int| 0 <= j < fb.len() && fb[j] == fa[k];
                assert(fb[j].schnorr_sighash_forms@.contains(x));
            }
            if exists|k: int| 0 <= k < fb.len() && (#[trigger] fb[k]).schnorr_sighash_forms@.contains(x) {
                let k = choose|k: int|
                    0 <= k < fb.len() && (#[trigger] fb[k]).schnorr_sighash_forms@.contains(x);
                assert(fb.contains(fb[k]));
                let j = choose|j: int| 0 <= j < fa.len() && fa[j] == fb[k];
                assert(fa[j].schnorr_sighash_forms@.contains(x));
            }
        }
    }
    lemma_multi_hot_same_members(spec_all_schnorr_forms(fa), spec_all_schnorr_forms(fb));
    assert(spec_fingerprint_row(a) == spec_fingerprint_row(b));
}

proof fn lemma_type_rows_agree(a: &TxAnalysis, b: &TxAnalysis)
    requires
        spec_same_members(a.fingerprints.inputs@, b.fingerprints.inputs@),
        spec_same_members(a.rawtx.inputs@, b.rawtx.inputs@),
        spec_same_members(a.rawtx.outputs@, b.rawtx.outputs@),
    ensures
        spec_type_row(a) == spec_type_row(b),
{
    let fa = a.fingerprints.inputs@;
    let fb = b.fingerprints.inputs@;
    // The script types.
    let ti = |i: InputFingerprints| i.input_type;
    let ri = |i: InputCharacteristics| i.input_type;
    let ro = |o: OutputCharacteristics| o.output_type;
    lemma_map_same_members(fa, fb, ti);
    lemma_map_same_members(a.rawtx.inputs@, b.rawtx.inputs@, ri);
    lemma_map_same_members(a.rawtx.outputs@, b.rawtx.outputs@, ro);
    lemma_multi_hot_same_members(fa.map_values(ti), fb.map_values(ti));
    lemma_multi_hot_same_members(a.rawtx.inputs@.map_values(ri), b.rawtx.inputs@.map_values(ri));
    lemma_multi_hot_same_members(a.rawtx.outputs@.map_values(ro), b.rawtx.outputs@.map_values(ro));
    let ia = a.rawtx.inputs@;
    let ib = b.rawtx.inputs@;
    assert((exists|k: int| 0 <= k < ia.len() && (#[trigger] ia[k]).reveals_inscription) == (exists|
        k: int,
    | 0 <= k < ib.len() && (#[trigger] ib[k]).reveals_inscription)) by {
        if exists|k: int| 0 <= k < ia.len() && (#[trigger] ia[k]).reveals_inscription {
            let k = choose|k: int| 0 <= k < ia.len() && (#[trigger] ia[k]).reveals_inscription;
            assert(ia.contains(ia[k]));
            let j = choose|j: int| 0 <= j < ib.len() && ib[j] == ia[k];
            assert(ib[j].reveals_inscription);
        }
        if exists|k: int| 0 <= k < ib.len() && (#[trigger] ib[k]).reveals_inscription {
            let k = choose|k: int| 0 <= k < ib.len() && (#[trigger] ib[k]).reveals_inscription;
            assert(ib.contains(ib[k]));
            let j = choose|j: int| 0 <= j < ia.len() && ia[j] == ib[k];
            assert(ia[j].reveals_inscription);
        }
    }
}

/// The encoded row depends only on which elements the record's lists hold, not
/// on their order or repetition: two records that agree on every other encoded
/// field, and whose input orders, per-input fingerprints, rawtx inputs and
/// outputs, sighash and sequence-shape lists hold the same elements, and whose
/// change candidates carry the same heuristics overall, encode to the same row.
pub proof fn lemma_row_ignores_list_order(a: &TxAnalysis, b: &TxAnalysis)
    requires
        a.rawtx.version == b.rawtx.version,
        a.fingerprints.transaction.address_reuse == b.fingerprints.transaction.address_reuse,
        a.fingerprints.transaction.mixed_input_types == b.fingerprints.transaction.mixed_input_types,
        a.fingerprints.transaction.nlocktime_optin_without_use
            == b.fingerprints.transaction.nlocktime_optin_without_use,
        a.fingerprints.transaction.bip68_with_absolute_locktime
            == b.fingerprints.transaction.bip68_with_absolute_locktime,
        a.fingerprints.transaction.outputs_bip69_sorted
            == b.fingerprints.transaction.outputs_bip69_sorted,
        a.fingerprints.transaction.output_structure == b.fingerprints.transaction.output_structure,
        a.fingerprints.transaction.round_fee == b.fingerprints.transaction.round_fee,
        spec_same_members(
            a.fingerprints.transaction.input_order@,
            b.fingerprints.transaction.input_order@,
        ),
        spec_same_members(a.fingerprints.inputs@, b.fingerprints.inputs@),
        spec_same_members(a.rawtx.inputs@, b.rawtx.inputs@),
        spec_same_members(a.rawtx.outputs@, b.rawtx.outputs@),
        a.heuristics.equal_amount_outputs == b.heuristics.equal_amount_outputs,
        a.heuristics.likely_coinjoin == b.heuristics.likely_coinjoin,
        a.heuristics.likely_consolidation == b.heuristics.likely_consolidation,
        a.heuristics.cpfp == b.heuristics.cpfp,
        spec_same_members(a.heuristics.sighashes@, b.heuristics.sighashes@),
        spec_same_members(a.heuristics.sequence_shapes@, b.heuristics.sequence_shapes@),
        a.heuristics.locktime_shape == b.heuristics.locktime_shape,
        a.heuristics.has_uncompressed_pubkey == b.heuristics.has_uncompressed_pubkey,
        a.heuristics.has_multisig == b.heuristics.has_multisig,
        a.heuristics.uih1 == b.heuristics.uih1,
        a.heuristics.uih2 == b.heuristics.uih2,
        a.change.no_change_apparent == b.change.no_change_apparent,
        spec_same_members(
            spec_all_change_heuristics(a.change.candidates@),
            spec_all_change_heuristics(b.change.candidates@),
        ),
    ensures
        spec_row(a) == spec_row(b),
{
    lemma_fingerprint_rows_agree(a, b);
    lemma_multi_hot_same_members(a.heuristics.sighashes@, b.heuristics.sighashes@);
    lemma_multi_hot_same_members(a.heuristics.sequence_shapes@, b.heuristics.sequence_shapes@);
    assert(spec_heuristic_row(&a.heuristics) == spec_heuristic_row(&b.heuristics));
    lemma_type_rows_agree(a, b);
    lemma_multi_hot_same_members(
        spec_all_change_heuristics(a.change.candidates@),
        spec_all_change_heuristics(b.change.candidates@),
    );
    assert(spec_change_row(&a.change) == spec_change_row(&b.change));
}

proof fn lemma_block_lengths(a: &TxAnalysis)
    ensures
        spec_fingerprint_columns().len() == 24,
        spec_fingerprint_row(a).len() == 24,
        spec_heuristic_columns().len() == 31,
        spec_heuristic_row(&a.heuristics).len() == 31,
        spec_type_columns().len() == 62,
        spec_type_row(a).len() == 62,
        spec_change_columns().len() == 4,
        spec_change_row(&a.change).len() == 4,
{
}

#[verifier::rlimit(60)]
proof fn lemma_fingerprint_flag_columns(a: &TxAnalysis)
    ensures
        ({
            let cols = spec_fingerprint_columns();
            let row = spec_fingerprint_row(a);
            let fp = a.fingerprints.transaction;
            let inputs = a.fingerprints.inputs@;
            &&& cols[1] == "fp_address_reuse"@ && row[1] == FeatureValue::Flag(fp.address_reuse)
            &&& cols[2] == "fp_mixed_input_types"@ && row[2] == FeatureValue::Flag(fp.mixed_input_types)
            &&& cols[3] == "fp_nlocktime_optin_without_use"@ && row[3] == FeatureValue::Flag(
                fp.nlocktime_optin_without_use,
            )
            &&& cols[4] == "fp_bip68_with_absolute_locktime"@ && row[4] == FeatureValue::Flag(
                fp.bip68_with_absolute_locktime,
            )
            &&& cols[5] == "fp_outputs_bip69_sorted"@ && row[5] == FeatureValue::Flag(
                fp.outputs_bip69_sorted,
            )
            &&& cols[6] == "fp_round_fee"@ + "__none"@ && row[6] == FeatureValue::Flag(fp.round_fee is None)
            &&& cols[7] == "fp_round_fee"@ + "__false"@ && row[7] == FeatureValue::Flag(fp.round_fee == Some(false))
            &&& cols[8] == "fp_round_fee"@ + "__true"@ && row[8] == FeatureValue::Flag(fp.round_fee == Some(true))
            &&& cols[19] == "fp_any_low_r_grinding"@ && row[19] == FeatureValue::Flag(exists|k: int|
                0 <= k < inputs.len() && (#[trigger] inputs[k]).low_r_grinding)
            &&& cols[20] == "fp_any_taproot_annex"@ && row[20] == FeatureValue::Flag(exists|k: int|
                0 <= k < inputs.len() && (#[trigger] inputs[k]).has_taproot_annex)
        }),
{
}

#[verifier::rlimit(60)]
proof fn lemma_heuristic_flag_columns(h: &HeuristicFeatures)
    ensures
        ({
            let cols = spec_heuristic_columns();
            let row = spec_heuristic_row(h);
            &&& cols[0] == "h_equal_amount_outputs"@ && row[0] == FeatureValue::Flag(h.equal_amount_outputs)
            &&& cols[1] == "h_likely_coinjoin"@ && row[1] == FeatureValue::Flag(h.likely_coinjoin)
            &&& cols[2] == "h_likely_consolidation"@ && row[2] == FeatureValue::Flag(h.likely_consolidation)
            &&& cols[27] == "h_has_uncompressed_pubkey"@ && row[27] == FeatureValue::Flag(
                h.has_uncompressed_pubkey,
            )
            &&& cols[28] == "h_has_multisig"@ && row[28] == FeatureValue::Flag(h.has_multisig)
            &&& cols[29] == "h_uih1"@ && row[29] == FeatureValue::Flag(h.uih1)
            &&& cols[30] == "h_uih2"@ && row[30] == FeatureValue::Flag(h.uih2)
        }),
{
}

proof fn lemma_type_change_flag_columns(a: &TxAnalysis)
    ensures
        ({
            let raw = a.rawtx.inputs@;
            &&& spec_type_columns()[61] == "reveals_inscription"@
            &&& spec_type_row(a)[61] == FeatureValue::Flag(exists|k: int|
                0 <= k < raw.len() && (#[trigger] raw[k]).reveals_inscription)
            &&& spec_change_columns()[0] == "change_no_change_apparent"@
            &&& spec_change_row(&a.change)[0] == FeatureValue::Flag(a.change.no_change_apparent)
        }),
{
}

/// Each column named after a yes/no field of the record holds that field: the
/// transaction fingerprints, the any-input flags, the round-fee one-hot, the
/// heuristics flags, the inscription flag and the no-change flag, each at its
/// place in the schema.
pub proof fn lemma_named_flag_columns(a: &TxAnalysis)
    ensures
        ({
            let cols = spec_columns();
            let row = spec_row(a);
            let fp = a.fingerprints.transaction;
            let inputs = a.fingerprints.inputs@;
            let raw = a.rawtx.inputs@;
            let h = a.heuristics;
            &&& cols[1] == "fp_address_reuse"@ && row[1] == FeatureValue::Flag(fp.address_reuse)
            &&& cols[2] == "fp_mixed_input_types"@ && row[2] == FeatureValue::Flag(fp.mixed_input_types)
            &&& cols[3] == "fp_nlocktime_optin_without_use"@ && row[3] == FeatureValue::Flag(
                fp.nlocktime_optin_without_use,
            )
            &&& cols[4] == "fp_bip68_with_absolute_locktime"@ && row[4] == FeatureValue::Flag(
                fp.bip68_with_absolute_locktime,
            )
            &&& cols[5] == "fp_outputs_bip69_sorted"@ && row[5] == FeatureValue::Flag(
                fp.outputs_bip69_sorted,
            )
            &&& cols[6] == "fp_round_fee"@ + "__none"@ && row[6] == FeatureValue::Flag(fp.round_fee is None)
            &&& cols[7] == "fp_round_fee"@ + "__false"@ && row[7] == FeatureValue::Flag(fp.round_fee == Some(false))
            &&& cols[8] == "fp_round_fee"@ + "__true"@ && row[8] == FeatureValue::Flag(fp.round_fee == Some(true))
            &&& cols[19] == "fp_any_low_r_grinding"@ && row[19] == FeatureValue::Flag(exists|k: int|
                0 <= k < inputs.len() && (#[trigger] inputs[k]).low_r_grinding)
            &&& cols[20] == "fp_any_taproot_annex"@ && row[20] == FeatureValue::Flag(exists|k: int|
                0 <= k < inputs.len() && (#[trigger] inputs[k]).has_taproot_annex)
            &&& cols[24] == "h_equal_amount_outputs"@ && row[24] == FeatureValue::Flag(h.equal_amount_outputs)
            &&& cols[25] == "h_likely_coinjoin"@ && row[25] == FeatureValue::Flag(h.likely_coinjoin)
            &&& cols[26] == "h_likely_consolidation"@ && row[26] == FeatureValue::Flag(h.likely_consolidation)
            &&& cols[51] == "h_has_uncompressed_pubkey"@ && row[51] == FeatureValue::Flag(
                h.has_uncompressed_pubkey,
            )
            &&& cols[52] == "h_has_multisig"@ && row[52] == FeatureValue::Flag(h.has_multisig)
            &&& cols[53] == "h_uih1"@ && row[53] == FeatureValue::Flag(h.uih1)
            &&& cols[54] == "h_uih2"@ && row[54] == FeatureValue::Flag(h.uih2)
            &&& cols[116] == "reveals_inscription"@ && row[116] == FeatureValue::Flag(exists|k: int|
                0 <= k < raw.len() && (#[trigger] raw[k]).reveals_inscription)
            &&& cols[117] == "change_no_change_apparent"@ && row[117] == FeatureValue::Flag(
                a.change.no_change_apparent,
            )
        }),
{
    lemma_block_lengths(a);
    lemma_fingerprint_flag_columns(a);
    lemma_heuristic_flag_columns(&a.heuristics);
    lemma_type_change_flag_columns(a);
}

proof fn lemma_map_contains<A, B>(s: Seq<A>, f: spec_fn(A) -> B, y: B)
    ensures
        s.map_values(f).contains(y) <==> exists|k: int| 0 <= k < s.len() && f(#[trigger] s[k]) == y,
{
    if s.map_values(f).contains(y) {
        let i = choose|i: int| 0 <= i < s.map_values(f).len() && s.map_values(f)[i] == y;
        assert(f(s[i]) == y);
    }
    if exists|k: int| 0 <= k < s.len() && f(#[trigger] s[k]) == y {
        let k = choose|k: int| 0 <= k < s.len() && f(#[trigger] s[k]) == y;
        assert(s.map_values(f)[k] == y);
    }
}

#[verifier::rlimit(40)]
proof fn lemma_type_block_columns(a: &TxAnalysis, t: RawOutputType, u: RawInputType)
    ensures
        ({
            let cols = spec_type_columns();
            let row = spec_type_row(a);
            let d = t.spec_dense_id();
            let e = u.spec_dense_id();
            let fi = a.fingerprints.inputs@;
            let ri = a.rawtx.inputs@;
            let ro = a.rawtx.outputs@;
            &&& cols[d] == "prevout_type"@ + "__"@ + t.spec_label()
            &&& row[d] == FeatureValue::Flag(exists|k: int| 0 <= k < fi.len() && (#[trigger] fi[k]).input_type == t)
            &&& cols[22 + e] == "input_type"@ + "__"@ + u.spec_label()
            &&& row[22 + e] == FeatureValue::Flag(exists|k: int| 0 <= k < ri.len() && (#[trigger] ri[k]).input_type == u)
            &&& cols[39 + d] == "output_type"@ + "__"@ + t.spec_label()
            &&& row[39 + d] == FeatureValue::Flag(exists|k: int| 0 <= k < ro.len() && (#[trigger] ro[k]).output_type == t)
        }),
{
    RawOutputType::lemma_dense_id(t);
    RawInputType::lemma_dense_id(u);
    let ti = |i: InputFingerprints| i.input_type;
    let tri = |i: InputCharacteristics| i.input_type;
    let tro = |o: OutputCharacteristics| o.output_type;
    lemma_map_contains(a.fingerprints.inputs@, ti, t);
    lemma_map_contains(a.rawtx.inputs@, tri, u);
    lemma_map_contains(a.rawtx.outputs@, tro, t);
    lemma_multi_hot_members(a.fingerprints.inputs@.map_values(ti));
    lemma_multi_hot_members(a.rawtx.inputs@.map_values(tri));
    lemma_multi_hot_members(a.rawtx.outputs@.map_values(tro));
}

/// The script-type columns: the column named `prevout_type__<label of t>` says
/// whether some input spends an output of type `t`, `input_type__<label of u>`
/// whether some input is of type `u`, and `output_type__<label of t>` whether
/// some output is of type `t`.
pub proof fn lemma_type_columns(a: &TxAnalysis, t: RawOutputType, u: RawInputType)
    ensures
        ({
            let cols = spec_columns();
            let row = spec_row(a);
            let d = t.spec_dense_id();
            let e = u.spec_dense_id();
            let fi = a.fingerprints.inputs@;
            let ri = a.rawtx.inputs@;
            let ro = a.rawtx.outputs@;
            &&& cols[55 + d] == "prevout_type"@ + "__"@ + t.spec_label()
            &&& row[55 + d] == FeatureValue::Flag(exists|k: int| 0 <= k < fi.len() && (#[trigger] fi[k]).input_type == t)
            &&& cols[77 + e] == "input_type"@ + "__"@ + u.spec_label()
            &&& row[77 + e] == FeatureValue::Flag(exists|k: int| 0 <= k < ri.len() && (#[trigger] ri[k]).input_type == u)
            &&& cols[94 + d] == "output_type"@ + "__"@ + t.spec_label()
            &&& row[94 + d] == FeatureValue::Flag(exists|k: int| 0 <= k < ro.len() && (#[trigger] ro[k]).output_type == t)
        }),
{
    lemma_block_lengths(a);
    lemma_type_block_columns(a, t, u);
    RawOutputType::lemma_dense_id(t);
    RawInputType::lemma_dense_id(u);
}

/// Every encoded row has exactly one value per schema column, whatever the
/// record.
pub proof fn lemma_row_width(a: &TxAnalysis)
    ensures
        spec_row(a).len() == spec_columns().len(),
{
}

} // verus!

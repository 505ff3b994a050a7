//! Heuristics beyond the fingerprint and rawtx sets: equal amounts, coinjoin and
//! consolidation shapes, CPFP role, sighash and multisig summaries, and Gibson's
//! unnecessary-input heuristics.

use vstd::prelude::*;

use std::collections::{HashMap, HashSet};

use crate::block::BlockTxContext;
use crate::change::{
    spec_change_applies, spec_change_result, spec_first_min_payment, spec_is_payment,
    spec_optimal_signal, ChangeAnalysis,
};
use crate::fingerprints::FingerprintFeatures;
use crate::rawtx::{InputCharacteristics, MultisigInfo, PubkeyCharacteristics, RawTxFeatures};
use crate::tx::{TxData, TxOutput};
use crate::types::{
    spec_unique_by_code, unique_by, CpfpRole, LocktimeShape, PubkeyAlgo, RawInputType,
    SequenceShape, SighashType,
};

verus! {

broadcast use vstd::std_specs::hash::group_hash_axioms;

#[derive(Debug)]
pub struct HeuristicFeatures {
    /// At least two payment (non-OP_RETURN) outputs share the exact same value.
    pub equal_amount_outputs: bool,
    /// Equal-amount outputs, or the rawtx-rs equal-output coinjoin shape.
    pub likely_coinjoin: bool,
    /// Many inputs (at least 3) into 1 or 2 payment (non-OP_RETURN) outputs, or
    /// at least 10 inputs into at most 2 outputs.
    pub likely_consolidation: bool,
    pub cpfp: CpfpRole,
    /// Distinct sighash types seen across all input signatures, by code.
    pub sighashes: Vec<SighashType>,
    /// Per-input nSequence shape.
    pub sequence_shapes: Vec<SequenceShape>,
    /// nLockTime shape against the confirming block height.
    pub locktime_shape: LocktimeShape,
    /// Some input or output reveals an uncompressed ECDSA public key.
    pub has_uncompressed_pubkey: bool,
    /// Distinct multisig configurations observed on inputs, ascending.
    pub multisig_configs: Vec<MultisigInfo>,
    pub has_multisig: bool,
    /// Gibson UIH1: some payment output is smaller than every input.
    pub uih1: bool,
    /// Gibson UIH2: some input is larger than every payment output.
    pub uih2: bool,
}

/// The amounts of the payment outputs, in output order.
pub open spec fn spec_payment_values(outs: Seq<TxOutput>) -> Seq<u64>
    decreases outs.len(),
{
    if outs.len() == 0 {
        seq![]
    } else {
        spec_payment_values(outs.drop_last()) + if spec_is_payment(outs.last()) {
            seq![outs.last().value]
        } else {
            seq![]
        }
    }
}

/// Two positions of `vals` hold the same amount.
pub open spec fn spec_has_equal_values(vals: Seq<u64>) -> bool {
    exists|i: int, j: int| 0 <= i < j < vals.len() && vals[i] == vals[j]
}

/// How many outputs carry amount `x`.
pub open spec fn spec_count_value(outs: Seq<TxOutput>, x: u64) -> nat
    decreases outs.len(),
{
    if outs.len() == 0 {
        0
    } else {
        spec_count_value(outs.drop_last(), x) + if outs.last().value == x {
            1nat
        } else {
            0nat
        }
    }
}

/// The largest number of outputs that share one amount.
pub open spec fn spec_max_multiplicity(outs: Seq<TxOutput>) -> nat
    decreases outs.len(),
{
    if outs.len() == 0 {
        0
    } else {
        let rest = spec_max_multiplicity(outs.drop_last());
        let here = spec_count_value(outs, outs.last().value);
        if rest >= here {
            rest
        } else {
            here
        }
    }
}

/// The rawtx-rs equal-output coinjoin shape: at least 2 inputs and 2 outputs, and
/// some amount shared by more than 2 outputs and by at least a third of them.
pub open spec fn spec_potentially_coinjoin(tx: &TxData) -> bool {
    let m = spec_max_multiplicity(tx.outputs@);
    &&& tx.inputs@.len() >= 2
    &&& tx.outputs@.len() >= 2
    &&& 3 * m >= tx.outputs@.len()
    &&& m > 2
}

/// UIH1: some payment amount is below every input amount.
pub open spec fn spec_uih1(prevouts: Seq<TxOutput>, vals: Seq<u64>) -> bool {
    &&& prevouts.len() > 0
    &&& exists|i: int|
        #![trigger vals[i]]
        0 <= i < vals.len() && forall|j: int|
            0 <= j < prevouts.len() ==> vals[i] < (#[trigger] prevouts[j]).value
}

/// UIH2: some input amount is above every payment amount.
pub open spec fn spec_uih2(prevouts: Seq<TxOutput>, vals: Seq<u64>) -> bool {
    &&& vals.len() > 0
    &&& exists|j: int|
        #![trigger prevouts[j]]
        0 <= j < prevouts.len() && forall|i: int|
            0 <= i < vals.len() ==> prevouts[j].value > #[trigger] vals[i]
}

pub open spec fn spec_cpfp(ctx: BlockTxContext) -> CpfpRole {
    if ctx.has_same_block_child && ctx.spends_same_block_parent {
        CpfpRole::Both
    } else if ctx.has_same_block_child {
        CpfpRole::Parent
    } else if ctx.spends_same_block_parent {
        CpfpRole::Child
    } else {
        CpfpRole::NoRole
    }
}

/// The sighash types of all input signatures, input by input.
pub open spec fn spec_all_sighashes(inputs: Seq<InputCharacteristics>) -> Seq<SighashType>
    decreases inputs.len(),
{
    if inputs.len() == 0 {
        seq![]
    } else {
        spec_all_sighashes(inputs.drop_last()) + inputs.last().signatures@.map_values(
            |s: crate::rawtx::SignatureCharacteristics| s.sighash,
        )
    }
}

/// A public key that is ECDSA and not compressed.
pub open spec fn spec_uncompressed_ecdsa(p: PubkeyCharacteristics) -> bool {
    !p.compressed && p.pubkey_type == PubkeyAlgo::Ecdsa
}

pub open spec fn spec_has_uncompressed_pubkey(
    fp: &FingerprintFeatures,
    rawtx: &RawTxFeatures,
) -> bool {
    ||| exists|k: int| 0 <= k < fp.inputs@.len() && (#[trigger] fp.inputs@[k]).has_uncompressed_pubkey
    ||| exists|k: int, m: int|
        0 <= k < rawtx.inputs@.len() && 0 <= m < rawtx.inputs@[k].pubkeys@.len()
            && spec_uncompressed_ecdsa(#[trigger] rawtx.inputs@[k].pubkeys@[m])
    ||| exists|k: int, m: int|
        0 <= k < rawtx.outputs@.len() && 0 <= m < rawtx.outputs@[k].pubkeys@.len()
            && spec_uncompressed_ecdsa(#[trigger] rawtx.outputs@[k].pubkeys@[m])
}

/// The sort key of a multisig configuration: (m, n, unknown_n) in lexicographic
/// order.
pub open spec fn spec_multisig_key(c: MultisigInfo) -> int {
    c.m * 512 + c.n * 2 + if c.unknown_n {
        1int
    } else {
        0int
    }
}

/// Some input reports multisig configuration `c`.
pub open spec fn spec_multisig_seen(inputs: Seq<InputCharacteristics>, c: MultisigInfo) -> bool {
    exists|k: int| 0 <= k < inputs.len() && (#[trigger] inputs[k]).multisig == Some(c)
}

/// Some input spends a bare multisig (strict or lax DER).
pub open spec fn spec_spends_p2ms(inputs: Seq<InputCharacteristics>) -> bool {
    exists|k: int|
        0 <= k < inputs.len() && ((#[trigger] inputs[k]).input_type == RawInputType::P2ms
            || inputs[k].input_type == RawInputType::P2msLaxDer)
}

fn multisig_key(c: MultisigInfo) -> (r: u32)
    ensures
        r == spec_multisig_key(c),
{
    (c.m as u32) * 512 + (c.n as u32) * 2 + if c.unknown_n {
        1
    } else {
        0
    }
}

proof fn lemma_multisig_key_injective(a: MultisigInfo, b: MultisigInfo)
    requires
        spec_multisig_key(a) == spec_multisig_key(b),
    ensures
        a == b,
{
    assert(a.m == b.m && a.n == b.n) by (nonlinear_arith)
        requires
            a.m * 512 + a.n * 2 + (if a.unknown_n { 1int } else { 0int }) == b.m * 512 + b.n * 2
                + (if b.unknown_n { 1int } else { 0int }),
            a.n < 256,
            b.n < 256,
    ;
}

/// The amounts of the payment outputs, in output order.
fn payment_values(outs: &Vec<TxOutput>) -> (r: Vec<u64>)
    ensures
        r@ == spec_payment_values(outs@),
{
    let mut r: Vec<u64> = Vec::new();
    let mut k: usize = 0;
    while k < outs.len()
        invariant
            k <= outs@.len(),
            r@ == spec_payment_values(outs@.take(k as int)),
        decreases outs@.len() - k,
    {
        assert(outs@.take(k + 1).drop_last() =~= outs@.take(k as int));
        if !outs[k].is_op_return() {
            r.push(outs[k].value);
        }
        assert(r@ =~= spec_payment_values(outs@.take(k + 1)));
        k = k + 1;
    }
    assert(outs@.take(outs@.len() as int) =~= outs@);
    r
}

/// At least two payment outputs share the exact same amount.
fn has_equal_amount_outputs(vals: &Vec<u64>) -> (r: bool)
    ensures
        r == spec_has_equal_values(vals@),
{
    if vals.len() < 2 {
        return false;
    }
    let mut seen: HashSet<u64> = HashSet::new();
    let mut k: usize = 0;
    while k < vals.len()
        invariant
            k <= vals@.len(),
            forall|x: u64| #[trigger] seen@.contains(x) <==> exists|i: int| 0 <= i < k && vals@[i] == x,
            forall|i: int, j: int| 0 <= i < j < k ==> vals@[i] != vals@[j],
        decreases vals@.len() - k,
    {
        let x = vals[k];
        if seen.contains(&x) {
            let ghost i = choose|i: int| 0 <= i < k && vals@[i] == x;
            assert(vals@[i] == vals@[k as int]);
            return true;
        }
        seen.insert(x);
        k = k + 1;
    }
    false
}

/// The largest number of outputs sharing one amount.
fn max_multiplicity(outs: &Vec<TxOutput>) -> (r: u64)
    ensures
        r == spec_max_multiplicity(outs@),
{
    let mut counts: HashMap<u64, u64> = HashMap::new();
    let mut max_count: u64 = 0;
    let mut k: usize = 0;
    while k < outs.len()
        invariant
            k <= outs@.len(),
            forall|x: u64|
                #![trigger counts@.contains_key(x)]
                #![trigger spec_count_value(outs@.take(k as int), x)]
                (counts@.contains_key(x) <==> spec_count_value(outs@.take(k as int), x) > 0)
                    && (counts@.contains_key(x) ==> counts@[x] == spec_count_value(
                    outs@.take(k as int),
                    x,
                )),
            max_count == spec_max_multiplicity(outs@.take(k as int)),
            max_count <= k,
            forall|x: u64| spec_count_value(outs@.take(k as int), x) <= k,
        decreases outs@.len() - k,
    {
        let x = outs[k].value;
        let ghost prefix = outs@.take(k as int);
        let ghost next = outs@.take(k + 1);
        assert(next.drop_last() =~= prefix);
        let c: u64 = match counts.get(&x) {
            Some(c) => *c,
            None => 0,
        };
        assert(c == spec_count_value(prefix, x));
        assert(spec_count_value(next, x) == c + 1);
        assert forall|y: u64| y != x implies spec_count_value(next, y) == spec_count_value(prefix, y) by {
        }
        assert forall|y: u64| spec_count_value(next, y) <= k + 1 by {
            assert(spec_count_value(prefix, y) <= k);
        }
        counts.insert(x, c + 1);
        if c + 1 > max_count {
            max_count = c + 1;
        }
        k = k + 1;
    }
    assert(outs@.take(outs@.len() as int) =~= outs@);
    max_count
}

/// The rawtx-rs equal-output coinjoin heuristic: at least two inputs and two
/// outputs, at least a third of the outputs share one amount, and that amount
/// appears more than twice.
fn potentially_coinjoin(tx: &TxData) -> (r: bool)
    ensures
        r == spec_potentially_coinjoin(tx),
{
    if tx.inputs.len() < 2 || tx.outputs.len() < 2 {
        return false;
    }
    let max_count = max_multiplicity(&tx.outputs);
    (max_count as u128) * 3 >= tx.outputs.len() as u128 && max_count > 2
}

/// Gibson UIH1 and UIH2 (eprint 2022/589). UIH1: some payment output is smaller
/// than every input (so it looks like change). UIH2: some input is larger than
/// every payment output (an input looks unnecessary for a simple payment).
fn uih_flags(prevouts: &[TxOutput], vals: &Vec<u64>) -> (r: (bool, bool))
    ensures
        r.0 == (vals@.len() > 0 && spec_uih1(prevouts@, vals@)),
        r.1 == (prevouts@.len() > 0 && spec_uih2(prevouts@, vals@)),
{
    if prevouts.len() == 0 || vals.len() == 0 {
        return (false, false);
    }
    let mut min_input = prevouts[0].value;
    let mut max_input = prevouts[0].value;
    let mut j: usize = 1;
    while j < prevouts.len()
        invariant
            1 <= j <= prevouts@.len(),
            forall|i: int| 0 <= i < j ==> min_input <= (#[trigger] prevouts@[i]).value && prevouts@[i].value <= max_input,
            exists|i: int| 0 <= i < prevouts@.len() && prevouts@[i].value == min_input,
            exists|i: int| 0 <= i < prevouts@.len() && prevouts@[i].value == max_input,
        decreases prevouts@.len() - j,
    {
        if prevouts[j].value < min_input {
            min_input = prevouts[j].value;
        }
        if prevouts[j].value > max_input {
            max_input = prevouts[j].value;
        }
        j = j + 1;
    }
    let mut min_output = vals[0];
    let mut max_output = vals[0];
    let mut i: usize = 1;
    while i < vals.len()
        invariant
            1 <= i <= vals@.len(),
            forall|m: int| 0 <= m < i ==> min_output <= #[trigger] vals@[m] && vals@[m] <= max_output,
            exists|m: int| 0 <= m < vals@.len() && vals@[m] == min_output,
            exists|m: int| 0 <= m < vals@.len() && vals@[m] == max_output,
        decreases vals@.len() - i,
    {
        if vals[i] < min_output {
            min_output = vals[i];
        }
        if vals[i] > max_output {
            max_output = vals[i];
        }
        i = i + 1;
    }
    let uih1 = min_output < min_input;
    let uih2 = max_input > max_output;
    proof {
        let im = choose|m: int| 0 <= m < vals@.len() && vals@[m] == min_output;
        let iM = choose|m: int| 0 <= m < vals@.len() && vals@[m] == max_output;
        let jm = choose|i: int| 0 <= i < prevouts@.len() && prevouts@[i].value == min_input;
        let jM = choose|i: int| 0 <= i < prevouts@.len() && prevouts@[i].value == max_input;
        if spec_uih1(prevouts@, vals@) {
            let w = choose|w: int|
                #![trigger vals@[w]]
                0 <= w < vals@.len() && forall|j: int|
                    0 <= j < prevouts@.len() ==> vals@[w] < (#[trigger] prevouts@[j]).value;
            assert(vals@[w] < prevouts@[jm].value);
        }
        if uih1 {
            assert(forall|j: int| 0 <= j < prevouts@.len() ==> vals@[im] < (#[trigger] prevouts@[j]).value);
        }
        if spec_uih2(prevouts@, vals@) {
            let w = choose|w: int|
                #![trigger prevouts@[w]]
                0 <= w < prevouts@.len() && forall|i: int|
                    0 <= i < vals@.len() ==> prevouts@[w].value > #[trigger] vals@[i];
            assert(prevouts@[w].value > vals@[iM]);
        }
        if uih2 {
            assert(forall|i: int| 0 <= i < vals@.len() ==> prevouts@[jM].value > #[trigger] vals@[i]);
        }
    }
    (uih1, uih2)
}

/// The multisig configurations are in strictly ascending key order.
pub open spec fn spec_multisig_sorted(configs: Seq<MultisigInfo>) -> bool {
    forall|i: int, j: int|
        0 <= i < j < configs.len() ==> spec_multisig_key(#[trigger] configs[i]) < spec_multisig_key(
            #[trigger] configs[j],
        )
}

/// Insert `c` into a strictly ascending list unless it is already there.
fn insert_sorted_unique(v: &mut Vec<MultisigInfo>, c: MultisigInfo)
    requires
        spec_multisig_sorted(old(v)@),
    ensures
        spec_multisig_sorted(final(v)@),
        forall|x: MultisigInfo| #[trigger] final(v)@.contains(x) <==> (old(v)@.contains(x) || x == c),
{
    let key = multisig_key(c);
    let mut p: usize = 0;
    while p < v.len() && multisig_key(v[p]) < key
        invariant
            p <= v@.len(),
            key == spec_multisig_key(c),
            forall|i: int| 0 <= i < p ==> spec_multisig_key(#[trigger] v@[i]) < key,
        decreases v@.len() - p,
    {
        p = p + 1;
    }
    if p < v.len() && multisig_key(v[p]) == key {
        proof {
            lemma_multisig_key_injective(v@[p as int], c);
        }
        return;
    }
    let ghost old_v = v@;
    v.insert(p, c);
    proof {
        assert(v@ =~= old_v.take(p as int).push(c) + old_v.skip(p as int));
        assert forall|i: int, j: int| 0 <= i < j < v@.len() implies spec_multisig_key(#[trigger] v@[i])
            < spec_multisig_key(#[trigger] v@[j]) by {
            if j < p {
            } else if j == p {
            } else if i < p {
                assert(spec_multisig_key(old_v[j - 1]) > key) by {
                    if p < old_v.len() {
                        assert(spec_multisig_key(old_v[p as int]) >= key);
                        if j - 1 > p {
                            assert(spec_multisig_key(old_v[p as int]) < spec_multisig_key(old_v[j - 1]));
                        }
                        if spec_multisig_key(old_v[p as int]) == key {
                        }
                    }
                }
            } else if i == p {
                assert(spec_multisig_key(old_v[j - 1]) > key) by {
                    assert(spec_multisig_key(old_v[p as int]) >= key);
                    if j - 1 > p {
                        assert(spec_multisig_key(old_v[p as int]) < spec_multisig_key(old_v[j - 1]));
                    }
                }
            } else {
                assert(v@[i] == old_v[i - 1] && v@[j] == old_v[j - 1]);
            }
        }
        assert forall|x: MultisigInfo| #[trigger] v@.contains(x) <==> (old_v.contains(x) || x == c) by {
            if old_v.contains(x) {
                let w = choose|w: int| 0 <= w < old_v.len() && old_v[w] == x;
                if w < p {
                    assert(v@[w] == x);
                } else {
                    assert(v@[w + 1] == x);
                }
            }
            if x == c {
                assert(v@[p as int] == x);
            }
            if v@.contains(x) {
                let w = choose|w: int| 0 <= w < v@.len() && v@[w] == x;
                if w < p {
                    assert(old_v[w] == x);
                } else if w > p {
                    assert(old_v[w - 1] == x);
                }
            }
        }
    }
}

/// The distinct multisig configurations reported on inputs, ascending by
/// (m, n, unknown_n).
fn distinct_multisig_configs(inputs: &Vec<InputCharacteristics>) -> (r: Vec<MultisigInfo>)
    ensures
        spec_multisig_sorted(r@),
        forall|c: MultisigInfo| #[trigger] r@.contains(c) <==> spec_multisig_seen(inputs@, c),
{
    let mut r: Vec<MultisigInfo> = Vec::new();
    let mut k: usize = 0;
    while k < inputs.len()
        invariant
            k <= inputs@.len(),
            spec_multisig_sorted(r@),
            forall|c: MultisigInfo| #[trigger] r@.contains(c) <==> spec_multisig_seen(inputs@.take(k as int), c),
        decreases inputs@.len() - k,
    {
        let ghost prefix = inputs@.take(k as int);
        let ghost next = inputs@.take(k + 1);
        match inputs[k].multisig {
            Some(c) => insert_sorted_unique(&mut r, c),
            None => {},
        }
        proof {
            assert forall|c: MultisigInfo| #[trigger] r@.contains(c) <==> spec_multisig_seen(next, c) by {
                if spec_multisig_seen(next, c) {
                    let w = choose|w: int| 0 <= w < next.len() && (#[trigger] next[w]).multisig == Some(c);
                    if w < k {
                        assert(prefix[w] == next[w]);
                    }
                }
                if spec_multisig_seen(prefix, c) {
                    let w = choose|w: int| 0 <= w < prefix.len() && (#[trigger] prefix[w]).multisig == Some(c);
                    assert(next[w] == prefix[w]);
                }
                if inputs@[k as int].multisig == Some(c) {
                    assert(next[k as int] == inputs@[k as int]);
                }
            }
        }
        k = k + 1;
    }
    assert(inputs@.take(inputs@.len() as int) =~= inputs@);
    r
}

/// The sighash types of all input signatures, input by input.
fn all_sighashes(inputs: &Vec<InputCharacteristics>) -> (r: Vec<SighashType>)
    ensures
        r@ == spec_all_sighashes(inputs@),
{
    let mut r: Vec<SighashType> = Vec::new();
    let mut k: usize = 0;
    while k < inputs.len()
        invariant
            k <= inputs@.len(),
            r@ == spec_all_sighashes(inputs@.take(k as int)),
        decreases inputs@.len() - k,
    {
        let sigs = &inputs[k].signatures;
        let ghost before = r@;
        let mut m: usize = 0;
        while m < sigs.len()
            invariant
                m <= sigs@.len(),
                r@ == before + sigs@.take(m as int).map_values(|s: crate::rawtx::SignatureCharacteristics| s.sighash),
            decreases sigs@.len() - m,
        {
            r.push(sigs[m].sighash);
            m = m + 1;
            assert(r@ =~= before + sigs@.take(m as int).map_values(|s: crate::rawtx::SignatureCharacteristics| s.sighash));
        }
        assert(sigs@.take(sigs@.len() as int) =~= sigs@);
        assert(inputs@.take(k + 1).drop_last() =~= inputs@.take(k as int));
        k = k + 1;
    }
    assert(inputs@.take(inputs@.len() as int) =~= inputs@);
    r
}

fn any_uncompressed_ecdsa(keys: &Vec<PubkeyCharacteristics>) -> (r: bool)
    ensures
        r == exists|m: int| 0 <= m < keys@.len() && spec_uncompressed_ecdsa(#[trigger] keys@[m]),
{
    let mut m: usize = 0;
    while m < keys.len()
        invariant
            m <= keys@.len(),
            forall|i: int| 0 <= i < m ==> !spec_uncompressed_ecdsa(#[trigger] keys@[i]),
        decreases keys@.len() - m,
    {
        if !keys[m].compressed && keys[m].pubkey_type == PubkeyAlgo::Ecdsa {
            return true;
        }
        m = m + 1;
    }
    false
}

fn has_uncompressed_pubkey(fp: &FingerprintFeatures, rawtx: &RawTxFeatures) -> (r: bool)
    ensures
        r == spec_has_uncompressed_pubkey(fp, rawtx),
{
    let mut k: usize = 0;
    while k < fp.inputs.len()
        invariant
            k <= fp.inputs@.len(),
            forall|i: int| 0 <= i < k ==> !(#[trigger] fp.inputs@[i]).has_uncompressed_pubkey,
        decreases fp.inputs@.len() - k,
    {
        if fp.inputs[k].has_uncompressed_pubkey {
            return true;
        }
        k = k + 1;
    }
    let mut k: usize = 0;
    while k < rawtx.inputs.len()
        invariant
            k <= rawtx.inputs@.len(),
            forall|i: int, m: int|
                0 <= i < k && 0 <= m < rawtx.inputs@[i].pubkeys@.len() ==> !spec_uncompressed_ecdsa(
                    #[trigger] rawtx.inputs@[i].pubkeys@[m],
                ),
        decreases rawtx.inputs@.len() - k,
    {
        if any_uncompressed_ecdsa(&rawtx.inputs[k].pubkeys) {
            return true;
        }
        k = k + 1;
    }
    let mut k: usize = 0;
    while k < rawtx.outputs.len()
        invariant
            k <= rawtx.outputs@.len(),
            forall|i: int| 0 <= i < fp.inputs@.len() ==> !(#[trigger] fp.inputs@[i]).has_uncompressed_pubkey,
            forall|i: int, m: int|
                0 <= i < rawtx.inputs@.len() && 0 <= m < rawtx.inputs@[i].pubkeys@.len() ==> !spec_uncompressed_ecdsa(
                    #[trigger] rawtx.inputs@[i].pubkeys@[m],
                ),
            forall|i: int, m: int|
                0 <= i < k && 0 <= m < rawtx.outputs@[i].pubkeys@.len() ==> !spec_uncompressed_ecdsa(
                    #[trigger] rawtx.outputs@[i].pubkeys@[m],
                ),
        decreases rawtx.outputs@.len() - k,
    {
        if any_uncompressed_ecdsa(&rawtx.outputs[k].pubkeys) {
            return true;
        }
        k = k + 1;
    }
    false
}

fn spends_p2ms(inputs: &Vec<InputCharacteristics>) -> (r: bool)
    ensures
        r == spec_spends_p2ms(inputs@),
{
    let mut k: usize = 0;
    while k < inputs.len()
        invariant
            k <= inputs@.len(),
            forall|i: int|
                0 <= i < k ==> (#[trigger] inputs@[i]).input_type != RawInputType::P2ms && inputs@[i].input_type
                    != RawInputType::P2msLaxDer,
        decreases inputs@.len() - k,
    {
        if inputs[k].input_type == RawInputType::P2ms || inputs[k].input_type == RawInputType::P2msLaxDer {
            return true;
        }
        k = k + 1;
    }
    false
}

/// What [`extract`] returns for a transaction in its block.
pub open spec fn spec_heuristics_result(
    r: &HeuristicFeatures,
    tx: &TxData,
    prevouts: Seq<TxOutput>,
    fingerprints: &FingerprintFeatures,
    rawtx: &RawTxFeatures,
    block_ctx: BlockTxContext,
    block_height: i32,
) -> bool {
    &&& (r.equal_amount_outputs == spec_has_equal_values(spec_payment_values(tx.outputs@)))
    &&& (r.likely_coinjoin == (r.equal_amount_outputs || spec_potentially_coinjoin(tx)))
    &&& (r.likely_consolidation == ((tx.inputs@.len() >= 3 && 1 <= spec_payment_values(
            tx.outputs@,
        ).len() <= 2) || (tx.inputs@.len() >= 10 && tx.outputs@.len() <= 2)))
    &&& (r.cpfp == spec_cpfp(block_ctx))
    &&& (r.sighashes@ == spec_unique_by_code(spec_all_sighashes(rawtx.inputs@)))
    &&& (r.sequence_shapes@.len() == tx.inputs@.len())
    &&& (forall|k: int|
            0 <= k < tx.inputs@.len() ==> #[trigger] r.sequence_shapes@[k]
                == SequenceShape::spec_from_nsequence(tx.inputs@[k].sequence))
    &&& (r.locktime_shape == LocktimeShape::spec_from_locktime(tx.lock_time, block_height))
    &&& (r.has_uncompressed_pubkey == spec_has_uncompressed_pubkey(fingerprints, rawtx))
    &&& (spec_multisig_sorted(r.multisig_configs@))
    &&& (forall|c: MultisigInfo| #[trigger] r.multisig_configs@.contains(c) <==> spec_multisig_seen(
            rawtx.inputs@,
            c,
        ))
    &&& (r.has_multisig == ((exists|c: MultisigInfo| spec_multisig_seen(rawtx.inputs@, c))
            || spec_spends_p2ms(rawtx.inputs@)))
    &&& (r.uih1 == (spec_payment_values(tx.outputs@).len() > 0 && spec_uih1(
            prevouts,
            spec_payment_values(tx.outputs@),
        )))
    &&& (r.uih2 == (prevouts.len() > 0 && spec_uih2(prevouts, spec_payment_values(tx.outputs@))))
}

/// Compute the extra heuristics of a transaction.
pub fn extract(
    tx: &TxData,
    prevouts: &[TxOutput],
    fingerprints: &FingerprintFeatures,
    rawtx: &RawTxFeatures,
    block_ctx: &BlockTxContext,
    block_height: i32,
) -> (r: HeuristicFeatures)
    ensures
        spec_heuristics_result(&r, tx, prevouts@, fingerprints, rawtx, *block_ctx, block_height),
{
    let vals = payment_values(&tx.outputs);
    let equal_amount_outputs = has_equal_amount_outputs(&vals);
    let likely_coinjoin = equal_amount_outputs || potentially_coinjoin(tx);
    let likely_consolidation = (tx.inputs.len() >= 3 && 1 <= vals.len() && vals.len() <= 2) || (tx.inputs.len() >= 10
        && tx.outputs.len() <= 2);
    let cpfp = if block_ctx.has_same_block_child && block_ctx.spends_same_block_parent {
        CpfpRole::Both
    } else if block_ctx.has_same_block_child {
        CpfpRole::Parent
    } else if block_ctx.spends_same_block_parent {
        CpfpRole::Child
    } else {
        CpfpRole::NoRole
    };
    let sighashes = unique_by(&all_sighashes(&rawtx.inputs));
    let mut sequence_shapes: Vec<SequenceShape> = Vec::new();
    let mut k: usize = 0;
    while k < tx.inputs.len()
        invariant
            k <= tx.inputs@.len(),
            sequence_shapes@.len() == k,
            forall|i: int|
                0 <= i < k ==> #[trigger] sequence_shapes@[i] == SequenceShape::spec_from_nsequence(
                    tx.inputs@[i].sequence,
                ),
        decreases tx.inputs@.len() - k,
    {
        sequence_shapes.push(SequenceShape::from_nsequence(tx.inputs[k].sequence));
        k = k + 1;
    }
    let locktime_shape = LocktimeShape::from_locktime(tx.lock_time, block_height);
    let has_uncompressed_pubkey = has_uncompressed_pubkey(fingerprints, rawtx);
    let multisig_configs = distinct_multisig_configs(&rawtx.inputs);
    let has_multisig = multisig_configs.len() > 0 || spends_p2ms(&rawtx.inputs);
    proof {
        if multisig_configs@.len() > 0 {
            assert(multisig_configs@.contains(multisig_configs@[0]));
        }
        if exists|c: MultisigInfo| spec_multisig_seen(rawtx.inputs@, c) {
            let c = choose|c: MultisigInfo| spec_multisig_seen(rawtx.inputs@, c);
            assert(multisig_configs@.contains(c));
        }
    }
    let (uih1, uih2) = uih_flags(prevouts, &vals);
    HeuristicFeatures {
        equal_amount_outputs,
        likely_coinjoin,
        likely_consolidation,
        cpfp,
        sighashes,
        sequence_shapes,
        locktime_shape,
        has_uncompressed_pubkey,
        multisig_configs,
        has_multisig,
        uih1,
        uih2,
    }
}


/// Equal-amount payment outputs always count as a likely coinjoin.
pub proof fn lemma_equal_amounts_imply_coinjoin(
    r: &HeuristicFeatures,
    tx: &TxData,
    prevouts: Seq<TxOutput>,
    fingerprints: &FingerprintFeatures,
    rawtx: &RawTxFeatures,
    block_ctx: BlockTxContext,
    block_height: i32,
)
    requires
        spec_heuristics_result(r, tx, prevouts, fingerprints, rawtx, block_ctx, block_height),
    ensures
        r.equal_amount_outputs ==> r.likely_coinjoin,
{
}

/// Some payment output carries amount `x`.
spec fn spec_paid_amount(outs: Seq<TxOutput>, x: u64) -> bool {
    exists|u: int| 0 <= u < outs.len() && spec_is_payment(#[trigger] outs[u]) && outs[u].value == x
}

/// The payment amounts are exactly the amounts of the payment outputs.
proof fn lemma_payment_values_members(outs: Seq<TxOutput>)
    ensures
        forall|u: int|
            0 <= u < outs.len() && spec_is_payment(#[trigger] outs[u]) ==> spec_payment_values(
                outs,
            ).contains(outs[u].value),
        forall|i: int|
            0 <= i < spec_payment_values(outs).len() ==> spec_paid_amount(
                outs,
                #[trigger] spec_payment_values(outs)[i],
            ),
    decreases outs.len(),
{
    if outs.len() > 0 {
        let pre = outs.drop_last();
        lemma_payment_values_members(pre);
        let vals = spec_payment_values(outs);
        let pvals = spec_payment_values(pre);
        assert forall|u: int| 0 <= u < outs.len() && spec_is_payment(#[trigger] outs[u]) implies vals.contains(
            outs[u].value,
        ) by {
            if u < outs.len() - 1 {
                assert(pre[u] == outs[u]);
                let i = choose|i: int| 0 <= i < pvals.len() && pvals[i] == pre[u].value;
                assert(vals[i] == pvals[i]);
            } else {
                assert(vals[pvals.len() as int] == outs[u].value);
            }
        }
        assert forall|i: int| 0 <= i < vals.len() implies spec_paid_amount(outs, #[trigger] vals[i]) by {
            if i < pvals.len() {
                assert(vals[i] == pvals[i]);
                assert(spec_paid_amount(pre, pvals[i]));
                let u = choose|u: int|
                    0 <= u < pre.len() && spec_is_payment(#[trigger] pre[u]) && pre[u].value
                        == pvals[i];
                assert(outs[u] == pre[u]);
            } else {
                let u = outs.len() - 1;
                assert(spec_is_payment(outs[u]));
                assert(outs[u].value == vals[i]);
            }
        }
    }
}

/// Whenever there is a payment output, there is a first smallest one.
pub(crate) proof fn lemma_first_min_exists(outs: Seq<TxOutput>, u: int)
    requires
        0 <= u < outs.len(),
        spec_is_payment(outs[u]),
    ensures
        exists|v: int| spec_first_min_payment(outs, v),
    decreases outs.len(),
{
    let pre = outs.drop_last();
    let last = outs.len() - 1;
    let has_earlier = exists|w: int| 0 <= w < pre.len() && spec_is_payment(#[trigger] pre[w]);
    if has_earlier {
        let w = choose|w: int| 0 <= w < pre.len() && spec_is_payment(#[trigger] pre[w]);
        lemma_first_min_exists(pre, w);
        let v = choose|v: int| spec_first_min_payment(pre, v);
        assert(pre[v] == outs[v]);
        if spec_is_payment(outs[last]) && outs[last].value < outs[v].value {
            assert forall|x: int| 0 <= x < outs.len() && spec_is_payment(#[trigger] outs[x]) implies outs[last].value
                <= outs[x].value by {
                if x < last {
                    assert(pre[x] == outs[x]);
                }
            }
            assert forall|x: int| 0 <= x < last && spec_is_payment(#[trigger] outs[x]) implies outs[x].value
                > outs[last].value by {
                assert(pre[x] == outs[x]);
            }
            assert(spec_first_min_payment(outs, last));
        } else {
            assert forall|x: int| 0 <= x < outs.len() && spec_is_payment(#[trigger] outs[x]) implies outs[v].value
                <= outs[x].value by {
                if x < last {
                    assert(pre[x] == outs[x]);
                }
            }
            assert forall|x: int| 0 <= x < v && spec_is_payment(#[trigger] outs[x]) implies outs[x].value
                > outs[v].value by {
                assert(pre[x] == outs[x]);
            }
            assert(spec_first_min_payment(outs, v));
        }
    } else {
        if u < last {
            assert(pre[u] == outs[u]);
        }
        assert forall|x: int| 0 <= x < outs.len() && spec_is_payment(#[trigger] outs[x]) implies outs[last].value
            <= outs[x].value by {
            if x < last {
                assert(pre[x] == outs[x]);
            }
        }
        assert forall|x: int| 0 <= x < last && spec_is_payment(#[trigger] outs[x]) implies outs[x].value
            > outs[last].value by {
            assert(pre[x] == outs[x]);
        }
        assert(spec_first_min_payment(outs, last));
    }
}

/// A UIH1 witness among the payment amounts gives a first smallest payment output
/// below every input.
proof fn lemma_uih1_gives_optimal(outs: Seq<TxOutput>, prevouts: Seq<TxOutput>, vals: Seq<u64>)
    requires
        vals == spec_payment_values(outs),
        spec_uih1(prevouts, vals),
    ensures
        exists|v: int| spec_optimal_signal(outs, prevouts, v),
{
    lemma_payment_values_members(outs);
    // Mentioning an input lets the solver see the witness amount of UIH1.
    assert(prevouts[0].value >= 0);
    assert forall|i: int|
        #![trigger vals[i]]
        0 <= i < vals.len() && (forall|j: int|
            0 <= j < prevouts.len() ==> vals[i] < (#[trigger] prevouts[j]).value) implies exists|
        v: int,
    | spec_optimal_signal(outs, prevouts, v) by {
        assert(spec_paid_amount(outs, vals[i]));
        let u = choose|u: int|
            0 <= u < outs.len() && spec_is_payment(#[trigger] outs[u]) && outs[u].value == vals[i];
        lemma_first_min_exists(outs, u);
        let v = choose|v: int| spec_first_min_payment(outs, v);
        assert(spec_optimal_signal(outs, prevouts, v));
    }
}

/// Some payment output is the first smallest one and below every input exactly
/// when UIH1 holds of the payment amounts.
proof fn lemma_optimal_iff_uih1(outs: Seq<TxOutput>, prevouts: Seq<TxOutput>)
    ensures
        (exists|v: int| spec_optimal_signal(outs, prevouts, v)) <==> (spec_payment_values(outs).len()
            > 0 && spec_uih1(prevouts, spec_payment_values(outs))),
{
    lemma_payment_values_members(outs);
    if exists|v: int| spec_optimal_signal(outs, prevouts, v) {
        let v = choose|v: int| spec_optimal_signal(outs, prevouts, v);
        assert(spec_payment_values(outs).contains(outs[v].value));
        let i = choose|i: int|
            0 <= i < spec_payment_values(outs).len() && spec_payment_values(outs)[i] == outs[v].value;
        assert(spec_uih1(prevouts, spec_payment_values(outs)));
    }
    if spec_payment_values(outs).len() > 0 && spec_uih1(prevouts, spec_payment_values(outs)) {
        lemma_uih1_gives_optimal(outs, prevouts, spec_payment_values(outs));
    }
}

/// The change analysis's optimal-change flag and the UIH1 heuristic agree: the
/// flag implies UIH1, and wherever the change heuristics apply (a non-coinbase
/// with at least two payment outputs) the two are equal.
pub proof fn lemma_uih1_agreement(
    c: &ChangeAnalysis,
    h: &HeuristicFeatures,
    tx: &TxData,
    prevouts: Seq<TxOutput>,
    fingerprints: &FingerprintFeatures,
    rawtx: &RawTxFeatures,
    block_ctx: BlockTxContext,
    block_height: i32,
)
    requires
        spec_change_result(c, tx, prevouts, fingerprints),
        spec_heuristics_result(h, tx, prevouts, fingerprints, rawtx, block_ctx, block_height),
    ensures
        c.uih1_optimal_change ==> h.uih1,
        spec_change_applies(tx) ==> (c.uih1_optimal_change == h.uih1),
{
    lemma_optimal_iff_uih1(tx.outputs@, prevouts);
}

/// The output pays someone: it is not an OP_RETURN (first byte `0x6a`).
pub open spec fn spec_pays(o: TxOutput) -> bool {
    !(o.script_pubkey@.len() > 0 && o.script_pubkey@[0] == 0x6a)
}

/// UIH1 and UIH2 compare against every input: UIH1 holds exactly when some
/// paying output is below every input amount; UIH2 exactly when there is a
/// paying output and some input amount is above every paying output.
pub proof fn lemma_uih_against_every_input(
    r: &HeuristicFeatures,
    tx: &TxData,
    prevouts: Seq<TxOutput>,
    fingerprints: &FingerprintFeatures,
    rawtx: &RawTxFeatures,
    block_ctx: BlockTxContext,
    block_height: i32,
)
    requires
        spec_heuristics_result(r, tx, prevouts, fingerprints, rawtx, block_ctx, block_height),
    ensures
        r.uih1 <==> (prevouts.len() > 0 && exists|v: int|
            0 <= v < tx.outputs@.len() && spec_pays(#[trigger] tx.outputs@[v]) && forall|j: int|
                0 <= j < prevouts.len() ==> tx.outputs@[v].value < (#[trigger] prevouts[j]).value),
        r.uih2 <==> (prevouts.len() > 0 && (exists|v: int|
            0 <= v < tx.outputs@.len() && spec_pays(#[trigger] tx.outputs@[v])) && exists|j: int|
            0 <= j < prevouts.len() && forall|v: int|
                0 <= v < tx.outputs@.len() && spec_pays(#[trigger] tx.outputs@[v])
                    ==> (#[trigger] prevouts[j]).value > tx.outputs@[v].value),
{
    let outs = tx.outputs@;
    lemma_payment_values_members(outs);
    lemma_uih1_direct(outs, prevouts, spec_payment_values(outs));
    lemma_uih2_direct(outs, prevouts, spec_payment_values(outs));
}

proof fn lemma_uih1_direct(outs: Seq<TxOutput>, prevouts: Seq<TxOutput>, vals: Seq<u64>)
    requires
        vals == spec_payment_values(outs),
    ensures
        (vals.len() > 0 && spec_uih1(prevouts, vals)) <==> (prevouts.len() > 0 && exists|v: int|
            0 <= v < outs.len() && spec_pays(#[trigger] outs[v]) && forall|j: int|
                0 <= j < prevouts.len() ==> outs[v].value < (#[trigger] prevouts[j]).value),
{
    lemma_payment_values_members(outs);
    assert forall|o: TxOutput| spec_pays(o) == spec_is_payment(o) by {}
    if vals.len() > 0 && spec_uih1(prevouts, vals) {
        assert(prevouts[0].value >= 0);
        assert forall|i: int|
            #![trigger vals[i]]
            0 <= i < vals.len() && (forall|j: int|
                0 <= j < prevouts.len() ==> vals[i] < (#[trigger] prevouts[j]).value) implies exists|
            v: int,
        |
            0 <= v < outs.len() && spec_pays(#[trigger] outs[v]) && forall|j: int|
                0 <= j < prevouts.len() ==> outs[v].value < (#[trigger] prevouts[j]).value by {
            assert(spec_paid_amount(outs, vals[i]));
            let u = choose|u: int|
                0 <= u < outs.len() && spec_is_payment(#[trigger] outs[u]) && outs[u].value == vals[i];
            assert(spec_pays(outs[u]));
        }
    }
    if prevouts.len() > 0 && exists|v: int|
        0 <= v < outs.len() && spec_pays(#[trigger] outs[v]) && forall|j: int|
            0 <= j < prevouts.len() ==> outs[v].value < (#[trigger] prevouts[j]).value {
        let v = choose|v: int|
            0 <= v < outs.len() && spec_pays(#[trigger] outs[v]) && forall|j: int|
                0 <= j < prevouts.len() ==> outs[v].value < (#[trigger] prevouts[j]).value;
        assert(spec_is_payment(outs[v]));
        assert(vals.contains(outs[v].value));
        let i = choose|i: int| 0 <= i < vals.len() && vals[i] == outs[v].value;
        assert(spec_uih1(prevouts, vals));
    }
}

proof fn lemma_uih2_direct(outs: Seq<TxOutput>, prevouts: Seq<TxOutput>, vals: Seq<u64>)
    requires
        vals == spec_payment_values(outs),
    ensures
        (prevouts.len() > 0 && spec_uih2(prevouts, vals)) <==> (prevouts.len() > 0 && (exists|v: int|
            0 <= v < outs.len() && spec_pays(#[trigger] outs[v])) && exists|j: int|
            0 <= j < prevouts.len() && forall|v: int|
                0 <= v < outs.len() && spec_pays(#[trigger] outs[v])
                    ==> (#[trigger] prevouts[j]).value > outs[v].value),
{
    lemma_payment_values_members(outs);
    assert forall|o: TxOutput| spec_pays(o) == spec_is_payment(o) by {}
    // There is a paying output exactly when there is a payment amount.
    if vals.len() > 0 {
        assert(spec_paid_amount(outs, vals[0]));
        let u = choose|u: int|
            0 <= u < outs.len() && spec_is_payment(#[trigger] outs[u]) && outs[u].value == vals[0];
        assert(spec_pays(outs[u]));
    }
    if exists|v: int| 0 <= v < outs.len() && spec_pays(#[trigger] outs[v]) {
        let v = choose|v: int| 0 <= v < outs.len() && spec_pays(#[trigger] outs[v]);
        assert(spec_is_payment(outs[v]));
        assert(vals.contains(outs[v].value));
    }
    // An input amount is above every payment amount exactly when it is above
    // every paying output.
    assert forall|j: int| #![trigger prevouts[j]] 0 <= j < prevouts.len() implies ((forall|i: int|
        0 <= i < vals.len() ==> prevouts[j].value > #[trigger] vals[i]) <==> (forall|v: int|
        0 <= v < outs.len() && spec_pays(#[trigger] outs[v]) ==> prevouts[j].value
            > outs[v].value)) by {
        if forall|i: int| 0 <= i < vals.len() ==> prevouts[j].value > #[trigger] vals[i] {
            assert forall|v: int| 0 <= v < outs.len() && spec_pays(#[trigger] outs[v]) implies prevouts[j].value
                > outs[v].value by {
                assert(spec_is_payment(outs[v]));
                assert(vals.contains(outs[v].value));
                let i = choose|i: int| 0 <= i < vals.len() && vals[i] == outs[v].value;
            }
        }
        if forall|v: int|
            0 <= v < outs.len() && spec_pays(#[trigger] outs[v]) ==> prevouts[j].value
                > outs[v].value {
            assert forall|i: int| 0 <= i < vals.len() implies prevouts[j].value > #[trigger] vals[i] by {
                assert(spec_paid_amount(outs, vals[i]));
                let u = choose|u: int|
                    0 <= u < outs.len() && spec_is_payment(#[trigger] outs[u]) && outs[u].value
                        == vals[i];
                assert(spec_pays(outs[u]));
            }
        }
    }
}

} // verus!

//! Change-output assignment heuristics.
//!
//! Several weak signals are combined. When none fire, `no_change_apparent` is set,
//! which is useful for distribution statistics of payment-only shaped
//! transactions.

use vstd::prelude::*;

use crate::fingerprints::{FingerprintFeatures, InputFingerprints};
use crate::heuristics::{lemma_first_min_exists, spec_pays};
use crate::tx::{spec_is_coinbase, spec_is_op_return, TxData, TxOutput};
use crate::types::{ChangeHeuristic, RawOutputType};

verus! {

#[derive(Debug)]
pub struct ChangeCandidate {
    pub vout: usize,
    pub value_sat: u64,
    pub heuristics: Vec<ChangeHeuristic>,
}

#[derive(Debug)]
pub struct ChangeAnalysis {
    /// Best-effort change vouts, ascending. Empty when nothing looks like change.
    pub candidates: Vec<ChangeCandidate>,
    /// True when no heuristic assigned change.
    pub no_change_apparent: bool,
    pub address_reuse: bool,
    pub uih1_optimal_change: bool,
}

/// A payment output is any output that is not an OP_RETURN.
pub open spec fn spec_is_payment(o: TxOutput) -> bool {
    !spec_is_op_return(o.script_pubkey@)
}

/// The outputs hold at least two payment outputs.
pub open spec fn spec_has_two_payments(outs: Seq<TxOutput>) -> bool {
    exists|a: int, b: int|
        0 <= a < b < outs.len() && spec_is_payment(#[trigger] outs[a]) && spec_is_payment(
            #[trigger] outs[b],
        )
}

/// The heuristics apply to non-coinbase transactions with at least two payment
/// outputs.
pub open spec fn spec_change_applies(tx: &TxData) -> bool {
    !spec_is_coinbase(tx@) && spec_has_two_payments(tx.outputs@)
}

/// Some prevout carries exactly the given locking script.
pub open spec fn spec_script_spent(prevouts: Seq<TxOutput>, script: Seq<u8>) -> bool {
    exists|j: int| 0 <= j < prevouts.len() && (#[trigger] prevouts[j]).script_pubkey@ == script
}

/// Address reuse: the transaction reuses an address, and payment output `v` pays
/// to a script that one of its inputs spends.
pub open spec fn spec_reuse_signal(
    outs: Seq<TxOutput>,
    prevouts: Seq<TxOutput>,
    address_reuse: bool,
    v: int,
) -> bool {
    &&& address_reuse
    &&& 0 <= v < outs.len()
    &&& spec_is_payment(outs[v])
    &&& spec_script_spent(prevouts, outs[v].script_pubkey@)
}

/// Output `v` is the first of the smallest payment outputs.
pub open spec fn spec_first_min_payment(outs: Seq<TxOutput>, v: int) -> bool {
    &&& 0 <= v < outs.len()
    &&& spec_is_payment(outs[v])
    &&& forall|u: int|
        0 <= u < outs.len() && spec_is_payment(#[trigger] outs[u]) ==> outs[v].value
            <= outs[u].value
    &&& forall|u: int| 0 <= u < v && spec_is_payment(#[trigger] outs[u]) ==> outs[u].value > outs[v].value
}

/// Optimal change (UIH1): the first smallest payment output is smaller than every
/// input.
pub open spec fn spec_optimal_signal(outs: Seq<TxOutput>, prevouts: Seq<TxOutput>, v: int) -> bool {
    &&& spec_first_min_payment(outs, v)
    &&& prevouts.len() > 0
    &&& forall|j: int| 0 <= j < prevouts.len() ==> outs[v].value < (#[trigger] prevouts[j]).value
}

/// All inputs have the same prevout script type (and there is at least one).
pub open spec fn spec_uniform_input_type(inputs: Seq<InputFingerprints>) -> bool {
    &&& inputs.len() > 0
    &&& forall|k: int| 0 <= k < inputs.len() ==> (#[trigger] inputs[k]).input_type == inputs[0].input_type
}

/// The script type of an output.
pub open spec fn spec_output_type(o: TxOutput) -> RawOutputType {
    RawOutputType::spec_from_script(o.script_pubkey@)
}

/// Script type match: the inputs share one script type and payment output `v` is
/// the only payment output of that type.
pub open spec fn spec_type_match_signal(
    outs: Seq<TxOutput>,
    inputs: Seq<InputFingerprints>,
    v: int,
) -> bool {
    &&& spec_uniform_input_type(inputs)
    &&& 0 <= v < outs.len()
    &&& spec_is_payment(outs[v])
    &&& spec_output_type(outs[v]) == inputs[0].input_type
    &&& forall|u: int|
        0 <= u < outs.len() && u != v && spec_is_payment(#[trigger] outs[u]) ==> spec_output_type(
            outs[u],
        ) != inputs[0].input_type
}

pub open spec fn spec_flag(b: bool, h: ChangeHeuristic) -> Seq<ChangeHeuristic> {
    if b {
        seq![h]
    } else {
        seq![]
    }
}

/// The heuristics that mark output `v` as change, in the order they are tried:
/// address reuse, optimal change, script type match.
pub open spec fn spec_change_heuristics(
    tx: &TxData,
    prevouts: Seq<TxOutput>,
    fp: &FingerprintFeatures,
    v: int,
) -> Seq<ChangeHeuristic> {
    spec_heuristics_before_type_match(tx, prevouts, fp, v) + spec_flag(
        spec_type_match_signal(tx.outputs@, fp.inputs@, v),
        ChangeHeuristic::ScriptTypeMatch,
    )
}

/// The address-reuse signal of output `v`, as a heuristic list.
pub open spec fn spec_reuse_heuristics(
    tx: &TxData,
    prevouts: Seq<TxOutput>,
    fp: &FingerprintFeatures,
    v: int,
) -> Seq<ChangeHeuristic> {
    spec_flag(
        spec_reuse_signal(tx.outputs@, prevouts, fp.transaction.address_reuse, v),
        ChangeHeuristic::AddressReuse,
    )
}

/// The address-reuse and optimal-change signals of output `v`.
pub open spec fn spec_heuristics_before_type_match(
    tx: &TxData,
    prevouts: Seq<TxOutput>,
    fp: &FingerprintFeatures,
    v: int,
) -> Seq<ChangeHeuristic> {
    spec_reuse_heuristics(tx, prevouts, fp, v) + spec_flag(
        spec_optimal_signal(tx.outputs@, prevouts, v),
        ChangeHeuristic::OptimalChange,
    )
}

/// `heuristics` with `h` appended, unless it already holds `h`.
pub open spec fn spec_add_once(
    heuristics: Seq<ChangeHeuristic>,
    h: ChangeHeuristic,
) -> Seq<ChangeHeuristic> {
    if heuristics.contains(h) {
        heuristics
    } else {
        heuristics.push(h)
    }
}

/// Entry `j` is the first whose vout is `vout`.
pub open spec fn spec_is_first_with_vout(
    scores: Seq<(usize, Vec<ChangeHeuristic>)>,
    vout: usize,
    j: int,
) -> bool {
    &&& 0 <= j < scores.len()
    &&& scores[j].0 == vout
    &&& forall|i: int| 0 <= i < j ==> (#[trigger] scores[i]).0 != vout
}

fn copy_heuristics(v: &Vec<ChangeHeuristic>) -> (r: Vec<ChangeHeuristic>)
    ensures
        r@ == v@,
{
    let mut r: Vec<ChangeHeuristic> = Vec::new();
    let mut k: usize = 0;
    while k < v.len()
        invariant
            k <= v@.len(),
            r@ == v@.take(k as int),
        decreases v@.len() - k,
    {
        r.push(v[k]);
        k = k + 1;
        assert(r@ =~= v@.take(k as int));
    }
    assert(v@.take(v@.len() as int) =~= v@);
    r
}

/// Record heuristic `heuristic` on the first entry for `vout`, once.
pub fn push_heuristic(
    scores: &mut [(usize, Vec<ChangeHeuristic>)],
    vout: usize,
    heuristic: ChangeHeuristic,
)
    ensures
        final(scores)@.len() == old(scores)@.len(),
        forall|j: int|
            0 <= j < old(scores)@.len() && !spec_is_first_with_vout(old(scores)@, vout, j)
                ==> final(scores)@[j] == old(scores)@[j],
        forall|j: int|
            spec_is_first_with_vout(old(scores)@, vout, j) ==> final(scores)@[j].0 == vout
                && final(scores)@[j].1@ == spec_add_once(old(scores)@[j].1@, heuristic),
{
    let mut i: usize = 0;
    while i < scores.len()
        invariant
            i <= scores@.len(),
            scores@ == old(scores)@,
            forall|k: int| 0 <= k < i ==> (#[trigger] scores@[k]).0 != vout,
        decreases scores@.len() - i,
    {
        if scores[i].0 == vout {
            let hs = &scores[i].1;
            let mut found = false;
            let mut k: usize = 0;
            while k < hs.len()
                invariant
                    k <= hs@.len(),
                    found <==> exists|m: int| 0 <= m < k && hs@[m] == heuristic,
                decreases hs@.len() - k,
            {
                if hs[k] == heuristic {
                    found = true;
                }
                k = k + 1;
            }
            assert(found <==> hs@.contains(heuristic));
            if !found {
                let mut new_hs = copy_heuristics(hs);
                new_hs.push(heuristic);
                scores[i] = (vout, new_hs);
            }
            assert(spec_is_first_with_vout(old(scores)@, vout, i as int));
            return;
        }
        i = i + 1;
    }
}

/// `payment` lists, ascending, exactly the payment outputs among `outs`.
pub open spec fn spec_payment_list(outs: Seq<TxOutput>, payment: Seq<usize>) -> bool {
    &&& forall|k: int|
        0 <= k < payment.len() ==> (#[trigger] payment[k]) < outs.len() && spec_is_payment(
            outs[payment[k] as int],
        )
    &&& forall|k1: int, k2: int|
        0 <= k1 < k2 < payment.len() ==> (#[trigger] payment[k1]) < (#[trigger] payment[k2])
    &&& forall|v: int|
        0 <= v < outs.len() && spec_is_payment(#[trigger] outs[v]) ==> exists|k: int|
            0 <= k < payment.len() && payment[k] == v
}

/// Entry `k` of `scores` is `(payment[k], f(payment[k]))`.
pub open spec fn spec_scores_match(
    scores: Seq<(usize, Vec<ChangeHeuristic>)>,
    payment: Seq<usize>,
    f: spec_fn(int) -> Seq<ChangeHeuristic>,
) -> bool {
    &&& scores.len() == payment.len()
    &&& forall|k: int|
        0 <= k < payment.len() ==> (#[trigger] scores[k]).0 == payment[k] && scores[k].1@ == f(
            payment[k] as int,
        )
}

proof fn lemma_first_entry(scores: Seq<(usize, Vec<ChangeHeuristic>)>, payment: Seq<usize>, k: int)
    requires
        scores.len() == payment.len(),
        forall|i: int| 0 <= i < payment.len() ==> (#[trigger] scores[i]).0 == payment[i],
        forall|k1: int, k2: int|
            0 <= k1 < k2 < payment.len() ==> (#[trigger] payment[k1]) < (#[trigger] payment[k2]),
        0 <= k < payment.len(),
    ensures
        spec_is_first_with_vout(scores, payment[k], k),
        forall|j: int| 0 <= j < scores.len() && j != k ==> !spec_is_first_with_vout(scores, payment[k], j),
{
    assert forall|i: int| 0 <= i < k implies (#[trigger] scores[i]).0 != payment[k] by {
        assert(payment[i] < payment[k]);
    }
    assert forall|j: int| 0 <= j < scores.len() && j != k implies !spec_is_first_with_vout(
        scores,
        payment[k],
        j,
    ) by {
        if j < k {
            assert(payment[j] < payment[k]);
        } else {
            assert(payment[k] < payment[j]);
        }
    }
}

/// The ascending indices of the payment outputs.
fn payment_vouts(outs: &Vec<TxOutput>) -> (p: Vec<usize>)
    ensures
        spec_payment_list(outs@, p@),
{
    let mut p: Vec<usize> = Vec::new();
    let mut i: usize = 0;
    while i < outs.len()
        invariant
            i <= outs@.len(),
            forall|k: int| 0 <= k < p@.len() ==> (#[trigger] p@[k]) < i && spec_is_payment(outs@[p@[k] as int]),
            forall|k1: int, k2: int| 0 <= k1 < k2 < p@.len() ==> (#[trigger] p@[k1]) < (#[trigger] p@[k2]),
            forall|v: int|
                0 <= v < i && spec_is_payment(#[trigger] outs@[v]) ==> exists|k: int|
                    0 <= k < p@.len() && p@[k] == v,
        decreases outs@.len() - i,
    {
        if !outs[i].is_op_return() {
            let ghost old_p = p@;
            p.push(i);
            assert forall|v: int|
                0 <= v < i + 1 && spec_is_payment(#[trigger] outs@[v]) implies exists|k: int|
                0 <= k < p@.len() && p@[k] == v by {
                if v < i {
                    let k = choose|k: int| 0 <= k < old_p.len() && old_p[k] == v;
                    assert(p@[k] == v);
                } else {
                    assert(p@[p@.len() - 1] == v);
                }
            }
        }
        i = i + 1;
    }
    p
}

/// There are at least two payment outputs exactly when the payment list has two
/// entries.
proof fn lemma_two_payments(outs: Seq<TxOutput>, payment: Seq<usize>)
    requires
        spec_payment_list(outs, payment),
    ensures
        spec_has_two_payments(outs) <==> payment.len() >= 2,
{
    if payment.len() >= 2 {
        assert(payment[0] < payment[1]);
        let a = payment[0] as int;
        let b = payment[1] as int;
        assert(spec_is_payment(outs[a]) && spec_is_payment(outs[b]));
    }
    if spec_has_two_payments(outs) {
        let (a, b) = choose|a: int, b: int|
            0 <= a < b < outs.len() && spec_is_payment(#[trigger] outs[a]) && spec_is_payment(
                #[trigger] outs[b],
            );
        let ka = choose|k: int| 0 <= k < payment.len() && payment[k] == a;
        let kb = choose|k: int| 0 <= k < payment.len() && payment[k] == b;
        assert(ka != kb);
    }
}

/// Does some prevout carry exactly this locking script?
fn script_spent(prevouts: &[TxOutput], script: &Vec<u8>) -> (r: bool)
    ensures
        r == spec_script_spent(prevouts@, script@),
{
    let mut j: usize = 0;
    while j < prevouts.len()
        invariant
            j <= prevouts@.len(),
            forall|i: int| 0 <= i < j ==> (#[trigger] prevouts@[i]).script_pubkey@ != script@,
        decreases prevouts@.len() - j,
    {
        if crate::tx::bytes_eq(prevouts[j].script_pubkey.as_slice(), script.as_slice()) {
            return true;
        }
        j = j + 1;
    }
    false
}

/// The smallest prevout amount, if there is any prevout.
fn min_prevout_value(prevouts: &[TxOutput]) -> (r: Option<u64>)
    ensures
        r is None <==> prevouts@.len() == 0,
        r matches Some(m) ==> (forall|j: int| 0 <= j < prevouts@.len() ==> m <= (#[trigger] prevouts@[j]).value)
            && exists|j: int| 0 <= j < prevouts@.len() && prevouts@[j].value == m,
{
    if prevouts.len() == 0 {
        return None;
    }
    let mut m = prevouts[0].value;
    let mut j: usize = 1;
    while j < prevouts.len()
        invariant
            1 <= j <= prevouts@.len(),
            forall|i: int| 0 <= i < j ==> m <= (#[trigger] prevouts@[i]).value,
            exists|i: int| 0 <= i < prevouts@.len() && prevouts@[i].value == m,
        decreases prevouts@.len() - j,
    {
        if prevouts[j].value < m {
            m = prevouts[j].value;
        }
        j = j + 1;
    }
    Some(m)
}

/// Position in `payment` of the first smallest payment output.
fn first_min_payment(outs: &Vec<TxOutput>, payment: &Vec<usize>) -> (r: usize)
    requires
        spec_payment_list(outs@, payment@),
        payment@.len() > 0,
    ensures
        r < payment@.len(),
        spec_first_min_payment(outs@, payment@[r as int] as int),
{
    let mut best: usize = 0;
    let mut k: usize = 1;
    while k < payment.len()
        invariant
            spec_payment_list(outs@, payment@),
            1 <= k <= payment@.len(),
            best < k,
            forall|i: int| 0 <= i < k ==> outs@[payment@[best as int] as int].value <= outs@[(#[trigger] payment@[i]) as int].value,
            forall|i: int| 0 <= i < best ==> outs@[(#[trigger] payment@[i]) as int].value > outs@[payment@[best as int] as int].value,
        decreases payment@.len() - k,
    {
        if outs[payment[k]].value < outs[payment[best]].value {
            best = k;
        }
        k = k + 1;
    }
    let ghost v = payment@[best as int] as int;
    assert forall|u: int| 0 <= u < outs@.len() && spec_is_payment(#[trigger] outs@[u]) implies outs@[v].value <= outs@[u].value by {
        let i = choose|i: int| 0 <= i < payment@.len() && payment@[i] == u;
        assert(outs@[payment@[i] as int].value >= outs@[v].value);
    }
    assert forall|u: int| 0 <= u < v && spec_is_payment(#[trigger] outs@[u]) implies outs@[u].value > outs@[v].value by {
        let i = choose|i: int| 0 <= i < payment@.len() && payment@[i] == u;
        if i >= best {
            if i == best {
            } else {
                assert(payment@[best as int] < payment@[i]);
            }
        }
    }
    best
}

proof fn lemma_first_min_unique(outs: Seq<TxOutput>, u: int, v: int)
    requires
        spec_first_min_payment(outs, u),
        spec_first_min_payment(outs, v),
    ensures
        u == v,
{
    assert(outs[u].value <= outs[v].value);
    assert(outs[v].value <= outs[u].value);
    if u < v {
        assert(outs[u].value > outs[v].value);
    } else if v < u {
        assert(outs[v].value > outs[u].value);
    }
}

/// The shared prevout script type of the inputs, if there are inputs and they
/// all share one.
fn uniform_input_type(inputs: &Vec<InputFingerprints>) -> (r: Option<RawOutputType>)
    ensures
        r is Some <==> spec_uniform_input_type(inputs@),
        r matches Some(t) ==> t == inputs@[0].input_type,
{
    if inputs.len() == 0 {
        return None;
    }
    let t = inputs[0].input_type;
    let mut k: usize = 1;
    while k < inputs.len()
        invariant
            1 <= k <= inputs@.len(),
            t == inputs@[0].input_type,
            forall|i: int| 0 <= i < k ==> (#[trigger] inputs@[i]).input_type == t,
        decreases inputs@.len() - k,
    {
        if inputs[k].input_type != t {
            return None;
        }
        k = k + 1;
    }
    Some(t)
}

/// Position in `payment` of the only payment output of script type `t`, if
/// exactly one has that type.
fn unique_type_match(outs: &Vec<TxOutput>, payment: &Vec<usize>, t: RawOutputType) -> (r: Option<
    usize,
>)
    requires
        spec_payment_list(outs@, payment@),
    ensures
        r matches Some(k) ==> k < payment@.len() && spec_output_type(outs@[payment@[k as int] as int]) == t
            && forall|u: int|
            0 <= u < outs@.len() && u != payment@[k as int] && spec_is_payment(#[trigger] outs@[u])
                ==> spec_output_type(outs@[u]) != t,
        r is None ==> forall|v: int|
            0 <= v < outs@.len() && spec_is_payment(#[trigger] outs@[v]) && spec_output_type(outs@[v]) == t
                ==> exists|u: int|
                0 <= u < outs@.len() && u != v && spec_is_payment(outs@[u]) && spec_output_type(outs@[u]) == t,
{
    let mut count: usize = 0;
    let mut first: usize = 0;
    let mut k: usize = 0;
    while k < payment.len()
        invariant
            spec_payment_list(outs@, payment@),
            k <= payment@.len(),
            count <= k,
            count == 0 ==> forall|i: int| 0 <= i < k ==> spec_output_type(outs@[(#[trigger] payment@[i]) as int]) != t,
            count >= 1 ==> first < k && spec_output_type(outs@[payment@[first as int] as int]) == t,
            count == 1 ==> forall|i: int| 0 <= i < k && i != first ==> spec_output_type(outs@[(#[trigger] payment@[i]) as int]) != t,
            count >= 2 ==> exists|i: int| 0 <= i < k && i != first && spec_output_type(outs@[(#[trigger] payment@[i]) as int]) == t,
        decreases payment@.len() - k,
    {
        if RawOutputType::from_txout(&outs[payment[k]]) == t {
            if count == 0 {
                first = k;
            } else {
                assert(spec_output_type(outs@[payment@[k as int] as int]) == t);
            }
            count = count + 1;
        }
        k = k + 1;
    }
    if count == 1 {
        let ghost m = payment@[first as int] as int;
        assert forall|u: int|
            0 <= u < outs@.len() && u != m && spec_is_payment(#[trigger] outs@[u]) implies spec_output_type(outs@[u]) != t by {
            let i = choose|i: int| 0 <= i < payment@.len() && payment@[i] == u;
            assert(i != first);
        }
        Some(first)
    } else {
        assert forall|v: int|
            0 <= v < outs@.len() && spec_is_payment(#[trigger] outs@[v]) && spec_output_type(outs@[v]) == t
            implies exists|u: int|
            0 <= u < outs@.len() && u != v && spec_is_payment(outs@[u]) && spec_output_type(outs@[u]) == t by {
            let iv = choose|i: int| 0 <= i < payment@.len() && payment@[i] == v;
            if count == 0 {
                assert(spec_output_type(outs@[payment@[iv] as int]) != t);
            } else {
                let i2 = choose|i: int| 0 <= i < payment@.len() && i != first && spec_output_type(outs@[(#[trigger] payment@[i]) as int]) == t;
                if payment@[first as int] == v {
                    let u = payment@[i2] as int;
                    assert(payment@[i2] != payment@[first as int]) by {
                        if i2 < first {
                            assert(payment@[i2] < payment@[first as int]);
                        } else {
                            assert(payment@[first as int] < payment@[i2]);
                        }
                    }
                    assert(spec_is_payment(outs@[u]));
                } else {
                    let u = payment@[first as int] as int;
                    assert(spec_is_payment(outs@[u]));
                }
            }
        }
        None
    }
}

/// Address reuse: mark every payment output that pays to a script an input spends.
fn mark_address_reuse(
    scores: &mut Vec<(usize, Vec<ChangeHeuristic>)>,
    payment: &Vec<usize>,
    tx: &TxData,
    prevouts: &[TxOutput],
    fingerprints: &FingerprintFeatures,
)
    requires
        spec_payment_list(tx.outputs@, payment@),
        spec_scores_match(old(scores)@, payment@, |v: int| Seq::<ChangeHeuristic>::empty()),
    ensures
        spec_scores_match(
            final(scores)@,
            payment@,
            |v: int| spec_reuse_heuristics(tx, prevouts@, fingerprints, v),
        ),
{
    let ghost h1 = |v: int| spec_reuse_heuristics(tx, prevouts@, fingerprints, v);
    let address_reuse = fingerprints.transaction.address_reuse;
    let mut k: usize = 0;
    while k < payment.len()
        invariant
            spec_payment_list(tx.outputs@, payment@),
            h1 == (|v: int| spec_reuse_heuristics(tx, prevouts@, fingerprints, v)),
            address_reuse == fingerprints.transaction.address_reuse,
            k <= payment@.len(),
            scores@.len() == payment@.len(),
            forall|i: int| 0 <= i < payment@.len() ==> (#[trigger] scores@[i]).0 == payment@[i],
            forall|i: int| 0 <= i < k ==> (#[trigger] scores@[i]).1@ == h1(payment@[i] as int),
            forall|i: int|
                k <= i < payment@.len() ==> (#[trigger] scores@[i]).1@ == Seq::<
                    ChangeHeuristic,
                >::empty(),
        decreases payment@.len() - k,
    {
        let v = payment[k];
        let spent = address_reuse && script_spent(prevouts, &tx.outputs[v].script_pubkey);
        if spent {
            proof {
                lemma_first_entry(scores@, payment@, k as int);
            }
            push_heuristic(scores.as_mut_slice(), v, ChangeHeuristic::AddressReuse);
            assert(scores@[k as int].1@ =~= seq![ChangeHeuristic::AddressReuse]);
        } else {
            assert(h1(v as int) =~= Seq::<ChangeHeuristic>::empty());
        }
        k = k + 1;
    }
}

/// Optimal change: mark the first smallest payment output when it is below every
/// input. Returns whether it marked one.
fn mark_optimal_change(
    scores: &mut Vec<(usize, Vec<ChangeHeuristic>)>,
    payment: &Vec<usize>,
    tx: &TxData,
    prevouts: &[TxOutput],
    fingerprints: &FingerprintFeatures,
) -> (uih1: bool)
    requires
        spec_payment_list(tx.outputs@, payment@),
        payment@.len() > 0,
        spec_scores_match(
            old(scores)@,
            payment@,
            |v: int| spec_reuse_heuristics(tx, prevouts@, fingerprints, v),
        ),
    ensures
        spec_scores_match(
            final(scores)@,
            payment@,
            |v: int| spec_heuristics_before_type_match(tx, prevouts@, fingerprints, v),
        ),
        uih1 == exists|v: int| spec_optimal_signal(tx.outputs@, prevouts@, v),
{
    let ghost outs = tx.outputs@;
    let ghost h1 = |v: int| spec_reuse_heuristics(tx, prevouts@, fingerprints, v);
    let ghost h2 = |v: int| spec_heuristics_before_type_match(tx, prevouts@, fingerprints, v);
    let min_in = min_prevout_value(prevouts);
    let kmin = first_min_payment(&tx.outputs, payment);
    let vmin = payment[kmin];
    let uih1 = match min_in {
        Some(m) => tx.outputs[vmin].value < m,
        None => false,
    };
    proof {
        assert forall|u: int| #[trigger]
            spec_optimal_signal(outs, prevouts@, u) <==> (uih1 && u == vmin as int) by {
            if spec_optimal_signal(outs, prevouts@, u) {
                lemma_first_min_unique(outs, u, vmin as int);
                let m = min_in.unwrap();
                let j0 = choose|j: int| 0 <= j < prevouts@.len() && prevouts@[j].value == m;
                assert(outs[u].value < prevouts@[j0].value);
            }
        }
        if uih1 {
            assert(spec_optimal_signal(outs, prevouts@, vmin as int));
        }
    }
    if uih1 {
        proof {
            lemma_first_entry(scores@, payment@, kmin as int);
        }
        push_heuristic(scores.as_mut_slice(), vmin, ChangeHeuristic::OptimalChange);
    }
    proof {
        assert forall|i: int| 0 <= i < payment@.len() implies (#[trigger] scores@[i]).0
            == payment@[i] && scores@[i].1@ == h2(payment@[i] as int) by {
            let u = payment@[i] as int;
            if uih1 && u == vmin as int {
                if i != kmin {
                    if i < kmin {
                        assert(payment@[i] < payment@[kmin as int]);
                    } else {
                        assert(payment@[kmin as int] < payment@[i]);
                    }
                }
                assert(!h1(u).contains(ChangeHeuristic::OptimalChange));
                assert(scores@[i].1@ =~= h2(u));
            } else {
                assert(scores@[i].1@ =~= h2(u));
            }
        }
    }
    uih1
}

/// Script type match: mark the only payment output of the inputs' shared type.
fn mark_type_match(
    scores: &mut Vec<(usize, Vec<ChangeHeuristic>)>,
    payment: &Vec<usize>,
    tx: &TxData,
    prevouts: &[TxOutput],
    fingerprints: &FingerprintFeatures,
)
    requires
        spec_payment_list(tx.outputs@, payment@),
        spec_scores_match(
            old(scores)@,
            payment@,
            |v: int| spec_heuristics_before_type_match(tx, prevouts@, fingerprints, v),
        ),
    ensures
        spec_scores_match(
            final(scores)@,
            payment@,
            |v: int| spec_change_heuristics(tx, prevouts@, fingerprints, v),
        ),
{
    let ghost outs = tx.outputs@;
    let ghost h2 = |v: int| spec_heuristics_before_type_match(tx, prevouts@, fingerprints, v);
    let ghost h3 = |v: int| spec_change_heuristics(tx, prevouts@, fingerprints, v);
    let mut matched: Option<usize> = None;
    match uniform_input_type(&fingerprints.inputs) {
        Some(t) => {
            matched = unique_type_match(&tx.outputs, payment, t);
        },
        None => {},
    }
    proof {
        assert forall|u: int| 0 <= u < outs.len() implies #[trigger] spec_type_match_signal(
            outs,
            fingerprints.inputs@,
            u,
        ) <==> (matched matches Some(km) && u == payment@[km as int]) by {
            if spec_type_match_signal(outs, fingerprints.inputs@, u) {
                if matched is None && spec_uniform_input_type(fingerprints.inputs@) {
                    let w = choose|w: int|
                        0 <= w < outs.len() && w != u && spec_is_payment(outs[w]) && spec_output_type(
                            outs[w],
                        ) == fingerprints.inputs@[0].input_type;
                    assert(spec_output_type(outs[w]) != fingerprints.inputs@[0].input_type);
                }
                if let Some(km) = matched {
                    if u != payment@[km as int] {
                        assert(spec_is_payment(outs[payment@[km as int] as int]));
                    }
                }
            }
        }
    }
    match matched {
        Some(km) => {
            proof {
                lemma_first_entry(scores@, payment@, km as int);
            }
            push_heuristic(scores.as_mut_slice(), payment[km], ChangeHeuristic::ScriptTypeMatch);
        },
        None => {},
    }
    proof {
        assert forall|i: int| 0 <= i < payment@.len() implies (#[trigger] scores@[i]).0
            == payment@[i] && scores@[i].1@ == h3(payment@[i] as int) by {
            let u = payment@[i] as int;
            if let Some(km) = matched {
                if u == payment@[km as int] {
                    if i != km {
                        if i < km {
                            assert(payment@[i] < payment@[km as int]);
                        } else {
                            assert(payment@[km as int] < payment@[i]);
                        }
                    }
                    assert(!h2(u).contains(ChangeHeuristic::ScriptTypeMatch));
                }
            }
            assert(scores@[i].1@ =~= h3(u));
        }
    }
}

/// The payment outputs with at least one heuristic, ascending by vout.
fn collect_candidates(
    scores: &Vec<(usize, Vec<ChangeHeuristic>)>,
    payment: &Vec<usize>,
    tx: &TxData,
    prevouts: &[TxOutput],
    fingerprints: &FingerprintFeatures,
) -> (candidates: Vec<ChangeCandidate>)
    requires
        spec_payment_list(tx.outputs@, payment@),
        spec_scores_match(
            scores@,
            payment@,
            |v: int| spec_change_heuristics(tx, prevouts@, fingerprints, v),
        ),
    ensures
        forall|k: int|
            0 <= k < candidates@.len() ==> {
                let c = #[trigger] candidates@[k];
                &&& c.vout < tx.outputs@.len()
                &&& c.value_sat == tx.outputs@[c.vout as int].value
                &&& c.heuristics@ == spec_change_heuristics(
                    tx,
                    prevouts@,
                    fingerprints,
                    c.vout as int,
                )
                &&& c.heuristics@.len() > 0
            },
        forall|k1: int, k2: int|
            0 <= k1 < k2 < candidates@.len() ==> (#[trigger] candidates@[k1]).vout
                < (#[trigger] candidates@[k2]).vout,
        forall|v: int|
            0 <= v < tx.outputs@.len() && spec_change_heuristics(
                tx,
                prevouts@,
                fingerprints,
                v,
            ).len() > 0 ==> exists|k: int|
                0 <= k < candidates@.len() && (#[trigger] candidates@[k]).vout == v,
{
    let ghost outs = tx.outputs@;
    let ghost h3 = |v: int| spec_change_heuristics(tx, prevouts@, fingerprints, v);
    let mut candidates: Vec<ChangeCandidate> = Vec::new();
    let ghost mut idx: Seq<int> = seq![];
    let mut k: usize = 0;
    while k < scores.len()
        invariant
            spec_payment_list(outs, payment@),
            outs == tx.outputs@,
            spec_scores_match(scores@, payment@, h3),
            h3 == (|v: int| spec_change_heuristics(tx, prevouts@, fingerprints, v)),
            k <= scores@.len(),
            idx.len() == candidates@.len(),
            forall|j: int| 0 <= j < idx.len() ==> 0 <= #[trigger] idx[j] < k,
            forall|j1: int, j2: int|
                0 <= j1 < j2 < idx.len() ==> (#[trigger] idx[j1]) < (#[trigger] idx[j2]),
            forall|j: int|
                0 <= j < candidates@.len() ==> {
                    let c = #[trigger] candidates@[j];
                    &&& c.vout == payment@[idx[j]]
                    &&& c.value_sat == outs[c.vout as int].value
                    &&& c.heuristics@ == h3(c.vout as int)
                    &&& c.heuristics@.len() > 0
                },
            forall|i: int|
                0 <= i < k && (#[trigger] scores@[i]).1@.len() > 0 ==> exists|j: int|
                    0 <= j < idx.len() && idx[j] == i,
        decreases scores@.len() - k,
    {
        if scores[k].1.len() > 0 {
            let vout = scores[k].0;
            let ghost old_idx = idx;
            candidates.push(
                ChangeCandidate {
                    vout,
                    value_sat: tx.outputs[vout].value,
                    heuristics: copy_heuristics(&scores[k].1),
                },
            );
            proof {
                idx = idx.push(k as int);
                assert forall|i: int|
                    0 <= i < k + 1 && (#[trigger] scores@[i]).1@.len() > 0 implies exists|j: int|
                    0 <= j < idx.len() && idx[j] == i by {
                    if i < k {
                        let j = choose|j: int| 0 <= j < old_idx.len() && old_idx[j] == i;
                        assert(idx[j] == i);
                    } else {
                        assert(idx[idx.len() - 1] == i);
                    }
                }
            }
        }
        k = k + 1;
    }
    proof {
        assert forall|k1: int, k2: int|
            0 <= k1 < k2 < candidates@.len() implies (#[trigger] candidates@[k1]).vout
            < (#[trigger] candidates@[k2]).vout by {
            assert(idx[k1] < idx[k2]);
            assert(payment@[idx[k1]] < payment@[idx[k2]]);
        }
        assert forall|v: int|
            0 <= v < tx.outputs@.len() && spec_change_heuristics(
                tx,
                prevouts@,
                fingerprints,
                v,
            ).len() > 0 implies exists|j: int|
            0 <= j < candidates@.len() && (#[trigger] candidates@[j]).vout == v by {
            assert(spec_is_payment(outs[v]));
            let i = choose|i: int| 0 <= i < payment@.len() && payment@[i] == v;
            assert(scores@[i].1@.len() > 0);
            let j = choose|j: int| 0 <= j < idx.len() && idx[j] == i;
            assert(candidates@[j].vout == v);
        }
    }
    candidates
}

/// What [`analyze`] returns for a transaction, its prevouts and fingerprints.
pub open spec fn spec_change_result(
    r: &ChangeAnalysis,
    tx: &TxData,
    prevouts: Seq<TxOutput>,
    fingerprints: &FingerprintFeatures,
) -> bool {
    &&& (!spec_change_applies(tx) ==> {
        &&& r.candidates@.len() == 0
        &&& r.no_change_apparent
        &&& !r.uih1_optimal_change
        &&& r.address_reuse == (!spec_is_coinbase(tx@)
            && fingerprints.transaction.address_reuse)
    })
    &&& (spec_change_applies(tx) ==> r.address_reuse == fingerprints.transaction.address_reuse)
    &&& (spec_change_applies(tx) ==> (r.uih1_optimal_change <==> exists|v: int|
        spec_optimal_signal(tx.outputs@, prevouts, v)))
    &&& (spec_change_applies(tx) ==> forall|v: int|
        0 <= v < tx.outputs@.len() && spec_change_heuristics(tx, prevouts, fingerprints, v).len()
            > 0 ==> exists|k: int|
            0 <= k < r.candidates@.len() && (#[trigger] r.candidates@[k]).vout == v)
    &&& (forall|k: int|
        0 <= k < r.candidates@.len() ==> {
            let c = #[trigger] r.candidates@[k];
            &&& c.vout < tx.outputs@.len()
            &&& c.value_sat == tx.outputs@[c.vout as int].value
            &&& c.heuristics@ == spec_change_heuristics(
                tx,
                prevouts,
                fingerprints,
                c.vout as int,
            )
            &&& c.heuristics@.len() > 0
        })
    &&& (forall|k1: int, k2: int|
        0 <= k1 < k2 < r.candidates@.len() ==> (#[trigger] r.candidates@[k1]).vout
            < (#[trigger] r.candidates@[k2]).vout)
    &&& (r.no_change_apparent == (r.candidates@.len() == 0))
}

/// Assign likely change outputs.
///
/// For a coinbase, or a transaction with at most one payment output, no change is
/// apparent. Otherwise each payment output collects the heuristics that point at
/// it (see [`spec_change_heuristics`]); the candidates are the outputs with at
/// least one, in ascending vout order.
pub fn analyze(tx: &TxData, prevouts: &[TxOutput], fingerprints: &FingerprintFeatures) -> (r:
    ChangeAnalysis)
    ensures
        spec_change_result(&r, tx, prevouts@, fingerprints),
{
    if tx.is_coinbase() {
        return ChangeAnalysis {
            candidates: Vec::new(),
            no_change_apparent: true,
            address_reuse: false,
            uih1_optimal_change: false,
        };
    }
    let payment = payment_vouts(&tx.outputs);
    proof {
        lemma_two_payments(tx.outputs@, payment@);
    }
    if payment.len() <= 1 {
        return ChangeAnalysis {
            candidates: Vec::new(),
            no_change_apparent: true,
            address_reuse: fingerprints.transaction.address_reuse,
            uih1_optimal_change: false,
        };
    }
    let mut scores: Vec<(usize, Vec<ChangeHeuristic>)> = Vec::new();
    let mut k: usize = 0;
    while k < payment.len()
        invariant
            k <= payment@.len(),
            scores@.len() == k,
            forall|i: int|
                0 <= i < k ==> (#[trigger] scores@[i]).0 == payment@[i] && scores@[i].1@ == Seq::<
                    ChangeHeuristic,
                >::empty(),
        decreases payment@.len() - k,
    {
        scores.push((payment[k], Vec::new()));
        k = k + 1;
    }
    mark_address_reuse(&mut scores, &payment, tx, prevouts, fingerprints);
    let uih1_optimal_change = mark_optimal_change(&mut scores, &payment, tx, prevouts, fingerprints);
    mark_type_match(&mut scores, &payment, tx, prevouts, fingerprints);
    let candidates = collect_candidates(&scores, &payment, tx, prevouts, fingerprints);
    let no_change_apparent = candidates.len() == 0;
    let r = ChangeAnalysis {
        candidates,
        no_change_apparent,
        address_reuse: fingerprints.transaction.address_reuse,
        uih1_optimal_change,
    };
    assert forall|v: int|
        0 <= v < tx.outputs@.len() && spec_change_heuristics(tx, prevouts@, fingerprints, v).len()
            > 0 implies exists|k: int|
        0 <= k < r.candidates@.len() && (#[trigger] r.candidates@[k]).vout == v by {
        let k = choose|k: int| 0 <= k < candidates@.len() && (#[trigger] candidates@[k]).vout == v;
        assert(r.candidates@[k].vout == v);
    }
    r
}


/// Every change candidate is a payment output, and lists each of its heuristics
/// once.
pub proof fn lemma_candidates_are_payments(
    r: &ChangeAnalysis,
    tx: &TxData,
    prevouts: Seq<TxOutput>,
    fingerprints: &FingerprintFeatures,
)
    requires
        spec_change_result(r, tx, prevouts, fingerprints),
    ensures
        forall|k: int|
            0 <= k < r.candidates@.len() ==> spec_is_payment(
                tx.outputs@[(#[trigger] r.candidates@[k]).vout as int],
            ),
        forall|k: int, i: int, j: int|
            0 <= k < r.candidates@.len() && 0 <= i < j < r.candidates@[k].heuristics@.len()
                ==> (#[trigger] r.candidates@[k].heuristics@[i]) != (#[trigger] r.candidates@[k].heuristics@[j]),
{
    assert forall|k: int| 0 <= k < r.candidates@.len() implies spec_is_payment(
        tx.outputs@[(#[trigger] r.candidates@[k]).vout as int],
    ) by {
        let c = r.candidates@[k];
        let v = c.vout as int;
        if spec_reuse_signal(tx.outputs@, prevouts, fingerprints.transaction.address_reuse, v) {
        } else if spec_optimal_signal(tx.outputs@, prevouts, v) {
        } else if spec_type_match_signal(tx.outputs@, fingerprints.inputs@, v) {
        } else {
            assert(spec_change_heuristics(tx, prevouts, fingerprints, v).len() == 0);
        }
    }
    assert forall|k: int, i: int, j: int|
        0 <= k < r.candidates@.len() && 0 <= i < j < r.candidates@[k].heuristics@.len()
            implies (#[trigger] r.candidates@[k].heuristics@[i]) != (#[trigger] r.candidates@[k].heuristics@[j]) by {
        let c = r.candidates@[k];
        assert(c.heuristics@ == spec_change_heuristics(tx, prevouts, fingerprints, c.vout as int));
    }
}

/// The optimal-change flag is set exactly when some candidate is marked
/// `OptimalChange`, and at most one candidate is.
pub proof fn lemma_optimal_change_marked(
    r: &ChangeAnalysis,
    tx: &TxData,
    prevouts: Seq<TxOutput>,
    fingerprints: &FingerprintFeatures,
)
    requires
        spec_change_result(r, tx, prevouts, fingerprints),
    ensures
        r.uih1_optimal_change <==> exists|k: int|
            0 <= k < r.candidates@.len() && (#[trigger] r.candidates@[k]).heuristics@.contains(
                ChangeHeuristic::OptimalChange,
            ),
        forall|k1: int, k2: int|
            0 <= k1 < r.candidates@.len() && 0 <= k2 < r.candidates@.len()
                && (#[trigger] r.candidates@[k1]).heuristics@.contains(ChangeHeuristic::OptimalChange)
                && (#[trigger] r.candidates@[k2]).heuristics@.contains(ChangeHeuristic::OptimalChange)
                ==> k1 == k2,
{
    let outs = tx.outputs@;
    if r.uih1_optimal_change {
        let v = choose|v: int| spec_optimal_signal(outs, prevouts, v);
        let hs = spec_change_heuristics(tx, prevouts, fingerprints, v);
        let pre = spec_reuse_heuristics(tx, prevouts, fingerprints, v);
        assert(hs[pre.len() as int] == ChangeHeuristic::OptimalChange);
        assert(hs.contains(ChangeHeuristic::OptimalChange));
        let k = choose|k: int| 0 <= k < r.candidates@.len() && (#[trigger] r.candidates@[k]).vout == v;
        assert(r.candidates@[k].heuristics@.contains(ChangeHeuristic::OptimalChange));
    }
    assert forall|k: int|
        0 <= k < r.candidates@.len() && (#[trigger] r.candidates@[k]).heuristics@.contains(
            ChangeHeuristic::OptimalChange,
        ) implies spec_optimal_signal(outs, prevouts, r.candidates@[k].vout as int) by {
        let v = r.candidates@[k].vout as int;
        if !spec_optimal_signal(outs, prevouts, v) {
            let hs = spec_change_heuristics(tx, prevouts, fingerprints, v);
            assert forall|i: int| 0 <= i < hs.len() implies hs[i] != ChangeHeuristic::OptimalChange by {}
        }
    }
    if exists|k: int|
        0 <= k < r.candidates@.len() && (#[trigger] r.candidates@[k]).heuristics@.contains(
            ChangeHeuristic::OptimalChange,
        ) {
        let k = choose|k: int|
            0 <= k < r.candidates@.len() && (#[trigger] r.candidates@[k]).heuristics@.contains(
                ChangeHeuristic::OptimalChange,
            );
        assert(spec_optimal_signal(outs, prevouts, r.candidates@[k].vout as int));
        assert(spec_change_applies(tx));
    }
    assert forall|k1: int, k2: int|
        0 <= k1 < r.candidates@.len() && 0 <= k2 < r.candidates@.len()
            && (#[trigger] r.candidates@[k1]).heuristics@.contains(ChangeHeuristic::OptimalChange)
            && (#[trigger] r.candidates@[k2]).heuristics@.contains(ChangeHeuristic::OptimalChange)
            implies k1 == k2 by {
        lemma_first_min_unique(outs, r.candidates@[k1].vout as int, r.candidates@[k2].vout as int);
        if k1 < k2 {
        } else if k2 < k1 {
        }
    }
}

/// At most one candidate is marked `ScriptTypeMatch`.
pub proof fn lemma_type_match_unique(
    r: &ChangeAnalysis,
    tx: &TxData,
    prevouts: Seq<TxOutput>,
    fingerprints: &FingerprintFeatures,
)
    requires
        spec_change_result(r, tx, prevouts, fingerprints),
    ensures
        forall|k1: int, k2: int|
            0 <= k1 < r.candidates@.len() && 0 <= k2 < r.candidates@.len()
                && (#[trigger] r.candidates@[k1]).heuristics@.contains(ChangeHeuristic::ScriptTypeMatch)
                && (#[trigger] r.candidates@[k2]).heuristics@.contains(
                ChangeHeuristic::ScriptTypeMatch,
            ) ==> k1 == k2,
{
    let outs = tx.outputs@;
    assert forall|k: int|
        0 <= k < r.candidates@.len() && (#[trigger] r.candidates@[k]).heuristics@.contains(
            ChangeHeuristic::ScriptTypeMatch,
        ) implies spec_type_match_signal(outs, fingerprints.inputs@, r.candidates@[k].vout as int) by {
        let v = r.candidates@[k].vout as int;
        if !spec_type_match_signal(outs, fingerprints.inputs@, v) {
            let hs = spec_change_heuristics(tx, prevouts, fingerprints, v);
            assert forall|i: int| 0 <= i < hs.len() implies hs[i] != ChangeHeuristic::ScriptTypeMatch by {}
        }
    }
    assert forall|k1: int, k2: int|
        0 <= k1 < r.candidates@.len() && 0 <= k2 < r.candidates@.len()
            && (#[trigger] r.candidates@[k1]).heuristics@.contains(ChangeHeuristic::ScriptTypeMatch)
            && (#[trigger] r.candidates@[k2]).heuristics@.contains(ChangeHeuristic::ScriptTypeMatch)
            implies k1 == k2 by {
        let v1 = r.candidates@[k1].vout as int;
        let v2 = r.candidates@[k2].vout as int;
        assert(spec_type_match_signal(outs, fingerprints.inputs@, v1));
        assert(spec_type_match_signal(outs, fingerprints.inputs@, v2));
        if v1 != v2 {
            assert(spec_output_type(outs[v2]) != fingerprints.inputs@[0].input_type);
        }
        if k1 < k2 {
        } else if k2 < k1 {
        }
    }
}

/// Optimal change compares against every input: the flag is set exactly when the
/// change heuristics apply and some paying output is below every input amount,
/// and a candidate marked `OptimalChange` is a smallest paying output that is
/// below every input amount.
pub proof fn lemma_optimal_change_below_every_input(
    r: &ChangeAnalysis,
    tx: &TxData,
    prevouts: Seq<TxOutput>,
    fingerprints: &FingerprintFeatures,
)
    requires
        spec_change_result(r, tx, prevouts, fingerprints),
    ensures
        r.uih1_optimal_change <==> (spec_change_applies(tx) && prevouts.len() > 0 && exists|v: int|
            0 <= v < tx.outputs@.len() && spec_pays(#[trigger] tx.outputs@[v]) && forall|j: int|
                0 <= j < prevouts.len() ==> tx.outputs@[v].value < (#[trigger] prevouts[j]).value),
        forall|k: int|
            0 <= k < r.candidates@.len() && (#[trigger] r.candidates@[k]).heuristics@.contains(
                ChangeHeuristic::OptimalChange,
            ) ==> {
                let v = r.candidates@[k].vout as int;
                &&& prevouts.len() > 0
                &&& forall|j: int|
                    0 <= j < prevouts.len() ==> tx.outputs@[v].value < (#[trigger] prevouts[j]).value
                &&& forall|u: int|
                    0 <= u < tx.outputs@.len() && spec_pays(#[trigger] tx.outputs@[u])
                        ==> tx.outputs@[v].value <= tx.outputs@[u].value
            },
{
    let outs = tx.outputs@;
    assert forall|o: TxOutput| spec_pays(o) == spec_is_payment(o) by {}
    if r.uih1_optimal_change {
        let v = choose|v: int| spec_optimal_signal(outs, prevouts, v);
        assert(spec_pays(outs[v]));
    }
    if spec_change_applies(tx) && prevouts.len() > 0 && exists|v: int|
        0 <= v < outs.len() && spec_pays(#[trigger] outs[v]) && forall|j: int|
            0 <= j < prevouts.len() ==> outs[v].value < (#[trigger] prevouts[j]).value {
        let u = choose|u: int|
            0 <= u < outs.len() && spec_pays(#[trigger] outs[u]) && forall|j: int|
                0 <= j < prevouts.len() ==> outs[u].value < (#[trigger] prevouts[j]).value;
        assert(spec_is_payment(outs[u]));
        lemma_first_min_exists(outs, u);
        let v = choose|v: int| spec_first_min_payment(outs, v);
        assert(outs[v].value <= outs[u].value);
        assert(spec_optimal_signal(outs, prevouts, v));
    }
    assert forall|k: int|
        0 <= k < r.candidates@.len() && (#[trigger] r.candidates@[k]).heuristics@.contains(
            ChangeHeuristic::OptimalChange,
        ) implies spec_optimal_signal(outs, prevouts, r.candidates@[k].vout as int) by {
        let v = r.candidates@[k].vout as int;
        if !spec_optimal_signal(outs, prevouts, v) {
            let hs = spec_change_heuristics(tx, prevouts, fingerprints, v);
            assert forall|i: int| 0 <= i < hs.len() implies hs[i] != ChangeHeuristic::OptimalChange by {}
        }
    }
    assert forall|k: int|
        0 <= k < r.candidates@.len() && (#[trigger] r.candidates@[k]).heuristics@.contains(
            ChangeHeuristic::OptimalChange,
        ) implies {
        let v = r.candidates@[k].vout as int;
        &&& prevouts.len() > 0
        &&& forall|j: int|
            0 <= j < prevouts.len() ==> outs[v].value < (#[trigger] prevouts[j]).value
        &&& forall|u: int|
            0 <= u < outs.len() && spec_pays(#[trigger] outs[u]) ==> outs[v].value <= outs[u].value
    } by {
        let v = r.candidates@[k].vout as int;
        assert(spec_optimal_signal(outs, prevouts, v));
        assert forall|u: int| 0 <= u < outs.len() && spec_pays(#[trigger] outs[u]) implies outs[v].value
            <= outs[u].value by {
            assert(spec_is_payment(outs[u]));
        }
    }
}

} // verus!

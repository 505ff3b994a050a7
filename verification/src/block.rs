//! Same-block context of a transaction, and the per-transaction analysis record.

use vstd::prelude::*;

use std::collections::HashMap;

use crate::change::{analyze, spec_change_result, ChangeAnalysis};
use crate::fingerprints::{spec_fingerprints_result, FingerprintFeatures, IndexerFingerprints};
use crate::heuristics::{spec_heuristics_result, HeuristicFeatures};
use crate::rawtx::{
    rawtx_panic_input, spec_rawtx_error, spec_rawtx_panics, spec_rawtx_readable, spec_rawtx_result,
    RawTxError, RawTxFeatures,
};
use crate::tx::{spec_is_coinbase, spec_txid_display, txid, txid_display, txid_of, TxData, TxOutput};

verus! {

broadcast use vstd::std_specs::hash::group_hash_axioms;

/// Same-block spend graph info needed for CPFP detection.
#[derive(Debug, Clone, Copy, PartialEq, Eq, Structural)]
pub struct BlockTxContext {
    /// True if this tx spends an output created earlier in the same block.
    pub spends_same_block_parent: bool,
    /// True if a later tx in the same block spends one of this tx's outputs.
    pub has_same_block_child: bool,
}

impl Default for BlockTxContext {
    /// No same-block parent and no same-block child.
    fn default() -> (r: BlockTxContext)
        ensures
            !r.spends_same_block_parent,
            !r.has_same_block_child,
    {
        BlockTxContext { spends_same_block_parent: false, has_same_block_child: false }
    }
}

/// The txids of the block's transactions, in block order.
pub open spec fn spec_txids(txs: Seq<TxData>) -> Seq<Seq<u8>> {
    Seq::new(txs.len(), |j: int| txid_of(txs[j]@))
}

/// The last position of `t` in `ids`, if any.
pub open spec fn spec_last_index(ids: Seq<Seq<u8>>, t: Seq<u8>) -> Option<int>
    decreases ids.len(),
{
    if ids.len() == 0 {
        None
    } else if ids.last() == t {
        Some(ids.len() - 1)
    } else {
        spec_last_index(ids.drop_last(), t)
    }
}

/// The position in the block of the transaction that input `k` of transaction
/// `i` spends from, if that transaction is in the block (the last one with that
/// txid).
pub open spec fn spec_spent_tx_index(txs: Seq<TxData>, i: int, k: int) -> Option<int> {
    spec_last_index(spec_txids(txs), txs[i].inputs@[k].prev_txid@)
}

/// Input `k` of non-coinbase transaction `i` spends an output of the earlier
/// transaction `p` of the same block.
pub open spec fn spec_spends_from(txs: Seq<TxData>, i: int, k: int, p: int) -> bool {
    &&& 0 <= i < txs.len()
    &&& !spec_is_coinbase(txs[i]@)
    &&& 0 <= k < txs[i].inputs@.len()
    &&& spec_spent_tx_index(txs, i, k) == Some(p)
    &&& p < i
}

/// Transaction `i` spends an output of an earlier transaction of its block.
pub open spec fn spec_spends_same_block_parent(txs: Seq<TxData>, i: int) -> bool {
    exists|k: int, p: int| #[trigger] spec_spends_from(txs, i, k, p)
}

/// A later transaction of the block spends an output of transaction `p`.
pub open spec fn spec_has_same_block_child(txs: Seq<TxData>, p: int) -> bool {
    exists|i: int, k: int| #[trigger] spec_spends_from(txs, i, k, p)
}

/// `spec_last_index` finds the last equal position, and only when there is one.
pub proof fn lemma_last_index(ids: Seq<Seq<u8>>, t: Seq<u8>)
    ensures
        spec_last_index(ids, t) matches Some(j) ==> 0 <= j < ids.len() && ids[j] == t && forall|m: int|
            j < m < ids.len() ==> ids[m] != t,
        spec_last_index(ids, t) is None ==> forall|m: int| 0 <= m < ids.len() ==> ids[m] != t,
    decreases ids.len(),
{
    if ids.len() > 0 {
        lemma_last_index(ids.drop_last(), t);
        if ids.last() != t {
            assert forall|m: int| 0 <= m < ids.len() - 1 implies ids[m] == ids.drop_last()[m] by {}
        }
    }
}

proof fn lemma_last_index_unique(ids: Seq<Seq<u8>>, t: Seq<u8>, j: int)
    requires
        0 <= j < ids.len(),
        ids[j] == t,
        forall|m: int| j < m < ids.len() ==> ids[m] != t,
    ensures
        spec_last_index(ids, t) == Some(j),
{
    lemma_last_index(ids, t);
    if let Some(j2) = spec_last_index(ids, t) {
        if j2 < j {
        }
    }
}

/// The same-block spend relation seen from both ends: a transaction spends a
/// same-block parent exactly when an earlier transaction of the block has it as a
/// same-block child, and a parent always comes before its child.
pub proof fn lemma_cpfp_duality(txs: Seq<TxData>)
    ensures
        forall|i: int|
            #[trigger] spec_spends_same_block_parent(txs, i) ==> exists|p: int|
                0 <= p < i && #[trigger] spec_has_same_block_child(txs, p),
        forall|p: int|
            #[trigger] spec_has_same_block_child(txs, p) ==> 0 <= p && exists|i: int|
                p < i < txs.len() && #[trigger] spec_spends_same_block_parent(txs, i),
{
    assert forall|i: int| #[trigger] spec_spends_same_block_parent(txs, i) implies exists|p: int|
        0 <= p < i && #[trigger] spec_has_same_block_child(txs, p) by {
        let (k, p) = choose|k: int, p: int| #[trigger] spec_spends_from(txs, i, k, p);
        lemma_last_index(spec_txids(txs), txs[i].inputs@[k].prev_txid@);
        assert(spec_has_same_block_child(txs, p));
    }
    assert forall|p: int| #[trigger] spec_has_same_block_child(txs, p) implies 0 <= p && exists|i: int|
        p < i < txs.len() && #[trigger] spec_spends_same_block_parent(txs, i) by {
        let (i, k) = choose|i: int, k: int| #[trigger] spec_spends_from(txs, i, k, p);
        lemma_last_index(spec_txids(txs), txs[i].inputs@[k].prev_txid@);
        assert(spec_spends_same_block_parent(txs, i));
    }
}

/// Hash-map key of a txid: its first eight bytes.
pub open spec fn spec_bucket_key(t: Seq<u8>) -> u64 {
    ((t[0] as u64) + (t[1] as u64) * 0x100 + (t[2] as u64) * 0x1_0000 + (t[3] as u64) * 0x100_0000
        + (t[4] as u64) * 0x1_0000_0000 + (t[5] as u64) * 0x100_0000_0000 + (t[6] as u64)
        * 0x1_0000_0000_0000 + (t[7] as u64) * 0x100_0000_0000_0000) as u64
}

fn bucket_key(t: &[u8; 32]) -> (r: u64)
    ensures
        r == spec_bucket_key(t@),
{
    (t[0] as u64) + (t[1] as u64) * 0x100 + (t[2] as u64) * 0x1_0000 + (t[3] as u64) * 0x100_0000
        + (t[4] as u64) * 0x1_0000_0000 + (t[5] as u64) * 0x100_0000_0000 + (t[6] as u64)
        * 0x1_0000_0000_0000 + (t[7] as u64) * 0x100_0000_0000_0000
}

/// An index from bucket key to the ascending positions (below `n`) of the txids
/// with that key.
pub open spec fn spec_index_ok(
    buckets: Map<u64, Vec<usize>>,
    ids: Seq<Seq<u8>>,
    n: int,
) -> bool {
    &&& forall|x: u64|
        #[trigger] buckets.contains_key(x) <==> exists|j: int|
            0 <= j < n && spec_bucket_key(#[trigger] ids[j]) == x
    &&& forall|x: u64, m: int|
        buckets.contains_key(x) && 0 <= m < buckets[x]@.len() ==> (#[trigger] buckets[x]@[m]) < n
            && spec_bucket_key(ids[buckets[x]@[m] as int]) == x
    &&& forall|x: u64, m1: int, m2: int|
        buckets.contains_key(x) && 0 <= m1 < m2 < buckets[x]@.len() ==> (#[trigger] buckets[x]@[m1])
            < (#[trigger] buckets[x]@[m2])
    &&& forall|j: int|
        0 <= j < n ==> buckets.contains_key(spec_bucket_key(#[trigger] ids[j])) && exists|m: int|
            0 <= m < buckets[spec_bucket_key(ids[j])]@.len() && buckets[spec_bucket_key(ids[j])]@[m] == j
}

fn copy_positions(v: &Vec<usize>) -> (r: Vec<usize>)
    ensures
        r@ == v@,
{
    let mut r: Vec<usize> = Vec::new();
    let mut k: usize = 0;
    while k < v.len()
        invariant
            k <= v@.len(),
            r@ == v@.take(k as int),
        decreases v@.len() - k,
    {
        r.push(v[k]);
        k = k + 1;
        assert(r@ =~= v@.take(k as int));
    }
    assert(v@.take(v@.len() as int) =~= v@);
    r
}

/// Position of the last txid equal to `t`.
fn lookup_last(
    buckets: &HashMap<u64, Vec<usize>>,
    ids: &Vec<[u8; 32]>,
    t: &[u8; 32],
) -> (r: Option<usize>)
    requires
        spec_index_ok(buckets@, ids@.map_values(|a: [u8; 32]| a@), ids@.len() as int),
    ensures
        r == match spec_last_index(ids@.map_values(|a: [u8; 32]| a@), t@) {
            Some(j) => Some(j as usize),
            None => None::<usize>,
        },
{
    let ghost idv = ids@.map_values(|a: [u8; 32]| a@);
    let x = bucket_key(t);
    proof {
        lemma_last_index(idv, t@);
    }
    match buckets.get(&x) {
        None => {
            proof {
                assert forall|m: int| 0 <= m < idv.len() implies idv[m] != t@ by {
                    if idv[m] == t@ {
                        assert(spec_bucket_key(idv[m]) == x);
                        assert(buckets@.contains_key(x));
                    }
                }
            }
            None
        },
        Some(bucket) => {
            let mut m: usize = bucket.len();
            while m > 0
                invariant
                    m <= bucket@.len(),
                    bucket@ == buckets@[x]@,
                    buckets@.contains_key(x),
                    spec_index_ok(buckets@, idv, ids@.len() as int),
                    idv == ids@.map_values(|a: [u8; 32]| a@),
                    forall|m2: int| m <= m2 < bucket@.len() ==> idv[bucket@[m2] as int] != t@,
                decreases m,
            {
                m = m - 1;
                let j = bucket[m];
                if crate::tx::bytes_eq(&ids[j], t) {
                    proof {
                        assert(idv[j as int] == t@);
                        assert forall|m3: int| j < m3 < idv.len() implies idv[m3] != t@ by {
                            if idv[m3] == t@ {
                                let w = choose|w: int|
                                    0 <= w < buckets@[spec_bucket_key(idv[m3])]@.len()
                                        && buckets@[spec_bucket_key(idv[m3])]@[w] == m3;
                                assert(spec_bucket_key(idv[m3]) == x);
                                if w < m {
                                    assert(bucket@[w] < bucket@[m as int]);
                                } else if w == m {
                                }
                            }
                        }
                        lemma_last_index_unique(idv, t@, j as int);
                    }
                    return Some(j);
                }
            }
            proof {
                assert forall|m3: int| 0 <= m3 < idv.len() implies idv[m3] != t@ by {
                    if idv[m3] == t@ {
                        let w = choose|w: int|
                            0 <= w < buckets@[spec_bucket_key(idv[m3])]@.len()
                                && buckets@[spec_bucket_key(idv[m3])]@[w] == m3;
                        assert(spec_bucket_key(idv[m3]) == x);
                    }
                }
            }
            None
        },
    }
}

/// The txids of the transactions, and the bucket index over them.
fn index_txids(txs: &[TxData]) -> (r: (Vec<[u8; 32]>, HashMap<u64, Vec<usize>>))
    ensures
        r.0@.map_values(|a: [u8; 32]| a@) == spec_txids(txs@),
        spec_index_ok(r.1@, r.0@.map_values(|a: [u8; 32]| a@), r.0@.len() as int),
{
    let mut ids: Vec<[u8; 32]> = Vec::new();
    let mut buckets: HashMap<u64, Vec<usize>> = HashMap::new();
    let mut j: usize = 0;
    while j < txs.len()
        invariant
            j <= txs@.len(),
            ids@.len() == j,
            forall|i: int| 0 <= i < j ==> (#[trigger] ids@[i])@ == txid_of(txs@[i]@),
            spec_index_ok(buckets@, ids@.map_values(|a: [u8; 32]| a@), j as int),
        decreases txs@.len() - j,
    {
        let ghost old_ids = ids@.map_values(|a: [u8; 32]| a@);
        let ghost old_buckets = buckets@;
        let t = txid(&txs[j]);
        let x = bucket_key(&t);
        let mut bucket: Vec<usize> = match buckets.get(&x) {
            Some(b) => copy_positions(b),
            None => Vec::new(),
        };
        let ghost old_bucket = bucket@;
        bucket.push(j);
        buckets.insert(x, bucket);
        ids.push(t);
        proof {
            let idv = ids@.map_values(|a: [u8; 32]| a@);
            assert(idv.len() == j + 1);
            assert forall|i: int| 0 <= i < j implies idv[i] == old_ids[i] by {}
            assert(idv[j as int] == t@);
            assert forall|x2: u64|
                #[trigger] buckets@.contains_key(x2) <==> exists|i: int|
                    0 <= i < j + 1 && spec_bucket_key(#[trigger] idv[i]) == x2 by {
                if x2 != x && buckets@.contains_key(x2) {
                    let i = choose|i: int| 0 <= i < j && spec_bucket_key(#[trigger] old_ids[i]) == x2;
                    assert(idv[i] == old_ids[i]);
                }
                if exists|i: int| 0 <= i < j + 1 && spec_bucket_key(#[trigger] idv[i]) == x2 {
                    let i = choose|i: int| 0 <= i < j + 1 && spec_bucket_key(#[trigger] idv[i]) == x2;
                    if i < j {
                        assert(spec_bucket_key(old_ids[i]) == x2);
                    }
                }
            }
            assert forall|x2: u64, m: int|
                buckets@.contains_key(x2) && 0 <= m < buckets@[x2]@.len() implies (#[trigger] buckets@[x2]@[m]) < j + 1
                && spec_bucket_key(idv[buckets@[x2]@[m] as int]) == x2 by {
                if x2 == x {
                    if m < old_bucket.len() {
                        assert(old_buckets[x]@ == old_bucket);
                        assert(idv[old_bucket[m] as int] == old_ids[old_bucket[m] as int]);
                    }
                } else {
                    assert(idv[buckets@[x2]@[m] as int] == old_ids[buckets@[x2]@[m] as int]);
                }
            }
            assert forall|x2: u64, m1: int, m2: int|
                buckets@.contains_key(x2) && 0 <= m1 < m2 < buckets@[x2]@.len() implies (#[trigger] buckets@[x2]@[m1])
                < (#[trigger] buckets@[x2]@[m2]) by {
                if x2 == x && m2 == old_bucket.len() {
                    if old_buckets.contains_key(x) {
                        assert(old_buckets[x]@ == old_bucket);
                        assert(old_bucket[m1] < j);
                    }
                } else if x2 == x {
                    assert(old_buckets.contains_key(x));
                    assert(old_buckets[x]@ == old_bucket);
                }
            }
            assert forall|i: int|
                0 <= i < j + 1 implies buckets@.contains_key(spec_bucket_key(#[trigger] idv[i])) && exists|m: int|
                0 <= m < buckets@[spec_bucket_key(idv[i])]@.len() && buckets@[spec_bucket_key(idv[i])]@[m] == i by {
                if i == j {
                    assert(buckets@[x]@[old_bucket.len() as int] == j);
                } else {
                    assert(idv[i] == old_ids[i]);
                    let xi = spec_bucket_key(old_ids[i]);
                    let m = choose|m: int| 0 <= m < old_buckets[xi]@.len() && old_buckets[xi]@[m] == i;
                    if xi == x {
                        assert(old_bucket == old_buckets[x]@);
                        assert(buckets@[x]@[m] == i);
                    } else {
                        assert(buckets@[xi] == old_buckets[xi]);
                    }
                }
            }
        }
        j = j + 1;
    }
    assert(ids@.map_values(|a: [u8; 32]| a@) =~= spec_txids(txs@));
    (ids, buckets)
}

/// For each transaction of a block, whether it spends an output created earlier
/// in the block, and whether a later transaction spends one of its outputs.
pub fn build_cpfp_context(txs: &[TxData]) -> (r: Vec<BlockTxContext>)
    ensures
        r@.len() == txs@.len(),
        forall|i: int|
            0 <= i < txs@.len() ==> (#[trigger] r@[i]).spends_same_block_parent
                == spec_spends_same_block_parent(txs@, i) && r@[i].has_same_block_child
                == spec_has_same_block_child(txs@, i),
{
    let (ids, buckets) = index_txids(txs);
    let ghost idv = ids@.map_values(|a: [u8; 32]| a@);
    let n = txs.len();
    assert(idv.len() == ids@.len());
    assert(spec_txids(txs@).len() == txs@.len());
    let mut spends: Vec<bool> = Vec::new();
    let mut has_child: Vec<bool> = Vec::new();
    let mut i: usize = 0;
    while i < n
        invariant
            n == txs@.len(),
            i <= n,
            spends@.len() == i,
            has_child@.len() == i,
            forall|m: int| 0 <= m < i ==> !(#[trigger] spends@[m]),
            forall|m: int| 0 <= m < i ==> !(#[trigger] has_child@[m]),
        decreases n - i,
    {
        spends.push(false);
        has_child.push(false);
        i = i + 1;
    }
    proof {
        assert forall|p: int| 0 <= p < n implies (#[trigger] has_child@[p]) == exists|c: int, k: int|
            c < 0 && #[trigger] spec_spends_from(txs@, c, k, p) by {
            assert(!has_child@[p]);
        }
    }
    let mut i: usize = 0;
    while i < n
        invariant
            n == txs@.len(),
            i <= n,
            idv == spec_txids(txs@),
            ids@.len() == n,
            idv == ids@.map_values(|a: [u8; 32]| a@),
            spec_index_ok(buckets@, idv, n as int),
            spends@.len() == n,
            has_child@.len() == n,
            forall|m: int| 0 <= m < n ==> (#[trigger] spends@[m]) == (m < i && spec_spends_same_block_parent(txs@, m)),
            forall|p: int|
                0 <= p < n ==> (#[trigger] has_child@[p]) == exists|c: int, k: int|
                    c < i && #[trigger] spec_spends_from(txs@, c, k, p),
        decreases n - i,
    {
        if !txs[i].is_coinbase() {
            let inputs = &txs[i].inputs;
            let mut k: usize = 0;
            while k < inputs.len()
                invariant
                    n == txs@.len(),
                    i < n,
                    inputs@ == txs@[i as int].inputs@,
                    !spec_is_coinbase(txs@[i as int]@),
                    k <= inputs@.len(),
                    idv == spec_txids(txs@),
                    idv == ids@.map_values(|a: [u8; 32]| a@),
                    ids@.len() == n,
                    spec_index_ok(buckets@, idv, n as int),
                    spends@.len() == n,
                    has_child@.len() == n,
                    forall|m: int| 0 <= m < n && m != i ==> (#[trigger] spends@[m]) == (m < i && spec_spends_same_block_parent(txs@, m)),
                    spends@[i as int] == exists|k2: int, p: int| k2 < k && #[trigger] spec_spends_from(txs@, i as int, k2, p),
                    forall|p: int|
                        0 <= p < n ==> (#[trigger] has_child@[p]) == exists|c: int, k2: int|
                            (c < i || (c == i && k2 < k)) && #[trigger] spec_spends_from(txs@, c, k2, p),
                decreases inputs@.len() - k,
            {
                let found = lookup_last(&buckets, &ids, &inputs[k].prev_txid);
                let ghost old_spends = spends@[i as int];
                proof {
                    lemma_last_index(idv, inputs@[k as int].prev_txid@);
                    assert(inputs@[k as int] == txs@[i as int].inputs@[k as int]);
                    assert(found == match spec_spent_tx_index(txs@, i as int, k as int) {
                        Some(j) => Some(j as usize),
                        None => None::<usize>,
                    });
                    assert forall|p2: int| #[trigger] spec_spends_from(txs@, i as int, k as int, p2)
                        implies found == Some(p2 as usize) && p2 < i by {
                    }
                }
                let hit = match found {
                    Some(p) => p < i,
                    None => false,
                };
                if hit {
                    let p = found.unwrap();
                    proof {
                        assert(spec_spends_from(txs@, i as int, k as int, p as int));
                    }
                    has_child.set(p, true);
                    spends.set(i, true);
                }
                proof {
                    assert(hit <==> exists|p2: int| #[trigger] spec_spends_from(txs@, i as int, k as int, p2));
                    assert forall|p2: int| 0 <= p2 < n implies (#[trigger] has_child@[p2]) == exists|c: int, k2: int|
                        (c < i || (c == i && k2 < k + 1)) && #[trigger] spec_spends_from(txs@, c, k2, p2) by {
                        if spec_spends_from(txs@, i as int, k as int, p2) {
                        }
                    }
                    assert(spends@[i as int] == (old_spends || hit));
                    if exists|k2: int, p2: int| k2 < k + 1 && #[trigger] spec_spends_from(txs@, i as int, k2, p2) {
                        let (k2, p2) = choose|k2: int, p2: int| k2 < k + 1 && #[trigger] spec_spends_from(txs@, i as int, k2, p2);
                        if k2 == k {
                            assert(hit);
                        } else {
                            assert(old_spends);
                        }
                    }
                    if old_spends {
                        let (k2, p2) = choose|k2: int, p2: int| k2 < k && #[trigger] spec_spends_from(txs@, i as int, k2, p2);
                        assert(k2 < k + 1 && spec_spends_from(txs@, i as int, k2, p2));
                    }
                    if hit {
                        let p2 = found.unwrap() as int;
                        assert(spec_spends_from(txs@, i as int, k as int, p2));
                    }
                }
                k = k + 1;
            }
        }
        proof {
            assert forall|p2: int| 0 <= p2 < n implies (#[trigger] has_child@[p2]) == exists|c: int, k2: int|
                c < i + 1 && #[trigger] spec_spends_from(txs@, c, k2, p2) by {
                if exists|c: int, k2: int| c < i + 1 && #[trigger] spec_spends_from(txs@, c, k2, p2) {
                    let (c, k2) = choose|c: int, k2: int| c < i + 1 && #[trigger] spec_spends_from(txs@, c, k2, p2);
                    if c == i {
                        assert(k2 < txs@[i as int].inputs@.len());
                    }
                }
            }
        }
        i = i + 1;
    }
    let mut r: Vec<BlockTxContext> = Vec::new();
    let mut i: usize = 0;
    while i < n
        invariant
            n == txs@.len(),
            i <= n,
            spends@.len() == n,
            has_child@.len() == n,
            r@.len() == i,
            forall|m: int| 0 <= m < n ==> (#[trigger] spends@[m]) == spec_spends_same_block_parent(txs@, m),
            forall|p: int| 0 <= p < n ==> (#[trigger] has_child@[p]) == spec_has_same_block_child(txs@, p),
            forall|m: int|
                0 <= m < i ==> (#[trigger] r@[m]).spends_same_block_parent
                    == spec_spends_same_block_parent(txs@, m) && r@[m].has_same_block_child
                    == spec_has_same_block_child(txs@, m),
        decreases n - i,
    {
        r.push(BlockTxContext { spends_same_block_parent: spends[i], has_same_block_child: has_child[i] });
        i = i + 1;
    }
    r
}

/// Everything extracted about a single confirmed transaction.
#[derive(Debug)]
pub struct TxAnalysis {
    pub txid: String,
    pub block_height: i32,
    pub block_hash: String,
    pub tx_index: usize,
    pub is_coinbase: bool,
    pub fingerprints: FingerprintFeatures,
    pub rawtx: RawTxFeatures,
    pub heuristics: HeuristicFeatures,
    pub change: ChangeAnalysis,
}

/// What [`analyze_tx`] records of a transaction it could read.
pub open spec fn spec_tx_analysis(
    a: &TxAnalysis,
    tx: &TxData,
    prevouts: Seq<TxOutput>,
    block_height: i32,
    block_hash: Seq<char>,
    tx_index: usize,
    block_ctx: BlockTxContext,
    indexer: &IndexerFingerprints,
) -> bool {
    &&& a.txid@ == spec_txid_display(txid_of(tx@))
    &&& a.block_height == block_height
    &&& a.block_hash@ == block_hash
    &&& a.tx_index == tx_index
    &&& a.is_coinbase == spec_is_coinbase(tx@)
    &&& spec_fingerprints_result(
        &a.fingerprints,
        tx,
        prevouts,
        indexer.transaction,
        indexer.inputs@,
    )
    &&& spec_rawtx_result(&a.rawtx, tx)
    &&& spec_heuristics_result(
        &a.heuristics,
        tx,
        prevouts,
        &a.fingerprints,
        &a.rawtx,
        block_ctx,
        block_height,
    )
    &&& spec_change_result(&a.change, tx, prevouts, &a.fingerprints)
}

/// Analyze a single transaction: fingerprints, rawtx characteristics, heuristics
/// and change. `prevouts` aligns with the inputs (empty for a coinbase); the
/// fingerprint library's results come in `indexer`, one entry per input. Fails
/// when rawtx-rs cannot read the transaction.
pub fn analyze_tx(
    tx: &TxData,
    prevouts: &[TxOutput],
    block_height: i32,
    block_hash: &str,
    tx_index: usize,
    block_ctx: &BlockTxContext,
    indexer: IndexerFingerprints,
) -> (r: Result<TxAnalysis, RawTxError>)
    requires
        indexer.inputs@.len() == tx.inputs@.len(),
        !spec_rawtx_panics(tx),
    ensures
        r is Ok <==> spec_rawtx_readable(tx),
        r matches Err(e) ==> spec_rawtx_error(e, tx),
        r matches Ok(a) ==> spec_tx_analysis(
            &a,
            tx,
            prevouts@,
            block_height,
            block_hash@,
            tx_index,
            *block_ctx,
            &indexer,
        ),
{
    let ghost indexer_view = indexer;
    let fingerprints = crate::fingerprints::extract(
        tx,
        prevouts,
        indexer.transaction,
        indexer.inputs.as_slice(),
    );
    let rawtx = match crate::rawtx::extract(tx) {
        Ok(f) => f,
        Err(e) => return Err(e),
    };
    let heuristics = crate::heuristics::extract(
        tx,
        prevouts,
        &fingerprints,
        &rawtx,
        block_ctx,
        block_height,
    );
    let change = analyze(tx, prevouts, &fingerprints);
    let id = txid(tx);
    Ok(
        TxAnalysis {
            txid: txid_display(&id),
            block_height,
            block_hash: String::from_str(block_hash),
            tx_index,
            is_coinbase: tx.is_coinbase(),
            fingerprints,
            rawtx,
            heuristics,
            change,
        },
    )
}

/// [`analyze_tx`] where rawtx-rs can read the transaction without panicking;
/// `None` where it cannot (an input whose P2PK signature it misreads, reached
/// after reading every earlier input).
pub fn analyze_tx_guarded(
    tx: &TxData,
    prevouts: &[TxOutput],
    block_height: i32,
    block_hash: &str,
    tx_index: usize,
    block_ctx: &BlockTxContext,
    indexer: IndexerFingerprints,
) -> (r: Option<Result<TxAnalysis, RawTxError>>)
    requires
        indexer.inputs@.len() == tx.inputs@.len(),
    ensures
        r is None <==> spec_rawtx_panics(tx),
        r matches Some(res) ==> (res is Ok <==> spec_rawtx_readable(tx)),
        r matches Some(Err(e)) ==> spec_rawtx_error(e, tx),
        r matches Some(Ok(a)) ==> spec_tx_analysis(
            &a,
            tx,
            prevouts@,
            block_height,
            block_hash@,
            tx_index,
            *block_ctx,
            &indexer,
        ),
{
    match rawtx_panic_input(tx) {
        Some(_) => None,
        None => Some(analyze_tx(tx, prevouts, block_height, block_hash, tx_index, block_ctx, indexer)),
    }
}

} // verus!

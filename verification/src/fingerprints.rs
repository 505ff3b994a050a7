//! Wallet fingerprints of a transaction: the transaction-level and per-input
//! fingerprints of the tx-indexer fingerprint set, plus taproot-specific vectors
//! read from the witness.

use vstd::prelude::*;

use crate::tx::{InputView, OutputView, TxData, TxInput, TxOutput};
use crate::types::{
    InputSorting, OutputStructure, RawOutputType, SchnorrSighashForm, TaprootSpendPath,
};

verus! {

#[derive(Debug)]
pub struct FingerprintFeatures {
    pub transaction: TransactionFingerprints,
    pub inputs: Vec<InputFingerprints>,
}

/// Transaction-level fingerprints, as the tx-indexer fingerprint set computes them.
#[derive(Debug)]
pub struct TransactionFingerprints {
    pub address_reuse: bool,
    pub mixed_input_types: bool,
    pub input_order: Vec<InputSorting>,
    pub nlocktime_optin_without_use: bool,
    pub bip68_with_absolute_locktime: bool,
    pub outputs_bip69_sorted: bool,
    pub output_structure: OutputStructure,
    pub round_fee: Option<bool>,
}

#[derive(Debug)]
pub struct InputFingerprints {
    pub low_r_grinding: bool,
    /// Prevout script type via rawtx-rs.
    pub input_type: RawOutputType,
    pub has_uncompressed_pubkey: bool,
    /// BIP341 annex present on this taproot input.
    pub has_taproot_annex: bool,
    /// Schnorr sighash wire encodings on this input (key- or script-path).
    pub schnorr_sighash_forms: Vec<SchnorrSighashForm>,
}

/// Per-input fingerprints of the tx-indexer fingerprint set: low-R grinding of
/// the input's signatures, and whether it reveals an uncompressed public key
/// (computed against its prevout; only read for inputs that have one).
#[derive(Debug, Clone, Copy)]
pub struct IndexerInputFingerprints {
    pub low_r_grinding: bool,
    pub has_uncompressed_pubkey: bool,
}

/// What the tx-indexer fingerprint set computes for one transaction: its
/// transaction-level fingerprints and, input by input, the per-input ones.
#[derive(Debug)]
pub struct IndexerFingerprints {
    pub transaction: TransactionFingerprints,
    pub inputs: Vec<IndexerInputFingerprints>,
}

/// First byte of a BIP341 annex.
pub const TAPROOT_ANNEX_INDICATOR: u8 = 0x50;

/// Leaf version of tapscript in a control block (with the parity bit masked).
pub const TAPROOT_LEAF_TAPSCRIPT: u8 = 0xc0;

/// Mask that drops the parity bit of a control block's first byte.
pub const TAPROOT_LEAF_MASK: u8 = 0xfe;

/// A witness item is an annex when it is non-empty and starts with `0x50`.
pub open spec fn spec_is_annex(item: Seq<u8>) -> bool {
    item.len() > 0 && item[0] == TAPROOT_ANNEX_INDICATOR
}

/// A byte string has the shape of a Schnorr signature: 64 bytes, or 65 bytes
/// ending in one of the six standard explicit sighash flags (the test rawtx-rs's
/// `is_schnorr_signature` makes).
pub open spec fn spec_is_schnorr_signature(sig: Seq<u8>) -> bool {
    sig.len() == 64 || (sig.len() == 65 && (sig[64] == 0x01 || sig[64] == 0x02 || sig[64] == 0x03
        || sig[64] == 0x81 || sig[64] == 0x82 || sig[64] == 0x83))
}

/// The input spends a P2TR output by key path: empty script_sig, and a witness of
/// a Schnorr signature optionally followed by an annex (rawtx-rs's `is_p2trkp`).
pub open spec fn spec_is_p2trkp(input: InputView) -> bool {
    let w = input.witness;
    &&& input.script_sig.len() == 0
    &&& 1 <= w.len() <= 2
    &&& w.len() == 2 ==> spec_is_annex(w[1])
    &&& spec_is_schnorr_signature(w[0])
}

/// Position of the control block in a script-path witness: the last item, or the
/// one before it when the last item is an annex.
pub open spec fn spec_control_block_index(w: Seq<Seq<u8>>) -> int {
    if spec_is_annex(w[w.len() - 1]) {
        w.len() - 2
    } else {
        w.len() - 1
    }
}

/// The input spends a P2TR output by script path: empty script_sig and a witness
/// of at least two items whose control block is `33 + 32k` bytes long and carries
/// the tapscript leaf version (rawtx-rs's `is_p2trsp`).
pub open spec fn spec_is_p2trsp(input: InputView) -> bool {
    let w = input.witness;
    let cb = w[spec_control_block_index(w)];
    &&& input.script_sig.len() == 0
    &&& w.len() >= 2
    &&& cb.len() >= 33
    &&& (cb.len() - 1) % 32 == 0
    &&& cb[0] & TAPROOT_LEAF_MASK == TAPROOT_LEAF_TAPSCRIPT
}

/// The witness has at least two items and its last one is an annex.
pub open spec fn spec_witness_has_annex(input: InputView) -> bool {
    input.witness.len() >= 2 && spec_is_annex(input.witness[input.witness.len() - 1])
}

pub open spec fn spec_spend_path(input: InputView) -> TaprootSpendPath {
    if spec_is_p2trkp(input) {
        TaprootSpendPath::Key
    } else if spec_is_p2trsp(input) {
        TaprootSpendPath::Script
    } else {
        TaprootSpendPath::NoPath
    }
}

/// The Schnorr sighash forms of the items that have a Schnorr signature's length,
/// in order.
pub open spec fn spec_forms_of(items: Seq<Seq<u8>>) -> Seq<SchnorrSighashForm>
    decreases items.len(),
{
    if items.len() == 0 {
        seq![]
    } else {
        spec_forms_of(items.drop_last()) + match SchnorrSighashForm::spec_from_sig_bytes(
            items.last(),
        ) {
            Some(f) => seq![f],
            None => seq![],
        }
    }
}

/// The Schnorr sighash forms of an input: the first witness item's on a key-path
/// spend; the items before the script and control block (and annex) on a
/// script-path spend; none otherwise.
pub open spec fn spec_schnorr_forms(input: InputView) -> Seq<SchnorrSighashForm> {
    let w = input.witness;
    match spec_spend_path(input) {
        TaprootSpendPath::Key => spec_forms_of(w.take(1)),
        TaprootSpendPath::Script => {
            let skip_tail: int = if spec_witness_has_annex(input) {
                3
            } else {
                2
            };
            if w.len() < skip_tail {
                seq![]
            } else {
                spec_forms_of(w.take(w.len() - skip_tail))
            }
        },
        TaprootSpendPath::NoPath => seq![],
    }
}

/// A taproot spend (key or script path) whose witness carries an annex.
pub open spec fn spec_has_taproot_annex(input: InputView) -> bool {
    spec_witness_has_annex(input) && spec_spend_path(input) != TaprootSpendPath::NoPath
}

/// At most one Schnorr sighash form per witness item.
proof fn lemma_forms_of_len(items: Seq<Seq<u8>>)
    ensures
        spec_forms_of(items).len() <= items.len(),
    decreases items.len(),
{
    if items.len() > 0 {
        lemma_forms_of_len(items.drop_last());
    }
}

/// Schnorr sighash forms come only from taproot spends, and a key-path spend
/// carries at most one.
pub proof fn lemma_schnorr_forms_taproot_only(input: InputView)
    ensures
        spec_spend_path(input) == TaprootSpendPath::NoPath ==> spec_schnorr_forms(input).len() == 0,
        spec_spend_path(input) == TaprootSpendPath::Key ==> spec_schnorr_forms(input).len() <= 1,
        spec_has_taproot_annex(input) ==> spec_spend_path(input) != TaprootSpendPath::NoPath,
{
    if spec_spend_path(input) == TaprootSpendPath::Key {
        lemma_forms_of_len(input.witness.take(1));
    }
}

/// Does the witness item carry an annex marker?
fn is_annex(item: &Vec<u8>) -> (r: bool)
    ensures
        r == spec_is_annex(item@),
{
    item.len() > 0 && item[0] == TAPROOT_ANNEX_INDICATOR
}

fn is_schnorr_signature(sig: &Vec<u8>) -> (r: bool)
    ensures
        r == spec_is_schnorr_signature(sig@),
{
    if sig.len() == 64 {
        true
    } else if sig.len() == 65 {
        let f = sig[64];
        f == 0x01 || f == 0x02 || f == 0x03 || f == 0x81 || f == 0x82 || f == 0x83
    } else {
        false
    }
}

proof fn lemma_witness_view(input: &TxInput, k: int)
    requires
        0 <= k < input.witness@.len(),
    ensures
        input@.witness.len() == input.witness@.len(),
        input@.witness[k] == input.witness@[k]@,
{
}

/// Is the input a P2TR key-path spend?
pub fn is_p2trkp(input: &TxInput) -> (r: bool)
    ensures
        r == spec_is_p2trkp(input@),
{
    let w = &input.witness;
    proof {
        assert(input@.witness.len() == w@.len());
        if w@.len() >= 1 {
            lemma_witness_view(input, 0);
        }
        if w@.len() >= 2 {
            lemma_witness_view(input, 1);
        }
    }
    if input.script_sig.len() != 0 || w.len() == 0 || w.len() > 2 {
        return false;
    }
    if w.len() == 2 && !is_annex(&w[1]) {
        return false;
    }
    is_schnorr_signature(&w[0])
}

/// Is the input a P2TR script-path spend?
pub fn is_p2trsp(input: &TxInput) -> (r: bool)
    ensures
        r == spec_is_p2trsp(input@),
{
    let w = &input.witness;
    assert(input@.witness.len() == w@.len());
    if input.script_sig.len() != 0 || w.len() < 2 {
        return false;
    }
    let last = w.len() - 1;
    proof {
        lemma_witness_view(input, last as int);
        lemma_witness_view(input, last - 1);
    }
    let cb_index = if is_annex(&w[last]) {
        last - 1
    } else {
        last
    };
    let cb = &w[cb_index];
    assert(cb@ == input@.witness[spec_control_block_index(input@.witness)]);
    cb.len() >= 33 && (cb.len() - 1) % 32 == 0 && cb[0] & TAPROOT_LEAF_MASK == TAPROOT_LEAF_TAPSCRIPT
}

/// Does the input's witness end in an annex?
pub fn witness_has_annex(input: &TxInput) -> (r: bool)
    ensures
        r == spec_witness_has_annex(input@),
{
    let w = &input.witness;
    assert(input@.witness.len() == w@.len());
    if w.len() < 2 {
        return false;
    }
    proof {
        lemma_witness_view(input, w@.len() - 1);
    }
    is_annex(&w[w.len() - 1])
}

/// The Schnorr sighash forms of the first `n` witness items.
fn forms_of_prefix(input: &TxInput, n: usize) -> (r: Vec<SchnorrSighashForm>)
    requires
        n <= input.witness@.len(),
    ensures
        r@ == spec_forms_of(input@.witness.take(n as int)),
{
    let mut r: Vec<SchnorrSighashForm> = Vec::new();
    let mut k: usize = 0;
    while k < n
        invariant
            k <= n <= input.witness@.len(),
            r@ == spec_forms_of(input@.witness.take(k as int)),
        decreases n - k,
    {
        proof {
            lemma_witness_view(input, k as int);
            let items = input@.witness.take(k + 1);
            assert(items.drop_last() =~= input@.witness.take(k as int));
            assert(items.last() == input.witness@[k as int]@);
        }
        match SchnorrSighashForm::from_sig_bytes(input.witness[k].as_slice()) {
            Some(f) => {
                r.push(f);
            },
            None => {},
        }
        proof {
            let items = input@.witness.take(k + 1);
            assert(r@ =~= spec_forms_of(items));
        }
        k = k + 1;
    }
    r
}

/// Taproot facts of one input: whether it is a taproot spend carrying an annex,
/// and the Schnorr sighash forms of its signatures.
pub struct TaprootInputInfo {
    pub has_annex: bool,
    pub schnorr_forms: Vec<SchnorrSighashForm>,
}

pub fn taproot_input_info(input: &TxInput) -> (r: TaprootInputInfo)
    ensures
        r.has_annex == spec_has_taproot_annex(input@),
        r.schnorr_forms@ == spec_schnorr_forms(input@),
{
    let has_annex = witness_has_annex(input);
    let path = if is_p2trkp(input) {
        TaprootSpendPath::Key
    } else if is_p2trsp(input) {
        TaprootSpendPath::Script
    } else {
        TaprootSpendPath::NoPath
    };
    assert(input@.witness.len() == input.witness@.len());
    let schnorr_forms = match path {
        TaprootSpendPath::Key => forms_of_prefix(input, 1),
        TaprootSpendPath::Script => {
            let skip_tail: usize = if has_annex {
                3
            } else {
                2
            };
            if input.witness.len() < skip_tail {
                Vec::new()
            } else {
                forms_of_prefix(input, input.witness.len() - skip_tail)
            }
        },
        TaprootSpendPath::NoPath => Vec::new(),
    };
    proof {
        if path == TaprootSpendPath::NoPath {
            assert(schnorr_forms@ =~= spec_schnorr_forms(input@));
        }
        if path == TaprootSpendPath::Script && input.witness@.len() < (if has_annex { 3int } else { 2int }) {
            assert(schnorr_forms@ =~= spec_schnorr_forms(input@));
        }
    }
    TaprootInputInfo { has_annex: has_annex && path != TaprootSpendPath::NoPath, schnorr_forms }
}

/// The fingerprints of input `k`, given its prevout (if any) and what the
/// tx-indexer fingerprint set reports of it.
pub open spec fn spec_input_fingerprints(
    f: InputFingerprints,
    input: InputView,
    prevout: Option<OutputView>,
    indexer: IndexerInputFingerprints,
) -> bool {
    &&& f.low_r_grinding == indexer.low_r_grinding
    &&& f.input_type == match prevout {
        Some(p) => RawOutputType::spec_from_script(p.script_pubkey),
        None => RawOutputType::Unknown,
    }
    &&& f.has_uncompressed_pubkey == (prevout is Some && indexer.has_uncompressed_pubkey)
    &&& f.has_taproot_annex == spec_has_taproot_annex(input)
    &&& f.schnorr_sighash_forms@ == spec_schnorr_forms(input)
}

/// The prevout of input `k`, when `prevouts` has one at that position.
pub open spec fn spec_prevout_at(prevouts: Seq<TxOutput>, k: int) -> Option<OutputView> {
    if 0 <= k < prevouts.len() {
        Some(prevouts[k]@)
    } else {
        None
    }
}

/// What [`extract`] assembles for a transaction.
pub open spec fn spec_fingerprints_result(
    r: &FingerprintFeatures,
    tx: &TxData,
    prevouts: Seq<TxOutput>,
    transaction: TransactionFingerprints,
    indexer_inputs: Seq<IndexerInputFingerprints>,
) -> bool {
    &&& (r.transaction == transaction)
    &&& (r.inputs@.len() == tx.inputs@.len())
    &&& (forall|k: int|
            0 <= k < tx.inputs@.len() ==> spec_input_fingerprints(
                #[trigger] r.inputs@[k],
                tx.inputs@[k]@,
                spec_prevout_at(prevouts, k),
                indexer_inputs[k],
            ))
}

/// Assemble the fingerprints of a transaction: the transaction-level set as the
/// fingerprint library computed it, and per input the library's per-input
/// results, the prevout's script type, and the taproot facts of the witness.
/// `prevouts` aligns with the inputs (empty for a coinbase).
pub fn extract(
    tx: &TxData,
    prevouts: &[TxOutput],
    transaction: TransactionFingerprints,
    indexer_inputs: &[IndexerInputFingerprints],
) -> (r: FingerprintFeatures)
    requires
        indexer_inputs@.len() == tx.inputs@.len(),
    ensures
        spec_fingerprints_result(&r, tx, prevouts@, transaction, indexer_inputs@),
{
    let mut inputs: Vec<InputFingerprints> = Vec::new();
    let mut k: usize = 0;
    while k < tx.inputs.len()
        invariant
            k <= tx.inputs@.len(),
            indexer_inputs@.len() == tx.inputs@.len(),
            inputs@.len() == k,
            forall|j: int|
                0 <= j < k ==> spec_input_fingerprints(
                    #[trigger] inputs@[j],
                    tx.inputs@[j]@,
                    spec_prevout_at(prevouts@, j),
                    indexer_inputs@[j],
                ),
        decreases tx.inputs@.len() - k,
    {
        let txin = &tx.inputs[k];
        let taproot = taproot_input_info(txin);
        let has_prevout = k < prevouts.len();
        let input_type = if has_prevout {
            RawOutputType::from_txout(&prevouts[k])
        } else {
            RawOutputType::Unknown
        };
        inputs.push(
            InputFingerprints {
                low_r_grinding: indexer_inputs[k].low_r_grinding,
                input_type,
                has_uncompressed_pubkey: has_prevout && indexer_inputs[k].has_uncompressed_pubkey,
                has_taproot_annex: taproot.has_annex,
                schnorr_sighash_forms: taproot.schnorr_forms,
            },
        );
        k = k + 1;
    }
    FingerprintFeatures { transaction, inputs }
}

/// Each input's prevout type is the script type of the prevout at its own
/// position (`Unknown` where there is none), and it reports an uncompressed key
/// only where it has a prevout.
pub proof fn lemma_input_type_from_own_prevout(
    r: &FingerprintFeatures,
    tx: &TxData,
    prevouts: Seq<TxOutput>,
    transaction: TransactionFingerprints,
    indexer_inputs: Seq<IndexerInputFingerprints>,
)
    requires
        spec_fingerprints_result(r, tx, prevouts, transaction, indexer_inputs),
    ensures
        forall|k: int|
            0 <= k < tx.inputs@.len() && k < prevouts.len() ==> (#[trigger] r.inputs@[k]).input_type
                == RawOutputType::spec_from_script(prevouts[k].script_pubkey@),
        forall|k: int|
            0 <= k < tx.inputs@.len() && k >= prevouts.len() ==> (#[trigger] r.inputs@[k]).input_type
                == RawOutputType::Unknown && !r.inputs@[k].has_uncompressed_pubkey,
{
    assert forall|k: int| 0 <= k < tx.inputs@.len() implies spec_input_fingerprints(
        #[trigger] r.inputs@[k],
        tx.inputs@[k]@,
        spec_prevout_at(prevouts, k),
        indexer_inputs[k],
    ) by {}
}

} // verus!

//! Transaction characteristics from rawtx-rs.

use vstd::prelude::*;

use rawtx_rs::input::InputInfo;
use rawtx_rs::input::InputInscriptionDetection;
use rawtx_rs::input::InputTypeDetection;
use rawtx_rs::output::OutputInfo;
use rawtx_rs::script::{SignatureInfo, SignatureType};

use bitcoin::hashes::Hash as BitcoinHash;
use bitcoin::{Amount, OutPoint, ScriptBuf, Sequence, TxIn, TxOut, Txid, Witness};

use crate::tx::{InputView, OutputView, TxData, TxInput, TxOutput};
use crate::types::{
    code_or, spec_code_or, Categorical, DerEncoding, PubkeyAlgo, RawInputType, RawOutputType, SigAlgo,
    SighashType,
};

verus! {

/// Characteristics of one transaction, as rawtx-rs reads them.
#[derive(Debug)]
pub struct RawTxFeatures {
    pub version: i32,
    pub inputs: Vec<InputCharacteristics>,
    pub outputs: Vec<OutputCharacteristics>,
}

#[derive(Debug)]
pub struct InputCharacteristics {
    pub input_type: RawInputType,
    pub multisig: Option<MultisigInfo>,
    pub signatures: Vec<SignatureCharacteristics>,
    pub pubkeys: Vec<PubkeyCharacteristics>,
    pub reveals_inscription: bool,
}

/// An m-of-n multisig configuration; `unknown_n` when the spend does not reveal n.
#[derive(Debug, Clone, Copy, PartialEq, Eq, Structural)]
pub struct MultisigInfo {
    pub m: u8,
    pub n: u8,
    pub unknown_n: bool,
}

#[derive(Debug, Clone, Copy)]
pub struct SignatureCharacteristics {
    pub signature_type: SigAlgo,
    pub der_encoding: DerEncoding,
    pub sighash: SighashType,
    /// Original sighash flag byte (useful when the sighash is [`SighashType::Unknown`]).
    pub sighash_flag: u8,
    pub length: usize,
    pub low_r: bool,
    pub low_s: bool,
}

#[derive(Debug, Clone, Copy, PartialEq, Eq, Structural)]
pub struct PubkeyCharacteristics {
    pub pubkey_type: PubkeyAlgo,
    pub compressed: bool,
}

#[derive(Debug)]
pub struct OutputCharacteristics {
    pub output_type: RawOutputType,
    pub pubkeys: Vec<PubkeyCharacteristics>,
}

/// A signature as rawtx-rs reports it. Codes are positions in rawtx-rs's own
/// enums, which list their variants in the order of this library's codes.
#[derive(Debug, Clone, Copy)]
pub struct RawtxSignature {
    pub schnorr: bool,
    pub der_code: u8,
    pub sig_hash: u8,
    pub length: usize,
    pub low_r: bool,
    pub low_s: bool,
}

/// A public key as rawtx-rs reports it (`type_code` 0 for ECDSA, 1 for Schnorr).
#[derive(Debug, Clone, Copy)]
pub struct RawtxPubkey {
    pub type_code: u8,
    pub compressed: bool,
}

/// What rawtx-rs's `InputInfo` reports of an input (its signatures aside).
#[derive(Debug)]
pub struct RawtxInputInfo {
    pub type_code: u8,
    pub multisig: Option<MultisigInfo>,
    pub pubkeys: Vec<RawtxPubkey>,
}

/// What `rawtx_rs::input::InputInfo::new` reports of an input, or the text of its
/// error.
pub uninterp spec fn rawtx_input_info(input: InputView) -> Result<RawtxInputInfo, Seq<char>>;

/// The signatures that `rawtx_rs::script::SignatureInfo::all_from` finds in an
/// input, or the text of its error.
pub uninterp spec fn rawtx_input_signatures(input: InputView) -> Result<
    Seq<RawtxSignature>,
    Seq<char>,
>;

/// What `InputInscriptionDetection::reveals_inscription` answers for an input
/// (`None` on error).
pub uninterp spec fn rawtx_reveals_inscription(input: InputView) -> Option<bool>;

/// The public keys that `rawtx_rs::output::OutputInfo::new` reports of an
/// output, or the text of its error.
pub uninterp spec fn rawtx_output_pubkeys(output: OutputView) -> Result<Seq<RawtxPubkey>, Seq<char>>;

/// The input type that `InputTypeDetection::get_type` gives an input, by the
/// position of the variant in rawtx-rs's `InputType` (`None` on error).
pub uninterp spec fn rawtx_input_type(input: InputView) -> Option<u8>;

/// Trusted: `rawtx_rs::input::InputTypeDetection::get_type` on the input built
/// from the plain data; the variant is copied by its position in `InputType`, an
/// error becomes `None`. The result is what [`rawtx_input_type`] names.
#[verifier::external_body]
fn rawtx_input_type_report(input: &TxInput) -> (r: Option<u8>)
    ensures
        r == rawtx_input_type(input@),
{
    let txin = TxIn {
        previous_output: OutPoint::new(Txid::from_byte_array(input.prev_txid), input.prev_vout),
        script_sig: ScriptBuf::from_bytes(input.script_sig.clone()),
        sequence: Sequence(input.sequence),
        witness: Witness::from_slice(&input.witness),
    };
    txin.get_type().ok().map(|t| t as u8)
}

/// `OP_PUSHDATA1`, `OP_PUSHDATA2` or `OP_PUSHDATA4`.
pub open spec fn spec_is_pushdata_opcode(b: u8) -> bool {
    b == 0x4c || b == 0x4d || b == 0x4e
}

/// rawtx-rs classifies the input as P2PK (strict or lax DER), but its signature
/// is pushed with `OP_PUSHDATA1/2/4`. rawtx-rs reads a P2PK signature by dropping
/// only the first byte of the script_sig, so here it reads the push's length
/// bytes as part of the signature and panics unwrapping the failed parse.
pub open spec fn spec_p2pk_misread(input: InputView) -> bool {
    &&& input.script_sig.len() > 0
    &&& spec_is_pushdata_opcode(input.script_sig[0])
    &&& rawtx_input_type(input) matches Some(c) && (c == RawInputType::P2pk.spec_code() || c
        == RawInputType::P2pkLaxDer.spec_code())
}

/// Does rawtx-rs misread the P2PK signature of this input (see
/// [`spec_p2pk_misread`])?
pub fn p2pk_misread(input: &TxInput) -> (r: bool)
    ensures
        r == spec_p2pk_misread(input@),
{
    if input.script_sig.len() == 0 {
        return false;
    }
    let b = input.script_sig[0];
    if !(b == 0x4c || b == 0x4d || b == 0x4e) {
        return false;
    }
    match rawtx_input_type_report(input) {
        Some(c) => c == RawInputType::P2pk.as_u8() || c == RawInputType::P2pkLaxDer.as_u8(),
        None => false,
    }
}

/// Trusted: `rawtx_rs::input::InputInfo::new` on the input built from the plain
/// data. The input type (by its position in rawtx-rs's `InputType`), the multisig
/// configuration and the public keys are copied one for one; an error becomes its
/// text. The result is what [`rawtx_input_info`] names. On an input whose P2PK
/// signature rawtx-rs misreads it panics, so such inputs are left out.
#[verifier::external_body]
fn rawtx_input_report(input: &TxInput) -> (r: Result<RawtxInputInfo, String>)
    requires
        !spec_p2pk_misread(input@),
    ensures
        r matches Ok(v) ==> rawtx_input_info(input@) is Ok && rawtx_input_info(input@)->Ok_0 == v,
        r matches Err(m) ==> rawtx_input_info(input@) is Err && rawtx_input_info(input@)->Err_0 == m@,
{
    let txin = TxIn {
        previous_output: OutPoint::new(Txid::from_byte_array(input.prev_txid), input.prev_vout),
        script_sig: ScriptBuf::from_bytes(input.script_sig.clone()),
        sequence: Sequence(input.sequence),
        witness: Witness::from_slice(&input.witness),
    };
    InputInfo::new(&txin).map(|i| RawtxInputInfo {
        type_code: i.in_type as u8,
        multisig: i.multisig_info.map(|m| MultisigInfo { m: m.m_of_n.0, n: m.m_of_n.1, unknown_n: m.unknown_n }),
        pubkeys: i.pubkey_stats.iter().map(|p| RawtxPubkey { type_code: p.pubkey_type.clone() as u8, compressed: p.compressed }).collect(),
    }).map_err(|e| e.to_string())
}

/// Trusted: `rawtx_rs::script::SignatureInfo::all_from` on the input built from
/// the plain data (the same list that `InputInfo::new` stores). Each signature is
/// copied one for one: its kind as a flag, its DER status by position in
/// rawtx-rs's `DEREncoding`, and `low_r`/`low_s` as the `SignatureInfo` methods
/// answer. An error becomes its text. On an input whose P2PK signature rawtx-rs
/// misreads it panics, so such inputs are left out.
#[verifier::external_body]
fn rawtx_signature_report(input: &TxInput) -> (r: Result<
    Vec<RawtxSignature>,
    String,
>)
    requires
        !spec_p2pk_misread(input@),
    ensures
        r matches Ok(v) ==> rawtx_input_signatures(input@) is Ok && rawtx_input_signatures(input@)->Ok_0
            == v@,
        r matches Err(m) ==> rawtx_input_signatures(input@) is Err && rawtx_input_signatures(input@)->Err_0
            == m@,
{
    let txin = TxIn {
        previous_output: OutPoint::new(Txid::from_byte_array(input.prev_txid), input.prev_vout),
        script_sig: ScriptBuf::from_bytes(input.script_sig.clone()),
        sequence: Sequence(input.sequence),
        witness: Witness::from_slice(&input.witness),
    };
    SignatureInfo::all_from(&txin).map(|v| v.iter().map(|s| RawtxSignature {
        schnorr: matches!(s.signature, SignatureType::Schnorr(_)),
        der_code: s.der_encoded.clone() as u8,
        sig_hash: s.sig_hash, length: s.length, low_r: s.low_r(), low_s: s.low_s(),
    }).collect()).map_err(|e| e.to_string())
}

/// Trusted: `InputInscriptionDetection::reveals_inscription` on the input built
/// from the plain data; an error becomes `None`.
#[verifier::external_body]
fn rawtx_inscription(input: &TxInput) -> (r: Option<bool>)
    ensures
        r == rawtx_reveals_inscription(input@),
{
    let txin = TxIn {
        previous_output: OutPoint::new(Txid::from_byte_array(input.prev_txid), input.prev_vout),
        script_sig: ScriptBuf::from_bytes(input.script_sig.clone()),
        sequence: Sequence(input.sequence),
        witness: Witness::from_slice(&input.witness),
    };
    txin.reveals_inscription().ok()
}

/// Trusted: `rawtx_rs::output::OutputInfo::new` on the output built from the
/// plain data; its public keys are copied one for one, an error becomes its text.
#[verifier::external_body]
fn rawtx_output_report(output: &TxOutput) -> (r: Result<
    Vec<RawtxPubkey>,
    String,
>)
    ensures
        r matches Ok(v) ==> rawtx_output_pubkeys(output@) is Ok && rawtx_output_pubkeys(output@)->Ok_0 == v@,
        r matches Err(m) ==> rawtx_output_pubkeys(output@) is Err && rawtx_output_pubkeys(output@)->Err_0 == m@,
{
    let txout = TxOut { value: Amount::from_sat(output.value), script_pubkey: ScriptBuf::from_bytes(output.script_pubkey.clone()) };
    OutputInfo::new(&txout).map(|o| o.pubkey_stats.iter().map(|p| RawtxPubkey { type_code: p.pubkey_type.clone() as u8, compressed: p.compressed }).collect()).map_err(|e| e.to_string())
}

/// Why rawtx-rs could not read a transaction: the first input, or (all inputs
/// being readable) the first output, that it failed on, with the text of
/// rawtx-rs's error.
#[derive(Debug, Clone, PartialEq, Eq)]
pub enum RawTxError {
    Input(usize, String),
    Output(usize, String),
}

/// A signature's characteristics. rawtx-rs reports 64-byte Schnorr signatures
/// with flag `0x01` (ALL); BIP341 reads that encoding as SIGHASH_DEFAULT, flag 0.
pub open spec fn spec_signature(s: RawtxSignature) -> SignatureCharacteristics {
    let implicit_default = s.schnorr && s.length == 64;
    SignatureCharacteristics {
        signature_type: if s.schnorr {
            SigAlgo::Schnorr
        } else {
            SigAlgo::Ecdsa
        },
        der_encoding: spec_code_or(s.der_code, DerEncoding::NotApplicable),
        sighash: if implicit_default {
            SighashType::Default
        } else {
            SighashType::spec_from_flag(s.sig_hash)
        },
        sighash_flag: if implicit_default {
            0
        } else {
            s.sig_hash
        },
        length: s.length,
        low_r: s.low_r,
        low_s: s.low_s,
    }
}

pub open spec fn spec_pubkey(p: RawtxPubkey) -> PubkeyCharacteristics {
    PubkeyCharacteristics {
        pubkey_type: spec_code_or(p.type_code, PubkeyAlgo::Ecdsa),
        compressed: p.compressed,
    }
}

/// rawtx-rs reads the input (both its `InputInfo` and its signatures).
pub open spec fn spec_input_readable(input: InputView) -> bool {
    rawtx_input_info(input) is Ok && rawtx_input_signatures(input) is Ok
}

/// The characteristics of a readable input.
pub open spec fn spec_input_matches(c: InputCharacteristics, input: InputView) -> bool {
    let info = rawtx_input_info(input)->Ok_0;
    let sigs = rawtx_input_signatures(input)->Ok_0;
    &&& c.input_type == spec_code_or(info.type_code, RawInputType::Unknown)
    &&& c.multisig == info.multisig
    &&& c.signatures@.len() == sigs.len()
    &&& forall|k: int| 0 <= k < sigs.len() ==> c.signatures@[k] == spec_signature(sigs[k])
    &&& c.pubkeys@.len() == info.pubkeys@.len()
    &&& forall|k: int| 0 <= k < info.pubkeys@.len() ==> c.pubkeys@[k] == spec_pubkey(info.pubkeys@[k])
    &&& c.reveals_inscription == (rawtx_reveals_inscription(input) == Some(true))
}

/// The characteristics of a readable output.
pub open spec fn spec_output_matches(c: OutputCharacteristics, output: OutputView) -> bool {
    let keys = rawtx_output_pubkeys(output)->Ok_0;
    &&& c.output_type == RawOutputType::spec_from_script(output.script_pubkey)
    &&& c.pubkeys@.len() == keys.len()
    &&& forall|k: int| 0 <= k < keys.len() ==> c.pubkeys@[k] == spec_pubkey(keys[k])
}

fn convert_signatures(v: &Vec<RawtxSignature>) -> (r: Vec<SignatureCharacteristics>)
    ensures
        r@.len() == v@.len(),
        forall|k: int| 0 <= k < v@.len() ==> r@[k] == spec_signature(v@[k]),
{
    let mut r: Vec<SignatureCharacteristics> = Vec::new();
    let mut k: usize = 0;
    while k < v.len()
        invariant
            k <= v@.len(),
            r@.len() == k,
            forall|j: int| 0 <= j < k ==> r@[j] == spec_signature(v@[j]),
        decreases v@.len() - k,
    {
        let s = v[k];
        let implicit_default = s.schnorr && s.length == 64;
        let (sighash, sighash_flag) = if implicit_default {
            (SighashType::Default, 0u8)
        } else {
            (SighashType::from_flag(s.sig_hash), s.sig_hash)
        };
        r.push(
            SignatureCharacteristics {
                signature_type: if s.schnorr {
                    SigAlgo::Schnorr
                } else {
                    SigAlgo::Ecdsa
                },
                der_encoding: code_or(s.der_code, DerEncoding::NotApplicable),
                sighash,
                sighash_flag,
                length: s.length,
                low_r: s.low_r,
                low_s: s.low_s,
            },
        );
        k = k + 1;
    }
    r
}

fn convert_pubkeys(v: &Vec<RawtxPubkey>) -> (r: Vec<PubkeyCharacteristics>)
    ensures
        r@.len() == v@.len(),
        forall|k: int| 0 <= k < v@.len() ==> r@[k] == spec_pubkey(v@[k]),
{
    let mut r: Vec<PubkeyCharacteristics> = Vec::new();
    let mut k: usize = 0;
    while k < v.len()
        invariant
            k <= v@.len(),
            r@.len() == k,
            forall|j: int| 0 <= j < k ==> r@[j] == spec_pubkey(v@[j]),
        decreases v@.len() - k,
    {
        r.push(
            PubkeyCharacteristics {
                pubkey_type: code_or(v[k].type_code, PubkeyAlgo::Ecdsa),
                compressed: v[k].compressed,
            },
        );
        k = k + 1;
    }
    r
}

/// rawtx-rs reads every input and every output of the transaction.
pub open spec fn spec_rawtx_readable(tx: &TxData) -> bool {
    &&& forall|k: int|
        0 <= k < tx.inputs@.len() ==> spec_input_readable(#[trigger] tx.inputs@[k]@)
    &&& forall|k: int|
        0 <= k < tx.outputs@.len() ==> (rawtx_output_pubkeys(#[trigger] tx.outputs@[k]@) is Ok)
}

/// What [`extract`] returns for a readable transaction.
pub open spec fn spec_rawtx_result(f: &RawTxFeatures, tx: &TxData) -> bool {
    &&& f.version == tx.version
    &&& f.inputs@.len() == tx.inputs@.len()
    &&& f.outputs@.len() == tx.outputs@.len()
    &&& forall|k: int|
        0 <= k < tx.inputs@.len() ==> spec_input_matches(#[trigger] f.inputs@[k], tx.inputs@[k]@)
    &&& forall|k: int|
        0 <= k < tx.outputs@.len() ==> spec_output_matches(#[trigger] f.outputs@[k], tx.outputs@[k]@)
}

/// The text of rawtx-rs's error on an unreadable input: that of `InputInfo::new`,
/// or, where that reads the input, that of `SignatureInfo::all_from`.
pub open spec fn spec_input_error(input: InputView) -> Seq<char> {
    match rawtx_input_info(input) {
        Err(m) => m,
        Ok(_) => match rawtx_input_signatures(input) {
            Err(m) => m,
            Ok(_) => Seq::empty(),
        },
    }
}

/// The error names the first input that rawtx-rs cannot read, or, when it reads
/// every input, the first output it cannot read.
pub open spec fn spec_rawtx_error(e: RawTxError, tx: &TxData) -> bool {
    match e {
        RawTxError::Input(k, detail) => {
            &&& k < tx.inputs@.len()
            &&& !spec_input_readable(tx.inputs@[k as int]@)
            &&& forall|j: int| 0 <= j < k ==> spec_input_readable(#[trigger] tx.inputs@[j]@)
            &&& detail@ == spec_input_error(tx.inputs@[k as int]@)
        },
        RawTxError::Output(k, detail) => {
            &&& k < tx.outputs@.len()
            &&& rawtx_output_pubkeys(tx.outputs@[k as int]@) is Err
            &&& rawtx_output_pubkeys(tx.outputs@[k as int]@)->Err_0 == detail@
            &&& forall|j: int| 0 <= j < tx.inputs@.len() ==> spec_input_readable(#[trigger] tx.inputs@[j]@)
            &&& forall|j: int| 0 <= j < k ==> rawtx_output_pubkeys(#[trigger] tx.outputs@[j]@) is Ok
        },
    }
}

/// rawtx-rs panics reading the transaction: going through the inputs in order, it
/// reaches an input whose P2PK signature it misreads after reading every earlier
/// input.
pub open spec fn spec_rawtx_panics(tx: &TxData) -> bool {
    exists|k: int|
        0 <= k < tx.inputs@.len() && spec_p2pk_misread(#[trigger] tx.inputs@[k]@) && forall|j: int|
            0 <= j < k ==> spec_input_readable(tx.inputs@[j]@)
}

/// The position of the input at which rawtx-rs would panic reading the
/// transaction (see [`spec_rawtx_panics`]), if any.
pub fn rawtx_panic_input(tx: &TxData) -> (r: Option<usize>)
    ensures
        r is Some <==> spec_rawtx_panics(tx),
        r matches Some(k) ==> k < tx.inputs@.len() && spec_p2pk_misread(tx.inputs@[k as int]@)
            && forall|j: int| 0 <= j < k ==> spec_input_readable(tx.inputs@[j]@),
{
    let mut k: usize = 0;
    while k < tx.inputs.len()
        invariant
            k <= tx.inputs@.len(),
            forall|j: int|
                0 <= j < k ==> spec_input_readable(#[trigger] tx.inputs@[j]@) && !spec_p2pk_misread(
                    tx.inputs@[j]@,
                ),
        decreases tx.inputs@.len() - k,
    {
        let input = &tx.inputs[k];
        if p2pk_misread(input) {
            return Some(k);
        }
        let readable = rawtx_input_report(input).is_ok() && rawtx_signature_report(input).is_ok();
        if !readable {
            assert(!spec_input_readable(tx.inputs@[k as int]@));
            assert forall|m: int|
                0 <= m < tx.inputs@.len() && spec_p2pk_misread(#[trigger] tx.inputs@[m]@) implies !(
                forall|j: int| 0 <= j < m ==> spec_input_readable(tx.inputs@[j]@)) by {
                if m > k {
                    assert(!spec_input_readable(tx.inputs@[k as int]@));
                } else if m < k {
                    assert(!spec_p2pk_misread(tx.inputs@[m]@));
                }
            }
            return None;
        }
        k = k + 1;
    }
    None
}

/// Read the characteristics of every input and output with rawtx-rs. Left out:
/// a transaction on which rawtx-rs panics.
pub fn extract(tx: &TxData) -> (r: Result<RawTxFeatures, RawTxError>)
    requires
        !spec_rawtx_panics(tx),
    ensures
        r matches Ok(f) ==> spec_rawtx_result(&f, tx),
        r is Ok <==> spec_rawtx_readable(tx),
        r matches Err(e) ==> spec_rawtx_error(e, tx),
{
    let mut inputs: Vec<InputCharacteristics> = Vec::new();
    let mut k: usize = 0;
    while k < tx.inputs.len()
        invariant
            k <= tx.inputs@.len(),
            !spec_rawtx_panics(tx),
            inputs@.len() == k,
            forall|j: int| 0 <= j < k ==> spec_input_readable(#[trigger] tx.inputs@[j]@),
            forall|j: int| 0 <= j < k ==> spec_input_matches(#[trigger] inputs@[j], tx.inputs@[j]@),
        decreases tx.inputs@.len() - k,
    {
        let input = &tx.inputs[k];
        assert(!spec_p2pk_misread(tx.inputs@[k as int]@));
        let info = match rawtx_input_report(input) {
            Ok(info) => info,
            Err(m) => return Err(RawTxError::Input(k, m)),
        };
        let sigs = match rawtx_signature_report(input) {
            Ok(sigs) => sigs,
            Err(m) => return Err(RawTxError::Input(k, m)),
        };
        let reveals_inscription = match rawtx_inscription(input) {
            Some(b) => b,
            None => false,
        };
        let c = InputCharacteristics {
            input_type: code_or(info.type_code, RawInputType::Unknown),
            multisig: info.multisig,
            signatures: convert_signatures(&sigs),
            pubkeys: convert_pubkeys(&info.pubkeys),
            reveals_inscription,
        };
        inputs.push(c);
        k = k + 1;
    }
    let mut outputs: Vec<OutputCharacteristics> = Vec::new();
    let mut k: usize = 0;
    while k < tx.outputs.len()
        invariant
            k <= tx.outputs@.len(),
            outputs@.len() == k,
            inputs@.len() == tx.inputs@.len(),
            forall|j: int| 0 <= j < tx.inputs@.len() ==> spec_input_readable(#[trigger] tx.inputs@[j]@),
            forall|j: int|
                0 <= j < tx.inputs@.len() ==> spec_input_matches(#[trigger] inputs@[j], tx.inputs@[j]@),
            forall|j: int| 0 <= j < k ==> rawtx_output_pubkeys(#[trigger] tx.outputs@[j]@) is Ok,
            forall|j: int|
                0 <= j < k ==> spec_output_matches(#[trigger] outputs@[j], tx.outputs@[j]@),
        decreases tx.outputs@.len() - k,
    {
        let output = &tx.outputs[k];
        let keys = match rawtx_output_report(output) {
            Ok(keys) => keys,
            Err(m) => return Err(RawTxError::Output(k, m)),
        };
        let c = OutputCharacteristics {
            output_type: RawOutputType::from_txout(output),
            pubkeys: convert_pubkeys(&keys),
        };
        outputs.push(c);
        k = k + 1;
    }
    Ok(RawTxFeatures { version: tx.version, inputs, outputs })
}

/// Each signature of a read input keeps what rawtx-rs reports of that same
/// signature: its length, whether it is a Schnorr signature, and its low-R and
/// low-S answers.
pub proof fn lemma_signature_facts_kept(f: &RawTxFeatures, tx: &TxData)
    requires
        spec_rawtx_result(f, tx),
    ensures
        forall|k: int, i: int|
            0 <= k < tx.inputs@.len() && 0 <= i < f.inputs@[k].signatures@.len() ==> {
                let reported = rawtx_input_signatures(tx.inputs@[k]@)->Ok_0;
                let c = #[trigger] f.inputs@[k].signatures@[i];
                &&& f.inputs@[k].signatures@.len() == reported.len()
                &&& c.low_r == reported[i].low_r
                &&& c.low_s == reported[i].low_s
                &&& c.length == reported[i].length
                &&& (c.signature_type == SigAlgo::Schnorr) == reported[i].schnorr
            },
{
    assert forall|k: int, i: int|
        0 <= k < tx.inputs@.len() && 0 <= i < f.inputs@[k].signatures@.len() implies {
            let reported = rawtx_input_signatures(tx.inputs@[k]@)->Ok_0;
            let c = #[trigger] f.inputs@[k].signatures@[i];
            &&& f.inputs@[k].signatures@.len() == reported.len()
            &&& c.low_r == reported[i].low_r
            &&& c.low_s == reported[i].low_s
            &&& c.length == reported[i].length
            &&& (c.signature_type == SigAlgo::Schnorr) == reported[i].schnorr
        } by {
        assert(spec_input_matches(f.inputs@[k], tx.inputs@[k]@));
    }
}

} // verus!

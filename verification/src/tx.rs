//! The transaction as plain data: what the analyses read of a Bitcoin transaction
//! and of the outputs its inputs spend.

use vstd::prelude::*;

use bitcoin::consensus::encode::Error as ConsensusError;
use bitcoin::hashes::Hash as BitcoinHash;
use bitcoin::{Amount, OutPoint, ScriptBuf, Sequence, Transaction, TxIn, TxOut, Txid, Witness};

verus! {

/// A transaction output: amount in satoshis and locking script.
#[derive(Debug, Clone, PartialEq, Eq)]
pub struct TxOutput {
    pub value: u64,
    pub script_pubkey: Vec<u8>,
}

/// A transaction input: the outpoint it spends, its script_sig, nSequence and
/// witness stack.
#[derive(Debug, Clone, PartialEq, Eq)]
pub struct TxInput {
    /// Txid of the spent transaction, in internal byte order.
    pub prev_txid: [u8; 32],
    pub prev_vout: u32,
    pub script_sig: Vec<u8>,
    pub sequence: u32,
    pub witness: Vec<Vec<u8>>,
}

/// A Bitcoin transaction.
#[derive(Debug, Clone, PartialEq, Eq)]
pub struct TxData {
    pub version: i32,
    pub lock_time: u32,
    pub inputs: Vec<TxInput>,
    pub outputs: Vec<TxOutput>,
}

/// Mathematical view of a [`TxOutput`].
pub struct OutputView {
    pub value: u64,
    pub script_pubkey: Seq<u8>,
}

/// Mathematical view of a [`TxInput`].
pub struct InputView {
    pub prev_txid: Seq<u8>,
    pub prev_vout: u32,
    pub script_sig: Seq<u8>,
    pub sequence: u32,
    pub witness: Seq<Seq<u8>>,
}

/// Mathematical view of a [`TxData`].
pub struct TxView {
    pub version: i32,
    pub lock_time: u32,
    pub inputs: Seq<InputView>,
    pub outputs: Seq<OutputView>,
}

impl View for TxOutput {
    type V = OutputView;

    open spec fn view(&self) -> OutputView {
        OutputView { value: self.value, script_pubkey: self.script_pubkey@ }
    }
}

impl View for TxInput {
    type V = InputView;

    open spec fn view(&self) -> InputView {
        InputView {
            prev_txid: self.prev_txid@,
            prev_vout: self.prev_vout,
            script_sig: self.script_sig@,
            sequence: self.sequence,
            witness: self.witness@.map_values(|w: Vec<u8>| w@),
        }
    }
}

impl View for TxData {
    type V = TxView;

    open spec fn view(&self) -> TxView {
        TxView {
            version: self.version,
            lock_time: self.lock_time,
            inputs: self.inputs@.map_values(|i: TxInput| i@),
            outputs: self.outputs@.map_values(|o: TxOutput| o@),
        }
    }
}

/// The opcode that makes an output provably unspendable.
pub const OP_RETURN: u8 = 0x6a;

/// A script is an OP_RETURN script when its first byte is `OP_RETURN`.
pub open spec fn spec_is_op_return(script: Seq<u8>) -> bool {
    script.len() > 0 && script[0] == OP_RETURN
}

/// An outpoint is null (as in a coinbase input) when its txid is all zero and its
/// index is `0xFFFFFFFF`.
pub open spec fn spec_is_null_outpoint(txid: Seq<u8>, vout: u32) -> bool {
    &&& vout == 0xFFFF_FFFF
    &&& forall|k: int| 0 <= k < txid.len() ==> txid[k] == 0
}

/// A transaction is a coinbase when it has exactly one input and that input
/// spends the null outpoint.
pub open spec fn spec_is_coinbase(tx: TxView) -> bool {
    tx.inputs.len() == 1 && spec_is_null_outpoint(tx.inputs[0].prev_txid, tx.inputs[0].prev_vout)
}

impl TxOutput {
    pub fn is_op_return(&self) -> (r: bool)
        ensures
            r == spec_is_op_return(self.script_pubkey@),
    {
        self.script_pubkey.len() > 0 && self.script_pubkey[0] == OP_RETURN
    }
}

impl TxInput {
    pub fn spends_null_outpoint(&self) -> (r: bool)
        ensures
            r == spec_is_null_outpoint(self.prev_txid@, self.prev_vout),
    {
        if self.prev_vout != 0xFFFF_FFFF {
            return false;
        }
        let mut k: usize = 0;
        while k < 32
            invariant
                k <= 32,
                self.prev_txid@.len() == 32,
                forall|j: int| 0 <= j < k ==> self.prev_txid@[j] == 0,
            decreases 32 - k,
        {
            if self.prev_txid[k] != 0 {
                return false;
            }
            k = k + 1;
        }
        true
    }
}

impl TxData {
    pub fn is_coinbase(&self) -> (r: bool)
        ensures
            r == spec_is_coinbase(self@),
    {
        self.inputs.len() == 1 && self.inputs[0].spends_null_outpoint()
    }
}

/// Byte-wise equality of two byte strings.
pub fn bytes_eq(a: &[u8], b: &[u8]) -> (r: bool)
    ensures
        r == (a@ == b@),
{
    if a.len() != b.len() {
        return false;
    }
    let mut k: usize = 0;
    while k < a.len()
        invariant
            k <= a.len(),
            a.len() == b.len(),
            forall|j: int| 0 <= j < k ==> a@[j] == b@[j],
        decreases a.len() - k,
    {
        if a[k] != b[k] {
            return false;
        }
        k = k + 1;
    }
    assert(a@ =~= b@);
    true
}

/// The transaction that rust-bitcoin's consensus decoder reads from the given
/// bytes, or `None` when it rejects them.
pub uninterp spec fn consensus_decoded(bytes: Seq<u8>) -> Option<TxView>;

/// The txid that rust-bitcoin computes for a transaction, in internal byte order.
pub uninterp spec fn txid_of(tx: TxView) -> Seq<u8>;

#[verifier::external_type_specification]
#[verifier::external_body]
pub struct ExConsensusError(ConsensusError);

/// Trusted: `bitcoin::consensus::deserialize::<Transaction>`. It reads one whole
/// transaction from the bytes (failing when bytes are left over); the result,
/// copied field by field into plain data, is what [`consensus_decoded`] names.
#[verifier::external_body]
fn consensus_decode_tx(bytes: &[u8]) -> (r: Result<TxData, ConsensusError>)
    ensures
        r matches Ok(tx) ==> consensus_decoded(bytes@) == Some(tx@),
        r is Err ==> consensus_decoded(bytes@) is None,
{
    bitcoin::consensus::deserialize::<Transaction>(bytes).map(|tx| TxData {
        version: tx.version.0,
        lock_time: tx.lock_time.to_consensus_u32(),
        inputs: tx.input.iter().map(|i| TxInput {
            prev_txid: i.previous_output.txid.to_byte_array(),
            prev_vout: i.previous_output.vout,
            script_sig: i.script_sig.to_bytes(),
            sequence: i.sequence.0,
            witness: i.witness.to_vec(),
        }).collect(),
        outputs: tx.output.iter().map(|o| TxOutput { value: o.value.to_sat(), script_pubkey: o.script_pubkey.to_bytes() }).collect(),
    })
}

/// Trusted: `bitcoin::Transaction::compute_txid` on the transaction built from
/// the plain data; the 32 bytes it returns are what [`txid_of`] names.
#[verifier::external_body]
fn compute_txid_bytes(tx: &TxData) -> (r: [u8; 32])
    ensures
        r@ == txid_of(tx@),
{
    let t = Transaction {
        version: bitcoin::transaction::Version(tx.version),
        lock_time: bitcoin::absolute::LockTime::from_consensus(tx.lock_time),
        input: tx.inputs.iter().map(|i| TxIn {
            previous_output: OutPoint::new(Txid::from_byte_array(i.prev_txid), i.prev_vout),
            script_sig: ScriptBuf::from_bytes(i.script_sig.clone()),
            sequence: Sequence(i.sequence),
            witness: Witness::from_slice(&i.witness),
        }).collect(),
        output: tx.outputs.iter().map(|o| TxOut { value: Amount::from_sat(o.value), script_pubkey: ScriptBuf::from_bytes(o.script_pubkey.clone()) }).collect(),
    };
    t.compute_txid().to_byte_array()
}

/// The txid of a transaction, in internal byte order.
pub fn txid(tx: &TxData) -> (r: [u8; 32])
    ensures
        r@ == txid_of(tx@),
{
    compute_txid_bytes(tx)
}

/// Why a transaction could not be decoded from consensus bytes.
#[derive(Debug)]
pub struct TxDecodeError {
    /// The decoder's own description of the failure.
    pub detail: String,
}

/// Decode a consensus-encoded transaction.
pub fn bitcoin_tx_from_bytes(bytes: &[u8]) -> (r: Result<TxData, TxDecodeError>)
    ensures
        r matches Ok(tx) ==> consensus_decoded(bytes@) == Some(tx@),
        r is Err <==> consensus_decoded(bytes@) is None,
{
    match consensus_decode_tx(bytes) {
        Ok(tx) => Ok(tx),
        Err(e) => Err(TxDecodeError { detail: e.to_string() }),
    }
}

/// A spent coin as the kernel reports it: a signed amount and the locking script.
pub type KernelCoin = (i64, Vec<u8>);

/// A kernel coin whose amount is negative, so no output can carry it.
#[derive(Debug, Clone, Copy, PartialEq, Eq)]
pub struct NegativeCoinValue {
    pub value_sat: i64,
}

/// Convert kernel spent-output coins into outputs, in order. Fails on the first
/// coin with a negative amount.
pub fn prevouts_from_kernel_coins(coins: Vec<KernelCoin>) -> (r: Result<
    Vec<TxOutput>,
    NegativeCoinValue,
>)
    ensures
        r is Ok <==> forall|k: int| 0 <= k < coins@.len() ==> coins@[k].0 >= 0,
        r matches Ok(outs) ==> {
            &&& outs@.len() == coins@.len()
            &&& forall|k: int|
                0 <= k < coins@.len() ==> outs@[k].value == coins@[k].0 && outs@[k].script_pubkey@
                    == coins@[k].1@
        },
        r matches Err(e) ==> exists|k: int|
            0 <= k < coins@.len() && coins@[k].0 == e.value_sat && e.value_sat < 0 && forall|j: int|
                0 <= j < k ==> coins@[j].0 >= 0,
{
    let mut outs: Vec<TxOutput> = Vec::new();
    let n = coins.len();
    let mut k: usize = 0;
    while k < n
        invariant
            n == coins@.len(),
            k <= n,
            outs@.len() == k,
            forall|j: int| 0 <= j < k ==> coins@[j].0 >= 0,
            forall|j: int|
                0 <= j < k ==> outs@[j].value == coins@[j].0 && outs@[j].script_pubkey@
                    == coins@[j].1@,
        decreases n - k,
    {
        let value_sat = coins[k].0;
        if value_sat < 0 {
            return Err(NegativeCoinValue { value_sat });
        }
        outs.push(TxOutput { value: value_sat as u64, script_pubkey: coins[k].1.clone() });
        k = k + 1;
    }
    Ok(outs)
}

/// Lower-case hexadecimal digit of a nibble.
pub open spec fn spec_hex_digit(n: u8) -> char {
    match n {
        0 => '0',
        1 => '1',
        2 => '2',
        3 => '3',
        4 => '4',
        5 => '5',
        6 => '6',
        7 => '7',
        8 => '8',
        9 => '9',
        10 => 'a',
        11 => 'b',
        12 => 'c',
        13 => 'd',
        14 => 'e',
        15 => 'f',
        _ => 'f',
    }
}

/// Lower-case hexadecimal of a byte string, two digits per byte.
pub open spec fn spec_hex(bytes: Seq<u8>) -> Seq<char>
    decreases bytes.len(),
{
    if bytes.len() == 0 {
        seq![]
    } else {
        spec_hex(bytes.drop_last()) + seq![
            spec_hex_digit(bytes.last() / 16),
            spec_hex_digit(bytes.last() % 16),
        ]
    }
}

/// A txid as it is displayed: the hexadecimal of its bytes in reverse order.
pub open spec fn spec_txid_display(txid: Seq<u8>) -> Seq<char> {
    spec_hex(txid.reverse())
}

fn hex_digit(n: u8) -> (s: &'static str)
    requires
        n < 16,
    ensures
        s@ == seq![spec_hex_digit(n)],
{
    match n {
        0 => {
            proof {
                reveal_strlit("0");
            }
            "0"
        },
        1 => {
            proof {
                reveal_strlit("1");
            }
            "1"
        },
        2 => {
            proof {
                reveal_strlit("2");
            }
            "2"
        },
        3 => {
            proof {
                reveal_strlit("3");
            }
            "3"
        },
        4 => {
            proof {
                reveal_strlit("4");
            }
            "4"
        },
        5 => {
            proof {
                reveal_strlit("5");
            }
            "5"
        },
        6 => {
            proof {
                reveal_strlit("6");
            }
            "6"
        },
        7 => {
            proof {
                reveal_strlit("7");
            }
            "7"
        },
        8 => {
            proof {
                reveal_strlit("8");
            }
            "8"
        },
        9 => {
            proof {
                reveal_strlit("9");
            }
            "9"
        },
        10 => {
            proof {
                reveal_strlit("a");
            }
            "a"
        },
        11 => {
            proof {
                reveal_strlit("b");
            }
            "b"
        },
        12 => {
            proof {
                reveal_strlit("c");
            }
            "c"
        },
        13 => {
            proof {
                reveal_strlit("d");
            }
            "d"
        },
        14 => {
            proof {
                reveal_strlit("e");
            }
            "e"
        },
        15 => {
            proof {
                reveal_strlit("f");
            }
            "f"
        },
        _ => {
            proof {
                reveal_strlit("f");
            }
            "f"
        },
    }
}

/// Display form of a txid (byte-reversed lower-case hexadecimal).
pub fn txid_display(txid: &[u8; 32]) -> (r: String)
    ensures
        r@ == spec_txid_display(txid@),
{
    let ghost rev = txid@.reverse();
    let mut r = String::new();
    let mut k: usize = 0;
    while k < 32
        invariant
            k <= 32,
            txid@.len() == 32,
            rev == txid@.reverse(),
            r@ == spec_hex(rev.take(k as int)),
        decreases 32 - k,
    {
        let b = txid[31 - k];
        assert(rev[k as int] == b);
        assert(rev.take(k + 1).drop_last() =~= rev.take(k as int));
        r.append(hex_digit(b / 16));
        r.append(hex_digit(b % 16));
        k = k + 1;
        assert(r@ =~= spec_hex(rev.take(k as int)));
    }
    assert(rev.take(32) =~= rev);
    r
}

} // verus!

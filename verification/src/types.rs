//! Categorical feature types.
//!
//! Every enum here has a stable `u8` code (its serialized form), a
//! human-readable label, and a fixed vocabulary order used for one-hot and
//! multi-hot encodings. Codes increase along the vocabulary order.

use vstd::prelude::*;

use rawtx_rs::output::OutputType;
use rawtx_rs::output::OutputTypeDetection;

verus! {

/// A closed categorical type with a stable `u8` code, a label and a vocabulary.
pub trait Categorical: Sized + Copy {
    /// The stable integer code of a value (its serialized form).
    spec fn spec_code(self) -> u8;

    /// The human-readable label of a value.
    spec fn spec_label(self) -> Seq<char>;

    /// The whole vocabulary, in ascending code order.
    spec fn spec_all() -> Seq<Self>;

    /// Position of a value in [`Categorical::spec_all`].
    spec fn spec_dense_id(self) -> int;

    /// The value whose code is `v`, if any.
    spec fn spec_from_u8(v: u8) -> Option<Self>;

    fn as_u8(&self) -> (c: u8)
        ensures
            c == self.spec_code(),
    ;

    fn label(&self) -> (s: &'static str)
        ensures
            s@ == self.spec_label(),
    ;

    fn from_u8(v: u8) -> (r: Option<Self>)
        ensures
            r == Self::spec_from_u8(v),
    ;

    fn all() -> (v: Vec<Self>)
        ensures
            v@ == Self::spec_all(),
    ;

    /// Every value stands in the vocabulary, at its dense id.
    proof fn lemma_dense_id(x: Self)
        ensures
            0 <= x.spec_dense_id() < Self::spec_all().len(),
            Self::spec_all()[x.spec_dense_id()] == x,
    ;

    /// The value at each position of the vocabulary has that position as dense id.
    proof fn lemma_positions()
        ensures
            forall|i: int|
                0 <= i < Self::spec_all().len() ==> (#[trigger] Self::spec_all()[i]).spec_dense_id()
                    == i,
    ;

    /// Codes identify values, and the vocabulary is ordered by code.
    proof fn lemma_code_order(x: Self, y: Self)
        ensures
            x.spec_dense_id() < y.spec_dense_id() <==> x.spec_code() < y.spec_code(),
            x.spec_code() == y.spec_code() <==> x == y,
    ;

    /// Reading a code back gives the value that wrote it, and nothing else.
    proof fn lemma_from_u8(v: u8, x: Self)
        ensures
            Self::spec_from_u8(x.spec_code()) == Some(x),
            Self::spec_from_u8(v) matches Some(y) ==> y.spec_code() == v,
    ;
}

/// The value whose code is `c`, or `fallback` when no value has that code.
pub open spec fn spec_code_or<T: Categorical>(c: u8, fallback: T) -> T {
    match T::spec_from_u8(c) {
        Some(x) => x,
        None => fallback,
    }
}

pub fn code_or<T: Categorical>(c: u8, fallback: T) -> (r: T)
    ensures
        r == spec_code_or(c, fallback),
{
    match T::from_u8(c) {
        Some(x) => x,
        None => fallback,
    }
}

/// The distinct values of `items`, in ascending code order: the vocabulary
/// filtered by membership in `items`.
pub open spec fn spec_unique_by_code<T: Categorical>(items: Seq<T>) -> Seq<T> {
    T::spec_all().filter(|x: T| items.contains(x))
}

/// Does `items` hold `x`? (Compared by code.)
pub fn contains_value<T: Categorical>(items: &Vec<T>, x: T) -> (r: bool)
    ensures
        r == items@.contains(x),
{
    let c = x.as_u8();
    let mut j: usize = 0;
    while j < items.len()
        invariant
            j <= items@.len(),
            c == x.spec_code(),
            forall|i: int| 0 <= i < j ==> items@[i] != x,
        decreases items@.len() - j,
    {
        proof {
            T::lemma_code_order(items@[j as int], x);
        }
        if items[j].as_u8() == c {
            assert(items@[j as int] == x);
            return true;
        }
        j = j + 1;
    }
    false
}

/// The distinct values of `items`, sorted by their code (the code being the
/// sort-and-dedup key of every categorical type).
pub fn unique_by<T: Categorical>(items: &Vec<T>) -> (r: Vec<T>)
    ensures
        r@ == spec_unique_by_code(items@),
{
    let all = T::all();
    let ghost pred = |x: T| items@.contains(x);
    let mut r: Vec<T> = Vec::new();
    let mut k: usize = 0;
    while k < all.len()
        invariant
            all@ == T::spec_all(),
            pred == (|x: T| items@.contains(x)),
            k <= all@.len(),
            r@ == all@.take(k as int).filter(pred),
        decreases all@.len() - k,
    {
        reveal_with_fuel(Seq::<_>::filter, 1);
        assert(all@.take(k + 1).drop_last() =~= all@.take(k as int));
        if contains_value(items, all[k]) {
            r.push(all[k]);
        }
        k = k + 1;
    }
    assert(all@.take(all@.len() as int) =~= all@);
    r
}

/// A filtered vocabulary is still strictly increasing in code.
proof fn lemma_filter_increasing<T: Categorical>(s: Seq<T>, pred: spec_fn(T) -> bool)
    requires
        forall|i: int, j: int| 0 <= i < j < s.len() ==> (#[trigger] s[i]).spec_code() < (#[trigger] s[j]).spec_code(),
    ensures
        forall|i: int, j: int|
            0 <= i < j < s.filter(pred).len() ==> (#[trigger] s.filter(pred)[i]).spec_code()
                < (#[trigger] s.filter(pred)[j]).spec_code(),
        forall|i: int| 0 <= i < s.filter(pred).len() ==> s.contains(#[trigger] s.filter(pred)[i]),
    decreases s.len(),
{
    reveal_with_fuel(Seq::<_>::filter, 1);
    if s.len() > 0 {
        let p = s.drop_last();
        lemma_filter_increasing(p, pred);
        let f = s.filter(pred);
        let fp = p.filter(pred);
        assert forall|i: int| 0 <= i < f.len() implies s.contains(#[trigger] f[i]) by {
            if i < fp.len() {
                assert(f[i] == fp[i]);
                let w = choose|w: int| 0 <= w < p.len() && p[w] == fp[i];
                assert(s[w] == fp[i]);
            } else {
                assert(f[i] == s.last());
                assert(s[s.len() - 1] == s.last());
            }
        }
        assert forall|i: int, j: int|
            0 <= i < j < f.len() implies (#[trigger] f[i]).spec_code() < (#[trigger] f[j]).spec_code() by {
            if j < fp.len() {
                assert(f[i] == fp[i] && f[j] == fp[j]);
            } else {
                assert(f[j] == s.last());
                assert(f[i] == fp[i]);
                let w = choose|w: int| 0 <= w < p.len() && p[w] == fp[i];
                assert(s[w] == p[w]);
                assert(s[s.len() - 1] == s.last());
            }
        }
    }
}

/// What [`unique_by`] returns holds each value of `items` exactly once, in
/// strictly ascending code order, and nothing else.
pub proof fn lemma_unique_by<T: Categorical>(items: Seq<T>)
    ensures
        forall|x: T| #[trigger] spec_unique_by_code(items).contains(x) <==> items.contains(x),
        forall|i: int, j: int|
            0 <= i < j < spec_unique_by_code(items).len() ==> (#[trigger] spec_unique_by_code(
                items,
            )[i]).spec_code() < (#[trigger] spec_unique_by_code(items)[j]).spec_code(),
{
    let pred = |x: T| items.contains(x);
    let all = T::spec_all();
    lemma_vocabulary::<T>();
    lemma_filter_increasing(all, pred);
    broadcast use vstd::seq_lib::group_filter_ensures;
    assert forall|x: T| #[trigger] spec_unique_by_code(items).contains(x) <==> items.contains(x) by {
        if items.contains(x) {
            T::lemma_dense_id(x);
            all.lemma_filter_contains(pred, x.spec_dense_id());
        }
        if spec_unique_by_code(items).contains(x) {
            let i = choose|i: int| 0 <= i < all.filter(pred).len() && all.filter(pred)[i] == x;
            all.lemma_filter_pred(pred, i);
        }
    }
}

/// Every value of a categorical type appears in its vocabulary exactly once,
/// and the vocabulary is strictly increasing in code.
pub proof fn lemma_vocabulary<T: Categorical>()
    ensures
        forall|x: T| #[trigger] T::spec_all().contains(x),
        forall|i: int, j: int|
            0 <= i < j < T::spec_all().len() ==> (#[trigger] T::spec_all()[i]).spec_code()
                < (#[trigger] T::spec_all()[j]).spec_code(),
{
    assert forall|x: T| #[trigger] T::spec_all().contains(x) by {
        T::lemma_dense_id(x);
    }
    assert forall|i: int, j: int|
        0 <= i < j < T::spec_all().len() implies (#[trigger] T::spec_all()[i]).spec_code()
        < (#[trigger] T::spec_all()[j]).spec_code() by {
        T::lemma_positions();
        T::lemma_code_order(T::spec_all()[i], T::spec_all()[j]);
    }
}

/// Input ordering fingerprint of a transaction.
#[derive(Debug, Clone, Copy, PartialEq, Eq, Hash, Structural)]
pub enum InputSorting {
    /// One input only.
    Single,
    /// Inputs ordered by ascending value.
    Ascending,
    /// Inputs ordered by descending value.
    Descending,
    /// Inputs ordered as BIP69 prescribes.
    Bip69,
    /// Inputs ordered by the age of their prevouts.
    Historical,
    /// No ordering recognised.
    Unknown,
}

impl Categorical for InputSorting {
    open spec fn spec_code(self) -> u8 {
        match self {
            InputSorting::Single => 0,
            InputSorting::Ascending => 1,
            InputSorting::Descending => 2,
            InputSorting::Bip69 => 3,
            InputSorting::Historical => 4,
            InputSorting::Unknown => 5,
        }
    }

    open spec fn spec_label(self) -> Seq<char> {
        match self {
            InputSorting::Single => "single"@,
            InputSorting::Ascending => "ascending"@,
            InputSorting::Descending => "descending"@,
            InputSorting::Bip69 => "bip69"@,
            InputSorting::Historical => "historical"@,
            InputSorting::Unknown => "unknown"@,
        }
    }

    open spec fn spec_dense_id(self) -> int {
        match self {
            InputSorting::Single => 0,
            InputSorting::Ascending => 1,
            InputSorting::Descending => 2,
            InputSorting::Bip69 => 3,
            InputSorting::Historical => 4,
            InputSorting::Unknown => 5,
        }
    }

    open spec fn spec_all() -> Seq<Self> {
        seq![InputSorting::Single, InputSorting::Ascending, InputSorting::Descending, InputSorting::Bip69, InputSorting::Historical, InputSorting::Unknown]
    }

    fn as_u8(&self) -> (c: u8) {
        match self {
            InputSorting::Single => 0,
            InputSorting::Ascending => 1,
            InputSorting::Descending => 2,
            InputSorting::Bip69 => 3,
            InputSorting::Historical => 4,
            InputSorting::Unknown => 5,
        }
    }

    fn label(&self) -> (s: &'static str) {
        match self {
            InputSorting::Single => "single",
            InputSorting::Ascending => "ascending",
            InputSorting::Descending => "descending",
            InputSorting::Bip69 => "bip69",
            InputSorting::Historical => "historical",
            InputSorting::Unknown => "unknown",
        }
    }

    open spec fn spec_from_u8(v: u8) -> Option<Self> {
        match v {
            0 => Some(InputSorting::Single),
            1 => Some(InputSorting::Ascending),
            2 => Some(InputSorting::Descending),
            3 => Some(InputSorting::Bip69),
            4 => Some(InputSorting::Historical),
            5 => Some(InputSorting::Unknown),
            _ => None,
        }
    }

    fn from_u8(v: u8) -> (r: Option<Self>) {
        match v {
            0 => Some(InputSorting::Single),
            1 => Some(InputSorting::Ascending),
            2 => Some(InputSorting::Descending),
            3 => Some(InputSorting::Bip69),
            4 => Some(InputSorting::Historical),
            5 => Some(InputSorting::Unknown),
            _ => None,
        }
    }

    fn all() -> (v: Vec<Self>) {
        let v = vec![InputSorting::Single, InputSorting::Ascending, InputSorting::Descending, InputSorting::Bip69, InputSorting::Historical, InputSorting::Unknown];
        assert(v@ =~= Self::spec_all());
        v
    }

    proof fn lemma_dense_id(x: Self) {
    }

    proof fn lemma_positions() {
    }

    proof fn lemma_code_order(x: Self, y: Self) {
    }

    proof fn lemma_from_u8(v: u8, x: Self) {
    }
}

/// Coarse output-count structure.
#[derive(Debug, Clone, Copy, PartialEq, Eq, Hash, Structural)]
pub enum OutputStructure {
    Single,
    Double,
    Multi,
    Unknown,
}

impl Categorical for OutputStructure {
    open spec fn spec_code(self) -> u8 {
        match self {
            OutputStructure::Single => 0,
            OutputStructure::Double => 1,
            OutputStructure::Multi => 2,
            OutputStructure::Unknown => 3,
        }
    }

    open spec fn spec_label(self) -> Seq<char> {
        match self {
            OutputStructure::Single => "single"@,
            OutputStructure::Double => "double"@,
            OutputStructure::Multi => "multi"@,
            OutputStructure::Unknown => "unknown"@,
        }
    }

    open spec fn spec_dense_id(self) -> int {
        match self {
            OutputStructure::Single => 0,
            OutputStructure::Double => 1,
            OutputStructure::Multi => 2,
            OutputStructure::Unknown => 3,
        }
    }

    open spec fn spec_all() -> Seq<Self> {
        seq![OutputStructure::Single, OutputStructure::Double, OutputStructure::Multi, OutputStructure::Unknown]
    }

    fn as_u8(&self) -> (c: u8) {
        match self {
            OutputStructure::Single => 0,
            OutputStructure::Double => 1,
            OutputStructure::Multi => 2,
            OutputStructure::Unknown => 3,
        }
    }

    fn label(&self) -> (s: &'static str) {
        match self {
            OutputStructure::Single => "single",
            OutputStructure::Double => "double",
            OutputStructure::Multi => "multi",
            OutputStructure::Unknown => "unknown",
        }
    }

    open spec fn spec_from_u8(v: u8) -> Option<Self> {
        match v {
            0 => Some(OutputStructure::Single),
            1 => Some(OutputStructure::Double),
            2 => Some(OutputStructure::Multi),
            3 => Some(OutputStructure::Unknown),
            _ => None,
        }
    }

    fn from_u8(v: u8) -> (r: Option<Self>) {
        match v {
            0 => Some(OutputStructure::Single),
            1 => Some(OutputStructure::Double),
            2 => Some(OutputStructure::Multi),
            3 => Some(OutputStructure::Unknown),
            _ => None,
        }
    }

    fn all() -> (v: Vec<Self>) {
        let v = vec![OutputStructure::Single, OutputStructure::Double, OutputStructure::Multi, OutputStructure::Unknown];
        assert(v@ =~= Self::spec_all());
        v
    }

    proof fn lemma_dense_id(x: Self) {
    }

    proof fn lemma_positions() {
    }

    proof fn lemma_code_order(x: Self, y: Self) {
    }

    proof fn lemma_from_u8(v: u8, x: Self) {
    }
}

/// Spend type of an input, as classified by rawtx-rs.
#[derive(Debug, Clone, Copy, PartialEq, Eq, Hash, Structural)]
pub enum RawInputType {
    P2pk,
    P2pkLaxDer,
    P2pkh,
    P2pkhLaxDer,
    P2shP2wpkh,
    P2wpkh,
    P2ms,
    P2msLaxDer,
    P2sh,
    P2shP2wsh,
    P2wsh,
    P2trkp,
    P2trsp,
    P2a,
    Coinbase,
    CoinbaseWitness,
    Unknown,
}

impl Categorical for RawInputType {
    open spec fn spec_code(self) -> u8 {
        match self {
            RawInputType::P2pk => 0,
            RawInputType::P2pkLaxDer => 1,
            RawInputType::P2pkh => 2,
            RawInputType::P2pkhLaxDer => 3,
            RawInputType::P2shP2wpkh => 4,
            RawInputType::P2wpkh => 5,
            RawInputType::P2ms => 6,
            RawInputType::P2msLaxDer => 7,
            RawInputType::P2sh => 8,
            RawInputType::P2shP2wsh => 9,
            RawInputType::P2wsh => 10,
            RawInputType::P2trkp => 11,
            RawInputType::P2trsp => 12,
            RawInputType::P2a => 13,
            RawInputType::Coinbase => 14,
            RawInputType::CoinbaseWitness => 15,
            RawInputType::Unknown => 16,
        }
    }

    open spec fn spec_label(self) -> Seq<char> {
        match self {
            RawInputType::P2pk => "p2pk"@,
            RawInputType::P2pkLaxDer => "p2pk_lax_der"@,
            RawInputType::P2pkh => "p2pkh"@,
            RawInputType::P2pkhLaxDer => "p2pkh_lax_der"@,
            RawInputType::P2shP2wpkh => "p2sh_p2wpkh"@,
            RawInputType::P2wpkh => "p2wpkh"@,
            RawInputType::P2ms => "p2ms"@,
            RawInputType::P2msLaxDer => "p2ms_lax_der"@,
            RawInputType::P2sh => "p2sh"@,
            RawInputType::P2shP2wsh => "p2sh_p2wsh"@,
            RawInputType::P2wsh => "p2wsh"@,
            RawInputType::P2trkp => "p2tr_keypath"@,
            RawInputType::P2trsp => "p2tr_scriptpath"@,
            RawInputType::P2a => "p2a"@,
            RawInputType::Coinbase => "coinbase"@,
            RawInputType::CoinbaseWitness => "coinbase_witness"@,
            RawInputType::Unknown => "unknown"@,
        }
    }

    open spec fn spec_dense_id(self) -> int {
        match self {
            RawInputType::P2pk => 0,
            RawInputType::P2pkLaxDer => 1,
            RawInputType::P2pkh => 2,
            RawInputType::P2pkhLaxDer => 3,
            RawInputType::P2shP2wpkh => 4,
            RawInputType::P2wpkh => 5,
            RawInputType::P2ms => 6,
            RawInputType::P2msLaxDer => 7,
            RawInputType::P2sh => 8,
            RawInputType::P2shP2wsh => 9,
            RawInputType::P2wsh => 10,
            RawInputType::P2trkp => 11,
            RawInputType::P2trsp => 12,
            RawInputType::P2a => 13,
            RawInputType::Coinbase => 14,
            RawInputType::CoinbaseWitness => 15,
            RawInputType::Unknown => 16,
        }
    }

    open spec fn spec_all() -> Seq<Self> {
        seq![RawInputType::P2pk, RawInputType::P2pkLaxDer, RawInputType::P2pkh, RawInputType::P2pkhLaxDer, RawInputType::P2shP2wpkh, RawInputType::P2wpkh, RawInputType::P2ms, RawInputType::P2msLaxDer, RawInputType::P2sh, RawInputType::P2shP2wsh, RawInputType::P2wsh, RawInputType::P2trkp, RawInputType::P2trsp, RawInputType::P2a, RawInputType::Coinbase, RawInputType::CoinbaseWitness, RawInputType::Unknown]
    }

    fn as_u8(&self) -> (c: u8) {
        match self {
            RawInputType::P2pk => 0,
            RawInputType::P2pkLaxDer => 1,
            RawInputType::P2pkh => 2,
            RawInputType::P2pkhLaxDer => 3,
            RawInputType::P2shP2wpkh => 4,
            RawInputType::P2wpkh => 5,
            RawInputType::P2ms => 6,
            RawInputType::P2msLaxDer => 7,
            RawInputType::P2sh => 8,
            RawInputType::P2shP2wsh => 9,
            RawInputType::P2wsh => 10,
            RawInputType::P2trkp => 11,
            RawInputType::P2trsp => 12,
            RawInputType::P2a => 13,
            RawInputType::Coinbase => 14,
            RawInputType::CoinbaseWitness => 15,
            RawInputType::Unknown => 16,
        }
    }

    fn label(&self) -> (s: &'static str) {
        match self {
            RawInputType::P2pk => "p2pk",
            RawInputType::P2pkLaxDer => "p2pk_lax_der",
            RawInputType::P2pkh => "p2pkh",
            RawInputType::P2pkhLaxDer => "p2pkh_lax_der",
            RawInputType::P2shP2wpkh => "p2sh_p2wpkh",
            RawInputType::P2wpkh => "p2wpkh",
            RawInputType::P2ms => "p2ms",
            RawInputType::P2msLaxDer => "p2ms_lax_der",
            RawInputType::P2sh => "p2sh",
            RawInputType::P2shP2wsh => "p2sh_p2wsh",
            RawInputType::P2wsh => "p2wsh",
            RawInputType::P2trkp => "p2tr_keypath",
            RawInputType::P2trsp => "p2tr_scriptpath",
            RawInputType::P2a => "p2a",
            RawInputType::Coinbase => "coinbase",
            RawInputType::CoinbaseWitness => "coinbase_witness",
            RawInputType::Unknown => "unknown",
        }
    }

    open spec fn spec_from_u8(v: u8) -> Option<Self> {
        match v {
            0 => Some(RawInputType::P2pk),
            1 => Some(RawInputType::P2pkLaxDer),
            2 => Some(RawInputType::P2pkh),
            3 => Some(RawInputType::P2pkhLaxDer),
            4 => Some(RawInputType::P2shP2wpkh),
            5 => Some(RawInputType::P2wpkh),
            6 => Some(RawInputType::P2ms),
            7 => Some(RawInputType::P2msLaxDer),
            8 => Some(RawInputType::P2sh),
            9 => Some(RawInputType::P2shP2wsh),
            10 => Some(RawInputType::P2wsh),
            11 => Some(RawInputType::P2trkp),
            12 => Some(RawInputType::P2trsp),
            13 => Some(RawInputType::P2a),
            14 => Some(RawInputType::Coinbase),
            15 => Some(RawInputType::CoinbaseWitness),
            16 => Some(RawInputType::Unknown),
            _ => None,
        }
    }

    fn from_u8(v: u8) -> (r: Option<Self>) {
        match v {
            0 => Some(RawInputType::P2pk),
            1 => Some(RawInputType::P2pkLaxDer),
            2 => Some(RawInputType::P2pkh),
            3 => Some(RawInputType::P2pkhLaxDer),
            4 => Some(RawInputType::P2shP2wpkh),
            5 => Some(RawInputType::P2wpkh),
            6 => Some(RawInputType::P2ms),
            7 => Some(RawInputType::P2msLaxDer),
            8 => Some(RawInputType::P2sh),
            9 => Some(RawInputType::P2shP2wsh),
            10 => Some(RawInputType::P2wsh),
            11 => Some(RawInputType::P2trkp),
            12 => Some(RawInputType::P2trsp),
            13 => Some(RawInputType::P2a),
            14 => Some(RawInputType::Coinbase),
            15 => Some(RawInputType::CoinbaseWitness),
            16 => Some(RawInputType::Unknown),
            _ => None,
        }
    }

    fn all() -> (v: Vec<Self>) {
        let v = vec![RawInputType::P2pk, RawInputType::P2pkLaxDer, RawInputType::P2pkh, RawInputType::P2pkhLaxDer, RawInputType::P2shP2wpkh, RawInputType::P2wpkh, RawInputType::P2ms, RawInputType::P2msLaxDer, RawInputType::P2sh, RawInputType::P2shP2wsh, RawInputType::P2wsh, RawInputType::P2trkp, RawInputType::P2trsp, RawInputType::P2a, RawInputType::Coinbase, RawInputType::CoinbaseWitness, RawInputType::Unknown];
        assert(v@ =~= Self::spec_all());
        v
    }

    proof fn lemma_dense_id(x: Self) {
    }

    proof fn lemma_positions() {
    }

    proof fn lemma_code_order(x: Self, y: Self) {
    }

    proof fn lemma_from_u8(v: u8, x: Self) {
    }
}

/// Output type as classified by rawtx-rs, with the OP_RETURN flavors flattened
/// into one integer column (codes 20 and up).
#[derive(Debug, Clone, Copy, PartialEq, Eq, Hash, Structural)]
pub enum RawOutputType {
    P2pk,
    P2pkh,
    P2wpkhV0,
    P2ms,
    P2sh,
    P2wshV0,
    P2tr,
    P2a,
    Unknown,
    OpReturn,
    OpReturnWitnessCommitment,
    OpReturnOmni,
    OpReturnStacksBlockCommit,
    OpReturnLen1Byte,
    OpReturnLen20Byte,
    OpReturnLen80Byte,
    OpReturnBip47PaymentCode,
    OpReturnRskBlock,
    OpReturnCoreDao,
    OpReturnExSat,
    OpReturnHathorNetwork,
    OpReturnRunestone,
}

impl Categorical for RawOutputType {
    open spec fn spec_code(self) -> u8 {
        match self {
            RawOutputType::P2pk => 0,
            RawOutputType::P2pkh => 1,
            RawOutputType::P2wpkhV0 => 2,
            RawOutputType::P2ms => 3,
            RawOutputType::P2sh => 4,
            RawOutputType::P2wshV0 => 5,
            RawOutputType::P2tr => 6,
            RawOutputType::P2a => 7,
            RawOutputType::Unknown => 8,
            RawOutputType::OpReturn => 20,
            RawOutputType::OpReturnWitnessCommitment => 21,
            RawOutputType::OpReturnOmni => 22,
            RawOutputType::OpReturnStacksBlockCommit => 23,
            RawOutputType::OpReturnLen1Byte => 24,
            RawOutputType::OpReturnLen20Byte => 25,
            RawOutputType::OpReturnLen80Byte => 26,
            RawOutputType::OpReturnBip47PaymentCode => 27,
            RawOutputType::OpReturnRskBlock => 28,
            RawOutputType::OpReturnCoreDao => 29,
            RawOutputType::OpReturnExSat => 30,
            RawOutputType::OpReturnHathorNetwork => 31,
            RawOutputType::OpReturnRunestone => 32,
        }
    }

    open spec fn spec_label(self) -> Seq<char> {
        match self {
            RawOutputType::P2pk => "p2pk"@,
            RawOutputType::P2pkh => "p2pkh"@,
            RawOutputType::P2wpkhV0 => "p2wpkh_v0"@,
            RawOutputType::P2ms => "p2ms"@,
            RawOutputType::P2sh => "p2sh"@,
            RawOutputType::P2wshV0 => "p2wsh_v0"@,
            RawOutputType::P2tr => "p2tr"@,
            RawOutputType::P2a => "p2a"@,
            RawOutputType::Unknown => "unknown"@,
            RawOutputType::OpReturn => "op_return"@,
            RawOutputType::OpReturnWitnessCommitment => "op_return_witness_commitment"@,
            RawOutputType::OpReturnOmni => "op_return_omni"@,
            RawOutputType::OpReturnStacksBlockCommit => "op_return_stacks_block_commit"@,
            RawOutputType::OpReturnLen1Byte => "op_return_len_1"@,
            RawOutputType::OpReturnLen20Byte => "op_return_len_20"@,
            RawOutputType::OpReturnLen80Byte => "op_return_len_80"@,
            RawOutputType::OpReturnBip47PaymentCode => "op_return_bip47"@,
            RawOutputType::OpReturnRskBlock => "op_return_rsk"@,
            RawOutputType::OpReturnCoreDao => "op_return_coredao"@,
            RawOutputType::OpReturnExSat => "op_return_exsat"@,
            RawOutputType::OpReturnHathorNetwork => "op_return_hathor"@,
            RawOutputType::OpReturnRunestone => "op_return_runestone"@,
        }
    }

    open spec fn spec_dense_id(self) -> int {
        match self {
            RawOutputType::P2pk => 0,
            RawOutputType::P2pkh => 1,
            RawOutputType::P2wpkhV0 => 2,
            RawOutputType::P2ms => 3,
            RawOutputType::P2sh => 4,
            RawOutputType::P2wshV0 => 5,
            RawOutputType::P2tr => 6,
            RawOutputType::P2a => 7,
            RawOutputType::Unknown => 8,
            RawOutputType::OpReturn => 9,
            RawOutputType::OpReturnWitnessCommitment => 10,
            RawOutputType::OpReturnOmni => 11,
            RawOutputType::OpReturnStacksBlockCommit => 12,
            RawOutputType::OpReturnLen1Byte => 13,
            RawOutputType::OpReturnLen20Byte => 14,
            RawOutputType::OpReturnLen80Byte => 15,
            RawOutputType::OpReturnBip47PaymentCode => 16,
            RawOutputType::OpReturnRskBlock => 17,
            RawOutputType::OpReturnCoreDao => 18,
            RawOutputType::OpReturnExSat => 19,
            RawOutputType::OpReturnHathorNetwork => 20,
            RawOutputType::OpReturnRunestone => 21,
        }
    }

    open spec fn spec_all() -> Seq<Self> {
        seq![RawOutputType::P2pk, RawOutputType::P2pkh, RawOutputType::P2wpkhV0, RawOutputType::P2ms, RawOutputType::P2sh, RawOutputType::P2wshV0, RawOutputType::P2tr, RawOutputType::P2a, RawOutputType::Unknown, RawOutputType::OpReturn, RawOutputType::OpReturnWitnessCommitment, RawOutputType::OpReturnOmni, RawOutputType::OpReturnStacksBlockCommit, RawOutputType::OpReturnLen1Byte, RawOutputType::OpReturnLen20Byte, RawOutputType::OpReturnLen80Byte, RawOutputType::OpReturnBip47PaymentCode, RawOutputType::OpReturnRskBlock, RawOutputType::OpReturnCoreDao, RawOutputType::OpReturnExSat, RawOutputType::OpReturnHathorNetwork, RawOutputType::OpReturnRunestone]
    }

    fn as_u8(&self) -> (c: u8) {
        match self {
            RawOutputType::P2pk => 0,
            RawOutputType::P2pkh => 1,
            RawOutputType::P2wpkhV0 => 2,
            RawOutputType::P2ms => 3,
            RawOutputType::P2sh => 4,
            RawOutputType::P2wshV0 => 5,
            RawOutputType::P2tr => 6,
            RawOutputType::P2a => 7,
            RawOutputType::Unknown => 8,
            RawOutputType::OpReturn => 20,
            RawOutputType::OpReturnWitnessCommitment => 21,
            RawOutputType::OpReturnOmni => 22,
            RawOutputType::OpReturnStacksBlockCommit => 23,
            RawOutputType::OpReturnLen1Byte => 24,
            RawOutputType::OpReturnLen20Byte => 25,
            RawOutputType::OpReturnLen80Byte => 26,
            RawOutputType::OpReturnBip47PaymentCode => 27,
            RawOutputType::OpReturnRskBlock => 28,
            RawOutputType::OpReturnCoreDao => 29,
            RawOutputType::OpReturnExSat => 30,
            RawOutputType::OpReturnHathorNetwork => 31,
            RawOutputType::OpReturnRunestone => 32,
        }
    }

    fn label(&self) -> (s: &'static str) {
        match self {
            RawOutputType::P2pk => "p2pk",
            RawOutputType::P2pkh => "p2pkh",
            RawOutputType::P2wpkhV0 => "p2wpkh_v0",
            RawOutputType::P2ms => "p2ms",
            RawOutputType::P2sh => "p2sh",
            RawOutputType::P2wshV0 => "p2wsh_v0",
            RawOutputType::P2tr => "p2tr",
            RawOutputType::P2a => "p2a",
            RawOutputType::Unknown => "unknown",
            RawOutputType::OpReturn => "op_return",
            RawOutputType::OpReturnWitnessCommitment => "op_return_witness_commitment",
            RawOutputType::OpReturnOmni => "op_return_omni",
            RawOutputType::OpReturnStacksBlockCommit => "op_return_stacks_block_commit",
            RawOutputType::OpReturnLen1Byte => "op_return_len_1",
            RawOutputType::OpReturnLen20Byte => "op_return_len_20",
            RawOutputType::OpReturnLen80Byte => "op_return_len_80",
            RawOutputType::OpReturnBip47PaymentCode => "op_return_bip47",
            RawOutputType::OpReturnRskBlock => "op_return_rsk",
            RawOutputType::OpReturnCoreDao => "op_return_coredao",
            RawOutputType::OpReturnExSat => "op_return_exsat",
            RawOutputType::OpReturnHathorNetwork => "op_return_hathor",
            RawOutputType::OpReturnRunestone => "op_return_runestone",
        }
    }

    open spec fn spec_from_u8(v: u8) -> Option<Self> {
        match v {
            0 => Some(RawOutputType::P2pk),
            1 => Some(RawOutputType::P2pkh),
            2 => Some(RawOutputType::P2wpkhV0),
            3 => Some(RawOutputType::P2ms),
            4 => Some(RawOutputType::P2sh),
            5 => Some(RawOutputType::P2wshV0),
            6 => Some(RawOutputType::P2tr),
            7 => Some(RawOutputType::P2a),
            8 => Some(RawOutputType::Unknown),
            20 => Some(RawOutputType::OpReturn),
            21 => Some(RawOutputType::OpReturnWitnessCommitment),
            22 => Some(RawOutputType::OpReturnOmni),
            23 => Some(RawOutputType::OpReturnStacksBlockCommit),
            24 => Some(RawOutputType::OpReturnLen1Byte),
            25 => Some(RawOutputType::OpReturnLen20Byte),
            26 => Some(RawOutputType::OpReturnLen80Byte),
            27 => Some(RawOutputType::OpReturnBip47PaymentCode),
            28 => Some(RawOutputType::OpReturnRskBlock),
            29 => Some(RawOutputType::OpReturnCoreDao),
            30 => Some(RawOutputType::OpReturnExSat),
            31 => Some(RawOutputType::OpReturnHathorNetwork),
            32 => Some(RawOutputType::OpReturnRunestone),
            _ => None,
        }
    }

    fn from_u8(v: u8) -> (r: Option<Self>) {
        match v {
            0 => Some(RawOutputType::P2pk),
            1 => Some(RawOutputType::P2pkh),
            2 => Some(RawOutputType::P2wpkhV0),
            3 => Some(RawOutputType::P2ms),
            4 => Some(RawOutputType::P2sh),
            5 => Some(RawOutputType::P2wshV0),
            6 => Some(RawOutputType::P2tr),
            7 => Some(RawOutputType::P2a),
            8 => Some(RawOutputType::Unknown),
            20 => Some(RawOutputType::OpReturn),
            21 => Some(RawOutputType::OpReturnWitnessCommitment),
            22 => Some(RawOutputType::OpReturnOmni),
            23 => Some(RawOutputType::OpReturnStacksBlockCommit),
            24 => Some(RawOutputType::OpReturnLen1Byte),
            25 => Some(RawOutputType::OpReturnLen20Byte),
            26 => Some(RawOutputType::OpReturnLen80Byte),
            27 => Some(RawOutputType::OpReturnBip47PaymentCode),
            28 => Some(RawOutputType::OpReturnRskBlock),
            29 => Some(RawOutputType::OpReturnCoreDao),
            30 => Some(RawOutputType::OpReturnExSat),
            31 => Some(RawOutputType::OpReturnHathorNetwork),
            32 => Some(RawOutputType::OpReturnRunestone),
            _ => None,
        }
    }

    fn all() -> (v: Vec<Self>) {
        let v = vec![RawOutputType::P2pk, RawOutputType::P2pkh, RawOutputType::P2wpkhV0, RawOutputType::P2ms, RawOutputType::P2sh, RawOutputType::P2wshV0, RawOutputType::P2tr, RawOutputType::P2a, RawOutputType::Unknown, RawOutputType::OpReturn, RawOutputType::OpReturnWitnessCommitment, RawOutputType::OpReturnOmni, RawOutputType::OpReturnStacksBlockCommit, RawOutputType::OpReturnLen1Byte, RawOutputType::OpReturnLen20Byte, RawOutputType::OpReturnLen80Byte, RawOutputType::OpReturnBip47PaymentCode, RawOutputType::OpReturnRskBlock, RawOutputType::OpReturnCoreDao, RawOutputType::OpReturnExSat, RawOutputType::OpReturnHathorNetwork, RawOutputType::OpReturnRunestone];
        assert(v@ =~= Self::spec_all());
        v
    }

    proof fn lemma_dense_id(x: Self) {
    }

    proof fn lemma_positions() {
    }

    proof fn lemma_code_order(x: Self, y: Self) {
    }

    proof fn lemma_from_u8(v: u8, x: Self) {
    }
}

/// Sighash type of a signature. Codes match the on-wire flag byte where there is
/// one; [`SighashType::Unknown`] covers every other flag.
#[derive(Debug, Clone, Copy, PartialEq, Eq, Hash, Structural)]
pub enum SighashType {
    /// Taproot's implicit SIGHASH_DEFAULT.
    Default,
    All,
    /// SIGHASH_NONE.
    NoneFlag,
    Single,
    AllAnyoneCanPay,
    NoneAnyoneCanPay,
    SingleAnyoneCanPay,
    Unknown,
}

impl Categorical for SighashType {
    open spec fn spec_code(self) -> u8 {
        match self {
            SighashType::Default => 0,
            SighashType::All => 1,
            SighashType::NoneFlag => 2,
            SighashType::Single => 3,
            SighashType::AllAnyoneCanPay => 129,
            SighashType::NoneAnyoneCanPay => 130,
            SighashType::SingleAnyoneCanPay => 131,
            SighashType::Unknown => 255,
        }
    }

    open spec fn spec_label(self) -> Seq<char> {
        match self {
            SighashType::Default => "DEFAULT"@,
            SighashType::All => "ALL"@,
            SighashType::NoneFlag => "NONE"@,
            SighashType::Single => "SINGLE"@,
            SighashType::AllAnyoneCanPay => "ALL|ANYONECANPAY"@,
            SighashType::NoneAnyoneCanPay => "NONE|ANYONECANPAY"@,
            SighashType::SingleAnyoneCanPay => "SINGLE|ANYONECANPAY"@,
            SighashType::Unknown => "UNKNOWN"@,
        }
    }

    open spec fn spec_dense_id(self) -> int {
        match self {
            SighashType::Default => 0,
            SighashType::All => 1,
            SighashType::NoneFlag => 2,
            SighashType::Single => 3,
            SighashType::AllAnyoneCanPay => 4,
            SighashType::NoneAnyoneCanPay => 5,
            SighashType::SingleAnyoneCanPay => 6,
            SighashType::Unknown => 7,
        }
    }

    open spec fn spec_all() -> Seq<Self> {
        seq![SighashType::Default, SighashType::All, SighashType::NoneFlag, SighashType::Single, SighashType::AllAnyoneCanPay, SighashType::NoneAnyoneCanPay, SighashType::SingleAnyoneCanPay, SighashType::Unknown]
    }

    fn as_u8(&self) -> (c: u8) {
        match self {
            SighashType::Default => 0,
            SighashType::All => 1,
            SighashType::NoneFlag => 2,
            SighashType::Single => 3,
            SighashType::AllAnyoneCanPay => 129,
            SighashType::NoneAnyoneCanPay => 130,
            SighashType::SingleAnyoneCanPay => 131,
            SighashType::Unknown => 255,
        }
    }

    fn label(&self) -> (s: &'static str) {
        match self {
            SighashType::Default => "DEFAULT",
            SighashType::All => "ALL",
            SighashType::NoneFlag => "NONE",
            SighashType::Single => "SINGLE",
            SighashType::AllAnyoneCanPay => "ALL|ANYONECANPAY",
            SighashType::NoneAnyoneCanPay => "NONE|ANYONECANPAY",
            SighashType::SingleAnyoneCanPay => "SINGLE|ANYONECANPAY",
            SighashType::Unknown => "UNKNOWN",
        }
    }

    open spec fn spec_from_u8(v: u8) -> Option<Self> {
        match v {
            0 => Some(SighashType::Default),
            1 => Some(SighashType::All),
            2 => Some(SighashType::NoneFlag),
            3 => Some(SighashType::Single),
            129 => Some(SighashType::AllAnyoneCanPay),
            130 => Some(SighashType::NoneAnyoneCanPay),
            131 => Some(SighashType::SingleAnyoneCanPay),
            255 => Some(SighashType::Unknown),
            _ => None,
        }
    }

    fn from_u8(v: u8) -> (r: Option<Self>) {
        match v {
            0 => Some(SighashType::Default),
            1 => Some(SighashType::All),
            2 => Some(SighashType::NoneFlag),
            3 => Some(SighashType::Single),
            129 => Some(SighashType::AllAnyoneCanPay),
            130 => Some(SighashType::NoneAnyoneCanPay),
            131 => Some(SighashType::SingleAnyoneCanPay),
            255 => Some(SighashType::Unknown),
            _ => None,
        }
    }

    fn all() -> (v: Vec<Self>) {
        let v = vec![SighashType::Default, SighashType::All, SighashType::NoneFlag, SighashType::Single, SighashType::AllAnyoneCanPay, SighashType::NoneAnyoneCanPay, SighashType::SingleAnyoneCanPay, SighashType::Unknown];
        assert(v@ =~= Self::spec_all());
        v
    }

    proof fn lemma_dense_id(x: Self) {
    }

    proof fn lemma_positions() {
    }

    proof fn lemma_code_order(x: Self, y: Self) {
    }

    proof fn lemma_from_u8(v: u8, x: Self) {
    }
}

/// How a Schnorr signature encodes its sighash (BIP341).
#[derive(Debug, Clone, Copy, PartialEq, Eq, Hash, Structural)]
pub enum SchnorrSighashForm {
    /// 64-byte signature: implicit SIGHASH_DEFAULT.
    Default,
    /// 65-byte signature with an explicit SIGHASH_ALL (`0x01`).
    ExplicitAll,
    /// 65-byte signature with some other explicit sighash flag.
    ExplicitOther,
}

impl Categorical for SchnorrSighashForm {
    open spec fn spec_code(self) -> u8 {
        match self {
            SchnorrSighashForm::Default => 0,
            SchnorrSighashForm::ExplicitAll => 1,
            SchnorrSighashForm::ExplicitOther => 2,
        }
    }

    open spec fn spec_label(self) -> Seq<char> {
        match self {
            SchnorrSighashForm::Default => "default"@,
            SchnorrSighashForm::ExplicitAll => "explicit_all"@,
            SchnorrSighashForm::ExplicitOther => "explicit_other"@,
        }
    }

    open spec fn spec_dense_id(self) -> int {
        match self {
            SchnorrSighashForm::Default => 0,
            SchnorrSighashForm::ExplicitAll => 1,
            SchnorrSighashForm::ExplicitOther => 2,
        }
    }

    open spec fn spec_all() -> Seq<Self> {
        seq![SchnorrSighashForm::Default, SchnorrSighashForm::ExplicitAll, SchnorrSighashForm::ExplicitOther]
    }

    fn as_u8(&self) -> (c: u8) {
        match self {
            SchnorrSighashForm::Default => 0,
            SchnorrSighashForm::ExplicitAll => 1,
            SchnorrSighashForm::ExplicitOther => 2,
        }
    }

    fn label(&self) -> (s: &'static str) {
        match self {
            SchnorrSighashForm::Default => "default",
            SchnorrSighashForm::ExplicitAll => "explicit_all",
            SchnorrSighashForm::ExplicitOther => "explicit_other",
        }
    }

    open spec fn spec_from_u8(v: u8) -> Option<Self> {
        match v {
            0 => Some(SchnorrSighashForm::Default),
            1 => Some(SchnorrSighashForm::ExplicitAll),
            2 => Some(SchnorrSighashForm::ExplicitOther),
            _ => None,
        }
    }

    fn from_u8(v: u8) -> (r: Option<Self>) {
        match v {
            0 => Some(SchnorrSighashForm::Default),
            1 => Some(SchnorrSighashForm::ExplicitAll),
            2 => Some(SchnorrSighashForm::ExplicitOther),
            _ => None,
        }
    }

    fn all() -> (v: Vec<Self>) {
        let v = vec![SchnorrSighashForm::Default, SchnorrSighashForm::ExplicitAll, SchnorrSighashForm::ExplicitOther];
        assert(v@ =~= Self::spec_all());
        v
    }

    proof fn lemma_dense_id(x: Self) {
    }

    proof fn lemma_positions() {
    }

    proof fn lemma_code_order(x: Self, y: Self) {
    }

    proof fn lemma_from_u8(v: u8, x: Self) {
    }
}

/// Taproot spend path of an input.
#[derive(Debug, Clone, Copy, PartialEq, Eq, Hash, Structural)]
pub enum TaprootSpendPath {
    /// Not a taproot spend.
    NoPath,
    Key,
    Script,
}

impl Categorical for TaprootSpendPath {
    open spec fn spec_code(self) -> u8 {
        match self {
            TaprootSpendPath::NoPath => 0,
            TaprootSpendPath::Key => 1,
            TaprootSpendPath::Script => 2,
        }
    }

    open spec fn spec_label(self) -> Seq<char> {
        match self {
            TaprootSpendPath::NoPath => "none"@,
            TaprootSpendPath::Key => "key"@,
            TaprootSpendPath::Script => "script"@,
        }
    }

    open spec fn spec_dense_id(self) -> int {
        match self {
            TaprootSpendPath::NoPath => 0,
            TaprootSpendPath::Key => 1,
            TaprootSpendPath::Script => 2,
        }
    }

    open spec fn spec_all() -> Seq<Self> {
        seq![TaprootSpendPath::NoPath, TaprootSpendPath::Key, TaprootSpendPath::Script]
    }

    fn as_u8(&self) -> (c: u8) {
        match self {
            TaprootSpendPath::NoPath => 0,
            TaprootSpendPath::Key => 1,
            TaprootSpendPath::Script => 2,
        }
    }

    fn label(&self) -> (s: &'static str) {
        match self {
            TaprootSpendPath::NoPath => "none",
            TaprootSpendPath::Key => "key",
            TaprootSpendPath::Script => "script",
        }
    }

    open spec fn spec_from_u8(v: u8) -> Option<Self> {
        match v {
            0 => Some(TaprootSpendPath::NoPath),
            1 => Some(TaprootSpendPath::Key),
            2 => Some(TaprootSpendPath::Script),
            _ => None,
        }
    }

    fn from_u8(v: u8) -> (r: Option<Self>) {
        match v {
            0 => Some(TaprootSpendPath::NoPath),
            1 => Some(TaprootSpendPath::Key),
            2 => Some(TaprootSpendPath::Script),
            _ => None,
        }
    }

    fn all() -> (v: Vec<Self>) {
        let v = vec![TaprootSpendPath::NoPath, TaprootSpendPath::Key, TaprootSpendPath::Script];
        assert(v@ =~= Self::spec_all());
        v
    }

    proof fn lemma_dense_id(x: Self) {
    }

    proof fn lemma_positions() {
    }

    proof fn lemma_code_order(x: Self, y: Self) {
    }

    proof fn lemma_from_u8(v: u8, x: Self) {
    }
}

/// Signature algorithm.
#[derive(Debug, Clone, Copy, PartialEq, Eq, Hash, Structural)]
pub enum SigAlgo {
    Ecdsa,
    Schnorr,
}

impl Categorical for SigAlgo {
    open spec fn spec_code(self) -> u8 {
        match self {
            SigAlgo::Ecdsa => 0,
            SigAlgo::Schnorr => 1,
        }
    }

    open spec fn spec_label(self) -> Seq<char> {
        match self {
            SigAlgo::Ecdsa => "ecdsa"@,
            SigAlgo::Schnorr => "schnorr"@,
        }
    }

    open spec fn spec_dense_id(self) -> int {
        match self {
            SigAlgo::Ecdsa => 0,
            SigAlgo::Schnorr => 1,
        }
    }

    open spec fn spec_all() -> Seq<Self> {
        seq![SigAlgo::Ecdsa, SigAlgo::Schnorr]
    }

    fn as_u8(&self) -> (c: u8) {
        match self {
            SigAlgo::Ecdsa => 0,
            SigAlgo::Schnorr => 1,
        }
    }

    fn label(&self) -> (s: &'static str) {
        match self {
            SigAlgo::Ecdsa => "ecdsa",
            SigAlgo::Schnorr => "schnorr",
        }
    }

    open spec fn spec_from_u8(v: u8) -> Option<Self> {
        match v {
            0 => Some(SigAlgo::Ecdsa),
            1 => Some(SigAlgo::Schnorr),
            _ => None,
        }
    }

    fn from_u8(v: u8) -> (r: Option<Self>) {
        match v {
            0 => Some(SigAlgo::Ecdsa),
            1 => Some(SigAlgo::Schnorr),
            _ => None,
        }
    }

    fn all() -> (v: Vec<Self>) {
        let v = vec![SigAlgo::Ecdsa, SigAlgo::Schnorr];
        assert(v@ =~= Self::spec_all());
        v
    }

    proof fn lemma_dense_id(x: Self) {
    }

    proof fn lemma_positions() {
    }

    proof fn lemma_code_order(x: Self, y: Self) {
    }

    proof fn lemma_from_u8(v: u8, x: Self) {
    }
}

/// Public key algorithm.
#[derive(Debug, Clone, Copy, PartialEq, Eq, Hash, Structural)]
pub enum PubkeyAlgo {
    Ecdsa,
    Schnorr,
}

impl Categorical for PubkeyAlgo {
    open spec fn spec_code(self) -> u8 {
        match self {
            PubkeyAlgo::Ecdsa => 0,
            PubkeyAlgo::Schnorr => 1,
        }
    }

    open spec fn spec_label(self) -> Seq<char> {
        match self {
            PubkeyAlgo::Ecdsa => "ecdsa"@,
            PubkeyAlgo::Schnorr => "schnorr"@,
        }
    }

    open spec fn spec_dense_id(self) -> int {
        match self {
            PubkeyAlgo::Ecdsa => 0,
            PubkeyAlgo::Schnorr => 1,
        }
    }

    open spec fn spec_all() -> Seq<Self> {
        seq![PubkeyAlgo::Ecdsa, PubkeyAlgo::Schnorr]
    }

    fn as_u8(&self) -> (c: u8) {
        match self {
            PubkeyAlgo::Ecdsa => 0,
            PubkeyAlgo::Schnorr => 1,
        }
    }

    fn label(&self) -> (s: &'static str) {
        match self {
            PubkeyAlgo::Ecdsa => "ecdsa",
            PubkeyAlgo::Schnorr => "schnorr",
        }
    }

    open spec fn spec_from_u8(v: u8) -> Option<Self> {
        match v {
            0 => Some(PubkeyAlgo::Ecdsa),
            1 => Some(PubkeyAlgo::Schnorr),
            _ => None,
        }
    }

    fn from_u8(v: u8) -> (r: Option<Self>) {
        match v {
            0 => Some(PubkeyAlgo::Ecdsa),
            1 => Some(PubkeyAlgo::Schnorr),
            _ => None,
        }
    }

    fn all() -> (v: Vec<Self>) {
        let v = vec![PubkeyAlgo::Ecdsa, PubkeyAlgo::Schnorr];
        assert(v@ =~= Self::spec_all());
        v
    }

    proof fn lemma_dense_id(x: Self) {
    }

    proof fn lemma_positions() {
    }

    proof fn lemma_code_order(x: Self, y: Self) {
    }

    proof fn lemma_from_u8(v: u8, x: Self) {
    }
}

/// Strict-DER status of an ECDSA signature (BIP66), as reported by rawtx-rs.
#[derive(Debug, Clone, Copy, PartialEq, Eq, Hash, Structural)]
pub enum DerEncoding {
    NotApplicable,
    Valid,
    SigTooShort,
    SigTooLong,
    NoCompoundMarker,
    InvalidCompoundLengthDescriptor,
    NoSValueLengthDescriptor,
    DescribedLengthMismatch,
    RElementNotAnInteger,
    RLengthIsZero,
    NegativeRValue,
    NullByteAtRValueStart,
    SElementNotAnInteger,
    SLengthIsZero,
    NegativeSValue,
    NullByteAtSValueStart,
}

impl Categorical for DerEncoding {
    open spec fn spec_code(self) -> u8 {
        match self {
            DerEncoding::NotApplicable => 0,
            DerEncoding::Valid => 1,
            DerEncoding::SigTooShort => 2,
            DerEncoding::SigTooLong => 3,
            DerEncoding::NoCompoundMarker => 4,
            DerEncoding::InvalidCompoundLengthDescriptor => 5,
            DerEncoding::NoSValueLengthDescriptor => 6,
            DerEncoding::DescribedLengthMismatch => 7,
            DerEncoding::RElementNotAnInteger => 8,
            DerEncoding::RLengthIsZero => 9,
            DerEncoding::NegativeRValue => 10,
            DerEncoding::NullByteAtRValueStart => 11,
            DerEncoding::SElementNotAnInteger => 12,
            DerEncoding::SLengthIsZero => 13,
            DerEncoding::NegativeSValue => 14,
            DerEncoding::NullByteAtSValueStart => 15,
        }
    }

    open spec fn spec_label(self) -> Seq<char> {
        match self {
            DerEncoding::NotApplicable => "not_applicable"@,
            DerEncoding::Valid => "valid"@,
            DerEncoding::SigTooShort => "sig_too_short"@,
            DerEncoding::SigTooLong => "sig_too_long"@,
            DerEncoding::NoCompoundMarker => "no_compound_marker"@,
            DerEncoding::InvalidCompoundLengthDescriptor => "invalid_compound_length"@,
            DerEncoding::NoSValueLengthDescriptor => "no_s_length"@,
            DerEncoding::DescribedLengthMismatch => "described_length_mismatch"@,
            DerEncoding::RElementNotAnInteger => "r_not_integer"@,
            DerEncoding::RLengthIsZero => "r_length_zero"@,
            DerEncoding::NegativeRValue => "negative_r"@,
            DerEncoding::NullByteAtRValueStart => "null_byte_r"@,
            DerEncoding::SElementNotAnInteger => "s_not_integer"@,
            DerEncoding::SLengthIsZero => "s_length_zero"@,
            DerEncoding::NegativeSValue => "negative_s"@,
            DerEncoding::NullByteAtSValueStart => "null_byte_s"@,
        }
    }

    open spec fn spec_dense_id(self) -> int {
        match self {
            DerEncoding::NotApplicable => 0,
            DerEncoding::Valid => 1,
            DerEncoding::SigTooShort => 2,
            DerEncoding::SigTooLong => 3,
            DerEncoding::NoCompoundMarker => 4,
            DerEncoding::InvalidCompoundLengthDescriptor => 5,
            DerEncoding::NoSValueLengthDescriptor => 6,
            DerEncoding::DescribedLengthMismatch => 7,
            DerEncoding::RElementNotAnInteger => 8,
            DerEncoding::RLengthIsZero => 9,
            DerEncoding::NegativeRValue => 10,
            DerEncoding::NullByteAtRValueStart => 11,
            DerEncoding::SElementNotAnInteger => 12,
            DerEncoding::SLengthIsZero => 13,
            DerEncoding::NegativeSValue => 14,
            DerEncoding::NullByteAtSValueStart => 15,
        }
    }

    open spec fn spec_all() -> Seq<Self> {
        seq![DerEncoding::NotApplicable, DerEncoding::Valid, DerEncoding::SigTooShort, DerEncoding::SigTooLong, DerEncoding::NoCompoundMarker, DerEncoding::InvalidCompoundLengthDescriptor, DerEncoding::NoSValueLengthDescriptor, DerEncoding::DescribedLengthMismatch, DerEncoding::RElementNotAnInteger, DerEncoding::RLengthIsZero, DerEncoding::NegativeRValue, DerEncoding::NullByteAtRValueStart, DerEncoding::SElementNotAnInteger, DerEncoding::SLengthIsZero, DerEncoding::NegativeSValue, DerEncoding::NullByteAtSValueStart]
    }

    fn as_u8(&self) -> (c: u8) {
        match self {
            DerEncoding::NotApplicable => 0,
            DerEncoding::Valid => 1,
            DerEncoding::SigTooShort => 2,
            DerEncoding::SigTooLong => 3,
            DerEncoding::NoCompoundMarker => 4,
            DerEncoding::InvalidCompoundLengthDescriptor => 5,
            DerEncoding::NoSValueLengthDescriptor => 6,
            DerEncoding::DescribedLengthMismatch => 7,
            DerEncoding::RElementNotAnInteger => 8,
            DerEncoding::RLengthIsZero => 9,
            DerEncoding::NegativeRValue => 10,
            DerEncoding::NullByteAtRValueStart => 11,
            DerEncoding::SElementNotAnInteger => 12,
            DerEncoding::SLengthIsZero => 13,
            DerEncoding::NegativeSValue => 14,
            DerEncoding::NullByteAtSValueStart => 15,
        }
    }

    fn label(&self) -> (s: &'static str) {
        match self {
            DerEncoding::NotApplicable => "not_applicable",
            DerEncoding::Valid => "valid",
            DerEncoding::SigTooShort => "sig_too_short",
            DerEncoding::SigTooLong => "sig_too_long",
            DerEncoding::NoCompoundMarker => "no_compound_marker",
            DerEncoding::InvalidCompoundLengthDescriptor => "invalid_compound_length",
            DerEncoding::NoSValueLengthDescriptor => "no_s_length",
            DerEncoding::DescribedLengthMismatch => "described_length_mismatch",
            DerEncoding::RElementNotAnInteger => "r_not_integer",
            DerEncoding::RLengthIsZero => "r_length_zero",
            DerEncoding::NegativeRValue => "negative_r",
            DerEncoding::NullByteAtRValueStart => "null_byte_r",
            DerEncoding::SElementNotAnInteger => "s_not_integer",
            DerEncoding::SLengthIsZero => "s_length_zero",
            DerEncoding::NegativeSValue => "negative_s",
            DerEncoding::NullByteAtSValueStart => "null_byte_s",
        }
    }

    open spec fn spec_from_u8(v: u8) -> Option<Self> {
        match v {
            0 => Some(DerEncoding::NotApplicable),
            1 => Some(DerEncoding::Valid),
            2 => Some(DerEncoding::SigTooShort),
            3 => Some(DerEncoding::SigTooLong),
            4 => Some(DerEncoding::NoCompoundMarker),
            5 => Some(DerEncoding::InvalidCompoundLengthDescriptor),
            6 => Some(DerEncoding::NoSValueLengthDescriptor),
            7 => Some(DerEncoding::DescribedLengthMismatch),
            8 => Some(DerEncoding::RElementNotAnInteger),
            9 => Some(DerEncoding::RLengthIsZero),
            10 => Some(DerEncoding::NegativeRValue),
            11 => Some(DerEncoding::NullByteAtRValueStart),
            12 => Some(DerEncoding::SElementNotAnInteger),
            13 => Some(DerEncoding::SLengthIsZero),
            14 => Some(DerEncoding::NegativeSValue),
            15 => Some(DerEncoding::NullByteAtSValueStart),
            _ => None,
        }
    }

    fn from_u8(v: u8) -> (r: Option<Self>) {
        match v {
            0 => Some(DerEncoding::NotApplicable),
            1 => Some(DerEncoding::Valid),
            2 => Some(DerEncoding::SigTooShort),
            3 => Some(DerEncoding::SigTooLong),
            4 => Some(DerEncoding::NoCompoundMarker),
            5 => Some(DerEncoding::InvalidCompoundLengthDescriptor),
            6 => Some(DerEncoding::NoSValueLengthDescriptor),
            7 => Some(DerEncoding::DescribedLengthMismatch),
            8 => Some(DerEncoding::RElementNotAnInteger),
            9 => Some(DerEncoding::RLengthIsZero),
            10 => Some(DerEncoding::NegativeRValue),
            11 => Some(DerEncoding::NullByteAtRValueStart),
            12 => Some(DerEncoding::SElementNotAnInteger),
            13 => Some(DerEncoding::SLengthIsZero),
            14 => Some(DerEncoding::NegativeSValue),
            15 => Some(DerEncoding::NullByteAtSValueStart),
            _ => None,
        }
    }

    fn all() -> (v: Vec<Self>) {
        let v = vec![DerEncoding::NotApplicable, DerEncoding::Valid, DerEncoding::SigTooShort, DerEncoding::SigTooLong, DerEncoding::NoCompoundMarker, DerEncoding::InvalidCompoundLengthDescriptor, DerEncoding::NoSValueLengthDescriptor, DerEncoding::DescribedLengthMismatch, DerEncoding::RElementNotAnInteger, DerEncoding::RLengthIsZero, DerEncoding::NegativeRValue, DerEncoding::NullByteAtRValueStart, DerEncoding::SElementNotAnInteger, DerEncoding::SLengthIsZero, DerEncoding::NegativeSValue, DerEncoding::NullByteAtSValueStart];
        assert(v@ =~= Self::spec_all());
        v
    }

    proof fn lemma_dense_id(x: Self) {
    }

    proof fn lemma_positions() {
    }

    proof fn lemma_code_order(x: Self, y: Self) {
    }

    proof fn lemma_from_u8(v: u8, x: Self) {
    }
}

/// Role of a transaction in a same-block child-pays-for-parent relation.
#[derive(Debug, Clone, Copy, PartialEq, Eq, Hash, Structural)]
pub enum CpfpRole {
    /// Neither spends nor is spent within its block.
    NoRole,
    Parent,
    Child,
    Both,
}

impl Categorical for CpfpRole {
    open spec fn spec_code(self) -> u8 {
        match self {
            CpfpRole::NoRole => 0,
            CpfpRole::Parent => 1,
            CpfpRole::Child => 2,
            CpfpRole::Both => 3,
        }
    }

    open spec fn spec_label(self) -> Seq<char> {
        match self {
            CpfpRole::NoRole => "none"@,
            CpfpRole::Parent => "parent"@,
            CpfpRole::Child => "child"@,
            CpfpRole::Both => "both"@,
        }
    }

    open spec fn spec_dense_id(self) -> int {
        match self {
            CpfpRole::NoRole => 0,
            CpfpRole::Parent => 1,
            CpfpRole::Child => 2,
            CpfpRole::Both => 3,
        }
    }

    open spec fn spec_all() -> Seq<Self> {
        seq![CpfpRole::NoRole, CpfpRole::Parent, CpfpRole::Child, CpfpRole::Both]
    }

    fn as_u8(&self) -> (c: u8) {
        match self {
            CpfpRole::NoRole => 0,
            CpfpRole::Parent => 1,
            CpfpRole::Child => 2,
            CpfpRole::Both => 3,
        }
    }

    fn label(&self) -> (s: &'static str) {
        match self {
            CpfpRole::NoRole => "none",
            CpfpRole::Parent => "parent",
            CpfpRole::Child => "child",
            CpfpRole::Both => "both",
        }
    }

    open spec fn spec_from_u8(v: u8) -> Option<Self> {
        match v {
            0 => Some(CpfpRole::NoRole),
            1 => Some(CpfpRole::Parent),
            2 => Some(CpfpRole::Child),
            3 => Some(CpfpRole::Both),
            _ => None,
        }
    }

    fn from_u8(v: u8) -> (r: Option<Self>) {
        match v {
            0 => Some(CpfpRole::NoRole),
            1 => Some(CpfpRole::Parent),
            2 => Some(CpfpRole::Child),
            3 => Some(CpfpRole::Both),
            _ => None,
        }
    }

    fn all() -> (v: Vec<Self>) {
        let v = vec![CpfpRole::NoRole, CpfpRole::Parent, CpfpRole::Child, CpfpRole::Both];
        assert(v@ =~= Self::spec_all());
        v
    }

    proof fn lemma_dense_id(x: Self) {
    }

    proof fn lemma_positions() {
    }

    proof fn lemma_code_order(x: Self, y: Self) {
    }

    proof fn lemma_from_u8(v: u8, x: Self) {
    }
}

/// Signal that marked an output as likely change.
#[derive(Debug, Clone, Copy, PartialEq, Eq, Hash, Structural)]
pub enum ChangeHeuristic {
    AddressReuse,
    OptimalChange,
    ScriptTypeMatch,
}

impl Categorical for ChangeHeuristic {
    open spec fn spec_code(self) -> u8 {
        match self {
            ChangeHeuristic::AddressReuse => 0,
            ChangeHeuristic::OptimalChange => 1,
            ChangeHeuristic::ScriptTypeMatch => 2,
        }
    }

    open spec fn spec_label(self) -> Seq<char> {
        match self {
            ChangeHeuristic::AddressReuse => "address_reuse"@,
            ChangeHeuristic::OptimalChange => "optimal_change"@,
            ChangeHeuristic::ScriptTypeMatch => "script_type_match"@,
        }
    }

    open spec fn spec_dense_id(self) -> int {
        match self {
            ChangeHeuristic::AddressReuse => 0,
            ChangeHeuristic::OptimalChange => 1,
            ChangeHeuristic::ScriptTypeMatch => 2,
        }
    }

    open spec fn spec_all() -> Seq<Self> {
        seq![ChangeHeuristic::AddressReuse, ChangeHeuristic::OptimalChange, ChangeHeuristic::ScriptTypeMatch]
    }

    fn as_u8(&self) -> (c: u8) {
        match self {
            ChangeHeuristic::AddressReuse => 0,
            ChangeHeuristic::OptimalChange => 1,
            ChangeHeuristic::ScriptTypeMatch => 2,
        }
    }

    fn label(&self) -> (s: &'static str) {
        match self {
            ChangeHeuristic::AddressReuse => "address_reuse",
            ChangeHeuristic::OptimalChange => "optimal_change",
            ChangeHeuristic::ScriptTypeMatch => "script_type_match",
        }
    }

    open spec fn spec_from_u8(v: u8) -> Option<Self> {
        match v {
            0 => Some(ChangeHeuristic::AddressReuse),
            1 => Some(ChangeHeuristic::OptimalChange),
            2 => Some(ChangeHeuristic::ScriptTypeMatch),
            _ => None,
        }
    }

    fn from_u8(v: u8) -> (r: Option<Self>) {
        match v {
            0 => Some(ChangeHeuristic::AddressReuse),
            1 => Some(ChangeHeuristic::OptimalChange),
            2 => Some(ChangeHeuristic::ScriptTypeMatch),
            _ => None,
        }
    }

    fn all() -> (v: Vec<Self>) {
        let v = vec![ChangeHeuristic::AddressReuse, ChangeHeuristic::OptimalChange, ChangeHeuristic::ScriptTypeMatch];
        assert(v@ =~= Self::spec_all());
        v
    }

    proof fn lemma_dense_id(x: Self) {
    }

    proof fn lemma_positions() {
    }

    proof fn lemma_code_order(x: Self, y: Self) {
    }

    proof fn lemma_from_u8(v: u8, x: Self) {
    }
}

/// Shape of an input's nSequence with respect to BIP68 relative locktimes and
/// BIP125 replaceability.
#[derive(Debug, Clone, Copy, PartialEq, Eq, Hash, Structural)]
pub enum SequenceShape {
    /// `0xFFFFFFFF`: final, no RBF, nLockTime disabled.
    Final,
    /// `0xFFFFFFFE`: nLockTime enabled, no RBF signal.
    LocktimeNoRbf,
    /// `0xFFFFFFFD`: the usual opt-in RBF value.
    RbfMax,
    /// `0`.
    Zero,
    /// BIP68 relative lock in blocks (disable bit and type bit clear).
    RelativeBlocks,
    /// BIP68 relative lock in 512-second units (type bit set).
    RelativeTime,
    /// Disable bit set but below `0xFFFFFFFD`: signals RBF.
    OtherRbf,
}

impl Categorical for SequenceShape {
    open spec fn spec_code(self) -> u8 {
        match self {
            SequenceShape::Final => 0,
            SequenceShape::LocktimeNoRbf => 1,
            SequenceShape::RbfMax => 2,
            SequenceShape::Zero => 3,
            SequenceShape::RelativeBlocks => 4,
            SequenceShape::RelativeTime => 5,
            SequenceShape::OtherRbf => 6,
        }
    }

    open spec fn spec_label(self) -> Seq<char> {
        match self {
            SequenceShape::Final => "final"@,
            SequenceShape::LocktimeNoRbf => "locktime_no_rbf"@,
            SequenceShape::RbfMax => "rbf_max"@,
            SequenceShape::Zero => "zero"@,
            SequenceShape::RelativeBlocks => "relative_blocks"@,
            SequenceShape::RelativeTime => "relative_time"@,
            SequenceShape::OtherRbf => "other_rbf"@,
        }
    }

    open spec fn spec_dense_id(self) -> int {
        match self {
            SequenceShape::Final => 0,
            SequenceShape::LocktimeNoRbf => 1,
            SequenceShape::RbfMax => 2,
            SequenceShape::Zero => 3,
            SequenceShape::RelativeBlocks => 4,
            SequenceShape::RelativeTime => 5,
            SequenceShape::OtherRbf => 6,
        }
    }

    open spec fn spec_all() -> Seq<Self> {
        seq![SequenceShape::Final, SequenceShape::LocktimeNoRbf, SequenceShape::RbfMax, SequenceShape::Zero, SequenceShape::RelativeBlocks, SequenceShape::RelativeTime, SequenceShape::OtherRbf]
    }

    fn as_u8(&self) -> (c: u8) {
        match self {
            SequenceShape::Final => 0,
            SequenceShape::LocktimeNoRbf => 1,
            SequenceShape::RbfMax => 2,
            SequenceShape::Zero => 3,
            SequenceShape::RelativeBlocks => 4,
            SequenceShape::RelativeTime => 5,
            SequenceShape::OtherRbf => 6,
        }
    }

    fn label(&self) -> (s: &'static str) {
        match self {
            SequenceShape::Final => "final",
            SequenceShape::LocktimeNoRbf => "locktime_no_rbf",
            SequenceShape::RbfMax => "rbf_max",
            SequenceShape::Zero => "zero",
            SequenceShape::RelativeBlocks => "relative_blocks",
            SequenceShape::RelativeTime => "relative_time",
            SequenceShape::OtherRbf => "other_rbf",
        }
    }

    open spec fn spec_from_u8(v: u8) -> Option<Self> {
        match v {
            0 => Some(SequenceShape::Final),
            1 => Some(SequenceShape::LocktimeNoRbf),
            2 => Some(SequenceShape::RbfMax),
            3 => Some(SequenceShape::Zero),
            4 => Some(SequenceShape::RelativeBlocks),
            5 => Some(SequenceShape::RelativeTime),
            6 => Some(SequenceShape::OtherRbf),
            _ => None,
        }
    }

    fn from_u8(v: u8) -> (r: Option<Self>) {
        match v {
            0 => Some(SequenceShape::Final),
            1 => Some(SequenceShape::LocktimeNoRbf),
            2 => Some(SequenceShape::RbfMax),
            3 => Some(SequenceShape::Zero),
            4 => Some(SequenceShape::RelativeBlocks),
            5 => Some(SequenceShape::RelativeTime),
            6 => Some(SequenceShape::OtherRbf),
            _ => None,
        }
    }

    fn all() -> (v: Vec<Self>) {
        let v = vec![SequenceShape::Final, SequenceShape::LocktimeNoRbf, SequenceShape::RbfMax, SequenceShape::Zero, SequenceShape::RelativeBlocks, SequenceShape::RelativeTime, SequenceShape::OtherRbf];
        assert(v@ =~= Self::spec_all());
        v
    }

    proof fn lemma_dense_id(x: Self) {
    }

    proof fn lemma_positions() {
    }

    proof fn lemma_code_order(x: Self, y: Self) {
    }

    proof fn lemma_from_u8(v: u8, x: Self) {
    }
}

/// Shape of a transaction's nLockTime relative to the height of its confirming block.
#[derive(Debug, Clone, Copy, PartialEq, Eq, Hash, Structural)]
pub enum LocktimeShape {
    /// nLockTime is 0.
    Zero,
    /// Height of the block before the confirming one (anti-fee-sniping).
    PrevHeight,
    /// A height 2 to 101 blocks below the confirming block.
    RecentHeight,
    /// Any other block height.
    OtherHeight,
    /// A UNIX timestamp (at least 500 000 000).
    Timestamp,
}

impl Categorical for LocktimeShape {
    open spec fn spec_code(self) -> u8 {
        match self {
            LocktimeShape::Zero => 0,
            LocktimeShape::PrevHeight => 1,
            LocktimeShape::RecentHeight => 2,
            LocktimeShape::OtherHeight => 3,
            LocktimeShape::Timestamp => 4,
        }
    }

    open spec fn spec_label(self) -> Seq<char> {
        match self {
            LocktimeShape::Zero => "zero"@,
            LocktimeShape::PrevHeight => "prev_height"@,
            LocktimeShape::RecentHeight => "recent_height"@,
            LocktimeShape::OtherHeight => "other_height"@,
            LocktimeShape::Timestamp => "timestamp"@,
        }
    }

    open spec fn spec_dense_id(self) -> int {
        match self {
            LocktimeShape::Zero => 0,
            LocktimeShape::PrevHeight => 1,
            LocktimeShape::RecentHeight => 2,
            LocktimeShape::OtherHeight => 3,
            LocktimeShape::Timestamp => 4,
        }
    }

    open spec fn spec_all() -> Seq<Self> {
        seq![LocktimeShape::Zero, LocktimeShape::PrevHeight, LocktimeShape::RecentHeight, LocktimeShape::OtherHeight, LocktimeShape::Timestamp]
    }

    fn as_u8(&self) -> (c: u8) {
        match self {
            LocktimeShape::Zero => 0,
            LocktimeShape::PrevHeight => 1,
            LocktimeShape::RecentHeight => 2,
            LocktimeShape::OtherHeight => 3,
            LocktimeShape::Timestamp => 4,
        }
    }

    fn label(&self) -> (s: &'static str) {
        match self {
            LocktimeShape::Zero => "zero",
            LocktimeShape::PrevHeight => "prev_height",
            LocktimeShape::RecentHeight => "recent_height",
            LocktimeShape::OtherHeight => "other_height",
            LocktimeShape::Timestamp => "timestamp",
        }
    }

    open spec fn spec_from_u8(v: u8) -> Option<Self> {
        match v {
            0 => Some(LocktimeShape::Zero),
            1 => Some(LocktimeShape::PrevHeight),
            2 => Some(LocktimeShape::RecentHeight),
            3 => Some(LocktimeShape::OtherHeight),
            4 => Some(LocktimeShape::Timestamp),
            _ => None,
        }
    }

    fn from_u8(v: u8) -> (r: Option<Self>) {
        match v {
            0 => Some(LocktimeShape::Zero),
            1 => Some(LocktimeShape::PrevHeight),
            2 => Some(LocktimeShape::RecentHeight),
            3 => Some(LocktimeShape::OtherHeight),
            4 => Some(LocktimeShape::Timestamp),
            _ => None,
        }
    }

    fn all() -> (v: Vec<Self>) {
        let v = vec![LocktimeShape::Zero, LocktimeShape::PrevHeight, LocktimeShape::RecentHeight, LocktimeShape::OtherHeight, LocktimeShape::Timestamp];
        assert(v@ =~= Self::spec_all());
        v
    }

    proof fn lemma_dense_id(x: Self) {
    }

    proof fn lemma_positions() {
    }

    proof fn lemma_code_order(x: Self, y: Self) {
    }

    proof fn lemma_from_u8(v: u8, x: Self) {
    }
}

impl SighashType {
    /// The sighash type that a trailing flag byte denotes; any flag other than the
    /// seven standard ones is [`SighashType::Unknown`].
    pub open spec fn spec_from_flag(flag: u8) -> SighashType {
        match flag {
            0x00 => SighashType::Default,
            0x01 => SighashType::All,
            0x02 => SighashType::NoneFlag,
            0x03 => SighashType::Single,
            0x81 => SighashType::AllAnyoneCanPay,
            0x82 => SighashType::NoneAnyoneCanPay,
            0x83 => SighashType::SingleAnyoneCanPay,
            _ => SighashType::Unknown,
        }
    }

    pub fn from_flag(flag: u8) -> (r: SighashType)
        ensures
            r == Self::spec_from_flag(flag),
    {
        match flag {
            0x00 => SighashType::Default,
            0x01 => SighashType::All,
            0x02 => SighashType::NoneFlag,
            0x03 => SighashType::Single,
            0x81 => SighashType::AllAnyoneCanPay,
            0x82 => SighashType::NoneAnyoneCanPay,
            0x83 => SighashType::SingleAnyoneCanPay,
            _ => SighashType::Unknown,
        }
    }
}

/// A known sighash flag maps to the type whose code is that flag; every other flag
/// maps to `Unknown`, whose code is `0xff`.
pub proof fn lemma_from_flag_code(flag: u8)
    ensures
        SighashType::spec_from_flag(flag) != SighashType::Unknown ==> SighashType::spec_from_flag(
            flag,
        ).spec_code() == flag,
        SighashType::spec_from_flag(flag) == SighashType::Unknown <==> (forall|s: SighashType|
            s != SighashType::Unknown ==> #[trigger] s.spec_code() != flag),
{
    let t = SighashType::spec_from_flag(flag);
    if t != SighashType::Unknown {
        assert(t.spec_code() == flag);
    }
}

impl SchnorrSighashForm {
    /// The sighash encoding of a Schnorr signature of the given bytes: 64 bytes carry
    /// no flag, 65 bytes carry one in their last byte, any other length is no
    /// Schnorr signature.
    pub open spec fn spec_from_sig_bytes(sig: Seq<u8>) -> Option<SchnorrSighashForm> {
        if sig.len() == 64 {
            Some(SchnorrSighashForm::Default)
        } else if sig.len() == 65 {
            if sig[64] == 0x01 {
                Some(SchnorrSighashForm::ExplicitAll)
            } else {
                Some(SchnorrSighashForm::ExplicitOther)
            }
        } else {
            None
        }
    }

    pub fn from_sig_bytes(sig: &[u8]) -> (r: Option<SchnorrSighashForm>)
        ensures
            r == Self::spec_from_sig_bytes(sig@),
    {
        if sig.len() == 64 {
            Some(SchnorrSighashForm::Default)
        } else if sig.len() == 65 {
            if sig[64] == 0x01 {
                Some(SchnorrSighashForm::ExplicitAll)
            } else {
                Some(SchnorrSighashForm::ExplicitOther)
            }
        } else {
            None
        }
    }
}

impl SequenceShape {
    pub open spec fn spec_from_nsequence(n: u32) -> SequenceShape {
        if n == 0xFFFF_FFFF {
            SequenceShape::Final
        } else if n == 0xFFFF_FFFE {
            SequenceShape::LocktimeNoRbf
        } else if n == 0xFFFF_FFFD {
            SequenceShape::RbfMax
        } else if n == 0 {
            SequenceShape::Zero
        } else if n < 0x8000_0000 {
            if n & 0x0040_0000 != 0 {
                SequenceShape::RelativeTime
            } else {
                SequenceShape::RelativeBlocks
            }
        } else {
            SequenceShape::OtherRbf
        }
    }

    /// Classify an input's nSequence.
    pub fn from_nsequence(n: u32) -> (r: SequenceShape)
        ensures
            r == Self::spec_from_nsequence(n),
    {
        if n == 0xFFFF_FFFF {
            SequenceShape::Final
        } else if n == 0xFFFF_FFFE {
            SequenceShape::LocktimeNoRbf
        } else if n == 0xFFFF_FFFD {
            SequenceShape::RbfMax
        } else if n == 0 {
            SequenceShape::Zero
        } else if n < 0x8000_0000 {
            if n & 0x0040_0000 != 0 {
                SequenceShape::RelativeTime
            } else {
                SequenceShape::RelativeBlocks
            }
        } else {
            SequenceShape::OtherRbf
        }
    }
}

/// The first nLockTime value read as a UNIX timestamp rather than a height.
pub const LOCKTIME_THRESHOLD: u32 = 500_000_000;

impl LocktimeShape {
    pub open spec fn spec_from_locktime(nlocktime: u32, block_height: i32) -> LocktimeShape {
        if nlocktime == 0 {
            LocktimeShape::Zero
        } else if nlocktime >= LOCKTIME_THRESHOLD {
            LocktimeShape::Timestamp
        } else if nlocktime == block_height - 1 {
            LocktimeShape::PrevHeight
        } else if block_height - 101 <= nlocktime < block_height - 1 {
            LocktimeShape::RecentHeight
        } else {
            LocktimeShape::OtherHeight
        }
    }

    /// Classify a transaction's nLockTime against the height of its confirming block.
    pub fn from_locktime(nlocktime: u32, block_height: i32) -> (r: LocktimeShape)
        ensures
            r == Self::spec_from_locktime(nlocktime, block_height),
    {
        let lt = nlocktime as i64;
        let h = block_height as i64;
        if nlocktime == 0 {
            LocktimeShape::Zero
        } else if nlocktime >= LOCKTIME_THRESHOLD {
            LocktimeShape::Timestamp
        } else if lt == h - 1 {
            LocktimeShape::PrevHeight
        } else if h - 101 <= lt && lt < h - 1 {
            LocktimeShape::RecentHeight
        } else {
            LocktimeShape::OtherHeight
        }
    }
}

/// Output classes as rawtx-rs tells them apart. An OP_RETURN output carries the
/// position of its flavor in rawtx-rs's `OpReturnFlavor` (0 for an unspecified
/// OP_RETURN, then witness commitment, Omni, Stacks block commit, 1-byte, 20-byte,
/// 80-byte, BIP47 payment code, RSK, CoreDao, ExSat, Hathor, Runestone).
#[derive(Debug, Clone, Copy, PartialEq, Eq, Structural)]
pub enum ScriptClass {
    P2pk,
    P2pkh,
    P2wpkhV0,
    P2ms,
    P2sh,
    P2wshV0,
    OpReturn(u8),
    P2tr,
    P2a,
    Unknown,
}

/// The class that rawtx-rs's output type detection gives a locking script.
pub uninterp spec fn rawtx_output_class(script: Seq<u8>) -> ScriptClass;

/// Trusted: `rawtx_rs::output::OutputTypeDetection::get_type` on an output with
/// the given locking script. rawtx-rs reads only the script (never the amount),
/// so the amount is set to zero; the returned variant is copied one for one, an
/// OP_RETURN flavor by its position in `OpReturnFlavor`.
#[verifier::external_body]
fn rawtx_classify_output(script: &[u8]) -> (r: ScriptClass)
    ensures
        r == rawtx_output_class(script@),
{
    let out = bitcoin::TxOut { value: bitcoin::Amount::ZERO, script_pubkey: bitcoin::ScriptBuf::from_bytes(script.to_vec()) };
    match out.get_type() {
        OutputType::P2pk => ScriptClass::P2pk,
        OutputType::P2pkh => ScriptClass::P2pkh,
        OutputType::P2wpkhV0 => ScriptClass::P2wpkhV0,
        OutputType::P2ms => ScriptClass::P2ms,
        OutputType::P2sh => ScriptClass::P2sh,
        OutputType::P2wshV0 => ScriptClass::P2wshV0,
        OutputType::OpReturn(flavor) => ScriptClass::OpReturn(flavor as u8),
        OutputType::P2tr => ScriptClass::P2tr,
        OutputType::P2a => ScriptClass::P2a,
        OutputType::Unknown => ScriptClass::Unknown,
    }
}

/// Number of OP_RETURN flavors that rawtx-rs distinguishes.
pub const OP_RETURN_FLAVORS: u8 = 13;

impl RawOutputType {
    /// The flat output type of a class: the OP_RETURN flavor at position `k` gets
    /// code `20 + k`.
    pub open spec fn spec_from_class(c: ScriptClass) -> RawOutputType {
        match c {
            ScriptClass::P2pk => RawOutputType::P2pk,
            ScriptClass::P2pkh => RawOutputType::P2pkh,
            ScriptClass::P2wpkhV0 => RawOutputType::P2wpkhV0,
            ScriptClass::P2ms => RawOutputType::P2ms,
            ScriptClass::P2sh => RawOutputType::P2sh,
            ScriptClass::P2wshV0 => RawOutputType::P2wshV0,
            ScriptClass::OpReturn(k) => if k < OP_RETURN_FLAVORS {
                RawOutputType::spec_from_u8((20 + k) as u8).unwrap()
            } else {
                RawOutputType::OpReturn
            },
            ScriptClass::P2tr => RawOutputType::P2tr,
            ScriptClass::P2a => RawOutputType::P2a,
            ScriptClass::Unknown => RawOutputType::Unknown,
        }
    }

    pub fn from_class(c: ScriptClass) -> (r: RawOutputType)
        ensures
            r == Self::spec_from_class(c),
    {
        match c {
            ScriptClass::P2pk => RawOutputType::P2pk,
            ScriptClass::P2pkh => RawOutputType::P2pkh,
            ScriptClass::P2wpkhV0 => RawOutputType::P2wpkhV0,
            ScriptClass::P2ms => RawOutputType::P2ms,
            ScriptClass::P2sh => RawOutputType::P2sh,
            ScriptClass::P2wshV0 => RawOutputType::P2wshV0,
            ScriptClass::OpReturn(k) => {
                if k < OP_RETURN_FLAVORS {
                    match RawOutputType::from_u8(20 + k) {
                        Some(t) => t,
                        None => RawOutputType::OpReturn,
                    }
                } else {
                    RawOutputType::OpReturn
                }
            },
            ScriptClass::P2tr => RawOutputType::P2tr,
            ScriptClass::P2a => RawOutputType::P2a,
            ScriptClass::Unknown => RawOutputType::Unknown,
        }
    }

    /// The output type of a locking script, as rawtx-rs classifies it.
    pub open spec fn spec_from_script(script: Seq<u8>) -> RawOutputType {
        Self::spec_from_class(rawtx_output_class(script))
    }

    /// Classify a transaction output via rawtx-rs.
    pub fn from_txout(txout: &crate::tx::TxOutput) -> (r: RawOutputType)
        ensures
            r == Self::spec_from_script(txout.script_pubkey@),
    {
        Self::from_class(rawtx_classify_output(txout.script_pubkey.as_slice()))
    }
}

/// The labels of the vocabularies, as they name the feature columns.
pub proof fn lemma_vocabulary_labels()
    ensures
        InputSorting::Single.spec_label() == "single"@,
        InputSorting::Ascending.spec_label() == "ascending"@,
        InputSorting::Descending.spec_label() == "descending"@,
        InputSorting::Bip69.spec_label() == "bip69"@,
        InputSorting::Historical.spec_label() == "historical"@,
        InputSorting::Unknown.spec_label() == "unknown"@,
        OutputStructure::Single.spec_label() == "single"@,
        OutputStructure::Double.spec_label() == "double"@,
        OutputStructure::Multi.spec_label() == "multi"@,
        OutputStructure::Unknown.spec_label() == "unknown"@,
        RawInputType::P2pk.spec_label() == "p2pk"@,
        RawInputType::P2pkLaxDer.spec_label() == "p2pk_lax_der"@,
        RawInputType::P2pkh.spec_label() == "p2pkh"@,
        RawInputType::P2pkhLaxDer.spec_label() == "p2pkh_lax_der"@,
        RawInputType::P2shP2wpkh.spec_label() == "p2sh_p2wpkh"@,
        RawInputType::P2wpkh.spec_label() == "p2wpkh"@,
        RawInputType::P2ms.spec_label() == "p2ms"@,
        RawInputType::P2msLaxDer.spec_label() == "p2ms_lax_der"@,
        RawInputType::P2sh.spec_label() == "p2sh"@,
        RawInputType::P2shP2wsh.spec_label() == "p2sh_p2wsh"@,
        RawInputType::P2wsh.spec_label() == "p2wsh"@,
        RawInputType::P2trkp.spec_label() == "p2tr_keypath"@,
        RawInputType::P2trsp.spec_label() == "p2tr_scriptpath"@,
        RawInputType::P2a.spec_label() == "p2a"@,
        RawInputType::Coinbase.spec_label() == "coinbase"@,
        RawInputType::CoinbaseWitness.spec_label() == "coinbase_witness"@,
        RawInputType::Unknown.spec_label() == "unknown"@,
        RawOutputType::P2pk.spec_label() == "p2pk"@,
        RawOutputType::P2pkh.spec_label() == "p2pkh"@,
        RawOutputType::P2wpkhV0.spec_label() == "p2wpkh_v0"@,
        RawOutputType::P2ms.spec_label() == "p2ms"@,
        RawOutputType::P2sh.spec_label() == "p2sh"@,
        RawOutputType::P2wshV0.spec_label() == "p2wsh_v0"@,
        RawOutputType::P2tr.spec_label() == "p2tr"@,
        RawOutputType::P2a.spec_label() == "p2a"@,
        RawOutputType::Unknown.spec_label() == "unknown"@,
        RawOutputType::OpReturn.spec_label() == "op_return"@,
        RawOutputType::OpReturnWitnessCommitment.spec_label() == "op_return_witness_commitment"@,
        RawOutputType::OpReturnOmni.spec_label() == "op_return_omni"@,
        RawOutputType::OpReturnStacksBlockCommit.spec_label() == "op_return_stacks_block_commit"@,
        RawOutputType::OpReturnLen1Byte.spec_label() == "op_return_len_1"@,
        RawOutputType::OpReturnLen20Byte.spec_label() == "op_return_len_20"@,
        RawOutputType::OpReturnLen80Byte.spec_label() == "op_return_len_80"@,
        RawOutputType::OpReturnBip47PaymentCode.spec_label() == "op_return_bip47"@,
        RawOutputType::OpReturnRskBlock.spec_label() == "op_return_rsk"@,
        RawOutputType::OpReturnCoreDao.spec_label() == "op_return_coredao"@,
        RawOutputType::OpReturnExSat.spec_label() == "op_return_exsat"@,
        RawOutputType::OpReturnHathorNetwork.spec_label() == "op_return_hathor"@,
        RawOutputType::OpReturnRunestone.spec_label() == "op_return_runestone"@,
        SighashType::Default.spec_label() == "DEFAULT"@,
        SighashType::All.spec_label() == "ALL"@,
        SighashType::NoneFlag.spec_label() == "NONE"@,
        SighashType::Single.spec_label() == "SINGLE"@,
        SighashType::AllAnyoneCanPay.spec_label() == "ALL|ANYONECANPAY"@,
        SighashType::NoneAnyoneCanPay.spec_label() == "NONE|ANYONECANPAY"@,
        SighashType::SingleAnyoneCanPay.spec_label() == "SINGLE|ANYONECANPAY"@,
        SighashType::Unknown.spec_label() == "UNKNOWN"@,
        SchnorrSighashForm::Default.spec_label() == "default"@,
        SchnorrSighashForm::ExplicitAll.spec_label() == "explicit_all"@,
        SchnorrSighashForm::ExplicitOther.spec_label() == "explicit_other"@,
        CpfpRole::NoRole.spec_label() == "none"@,
        CpfpRole::Parent.spec_label() == "parent"@,
        CpfpRole::Child.spec_label() == "child"@,
        CpfpRole::Both.spec_label() == "both"@,
        ChangeHeuristic::AddressReuse.spec_label() == "address_reuse"@,
        ChangeHeuristic::OptimalChange.spec_label() == "optimal_change"@,
        ChangeHeuristic::ScriptTypeMatch.spec_label() == "script_type_match"@,
        SequenceShape::Final.spec_label() == "final"@,
        SequenceShape::LocktimeNoRbf.spec_label() == "locktime_no_rbf"@,
        SequenceShape::RbfMax.spec_label() == "rbf_max"@,
        SequenceShape::Zero.spec_label() == "zero"@,
        SequenceShape::RelativeBlocks.spec_label() == "relative_blocks"@,
        SequenceShape::RelativeTime.spec_label() == "relative_time"@,
        SequenceShape::OtherRbf.spec_label() == "other_rbf"@,
        LocktimeShape::Zero.spec_label() == "zero"@,
        LocktimeShape::PrevHeight.spec_label() == "prev_height"@,
        LocktimeShape::RecentHeight.spec_label() == "recent_height"@,
        LocktimeShape::OtherHeight.spec_label() == "other_height"@,
        LocktimeShape::Timestamp.spec_label() == "timestamp"@,
{
}

} // verus!

use kernel_playground::tx::TxOutput;
use kernel_playground::types::{
    code_or, contains_value, unique_by, Categorical, ChangeHeuristic, CpfpRole, DerEncoding,
    InputSorting, LocktimeShape, OutputStructure, PubkeyAlgo, RawInputType, RawOutputType,
    ScriptClass, SchnorrSighashForm, SequenceShape, SigAlgo, SighashType, TaprootSpendPath,
};

#[test]
fn sighash_flags_map_to_types() {
    assert_eq!(SighashType::from_flag(0x00), SighashType::Default);
    assert_eq!(SighashType::from_flag(0x01), SighashType::All);
    assert_eq!(SighashType::from_flag(0x02), SighashType::NoneFlag);
    assert_eq!(SighashType::from_flag(0x03), SighashType::Single);
    assert_eq!(SighashType::from_flag(0x81), SighashType::AllAnyoneCanPay);
    assert_eq!(SighashType::from_flag(0x82), SighashType::NoneAnyoneCanPay);
    assert_eq!(SighashType::from_flag(0x83), SighashType::SingleAnyoneCanPay);
    assert_eq!(SighashType::from_flag(0x42), SighashType::Unknown);
    assert_eq!(SighashType::from_flag(0x04), SighashType::Unknown);
    assert_eq!(SighashType::All.as_u8(), 0x01);
}

#[test]
fn known_sighash_flags_are_their_own_codes() {
    for flag in [0x00u8, 0x01, 0x02, 0x03, 0x81, 0x82, 0x83] {
        assert_eq!(SighashType::from_flag(flag).as_u8(), flag);
    }
    assert_eq!(SighashType::from_flag(0x42).as_u8(), 0xff);
}

#[test]
fn schnorr_forms_from_signature_length() {
    assert_eq!(SchnorrSighashForm::from_sig_bytes(&[7u8; 64]), Some(SchnorrSighashForm::Default));
    let mut sig = vec![7u8; 65];
    sig[64] = 0x01;
    assert_eq!(SchnorrSighashForm::from_sig_bytes(&sig), Some(SchnorrSighashForm::ExplicitAll));
    sig[64] = 0x83;
    assert_eq!(SchnorrSighashForm::from_sig_bytes(&sig), Some(SchnorrSighashForm::ExplicitOther));
    sig[64] = 0x00;
    assert_eq!(SchnorrSighashForm::from_sig_bytes(&sig), Some(SchnorrSighashForm::ExplicitOther));
    assert_eq!(SchnorrSighashForm::from_sig_bytes(&[7u8; 71]), None);
    assert_eq!(SchnorrSighashForm::from_sig_bytes(&[]), None);
}

#[test]
fn sequence_shapes() {
    assert_eq!(SequenceShape::from_nsequence(0xFFFF_FFFF), SequenceShape::Final);
    assert_eq!(SequenceShape::from_nsequence(0xFFFF_FFFE), SequenceShape::LocktimeNoRbf);
    assert_eq!(SequenceShape::from_nsequence(0xFFFF_FFFD), SequenceShape::RbfMax);
    assert_eq!(SequenceShape::from_nsequence(0), SequenceShape::Zero);
    assert_eq!(SequenceShape::from_nsequence(144), SequenceShape::RelativeBlocks);
    assert_eq!(SequenceShape::from_nsequence(0x0040_0010), SequenceShape::RelativeTime);
    assert_eq!(SequenceShape::from_nsequence(0x8000_0000), SequenceShape::OtherRbf);
    assert_eq!(SequenceShape::from_nsequence(0xFFFF_FFFC), SequenceShape::OtherRbf);
}

#[test]
fn locktime_shapes() {
    assert_eq!(LocktimeShape::from_locktime(0, 800_000), LocktimeShape::Zero);
    assert_eq!(LocktimeShape::from_locktime(500_000_000, 800_000), LocktimeShape::Timestamp);
    assert_eq!(LocktimeShape::from_locktime(1_700_000_000, 800_000), LocktimeShape::Timestamp);
    assert_eq!(LocktimeShape::from_locktime(799_999, 800_000), LocktimeShape::PrevHeight);
    assert_eq!(LocktimeShape::from_locktime(799_998, 800_000), LocktimeShape::RecentHeight);
    assert_eq!(LocktimeShape::from_locktime(799_899, 800_000), LocktimeShape::RecentHeight);
    assert_eq!(LocktimeShape::from_locktime(799_898, 800_000), LocktimeShape::OtherHeight);
    assert_eq!(LocktimeShape::from_locktime(800_000, 800_000), LocktimeShape::OtherHeight);
    assert_eq!(LocktimeShape::from_locktime(5, 0), LocktimeShape::OtherHeight);
}

#[test]
fn labels_and_codes() {
    assert_eq!(InputSorting::Bip69.label(), "bip69");
    assert_eq!(InputSorting::Historical.as_u8(), 4);
    assert_eq!(OutputStructure::Multi.label(), "multi");
    assert_eq!(CpfpRole::NoRole.label(), "none");
    assert_eq!(CpfpRole::Both.as_u8(), 3);
    assert_eq!(TaprootSpendPath::NoPath.label(), "none");
    assert_eq!(SigAlgo::Schnorr.as_u8(), 1);
    assert_eq!(PubkeyAlgo::Ecdsa.label(), "ecdsa");
    assert_eq!(ChangeHeuristic::ScriptTypeMatch.as_u8(), 2);
    assert_eq!(SchnorrSighashForm::ExplicitOther.label(), "explicit_other");
    assert_eq!(RawOutputType::OpReturnRunestone.as_u8(), 32);
    assert_eq!(RawOutputType::OpReturn.as_u8(), 20);
    assert_eq!(RawOutputType::Unknown.as_u8(), 8);
    assert_eq!(RawInputType::Unknown.as_u8(), 16);
    assert_eq!(SighashType::NoneFlag.label(), "NONE");
}

fn assert_vocabulary<T: Categorical + PartialEq + std::fmt::Debug>() {
    let all = T::all();
    for (i, v) in all.iter().enumerate() {
        assert_eq!(T::from_u8(v.as_u8()), Some(*v));
        if i > 0 {
            assert!(all[i - 1].as_u8() < v.as_u8());
        }
    }
    let mut misses = 0usize;
    for c in 0..=255u8 {
        match T::from_u8(c) {
            Some(v) => assert_eq!(v.as_u8(), c),
            None => misses += 1,
        }
    }
    assert_eq!(256 - misses, all.len());
}

#[test]
fn every_vocabulary_round_trips_its_codes() {
    assert_vocabulary::<InputSorting>();
    assert_vocabulary::<OutputStructure>();
    assert_vocabulary::<RawInputType>();
    assert_vocabulary::<RawOutputType>();
    assert_vocabulary::<SighashType>();
    assert_vocabulary::<SchnorrSighashForm>();
    assert_vocabulary::<TaprootSpendPath>();
    assert_vocabulary::<SigAlgo>();
    assert_vocabulary::<PubkeyAlgo>();
    assert_vocabulary::<DerEncoding>();
    assert_vocabulary::<CpfpRole>();
    assert_vocabulary::<ChangeHeuristic>();
    assert_vocabulary::<SequenceShape>();
    assert_vocabulary::<LocktimeShape>();
}

#[test]
fn vocabulary_sizes() {
    assert_eq!(InputSorting::all().len(), 6);
    assert_eq!(RawInputType::all().len(), 17);
    assert_eq!(RawOutputType::all().len(), 22);
    assert_eq!(SighashType::all().len(), 8);
    assert_eq!(DerEncoding::all().len(), 16);
}

#[test]
fn code_or_falls_back_on_unknown_codes() {
    assert_eq!(code_or(3u8, DerEncoding::NotApplicable), DerEncoding::SigTooLong);
    assert_eq!(code_or(200u8, DerEncoding::NotApplicable), DerEncoding::NotApplicable);
    assert_eq!(code_or(1u8, PubkeyAlgo::Ecdsa), PubkeyAlgo::Schnorr);
}

#[test]
fn unique_by_sorts_and_dedups_by_code() {
    let items = vec![
        SighashType::Unknown,
        SighashType::All,
        SighashType::Default,
        SighashType::All,
        SighashType::AllAnyoneCanPay,
    ];
    assert_eq!(
        unique_by(&items),
        vec![
            SighashType::Default,
            SighashType::All,
            SighashType::AllAnyoneCanPay,
            SighashType::Unknown
        ]
    );
    assert_eq!(unique_by::<SequenceShape>(&vec![]), vec![]);
    assert!(contains_value(&items, SighashType::Default));
    assert!(!contains_value(&items, SighashType::Single));
}

fn out(script: Vec<u8>) -> TxOutput {
    TxOutput { value: 1000, script_pubkey: script }
}

#[test]
fn output_types_from_scripts() {
    let mut p2pkh = vec![0x76, 0xa9, 0x14];
    p2pkh.extend([0x11u8; 20]);
    p2pkh.extend([0x88, 0xac]);
    assert_eq!(RawOutputType::from_txout(&out(p2pkh)), RawOutputType::P2pkh);

    let mut p2wpkh = vec![0x00, 0x14];
    p2wpkh.extend([0x22u8; 20]);
    assert_eq!(RawOutputType::from_txout(&out(p2wpkh)), RawOutputType::P2wpkhV0);

    let mut p2wsh = vec![0x00, 0x20];
    p2wsh.extend([0x23u8; 32]);
    assert_eq!(RawOutputType::from_txout(&out(p2wsh)), RawOutputType::P2wshV0);

    let mut p2tr = vec![0x51, 0x20];
    p2tr.extend([0x33u8; 32]);
    assert_eq!(RawOutputType::from_txout(&out(p2tr)), RawOutputType::P2tr);

    let mut p2sh = vec![0xa9, 0x14];
    p2sh.extend([0x44u8; 20]);
    p2sh.push(0x87);
    assert_eq!(RawOutputType::from_txout(&out(p2sh)), RawOutputType::P2sh);

    assert_eq!(RawOutputType::from_txout(&out(vec![0x6a])), RawOutputType::OpReturn);
    assert_eq!(RawOutputType::from_txout(&out(vec![0x01, 0x02, 0x03])), RawOutputType::Unknown);
}

#[test]
fn script_classes_map_to_flat_output_types() {
    assert_eq!(RawOutputType::from_class(ScriptClass::OpReturn(0)), RawOutputType::OpReturn);
    assert_eq!(
        RawOutputType::from_class(ScriptClass::OpReturn(1)),
        RawOutputType::OpReturnWitnessCommitment
    );
    assert_eq!(
        RawOutputType::from_class(ScriptClass::OpReturn(12)),
        RawOutputType::OpReturnRunestone
    );
    assert_eq!(RawOutputType::from_class(ScriptClass::OpReturn(40)), RawOutputType::OpReturn);
    assert_eq!(RawOutputType::from_class(ScriptClass::P2a), RawOutputType::P2a);
}

#[test]
fn witness_commitment_output_type() {
    let mut script = vec![0x6a, 0x24, 0xaa, 0x21, 0xa9, 0xed];
    script.extend([0x55u8; 32]);
    assert_eq!(RawOutputType::from_txout(&out(script)), RawOutputType::OpReturnWitnessCommitment);
}

use ir_refs::linkage::Linkage;

const ALL_LINKAGES: [Linkage; 11] = [
    Linkage::External,
    Linkage::AvailableExternally,
    Linkage::LinkOnceAny,
    Linkage::LinkOnceODR,
    Linkage::WeakAny,
    Linkage::WeakODR,
    Linkage::Appending,
    Linkage::Internal,
    Linkage::Private,
    Linkage::ExternalWeak,
    Linkage::Common,
];

#[test]
fn linkage_round_trip_every_value() {
    for &l in ALL_LINKAGES.iter() {
        let code = l.to_code();
        assert_eq!(Linkage::from_code(code), Some(l));
    }
}

#[test]
fn linkage_native_codes_exact() {
    assert_eq!(Linkage::External.to_code(), 0);
    assert_eq!(Linkage::AvailableExternally.to_code(), 1);
    assert_eq!(Linkage::LinkOnceAny.to_code(), 2);
    assert_eq!(Linkage::LinkOnceODR.to_code(), 3);
    assert_eq!(Linkage::WeakAny.to_code(), 5);
    assert_eq!(Linkage::WeakODR.to_code(), 6);
    assert_eq!(Linkage::Appending.to_code(), 7);
    assert_eq!(Linkage::Internal.to_code(), 8);
    assert_eq!(Linkage::Private.to_code(), 9);
    assert_eq!(Linkage::ExternalWeak.to_code(), 12);
    assert_eq!(Linkage::Common.to_code(), 14);
}

#[test]
fn linkage_reserved_codes_never_produced() {
    for &l in ALL_LINKAGES.iter() {
        let code = l.to_code();
        assert_ne!(code, 4);
        assert_ne!(code, 10);
        assert_ne!(code, 11);
        assert_ne!(code, 13);
    }
}

#[test]
fn linkage_reserved_codes_are_unnamed() {
    assert_eq!(Linkage::from_code(4), None);
    assert_eq!(Linkage::from_code(10), None);
    assert_eq!(Linkage::from_code(11), None);
    assert_eq!(Linkage::from_code(13), None);
    assert_eq!(Linkage::from_code(15), None);
    assert_eq!(Linkage::from_code(255), None);
}

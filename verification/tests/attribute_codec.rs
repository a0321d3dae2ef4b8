use ir_refs::attribute::Attribute;

const ALL_ATTRIBUTES: [Attribute; 26] = [
    Attribute::ZExt,
    Attribute::SExt,
    Attribute::NoReturn,
    Attribute::InReg,
    Attribute::StructRet,
    Attribute::NoUnwind,
    Attribute::NoAlias,
    Attribute::ByVal,
    Attribute::Nest,
    Attribute::ReadNone,
    Attribute::ReadOnly,
    Attribute::NoInline,
    Attribute::AlwaysInline,
    Attribute::OptimizeForSize,
    Attribute::StackProtect,
    Attribute::StackProtectReq,
    Attribute::Alignment,
    Attribute::NoCapture,
    Attribute::NoRedZone,
    Attribute::NoImplicitFloat,
    Attribute::Naked,
    Attribute::InlineHint,
    Attribute::StackAlignment,
    Attribute::ReturnsTwice,
    Attribute::UWTable,
    Attribute::NonLazyBind,
];

#[test]
fn attribute_round_trip_every_flag() {
    for &a in ALL_ATTRIBUTES.iter() {
        let bits = a.to_bits();
        assert_eq!(Attribute::from_bits(bits), Some(a));
    }
}

#[test]
fn attribute_native_bits_exact() {
    assert_eq!(Attribute::ZExt.to_bits(), 0x1);
    assert_eq!(Attribute::SExt.to_bits(), 0x2);
    assert_eq!(Attribute::NoReturn.to_bits(), 0x4);
    assert_eq!(Attribute::StructRet.to_bits(), 0x10);
    assert_eq!(Attribute::NoUnwind.to_bits(), 0x20);
    assert_eq!(Attribute::InlineHint.to_bits(), 0x200000);
    assert_eq!(Attribute::StackAlignment.to_bits(), 0x1C000000);
    assert_eq!(Attribute::ReturnsTwice.to_bits(), 0x20000000);
    assert_eq!(Attribute::UWTable.to_bits(), 0x40000000);
    assert_eq!(Attribute::NonLazyBind.to_bits(), 0x80000000);
}

#[test]
fn attribute_masks_pairwise_disjoint() {
    for &a in ALL_ATTRIBUTES.iter() {
        for &b in ALL_ATTRIBUTES.iter() {
            if a != b {
                assert_eq!(a.to_bits() & b.to_bits(), 0);
            }
        }
    }
}

#[test]
fn attribute_from_unnamed_bits_is_absent() {
    assert_eq!(Attribute::from_bits(0), None);
    // A combination of two named flags is not itself a named flag.
    assert_eq!(Attribute::from_bits(0x3), None);
    // The unused bits between the inline hint and the stack-alignment field.
    assert_eq!(Attribute::from_bits(0x400000), None);
    assert_eq!(Attribute::from_bits(0x2000000), None);
    // A partial stack-alignment field is not the named flag.
    assert_eq!(Attribute::from_bits(0x4000000), None);
    assert_eq!(Attribute::from_bits(0xC000000), None);
}

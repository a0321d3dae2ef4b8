//! Attribute flags for functions and their parameters, mirroring the store's
//! bit-packed native mask exactly.
//!
//! Each named flag occupies its own bit range of a 32-bit mask: most flags
//! are a single bit, while the stack-alignment field spans three reserved
//! bits.  Flags combine by bitwise OR and containment is tested by bitwise
//! AND; because the named bit ranges are pairwise disjoint, a combined mask
//! contains exactly the flags that were OR-ed into it.  The codec is a
//! bit-for-bit reinterpretation of the native encoding — no remapping.

use vstd::prelude::*;

verus! {

/// A calling-convention or optimisation hint for a function or parameter.
#[derive(Copy, Clone, PartialEq, Eq, Structural, Debug)]
pub enum Attribute {
    /// Zero-extended before or after call.
    ZExt,
    /// Sign-extended before or after call.
    SExt,
    /// Mark the function as not returning.
    NoReturn,
    /// Force argument to be passed in register.
    InReg,
    /// Hidden pointer to structure to return.
    StructRet,
    /// Function doesn't unwind stack.
    NoUnwind,
    /// Consider to not alias after call.
    NoAlias,
    /// Pass structure by value.
    ByVal,
    /// Nested function static chain.
    Nest,
    /// Function doesn't access memory.
    ReadNone,
    /// Function only reads from memory.
    ReadOnly,
    /// Never inline this function.
    NoInline,
    /// Always inline this function.
    AlwaysInline,
    /// Optimize this function for size.
    OptimizeForSize,
    /// Stack protection.
    StackProtect,
    /// Stack protection required.
    StackProtectReq,
    /// Alignment of parameter, stored as log2 of alignment with +1 bias;
    /// 0 means unaligned.
    Alignment,
    /// Function creates no aliases of pointer.
    NoCapture,
    /// Disable redzone.
    NoRedZone,
    /// Disable implicit float instructions.
    NoImplicitFloat,
    /// Naked function.
    Naked,
    /// The source language has marked this function as inline.
    InlineHint,
    /// Alignment of stack for function, a three-bit field stored as log2 of
    /// alignment with +1 bias; 0 means unaligned.
    StackAlignment,
    /// This function returns twice.
    ReturnsTwice,
    /// Function must be in unwind table.
    UWTable,
    /// Function is called early/often, so lazy binding isn't effective.
    NonLazyBind,
}

/// The store's native bit mask for a named flag.
pub open spec fn attr_mask(a: Attribute) -> u32 {
    match a {
        Attribute::ZExt => 0x1,
        Attribute::SExt => 0x2,
        Attribute::NoReturn => 0x4,
        Attribute::InReg => 0x8,
        Attribute::StructRet => 0x10,
        Attribute::NoUnwind => 0x20,
        Attribute::NoAlias => 0x40,
        Attribute::ByVal => 0x80,
        Attribute::Nest => 0x100,
        Attribute::ReadNone => 0x200,
        Attribute::ReadOnly => 0x400,
        Attribute::NoInline => 0x800,
        Attribute::AlwaysInline => 0x1000,
        Attribute::OptimizeForSize => 0x2000,
        Attribute::StackProtect => 0x4000,
        Attribute::StackProtectReq => 0x8000,
        Attribute::Alignment => 0x10000,
        Attribute::NoCapture => 0x20000,
        Attribute::NoRedZone => 0x40000,
        Attribute::NoImplicitFloat => 0x80000,
        Attribute::Naked => 0x100000,
        Attribute::InlineHint => 0x200000,
        Attribute::StackAlignment => 0x1C000000,
        Attribute::ReturnsTwice => 0x20000000,
        Attribute::UWTable => 0x40000000,
        Attribute::NonLazyBind => 0x80000000,
    }
}

/// The named flag behind a native bit mask, if the mask is exactly one
/// named flag.
pub open spec fn attr_from_mask(bits: u32) -> Option<Attribute> {
    if bits == 0x1 {
        Some(Attribute::ZExt)
    } else if bits == 0x2 {
        Some(Attribute::SExt)
    } else if bits == 0x4 {
        Some(Attribute::NoReturn)
    } else if bits == 0x8 {
        Some(Attribute::InReg)
    } else if bits == 0x10 {
        Some(Attribute::StructRet)
    } else if bits == 0x20 {
        Some(Attribute::NoUnwind)
    } else if bits == 0x40 {
        Some(Attribute::NoAlias)
    } else if bits == 0x80 {
        Some(Attribute::ByVal)
    } else if bits == 0x100 {
        Some(Attribute::Nest)
    } else if bits == 0x200 {
        Some(Attribute::ReadNone)
    } else if bits == 0x400 {
        Some(Attribute::ReadOnly)
    } else if bits == 0x800 {
        Some(Attribute::NoInline)
    } else if bits == 0x1000 {
        Some(Attribute::AlwaysInline)
    } else if bits == 0x2000 {
        Some(Attribute::OptimizeForSize)
    } else if bits == 0x4000 {
        Some(Attribute::StackProtect)
    } else if bits == 0x8000 {
        Some(Attribute::StackProtectReq)
    } else if bits == 0x10000 {
        Some(Attribute::Alignment)
    } else if bits == 0x20000 {
        Some(Attribute::NoCapture)
    } else if bits == 0x40000 {
        Some(Attribute::NoRedZone)
    } else if bits == 0x80000 {
        Some(Attribute::NoImplicitFloat)
    } else if bits == 0x100000 {
        Some(Attribute::Naked)
    } else if bits == 0x200000 {
        Some(Attribute::InlineHint)
    } else if bits == 0x1C000000 {
        Some(Attribute::StackAlignment)
    } else if bits == 0x20000000 {
        Some(Attribute::ReturnsTwice)
    } else if bits == 0x40000000 {
        Some(Attribute::UWTable)
    } else if bits == 0x80000000 {
        Some(Attribute::NonLazyBind)
    } else {
        None
    }
}

/// True when the mask `m` contains the named flag `a`: the flag's whole bit
/// range is set in `m`.
pub open spec fn mask_has(m: u32, a: Attribute) -> bool {
    m & attr_mask(a) == attr_mask(a)
}

/// The native mask obtained by OR-ing the given flags together, left to
/// right, starting from the empty mask.
pub open spec fn or_mask(attrs: Seq<Attribute>) -> u32
    decreases attrs.len(),
{
    if attrs.len() == 0 {
        0
    } else {
        or_mask(attrs.drop_last()) | attr_mask(attrs.last())
    }
}

/// The mask obtained from `m` by OR-ing in the given flags one at a time,
/// left to right — the effect of repeated single-flag additions.
pub open spec fn apply_each(m: u32, attrs: Seq<Attribute>) -> u32
    decreases attrs.len(),
{
    if attrs.len() == 0 {
        m
    } else {
        apply_each(m, attrs.drop_last()) | attr_mask(attrs.last())
    }
}

impl Attribute {
    /// Convert this flag to the store's native bit mask.
    pub fn to_bits(self) -> (r: u32)
        ensures
            r == attr_mask(self),
    {
        match self {
            Attribute::ZExt => 0x1,
            Attribute::SExt => 0x2,
            Attribute::NoReturn => 0x4,
            Attribute::InReg => 0x8,
            Attribute::StructRet => 0x10,
            Attribute::NoUnwind => 0x20,
            Attribute::NoAlias => 0x40,
            Attribute::ByVal => 0x80,
            Attribute::Nest => 0x100,
            Attribute::ReadNone => 0x200,
            Attribute::ReadOnly => 0x400,
            Attribute::NoInline => 0x800,
            Attribute::AlwaysInline => 0x1000,
            Attribute::OptimizeForSize => 0x2000,
            Attribute::StackProtect => 0x4000,
            Attribute::StackProtectReq => 0x8000,
            Attribute::Alignment => 0x10000,
            Attribute::NoCapture => 0x20000,
            Attribute::NoRedZone => 0x40000,
            Attribute::NoImplicitFloat => 0x80000,
            Attribute::Naked => 0x100000,
            Attribute::InlineHint => 0x200000,
            Attribute::StackAlignment => 0x1C000000,
            Attribute::ReturnsTwice => 0x20000000,
            Attribute::UWTable => 0x40000000,
            Attribute::NonLazyBind => 0x80000000,
        }
    }

    /// Recover the named flag behind a native bit mask; `None` unless the
    /// mask is exactly one named flag's bit range.
    pub fn from_bits(bits: u32) -> (r: Option<Attribute>)
        ensures
            r == attr_from_mask(bits),
    {
        match bits {
            0x1 => Some(Attribute::ZExt),
            0x2 => Some(Attribute::SExt),
            0x4 => Some(Attribute::NoReturn),
            0x8 => Some(Attribute::InReg),
            0x10 => Some(Attribute::StructRet),
            0x20 => Some(Attribute::NoUnwind),
            0x40 => Some(Attribute::NoAlias),
            0x80 => Some(Attribute::ByVal),
            0x100 => Some(Attribute::Nest),
            0x200 => Some(Attribute::ReadNone),
            0x400 => Some(Attribute::ReadOnly),
            0x800 => Some(Attribute::NoInline),
            0x1000 => Some(Attribute::AlwaysInline),
            0x2000 => Some(Attribute::OptimizeForSize),
            0x4000 => Some(Attribute::StackProtect),
            0x8000 => Some(Attribute::StackProtectReq),
            0x10000 => Some(Attribute::Alignment),
            0x20000 => Some(Attribute::NoCapture),
            0x40000 => Some(Attribute::NoRedZone),
            0x80000 => Some(Attribute::NoImplicitFloat),
            0x100000 => Some(Attribute::Naked),
            0x200000 => Some(Attribute::InlineHint),
            0x1C000000 => Some(Attribute::StackAlignment),
            0x20000000 => Some(Attribute::ReturnsTwice),
            0x40000000 => Some(Attribute::UWTable),
            0x80000000 => Some(Attribute::NonLazyBind),
            _ => None,
        }
    }
}

/// The bit position where a flag's bit range starts.
spec fn attr_shift(a: Attribute) -> u32 {
    match a {
        Attribute::ZExt => 0,
        Attribute::SExt => 1,
        Attribute::NoReturn => 2,
        Attribute::InReg => 3,
        Attribute::StructRet => 4,
        Attribute::NoUnwind => 5,
        Attribute::NoAlias => 6,
        Attribute::ByVal => 7,
        Attribute::Nest => 8,
        Attribute::ReadNone => 9,
        Attribute::ReadOnly => 10,
        Attribute::NoInline => 11,
        Attribute::AlwaysInline => 12,
        Attribute::OptimizeForSize => 13,
        Attribute::StackProtect => 14,
        Attribute::StackProtectReq => 15,
        Attribute::Alignment => 16,
        Attribute::NoCapture => 17,
        Attribute::NoRedZone => 18,
        Attribute::NoImplicitFloat => 19,
        Attribute::Naked => 20,
        Attribute::InlineHint => 21,
        Attribute::StackAlignment => 26,
        Attribute::ReturnsTwice => 29,
        Attribute::UWTable => 30,
        Attribute::NonLazyBind => 31,
    }
}

/// The unshifted bit field of a flag: three bits for the stack-alignment
/// field, one bit for every other flag.
spec fn attr_field(a: Attribute) -> u32 {
    if a == Attribute::StackAlignment {
        7
    } else {
        1
    }
}

/// Every native mask is its flag's bit field shifted to the flag's position.
proof fn lemma_mask_is_shifted(a: Attribute)
    ensures
        attr_mask(a) == attr_field(a) << attr_shift(a),
{
    assert(0x1u32 == 1u32 << 0 && 0x2u32 == 1u32 << 1 && 0x4u32 == 1u32 << 2
        && 0x8u32 == 1u32 << 3 && 0x10u32 == 1u32 << 4 && 0x20u32 == 1u32 << 5
        && 0x40u32 == 1u32 << 6 && 0x80u32 == 1u32 << 7 && 0x100u32 == 1u32 << 8
        && 0x200u32 == 1u32 << 9 && 0x400u32 == 1u32 << 10 && 0x800u32 == 1u32 << 11
        && 0x1000u32 == 1u32 << 12 && 0x2000u32 == 1u32 << 13 && 0x4000u32 == 1u32 << 14
        && 0x8000u32 == 1u32 << 15 && 0x10000u32 == 1u32 << 16 && 0x20000u32 == 1u32 << 17
        && 0x40000u32 == 1u32 << 18 && 0x80000u32 == 1u32 << 19 && 0x100000u32 == 1u32 << 20
        && 0x200000u32 == 1u32 << 21 && 0x1C000000u32 == 7u32 << 26
        && 0x20000000u32 == 1u32 << 29 && 0x40000000u32 == 1u32 << 30
        && 0x80000000u32 == 1u32 << 31) by (bit_vector);
}

/// Two distinct single bits never overlap.
proof fn lemma_single_bits_disjoint(i: u32, j: u32)
    by (bit_vector)
    requires
        i < 32,
        j < 32,
        i != j,
    ensures
        (1u32 << i) & (1u32 << j) == 0,
{
}

/// A single bit outside the stack-alignment field never overlaps it.
proof fn lemma_stack_field_disjoint(i: u32)
    by (bit_vector)
    requires
        i < 32,
        i < 26 || i > 28,
    ensures
        (7u32 << 26) & (1u32 << i) == 0,
        (1u32 << i) & (7u32 << 26) == 0,
{
}

/// Law: the bit ranges of two distinct named flags are disjoint, so no flag
/// can be forged by combining others.
pub proof fn lemma_attr_masks_disjoint(a: Attribute, b: Attribute)
    requires
        a != b,
    ensures
        attr_mask(a) & attr_mask(b) == 0,
{
    lemma_mask_is_shifted(a);
    lemma_mask_is_shifted(b);
    if a == Attribute::StackAlignment {
        lemma_stack_field_disjoint(attr_shift(b));
    } else if b == Attribute::StackAlignment {
        lemma_stack_field_disjoint(attr_shift(a));
    } else {
        lemma_single_bits_disjoint(attr_shift(a), attr_shift(b));
    }
}

/// Law: converting a named flag to its native mask and back yields the same
/// flag, and no named mask is zero.
pub proof fn lemma_attribute_round_trip(a: Attribute)
    ensures
        attr_from_mask(attr_mask(a)) == Some(a),
        attr_mask(a) != 0,
{
}

/// Law: a mask built by OR-ing a set of named flags contains a flag exactly
/// when the flag was one of those OR-ed in.
pub proof fn lemma_or_mask_contains(attrs: Seq<Attribute>, a: Attribute)
    ensures
        mask_has(or_mask(attrs), a) <==> attrs.contains(a),
    decreases attrs.len(),
{
    if attrs.len() == 0 {
        lemma_attribute_round_trip(a);
        assert(0u32 & attr_mask(a) == 0) by (bit_vector);
    } else {
        let rest = attrs.drop_last();
        let b = attrs.last();
        lemma_or_mask_contains(rest, a);
        if a == b {
            lemma_or_contains(or_mask(rest), attr_mask(b));
        } else {
            lemma_attr_masks_disjoint(b, a);
            lemma_or_other(or_mask(rest), attr_mask(b), attr_mask(a));
        }
        assert(attrs.contains(a) <==> (rest.contains(a) || a == b)) by {
            if rest.contains(a) {
                let i = choose|i: int| 0 <= i < rest.len() && rest[i] == a;
                assert(attrs[i] == a);
            }
            if a == b {
                assert(attrs[attrs.len() - 1] == a);
            }
            if attrs.contains(a) {
                let i = choose|i: int| 0 <= i < attrs.len() && attrs[i] == a;
                if i < attrs.len() - 1 {
                    assert(rest[i] == a);
                }
            }
        }
    }
}

/// OR-ing a bit range into a mask makes the mask contain it.
proof fn lemma_or_contains(m: u32, x: u32)
    by (bit_vector)
    ensures
        (m | x) & x == x,
{
}

/// OR-ing in one bit range leaves containment of a disjoint range unchanged.
proof fn lemma_or_other(m: u32, x: u32, y: u32)
    by (bit_vector)
    requires
        x & y == 0,
    ensures
        ((m | x) & y == y) <==> (m & y == y),
{
}

/// OR is associative on masks.
proof fn lemma_or_assoc(m: u32, x: u32, y: u32)
    by (bit_vector)
    ensures
        (m | x) | y == m | (x | y),
{
}

/// Clearing a bit range removes it from the mask and leaves containment of
/// any disjoint range unchanged.
pub proof fn lemma_mask_clear(m: u32, x: u32, y: u32)
    by (bit_vector)
    requires
        x & y == 0,
    ensures
        (m & !x) & x == 0,
        ((m & !x) & y == y) <==> (m & y == y),
{
}

/// Law: after OR-ing a set of named flags into a mask, the mask contains a
/// flag exactly when the flag was among those OR-ed in, or the mask already
/// contained it — adding flags never forges or erases others.
pub proof fn lemma_mask_or_contains(m: u32, attrs: Seq<Attribute>, a: Attribute)
    ensures
        mask_has(m | or_mask(attrs), a) <==> (attrs.contains(a) || mask_has(m, a)),
    decreases attrs.len(),
{
    if attrs.len() == 0 {
        assert(m | 0u32 == m) by (bit_vector);
        assert(!Seq::<Attribute>::empty().contains(a));
    } else {
        let rest = attrs.drop_last();
        let b = attrs.last();
        lemma_mask_or_contains(m, rest, a);
        lemma_or_assoc(m, or_mask(rest), attr_mask(b));
        if a == b {
            lemma_or_contains(m | or_mask(rest), attr_mask(b));
        } else {
            lemma_attr_masks_disjoint(b, a);
            lemma_or_other(m | or_mask(rest), attr_mask(b), attr_mask(a));
        }
        assert(attrs.contains(a) <==> (rest.contains(a) || a == b)) by {
            if rest.contains(a) {
                let i = choose|i: int| 0 <= i < rest.len() && rest[i] == a;
                assert(attrs[i] == a);
            }
            if a == b {
                assert(attrs[attrs.len() - 1] == a);
            }
            if attrs.contains(a) {
                let i = choose|i: int| 0 <= i < attrs.len() && attrs[i] == a;
                if i < attrs.len() - 1 {
                    assert(rest[i] == a);
                }
            }
        }
    }
}

/// Law: adding a batch of flags in one combined OR gives the very mask that
/// adding them one at a time gives.
pub proof fn lemma_batch_equals_singles(m: u32, attrs: Seq<Attribute>)
    ensures
        m | or_mask(attrs) == apply_each(m, attrs),
    decreases attrs.len(),
{
    if attrs.len() == 0 {
        assert(m | 0u32 == m) by (bit_vector);
    } else {
        let rest = attrs.drop_last();
        lemma_batch_equals_singles(m, rest);
        lemma_or_assoc(m, or_mask(rest), attr_mask(attrs.last()));
    }
}

} // verus!

//! Linkage policies for global values, mirroring the store's native integer
//! encoding exactly.
//!
//! The native encoding is a small integer enumeration with four reserved
//! gaps (the codes 4, 10, 11 and 13 carry no named policy here).  The codec
//! below converts by exact integer identity — no remapping — so that a
//! round trip through the native representation is lossless.

use vstd::prelude::*;

verus! {

/// How a global value interacts with other modules during linkage.
#[derive(Copy, Clone, PartialEq, Eq, Structural, Debug)]
pub enum Linkage {
    /// Default linkage: externally visible, participates in linkage normally.
    External,
    /// Known definition lives outside the module; never emitted, only used
    /// to enable optimisation.  Otherwise behaves like `LinkOnceODR`.
    AvailableExternally,
    /// Merged with globals of the same name; unreferenced copies may be
    /// discarded.
    LinkOnceAny,
    /// Like `LinkOnceAny`, but only merged with equivalent globals.
    LinkOnceODR,
    /// Merged like `LinkOnceAny`, but unreferenced copies are kept.
    WeakAny,
    /// Like `WeakAny`, but only merged with equivalent globals.
    WeakODR,
    /// Global arrays with this linkage are appended together when merged.
    Appending,
    /// Local to the module, shown as a local symbol in the object file.
    Internal,
    /// Local to the module and absent from the object file's symbol table.
    Private,
    /// Weak until linked; an unresolved symbol becomes null, not undefined.
    ExternalWeak,
    /// Tentative definition: zero-initialised, merged by the linker.
    Common,
}

/// The store's native integer code for a linkage policy.
pub open spec fn linkage_code(l: Linkage) -> u32 {
    match l {
        Linkage::External => 0,
        Linkage::AvailableExternally => 1,
        Linkage::LinkOnceAny => 2,
        Linkage::LinkOnceODR => 3,
        Linkage::WeakAny => 5,
        Linkage::WeakODR => 6,
        Linkage::Appending => 7,
        Linkage::Internal => 8,
        Linkage::Private => 9,
        Linkage::ExternalWeak => 12,
        Linkage::Common => 14,
    }
}

/// The named linkage policy behind a native code, if the code is named.
pub open spec fn linkage_from_code(c: u32) -> Option<Linkage> {
    if c == 0 {
        Some(Linkage::External)
    } else if c == 1 {
        Some(Linkage::AvailableExternally)
    } else if c == 2 {
        Some(Linkage::LinkOnceAny)
    } else if c == 3 {
        Some(Linkage::LinkOnceODR)
    } else if c == 5 {
        Some(Linkage::WeakAny)
    } else if c == 6 {
        Some(Linkage::WeakODR)
    } else if c == 7 {
        Some(Linkage::Appending)
    } else if c == 8 {
        Some(Linkage::Internal)
    } else if c == 9 {
        Some(Linkage::Private)
    } else if c == 12 {
        Some(Linkage::ExternalWeak)
    } else if c == 14 {
        Some(Linkage::Common)
    } else {
        None
    }
}

/// True of exactly the native codes that carry a named policy.
pub open spec fn is_named_code(c: u32) -> bool {
    linkage_from_code(c) is Some
}

impl Linkage {
    /// Convert this policy to the store's native integer code.
    pub fn to_code(self) -> (r: u32)
        ensures
            r == linkage_code(self),
    {
        match self {
            Linkage::External => 0,
            Linkage::AvailableExternally => 1,
            Linkage::LinkOnceAny => 2,
            Linkage::LinkOnceODR => 3,
            Linkage::WeakAny => 5,
            Linkage::WeakODR => 6,
            Linkage::Appending => 7,
            Linkage::Internal => 8,
            Linkage::Private => 9,
            Linkage::ExternalWeak => 12,
            Linkage::Common => 14,
        }
    }

    /// Recover the named policy behind a native integer code; `None` for the
    /// reserved codes and for anything outside the enumeration.
    pub fn from_code(c: u32) -> (r: Option<Linkage>)
        ensures
            r == linkage_from_code(c),
    {
        match c {
            0 => Some(Linkage::External),
            1 => Some(Linkage::AvailableExternally),
            2 => Some(Linkage::LinkOnceAny),
            3 => Some(Linkage::LinkOnceODR),
            5 => Some(Linkage::WeakAny),
            6 => Some(Linkage::WeakODR),
            7 => Some(Linkage::Appending),
            8 => Some(Linkage::Internal),
            9 => Some(Linkage::Private),
            12 => Some(Linkage::ExternalWeak),
            14 => Some(Linkage::Common),
            _ => None,
        }
    }
}

/// Law: converting a named linkage policy to its native code and back yields
/// the same policy, and every code produced this way is a named code.
pub proof fn lemma_linkage_round_trip(l: Linkage)
    ensures
        linkage_from_code(linkage_code(l)) == Some(l),
        is_named_code(linkage_code(l)),
{
}

/// Law: distinct named policies have distinct native codes, so a stored code
/// identifies its policy uniquely — reading a global's linkage back yields
/// exactly the policy that was set.
pub proof fn lemma_linkage_codes_injective(a: Linkage, b: Linkage)
    requires
        linkage_code(a) == linkage_code(b),
    ensures
        a == b,
{
}

/// Law: conversion from a named policy never produces one of the four
/// reserved native codes.
pub proof fn lemma_reserved_codes_never_produced(l: Linkage)
    ensures
        linkage_code(l) != 4,
        linkage_code(l) != 10,
        linkage_code(l) != 11,
        linkage_code(l) != 13,
{
}

} // verus!

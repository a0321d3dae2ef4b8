//! A safe, verified reference layer over an intermediate-representation (IR)
//! value store.
//!
//! The store ([`context::Context`]) plays the role of the allocation context
//! that owns every IR entity.  Each entity is addressed by an opaque handle,
//! and the reference types in [`value`] give each handle kind a distinct,
//! statically checked type with free upcasts along the capability chain and
//! checked downcasts from the universal [`value::Value`] reference.
//! Attribute flags and linkage policies mirror the store's bit-packed native
//! encodings exactly; the codecs in [`attribute`] and [`linkage`] are proved
//! lossless.

pub mod attribute;
pub mod context;
pub mod linkage;
pub mod value;

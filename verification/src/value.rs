//! Typed references over IR value handles: the capability hierarchy, free
//! upcasts, checked downcasts, and the per-kind operations.
//!
//! Every reference here is a non-owning wrapper around one opaque handle.
//! The capability chain (`Function` is a `GlobalValue` is a `Value`; `Arg`,
//! `PhiNode` and the globals likewise reach `Value`) is structural: an upcast
//! reinterprets the same handle with no check and no cost.  Downcasting from
//! the universal [`Value`] reference is validated at runtime against the
//! context's kind tag — except for [`Function`], which deliberately goes by
//! the value's type shape (a function type, or a pointer to one), so that
//! function values and function pointers are both accepted; that conflation
//! is an intentional, documented policy of this layer, not an accident.
//!
//! No operation caches anything: every getter re-queries the context, which
//! is the sole source of truth.

use vstd::prelude::*;

use crate::attribute::{attr_mask, mask_has, or_mask, Attribute};
use crate::context::{
    blank_record, lemma_wf_update, BasicBlock, Context, FunctionType, Type, TypeKind, ValueKind,
    ValueRecord,
};
use crate::linkage::{lemma_linkage_round_trip, linkage_code, linkage_from_code, Linkage};

verus! {

/// Comparative operations on values.
#[derive(Copy, Clone, PartialEq, Eq, Structural, Debug)]
pub enum Predicate {
    Equal,
    NotEqual,
    GreaterThan,
    GreaterThanOrEqual,
    LessThan,
    LessThanOrEqual,
}

/// The record the context stores for the handle `h`.
pub open spec fn record_of(ctx: Context, h: usize) -> ValueRecord {
    ctx.values@[h as int]
}

/// The name the context reports for the handle `h`.
pub open spec fn spec_name(ctx: Context, h: usize) -> Seq<char> {
    record_of(ctx, h).name@
}

/// The type handle the context reports for the handle `h`.
pub open spec fn spec_type(ctx: Context, h: usize) -> usize {
    record_of(ctx, h).ty
}

/// Between `before` and `after` nothing changed except, possibly, the value
/// record at handle `h`.
pub open spec fn untouched_except(before: Context, after: Context, h: usize) -> bool {
    &&& after.types@ == before.types@
    &&& after.blocks@ == before.blocks@
    &&& after.values@.len() == before.values@.len()
    &&& forall|i: int|
        0 <= i < before.values@.len() && i != h ==> after.values@[i] == before.values@[i]
}

/// A typed value that can be used as an operand in instructions: the
/// universal supertype of every other reference kind.
#[derive(Copy, Clone, PartialEq, Eq, Structural, Debug)]
pub struct Value {
    /// The opaque handle: an index into the context's value table.
    pub handle: usize,
}

impl Value {
    /// A value reference is valid against the context whose table it indexes.
    pub open spec fn valid(self, ctx: Context) -> bool {
        self.handle < ctx.values@.len()
    }

    /// Create a new constant struct from the values given.
    pub fn new_struct(ctx: &mut Context, vals: &Vec<Value>, packed: bool) -> (v: Value)
        requires
            old(ctx).wf(),
            forall|i: int| 0 <= i < vals@.len() ==> (#[trigger] vals@[i]).valid(*old(ctx)),
        ensures
            final(ctx).wf(),
            final(ctx).values@.len() == old(ctx).values@.len() + 1,
            forall|i: int| 0 <= i < old(ctx).values@.len() ==> final(ctx).values@[i]
                == old(ctx).values@[i],
            final(ctx).types@ == old(ctx).types@.push(TypeKind::Opaque),
            final(ctx).blocks@ == old(ctx).blocks@,
            v.handle == old(ctx).values@.len(),
            v.valid(*final(ctx)),
            ({
                let r = record_of(*final(ctx), v.handle);
                &&& r.kind == ValueKind::Constant
                &&& r.name@.len() == 0
                &&& r.ty == old(ctx).types@.len()
                &&& r.packed == packed
                &&& r.operands@.len() == vals@.len()
                &&& forall|i: int| 0 <= i < vals@.len() ==> r.operands@[i]
                    == (#[trigger] vals@[i]).handle
            }),
    {
        let t = ctx.opaque_type();
        let ops = handles_of(vals);
        let mut r = blank_record(ValueKind::Constant, t.handle);
        r.operands = ops;
        r.packed = packed;
        proof {
            assert forall|j: int|
                0 <= j < r.operands@.len() implies #[trigger] (r.operands@[j] as int)
                < ctx.values@.len() by {
                assert(vals@[j].valid(*old(ctx)));
            }
        }
        let h = ctx.mint_value(r);
        Value { handle: h }
    }

    /// Create a new constant vector from the values given.
    pub fn new_vector(ctx: &mut Context, vals: &Vec<Value>) -> (v: Value)
        requires
            old(ctx).wf(),
            forall|i: int| 0 <= i < vals@.len() ==> (#[trigger] vals@[i]).valid(*old(ctx)),
        ensures
            final(ctx).wf(),
            final(ctx).values@.len() == old(ctx).values@.len() + 1,
            forall|i: int| 0 <= i < old(ctx).values@.len() ==> final(ctx).values@[i]
                == old(ctx).values@[i],
            final(ctx).types@ == old(ctx).types@.push(TypeKind::Opaque),
            final(ctx).blocks@ == old(ctx).blocks@,
            v.handle == old(ctx).values@.len(),
            v.valid(*final(ctx)),
            ({
                let r = record_of(*final(ctx), v.handle);
                &&& r.kind == ValueKind::Constant
                &&& r.name@.len() == 0
                &&& r.ty == old(ctx).types@.len()
                &&& r.operands@.len() == vals@.len()
                &&& forall|i: int| 0 <= i < vals@.len() ==> r.operands@[i]
                    == (#[trigger] vals@[i]).handle
            }),
    {
        let t = ctx.opaque_type();
        let ops = handles_of(vals);
        let mut r = blank_record(ValueKind::Constant, t.handle);
        r.operands = ops;
        proof {
            assert forall|j: int|
                0 <= j < r.operands@.len() implies #[trigger] (r.operands@[j] as int)
                < ctx.values@.len() by {
                assert(vals@[j].valid(*old(ctx)));
            }
        }
        let h = ctx.mint_value(r);
        Value { handle: h }
    }

    /// Create a new constant string from the text given.  With `rust_style`
    /// the characters are stored as given; without it a trailing NUL is
    /// recorded, matching the store's C-style string constants.
    pub fn new_string(ctx: &mut Context, text: &str, rust_style: bool) -> (v: Value)
        requires
            old(ctx).wf(),
        ensures
            final(ctx).wf(),
            final(ctx).values@.len() == old(ctx).values@.len() + 1,
            forall|i: int| 0 <= i < old(ctx).values@.len() ==> final(ctx).values@[i]
                == old(ctx).values@[i],
            final(ctx).types@ == old(ctx).types@.push(TypeKind::Opaque),
            final(ctx).blocks@ == old(ctx).blocks@,
            v.handle == old(ctx).values@.len(),
            v.valid(*final(ctx)),
            ({
                let r = record_of(*final(ctx), v.handle);
                &&& r.kind == ValueKind::Constant
                &&& r.name@.len() == 0
                &&& r.ty == old(ctx).types@.len()
                &&& r.text@ == text@
                &&& r.null_terminated == !rust_style
            }),
    {
        let t = ctx.opaque_type();
        let mut r = blank_record(ValueKind::Constant, t.handle);
        r.text = text.to_owned();
        r.null_terminated = !rust_style;
        let h = ctx.mint_value(r);
        Value { handle: h }
    }

    /// Create a new constant undefined value of the given type.
    pub fn new_undef(ctx: &mut Context, ty: Type) -> (v: Value)
        requires
            old(ctx).wf(),
            ty.valid(*old(ctx)),
        ensures
            final(ctx).wf(),
            final(ctx).values@.len() == old(ctx).values@.len() + 1,
            forall|i: int| 0 <= i < old(ctx).values@.len() ==> final(ctx).values@[i]
                == old(ctx).values@[i],
            final(ctx).types@ == old(ctx).types@,
            final(ctx).blocks@ == old(ctx).blocks@,
            v.handle == old(ctx).values@.len(),
            v.valid(*final(ctx)),
            ({
                let r = record_of(*final(ctx), v.handle);
                &&& r.kind == ValueKind::Constant
                &&& r.name@.len() == 0
                &&& r.ty == ty.handle
            }),
    {
        let r = blank_record(ValueKind::Constant, ty.handle);
        let h = ctx.mint_value(r);
        Value { handle: h }
    }

    /// Returns the name of this value, or `None` if it lacks a name.  The
    /// store reports an empty name for unnamed values, so "no name" and
    /// "empty name" collapse into one absent case.
    pub fn get_name(&self, ctx: &Context) -> (r: Option<String>)
        requires
            self.valid(*ctx),
        ensures
            spec_name(*ctx, self.handle).len() == 0 ==> r is None,
            spec_name(*ctx, self.handle).len() > 0 ==> (r matches Some(s) && s@ == spec_name(
                *ctx,
                self.handle,
            )),
    {
        let rec = &ctx.values[self.handle];
        if rec.name.as_str().is_empty() {
            None
        } else {
            Some(rec.name.clone())
        }
    }

    /// Sets the name of this value.
    pub fn set_name(&self, ctx: &mut Context, name: &str)
        requires
            old(ctx).wf(),
            self.valid(*old(ctx)),
        ensures
            final(ctx).wf(),
            untouched_except(*old(ctx), *final(ctx), self.handle),
            spec_name(*final(ctx), self.handle) == name@,
            record_of(*final(ctx), self.handle) == (ValueRecord {
                name: record_of(*final(ctx), self.handle).name,
                ..record_of(*old(ctx), self.handle)
            }),
    {
        let r = &mut ctx.values[self.handle];
        r.name = name.to_owned();
        proof {
            assert(old(ctx).record_wf(self.handle as int));
            lemma_wf_update(*old(ctx), *ctx, self.handle as int);
        }
    }

    /// Returns the type of this value, as a reference bound to the same
    /// context.
    pub fn get_type(&self, ctx: &Context) -> (t: Type)
        requires
            ctx.wf(),
            self.valid(*ctx),
        ensures
            t.handle == spec_type(*ctx, self.handle),
            t.valid(*ctx),
    {
        proof {
            assert(ctx.record_wf(self.handle as int));
        }
        Type { handle: ctx.values[self.handle].ty }
    }
}

/// The handles carried by a vector of value references, in order.
fn handles_of(vals: &Vec<Value>) -> (r: Vec<usize>)
    ensures
        r@.len() == vals@.len(),
        forall|i: int| 0 <= i < vals@.len() ==> r@[i] == (#[trigger] vals@[i]).handle,
{
    let mut r: Vec<usize> = Vec::new();
    let mut i: usize = 0;
    while i < vals.len()
        invariant
            i <= vals@.len(),
            r@.len() == i,
            forall|j: int| 0 <= j < i ==> r@[j] == (#[trigger] vals@[j]).handle,
        decreases vals@.len() - i,
    {
        r.push(vals[i].handle);
        i = i + 1;
    }
    r
}

/// Read the attribute mask the store holds for the handle `h`.
fn read_attrs(ctx: &Context, h: usize) -> (r: u32)
    requires
        h < ctx.values@.len(),
    ensures
        r == record_of(*ctx, h).attrs,
{
    ctx.values[h].attrs
}

/// Replace the attribute mask the store holds for the handle `h`.
fn write_attrs(ctx: &mut Context, h: usize, mask: u32)
    requires
        old(ctx).wf(),
        h < old(ctx).values@.len(),
    ensures
        final(ctx).wf(),
        untouched_except(*old(ctx), *final(ctx), h),
        record_of(*final(ctx), h) == (ValueRecord { attrs: mask, ..record_of(*old(ctx), h) }),
{
    let r = &mut ctx.values[h];
    r.attrs = mask;
    proof {
        assert(old(ctx).record_wf(h as int));
        lemma_wf_update(*old(ctx), *ctx, h as int);
    }
}

/// OR together the native masks of the given flags, left to right.
fn or_all(attrs: &Vec<Attribute>) -> (r: u32)
    ensures
        r == or_mask(attrs@),
{
    let mut sum: u32 = 0;
    let mut i: usize = 0;
    while i < attrs.len()
        invariant
            i <= attrs@.len(),
            sum == or_mask(attrs@.subrange(0, i as int)),
        decreases attrs@.len() - i,
    {
        sum = sum | attrs[i].to_bits();
        proof {
            assert(attrs@.subrange(0, i + 1 as int).drop_last() =~= attrs@.subrange(0, i as int));
            assert(attrs@.subrange(0, i + 1 as int).last() == attrs@[i as int]);
        }
        i = i + 1;
    }
    proof {
        assert(attrs@.subrange(0, attrs@.len() as int) =~= attrs@);
    }
    sum
}

/// True when the mask contains every one of the given flags; stops at the
/// first missing flag.
fn mask_has_all(mask: u32, attrs: &Vec<Attribute>) -> (r: bool)
    ensures
        r == (forall|i: int| 0 <= i < attrs@.len() ==> mask_has(mask, #[trigger] attrs@[i])),
{
    let mut i: usize = 0;
    while i < attrs.len()
        invariant
            i <= attrs@.len(),
            forall|j: int| 0 <= j < i ==> mask_has(mask, #[trigger] attrs@[j]),
        decreases attrs@.len() - i,
    {
        let bits = attrs[i].to_bits();
        if mask & bits != bits {
            return false;
        }
        i = i + 1;
    }
    true
}

/// A function argument: a value that is a formal parameter of some function.
#[derive(Copy, Clone, PartialEq, Eq, Structural, Debug)]
pub struct Arg {
    /// The opaque handle: an index into the context's value table.
    pub handle: usize,
}

impl Arg {
    /// An argument reference is valid when its handle is an argument-kind
    /// value of the context.
    pub open spec fn valid(self, ctx: Context) -> bool {
        self.handle < ctx.values@.len() && record_of(ctx, self.handle).kind == ValueKind::Argument
    }

    /// The value reference this argument widens to: same handle, no check.
    pub open spec fn spec_to_value(self) -> Value {
        Value { handle: self.handle }
    }

    /// Treat this argument as a plain value (free upcast along the
    /// capability chain).
    pub fn to_value(self) -> (v: Value)
        ensures
            v == self.spec_to_value(),
    {
        Value { handle: self.handle }
    }

    /// Add the attribute given to this argument.
    pub fn add_attribute(&self, ctx: &mut Context, attr: Attribute)
        requires
            old(ctx).wf(),
            self.valid(*old(ctx)),
        ensures
            final(ctx).wf(),
            untouched_except(*old(ctx), *final(ctx), self.handle),
            record_of(*final(ctx), self.handle) == (ValueRecord {
                attrs: record_of(*old(ctx), self.handle).attrs | attr_mask(attr),
                ..record_of(*old(ctx), self.handle)
            }),
    {
        let m = read_attrs(ctx, self.handle);
        write_attrs(ctx, self.handle, m | attr.to_bits());
    }

    /// Add all the attributes given to this argument, combined by bitwise OR
    /// into a single store update.
    pub fn add_attributes(&self, ctx: &mut Context, attrs: &Vec<Attribute>)
        requires
            old(ctx).wf(),
            self.valid(*old(ctx)),
        ensures
            final(ctx).wf(),
            untouched_except(*old(ctx), *final(ctx), self.handle),
            record_of(*final(ctx), self.handle) == (ValueRecord {
                attrs: record_of(*old(ctx), self.handle).attrs | or_mask(attrs@),
                ..record_of(*old(ctx), self.handle)
            }),
    {
        let sum = or_all(attrs);
        let m = read_attrs(ctx, self.handle);
        write_attrs(ctx, self.handle, m | sum);
    }

    /// Returns true if this argument has the attribute given.
    pub fn has_attribute(&self, ctx: &Context, attr: Attribute) -> (r: bool)
        requires
            self.valid(*ctx),
        ensures
            r == mask_has(record_of(*ctx, self.handle).attrs, attr),
    {
        let m = read_attrs(ctx, self.handle);
        let bits = attr.to_bits();
        m & bits == bits
    }

    /// Returns true if this argument has all the attributes given; the test
    /// stops at the first missing attribute.
    pub fn has_attributes(&self, ctx: &Context, attrs: &Vec<Attribute>) -> (r: bool)
        requires
            self.valid(*ctx),
        ensures
            r == (forall|i: int| 0 <= i < attrs@.len() ==> mask_has(
                record_of(*ctx, self.handle).attrs,
                #[trigger] attrs@[i],
            )),
    {
        let m = read_attrs(ctx, self.handle);
        mask_has_all(m, attrs)
    }

    /// Remove an attribute from this argument.
    pub fn remove_attribute(&self, ctx: &mut Context, attr: Attribute)
        requires
            old(ctx).wf(),
            self.valid(*old(ctx)),
        ensures
            final(ctx).wf(),
            untouched_except(*old(ctx), *final(ctx), self.handle),
            record_of(*final(ctx), self.handle) == (ValueRecord {
                attrs: record_of(*old(ctx), self.handle).attrs & !attr_mask(attr),
                ..record_of(*old(ctx), self.handle)
            }),
    {
        let m = read_attrs(ctx, self.handle);
        write_attrs(ctx, self.handle, m & !attr.to_bits());
    }
}

/// Whether a kind tag is one of the global-value kinds.
pub open spec fn is_global_kind(k: ValueKind) -> bool {
    k == ValueKind::GlobalVariable || k == ValueKind::Alias || k == ValueKind::Function
}

/// What the checked downcast to [`GlobalValue`] answers: the reinterpreted
/// handle when the store tags it as a global-value kind, absent otherwise.
pub open spec fn spec_cast_global(ctx: Context, v: Value) -> Option<GlobalValue> {
    if is_global_kind(record_of(ctx, v.handle).kind) {
        Some(GlobalValue { handle: v.handle })
    } else {
        None
    }
}

/// What the checked downcast to [`GlobalVariable`] answers.
pub open spec fn spec_cast_global_variable(ctx: Context, v: Value) -> Option<GlobalVariable> {
    if record_of(ctx, v.handle).kind == ValueKind::GlobalVariable {
        Some(GlobalVariable { handle: v.handle })
    } else {
        None
    }
}

/// What the checked downcast to [`Alias`] answers.
pub open spec fn spec_cast_alias(ctx: Context, v: Value) -> Option<Alias> {
    if record_of(ctx, v.handle).kind == ValueKind::Alias {
        Some(Alias { handle: v.handle })
    } else {
        None
    }
}

/// What the checked downcast to [`Function`] answers.  Deliberately a type-
/// shape test, not a kind test: a value whose type is a function type, or a
/// pointer to one, is accepted, so function values and function pointers
/// cast uniformly.
pub open spec fn spec_cast_function(ctx: Context, v: Value) -> Option<Function> {
    if ctx.fn_shaped(record_of(ctx, v.handle).ty as int) {
        Some(Function { handle: v.handle })
    } else {
        None
    }
}

/// Whether the store reports the handle as a declaration: a function with no
/// body yet, or a global variable with no initializer.
pub open spec fn spec_is_declaration(ctx: Context, h: usize) -> bool {
    let r = record_of(ctx, h);
    match r.kind {
        ValueKind::Function => r.blocks@.len() == 0,
        ValueKind::GlobalVariable => r.initializer is None,
        _ => false,
    }
}

/// A global value (a function, alias or global variable): a value with
/// module-level linkage and a declaration/definition distinction.
#[derive(Copy, Clone, PartialEq, Eq, Structural, Debug)]
pub struct GlobalValue {
    /// The opaque handle: an index into the context's value table.
    pub handle: usize,
}

impl GlobalValue {
    /// A global-value reference is valid when its handle carries one of the
    /// global-value kinds.
    pub open spec fn valid(self, ctx: Context) -> bool {
        self.handle < ctx.values@.len() && is_global_kind(record_of(ctx, self.handle).kind)
    }

    /// The value reference this global widens to: same handle, no check.
    pub open spec fn spec_to_value(self) -> Value {
        Value { handle: self.handle }
    }

    /// Treat this global as a plain value (free upcast).
    pub fn to_value(self) -> (v: Value)
        ensures
            v == self.spec_to_value(),
    {
        Value { handle: self.handle }
    }

    /// Checked downcast from a plain value: answers the reinterpreted handle
    /// exactly when the store tags it as a global-value kind.
    pub fn cast(val: &Value, ctx: &Context) -> (r: Option<GlobalValue>)
        requires
            val.valid(*ctx),
        ensures
            r == spec_cast_global(*ctx, *val),
            (r matches Some(g) ==> g.handle == val.handle && g.valid(*ctx)),
    {
        match ctx.values[val.handle].kind {
            ValueKind::GlobalVariable => Some(GlobalValue { handle: val.handle }),
            ValueKind::Alias => Some(GlobalValue { handle: val.handle }),
            ValueKind::Function => Some(GlobalValue { handle: val.handle }),
            _ => None,
        }
    }

    /// Set the linkage type for this global.
    pub fn set_linkage(&self, ctx: &mut Context, linkage: Linkage)
        requires
            old(ctx).wf(),
            self.valid(*old(ctx)),
        ensures
            final(ctx).wf(),
            untouched_except(*old(ctx), *final(ctx), self.handle),
            record_of(*final(ctx), self.handle) == (ValueRecord {
                linkage: linkage_code(linkage),
                ..record_of(*old(ctx), self.handle)
            }),
    {
        let code = linkage.to_code();
        let r = &mut ctx.values[self.handle];
        r.linkage = code;
        proof {
            assert(old(ctx).record_wf(self.handle as int));
            lemma_linkage_round_trip(linkage);
            lemma_wf_update(*old(ctx), *ctx, self.handle as int);
        }
    }

    /// Returns the linkage type for this global, recovered by exact integer
    /// identity from the store's native code.
    pub fn get_linkage(&self, ctx: &Context) -> (r: Linkage)
        requires
            ctx.wf(),
            self.valid(*ctx),
        ensures
            linkage_code(r) == record_of(*ctx, self.handle).linkage,
            linkage_from_code(record_of(*ctx, self.handle).linkage) == Some(r),
    {
        let code = ctx.values[self.handle].linkage;
        proof {
            assert(ctx.record_wf(self.handle as int));
        }
        match Linkage::from_code(code) {
            Some(l) => l,
            None => {
                // The store invariant says every stored code is named.
                proof {
                    assert(false);
                }
                Linkage::External
            },
        }
    }

    /// Returns true if this global is a declaration (as opposed to a
    /// definition): a function without a body, or a global variable without
    /// an initializer.
    pub fn is_declaration(&self, ctx: &Context) -> (r: bool)
        requires
            self.valid(*ctx),
        ensures
            r == spec_is_declaration(*ctx, self.handle),
    {
        let rec = &ctx.values[self.handle];
        match rec.kind {
            ValueKind::Function => rec.blocks.len() == 0,
            ValueKind::GlobalVariable => rec.initializer.is_none(),
            _ => false,
        }
    }
}

/// A global variable: a global value with an optional initializer and a
/// constant-ness flag.
#[derive(Copy, Clone, PartialEq, Eq, Structural, Debug)]
pub struct GlobalVariable {
    /// The opaque handle: an index into the context's value table.
    pub handle: usize,
}

impl GlobalVariable {
    /// Valid when the store tags the handle as a global variable.
    pub open spec fn valid(self, ctx: Context) -> bool {
        self.handle < ctx.values@.len() && record_of(ctx, self.handle).kind
            == ValueKind::GlobalVariable
    }

    /// The global-value reference this variable widens to.
    pub open spec fn spec_to_global_value(self) -> GlobalValue {
        GlobalValue { handle: self.handle }
    }

    /// The value reference this variable widens to.
    pub open spec fn spec_to_value(self) -> Value {
        Value { handle: self.handle }
    }

    /// Mint a new global variable of the given type: unnamed until set,
    /// default linkage, no initializer, not constant.
    pub fn new(ctx: &mut Context, name: &str, ty: Type) -> (g: GlobalVariable)
        requires
            old(ctx).wf(),
            ty.valid(*old(ctx)),
        ensures
            final(ctx).wf(),
            final(ctx).values@.len() == old(ctx).values@.len() + 1,
            forall|i: int| 0 <= i < old(ctx).values@.len() ==> final(ctx).values@[i]
                == old(ctx).values@[i],
            final(ctx).types@ == old(ctx).types@,
            final(ctx).blocks@ == old(ctx).blocks@,
            g.handle == old(ctx).values@.len(),
            g.valid(*final(ctx)),
            ({
                let r = record_of(*final(ctx), g.handle);
                &&& r.kind == ValueKind::GlobalVariable
                &&& r.name@ == name@
                &&& r.ty == ty.handle
                &&& r.linkage == linkage_code(Linkage::External)
                &&& r.initializer is None
                &&& r.constant == false
            }),
    {
        let mut r = blank_record(ValueKind::GlobalVariable, ty.handle);
        r.name = name.to_owned();
        let h = ctx.mint_value(r);
        GlobalVariable { handle: h }
    }

    /// Treat this variable as a global value (free upcast).
    pub fn to_global_value(self) -> (g: GlobalValue)
        ensures
            g == self.spec_to_global_value(),
    {
        GlobalValue { handle: self.handle }
    }

    /// Treat this variable as a plain value (free upcast).
    pub fn to_value(self) -> (v: Value)
        ensures
            v == self.spec_to_value(),
    {
        Value { handle: self.handle }
    }

    /// Checked downcast from a plain value: answers the reinterpreted handle
    /// exactly when the store tags it as a global variable.
    pub fn cast(val: &Value, ctx: &Context) -> (r: Option<GlobalVariable>)
        requires
            val.valid(*ctx),
        ensures
            r == spec_cast_global_variable(*ctx, *val),
            (r matches Some(g) ==> g.handle == val.handle && g.valid(*ctx)),
    {
        match ctx.values[val.handle].kind {
            ValueKind::GlobalVariable => Some(GlobalVariable { handle: val.handle }),
            _ => None,
        }
    }

    /// Set the initial value of the global.
    pub fn set_initializer(&self, ctx: &mut Context, val: &Value)
        requires
            old(ctx).wf(),
            self.valid(*old(ctx)),
            val.valid(*old(ctx)),
        ensures
            final(ctx).wf(),
            untouched_except(*old(ctx), *final(ctx), self.handle),
            record_of(*final(ctx), self.handle) == (ValueRecord {
                initializer: Some(val.handle),
                ..record_of(*old(ctx), self.handle)
            }),
    {
        let r = &mut ctx.values[self.handle];
        r.initializer = Some(val.handle);
        proof {
            assert(old(ctx).record_wf(self.handle as int));
            lemma_wf_update(*old(ctx), *ctx, self.handle as int);
        }
    }

    /// Get the initial value of the global, if one was set.
    pub fn get_initializer(&self, ctx: &Context) -> (r: Option<Value>)
        requires
            ctx.wf(),
            self.valid(*ctx),
        ensures
            (r is Some <==> record_of(*ctx, self.handle).initializer is Some),
            (r matches Some(v) ==> record_of(*ctx, self.handle).initializer == Some(v.handle)
                && v.valid(*ctx)),
    {
        proof {
            assert(ctx.record_wf(self.handle as int));
        }
        match ctx.values[self.handle].initializer {
            Some(g) => Some(Value { handle: g }),
            None => None,
        }
    }

    /// Set whether this global is a constant.
    pub fn set_constant(&self, ctx: &mut Context, is_constant: bool)
        requires
            old(ctx).wf(),
            self.valid(*old(ctx)),
        ensures
            final(ctx).wf(),
            untouched_except(*old(ctx), *final(ctx), self.handle),
            record_of(*final(ctx), self.handle) == (ValueRecord {
                constant: is_constant,
                ..record_of(*old(ctx), self.handle)
            }),
    {
        let r = &mut ctx.values[self.handle];
        r.constant = is_constant;
        proof {
            assert(old(ctx).record_wf(self.handle as int));
            lemma_wf_update(*old(ctx), *ctx, self.handle as int);
        }
    }

    /// Returns true if this global is a constant.
    pub fn get_constant(&self, ctx: &Context) -> (r: bool)
        requires
            self.valid(*ctx),
        ensures
            r == record_of(*ctx, self.handle).constant,
    {
        ctx.values[self.handle].constant
    }
}

/// An alias to another global value; it carries no local state of its own.
#[derive(Copy, Clone, PartialEq, Eq, Structural, Debug)]
pub struct Alias {
    /// The opaque handle: an index into the context's value table.
    pub handle: usize,
}

impl Alias {
    /// Valid when the store tags the handle as an alias.
    pub open spec fn valid(self, ctx: Context) -> bool {
        self.handle < ctx.values@.len() && record_of(ctx, self.handle).kind == ValueKind::Alias
    }

    /// The global-value reference this alias widens to.
    pub open spec fn spec_to_global_value(self) -> GlobalValue {
        GlobalValue { handle: self.handle }
    }

    /// The value reference this alias widens to.
    pub open spec fn spec_to_value(self) -> Value {
        Value { handle: self.handle }
    }

    /// Mint a new alias of the given type.
    pub fn new(ctx: &mut Context, name: &str, ty: Type) -> (a: Alias)
        requires
            old(ctx).wf(),
            ty.valid(*old(ctx)),
        ensures
            final(ctx).wf(),
            final(ctx).values@.len() == old(ctx).values@.len() + 1,
            forall|i: int| 0 <= i < old(ctx).values@.len() ==> final(ctx).values@[i]
                == old(ctx).values@[i],
            final(ctx).types@ == old(ctx).types@,
            final(ctx).blocks@ == old(ctx).blocks@,
            a.handle == old(ctx).values@.len(),
            a.valid(*final(ctx)),
            ({
                let r = record_of(*final(ctx), a.handle);
                &&& r.kind == ValueKind::Alias
                &&& r.name@ == name@
                &&& r.ty == ty.handle
                &&& r.linkage == linkage_code(Linkage::External)
            }),
    {
        let mut r = blank_record(ValueKind::Alias, ty.handle);
        r.name = name.to_owned();
        let h = ctx.mint_value(r);
        Alias { handle: h }
    }

    /// Treat this alias as a global value (free upcast).
    pub fn to_global_value(self) -> (g: GlobalValue)
        ensures
            g == self.spec_to_global_value(),
    {
        GlobalValue { handle: self.handle }
    }

    /// Treat this alias as a plain value (free upcast).
    pub fn to_value(self) -> (v: Value)
        ensures
            v == self.spec_to_value(),
    {
        Value { handle: self.handle }
    }

    /// Checked downcast from a plain value: answers the reinterpreted handle
    /// exactly when the store tags it as an alias.
    pub fn cast(val: &Value, ctx: &Context) -> (r: Option<Alias>)
        requires
            val.valid(*ctx),
        ensures
            r == spec_cast_alias(*ctx, *val),
            (r matches Some(a) ==> a.handle == val.handle && a.valid(*ctx)),
    {
        match ctx.values[val.handle].kind {
            ValueKind::Alias => Some(Alias { handle: val.handle }),
            _ => None,
        }
    }
}

/// The store holds, at handle `v`, a fresh formal parameter of type `t`:
/// argument kind, unnamed, with an empty attribute mask.
pub open spec fn arg_record_ok(ctx: Context, v: int, t: Type) -> bool {
    &&& 0 <= v < ctx.values@.len()
    &&& ctx.values@[v].kind == ValueKind::Argument
    &&& ctx.values@[v].ty == t.handle
    &&& ctx.values@[v].name@.len() == 0
    &&& ctx.values@[v].attrs == 0
}

/// The handle of a function's signature type: its own type, behind one level
/// of pointer if the function is held through a pointer.
pub open spec fn spec_signature(ctx: Context, h: usize) -> usize {
    let ty = record_of(ctx, h).ty;
    match ctx.types@[ty as int] {
        TypeKind::Pointer { pointee } => pointee,
        _ => ty,
    }
}

/// A function: a global value with an ordered sequence of arguments, a list
/// of basic blocks, and a function-level attribute set.
#[derive(Copy, Clone, PartialEq, Eq, Structural, Debug)]
pub struct Function {
    /// The opaque handle: an index into the context's value table.
    pub handle: usize,
}

impl Function {
    /// Valid when the store tags the handle as a function.
    pub open spec fn valid(self, ctx: Context) -> bool {
        self.handle < ctx.values@.len() && record_of(ctx, self.handle).kind == ValueKind::Function
    }

    /// The global-value reference this function widens to.
    pub open spec fn spec_to_global_value(self) -> GlobalValue {
        GlobalValue { handle: self.handle }
    }

    /// The value reference this function widens to.
    pub open spec fn spec_to_value(self) -> Value {
        Value { handle: self.handle }
    }

    /// Mint a new function with one argument per given parameter type, in
    /// declaration order.  The function's own type is a pointer to a fresh
    /// function type, so its signature sits behind one pointer level, as the
    /// store represents function values.
    pub fn new(ctx: &mut Context, name: &str, param_types: &Vec<Type>) -> (f: Function)
        requires
            old(ctx).wf(),
            forall|i: int| 0 <= i < param_types@.len() ==> (#[trigger] param_types@[i]).valid(
                *old(ctx),
            ),
        ensures
            final(ctx).wf(),
            f.valid(*final(ctx)),
            f.handle == old(ctx).values@.len() + param_types@.len(),
            final(ctx).values@.len() == old(ctx).values@.len() + param_types@.len() + 1,
            forall|i: int| 0 <= i < old(ctx).values@.len() ==> final(ctx).values@[i]
                == old(ctx).values@[i],
            final(ctx).blocks@ == old(ctx).blocks@,
            ({
                let r = record_of(*final(ctx), f.handle);
                &&& r.kind == ValueKind::Function
                &&& r.name@ == name@
                &&& r.linkage == linkage_code(Linkage::External)
                &&& r.attrs == 0
                &&& r.blocks@.len() == 0
                &&& r.args@.len() == param_types@.len()
                &&& forall|i: int| 0 <= i < param_types@.len() ==> r.args@[i] == old(
                    ctx,
                ).values@.len() + i
                &&& final(ctx).types@[spec_signature(*final(ctx), f.handle) as int] is Function
            }),
            forall|i: int|
                0 <= i < param_types@.len() ==> #[trigger] arg_record_ok(
                    *final(ctx),
                    old(ctx).values@.len() + i,
                    param_types@[i],
                ),
    {
        let fty = ctx.function_type();
        let pty = ctx.pointer_type(fty);
        let ghost after_types = *ctx;
        let base: usize = ctx.values.len();
        let n: usize = param_types.len();
        let mut args: Vec<usize> = Vec::new();
        let mut i: usize = 0;
        while i < n
            invariant
                ctx.wf(),
                i <= n,
                n == param_types@.len(),
                ctx.types@ == after_types.types@,
                ctx.blocks@ == after_types.blocks@,
                base == after_types.values@.len(),
                ctx.values@.len() == base + i,
                forall|j: int| 0 <= j < base ==> ctx.values@[j] == after_types.values@[j],
                forall|j: int| 0 <= j < param_types@.len() ==> (#[trigger] param_types@[j]).valid(
                    after_types,
                ),
                pty.handle < after_types.types@.len(),
                after_types.types@[pty.handle as int] == (TypeKind::Pointer { pointee: fty.handle }),
                fty.handle < after_types.types@.len(),
                after_types.types@[fty.handle as int] is Function,
                args@.len() == i,
                forall|j: int| 0 <= j < i ==> args@[j] == base + j,
                forall|j: int|
                    0 <= j < i ==> #[trigger] arg_record_ok(*ctx, base + j, param_types@[j]),
            decreases n - i,
        {
            let ghost pre_iter = *ctx;
            let ty_i = param_types[i];
            let ar = blank_record(ValueKind::Argument, ty_i.handle);
            let ghost arg_rec = ar;
            let ah = ctx.mint_value(ar);
            args.push(ah);
            i = i + 1;
            proof {
                assert forall|j: int|
                    0 <= j < i implies #[trigger] arg_record_ok(
                    *ctx,
                    base + j,
                    param_types@[j],
                ) by {
                    if j == i - 1 {
                        assert(ctx.values@[base + j] == arg_rec);
                    } else {
                        assert(arg_record_ok(pre_iter, base + j, param_types@[j]));
                        assert(ctx.values@[base + j] == pre_iter.values@[base + j]);
                    }
                }
            }
        }
        let mut r = blank_record(ValueKind::Function, pty.handle);
        r.name = name.to_owned();
        r.args = args;
        proof {
            assert forall|j: int| 0 <= j < r.args@.len() implies #[trigger] ctx.is_argument(
                r.args@[j] as int,
            ) by {
                assert(arg_record_ok(*ctx, base + j, param_types@[j]));
            }
            assert(ctx.fn_shaped(pty.handle as int));
        }
        let ghost pre = *ctx;
        let h = ctx.mint_value(r);
        proof {
            assert forall|j: int|
                0 <= j < param_types@.len() implies #[trigger] arg_record_ok(
                *ctx,
                old(ctx).values@.len() + j,
                param_types@[j],
            ) by {
                assert(arg_record_ok(pre, base + j, param_types@[j]));
                assert(ctx.values@[base + j] == pre.values@[base + j]);
            }
        }
        Function { handle: h }
    }

    /// Treat this function as a global value (free upcast).
    pub fn to_global_value(self) -> (g: GlobalValue)
        ensures
            g == self.spec_to_global_value(),
    {
        GlobalValue { handle: self.handle }
    }

    /// Treat this function as a plain value (free upcast).
    pub fn to_value(self) -> (v: Value)
        ensures
            v == self.spec_to_value(),
    {
        Value { handle: self.handle }
    }

    /// Checked downcast from a plain value, by type shape rather than kind
    /// tag: the cast succeeds for any value whose type is a function type or
    /// a pointer to one, so function values and function pointers both pass.
    /// Every function-kind handle passes; a non-function value of function-
    /// shaped type passes too, which is this layer's documented conflation.
    pub fn cast(val: &Value, ctx: &Context) -> (r: Option<Function>)
        requires
            ctx.wf(),
            val.valid(*ctx),
        ensures
            r == spec_cast_function(*ctx, *val),
            (record_of(*ctx, val.handle).kind == ValueKind::Function ==> (r matches Some(f)
                && f.valid(*ctx))),
    {
        proof {
            assert(ctx.record_wf(val.handle as int));
        }
        let ty: usize = ctx.values[val.handle].ty;
        let is_func: bool = match ctx.types[ty] {
            TypeKind::Function => true,
            TypeKind::Pointer { pointee } => {
                proof {
                    assert(ctx.type_wf(ty as int));
                }
                match ctx.types[pointee] {
                    TypeKind::Function => true,
                    _ => false,
                }
            },
            TypeKind::Opaque => false,
        };
        if is_func {
            Some(Function { handle: val.handle })
        } else {
            None
        }
    }

    /// The number of declared parameters, as the store reports it.
    pub fn param_count(&self, ctx: &Context) -> (n: usize)
        requires
            self.valid(*ctx),
        ensures
            n == record_of(*ctx, self.handle).args@.len(),
    {
        ctx.values[self.handle].args.len()
    }

    /// The argument at the given zero-based position, in declaration order.
    /// An index at or beyond the parameter count is a programmer contract
    /// violation, excluded here rather than recovered from.
    pub fn index(&self, ctx: &Context, idx: usize) -> (a: Arg)
        requires
            ctx.wf(),
            self.valid(*ctx),
            idx < record_of(*ctx, self.handle).args@.len(),
        ensures
            a.handle == record_of(*ctx, self.handle).args@[idx as int],
            a.valid(*ctx),
    {
        proof {
            assert(ctx.record_wf(self.handle as int));
            assert(ctx.is_argument(record_of(*ctx, self.handle).args@[idx as int] as int));
        }
        Arg { handle: ctx.values[self.handle].args[idx] }
    }

    /// Add a basic block with the name given to the function and return it.
    /// This is the one operation of this layer that makes the store allocate.
    pub fn append(&self, ctx: &mut Context, name: &str) -> (b: BasicBlock)
        requires
            old(ctx).wf(),
            self.valid(*old(ctx)),
        ensures
            final(ctx).wf(),
            b.handle == old(ctx).blocks@.len(),
            b.valid(*final(ctx)),
            final(ctx).types@ == old(ctx).types@,
            final(ctx).blocks@.len() == old(ctx).blocks@.len() + 1,
            forall|i: int| 0 <= i < old(ctx).blocks@.len() ==> final(ctx).blocks@[i]
                == old(ctx).blocks@[i],
            final(ctx).blocks@[b.handle as int].name@ == name@,
            final(ctx).blocks@[b.handle as int].function == self.handle,
            final(ctx).values@.len() == old(ctx).values@.len(),
            forall|i: int|
                0 <= i < old(ctx).values@.len() && i != self.handle
                    ==> final(ctx).values@[i] == old(ctx).values@[i],
            record_of(*final(ctx), self.handle) == (ValueRecord {
                blocks: record_of(*final(ctx), self.handle).blocks,
                ..record_of(*old(ctx), self.handle)
            }),
            record_of(*final(ctx), self.handle).blocks@ == record_of(
                *old(ctx),
                self.handle,
            ).blocks@.push(b.handle),
    {
        let bh = ctx.mint_block(name, self.handle);
        let ghost mid = *ctx;
        let r = &mut ctx.values[self.handle];
        r.blocks.push(bh);
        proof {
            assert(mid.record_wf(self.handle as int));
            let bl = ctx.values@[self.handle as int].blocks@;
            assert forall|j: int| 0 <= j < bl.len() implies #[trigger] mid.block_of(
                bl[j] as int,
                self.handle as int,
            ) by {
                if j < bl.len() - 1 {
                    assert(mid.block_of(mid.values@[self.handle as int].blocks@[j] as int,
                        self.handle as int));
                }
            }
            lemma_wf_update(mid, *ctx, self.handle as int);
        }
        BasicBlock { handle: bh }
    }

    /// Returns the entry block of this function, or `None` if there is none.
    pub fn get_entry(&self, ctx: &Context) -> (r: Option<BasicBlock>)
        requires
            ctx.wf(),
            self.valid(*ctx),
        ensures
            record_of(*ctx, self.handle).blocks@.len() == 0 ==> r is None,
            record_of(*ctx, self.handle).blocks@.len() > 0 ==> (r matches Some(b) && b.handle
                == record_of(*ctx, self.handle).blocks@[0] && b.valid(*ctx)),
    {
        let rec = &ctx.values[self.handle];
        if rec.blocks.len() == 0 {
            None
        } else {
            proof {
                assert(ctx.record_wf(self.handle as int));
                assert(ctx.block_of(record_of(*ctx, self.handle).blocks@[0] as int,
                    self.handle as int));
            }
            Some(BasicBlock { handle: rec.blocks[0] })
        }
    }

    /// Returns the name of this function.
    pub fn get_name(&self, ctx: &Context) -> (r: String)
        requires
            self.valid(*ctx),
        ensures
            r@ == spec_name(*ctx, self.handle),
    {
        ctx.values[self.handle].name.clone()
    }

    /// Returns the function type representing this function's signature,
    /// unwrapping one level of pointer if the function is held through one.
    pub fn get_signature(&self, ctx: &Context) -> (t: FunctionType)
        requires
            ctx.wf(),
            self.valid(*ctx),
        ensures
            t.handle == spec_signature(*ctx, self.handle),
            t.valid(*ctx),
    {
        proof {
            assert(ctx.record_wf(self.handle as int));
        }
        let ty: usize = ctx.values[self.handle].ty;
        match ctx.types[ty] {
            TypeKind::Pointer { pointee } => FunctionType { handle: pointee },
            _ => FunctionType { handle: ty },
        }
    }

    /// Add the attribute given to this function.
    pub fn add_attribute(&self, ctx: &mut Context, attr: Attribute)
        requires
            old(ctx).wf(),
            self.valid(*old(ctx)),
        ensures
            final(ctx).wf(),
            untouched_except(*old(ctx), *final(ctx), self.handle),
            record_of(*final(ctx), self.handle) == (ValueRecord {
                attrs: record_of(*old(ctx), self.handle).attrs | attr_mask(attr),
                ..record_of(*old(ctx), self.handle)
            }),
    {
        let m = read_attrs(ctx, self.handle);
        write_attrs(ctx, self.handle, m | attr.to_bits());
    }

    /// Add all the attributes given to this function, combined by bitwise OR
    /// into a single store update.
    pub fn add_attributes(&self, ctx: &mut Context, attrs: &Vec<Attribute>)
        requires
            old(ctx).wf(),
            self.valid(*old(ctx)),
        ensures
            final(ctx).wf(),
            untouched_except(*old(ctx), *final(ctx), self.handle),
            record_of(*final(ctx), self.handle) == (ValueRecord {
                attrs: record_of(*old(ctx), self.handle).attrs | or_mask(attrs@),
                ..record_of(*old(ctx), self.handle)
            }),
    {
        let sum = or_all(attrs);
        let m = read_attrs(ctx, self.handle);
        write_attrs(ctx, self.handle, m | sum);
    }

    /// Returns true if the attribute given is set in this function.
    pub fn has_attribute(&self, ctx: &Context, attr: Attribute) -> (r: bool)
        requires
            self.valid(*ctx),
        ensures
            r == mask_has(record_of(*ctx, self.handle).attrs, attr),
    {
        let m = read_attrs(ctx, self.handle);
        let bits = attr.to_bits();
        m & bits == bits
    }

    /// Returns true if all the attributes given are set in this function;
    /// the test stops at the first missing attribute.
    pub fn has_attributes(&self, ctx: &Context, attrs: &Vec<Attribute>) -> (r: bool)
        requires
            self.valid(*ctx),
        ensures
            r == (forall|i: int| 0 <= i < attrs@.len() ==> mask_has(
                record_of(*ctx, self.handle).attrs,
                #[trigger] attrs@[i],
            )),
    {
        let m = read_attrs(ctx, self.handle);
        mask_has_all(m, attrs)
    }

    /// Remove the attribute given from this function.
    pub fn remove_attribute(&self, ctx: &mut Context, attr: Attribute)
        requires
            old(ctx).wf(),
            self.valid(*old(ctx)),
        ensures
            final(ctx).wf(),
            untouched_except(*old(ctx), *final(ctx), self.handle),
            record_of(*final(ctx), self.handle) == (ValueRecord {
                attrs: record_of(*old(ctx), self.handle).attrs & !attr_mask(attr),
                ..record_of(*old(ctx), self.handle)
            }),
    {
        let m = read_attrs(ctx, self.handle);
        write_attrs(ctx, self.handle, m & !attr.to_bits());
    }
}

/// A phi node: a value that accumulates (incoming value, predecessor block)
/// pairs, append-only and in insertion order.
#[derive(Copy, Clone, PartialEq, Eq, Structural, Debug)]
pub struct PhiNode {
    /// The opaque handle: an index into the context's value table.
    pub handle: usize,
}

impl PhiNode {
    /// Valid when the store tags the handle as a phi node.
    pub open spec fn valid(self, ctx: Context) -> bool {
        self.handle < ctx.values@.len() && record_of(ctx, self.handle).kind == ValueKind::Phi
    }

    /// The value reference this phi node widens to.
    pub open spec fn spec_to_value(self) -> Value {
        Value { handle: self.handle }
    }

    /// Mint a new phi node of the given type, with no incoming pairs yet.
    pub fn new(ctx: &mut Context, ty: Type) -> (p: PhiNode)
        requires
            old(ctx).wf(),
            ty.valid(*old(ctx)),
        ensures
            final(ctx).wf(),
            final(ctx).values@.len() == old(ctx).values@.len() + 1,
            forall|i: int| 0 <= i < old(ctx).values@.len() ==> final(ctx).values@[i]
                == old(ctx).values@[i],
            final(ctx).types@ == old(ctx).types@,
            final(ctx).blocks@ == old(ctx).blocks@,
            p.handle == old(ctx).values@.len(),
            p.valid(*final(ctx)),
            ({
                let r = record_of(*final(ctx), p.handle);
                &&& r.kind == ValueKind::Phi
                &&& r.ty == ty.handle
                &&& r.incoming@.len() == 0
            }),
    {
        let r = blank_record(ValueKind::Phi, ty.handle);
        let h = ctx.mint_value(r);
        PhiNode { handle: h }
    }

    /// Treat this phi node as a plain value (free upcast).
    pub fn to_value(self) -> (v: Value)
        ensures
            v == self.spec_to_value(),
    {
        Value { handle: self.handle }
    }

    /// Append exactly one (incoming value, predecessor block) pair to this
    /// node's incoming set.  There is no remove operation: the set only
    /// grows, and insertion order is kept.
    pub fn add_incoming(&self, ctx: &mut Context, in_coming_val: &Value, in_coming_bb: &BasicBlock)
        requires
            old(ctx).wf(),
            self.valid(*old(ctx)),
            in_coming_val.valid(*old(ctx)),
            in_coming_bb.valid(*old(ctx)),
        ensures
            final(ctx).wf(),
            untouched_except(*old(ctx), *final(ctx), self.handle),
            record_of(*final(ctx), self.handle) == (ValueRecord {
                incoming: record_of(*final(ctx), self.handle).incoming,
                ..record_of(*old(ctx), self.handle)
            }),
            record_of(*final(ctx), self.handle).incoming@ == record_of(
                *old(ctx),
                self.handle,
            ).incoming@.push((in_coming_val.handle, in_coming_bb.handle)),
    {
        let r = &mut ctx.values[self.handle];
        r.incoming.push((in_coming_val.handle, in_coming_bb.handle));
        proof {
            assert(old(ctx).record_wf(self.handle as int));
            let pairs = ctx.values@[self.handle as int].incoming@;
            assert forall|j: int| 0 <= j < pairs.len() implies #[trigger] old(ctx).pair_in_range(
                pairs[j],
            ) by {
                if j < pairs.len() - 1 {
                    assert(old(ctx).pair_in_range(
                        old(ctx).values@[self.handle as int].incoming@[j],
                    ));
                }
            }
            lemma_wf_update(*old(ctx), *ctx, self.handle as int);
        }
    }

    /// The number of incoming pairs the store reports for this node.
    pub fn count_incoming(&self, ctx: &Context) -> (n: usize)
        requires
            self.valid(*ctx),
        ensures
            n == record_of(*ctx, self.handle).incoming@.len(),
    {
        ctx.values[self.handle].incoming.len()
    }

    /// The incoming pair at the given position, in insertion order.
    pub fn get_incoming(&self, ctx: &Context, idx: usize) -> (p: (Value, BasicBlock))
        requires
            ctx.wf(),
            self.valid(*ctx),
            idx < record_of(*ctx, self.handle).incoming@.len(),
        ensures
            p.0.handle == record_of(*ctx, self.handle).incoming@[idx as int].0,
            p.1.handle == record_of(*ctx, self.handle).incoming@[idx as int].1,
            p.0.valid(*ctx),
            p.1.valid(*ctx),
    {
        proof {
            assert(ctx.record_wf(self.handle as int));
            assert(ctx.pair_in_range(record_of(*ctx, self.handle).incoming@[idx as int]));
        }
        let pr = ctx.values[self.handle].incoming[idx];
        (Value { handle: pr.0 }, BasicBlock { handle: pr.1 })
    }
}

/// Law: widening a specific-kind reference to an ancestor kind changes
/// nothing observable — the widened reference carries the very same handle,
/// so the name and type read through it are the ones read directly.
pub proof fn lemma_upcast_identity(ctx: Context, a: Arg, p: PhiNode, g: GlobalValue)
    ensures
        a.spec_to_value().handle == a.handle,
        spec_name(ctx, a.spec_to_value().handle) == spec_name(ctx, a.handle),
        spec_type(ctx, a.spec_to_value().handle) == spec_type(ctx, a.handle),
        p.spec_to_value().handle == p.handle,
        spec_name(ctx, p.spec_to_value().handle) == spec_name(ctx, p.handle),
        spec_type(ctx, p.spec_to_value().handle) == spec_type(ctx, p.handle),
        g.spec_to_value().handle == g.handle,
        spec_name(ctx, g.spec_to_value().handle) == spec_name(ctx, g.handle),
        spec_type(ctx, g.spec_to_value().handle) == spec_type(ctx, g.handle),
{
}

/// Law: widening along the whole chain (specific global kind, to global
/// value, to value) keeps the handle, the name and the type.
pub proof fn lemma_upcast_identity_globals(ctx: Context, v: GlobalVariable, l: Alias, f: Function)
    ensures
        v.spec_to_global_value().spec_to_value().handle == v.handle,
        spec_name(ctx, v.spec_to_global_value().spec_to_value().handle) == spec_name(ctx, v.handle),
        spec_type(ctx, v.spec_to_global_value().spec_to_value().handle) == spec_type(ctx, v.handle),
        l.spec_to_global_value().spec_to_value().handle == l.handle,
        spec_name(ctx, l.spec_to_global_value().spec_to_value().handle) == spec_name(ctx, l.handle),
        spec_type(ctx, l.spec_to_global_value().spec_to_value().handle) == spec_type(ctx, l.handle),
        f.spec_to_global_value().spec_to_value().handle == f.handle,
        spec_name(ctx, f.spec_to_global_value().spec_to_value().handle) == spec_name(ctx, f.handle),
        spec_type(ctx, f.spec_to_global_value().spec_to_value().handle) == spec_type(ctx, f.handle),
{
}

/// Law: a handle known by construction to be a global variable downcasts to
/// exactly its own kind — the cast to it succeeds handle-identically, the
/// cast to the shared global-value supertype succeeds, and the cast to the
/// unrelated alias kind is absent.
pub proof fn lemma_downcast_soundness_global_variable(ctx: Context, g: GlobalVariable)
    requires
        ctx.wf(),
        g.valid(ctx),
    ensures
        spec_cast_global_variable(ctx, g.spec_to_value()) == Some(g),
        spec_cast_global(ctx, g.spec_to_value()) == Some(g.spec_to_global_value()),
        spec_cast_alias(ctx, g.spec_to_value()) is None,
{
}

/// Law: a handle known by construction to be an alias downcasts to exactly
/// its own kind, and the cast to the unrelated global-variable kind is
/// absent.
pub proof fn lemma_downcast_soundness_alias(ctx: Context, a: Alias)
    requires
        ctx.wf(),
        a.valid(ctx),
    ensures
        spec_cast_alias(ctx, a.spec_to_value()) == Some(a),
        spec_cast_global(ctx, a.spec_to_value()) == Some(a.spec_to_global_value()),
        spec_cast_global_variable(ctx, a.spec_to_value()) is None,
{
}

/// Law: a handle known by construction to be a function downcasts to the
/// function kind (its type is function-shaped by the store invariant), and
/// the casts to the unrelated specific kinds are absent.
pub proof fn lemma_downcast_soundness_function(ctx: Context, f: Function)
    requires
        ctx.wf(),
        f.valid(ctx),
    ensures
        spec_cast_function(ctx, f.spec_to_value()) == Some(f),
        spec_cast_global(ctx, f.spec_to_value()) == Some(f.spec_to_global_value()),
        spec_cast_global_variable(ctx, f.spec_to_value()) is None,
        spec_cast_alias(ctx, f.spec_to_value()) is None,
{
    assert(ctx.record_wf(f.handle as int));
}

/// Law: the downcast to the function kind is absent exactly on values whose
/// type is not function-shaped.  (A non-function value of function-shaped
/// type does pass that cast: the deliberate conflation of function values
/// and function pointers.)
pub proof fn lemma_downcast_function_needs_shape(ctx: Context, v: Value)
    requires
        v.valid(ctx),
        !ctx.fn_shaped(record_of(ctx, v.handle).ty as int),
    ensures
        spec_cast_function(ctx, v) is None,
{
}

/// Law: the declared parameters of a function are distinct argument handles,
/// indexable in declaration order.
pub proof fn lemma_argument_indexing(ctx: Context, f: Function, i: int, j: int)
    requires
        ctx.wf(),
        f.valid(ctx),
        0 <= i < record_of(ctx, f.handle).args@.len(),
        0 <= j < record_of(ctx, f.handle).args@.len(),
        i != j,
    ensures
        record_of(ctx, f.handle).args@[i] != record_of(ctx, f.handle).args@[j],
        ctx.is_argument(record_of(ctx, f.handle).args@[i] as int),
{
    assert(ctx.record_wf(f.handle as int));
    let args = record_of(ctx, f.handle).args@;
    if i < j {
        assert(args[i] != args[j]);
    } else {
        assert(args[j] != args[i]);
    }
}

} // verus!

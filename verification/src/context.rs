//! The allocation context: the store that owns every IR entity.
//!
//! Every IR value, type and basic block lives in a [`Context`], which mints
//! opaque handles (indices into its tables) and is the sole source of truth
//! for what a handle means.  The reference types in [`crate::value`] never
//! own store memory: they carry a handle and re-query the context on every
//! operation.  A reference is meaningful only against the context that
//! minted it; validity against a context is the caller obligation stated in
//! each operation's `requires`.
//!
//! [`Context::wf`] is the store invariant: every handle recorded inside a
//! record is in range, argument lists hold distinct argument-kind handles,
//! block lists point back to their owning value, linkage fields hold only
//! named native codes, and function-kind values have a function-shaped type.
//! Every minting and update operation preserves it.

use vstd::prelude::*;

use crate::linkage::is_named_code;

verus! {

/// The shape of a type, as far as the downcast layer inspects it: a function
/// type, a pointer (with its pointee), or anything else.
#[derive(Copy, Clone, PartialEq, Eq, Structural, Debug)]
pub enum TypeKind {
    /// A function type.
    Function,
    /// A pointer type; `pointee` is the handle of the pointed-to type.
    Pointer { pointee: usize },
    /// Any other type: the downcast layer never looks inside it.
    Opaque,
}

/// The runtime kind tag of a value, as the store reports it.
#[derive(Copy, Clone, PartialEq, Eq, Structural, Debug)]
pub enum ValueKind {
    /// A constant (struct, vector, string or undefined value).
    Constant,
    /// A formal parameter of some function.
    Argument,
    /// A global variable.
    GlobalVariable,
    /// An alias to another global value.
    Alias,
    /// A function.
    Function,
    /// A phi node accumulating (value, predecessor block) pairs.
    Phi,
}

/// Everything the store records about one value handle.  Fields that do not
/// apply to a kind stay at their blank defaults.
pub struct ValueRecord {
    /// The store's kind tag for this value.
    pub kind: ValueKind,
    /// The value's name; the empty string means "no name".
    pub name: String,
    /// Handle of the value's type.
    pub ty: usize,
    /// Attribute bit mask (arguments and functions).
    pub attrs: u32,
    /// Native linkage code (global values).
    pub linkage: u32,
    /// Handle of the initializer value, if one was set (global variables).
    pub initializer: Option<usize>,
    /// Whether the global variable is marked constant.
    pub constant: bool,
    /// Handles of the formal parameters, in declaration order (functions).
    pub args: Vec<usize>,
    /// Handles of the basic blocks, in append order (functions).
    pub blocks: Vec<usize>,
    /// (incoming value, predecessor block) pairs, in insertion order (phi).
    pub incoming: Vec<(usize, usize)>,
    /// Handles of the member values (constant structs and vectors).
    pub operands: Vec<usize>,
    /// Whether a constant struct is packed.
    pub packed: bool,
    /// The characters of a constant string.
    pub text: String,
    /// Whether a constant string carries a trailing NUL.
    pub null_terminated: bool,
}

/// Everything the store records about one basic block handle.
pub struct BlockRecord {
    /// The block's label.
    pub name: String,
    /// Handle of the value (a function) the block was appended to.
    pub function: usize,
}

/// A reference to a type owned by a context.
#[derive(Copy, Clone, PartialEq, Eq, Structural, Debug)]
pub struct Type {
    /// The opaque handle: an index into the context's type table.
    pub handle: usize,
}

/// A reference to a type known to be a function type.
#[derive(Copy, Clone, PartialEq, Eq, Structural, Debug)]
pub struct FunctionType {
    /// The opaque handle: an index into the context's type table.
    pub handle: usize,
}

/// A reference to a basic block owned by a context.
#[derive(Copy, Clone, PartialEq, Eq, Structural, Debug)]
pub struct BasicBlock {
    /// The opaque handle: an index into the context's block table.
    pub handle: usize,
}

/// The store owning every IR entity: tables of types, values and blocks,
/// addressed by handle.
pub struct Context {
    /// The type table.
    pub types: Vec<TypeKind>,
    /// The value table.
    pub values: Vec<ValueRecord>,
    /// The basic-block table.
    pub blocks: Vec<BlockRecord>,
}

impl Type {
    /// A type reference is valid against the context whose table it indexes.
    pub open spec fn valid(self, ctx: Context) -> bool {
        self.handle < ctx.types@.len()
    }
}

impl FunctionType {
    /// Valid, and the handle really is a function type.
    pub open spec fn valid(self, ctx: Context) -> bool {
        self.handle < ctx.types@.len() && ctx.types@[self.handle as int] is Function
    }
}

impl BasicBlock {
    /// A block reference is valid against the context whose table it indexes.
    pub open spec fn valid(self, ctx: Context) -> bool {
        self.handle < ctx.blocks@.len()
    }
}

impl Context {
    /// The handle `v` is in range of the value table.
    pub open spec fn value_in_range(self, v: int) -> bool {
        0 <= v < self.values@.len()
    }

    /// The handle `v` is an argument-kind value.
    pub open spec fn is_argument(self, v: int) -> bool {
        self.value_in_range(v) && self.values@[v].kind == ValueKind::Argument
    }

    /// The handle `b` is a block appended to the value `f`.
    pub open spec fn block_of(self, b: int, f: int) -> bool {
        0 <= b < self.blocks@.len() && self.blocks@[b].function == f
    }

    /// A phi incoming pair points at a value and a block of this context.
    pub open spec fn pair_in_range(self, p: (usize, usize)) -> bool {
        p.0 < self.values@.len() && p.1 < self.blocks@.len()
    }

    /// The type handle `t` is a function type, or a pointer whose pointee is
    /// a function type.  This is the downcast layer's type-shape predicate.
    pub open spec fn fn_shaped(self, t: int) -> bool {
        &&& 0 <= t < self.types@.len()
        &&& match self.types@[t] {
            TypeKind::Function => true,
            TypeKind::Pointer { pointee } => pointee < self.types@.len()
                && self.types@[pointee as int] is Function,
            TypeKind::Opaque => false,
        }
    }

    /// A pointer type's pointee handle is in range.
    pub open spec fn type_wf(self, t: int) -> bool {
        match self.types@[t] {
            TypeKind::Pointer { pointee } => pointee < self.types@.len(),
            _ => true,
        }
    }

    /// The store invariant, for one value record.
    pub open spec fn record_wf(self, i: int) -> bool {
        let r = self.values@[i];
        &&& r.ty < self.types@.len()
        &&& is_named_code(r.linkage)
        &&& (r.initializer matches Some(g) ==> g < self.values@.len())
        &&& forall|j: int| 0 <= j < r.args@.len() ==> #[trigger] self.is_argument(r.args@[j] as int)
        &&& forall|j: int, k: int|
            #![trigger r.args@[j], r.args@[k]]
            0 <= j < k < r.args@.len() ==> r.args@[j] != r.args@[k]
        &&& forall|j: int| 0 <= j < r.blocks@.len() ==> #[trigger] self.block_of(r.blocks@[j] as int, i)
        &&& forall|j: int| 0 <= j < r.incoming@.len() ==> #[trigger] self.pair_in_range(r.incoming@[j])
        &&& forall|j: int| 0 <= j < r.operands@.len() ==> #[trigger] (r.operands@[j] as int) < self.values@.len()
        &&& (r.kind == ValueKind::Function ==> self.fn_shaped(r.ty as int))
    }

    /// The store invariant: every record is well formed, every block points
    /// back at an in-range value, and every pointer type has an in-range
    /// pointee.
    pub open spec fn wf(self) -> bool {
        &&& forall|i: int| 0 <= i < self.values@.len() ==> #[trigger] self.record_wf(i)
        &&& forall|b: int|
            0 <= b < self.blocks@.len() ==> (#[trigger] self.blocks@[b].function) < self.values@.len()
        &&& forall|t: int| 0 <= t < self.types@.len() ==> #[trigger] self.type_wf(t)
    }

    /// Create an empty store.
    pub fn new() -> (c: Context)
        ensures
            c.wf(),
            c.types@.len() == 0,
            c.values@.len() == 0,
            c.blocks@.len() == 0,
    {
        Context { types: Vec::new(), values: Vec::new(), blocks: Vec::new() }
    }

    /// Mint a type the downcast layer treats as opaque.
    pub fn opaque_type(&mut self) -> (t: Type)
        requires
            old(self).wf(),
        ensures
            final(self).wf(),
            final(self).types@ == old(self).types@.push(TypeKind::Opaque),
            final(self).values@ == old(self).values@,
            final(self).blocks@ == old(self).blocks@,
            t.handle == old(self).types@.len(),
            t.valid(*final(self)),
    {
        self.push_type(TypeKind::Opaque)
    }

    /// Mint a function type.
    pub fn function_type(&mut self) -> (t: Type)
        requires
            old(self).wf(),
        ensures
            final(self).wf(),
            final(self).types@ == old(self).types@.push(TypeKind::Function),
            final(self).values@ == old(self).values@,
            final(self).blocks@ == old(self).blocks@,
            t.handle == old(self).types@.len(),
            t.valid(*final(self)),
            final(self).types@[t.handle as int] is Function,
    {
        self.push_type(TypeKind::Function)
    }

    /// Mint a pointer type with the given pointee.
    pub fn pointer_type(&mut self, pointee: Type) -> (t: Type)
        requires
            old(self).wf(),
            pointee.valid(*old(self)),
        ensures
            final(self).wf(),
            final(self).types@ == old(self).types@.push(
                (TypeKind::Pointer { pointee: pointee.handle }),
            ),
            final(self).values@ == old(self).values@,
            final(self).blocks@ == old(self).blocks@,
            t.handle == old(self).types@.len(),
            t.valid(*final(self)),
    {
        self.push_type(TypeKind::Pointer { pointee: pointee.handle })
    }

    /// Push one type record and show the store invariant survives.
    fn push_type(&mut self, k: TypeKind) -> (t: Type)
        requires
            old(self).wf(),
            (k matches TypeKind::Pointer { pointee } ==> pointee < old(self).types@.len()),
        ensures
            final(self).wf(),
            final(self).types@ == old(self).types@.push(k),
            final(self).values@ == old(self).values@,
            final(self).blocks@ == old(self).blocks@,
            t.handle == old(self).types@.len(),
            t.valid(*final(self)),
    {
        let h: usize = self.types.len();
        self.types.push(k);
        proof {
            lemma_wf_grow_types(*old(self), *self);
        }
        Type { handle: h }
    }
}

/// A blank record of the given kind and type: every other field at its
/// default.
pub(crate) fn blank_record(kind: ValueKind, ty: usize) -> (r: ValueRecord)
    ensures
        r.kind == kind,
        r.ty == ty,
        r.name@.len() == 0,
        r.attrs == 0,
        r.linkage == 0,
        r.initializer is None,
        r.constant == false,
        r.args@ == Seq::<usize>::empty(),
        r.blocks@ == Seq::<usize>::empty(),
        r.incoming@ == Seq::<(usize, usize)>::empty(),
        r.operands@ == Seq::<usize>::empty(),
        r.packed == false,
        r.text@.len() == 0,
        r.null_terminated == false,
{
    ValueRecord {
        kind,
        name: String::new(),
        ty,
        attrs: 0,
        linkage: 0,
        initializer: None,
        constant: false,
        args: Vec::new(),
        blocks: Vec::new(),
        incoming: Vec::new(),
        operands: Vec::new(),
        packed: false,
        text: String::new(),
        null_terminated: false,
    }
}

impl Context {
    /// Push one value record and show the store invariant survives.  The
    /// record must be well formed against the grown table (its own handle is
    /// `old(self).values@.len()`).
    pub(crate) fn mint_value(&mut self, r: ValueRecord) -> (h: usize)
        requires
            old(self).wf(),
            r.ty < old(self).types@.len(),
            is_named_code(r.linkage),
            (r.initializer matches Some(g) ==> g < old(self).values@.len()),
            forall|j: int| 0 <= j < r.args@.len() ==> #[trigger] old(self).is_argument(
                r.args@[j] as int,
            ),
            forall|j: int, k: int|
                #![trigger r.args@[j], r.args@[k]]
                0 <= j < k < r.args@.len() ==> r.args@[j] != r.args@[k],
            r.blocks@.len() == 0,
            r.incoming@.len() == 0,
            forall|j: int| 0 <= j < r.operands@.len() ==> #[trigger] (r.operands@[j] as int)
                < old(self).values@.len(),
            (r.kind == ValueKind::Function ==> old(self).fn_shaped(r.ty as int)),
        ensures
            final(self).wf(),
            final(self).values@ == old(self).values@.push(r),
            final(self).types@ == old(self).types@,
            final(self).blocks@ == old(self).blocks@,
            h == old(self).values@.len(),
    {
        let h: usize = self.values.len();
        self.values.push(r);
        proof {
            let c0 = *old(self);
            let c1 = *self;
            let n = c0.values@.len() as int;
            assert(c1.values@[n] == r);
            assert forall|j: int| 0 <= j < r.args@.len() implies #[trigger] c1.is_argument(
                r.args@[j] as int,
            ) by {
                assert(c0.is_argument(r.args@[j] as int));
            }
            assert forall|j: int| 0 <= j < r.operands@.len() implies #[trigger] (r.operands@[j]
                as int) < c1.values@.len() by {
                assert((r.operands@[j] as int) < c0.values@.len());
            }
            assert(c1.record_wf(n));
            lemma_wf_grow_values(c0, c1);
        }
        h
    }

    /// Push one block record, owned by the in-range value `f`, and show the
    /// store invariant survives.
    pub(crate) fn mint_block(&mut self, name: &str, f: usize) -> (b: usize)
        requires
            old(self).wf(),
            f < old(self).values@.len(),
        ensures
            final(self).wf(),
            final(self).blocks@.len() == old(self).blocks@.len() + 1,
            forall|i: int| 0 <= i < old(self).blocks@.len() ==> final(self).blocks@[i]
                == old(self).blocks@[i],
            final(self).blocks@[old(self).blocks@.len() as int].name@ == name@,
            final(self).blocks@[old(self).blocks@.len() as int].function == f,
            final(self).types@ == old(self).types@,
            final(self).values@ == old(self).values@,
            b == old(self).blocks@.len(),
    {
        let b: usize = self.blocks.len();
        self.blocks.push(BlockRecord { name: name.to_owned(), function: f });
        proof {
            lemma_wf_grow_blocks(*old(self), *self);
        }
        b
    }
}

/// Growing the type table preserves the store invariant: every condition on
/// existing records reads only existing table entries.
proof fn lemma_wf_grow_types(c0: Context, c1: Context)
    requires
        c0.wf(),
        c0.types@.len() <= c1.types@.len(),
        forall|t: int| 0 <= t < c0.types@.len() ==> c1.types@[t] == c0.types@[t],
        forall|t: int| c0.types@.len() <= t < c1.types@.len() ==> #[trigger] c1.type_wf(t),
        c1.values@ == c0.values@,
        c1.blocks@ == c0.blocks@,
    ensures
        c1.wf(),
{
    assert forall|t: int| 0 <= t < c1.types@.len() implies #[trigger] c1.type_wf(t) by {
        if t < c0.types@.len() {
            assert(c0.type_wf(t));
        }
    }
    assert forall|i: int| 0 <= i < c1.values@.len() implies #[trigger] c1.record_wf(i) by {
        assert(c0.record_wf(i));
        let r = c1.values@[i];
        assert forall|j: int| 0 <= j < r.args@.len() implies #[trigger] c1.is_argument(
            r.args@[j] as int,
        ) by {
            assert(c0.is_argument(r.args@[j] as int));
        }
        assert forall|j: int| 0 <= j < r.blocks@.len() implies #[trigger] c1.block_of(
            r.blocks@[j] as int,
            i,
        ) by {
            assert(c0.block_of(r.blocks@[j] as int, i));
        }
        assert forall|j: int| 0 <= j < r.incoming@.len() implies #[trigger] c1.pair_in_range(
            r.incoming@[j],
        ) by {
            assert(c0.pair_in_range(r.incoming@[j]));
        }
        if r.kind == ValueKind::Function {
            assert(c0.fn_shaped(r.ty as int));
        }
    }
}

/// Growing the value table by one well-formed record preserves the store
/// invariant: in-range handles stay in range and old records are untouched.
proof fn lemma_wf_grow_values(c0: Context, c1: Context)
    requires
        c0.wf(),
        c1.values@.len() == c0.values@.len() + 1,
        forall|i: int| 0 <= i < c0.values@.len() ==> c1.values@[i] == c0.values@[i],
        c1.record_wf(c0.values@.len() as int),
        c1.types@ == c0.types@,
        c1.blocks@ == c0.blocks@,
    ensures
        c1.wf(),
{
    let n = c0.values@.len() as int;
    assert forall|i: int| 0 <= i < c1.values@.len() implies #[trigger] c1.record_wf(i) by {
        if i < n {
            assert(c0.record_wf(i));
            let r = c1.values@[i];
            assert forall|j: int| 0 <= j < r.args@.len() implies #[trigger] c1.is_argument(
                r.args@[j] as int,
            ) by {
                assert(c0.is_argument(r.args@[j] as int));
            }
            assert forall|j: int| 0 <= j < r.blocks@.len() implies #[trigger] c1.block_of(
                r.blocks@[j] as int,
                i,
            ) by {
                assert(c0.block_of(r.blocks@[j] as int, i));
            }
            assert forall|j: int| 0 <= j < r.incoming@.len() implies #[trigger] c1.pair_in_range(
                r.incoming@[j],
            ) by {
                assert(c0.pair_in_range(r.incoming@[j]));
            }
            if r.kind == ValueKind::Function {
                assert(c0.fn_shaped(r.ty as int));
            }
        }
    }
    assert forall|t: int| 0 <= t < c1.types@.len() implies #[trigger] c1.type_wf(t) by {
        assert(c0.type_wf(t));
    }
}

/// Growing the block table preserves the store invariant, provided each new
/// block points at an in-range value.
proof fn lemma_wf_grow_blocks(c0: Context, c1: Context)
    requires
        c0.wf(),
        c0.blocks@.len() <= c1.blocks@.len(),
        forall|b: int| 0 <= b < c0.blocks@.len() ==> c1.blocks@[b] == c0.blocks@[b],
        forall|b: int|
            c0.blocks@.len() <= b < c1.blocks@.len() ==> (#[trigger] c1.blocks@[b].function)
                < c1.values@.len(),
        c1.types@ == c0.types@,
        c1.values@ == c0.values@,
    ensures
        c1.wf(),
{
    assert forall|b: int|
        0 <= b < c1.blocks@.len() implies (#[trigger] c1.blocks@[b].function)
        < c1.values@.len() by {
        if b < c0.blocks@.len() {
            assert(c0.blocks@[b].function < c0.values@.len());
        }
    }
    assert forall|i: int| 0 <= i < c1.values@.len() implies #[trigger] c1.record_wf(i) by {
        assert(c0.record_wf(i));
        let r = c1.values@[i];
        assert forall|j: int| 0 <= j < r.args@.len() implies #[trigger] c1.is_argument(
            r.args@[j] as int,
        ) by {
            assert(c0.is_argument(r.args@[j] as int));
        }
        assert forall|j: int| 0 <= j < r.blocks@.len() implies #[trigger] c1.block_of(
            r.blocks@[j] as int,
            i,
        ) by {
            assert(c0.block_of(r.blocks@[j] as int, i));
        }
        assert forall|j: int| 0 <= j < r.incoming@.len() implies #[trigger] c1.pair_in_range(
            r.incoming@[j],
        ) by {
            assert(c0.pair_in_range(r.incoming@[j]));
        }
        if r.kind == ValueKind::Function {
            assert(c0.fn_shaped(r.ty as int));
        }
    }
    assert forall|t: int| 0 <= t < c1.types@.len() implies #[trigger] c1.type_wf(t) by {
        assert(c0.type_wf(t));
    }
}

/// Replacing one record with one of the same kind, type, argument list and
/// operand list — and whose remaining fields stay within the store's bounds —
/// preserves the store invariant.
pub(crate) proof fn lemma_wf_update(c0: Context, c1: Context, h: int)
    requires
        c0.wf(),
        0 <= h < c0.values@.len(),
        c1.types@ == c0.types@,
        c1.blocks@ == c0.blocks@,
        c1.values@.len() == c0.values@.len(),
        forall|i: int| 0 <= i < c0.values@.len() && i != h ==> c1.values@[i] == c0.values@[i],
        c1.values@[h].kind == c0.values@[h].kind,
        c1.values@[h].ty == c0.values@[h].ty,
        c1.values@[h].args@ == c0.values@[h].args@,
        c1.values@[h].operands@ == c0.values@[h].operands@,
        is_named_code(c1.values@[h].linkage),
        (c1.values@[h].initializer matches Some(g) ==> g < c0.values@.len()),
        forall|j: int| 0 <= j < c1.values@[h].blocks@.len() ==> #[trigger] c0.block_of(
            c1.values@[h].blocks@[j] as int,
            h,
        ),
        forall|j: int| 0 <= j < c1.values@[h].incoming@.len() ==> #[trigger] c0.pair_in_range(
            c1.values@[h].incoming@[j],
        ),
    ensures
        c1.wf(),
{
    assert(c0.record_wf(h));
    let r1 = c1.values@[h];
    let r0 = c0.values@[h];
    assert forall|j: int| 0 <= j < r1.blocks@.len() implies #[trigger] c1.block_of(
        r1.blocks@[j] as int,
        h,
    ) by {
        assert(c0.block_of(r1.blocks@[j] as int, h));
    }
    assert forall|j: int| 0 <= j < r1.incoming@.len() implies #[trigger] c1.pair_in_range(
        r1.incoming@[j],
    ) by {
        assert(c0.pair_in_range(r1.incoming@[j]));
    }
    assert forall|j: int| 0 <= j < r1.args@.len() implies #[trigger] c1.is_argument(
        r1.args@[j] as int,
    ) by {
        assert(c0.is_argument(r0.args@[j] as int));
    }
    assert forall|j: int|
        0 <= j < r1.operands@.len() implies #[trigger] (r1.operands@[j] as int)
        < c1.values@.len() by {
        assert((r0.operands@[j] as int) < c0.values@.len());
    }
    if r1.kind == ValueKind::Function {
        assert(c0.fn_shaped(r0.ty as int));
    }
    assert(c1.record_wf(h));
    assert forall|i: int| 0 <= i < c1.values@.len() implies #[trigger] c1.record_wf(i) by {
        if i != h {
            assert(c0.record_wf(i));
            let r = c1.values@[i];
            assert(r == c0.values@[i]);
            assert forall|j: int| 0 <= j < r.args@.len() implies #[trigger] c1.is_argument(
                r.args@[j] as int,
            ) by {
                assert(c0.is_argument(r.args@[j] as int));
                if r.args@[j] as int == h {
                    assert(c1.values@[h].kind == c0.values@[h].kind);
                }
            }
            assert forall|j: int| 0 <= j < r.blocks@.len() implies #[trigger] c1.block_of(
                r.blocks@[j] as int,
                i,
            ) by {
                assert(c0.block_of(r.blocks@[j] as int, i));
            }
            assert forall|j: int| 0 <= j < r.incoming@.len() implies #[trigger] c1.pair_in_range(
                r.incoming@[j],
            ) by {
                assert(c0.pair_in_range(r.incoming@[j]));
            }
            if r.kind == ValueKind::Function {
                assert(c0.fn_shaped(r.ty as int));
            }
        }
    }
    assert forall|t: int| 0 <= t < c1.types@.len() implies #[trigger] c1.type_wf(t) by {
        assert(c0.type_wf(t));
    }
    assert forall|b: int|
        0 <= b < c1.blocks@.len() implies (#[trigger] c1.blocks@[b].function)
        < c1.values@.len() by {
        assert(c0.blocks@[b].function < c0.values@.len());
    }
}

} // verus!

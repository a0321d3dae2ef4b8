use ir_refs::attribute::Attribute;
use ir_refs::context::Context;
use ir_refs::linkage::Linkage;
use ir_refs::value::{Alias, Function, GlobalValue, GlobalVariable, PhiNode, Value};

fn all_attributes() -> Vec<Attribute> {
    vec![
        Attribute::ZExt,
        Attribute::SExt,
        Attribute::NoReturn,
        Attribute::InReg,
        Attribute::StructRet,
        Attribute::NoUnwind,
        Attribute::NoAlias,
        Attribute::ByVal,
        Attribute::Nest,
        Attribute::ReadNone,
        Attribute::ReadOnly,
        Attribute::NoInline,
        Attribute::AlwaysInline,
        Attribute::OptimizeForSize,
        Attribute::StackProtect,
        Attribute::StackProtectReq,
        Attribute::Alignment,
        Attribute::NoCapture,
        Attribute::NoRedZone,
        Attribute::NoImplicitFloat,
        Attribute::Naked,
        Attribute::InlineHint,
        Attribute::StackAlignment,
        Attribute::ReturnsTwice,
        Attribute::UWTable,
        Attribute::NonLazyBind,
    ]
}

#[test]
fn upcast_identity_function() {
    let mut ctx = Context::new();
    let f = Function::new(&mut ctx, "answer", &Vec::new());
    assert_eq!(f.get_name(&ctx), "answer");
    // Widen to Value: the very same name and type are read back.
    let v = f.to_value();
    assert_eq!(v.handle, f.handle);
    assert_eq!(v.get_name(&ctx), Some(String::from("answer")));
    assert_eq!(v.get_type(&ctx).handle, f.to_value().get_type(&ctx).handle);
    // Widen to GlobalValue and back down to Value: still the same handle.
    let g = f.to_global_value();
    assert_eq!(g.to_value().handle, f.handle);
}

#[test]
fn upcast_identity_argument() {
    let mut ctx = Context::new();
    let t = ctx.opaque_type();
    let f = Function::new(&mut ctx, "one_param", &vec![t]);
    let a = f.index(&ctx, 0);
    let v = a.to_value();
    assert_eq!(v.handle, a.handle);
    // Unnamed argument: absent name read through either reference.
    assert_eq!(v.get_name(&ctx), None);
    assert_eq!(v.get_type(&ctx).handle, t.handle);
}

#[test]
fn downcast_soundness_global_variable() {
    let mut ctx = Context::new();
    let t = ctx.opaque_type();
    let g = GlobalVariable::new(&mut ctx, "g", t);
    let v = g.to_global_value().to_value();
    // Cast to its own kind succeeds, handle-identically.
    let back = GlobalVariable::cast(&v, &ctx).unwrap();
    assert_eq!(back.handle, g.handle);
    assert_eq!(back.to_value().handle, v.handle);
    // Cast to the shared supertype succeeds.
    assert!(GlobalValue::cast(&v, &ctx).is_some());
    // Casts to unrelated kinds are absent.
    assert!(Alias::cast(&v, &ctx).is_none());
    assert!(Function::cast(&v, &ctx).is_none());
}

#[test]
fn downcast_soundness_alias_and_function() {
    let mut ctx = Context::new();
    let t = ctx.opaque_type();
    let a = Alias::new(&mut ctx, "a", t);
    let av = a.to_global_value().to_value();
    assert_eq!(Alias::cast(&av, &ctx).unwrap().handle, a.handle);
    assert!(GlobalVariable::cast(&av, &ctx).is_none());
    assert!(GlobalValue::cast(&av, &ctx).is_some());

    let f = Function::new(&mut ctx, "f", &Vec::new());
    let fv = f.to_value();
    assert_eq!(Function::cast(&fv, &ctx).unwrap().handle, f.handle);
    assert!(GlobalVariable::cast(&fv, &ctx).is_none());
    assert!(Alias::cast(&fv, &ctx).is_none());
    assert_eq!(GlobalValue::cast(&fv, &ctx).unwrap().handle, f.handle);
}

#[test]
fn downcast_plain_constant_matches_nothing() {
    let mut ctx = Context::new();
    let t = ctx.opaque_type();
    let v = Value::new_undef(&mut ctx, t);
    assert!(GlobalValue::cast(&v, &ctx).is_none());
    assert!(GlobalVariable::cast(&v, &ctx).is_none());
    assert!(Alias::cast(&v, &ctx).is_none());
    assert!(Function::cast(&v, &ctx).is_none());
}

#[test]
fn function_cast_accepts_function_pointers() {
    // The deliberate conflation: a plain value whose type is a pointer to a
    // function type passes the Function downcast.
    let mut ctx = Context::new();
    let fty = ctx.function_type();
    let pty = ctx.pointer_type(fty);
    let v = Value::new_undef(&mut ctx, pty);
    assert!(Function::cast(&v, &ctx).is_some());
    // Directly function-typed values pass as well.
    let w = Value::new_undef(&mut ctx, fty);
    assert!(Function::cast(&w, &ctx).is_some());
}

#[test]
fn name_round_trip_and_absent_name() {
    let mut ctx = Context::new();
    let t = ctx.opaque_type();
    let v = Value::new_undef(&mut ctx, t);
    assert_eq!(v.get_name(&ctx), None);
    v.set_name(&mut ctx, "answer");
    assert_eq!(v.get_name(&ctx), Some(String::from("answer")));
    // An empty name reads back as absent.
    v.set_name(&mut ctx, "");
    assert_eq!(v.get_name(&ctx), None);
}

#[test]
fn argument_indexing_in_declaration_order() {
    let mut ctx = Context::new();
    let t0 = ctx.opaque_type();
    let t1 = ctx.opaque_type();
    let t2 = ctx.opaque_type();
    let f = Function::new(&mut ctx, "three_params", &vec![t0, t1, t2]);
    assert_eq!(f.param_count(&ctx), 3);
    let a0 = f.index(&ctx, 0);
    let a1 = f.index(&ctx, 1);
    let a2 = f.index(&ctx, 2);
    // Distinct references, in declaration order, with the declared types.
    assert_ne!(a0.handle, a1.handle);
    assert_ne!(a1.handle, a2.handle);
    assert_ne!(a0.handle, a2.handle);
    assert_eq!(a0.to_value().get_type(&ctx).handle, t0.handle);
    assert_eq!(a1.to_value().get_type(&ctx).handle, t1.handle);
    assert_eq!(a2.to_value().get_type(&ctx).handle, t2.handle);
}

#[test]
fn phi_accumulation_in_insertion_order() {
    let mut ctx = Context::new();
    let t = ctx.opaque_type();
    let f = Function::new(&mut ctx, "f", &Vec::new());
    let b0 = f.append(&mut ctx, "entry");
    let b1 = f.append(&mut ctx, "left");
    let b2 = f.append(&mut ctx, "right");
    let v0 = Value::new_undef(&mut ctx, t);
    let v1 = Value::new_undef(&mut ctx, t);
    let v2 = Value::new_undef(&mut ctx, t);
    let phi = PhiNode::new(&mut ctx, t);
    assert_eq!(phi.count_incoming(&ctx), 0);
    phi.add_incoming(&mut ctx, &v0, &b0);
    phi.add_incoming(&mut ctx, &v1, &b1);
    phi.add_incoming(&mut ctx, &v2, &b2);
    assert_eq!(phi.count_incoming(&ctx), 3);
    let (iv0, ib0) = phi.get_incoming(&ctx, 0);
    let (iv1, ib1) = phi.get_incoming(&ctx, 1);
    let (iv2, ib2) = phi.get_incoming(&ctx, 2);
    assert_eq!((iv0.handle, ib0.handle), (v0.handle, b0.handle));
    assert_eq!((iv1.handle, ib1.handle), (v1.handle, b1.handle));
    assert_eq!((iv2.handle, ib2.handle), (v2.handle, b2.handle));
}

#[test]
fn batch_attribute_equivalence() {
    // One batched addition behaves exactly like two single additions.
    let mut ctx_batch = Context::new();
    let mut ctx_single = Context::new();
    let fb = Function::new(&mut ctx_batch, "f", &Vec::new());
    let fs = Function::new(&mut ctx_single, "f", &Vec::new());
    fb.add_attributes(&mut ctx_batch, &vec![Attribute::NoUnwind, Attribute::ReadOnly]);
    fs.add_attribute(&mut ctx_single, Attribute::NoUnwind);
    fs.add_attribute(&mut ctx_single, Attribute::ReadOnly);
    assert!(fb.has_attributes(&ctx_batch, &vec![Attribute::NoUnwind, Attribute::ReadOnly]));
    for &a in all_attributes().iter() {
        assert_eq!(fb.has_attribute(&ctx_batch, a), fs.has_attribute(&ctx_single, a));
    }
}

#[test]
fn attributes_on_arguments() {
    let mut ctx = Context::new();
    let t = ctx.opaque_type();
    let f = Function::new(&mut ctx, "f", &vec![t]);
    let a = f.index(&ctx, 0);
    assert!(!a.has_attribute(&ctx, Attribute::ZExt));
    a.add_attribute(&mut ctx, Attribute::ZExt);
    a.add_attributes(&mut ctx, &vec![Attribute::NoAlias, Attribute::NoCapture]);
    assert!(a.has_attribute(&ctx, Attribute::ZExt));
    assert!(a.has_attribute(&ctx, Attribute::NoAlias));
    assert!(a.has_attribute(&ctx, Attribute::NoCapture));
    assert!(!a.has_attribute(&ctx, Attribute::SExt));
    assert!(a.has_attributes(&ctx, &vec![Attribute::ZExt, Attribute::NoCapture]));
    assert!(!a.has_attributes(&ctx, &vec![Attribute::ZExt, Attribute::SExt]));
    a.remove_attribute(&mut ctx, Attribute::NoAlias);
    assert!(!a.has_attribute(&ctx, Attribute::NoAlias));
    assert!(a.has_attribute(&ctx, Attribute::ZExt));
}

#[test]
fn linkage_on_globals() {
    let mut ctx = Context::new();
    let t = ctx.opaque_type();
    let g = GlobalVariable::new(&mut ctx, "g", t).to_global_value();
    assert_eq!(g.get_linkage(&ctx), Linkage::External);
    g.set_linkage(&mut ctx, Linkage::Internal);
    assert_eq!(g.get_linkage(&ctx), Linkage::Internal);
    g.set_linkage(&mut ctx, Linkage::Common);
    assert_eq!(g.get_linkage(&ctx), Linkage::Common);
}

#[test]
fn initializer_and_constant_flag() {
    let mut ctx = Context::new();
    let t = ctx.opaque_type();
    let g = GlobalVariable::new(&mut ctx, "g", t);
    assert!(g.get_initializer(&ctx).is_none());
    assert!(!g.get_constant(&ctx));
    assert!(g.to_global_value().is_declaration(&ctx));
    let init = Value::new_undef(&mut ctx, t);
    g.set_initializer(&mut ctx, &init);
    let got = g.get_initializer(&ctx).unwrap();
    assert_eq!(got.handle, init.handle);
    assert!(!g.to_global_value().is_declaration(&ctx));
    g.set_constant(&mut ctx, true);
    assert!(g.get_constant(&ctx));
    g.set_constant(&mut ctx, false);
    assert!(!g.get_constant(&ctx));
}

#[test]
fn blocks_and_declaration_state() {
    let mut ctx = Context::new();
    let f = Function::new(&mut ctx, "f", &Vec::new());
    assert!(f.get_entry(&ctx).is_none());
    assert!(f.to_global_value().is_declaration(&ctx));
    let entry = f.append(&mut ctx, "entry");
    assert!(!f.to_global_value().is_declaration(&ctx));
    let exit = f.append(&mut ctx, "exit");
    assert_ne!(entry.handle, exit.handle);
    // The entry block stays the first appended block.
    assert_eq!(f.get_entry(&ctx).unwrap().handle, entry.handle);
}

#[test]
fn function_signature_unwraps_pointer() {
    let mut ctx = Context::new();
    let f = Function::new(&mut ctx, "f", &Vec::new());
    // The function's own type sits behind a pointer; the signature does not.
    let sig = f.get_signature(&ctx);
    let own = f.to_value().get_type(&ctx);
    assert_ne!(sig.handle, own.handle);
}

#[test]
fn constant_constructors_record_contents() {
    let mut ctx = Context::new();
    let t = ctx.opaque_type();
    let x = Value::new_undef(&mut ctx, t);
    let y = Value::new_undef(&mut ctx, t);
    let s = Value::new_struct(&mut ctx, &vec![x, y], true);
    let rec = &ctx.values[s.handle];
    assert_eq!(rec.operands, vec![x.handle, y.handle]);
    assert!(rec.packed);
    let v = Value::new_vector(&mut ctx, &vec![y, x]);
    assert_eq!(ctx.values[v.handle].operands, vec![y.handle, x.handle]);
    let c = Value::new_string(&mut ctx, "hi", false);
    assert_eq!(ctx.values[c.handle].text, "hi");
    assert!(ctx.values[c.handle].null_terminated);
    let r = Value::new_string(&mut ctx, "hi", true);
    assert!(!ctx.values[r.handle].null_terminated);
}

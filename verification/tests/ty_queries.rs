use libbindgen::clang::{ClangType, ClangTypeKind, CursorKind};
use libbindgen::comp::CompInfo;
use libbindgen::context::BindgenContext;
use libbindgen::function::FunctionSig;
use libbindgen::int_kind::IntKind;
use libbindgen::item::ItemId;
use libbindgen::layout::Layout;
use libbindgen::parse::ParseError;
use libbindgen::ty::{ClangTypeAction, ClangTypeFacts, ClangTypePart, FloatKind, TemplateAliasChild, TemplateChildAction,
                     Type, TypeKind};

fn comp(has_vtable: bool, has_destructor: bool, is_unsized: bool) -> CompInfo {
    CompInfo {
        layout: Some(Layout::new(8, 8)),
        is_union: false,
        members_can_derive_debug: true,
        can_derive_copy: !has_destructor,
        has_vtable,
        has_destructor,
        is_unsized,
        signature_named_types: vec!["T".to_string()],
    }
}

fn anon(kind: TypeKind) -> Type {
    Type::new(None, None, kind, false)
}

fn add(ctx: &mut BindgenContext, kind: TypeKind) -> ItemId {
    ctx.add_type(anon(kind)).unwrap()
}

fn facts(kind: ClangTypeKind) -> ClangTypeFacts {
    ClangTypeFacts {
        already_resolved: None,
        kind,
        canonical_differs: false,
        canonical_kind: kind,
        has_ret_type: false,
        num_template_args: 0,
        location_kind: None,
        num_elements: 0,
    }
}

#[test]
fn new_and_getters() {
    let t = Type::new(Some("foo".to_string()), Some(Layout::new(4, 4)), TypeKind::Int(IntKind::Int), true);
    assert_eq!(t.name(), Some("foo"));
    assert!(t.is_const());
    assert!(matches!(t.kind(), TypeKind::Int(IntKind::Int)));
    let u = anon(TypeKind::Void);
    assert_eq!(u.name(), None);
    assert!(!u.is_const());
}

#[test]
fn kind_mut_replaces_the_kind_only() {
    let mut t = Type::new(Some("x".to_string()), None, TypeKind::Void, true);
    *t.kind_mut() = TypeKind::Float(FloatKind::Double);
    assert!(matches!(t.kind(), TypeKind::Float(FloatKind::Double)));
    assert_eq!(t.name(), Some("x"));
    assert!(t.is_const());
}

#[test]
fn kind_predicates() {
    let c = anon(TypeKind::Comp(comp(false, false, false)));
    assert!(c.is_comp() && c.as_comp().is_some() && !c.is_builtin_or_named());
    assert!(c.as_comp().unwrap().has_vtable == false);
    let n = Type::named("T".to_string(), None);
    assert!(n.is_named() && n.is_builtin_or_named() && !n.is_comp() && n.as_comp().is_none());
    let f = anon(TypeKind::Function(FunctionSig { return_type: ItemId(0), argument_types: vec![] }));
    assert!(f.is_function() && f.is_builtin_or_named());
    for k in [TypeKind::Void, TypeKind::NullPtr, TypeKind::BlockPointer, TypeKind::Pointer(ItemId(0)),
              TypeKind::Reference(ItemId(0)), TypeKind::Array(ItemId(0), 1), TypeKind::Int(IntKind::Bool),
              TypeKind::Float(FloatKind::Float)] {
        assert!(anon(k).is_builtin_or_named());
    }
    assert!(!anon(TypeKind::ResolvedTypeRef(ItemId(0))).is_builtin_or_named());
    assert!(!anon(TypeKind::Alias("a".to_string(), ItemId(0))).is_builtin_or_named());
    assert!(!anon(TypeKind::Enum(libbindgen::enum_ty::Enum { variants: vec![] })).is_builtin_or_named());
}

#[test]
fn named_type_has_its_name() {
    let n = Type::named("Param".to_string(), Some(ItemId(3)));
    assert_eq!(n.name(), Some("Param"));
    assert!(!n.is_const());
    match n.kind() {
        TypeKind::Named(name, default) => {
            assert_eq!(name, "Param");
            assert_eq!(*default, Some(ItemId(3)));
        }
        _ => panic!("not a named type"),
    }
}

#[test]
fn context_refuses_dangling_references() {
    let mut ctx = BindgenContext::new();
    assert_eq!(ctx.add_type(anon(TypeKind::Pointer(ItemId(0)))), None);
    assert_eq!(ctx.num_types(), 0);
    let int = add(&mut ctx, TypeKind::Int(IntKind::Int));
    assert_eq!(int, ItemId(0));
    assert_eq!(ctx.add_type(anon(TypeKind::Pointer(ItemId(0)))), Some(ItemId(1)));
    let targs = TypeKind::TemplateRef(ItemId(0), vec![ItemId(1), ItemId(5)]);
    assert_eq!(ctx.add_type(anon(targs)), None);
    let sig = FunctionSig { return_type: ItemId(0), argument_types: vec![(None, ItemId(9))] };
    assert_eq!(ctx.add_type(anon(TypeKind::Function(sig))), None);
    assert_eq!(ctx.num_types(), 2);
    assert!(matches!(ctx.resolve_type(ItemId(1)).kind(), TypeKind::Pointer(ItemId(0))));
}

#[test]
fn vtable_and_destructor_follow_indirections() {
    let mut ctx = BindgenContext::new();
    let c = add(&mut ctx, TypeKind::Comp(comp(true, true, false)));
    let alias = add(&mut ctx, TypeKind::Alias("A".to_string(), c));
    let resolved = add(&mut ctx, TypeKind::ResolvedTypeRef(alias));
    let tref = anon(TypeKind::TemplateRef(resolved, vec![]));
    assert!(tref.has_vtable(&ctx));
    assert!(tref.has_destructor(&ctx));
    let talias = anon(TypeKind::TemplateAlias(c, vec![c]));
    assert!(talias.has_vtable(&ctx) && talias.has_destructor(&ctx));
    let ptr = anon(TypeKind::Pointer(c));
    assert!(!ptr.has_vtable(&ctx));
    assert!(!ptr.has_destructor(&ctx));
    let plain = add(&mut ctx, TypeKind::Comp(comp(false, false, false)));
    assert!(!anon(TypeKind::ResolvedTypeRef(plain)).has_vtable(&ctx));
    assert!(!anon(TypeKind::ResolvedTypeRef(plain)).has_destructor(&ctx));
}

#[test]
fn derive_debug_respects_the_array_limit() {
    let mut ctx = BindgenContext::new();
    let int = add(&mut ctx, TypeKind::Int(IntKind::Int));
    assert!(anon(TypeKind::Array(int, 32)).can_derive_debug(&ctx));
    assert!(!anon(TypeKind::Array(int, 33)).can_derive_debug(&ctx));
    let mut nodebug = comp(false, false, false);
    nodebug.members_can_derive_debug = false;
    let c = add(&mut ctx, TypeKind::Comp(nodebug));
    assert!(!anon(TypeKind::Array(c, 2)).can_derive_debug(&ctx));
    assert!(!anon(TypeKind::Alias("a".to_string(), c)).can_derive_debug(&ctx));
    assert!(!anon(TypeKind::TemplateAlias(c, vec![])).can_derive_debug(&ctx));
    // A template reference is not followed.
    assert!(anon(TypeKind::TemplateRef(c, vec![])).can_derive_debug(&ctx));
    assert!(anon(TypeKind::Pointer(c)).can_derive_debug(&ctx));
}

#[test]
fn derive_copy_and_copy_in_array() {
    let mut ctx = BindgenContext::new();
    let named = add(&mut ctx, TypeKind::Named("T".to_string(), None));
    let int = add(&mut ctx, TypeKind::Int(IntKind::UInt));
    let noncopy = add(&mut ctx, TypeKind::Comp(comp(false, true, false)));
    // A template parameter can be copied, but not in an array.
    assert!(ctx.resolve_type(named).can_derive_copy(&ctx));
    assert!(!ctx.resolve_type(named).can_derive_copy_in_array(&ctx));
    assert!(!anon(TypeKind::Array(named, 1)).can_derive_copy(&ctx));
    assert!(anon(TypeKind::Array(int, 32)).can_derive_copy(&ctx));
    assert!(!anon(TypeKind::Array(int, 33)).can_derive_copy(&ctx));
    assert!(!anon(TypeKind::TemplateRef(noncopy, vec![])).can_derive_copy(&ctx));
    assert!(!anon(TypeKind::TemplateRef(noncopy, vec![])).can_derive_copy_in_array(&ctx));
    assert!(anon(TypeKind::TemplateRef(int, vec![])).can_derive_copy_in_array(&ctx));
    // In an array, the element type of an array decides.
    let arr = add(&mut ctx, TypeKind::Array(named, 40));
    assert!(!anon(TypeKind::Alias("a".to_string(), arr)).can_derive_copy_in_array(&ctx));
    let arr_int = add(&mut ctx, TypeKind::Array(int, 40));
    assert!(anon(TypeKind::Alias("b".to_string(), arr_int)).can_derive_copy_in_array(&ctx));
    assert!(!anon(TypeKind::Alias("b".to_string(), arr_int)).can_derive_copy(&ctx));
}

#[test]
fn canonical_type_and_is_integer() {
    let mut ctx = BindgenContext::new();
    let int = add(&mut ctx, TypeKind::Int(IntKind::Long));
    let float = add(&mut ctx, TypeKind::Float(FloatKind::LongDouble));
    let a1 = add(&mut ctx, TypeKind::Alias("a1".to_string(), int));
    let a2 = add(&mut ctx, TypeKind::ResolvedTypeRef(a1));
    let t = anon(TypeKind::TemplateAlias(a2, vec![float]));
    let c = t.canonical_type(&ctx);
    assert!(matches!(c.kind(), TypeKind::Int(IntKind::Long)));
    assert!(t.is_integer(&ctx));
    assert!(!anon(TypeKind::Alias("f".to_string(), float)).is_integer(&ctx));
    assert!(!anon(TypeKind::Pointer(int)).is_integer(&ctx));
    let ptr = anon(TypeKind::Pointer(int));
    assert!(matches!(ptr.canonical_type(&ctx).kind(), TypeKind::Pointer(_)));
    let unresolved = anon(TypeKind::UnresolvedTypeRef(
        ClangType { kind: ClangTypeKind::Record, spelling: "S".to_string() }, None, None));
    assert!(!unresolved.is_integer(&ctx));
}

#[test]
fn is_unsized_cases() {
    let mut ctx = BindgenContext::new();
    let int = add(&mut ctx, TypeKind::Int(IntKind::Char));
    let empty = add(&mut ctx, TypeKind::Comp(comp(false, false, true)));
    let full = add(&mut ctx, TypeKind::Comp(comp(false, false, false)));
    let void = add(&mut ctx, TypeKind::Void);
    ctx.enter_codegen_phase();
    assert!(ctx.in_codegen_phase());
    assert!(ctx.resolve_type(void).is_unsized(&ctx));
    assert!(ctx.resolve_type(empty).is_unsized(&ctx));
    assert!(!ctx.resolve_type(full).is_unsized(&ctx));
    assert!(anon(TypeKind::Array(int, 0)).is_unsized(&ctx));
    assert!(!anon(TypeKind::Array(int, 3)).is_unsized(&ctx));
    assert!(anon(TypeKind::Array(empty, 3)).is_unsized(&ctx));
    assert!(anon(TypeKind::TemplateRef(empty, vec![])).is_unsized(&ctx));
    assert!(!anon(TypeKind::Pointer(empty)).is_unsized(&ctx));
    assert!(!ctx.resolve_type(int).is_unsized(&ctx));
}

#[test]
fn layout_cases() {
    let mut ctx = BindgenContext::new();
    let int = ctx.add_type(Type::new(None, Some(Layout::new(4, 4)), TypeKind::Int(IntKind::Int), false)).unwrap();
    let own = Type::new(None, Some(Layout::new(16, 2)), TypeKind::Pointer(int), false);
    assert_eq!(own.layout(&ctx), Some(Layout::new(16, 2)));
    let ptr = anon(TypeKind::Pointer(int));
    let expected = Layout::new(std::mem::size_of::<&u8>(), std::mem::align_of::<&u8>());
    assert_eq!(ptr.layout(&ctx), Some(expected));
    assert_eq!(anon(TypeKind::BlockPointer).layout(&ctx), Some(expected));
    assert_eq!(anon(TypeKind::ResolvedTypeRef(int)).layout(&ctx), Some(Layout::new(4, 4)));
    assert_eq!(anon(TypeKind::Alias("a".to_string(), int)).layout(&ctx), None);
    assert_eq!(anon(TypeKind::Comp(comp(false, false, false))).layout(&ctx), Some(Layout::new(8, 8)));
    assert_eq!(anon(TypeKind::Void).layout(&ctx), None);
}

#[test]
fn signature_contains_named_type_cases() {
    let mut ctx = BindgenContext::new();
    let t = Type::named("T".to_string(), None);
    let u = Type::named("U".to_string(), None);
    let tid = ctx.add_type(Type::named("T".to_string(), None)).unwrap();
    let int = add(&mut ctx, TypeKind::Int(IntKind::Int));
    assert!(t.signature_contains_named_type(&ctx, &t));
    assert!(!u.signature_contains_named_type(&ctx, &t));
    let ptr = add(&mut ctx, TypeKind::Pointer(tid));
    assert!(ctx.resolve_type(ptr).signature_contains_named_type(&ctx, &t));
    assert!(!ctx.resolve_type(ptr).signature_contains_named_type(&ctx, &u));
    let f = anon(TypeKind::Function(FunctionSig {
        return_type: int,
        argument_types: vec![(Some("x".to_string()), int), (None, ptr)],
    }));
    assert!(f.signature_contains_named_type(&ctx, &t));
    let g = anon(TypeKind::Function(FunctionSig { return_type: tid, argument_types: vec![(None, int)] }));
    assert!(g.signature_contains_named_type(&ctx, &t));
    let h = anon(TypeKind::Function(FunctionSig { return_type: int, argument_types: vec![(None, int)] }));
    assert!(!h.signature_contains_named_type(&ctx, &t));
    assert!(anon(TypeKind::TemplateRef(int, vec![int, ptr])).signature_contains_named_type(&ctx, &t));
    // The template itself is not part of the signature, only its arguments.
    assert!(!anon(TypeKind::TemplateAlias(tid, vec![int])).signature_contains_named_type(&ctx, &t));
    assert!(anon(TypeKind::Array(tid, 4)).signature_contains_named_type(&ctx, &t));
    assert!(anon(TypeKind::Comp(comp(false, false, false))).signature_contains_named_type(&ctx, &t));
    assert!(!anon(TypeKind::Comp(comp(false, false, false))).signature_contains_named_type(&ctx, &u));
    // References are not followed.
    assert!(!anon(TypeKind::Reference(tid)).signature_contains_named_type(&ctx, &t));
}

#[test]
fn resolved_reference_is_transparent() {
    let mut ctx = BindgenContext::new();
    let c = add(&mut ctx, TypeKind::Comp(comp(true, false, true)));
    let r = anon(TypeKind::ResolvedTypeRef(c));
    ctx.enter_codegen_phase();
    let inner = ctx.resolve_type(c);
    assert_eq!(r.has_vtable(&ctx), inner.has_vtable(&ctx));
    assert_eq!(r.has_destructor(&ctx), inner.has_destructor(&ctx));
    assert_eq!(r.can_derive_debug(&ctx), inner.can_derive_debug(&ctx));
    assert_eq!(r.can_derive_copy(&ctx), inner.can_derive_copy(&ctx));
    assert_eq!(r.is_unsized(&ctx), inner.is_unsized(&ctx));
    assert_eq!(r.layout(&ctx), inner.layout(&ctx));
    assert!(r.canonical_type(&ctx).is_comp());
}

#[test]
fn canonical_type_is_its_own_canonical_type() {
    let mut ctx = BindgenContext::new();
    let c = add(&mut ctx, TypeKind::Comp(comp(true, true, true)));
    let a = add(&mut ctx, TypeKind::Alias("a".to_string(), c));
    let t = anon(TypeKind::TemplateRef(a, vec![]));
    ctx.enter_codegen_phase();
    let canon = t.canonical_type(&ctx);
    assert!(canon.canonical_type(&ctx).is_comp());
    assert_eq!(t.has_vtable(&ctx), canon.has_vtable(&ctx));
    assert_eq!(t.has_destructor(&ctx), canon.has_destructor(&ctx));
    assert_eq!(t.is_unsized(&ctx), canon.is_unsized(&ctx));
}

#[test]
fn crtp_types_are_unsized_and_get_a_dummy_field() {
    // template<class T> class Base {}; class Derived : public Base<Derived> {};
    let mut ctx = BindgenContext::new();
    let base = add(&mut ctx, TypeKind::Comp(comp(false, false, true)));
    let derived = add(&mut ctx, TypeKind::Comp(comp(false, false, true)));
    let base_of_derived = add(&mut ctx, TypeKind::TemplateRef(base, vec![derived]));
    ctx.enter_codegen_phase();
    assert!(ctx.resolve_type(derived).is_unsized(&ctx));
    assert!(ctx.resolve_type(base_of_derived).is_unsized(&ctx));
    assert!(!ctx.resolve_type(base_of_derived).has_destructor(&ctx));
}

#[test]
fn clang_type_actions() {
    let mut f = facts(ClangTypeKind::Pointer);
    assert_eq!(Type::clang_type_action(&f), ClangTypeAction::Pointer);
    f.already_resolved = Some(ItemId(7));
    assert_eq!(Type::clang_type_action(&f), ClangTypeAction::AlreadyResolved(ItemId(7)));
    assert_eq!(Type::clang_type_action(&facts(ClangTypeKind::MemberPointer)), ClangTypeAction::Pointer);
    assert_eq!(Type::clang_type_action(&facts(ClangTypeKind::BlockPointer)), ClangTypeAction::BlockPointer);
    assert_eq!(Type::clang_type_action(&facts(ClangTypeKind::LValueReference)), ClangTypeAction::Reference);
    assert_eq!(Type::clang_type_action(&facts(ClangTypeKind::RValueReference)), ClangTypeAction::Reference);
    assert_eq!(Type::clang_type_action(&facts(ClangTypeKind::IncompleteArray)), ClangTypeAction::ElementPointer);
    assert_eq!(Type::clang_type_action(&facts(ClangTypeKind::VariableArray)), ClangTypeAction::ElementPointer);
    assert_eq!(Type::clang_type_action(&facts(ClangTypeKind::FunctionProto)), ClangTypeAction::FunctionSig);
    assert_eq!(Type::clang_type_action(&facts(ClangTypeKind::FunctionNoProto)), ClangTypeAction::FunctionSig);
    assert_eq!(Type::clang_type_action(&facts(ClangTypeKind::Typedef)), ClangTypeAction::Typedef);
    assert_eq!(Type::clang_type_action(&facts(ClangTypeKind::Enum)), ClangTypeAction::Enum);
    assert_eq!(Type::clang_type_action(&facts(ClangTypeKind::Record)), ClangTypeAction::Record);
    let mut arr = facts(ClangTypeKind::ConstantArray);
    arr.num_elements = 12;
    assert_eq!(Type::clang_type_action(&arr), ClangTypeAction::Array(12));
    arr.kind = ClangTypeKind::Vector;
    assert_eq!(Type::clang_type_action(&arr), ClangTypeAction::Array(12));
    assert_eq!(Type::clang_type_action(&facts(ClangTypeKind::Complex)), ClangTypeAction::Array(2));
    assert_eq!(Type::clang_type_action(&facts(ClangTypeKind::Elaborated)), ClangTypeAction::FromNamed);
    assert_eq!(Type::clang_type_action(&facts(ClangTypeKind::Other)),
               ClangTypeAction::Fail(ParseError::Continue));
}

#[test]
fn clang_unexposed_type_actions() {
    let mut f = facts(ClangTypeKind::Unexposed);
    f.canonical_differs = true;
    f.canonical_kind = ClangTypeKind::Record;
    assert_eq!(Type::clang_type_action(&f), ClangTypeAction::FromCanonical);
    f.canonical_kind = ClangTypeKind::Invalid;
    assert_eq!(Type::clang_type_action(&f), ClangTypeAction::Fail(ParseError::Recurse));
    f.has_ret_type = true;
    assert_eq!(Type::clang_type_action(&f), ClangTypeAction::FunctionSig);
    f.has_ret_type = false;
    f.num_template_args = 2;
    assert_eq!(Type::clang_type_action(&f), ClangTypeAction::TemplateSpecialization);
    f.num_template_args = -1;
    f.location_kind = Some(CursorKind::ClassTemplate);
    assert_eq!(Type::clang_type_action(&f), ClangTypeAction::ClassTemplate);
    f.location_kind = Some(CursorKind::ClassTemplatePartialSpecialization);
    assert_eq!(Type::clang_type_action(&f), ClangTypeAction::ClassTemplate);
    f.location_kind = Some(CursorKind::TypeAliasTemplateDecl);
    assert_eq!(Type::clang_type_action(&f), ClangTypeAction::TemplateAlias);
    f.location_kind = Some(CursorKind::TemplateRef);
    assert_eq!(Type::clang_type_action(&f), ClangTypeAction::FollowTemplateRef);
    f.location_kind = Some(CursorKind::TypeRef);
    assert_eq!(Type::clang_type_action(&f), ClangTypeAction::FollowTypeRef);
    f.location_kind = Some(CursorKind::Other);
    assert_eq!(Type::clang_type_action(&f), ClangTypeAction::Fail(ParseError::Recurse));
    let mut g = facts(ClangTypeKind::Invalid);
    g.canonical_differs = true;
    assert_eq!(Type::clang_type_action(&g), ClangTypeAction::Fail(ParseError::Continue));
    g.location_kind = Some(CursorKind::TypeAliasDecl);
    assert_eq!(Type::clang_type_action(&g), ClangTypeAction::Fail(ParseError::Continue));
    g.location_kind = Some(CursorKind::TypeRef);
    assert_eq!(Type::clang_type_action(&g), ClangTypeAction::FollowTypeRef);
}

#[test]
fn template_alias_kind_cases() {
    assert_eq!(Type::template_alias_kind(Err(ParseError::Recurse), vec![ItemId(1)]).unwrap_err(),
               ParseError::Continue);
    assert_eq!(Type::template_alias_kind(Ok(ItemId(0)), vec![]).unwrap_err(), ParseError::Continue);
    match Type::template_alias_kind(Ok(ItemId(0)), vec![ItemId(1), ItemId(2)]) {
        Ok(TypeKind::TemplateAlias(inner, args)) => {
            assert_eq!(inner, ItemId(0));
            assert_eq!(args, vec![ItemId(1), ItemId(2)]);
        }
        _ => panic!("expected a template alias"),
    }
}

#[test]
fn from_clang_parts_drops_empty_names() {
    let t = Type::from_clang_parts(String::new(), None, TypeKind::Void, true);
    assert_eq!(t.name(), None);
    assert!(t.is_const());
    let u = Type::from_clang_parts("foo_t".to_string(), Some(Layout::new(1, 1)), TypeKind::Int(IntKind::UChar), false);
    assert_eq!(u.name(), Some("foo_t"));
    assert_eq!(u.layout(&BindgenContext::new()), Some(Layout::new(1, 1)));
}

#[test]
fn float_kinds_compare() {
    assert_eq!(FloatKind::Float, FloatKind::Float);
    assert_ne!(FloatKind::Float, FloatKind::Double);
    let k = FloatKind::LongDouble;
    let copy = k;
    assert_eq!(k, copy);
}

#[test]
fn comp_signature_lookup() {
    let c = comp(false, false, false);
    assert!(c.signature_contains_named_type(&"T".to_string()));
    assert!(!c.signature_contains_named_type(&"X".to_string()));
    assert_eq!(c.layout(), Some(Layout::new(8, 8)));
    let sig = FunctionSig { return_type: ItemId(4), argument_types: vec![] };
    assert_eq!(sig.return_type(), ItemId(4));
}

#[test]
fn union_debug_depends_on_the_layout_of_its_type() {
    let ctx = BindgenContext::new();
    let mut u = comp(false, false, false);
    u.is_union = true;
    u.members_can_derive_debug = false;
    u.layout = None;
    // 32 items of alignment 4 fit; 33 do not.
    let small = Type::new(None, Some(Layout::new(128, 4)), TypeKind::Comp(u), false);
    assert!(small.can_derive_debug(&ctx));
    let mut u2 = comp(false, false, false);
    u2.is_union = true;
    u2.layout = None;
    let big = Type::new(None, Some(Layout::new(132, 4)), TypeKind::Comp(u2), false);
    assert!(!big.can_derive_debug(&ctx));
    // Without a layout the union counts as empty.
    let mut u3 = comp(false, false, false);
    u3.is_union = true;
    u3.layout = None;
    assert!(anon(TypeKind::Comp(u3)).can_derive_debug(&ctx));
    // The layout of the compound itself is used where the type has none.
    let mut u4 = comp(false, false, false);
    u4.is_union = true;
    u4.layout = Some(Layout::new(66, 2));
    assert!(!anon(TypeKind::Comp(u4)).can_derive_debug(&ctx));
    assert_eq!(comp(false, false, false).can_derive_debug(Some(Layout::new(1000, 1))), true);
}

#[test]
fn kind_for_action_cases() {
    let item = || ClangTypePart::Item(ItemId(3));
    assert!(matches!(Type::kind_for_action(ClangTypeAction::Pointer, item(), String::new()),
                     Some(TypeKind::Pointer(ItemId(3)))));
    assert!(matches!(Type::kind_for_action(ClangTypeAction::ElementPointer, item(), String::new()),
                     Some(TypeKind::Pointer(ItemId(3)))));
    assert!(matches!(Type::kind_for_action(ClangTypeAction::Reference, item(), String::new()),
                     Some(TypeKind::Reference(ItemId(3)))));
    assert!(matches!(Type::kind_for_action(ClangTypeAction::Array(7), item(), String::new()),
                     Some(TypeKind::Array(ItemId(3), 7))));
    assert!(matches!(Type::kind_for_action(ClangTypeAction::BlockPointer, ClangTypePart::Nothing, String::new()),
                     Some(TypeKind::BlockPointer)));
    match Type::kind_for_action(ClangTypeAction::Typedef, item(), "size_t".to_string()) {
        Some(TypeKind::Alias(name, ItemId(3))) => assert_eq!(name, "size_t"),
        _ => panic!("expected an alias"),
    }
    let sig = FunctionSig { return_type: ItemId(1), argument_types: vec![] };
    assert!(matches!(Type::kind_for_action(ClangTypeAction::FunctionSig, ClangTypePart::Signature(sig), String::new()),
                     Some(TypeKind::Function(_))));
    for action in [ClangTypeAction::Record, ClangTypeAction::ClassTemplate, ClangTypeAction::TemplateSpecialization] {
        assert!(matches!(Type::kind_for_action(action, ClangTypePart::Compound(comp(true, false, false)), String::new()),
                         Some(TypeKind::Comp(_))));
    }
    let e = libbindgen::enum_ty::Enum { variants: vec!["A".to_string()] };
    assert!(matches!(Type::kind_for_action(ClangTypeAction::Enum, ClangTypePart::Enumeration(e), String::new()),
                     Some(TypeKind::Enum(_))));
    let ta = TypeKind::TemplateAlias(ItemId(0), vec![ItemId(2)]);
    assert!(matches!(Type::kind_for_action(ClangTypeAction::TemplateAlias, ClangTypePart::AliasTemplate(ta), String::new()),
                     Some(TypeKind::TemplateAlias(ItemId(0), _))));
    assert!(Type::kind_for_action(ClangTypeAction::TemplateAlias, ClangTypePart::AliasTemplate(TypeKind::Void),
                                  String::new()).is_none());
    assert!(Type::kind_for_action(ClangTypeAction::Pointer, ClangTypePart::Nothing, String::new()).is_none());
    assert!(Type::kind_for_action(ClangTypeAction::Record, item(), String::new()).is_none());
    assert!(Type::kind_for_action(ClangTypeAction::FromNamed, item(), String::new()).is_none());
}

#[test]
fn build_from_clang_names_and_kinds() {
    let t = Type::build_from_clang(ClangTypeAction::ClassTemplate, ClangTypePart::Compound(comp(false, false, true)),
                                   "Foo<T>".to_string(), "".to_string(), Some("Foo".to_string()),
                                   Some(Layout::new(1, 1)), true).unwrap();
    assert_eq!(t.name(), Some("Foo"));
    assert!(t.is_comp() && t.is_const());
    assert_eq!(t.layout(&BindgenContext::new()), Some(Layout::new(1, 1)));
    let r = Type::build_from_clang(ClangTypeAction::Record, ClangTypePart::Compound(comp(false, false, true)),
                                   "struct S".to_string(), "S".to_string(), Some("Other".to_string()),
                                   None, false).unwrap();
    assert_eq!(r.name(), Some("S"));
    let p = Type::build_from_clang(ClangTypeAction::Pointer, ClangTypePart::Item(ItemId(0)),
                                   "int *".to_string(), String::new(), None, None, false).unwrap();
    assert_eq!(p.name(), None);
    assert!(matches!(p.kind(), TypeKind::Pointer(ItemId(0))));
    assert!(Type::build_from_clang(ClangTypeAction::Enum, ClangTypePart::Nothing, String::new(),
                                   "E".to_string(), None, None, false).is_none());
    assert_eq!(Type::clang_type_name(ClangTypeAction::ClassTemplate, "d".to_string(), None), "d");
}

#[test]
fn template_alias_children_cases() {
    assert_eq!(Type::template_child_action(CursorKind::TypeAliasDecl, false), TemplateChildAction::ParseAlias);
    assert_eq!(Type::template_child_action(CursorKind::TemplateTypeParameter, false), TemplateChildAction::AddParam);
    assert_eq!(Type::template_child_action(CursorKind::TemplateTypeParameter, true), TemplateChildAction::Skip);
    assert_eq!(Type::template_child_action(CursorKind::Other, false), TemplateChildAction::Skip);
    let children = vec![
        TemplateAliasChild::Param(ItemId(4)),
        TemplateAliasChild::AliasDecl(Err(ParseError::Recurse)),
        TemplateAliasChild::Ignored,
        TemplateAliasChild::AliasDecl(Ok(ItemId(9))),
        TemplateAliasChild::Param(ItemId(5)),
    ];
    match Type::template_alias_from_children(&children) {
        Ok(TypeKind::TemplateAlias(inner, args)) => {
            assert_eq!(inner, ItemId(9));
            assert_eq!(args, vec![ItemId(4), ItemId(5)]);
        }
        _ => panic!("expected a template alias"),
    }
    let last_fails = vec![TemplateAliasChild::AliasDecl(Ok(ItemId(1))),
                          TemplateAliasChild::AliasDecl(Err(ParseError::Recurse)),
                          TemplateAliasChild::Param(ItemId(2))];
    assert_eq!(Type::template_alias_from_children(&last_fails).unwrap_err(), ParseError::Continue);
    let no_params = vec![TemplateAliasChild::AliasDecl(Ok(ItemId(1))), TemplateAliasChild::Ignored];
    assert_eq!(Type::template_alias_from_children(&no_params).unwrap_err(), ParseError::Continue);
    assert_eq!(Type::template_alias_from_children(&vec![]).unwrap_err(), ParseError::Continue);
}

#[test]
fn zero_length_arrays_are_unsized_whatever_the_element() {
    let mut ctx = BindgenContext::new();
    let full = add(&mut ctx, TypeKind::Comp(comp(false, false, false)));
    let unresolved = add(&mut ctx, TypeKind::UnresolvedTypeRef(
        ClangType { kind: ClangTypeKind::Record, spelling: "S".to_string() }, None, None));
    ctx.enter_codegen_phase();
    assert!(anon(TypeKind::Array(unresolved, 0)).is_unsized(&ctx));
    assert!(anon(TypeKind::Array(full, 0)).is_unsized(&ctx));
    assert!(!anon(TypeKind::Array(full, 1)).is_unsized(&ctx));
}

fn unresolved(name: &str) -> Type {
    anon(TypeKind::UnresolvedTypeRef(ClangType { kind: ClangTypeKind::Record, spelling: name.to_string() }, None, None))
}

#[test]
fn forward_references_resolve_to_later_types() {
    let mut ctx = BindgenContext::new();
    let fwd = ctx.add_type(Type::new(Some("S".to_string()), None, TypeKind::UnresolvedTypeRef(
        ClangType { kind: ClangTypeKind::Record, spelling: "S".to_string() }, None, None), true)).unwrap();
    let ptr = add(&mut ctx, TypeKind::Pointer(fwd));
    let def = add(&mut ctx, TypeKind::Comp(comp(true, true, false)));
    assert!(ctx.resolve_type_ref(fwd, def));
    assert!(matches!(ctx.resolve_type(fwd).kind(), TypeKind::ResolvedTypeRef(id) if *id == def));
    assert_eq!(ctx.resolve_type(fwd).name(), Some("S"));
    assert!(ctx.resolve_type(fwd).is_const());
    assert!(ctx.resolve_type(fwd).has_vtable(&ctx));
    assert!(anon(TypeKind::Alias("a".to_string(), fwd)).has_destructor(&ctx));
    assert!(ctx.resolve_type(fwd).canonical_type(&ctx).is_comp());
    assert!(matches!(ctx.resolve_type(ptr).kind(), TypeKind::Pointer(id) if *id == fwd));
    assert!(ctx.reaches_item(ptr, def));
    assert!(!ctx.reaches_item(def, ptr));
    // Already resolved: refused.
    assert!(!ctx.resolve_type_ref(fwd, ptr));
}

#[test]
fn resolving_into_a_loop_is_refused() {
    let mut ctx = BindgenContext::new();
    let fwd = ctx.add_type(unresolved("T")).unwrap();
    let alias = add(&mut ctx, TypeKind::Alias("t".to_string(), fwd));
    assert!(!ctx.resolve_type_ref(fwd, alias));
    assert!(!ctx.resolve_type_ref(fwd, fwd));
    assert!(!ctx.resolve_type_ref(fwd, ItemId(7)));
    assert!(!ctx.resolve_type_ref(ItemId(7), alias));
    assert!(!ctx.resolve_type_ref(alias, fwd));
    assert!(matches!(ctx.resolve_type(fwd).kind(), TypeKind::UnresolvedTypeRef(..)));
    let int = add(&mut ctx, TypeKind::Int(IntKind::Int));
    assert!(ctx.resolve_type_ref(fwd, int));
    assert!(anon(TypeKind::Alias("u".to_string(), alias)).is_integer(&ctx));
}

#[test]
fn stored_layout_needs_no_context() {
    let t = Type::new(None, Some(Layout::new(3, 1)), TypeKind::Pointer(ItemId(99)), false);
    assert_eq!(t.layout(&BindgenContext::new()), Some(Layout::new(3, 1)));
}

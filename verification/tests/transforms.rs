use ty_identity::{
    CallPath, CompileError, DeclInfo, DeclMapping, Engines, Handler, Ident, Span, TyConstantDecl,
    TyDecl, TyExpression, TyExpressionVariant, TypeArgument, TypeCheckContext, TypeId, TypeInfo,
    TypeSubstMap, Visibility,
};

fn sp(start: usize, end: usize) -> Span {
    Span { start, end }
}

fn ident(name: &str, s: Span) -> Ident {
    Ident { name: name.to_string(), span: s }
}

fn path(prefixes: &[&str], suffix: &str, s: Span) -> CallPath {
    CallPath {
        prefixes: prefixes.iter().map(|p| ident(p, s)).collect(),
        suffix: ident(suffix, s),
        is_absolute: false,
    }
}

fn lit(v: u64, ty: TypeId, s: Span) -> TyExpression {
    TyExpression { expression: TyExpressionVariant::Literal(v), return_type: ty, span: s }
}

fn node(rt: TypeId, asc: TypeId, value: Option<TyExpression>, owner: Option<TyDecl>) -> TyConstantDecl {
    TyConstantDecl {
        call_path: path(&["m"], "C", sp(0, 4)),
        value,
        visibility: Visibility::Private,
        is_configurable: false,
        attributes: vec![],
        return_type: rt,
        type_ascription: TypeArgument { type_id: asc, span: sp(0, 4) },
        span: sp(0, 4),
        implementing_type: owner,
    }
}

fn owner(engines: &mut Engines) -> TyDecl {
    let id = engines
        .decl_engine
        .insert(DeclInfo { name: ident("Owner", sp(0, 5)), is_abstract: false });
    TyDecl::ImplTrait { decl_id: id }
}

#[test]
fn substitution_with_empty_mapping_is_identity() {
    let mut engines = Engines::new();
    let own = owner(&mut engines);
    let p1 = engines.type_engine.insert(TypeInfo::Placeholder(1));
    let mut n = node(p1, p1, Some(lit(5, p1, sp(0, 4))), Some(own));
    let before = node(p1, p1, Some(lit(5, p1, sp(0, 4))), Some(own));
    assert!(n.eq(&before, &engines));
    n.subst_inner(&TypeSubstMap::new(), &engines);
    assert!(n.eq(&before, &engines));
    assert_eq!(n.return_type, p1);
    assert_eq!(n.type_ascription.type_id, p1);
}

#[test]
fn substitution_rewrites_every_contained_placeholder() {
    let mut engines = Engines::new();
    let own = owner(&mut engines);
    let p1 = engines.type_engine.insert(TypeInfo::Placeholder(1));
    let u64_ty = engines.type_engine.insert(TypeInfo::UnsignedInteger(64));
    let mut mapping = TypeSubstMap::new();
    mapping.insert(1, u64_ty);
    let mut n = node(p1, p1, Some(lit(5, p1, sp(0, 4))), Some(own));
    n.subst_inner(&mapping, &engines);
    assert_eq!(n.return_type, u64_ty);
    assert_eq!(n.type_ascription.type_id, u64_ty);
    match &n.value {
        Some(e) => assert_eq!(e.return_type, u64_ty),
        None => panic!("initializer vanished"),
    }
}

#[test]
fn substitution_leaves_unmapped_and_concrete_handles_alone() {
    let mut engines = Engines::new();
    let own = owner(&mut engines);
    let p2 = engines.type_engine.insert(TypeInfo::Placeholder(2));
    let bool_ty = engines.type_engine.insert(TypeInfo::Boolean);
    let u64_ty = engines.type_engine.insert(TypeInfo::UnsignedInteger(64));
    let mut mapping = TypeSubstMap::new();
    mapping.insert(1, u64_ty);
    let mut n = node(p2, bool_ty, None, Some(own));
    n.subst_inner(&mapping, &engines);
    assert_eq!(n.return_type, p2);
    assert_eq!(n.type_ascription.type_id, bool_ty);
}

#[test]
fn later_entries_of_a_mapping_win() {
    let mut engines = Engines::new();
    let own = owner(&mut engines);
    let p1 = engines.type_engine.insert(TypeInfo::Placeholder(1));
    let bool_ty = engines.type_engine.insert(TypeInfo::Boolean);
    let u64_ty = engines.type_engine.insert(TypeInfo::UnsignedInteger(64));
    let mut mapping = TypeSubstMap::new();
    mapping.insert(1, bool_ty);
    mapping.insert(1, u64_ty);
    let mut n = node(p1, p1, None, Some(own));
    n.subst_inner(&mapping, &engines);
    assert_eq!(n.return_type, u64_ty);
}

#[test]
fn substitution_composes() {
    let mut engines = Engines::new();
    let own = owner(&mut engines);
    let p1 = engines.type_engine.insert(TypeInfo::Placeholder(1));
    let p2 = engines.type_engine.insert(TypeInfo::Placeholder(2));
    let u64_ty = engines.type_engine.insert(TypeInfo::UnsignedInteger(64));
    let bool_ty = engines.type_engine.insert(TypeInfo::Boolean);
    let mut first = TypeSubstMap::new();
    first.insert(1, u64_ty);
    let mut second = TypeSubstMap::new();
    second.insert(2, bool_ty);
    let composed = first.compose(&second, &engines);

    let mut stepwise = node(p1, p2, Some(lit(5, p2, sp(0, 4))), Some(own));
    stepwise.subst_inner(&first, &engines);
    stepwise.subst_inner(&second, &engines);

    let mut at_once = node(p1, p2, Some(lit(5, p2, sp(0, 4))), Some(own));
    at_once.subst_inner(&composed, &engines);

    assert!(stepwise.eq(&at_once, &engines));
    assert_eq!(stepwise.return_type, at_once.return_type);
    assert_eq!(stepwise.return_type, u64_ty);
    assert_eq!(at_once.type_ascription.type_id, bool_ty);
}

#[test]
fn composition_applies_the_second_mapping_to_targets_of_the_first() {
    // `first` sends parameter 1 to a handle that is itself parameter 2, and
    // `second` resolves parameter 2: the chain must bottom out either way.
    let mut engines = Engines::new();
    let own = owner(&mut engines);
    let p1 = engines.type_engine.insert(TypeInfo::Placeholder(1));
    let p2 = engines.type_engine.insert(TypeInfo::Placeholder(2));
    let u64_ty = engines.type_engine.insert(TypeInfo::UnsignedInteger(64));
    let mut first = TypeSubstMap::new();
    first.insert(1, p2);
    let mut second = TypeSubstMap::new();
    second.insert(2, u64_ty);
    let composed = first.compose(&second, &engines);

    let mut stepwise = node(p1, p1, None, Some(own));
    stepwise.subst_inner(&first, &engines);
    stepwise.subst_inner(&second, &engines);
    let mut at_once = node(p1, p1, None, Some(own));
    at_once.subst_inner(&composed, &engines);

    assert_eq!(stepwise.return_type, u64_ty);
    assert_eq!(at_once.return_type, u64_ty);
}

#[test]
fn self_type_replacement_is_a_no_op_when_absent() {
    let mut engines = Engines::new();
    let own = owner(&mut engines);
    let u64_ty = engines.type_engine.insert(TypeInfo::UnsignedInteger(64));
    let concrete = engines.type_engine.insert(TypeInfo::Boolean);
    let mut n = node(u64_ty, u64_ty, Some(lit(5, u64_ty, sp(0, 4))), Some(own));
    let before = node(u64_ty, u64_ty, Some(lit(5, u64_ty, sp(0, 4))), Some(own));
    n.replace_self_type(&engines, concrete);
    assert!(n.eq(&before, &engines));
    assert_eq!(n.return_type, u64_ty);
}

#[test]
fn self_type_replacement_rewrites_the_placeholder_everywhere() {
    let mut engines = Engines::new();
    let own = owner(&mut engines);
    let self_ty = engines.type_engine.insert(TypeInfo::SelfType);
    let concrete = engines.type_engine.insert(TypeInfo::UnsignedInteger(64));
    let mut n = node(self_ty, self_ty, Some(lit(5, self_ty, sp(0, 4))), Some(own));
    n.replace_self_type(&engines, concrete);
    assert_eq!(n.return_type, concrete);
    assert_eq!(n.type_ascription.type_id, concrete);
    match &n.value {
        Some(e) => assert_eq!(e.return_type, concrete),
        None => panic!("initializer vanished"),
    }
}

#[test]
fn replacement_without_initializer_succeeds_with_no_mutation() {
    let mut engines = Engines::new();
    let own = owner(&mut engines);
    let u64_ty = engines.type_engine.insert(TypeInfo::UnsignedInteger(64));
    let mut n = node(u64_ty, u64_ty, None, Some(own));
    let mut handler = Handler::new();
    let mapping = DeclMapping::new();
    let ctx = TypeCheckContext::new(&engines);
    let r = n.replace_decls_inner(&mapping, &mut handler, &ctx);
    assert!(r.is_ok());
    assert_eq!(handler.error_count(), 0);
    assert!(n.value.is_none());
    assert_eq!(n.return_type, u64_ty);
}

#[test]
fn replacement_resolves_mapped_references() {
    let mut engines = Engines::new();
    let own = owner(&mut engines);
    let u64_ty = engines.type_engine.insert(TypeInfo::UnsignedInteger(64));
    let abstract_id = engines
        .decl_engine
        .insert(DeclInfo { name: ident("LEN", sp(0, 3)), is_abstract: true });
    let concrete_id = engines
        .decl_engine
        .insert(DeclInfo { name: ident("LEN", sp(9, 12)), is_abstract: false });
    let mut n = node(u64_ty, u64_ty, None, Some(own));
    n.value = Some(TyExpression {
        expression: TyExpressionVariant::ConstantReference { decl_id: abstract_id },
        return_type: u64_ty,
        span: sp(0, 4),
    });
    let mut mapping = DeclMapping::new();
    mapping.insert(abstract_id, concrete_id);
    let mut handler = Handler::new();
    let ctx = TypeCheckContext::new(&engines);
    let r = n.replace_decls_inner(&mapping, &mut handler, &ctx);
    assert!(r.is_ok());
    assert_eq!(handler.error_count(), 0);
    match &n.value {
        Some(TyExpression { expression: TyExpressionVariant::ConstantReference { decl_id }, .. }) => {
            assert_eq!(*decl_id, concrete_id);
        },
        _ => panic!("reference was not rewritten"),
    }
}

#[test]
fn unresolvable_reference_reports_exactly_one_diagnostic() {
    let mut engines = Engines::new();
    let own = owner(&mut engines);
    let u64_ty = engines.type_engine.insert(TypeInfo::UnsignedInteger(64));
    let abstract_id = engines
        .decl_engine
        .insert(DeclInfo { name: ident("LEN", sp(0, 3)), is_abstract: true });
    let mut n = node(u64_ty, u64_ty, None, Some(own));
    n.value = Some(TyExpression {
        expression: TyExpressionVariant::ConstantReference { decl_id: abstract_id },
        return_type: u64_ty,
        span: sp(0, 4),
    });
    let mapping = DeclMapping::new();
    let mut handler = Handler::new();
    let ctx = TypeCheckContext::new(&engines);

    let r = n.replace_decls_inner(&mapping, &mut handler, &ctx);
    assert!(r.is_err());
    assert_eq!(handler.error_count(), 1);
    let CompileError::UnresolvableDeclaration { name, span } = &handler.errors()[0];
    assert_eq!(name.name, "LEN");
    assert_eq!(*span, sp(0, 4));
    // The node is untouched, so the caller can still inspect it.
    match &n.value {
        Some(TyExpression { expression: TyExpressionVariant::ConstantReference { decl_id }, .. }) => {
            assert_eq!(*decl_id, abstract_id);
        },
        _ => panic!("node mutated on failure"),
    }
    // A caller that respects the token propagates it instead of re-running
    // the replacement, so no second diagnostic appears.
    let propagated = r;
    assert!(propagated.is_err());
    assert_eq!(handler.error_count(), 1);
}

#[test]
fn first_unresolvable_reference_wins_inside_nested_arguments() {
    let mut engines = Engines::new();
    let own = owner(&mut engines);
    let u64_ty = engines.type_engine.insert(TypeInfo::UnsignedInteger(64));
    let callee = engines
        .decl_engine
        .insert(DeclInfo { name: ident("make", sp(0, 4)), is_abstract: false });
    let missing_a = engines
        .decl_engine
        .insert(DeclInfo { name: ident("FIRST", sp(0, 5)), is_abstract: true });
    let missing_b = engines
        .decl_engine
        .insert(DeclInfo { name: ident("SECOND", sp(6, 12)), is_abstract: true });
    let reference = |id| TyExpression {
        expression: TyExpressionVariant::ConstantReference { decl_id: id },
        return_type: u64_ty,
        span: sp(0, 4),
    };
    let mut n = node(u64_ty, u64_ty, None, Some(own));
    n.value = Some(TyExpression {
        expression: TyExpressionVariant::FunctionApplication {
            decl_id: callee,
            arguments: vec![reference(missing_a), reference(missing_b)],
        },
        return_type: u64_ty,
        span: sp(0, 4),
    });
    let mapping = DeclMapping::new();
    let mut handler = Handler::new();
    let ctx = TypeCheckContext::new(&engines);
    let r = n.replace_decls_inner(&mapping, &mut handler, &ctx);
    assert!(r.is_err());
    assert_eq!(handler.error_count(), 1);
    let CompileError::UnresolvableDeclaration { name, .. } = &handler.errors()[0];
    assert_eq!(name.name, "FIRST");
}

#[test]
fn interner_overwrite_preserves_handle_identity() {
    let mut engines = Engines::new();
    let id = engines
        .decl_engine
        .insert(DeclInfo { name: ident("LEN", sp(0, 3)), is_abstract: true });
    assert!(engines.decl_engine.get(id).is_abstract);
    engines
        .decl_engine
        .replace(id, DeclInfo { name: ident("LEN", sp(0, 3)), is_abstract: false });
    assert!(!engines.decl_engine.get(id).is_abstract);
    assert_eq!(engines.decl_engine.len(), 1);
}

#[test]
fn type_interner_hands_out_stable_handles() {
    let mut engines = Engines::new();
    let a = engines.type_engine.insert(TypeInfo::Boolean);
    let b = engines.type_engine.insert(TypeInfo::UnsignedInteger(8));
    assert_eq!(engines.type_engine.len(), 2);
    assert_eq!(engines.type_engine.get(a), TypeInfo::Boolean);
    assert_eq!(engines.type_engine.get(b), TypeInfo::UnsignedInteger(8));
}

#[test]
fn subst_skips_the_walk_on_an_empty_mapping() {
    let mut engines = Engines::new();
    let own = owner(&mut engines);
    let p1 = engines.type_engine.insert(TypeInfo::Placeholder(1));
    let u64_ty = engines.type_engine.insert(TypeInfo::UnsignedInteger(64));
    let mut n = node(p1, p1, None, Some(own));
    n.subst(&TypeSubstMap::new(), &engines);
    assert_eq!(n.return_type, p1);
    let mut mapping = TypeSubstMap::new();
    mapping.insert(1, u64_ty);
    n.subst(&mapping, &engines);
    assert_eq!(n.return_type, u64_ty);
}

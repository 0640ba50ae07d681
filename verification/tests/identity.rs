use ty_identity::{
    Attribute, CallPath, DeclInfo, Engines, FieldHasher, Ident, Span, TyConstantDecl, TyDecl,
    TyExpression, TyExpressionVariant, TypeArgument, TypeId, TypeInfo, Visibility,
};

fn sp(start: usize, end: usize) -> Span {
    Span { start, end }
}

fn ident(name: &str, s: Span) -> Ident {
    Ident { name: name.to_string(), span: s }
}

fn path(prefixes: &[&str], suffix: &str, s: Span) -> CallPath {
    CallPath {
        prefixes: prefixes.iter().map(|p| ident(p, s)).collect(),
        suffix: ident(suffix, s),
        is_absolute: true,
    }
}

fn lit(v: u64, ty: TypeId, s: Span) -> TyExpression {
    TyExpression { expression: TyExpressionVariant::Literal(v), return_type: ty, span: s }
}

/// A session with one trait declaration to hang associated constants on.
fn session() -> (Engines, TyDecl) {
    let mut engines = Engines::new();
    let trait_id = engines
        .decl_engine
        .insert(DeclInfo { name: ident("Summable", sp(0, 8)), is_abstract: false });
    (engines, TyDecl::TraitDecl { decl_id: trait_id })
}

/// The constant `A::B::X: u64 = 5`, as an associated constant of the given
/// declaration, with every handle taken from the caller.
fn constant_x(u64_ty: TypeId, owner: Option<TyDecl>, s: Span, attrs: Vec<Attribute>) -> TyConstantDecl {
    TyConstantDecl {
        call_path: path(&["A", "B"], "X", s),
        value: Some(lit(5, u64_ty, s)),
        visibility: Visibility::Public,
        is_configurable: false,
        attributes: attrs,
        return_type: u64_ty,
        type_ascription: TypeArgument { type_id: u64_ty, span: s },
        span: s,
        implementing_type: owner,
    }
}

fn hash_of(n: &TyConstantDecl, engines: &Engines) -> u64 {
    let mut h = FieldHasher::new();
    n.hash(&mut h, engines);
    h.finish()
}

#[test]
fn equality_is_reflexive_for_associated_constants() {
    let (mut engines, owner) = session();
    let u64_ty = engines.type_engine.insert(TypeInfo::UnsignedInteger(64));
    let n = constant_x(u64_ty, Some(owner), sp(10, 20), vec![]);
    assert!(n.eq(&n, &engines));
}

#[test]
fn equality_is_symmetric() {
    let (mut engines, owner) = session();
    let u64_ty = engines.type_engine.insert(TypeInfo::UnsignedInteger(64));
    let a = constant_x(u64_ty, Some(owner), sp(10, 20), vec![]);
    let b = constant_x(u64_ty, Some(owner), sp(30, 40), vec![]);
    assert_eq!(a.eq(&b, &engines), b.eq(&a, &engines));
    assert!(a.eq(&b, &engines));
}

#[test]
fn equality_is_transitive() {
    let (mut engines, owner) = session();
    let u64_ty = engines.type_engine.insert(TypeInfo::UnsignedInteger(64));
    let a = constant_x(u64_ty, Some(owner), sp(1, 2), vec![]);
    let b = constant_x(u64_ty, Some(owner), sp(3, 4), vec![]);
    let c = constant_x(u64_ty, Some(owner), sp(5, 6), vec![]);
    assert!(a.eq(&b, &engines));
    assert!(b.eq(&c, &engines));
    assert!(a.eq(&c, &engines));
}

#[test]
fn equal_nodes_hash_identically() {
    let (mut engines, owner) = session();
    let u64_ty = engines.type_engine.insert(TypeInfo::UnsignedInteger(64));
    let a = constant_x(u64_ty, Some(owner), sp(10, 20), vec![]);
    let b = constant_x(u64_ty, Some(owner), sp(10, 20), vec![]);
    assert!(a.eq(&b, &engines));
    assert_eq!(hash_of(&a, &engines), hash_of(&b, &engines));
}

#[test]
fn attributes_and_span_do_not_affect_identity() {
    let (mut engines, owner) = session();
    let u64_ty = engines.type_engine.insert(TypeInfo::UnsignedInteger(64));
    let plain = constant_x(u64_ty, Some(owner), sp(10, 20), vec![]);
    let decorated = constant_x(
        u64_ty,
        Some(owner),
        sp(700, 900),
        vec![Attribute { name: "inline".to_string(), span: sp(690, 699) }],
    );
    assert!(plain.eq(&decorated, &engines));
    assert_eq!(hash_of(&plain, &engines), hash_of(&decorated, &engines));
}

#[test]
fn free_standing_constants_are_never_equal() {
    let (mut engines, _owner) = session();
    let u64_ty = engines.type_engine.insert(TypeInfo::UnsignedInteger(64));
    let a = constant_x(u64_ty, None, sp(10, 20), vec![]);
    let b = constant_x(u64_ty, None, sp(10, 20), vec![]);
    assert!(!a.eq(&b, &engines));
    assert!(!a.eq(&a, &engines));
}

#[test]
fn present_and_absent_implementing_type_are_unequal() {
    let (mut engines, owner) = session();
    let u64_ty = engines.type_engine.insert(TypeInfo::UnsignedInteger(64));
    let a = constant_x(u64_ty, Some(owner), sp(10, 20), vec![]);
    let b = constant_x(u64_ty, None, sp(10, 20), vec![]);
    assert!(!a.eq(&b, &engines));
    assert!(!b.eq(&a, &engines));
}

#[test]
fn differing_fields_break_equality() {
    let (mut engines, owner) = session();
    let u64_ty = engines.type_engine.insert(TypeInfo::UnsignedInteger(64));
    let a = constant_x(u64_ty, Some(owner), sp(10, 20), vec![]);
    let mut b = constant_x(u64_ty, Some(owner), sp(10, 20), vec![]);
    b.visibility = Visibility::Private;
    assert!(!a.eq(&b, &engines));
    let mut c = constant_x(u64_ty, Some(owner), sp(10, 20), vec![]);
    c.is_configurable = true;
    assert!(!a.eq(&c, &engines));
    let mut d = constant_x(u64_ty, Some(owner), sp(10, 20), vec![]);
    d.call_path = path(&["A", "B"], "Y", sp(10, 20));
    assert!(!a.eq(&d, &engines));
    let mut e = constant_x(u64_ty, Some(owner), sp(10, 20), vec![]);
    e.value = Some(lit(6, u64_ty, sp(10, 20)));
    assert!(!a.eq(&e, &engines));
}

#[test]
fn same_source_checked_twice_gives_equal_nodes() {
    // The constant `A::B::X: u64 = 5` type-checked twice under the same
    // interner state: both nodes resolve through the same handles.
    let (mut engines, owner) = session();
    let u64_ty = engines.type_engine.insert(TypeInfo::UnsignedInteger(64));
    let first = constant_x(u64_ty, Some(owner), sp(10, 20), vec![]);
    let second = constant_x(u64_ty, Some(owner), sp(10, 20), vec![]);
    assert!(first.eq(&second, &engines));
    assert_eq!(hash_of(&first, &engines), hash_of(&second, &engines));
}

#[test]
fn handle_values_do_not_matter_only_structure_does() {
    // Two checking sessions interned `u64` independently, so the two nodes
    // hold different handle values describing the same structure.
    let (mut engines, owner) = session();
    let noise = engines.type_engine.insert(TypeInfo::Boolean);
    let u64_first = engines.type_engine.insert(TypeInfo::UnsignedInteger(64));
    let u64_second = engines.type_engine.insert(TypeInfo::UnsignedInteger(64));
    assert_ne!(u64_first, u64_second);
    let _ = noise;
    let a = constant_x(u64_first, Some(owner), sp(10, 20), vec![]);
    let b = constant_x(u64_second, Some(owner), sp(10, 20), vec![]);
    assert!(a.eq(&b, &engines));
    assert_eq!(hash_of(&a, &engines), hash_of(&b, &engines));
}

#[test]
fn name_and_span_expose_the_declaration() {
    let (mut engines, owner) = session();
    let u64_ty = engines.type_engine.insert(TypeInfo::UnsignedInteger(64));
    let n = constant_x(u64_ty, Some(owner), sp(10, 20), vec![]);
    assert_eq!(n.name().name, "X");
    assert_eq!(n.span(), sp(10, 20));
}

#[test]
fn ident_equality_ignores_spans() {
    let a = ident("value", sp(0, 5));
    let b = ident("value", sp(90, 95));
    assert!(a.equals(&b));
    let c = ident("other", sp(0, 5));
    assert!(!a.equals(&c));
}

#[test]
fn call_path_equality_checks_segments_and_absoluteness() {
    let a = path(&["A", "B"], "X", sp(0, 1));
    let b = path(&["A", "B"], "X", sp(7, 9));
    assert!(a.equals(&b));
    let c = path(&["A"], "X", sp(0, 1));
    assert!(!a.equals(&c));
    let mut d = path(&["A", "B"], "X", sp(0, 1));
    d.is_absolute = false;
    assert!(!a.equals(&d));
}

#[test]
fn nested_initializers_compare_through_the_interner() {
    let (mut engines, owner) = session();
    let u64_a = engines.type_engine.insert(TypeInfo::UnsignedInteger(64));
    let u64_b = engines.type_engine.insert(TypeInfo::UnsignedInteger(64));
    let helper = engines
        .decl_engine
        .insert(DeclInfo { name: ident("combine", sp(0, 7)), is_abstract: false });
    let build = |ty: TypeId, s: Span| TyExpression {
        expression: TyExpressionVariant::FunctionApplication {
            decl_id: helper,
            arguments: vec![lit(1, ty, s), lit(2, ty, s)],
        },
        return_type: ty,
        span: s,
    };
    let mut a = constant_x(u64_a, Some(owner), sp(10, 20), vec![]);
    a.value = Some(build(u64_a, sp(10, 20)));
    let mut b = constant_x(u64_b, Some(owner), sp(50, 60), vec![]);
    b.value = Some(build(u64_b, sp(50, 60)));
    assert!(a.eq(&b, &engines));
    assert_eq!(hash_of(&a, &engines), hash_of(&b, &engines));
}

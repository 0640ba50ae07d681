//! The typed initializer expression and the declaration back-reference, with
//! the four context-threaded protocols each of them supports.
//!
//! Every protocol is specified over the mathematical model [`ExprV`] (the
//! view of [`TyExpression`]), whose children are a `Seq`, so that the
//! transforms are plain functions and the crate's laws can be stated as
//! equations between models.

use vstd::prelude::*;
use crate::decl_engine::{DeclId, DeclMapping};
use crate::engines::Engines;
use crate::hasher::FieldHasher;
use crate::language::Span;
use crate::type_system::{type_words, TypeId, TypeInfo, TypeSubstMap};

verus! {

/// A checked declaration this node may be associated with: the trait, struct
/// or impl block an associated constant belongs to, referenced through the
/// declaration interner.
#[derive(Clone, Copy, Debug)]
pub enum TyDecl {
    TraitDecl { decl_id: DeclId },
    StructDecl { decl_id: DeclId },
    ImplTrait { decl_id: DeclId },
}

impl TyDecl {
    pub open spec fn decl_id_spec(self) -> DeclId {
        match self {
            TyDecl::TraitDecl { decl_id } => decl_id,
            TyDecl::StructDecl { decl_id } => decl_id,
            TyDecl::ImplTrait { decl_id } => decl_id,
        }
    }

    pub open spec fn tag(self) -> u64 {
        match self {
            TyDecl::TraitDecl { .. } => 0,
            TyDecl::StructDecl { .. } => 1,
            TyDecl::ImplTrait { .. } => 2,
        }
    }

    pub open spec fn valid_in(self, eng: Engines) -> bool {
        self.decl_id_spec().0 < eng.decl_engine@.len()
    }

    /// Identity of a declaration reference: same kind of declaration, and
    /// the interned entries behind the two handles agree. The raw handle
    /// values never matter.
    pub open spec fn eq_spec(self, other: TyDecl, eng: Engines) -> bool {
        self.tag() == other.tag() && eng.decl_of(self.decl_id_spec()).eq_spec(
            eng.decl_of(other.decl_id_spec()),
        )
    }

    /// The words a declaration reference feeds for hashing: its kind and the
    /// resolved entry, never the raw handle.
    pub open spec fn hash_words_spec(self, eng: Engines) -> Seq<u64> {
        seq![self.tag()] + eng.decl_of(self.decl_id_spec()).hash_words_spec()
    }

    pub fn decl_id(&self) -> (r: DeclId)
        ensures
            r == self.decl_id_spec(),
    {
        match self {
            TyDecl::TraitDecl { decl_id } => *decl_id,
            TyDecl::StructDecl { decl_id } => *decl_id,
            TyDecl::ImplTrait { decl_id } => *decl_id,
        }
    }

    pub fn kind_tag(&self) -> (r: u64)
        ensures
            r == self.tag(),
    {
        match self {
            TyDecl::TraitDecl { .. } => 0,
            TyDecl::StructDecl { .. } => 1,
            TyDecl::ImplTrait { .. } => 2,
        }
    }

    pub fn equals(&self, other: &TyDecl, engines: &Engines) -> (r: bool)
        requires
            self.valid_in(*engines),
            other.valid_in(*engines),
        ensures
            r == self.eq_spec(*other, *engines),
    {
        self.kind_tag() == other.kind_tag() && engines.de().get(self.decl_id()).equals(
            engines.de().get(other.decl_id()),
        )
    }

    pub fn hash(&self, state: &mut FieldHasher, engines: &Engines)
        requires
            self.valid_in(*engines),
        ensures
            final(state)@ == old(state)@ + self.hash_words_spec(*engines),
    {
        state.write_u64(self.kind_tag());
        engines.de().get(self.decl_id()).hash(state);
        proof {
            assert(final(state)@ =~= old(state)@ + self.hash_words_spec(*engines));
        }
    }
}

/// The mathematical model of an initializer expression.
#[verifier::ext_equal]
pub struct ExprV {
    pub return_type: TypeId,
    pub span: Span,
    pub variant: ExprVariantV,
}

/// The model of an expression's form.
#[verifier::ext_equal]
pub enum ExprVariantV {
    Literal(u64),
    ConstantReference(DeclId),
    FunctionApplication(DeclId, Seq<ExprV>),
}

/// A typed initializer expression: the form it takes, the handle of its type,
/// and where it was written.
#[derive(Debug)]
pub struct TyExpression {
    pub expression: TyExpressionVariant,
    pub return_type: TypeId,
    pub span: Span,
}

/// The expression forms an initializer can take: a literal, a reference to
/// another constant, or a call of a function, possibly still abstract, with
/// nested argument expressions.
#[derive(Debug)]
pub enum TyExpressionVariant {
    Literal(u64),
    ConstantReference { decl_id: DeclId },
    FunctionApplication { decl_id: DeclId, arguments: Vec<TyExpression> },
}

/// The model of an expression.
pub open spec fn expr_view(e: TyExpression) -> ExprV
    decreases e,
{
    ExprV {
        return_type: e.return_type,
        span: e.span,
        variant: match e.expression {
            TyExpressionVariant::Literal(v) => ExprVariantV::Literal(v),
            TyExpressionVariant::ConstantReference { decl_id } => ExprVariantV::ConstantReference(
                decl_id,
            ),
            TyExpressionVariant::FunctionApplication { decl_id, arguments } =>
                ExprVariantV::FunctionApplication(decl_id, views_of(arguments@)),
        },
    }
}

impl View for TyExpression {
    type V = ExprV;

    open spec fn view(&self) -> ExprV {
        expr_view(*self)
    }
}

/// The models of a sequence of expressions. The range guard keeps the
/// recursion well-founded; an out-of-range index never arises.
pub open spec fn views_of(s: Seq<TyExpression>) -> Seq<ExprV>
    decreases s,
{
    Seq::new(
        s.len(),
        |i: int|
            if 0 <= i < s.len() {
                expr_view(s[i])
            } else {
                ExprV {
                    return_type: TypeId(0),
                    span: Span { start: 0, end: 0 },
                    variant: ExprVariantV::Literal(0),
                }
            },
    )
}

impl ExprV {
    /// Every handle in the expression tree is resolvable.
    pub open spec fn valid_in(self, eng: Engines) -> bool
        decreases self,
    {
        self.return_type.valid_in(eng) && match self.variant {
            ExprVariantV::Literal(_) => true,
            ExprVariantV::ConstantReference(d) => d.0 < eng.decl_engine@.len(),
            ExprVariantV::FunctionApplication(d, children) => d.0 < eng.decl_engine@.len()
                && forall|i: int|
                0 <= i < children.len() ==> (#[trigger] children[i]).valid_in(eng),
        }
    }

    /// Equality-with-context of expressions: the resolved structures of the
    /// two return types agree, the forms match, referenced declarations are
    /// compared through the interner, and arguments are compared recursively.
    /// Spans are ignored.
    pub open spec fn eq_spec(self, other: ExprV, eng: Engines) -> bool
        decreases self,
    {
        eng.resolve(self.return_type) == eng.resolve(other.return_type) && match (
        self.variant,
        other.variant,
        ) {
            (ExprVariantV::Literal(a), ExprVariantV::Literal(b)) => a == b,
            (ExprVariantV::ConstantReference(a), ExprVariantV::ConstantReference(b)) => eng.decl_of(
                a,
            ).eq_spec(eng.decl_of(b)),
            (
                ExprVariantV::FunctionApplication(a, xs),
                ExprVariantV::FunctionApplication(b, ys),
            ) => eng.decl_of(a).eq_spec(eng.decl_of(b)) && xs.len() == ys.len() && forall|i: int|
                0 <= i < xs.len() ==> (#[trigger] xs[i]).eq_spec(ys[i], eng),
            _ => false,
        }
    }

    /// The words an expression feeds for hashing: the resolved structure of
    /// its type, a form tag, resolved referenced declarations, and the
    /// arguments in order. Spans and raw handles are never fed.
    pub open spec fn hash_words_spec(self, eng: Engines) -> Seq<u64>
        decreases self,
    {
        type_words(eng.resolve(self.return_type)) + match self.variant {
            ExprVariantV::Literal(v) => seq![0u64, v],
            ExprVariantV::ConstantReference(d) => seq![1u64] + eng.decl_of(d).hash_words_spec(),
            ExprVariantV::FunctionApplication(d, children) => seq![2u64] + eng.decl_of(
                d,
            ).hash_words_spec() + seq![children.len() as u64] + args_words(children, eng),
        }
    }

    /// Type substitution on the model: rewrites the expression's type and
    /// every nested type reference; declaration references are untouched.
    pub open spec fn subst_spec(self, m: TypeSubstMap, eng: Engines) -> ExprV
        decreases self,
    {
        ExprV {
            return_type: self.return_type.subst_spec(m, eng),
            span: self.span,
            variant: match self.variant {
                ExprVariantV::Literal(v) => ExprVariantV::Literal(v),
                ExprVariantV::ConstantReference(d) => ExprVariantV::ConstantReference(d),
                ExprVariantV::FunctionApplication(d, children) =>
                    ExprVariantV::FunctionApplication(d, subst_all(children, m, eng)),
            },
        }
    }

    /// Self-type replacement on the model.
    pub open spec fn replace_self_spec(self, self_type: TypeId, eng: Engines) -> ExprV
        decreases self,
    {
        ExprV {
            return_type: self.return_type.replace_self_spec(self_type, eng),
            span: self.span,
            variant: match self.variant {
                ExprVariantV::Literal(v) => ExprVariantV::Literal(v),
                ExprVariantV::ConstantReference(d) => ExprVariantV::ConstantReference(d),
                ExprVariantV::FunctionApplication(d, children) =>
                    ExprVariantV::FunctionApplication(
                    d,
                    replace_self_all(children, self_type, eng),
                ),
            },
        }
    }

    /// Whether the reserved self placeholder occurs anywhere in the node.
    pub open spec fn contains_self_spec(self, eng: Engines) -> bool
        decreases self,
    {
        eng.resolve(self.return_type) == TypeInfo::SelfType || match self.variant {
            ExprVariantV::FunctionApplication(_, children) => exists|i: int|
                0 <= i < children.len() && (#[trigger] children[i]).contains_self_spec(eng),
            _ => false,
        }
    }

    /// Declaration replacement on the model: every reference is either
    /// mapped, already concrete, or the first abstract unmapped reference is
    /// the failure.
    pub open spec fn replace_decls_spec(self, m: DeclMapping, eng: Engines) -> Result<ExprV, DeclId>
        decreases self,
    {
        match self.variant {
            ExprVariantV::Literal(_) => Ok(self),
            ExprVariantV::ConstantReference(d) => match spec_resolve_ref(d, m, eng) {
                Ok(d2) => Ok(
                    ExprV {
                        return_type: self.return_type,
                        span: self.span,
                        variant: ExprVariantV::ConstantReference(d2),
                    },
                ),
                Err(e) => Err(e),
            },
            ExprVariantV::FunctionApplication(d, children) => match spec_resolve_ref(d, m, eng) {
                Err(e) => Err(e),
                Ok(d2) => match replace_decls_args(children, m, eng) {
                    Err(e) => Err(e),
                    Ok(cs) => Ok(
                        ExprV {
                            return_type: self.return_type,
                            span: self.span,
                            variant: ExprVariantV::FunctionApplication(d2, cs),
                        },
                    ),
                },
            },
        }
    }
}

/// Substitution applied to every expression of a list. The range guard keeps
/// the recursion well-founded; an out-of-range index never arises.
pub open spec fn subst_all(s: Seq<ExprV>, m: TypeSubstMap, eng: Engines) -> Seq<ExprV>
    decreases s,
{
    Seq::new(s.len(), |i: int| if 0 <= i < s.len() { s[i].subst_spec(m, eng) } else { s[i] })
}

/// Self-type replacement applied to every expression of a list. The range
/// guard keeps the recursion well-founded; an out-of-range index never arises.
pub open spec fn replace_self_all(s: Seq<ExprV>, self_type: TypeId, eng: Engines) -> Seq<ExprV>
    decreases s,
{
    Seq::new(
        s.len(),
        |i: int| if 0 <= i < s.len() { s[i].replace_self_spec(self_type, eng) } else { s[i] },
    )
}

/// How one declaration reference resolves: through the mapping if present;
/// otherwise it must already be concrete, and an abstract unmapped reference
/// is the failure, reported as the offending handle.
pub open spec fn spec_resolve_ref(d: DeclId, m: DeclMapping, eng: Engines) -> Result<DeclId, DeclId> {
    match m.spec_lookup(d) {
        Some(c) => Ok(c),
        None => if eng.decl_of(d).is_abstract {
            Err(d)
        } else {
            Ok(d)
        },
    }
}

/// Declaration replacement over an argument list; the leftmost failure wins.
pub open spec fn replace_decls_args(s: Seq<ExprV>, m: DeclMapping, eng: Engines) -> Result<
    Seq<ExprV>,
    DeclId,
>
    decreases s,
{
    if s.len() == 0 {
        Ok(Seq::empty())
    } else {
        match replace_decls_args(s.drop_last(), m, eng) {
            Err(e) => Err(e),
            Ok(t) => match s.last().replace_decls_spec(m, eng) {
                Err(e) => Err(e),
                Ok(x) => Ok(t.push(x)),
            },
        }
    }
}

/// The words a whole argument list feeds, in order.
pub open spec fn args_words(s: Seq<ExprV>, eng: Engines) -> Seq<u64>
    decreases s,
{
    if s.len() == 0 {
        Seq::empty()
    } else {
        args_words(s.drop_last(), eng) + s.last().hash_words_spec(eng)
    }
}


/// A prefix whose replacement already failed decides the whole list.
pub proof fn lemma_replace_args_err_persists(s: Seq<ExprV>, k: int, m: DeclMapping, eng: Engines)
    requires
        0 <= k <= s.len(),
        replace_decls_args(s.take(k), m, eng) is Err,
    ensures
        replace_decls_args(s, m, eng) == replace_decls_args(s.take(k), m, eng),
    decreases s.len() - k,
{
    if k == s.len() {
        assert(s.take(k) =~= s);
    } else {
        assert(s.take(k + 1).drop_last() =~= s.take(k));
        assert(s.take(k + 1).len() == k + 1);
        assert(replace_decls_args(s.take(k + 1), m, eng) == replace_decls_args(s.take(k), m, eng));
        lemma_replace_args_err_persists(s, k + 1, m, eng);
    }
}

/// How one declaration reference is rewritten; see [`spec_resolve_ref`].
fn resolve_ref(d: DeclId, decl_mapping: &DeclMapping, engines: &Engines) -> (r: Result<
    DeclId,
    DeclId,
>)
    requires
        d.0 < engines.decl_engine@.len(),
    ensures
        r == spec_resolve_ref(d, *decl_mapping, *engines),
{
    match decl_mapping.lookup(d) {
        Some(c) => Ok(c),
        None => if engines.de().get(d).is_abstract {
            Err(d)
        } else {
            Ok(d)
        },
    }
}

impl TyExpression {
    pub fn equals(&self, other: &TyExpression, engines: &Engines) -> (r: bool)
        requires
            self@.valid_in(*engines),
            other@.valid_in(*engines),
        ensures
            r == self@.eq_spec(other@, *engines),
        decreases *self,
    {
        if engines.te().get(self.return_type) != engines.te().get(other.return_type) {
            return false;
        }
        match (&self.expression, &other.expression) {
            (TyExpressionVariant::Literal(a), TyExpressionVariant::Literal(b)) => *a == *b,
            (
                TyExpressionVariant::ConstantReference { decl_id: a },
                TyExpressionVariant::ConstantReference { decl_id: b },
            ) => engines.de().get(*a).equals(engines.de().get(*b)),
            (
                TyExpressionVariant::FunctionApplication { decl_id: a, arguments: xs },
                TyExpressionVariant::FunctionApplication { decl_id: b, arguments: ys },
            ) => {
                if !engines.de().get(*a).equals(engines.de().get(*b)) {
                    return false;
                }
                if xs.len() != ys.len() {
                    return false;
                }
                proof {
                    assert(self.expression == (TyExpressionVariant::FunctionApplication {
                        decl_id: *a,
                        arguments: *xs,
                    }));
                    assert(self@.variant == ExprVariantV::FunctionApplication(*a, views_of(xs@)));
                    assert(other@.variant == ExprVariantV::FunctionApplication(
                        *b,
                        views_of(ys@),
                    ));
                    assert forall|j: int|
                        0 <= j < views_of(xs@).len() implies (#[trigger] views_of(
                        xs@,
                    )[j]).valid_in(*engines) by {
                        assert(self@.valid_in(*engines));
                        assert(self@.variant->FunctionApplication_1[j] == views_of(xs@)[j]);
                    }
                    assert forall|j: int|
                        0 <= j < views_of(ys@).len() implies (#[trigger] views_of(
                        ys@,
                    )[j]).valid_in(*engines) by {
                        assert(other@.valid_in(*engines));
                        assert(other@.variant->FunctionApplication_1[j] == views_of(ys@)[j]);
                    }
                }
                let n = xs.len();
                let mut i: usize = 0;
                while i < n
                    invariant
                        i <= n,
                        n == xs@.len(),
                        n == ys@.len(),
                        self.expression == (TyExpressionVariant::FunctionApplication {
                            decl_id: *a,
                            arguments: *xs,
                        }),
                        other.expression == (TyExpressionVariant::FunctionApplication {
                            decl_id: *b,
                            arguments: *ys,
                        }),
                        self@.variant == ExprVariantV::FunctionApplication(*a, views_of(xs@)),
                        other@.variant == ExprVariantV::FunctionApplication(*b, views_of(ys@)),
                        forall|j: int|
                            0 <= j < views_of(xs@).len() ==> (#[trigger] views_of(
                                xs@,
                            )[j]).valid_in(*engines),
                        forall|j: int|
                            0 <= j < views_of(ys@).len() ==> (#[trigger] views_of(
                                ys@,
                            )[j]).valid_in(*engines),
                        forall|j: int|
                            0 <= j < i ==> (#[trigger] views_of(xs@)[j]).eq_spec(
                                views_of(ys@)[j],
                                *engines,
                            ),
                    decreases n - i,
                {
                    proof {
                        assert(views_of(xs@)[i as int] == expr_view(xs@[i as int]));
                        assert(views_of(ys@)[i as int] == expr_view(ys@[i as int]));
                        assert(views_of(xs@)[i as int].valid_in(*engines));
                        assert(views_of(ys@)[i as int].valid_in(*engines));
                        assert(decreases_to!(*self => xs[i as int]));
                    }
                    if !xs[i].equals(&ys[i], engines) {
                        return false;
                    }
                    i += 1;
                }
                true
            },
            _ => false,
        }
    }

    pub fn hash(&self, state: &mut FieldHasher, engines: &Engines)
        requires
            self@.valid_in(*engines),
        ensures
            final(state)@ == old(state)@ + self@.hash_words_spec(*engines),
        decreases *self,
    {
        crate::type_system::hash_type_info(engines.te().get(self.return_type), state);
        match &self.expression {
            TyExpressionVariant::Literal(v) => {
                state.write_u64(0);
                state.write_u64(*v);
            },
            TyExpressionVariant::ConstantReference { decl_id } => {
                state.write_u64(1);
                engines.de().get(*decl_id).hash(state);
            },
            TyExpressionVariant::FunctionApplication { decl_id, arguments } => {
                state.write_u64(2);
                engines.de().get(*decl_id).hash(state);
                state.write_u64(arguments.len() as u64);
                let ghost cs = views_of(arguments@);
                let ghost fed = state@;
                proof {
                    assert(self.expression == (TyExpressionVariant::FunctionApplication {
                        decl_id: *decl_id,
                        arguments: *arguments,
                    }));
                    assert(self@.variant == ExprVariantV::FunctionApplication(*decl_id, cs));
                    assert forall|j: int| 0 <= j < cs.len() implies (#[trigger] cs[j]).valid_in(
                        *engines,
                    ) by {
                        assert(self@.valid_in(*engines));
                        assert(self@.variant->FunctionApplication_1[j] == cs[j]);
                    }
                    assert(cs.take(0) =~= Seq::<ExprV>::empty());
                }
                let n = arguments.len();
                let mut i: usize = 0;
                while i < n
                    invariant
                        i <= n,
                        n == arguments@.len(),
                        n == cs.len(),
                        cs == views_of(arguments@),
                        self.expression == (TyExpressionVariant::FunctionApplication {
                            decl_id: *decl_id,
                            arguments: *arguments,
                        }),
                        self@.variant == ExprVariantV::FunctionApplication(*decl_id, cs),
                        forall|j: int|
                            0 <= j < cs.len() ==> (#[trigger] cs[j]).valid_in(*engines),
                        state@ == fed + args_words(cs.take(i as int), *engines),
                    decreases n - i,
                {
                    proof {
                        assert(cs[i as int] == expr_view(arguments@[i as int]));
                        assert(decreases_to!(*self => arguments[i as int]));
                    }
                    arguments[i].hash(state, engines);
                    proof {
                        assert(cs.take(i + 1 as int).drop_last() =~= cs.take(i as int));
                        assert(cs.take(i + 1 as int).last() == cs[i as int]);
                    }
                    i += 1;
                }
                proof {
                    assert(cs.take(n as int) =~= cs);
                }
            },
        }
        proof {
            assert(final(state)@ =~= old(state)@ + self@.hash_words_spec(*engines));
        }
    }

    /// Rebuilds the expression with the substitution applied throughout.
    pub(crate) fn subst_built(e: &TyExpression, type_mapping: &TypeSubstMap, engines: &Engines) -> (r:
        TyExpression)
        requires
            e@.valid_in(*engines),
        ensures
            r@ == e@.subst_spec(*type_mapping, *engines),
        decreases *e,
    {
        let return_type = e.return_type.subst(type_mapping, engines);
        let expression = match &e.expression {
            TyExpressionVariant::Literal(v) => TyExpressionVariant::Literal(*v),
            TyExpressionVariant::ConstantReference { decl_id } =>
                TyExpressionVariant::ConstantReference { decl_id: *decl_id },
            TyExpressionVariant::FunctionApplication { decl_id, arguments } => {
                let ghost cs = views_of(arguments@);
                let n = arguments.len();
                let mut new_args: Vec<TyExpression> = Vec::new();
                let mut i: usize = 0;
                proof {
                    assert(e@.variant == ExprVariantV::FunctionApplication(*decl_id, cs));
                    assert forall|j: int| 0 <= j < cs.len() implies (#[trigger] cs[j]).valid_in(
                        *engines,
                    ) by {
                        assert(e@.valid_in(*engines));
                        assert(e@.variant->FunctionApplication_1[j] == cs[j]);
                    }
                }
                while i < n
                    invariant
                        i <= n,
                        n == arguments@.len(),
                        n == cs.len(),
                        cs == views_of(arguments@),
                        e.expression == (TyExpressionVariant::FunctionApplication {
                            decl_id: *decl_id,
                            arguments: *arguments,
                        }),
                        e@.variant == ExprVariantV::FunctionApplication(*decl_id, cs),
                        forall|j: int|
                            0 <= j < cs.len() ==> (#[trigger] cs[j]).valid_in(*engines),
                        new_args@.len() == i,
                        forall|j: int|
                            0 <= j < i ==> #[trigger] expr_view(new_args@[j]) == cs[j].subst_spec(
                                *type_mapping,
                                *engines,
                            ),
                    decreases n - i,
                {
                    proof {
                        assert(cs[i as int] == expr_view(arguments@[i as int]));
                        assert(decreases_to!(*e => arguments[i as int]));
                    }
                    let na = Self::subst_built(&arguments[i], type_mapping, engines);
                    new_args.push(na);
                    i += 1;
                }
                proof {
                    let target = subst_all(cs, *type_mapping, *engines);
                    assert forall|j: int| 0 <= j < cs.len() implies views_of(new_args@)[j]
                        == target[j] by {
                        assert(views_of(new_args@)[j] == expr_view(new_args@[j]));
                        assert(target[j] == cs[j].subst_spec(*type_mapping, *engines));
                    }
                    assert(views_of(new_args@) =~= target);
                }
                TyExpressionVariant::FunctionApplication { decl_id: *decl_id, arguments: new_args }
            },
        };
        let r = TyExpression { expression, return_type, span: e.span };
        proof {
            assert(r@ =~= e@.subst_spec(*type_mapping, *engines));
        }
        r
    }

    /// Rebuilds the expression with the self placeholder replaced throughout.
    pub(crate) fn replace_self_built(e: &TyExpression, engines: &Engines, self_type: TypeId) -> (r:
        TyExpression)
        requires
            e@.valid_in(*engines),
        ensures
            r@ == e@.replace_self_spec(self_type, *engines),
        decreases *e,
    {
        let return_type = e.return_type.replace_self(engines, self_type);
        let expression = match &e.expression {
            TyExpressionVariant::Literal(v) => TyExpressionVariant::Literal(*v),
            TyExpressionVariant::ConstantReference { decl_id } =>
                TyExpressionVariant::ConstantReference { decl_id: *decl_id },
            TyExpressionVariant::FunctionApplication { decl_id, arguments } => {
                let ghost cs = views_of(arguments@);
                let n = arguments.len();
                let mut new_args: Vec<TyExpression> = Vec::new();
                let mut i: usize = 0;
                proof {
                    assert(e@.variant == ExprVariantV::FunctionApplication(*decl_id, cs));
                    assert forall|j: int| 0 <= j < cs.len() implies (#[trigger] cs[j]).valid_in(
                        *engines,
                    ) by {
                        assert(e@.valid_in(*engines));
                        assert(e@.variant->FunctionApplication_1[j] == cs[j]);
                    }
                }
                while i < n
                    invariant
                        i <= n,
                        n == arguments@.len(),
                        n == cs.len(),
                        cs == views_of(arguments@),
                        e.expression == (TyExpressionVariant::FunctionApplication {
                            decl_id: *decl_id,
                            arguments: *arguments,
                        }),
                        e@.variant == ExprVariantV::FunctionApplication(*decl_id, cs),
                        forall|j: int|
                            0 <= j < cs.len() ==> (#[trigger] cs[j]).valid_in(*engines),
                        new_args@.len() == i,
                        forall|j: int|
                            0 <= j < i ==> #[trigger] expr_view(new_args@[j])
                                == cs[j].replace_self_spec(self_type, *engines),
                    decreases n - i,
                {
                    proof {
                        assert(cs[i as int] == expr_view(arguments@[i as int]));
                        assert(decreases_to!(*e => arguments[i as int]));
                    }
                    let na = Self::replace_self_built(&arguments[i], engines, self_type);
                    new_args.push(na);
                    i += 1;
                }
                proof {
                    let target = replace_self_all(cs, self_type, *engines);
                    assert forall|j: int| 0 <= j < cs.len() implies views_of(new_args@)[j]
                        == target[j] by {
                        assert(views_of(new_args@)[j] == expr_view(new_args@[j]));
                        assert(target[j] == cs[j].replace_self_spec(self_type, *engines));
                    }
                    assert(views_of(new_args@) =~= target);
                }
                TyExpressionVariant::FunctionApplication { decl_id: *decl_id, arguments: new_args }
            },
        };
        let r = TyExpression { expression, return_type, span: e.span };
        proof {
            assert(r@ =~= e@.replace_self_spec(self_type, *engines));
        }
        r
    }

    /// Rebuilds the expression with every declaration reference resolved, or
    /// reports the first reference that cannot be.
    pub(crate) fn replace_decls_built(
        e: &TyExpression,
        decl_mapping: &DeclMapping,
        engines: &Engines,
    ) -> (r: Result<TyExpression, DeclId>)
        requires
            e@.valid_in(*engines),
        ensures
            match r {
                Ok(e2) => e@.replace_decls_spec(*decl_mapping, *engines) == Ok::<ExprV, DeclId>(
                    e2@,
                ),
                Err(d) => e@.replace_decls_spec(*decl_mapping, *engines) == Err::<ExprV, DeclId>(d),
            },
            r matches Err(d) ==> d.0 < engines.decl_engine@.len(),
        decreases *e,
    {
        match &e.expression {
            TyExpressionVariant::Literal(v) => Ok(
                TyExpression {
                    expression: TyExpressionVariant::Literal(*v),
                    return_type: e.return_type,
                    span: e.span,
                },
            ),
            TyExpressionVariant::ConstantReference { decl_id } => {
                match resolve_ref(*decl_id, decl_mapping, engines) {
                    Err(d) => Err(d),
                    Ok(d2) => Ok(
                        TyExpression {
                            expression: TyExpressionVariant::ConstantReference { decl_id: d2 },
                            return_type: e.return_type,
                            span: e.span,
                        },
                    ),
                }
            },
            TyExpressionVariant::FunctionApplication { decl_id, arguments } => {
                let ghost cs = views_of(arguments@);
                proof {
                    assert(e@.variant == ExprVariantV::FunctionApplication(*decl_id, cs));
                }
                match resolve_ref(*decl_id, decl_mapping, engines) {
                    Err(d) => Err(d),
                    Ok(d2) => {
                        let n = arguments.len();
                        let mut new_args: Vec<TyExpression> = Vec::new();
                        let mut i: usize = 0;
                        proof {
                            assert forall|j: int|
                                0 <= j < cs.len() implies (#[trigger] cs[j]).valid_in(
                                *engines,
                            ) by {
                                assert(e@.valid_in(*engines));
                                assert(e@.variant->FunctionApplication_1[j] == cs[j]);
                            }
                            assert(cs.take(0) =~= Seq::<ExprV>::empty());
                            assert(views_of(new_args@) =~= Seq::<ExprV>::empty());
                        }
                        while i < n
                            invariant
                                i <= n,
                                n == arguments@.len(),
                                n == cs.len(),
                                cs == views_of(arguments@),
                                e.expression == (TyExpressionVariant::FunctionApplication {
                                    decl_id: *decl_id,
                                    arguments: *arguments,
                                }),
                                e@.variant == ExprVariantV::FunctionApplication(*decl_id, cs),
                                spec_resolve_ref(*decl_id, *decl_mapping, *engines) == Ok::<
                                    DeclId,
                                    DeclId,
                                >(d2),
                                forall|j: int|
                                    0 <= j < cs.len() ==> (#[trigger] cs[j]).valid_in(*engines),
                                replace_decls_args(cs.take(i as int), *decl_mapping, *engines)
                                    == Ok::<Seq<ExprV>, DeclId>(views_of(new_args@)),
                            decreases n - i,
                        {
                            proof {
                                assert(cs[i as int] == expr_view(arguments@[i as int]));
                                assert(decreases_to!(*e => arguments[i as int]));
                                assert(cs.take(i + 1 as int).drop_last() =~= cs.take(i as int));
                                assert(cs.take(i + 1 as int).last() == cs[i as int]);
                            }
                            match Self::replace_decls_built(&arguments[i], decl_mapping, engines) {
                                Err(d) => {
                                    proof {
                                        assert(replace_decls_args(
                                            cs.take(i + 1 as int),
                                            *decl_mapping,
                                            *engines,
                                        ) == Err::<Seq<ExprV>, DeclId>(d));
                                        lemma_replace_args_err_persists(
                                            cs,
                                            i + 1 as int,
                                            *decl_mapping,
                                            *engines,
                                        );
                                    }
                                    return Err(d);
                                },
                                Ok(na) => {
                                    proof {
                                        assert forall|j: int|
                                            0 <= j < new_args@.push(na).len() implies views_of(
                                            new_args@.push(na),
                                        )[j] == views_of(new_args@).push(na@)[j] by {
                                            if j < new_args@.len() {
                                                assert(new_args@.push(na)[j] == new_args@[j]);
                                            } else {
                                                assert(new_args@.push(na)[j] == na);
                                            }
                                        }
                                        assert(views_of(new_args@.push(na)) =~= views_of(
                                            new_args@,
                                        ).push(na@));
                                    }
                                    new_args.push(na);
                                },
                            }
                            i += 1;
                        }
                        proof {
                            assert(cs.take(n as int) =~= cs);
                        }
                        let r = TyExpression {
                            expression: TyExpressionVariant::FunctionApplication {
                                decl_id: d2,
                                arguments: new_args,
                            },
                            return_type: e.return_type,
                            span: e.span,
                        };
                        proof {
                            assert(e@.replace_decls_spec(*decl_mapping, *engines) == Ok::<
                                ExprV,
                                DeclId,
                            >(r@));
                        }
                        Ok(r)
                    },
                }
            },
        }
    }

    /// Type substitution, in place.
    pub fn subst(&mut self, type_mapping: &TypeSubstMap, engines: &Engines)
        requires
            old(self)@.valid_in(*engines),
        ensures
            final(self)@ == old(self)@.subst_spec(*type_mapping, *engines),
    {
        let r = Self::subst_built(self, type_mapping, engines);
        *self = r;
    }

    /// Self-type replacement, in place.
    pub fn replace_self_type(&mut self, engines: &Engines, self_type: TypeId)
        requires
            old(self)@.valid_in(*engines),
        ensures
            final(self)@ == old(self)@.replace_self_spec(self_type, *engines),
    {
        let r = Self::replace_self_built(self, engines, self_type);
        *self = r;
    }
}

} // verus!

//! The typed constant declaration node and its five context-threaded
//! protocols: equality-with-context, hash-with-context, type substitution,
//! self-type replacement and fallible declaration replacement.

use vstd::prelude::*;
use crate::context::TypeCheckContext;
use crate::decl_engine::{DeclId, DeclMapping};
use crate::engines::Engines;
use crate::expression::{expr_view, ExprV, TyDecl, TyExpression};
use crate::handler::{CompileError, ErrorEmitted, Handler};
use crate::hasher::FieldHasher;
use crate::language::{call_path_words, Attribute, CallPath, CallPathV, Ident, Span, Visibility};
use crate::type_system::{type_words, TypeArgument, TypeId, TypeInfo, TypeSubstMap};

verus! {

/// The mathematical model of a typed constant declaration.
#[verifier::ext_equal]
pub struct ConstantV {
    pub call_path: CallPathV,
    pub value: Option<ExprV>,
    pub visibility: Visibility,
    pub is_configurable: bool,
    pub attributes: Seq<Seq<char>>,
    pub return_type: TypeId,
    pub type_ascription: TypeArgument,
    pub span: Span,
    pub implementing_type: Option<TyDecl>,
}

/// A type-checked constant declaration. Created fully populated by the
/// type-checking phase; the substitution and replacement protocols mutate it
/// in place when a generic context is specialized.
#[derive(Debug)]
pub struct TyConstantDecl {
    pub call_path: CallPath,
    pub value: Option<TyExpression>,
    pub visibility: Visibility,
    pub is_configurable: bool,
    pub attributes: Vec<Attribute>,
    pub return_type: TypeId,
    pub type_ascription: TypeArgument,
    pub span: Span,
    pub implementing_type: Option<TyDecl>,
}

impl View for TyConstantDecl {
    type V = ConstantV;

    open spec fn view(&self) -> ConstantV {
        ConstantV {
            call_path: self.call_path@,
            value: match self.value {
                Some(e) => Some(expr_view(e)),
                None => None,
            },
            visibility: self.visibility,
            is_configurable: self.is_configurable,
            attributes: self.attributes@.map_values(|a: Attribute| a@),
            return_type: self.return_type,
            type_ascription: self.type_ascription,
            span: self.span,
            implementing_type: self.implementing_type,
        }
    }
}

/// The diagnostic raised when a reference cannot be resolved: the name the
/// interner records for the failing reference, attributed to the node's span.
pub open spec fn unresolvable_error(d: DeclId, span: Span, eng: Engines) -> CompileError {
    CompileError::UnresolvableDeclaration { name: eng.decl_of(d).name, span }
}

impl ConstantV {
    /// Every handle held by the node is resolvable in the engines.
    pub open spec fn valid_in(self, eng: Engines) -> bool {
        &&& self.return_type.valid_in(eng)
        &&& self.type_ascription.valid_in(eng)
        &&& match self.value {
            Some(e) => e.valid_in(eng),
            None => true,
        }
        &&& match self.implementing_type {
            Some(d) => d.valid_in(eng),
            None => true,
        }
    }

    /// Equality-with-context. Field-by-field comparison of the
    /// identity-relevant fields; `return_type` is compared by resolved
    /// structure, the initializer and the type ascription recursively through
    /// the same protocol. `attributes` and `span` are ignored. Two nodes both
    /// lacking an `implementing_type` are unequal by design: a free-standing
    /// constant is identified by declaration-table identity elsewhere, never
    /// by this structural protocol.
    pub open spec fn eq_spec(self, other: ConstantV, eng: Engines) -> bool {
        &&& self.call_path == other.call_path
        &&& match (self.value, other.value) {
            (None, None) => true,
            (Some(a), Some(b)) => a.eq_spec(b, eng),
            _ => false,
        }
        &&& self.visibility == other.visibility
        &&& self.type_ascription.eq_spec(other.type_ascription, eng)
        &&& self.is_configurable == other.is_configurable
        &&& eng.resolve(self.return_type) == eng.resolve(other.return_type)
        &&& match (self.implementing_type, other.implementing_type) {
            (Some(a), Some(b)) => a.eq_spec(b, eng),
            _ => false,
        }
    }

    /// Hash-with-context: exactly the identity-relevant fields, in a fixed
    /// field order, with `return_type` fed as its resolved structure. An
    /// absent `implementing_type` feeds nothing, which can only add
    /// collisions, never violate the hashing law, because two such nodes are
    /// never equal.
    pub open spec fn hash_words_spec(self, eng: Engines) -> Seq<u64> {
        call_path_words(self.call_path) + (match self.value {
            None => seq![0u64],
            Some(e) => seq![1u64] + e.hash_words_spec(eng),
        }) + seq![
            match self.visibility {
                Visibility::Private => 0u64,
                Visibility::Public => 1u64,
            },
        ] + type_words(eng.resolve(self.return_type)) + self.type_ascription.hash_words_spec(eng)
            + seq![if self.is_configurable { 1u64 } else { 0u64 }] + (
        match self.implementing_type {
            None => Seq::<u64>::empty(),
            Some(d) => d.hash_words_spec(eng),
        })
    }

    /// Type substitution on the model: `return_type`, `type_ascription` and
    /// every type reference inside the initializer are rewritten; nothing
    /// else changes.
    pub open spec fn subst_spec(self, m: TypeSubstMap, eng: Engines) -> ConstantV {
        ConstantV {
            return_type: self.return_type.subst_spec(m, eng),
            type_ascription: self.type_ascription.subst_spec(m, eng),
            value: match self.value {
                Some(e) => Some(e.subst_spec(m, eng)),
                None => None,
            },
            ..self
        }
    }

    /// Self-type replacement on the model.
    pub open spec fn replace_self_spec(self, self_type: TypeId, eng: Engines) -> ConstantV {
        ConstantV {
            return_type: self.return_type.replace_self_spec(self_type, eng),
            type_ascription: self.type_ascription.replace_self_spec(self_type, eng),
            value: match self.value {
                Some(e) => Some(e.replace_self_spec(self_type, eng)),
                None => None,
            },
            ..self
        }
    }

    /// Whether the reserved self placeholder occurs anywhere in the node.
    pub open spec fn contains_self_spec(self, eng: Engines) -> bool {
        ||| eng.resolve(self.return_type) == TypeInfo::SelfType
        ||| eng.resolve(self.type_ascription.type_id) == TypeInfo::SelfType
        ||| match self.value {
            Some(e) => e.contains_self_spec(eng),
            None => false,
        }
    }

    /// Declaration replacement on the model. Only the initializer carries
    /// declaration references; a node without one is untouched and always
    /// succeeds.
    pub open spec fn replace_decls_spec(self, m: DeclMapping, eng: Engines) -> Result<
        ConstantV,
        DeclId,
    > {
        match self.value {
            None => Ok(self),
            Some(e) => match e.replace_decls_spec(m, eng) {
                Ok(e2) => Ok(ConstantV { value: Some(e2), ..self }),
                Err(d) => Err(d),
            },
        }
    }
}

impl TyConstantDecl {
    /// The declared name: the final segment of the path.
    pub fn name(&self) -> (r: &Ident)
        ensures
            *r == self.call_path.suffix,
    {
        &self.call_path.suffix
    }

    /// Where the declaration was written.
    pub fn span(&self) -> (r: Span)
        ensures
            r == self.span,
    {
        self.span
    }

    /// Equality-with-context; see [`ConstantV::eq_spec`]. Read-only in the
    /// engines and deterministic.
    pub fn eq(&self, other: &Self, engines: &Engines) -> (r: bool)
        requires
            self@.valid_in(*engines),
            other@.valid_in(*engines),
        ensures
            r == self@.eq_spec(other@, *engines),
    {
        let type_engine = engines.te();
        if !self.call_path.equals(&other.call_path) {
            return false;
        }
        let value_eq = match (&self.value, &other.value) {
            (None, None) => true,
            (Some(a), Some(b)) => a.equals(b, engines),
            _ => false,
        };
        if !value_eq {
            return false;
        }
        if self.visibility != other.visibility {
            return false;
        }
        if !self.type_ascription.equals(&other.type_ascription, engines) {
            return false;
        }
        if self.is_configurable != other.is_configurable {
            return false;
        }
        if type_engine.get(self.return_type) != type_engine.get(other.return_type) {
            return false;
        }
        match (&self.implementing_type, &other.implementing_type) {
            (Some(a), Some(b)) => a.equals(b, engines),
            _ => false,
        }
    }

    /// Hash-with-context; see [`ConstantV::hash_words_spec`].
    #[verifier::rlimit(50)]
    pub fn hash(&self, state: &mut FieldHasher, engines: &Engines)
        requires
            self@.valid_in(*engines),
        ensures
            final(state)@ == old(state)@ + self@.hash_words_spec(*engines),
    {
        let type_engine = engines.te();
        self.call_path.hash(state);
        match &self.value {
            None => state.write_u64(0),
            Some(e) => {
                state.write_u64(1);
                e.hash(state, engines);
            },
        }
        match self.visibility {
            Visibility::Private => state.write_u64(0),
            Visibility::Public => state.write_u64(1),
        }
        crate::type_system::hash_type_info(type_engine.get(self.return_type), state);
        self.type_ascription.hash(state, engines);
        state.write_bool(self.is_configurable);
        match &self.implementing_type {
            None => (),
            Some(d) => d.hash(state, engines),
        }
        proof {
            assert(final(state)@ =~= old(state)@ + self@.hash_words_spec(*engines));
        }
    }

    /// Type substitution, in place; see [`ConstantV::subst_spec`].
    pub fn subst_inner(&mut self, type_mapping: &TypeSubstMap, engines: &Engines)
        requires
            old(self)@.valid_in(*engines),
        ensures
            final(self)@ == old(self)@.subst_spec(*type_mapping, *engines),
    {
        self.return_type = self.return_type.subst(type_mapping, engines);
        self.type_ascription.subst(type_mapping, engines);
        match &mut self.value {
            Some(expr) => expr.subst(type_mapping, engines),
            None => (),
        }
        proof {
            assert(self@ =~= old(self)@.subst_spec(*type_mapping, *engines));
        }
    }

    /// Type substitution, in place, skipping the walk when the mapping is
    /// empty; the result is the same either way.
    pub fn subst(&mut self, type_mapping: &TypeSubstMap, engines: &Engines)
        requires
            old(self)@.valid_in(*engines),
        ensures
            final(self)@ == old(self)@.subst_spec(*type_mapping, *engines),
    {
        if !type_mapping.is_empty() {
            self.subst_inner(type_mapping, engines);
        } else {
            proof {
                crate::laws::lemma_substitute_empty_identity(self@, *type_mapping, *engines);
            }
        }
    }

    /// Self-type replacement, in place; see [`ConstantV::replace_self_spec`].
    pub fn replace_self_type(&mut self, engines: &Engines, self_type: TypeId)
        requires
            old(self)@.valid_in(*engines),
        ensures
            final(self)@ == old(self)@.replace_self_spec(self_type, *engines),
    {
        self.return_type = self.return_type.replace_self(engines, self_type);
        self.type_ascription.replace_self_type(engines, self_type);
        match &mut self.value {
            Some(expr) => expr.replace_self_type(engines, self_type),
            None => (),
        }
        proof {
            assert(self@ =~= old(self)@.replace_self_spec(self_type, *engines));
        }
    }

    /// Declaration replacement, in place. On success the initializer is
    /// rewritten and no diagnostic is emitted. On failure the node is left
    /// untouched, exactly one diagnostic naming the first unresolvable
    /// reference is reported through the handler, and the proof-of-report
    /// token is returned for the caller to propagate instead of re-reporting.
    pub fn replace_decls_inner(
        &mut self,
        decl_mapping: &DeclMapping,
        handler: &mut Handler,
        ctx: &TypeCheckContext,
    ) -> (r: Result<(), ErrorEmitted>)
        requires
            old(self)@.valid_in(*ctx.engines),
        ensures
            match r {
                Ok(_) => {
                    &&& old(self)@.replace_decls_spec(*decl_mapping, *ctx.engines) == Ok::<
                        ConstantV,
                        DeclId,
                    >(final(self)@)
                    &&& final(handler)@ == old(handler)@
                },
                Err(_) => {
                    &&& old(self)@.replace_decls_spec(*decl_mapping, *ctx.engines) is Err
                    &&& *final(self) == *old(self)
                    &&& final(handler)@ == old(handler)@.push(
                        unresolvable_error(
                            old(self)@.replace_decls_spec(*decl_mapping, *ctx.engines)->Err_0,
                            old(self).span,
                            *ctx.engines,
                        ),
                    )
                },
            },
    {
        match &self.value {
            None => Ok(()),
            Some(expr) => {
                proof {
                    assert(old(self)@.value == Some(expr_view(*expr)));
                    assert(expr_view(*expr).valid_in(*ctx.engines));
                }
                match TyExpression::replace_decls_built(expr, decl_mapping, ctx.engines()) {
                    Ok(e2) => {
                        self.value = Some(e2);
                        proof {
                            assert(old(self)@.replace_decls_spec(*decl_mapping, *ctx.engines)
                                =~= Ok::<ConstantV, DeclId>(self@));
                        }
                        Ok(())
                    },
                    Err(d) => {
                        let info = ctx.engines().de().get(d);
                        let err = CompileError::UnresolvableDeclaration {
                            name: Ident { name: info.name.name.clone(), span: info.name.span },
                            span: self.span,
                        };
                        let token = handler.emit_err(err);
                        Err(token)
                    },
                }
            },
        }
    }
}

} // verus!

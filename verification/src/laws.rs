//! The laws the protocols obey, proved over the models that the executable
//! contracts are stated against.

use vstd::prelude::*;
use crate::constant::ConstantV;
use crate::decl_engine::{DeclId, DeclMapping};
use crate::engines::Engines;
use crate::expression::{args_words, replace_self_all, subst_all, ExprV, ExprVariantV};
use crate::type_system::{is_composition, lookup_entries, mapped_entries, TypeId, TypeInfo, TypeSubstMap};

verus! {

/// Expression equality-with-context is reflexive.
pub proof fn lemma_expr_eq_reflexive(a: ExprV, eng: Engines)
    ensures
        a.eq_spec(a, eng),
    decreases a,
{
    match a.variant {
        ExprVariantV::FunctionApplication(d, children) => {
            assert forall|i: int| 0 <= i < children.len() implies (#[trigger] children[i]).eq_spec(
                children[i],
                eng,
            ) by {
                lemma_expr_eq_reflexive(children[i], eng);
            }
        },
        _ => (),
    }
}

/// Expression equality-with-context is symmetric.
pub proof fn lemma_expr_eq_symmetric(a: ExprV, b: ExprV, eng: Engines)
    ensures
        a.eq_spec(b, eng) == b.eq_spec(a, eng),
    decreases a,
{
    match (a.variant, b.variant) {
        (ExprVariantV::FunctionApplication(d1, xs), ExprVariantV::FunctionApplication(d2, ys)) => {
            assert forall|i: int| 0 <= i < xs.len() && i < ys.len() implies (#[trigger] xs[i]).eq_spec(ys[i], eng) == ys[i].eq_spec(xs[i], eng) by {
                lemma_expr_eq_symmetric(xs[i], ys[i], eng);
            }
            if xs.len() == ys.len() {
                assert((forall|i: int| 0 <= i < xs.len() ==> (#[trigger] xs[i]).eq_spec(ys[i], eng))
                    == (forall|i: int|
                    0 <= i < ys.len() ==> (#[trigger] ys[i]).eq_spec(xs[i], eng)));
            }
        },
        _ => (),
    }
}

/// Expression equality-with-context is transitive.
pub proof fn lemma_expr_eq_transitive(a: ExprV, b: ExprV, c: ExprV, eng: Engines)
    requires
        a.eq_spec(b, eng),
        b.eq_spec(c, eng),
    ensures
        a.eq_spec(c, eng),
    decreases a,
{
    match (a.variant, b.variant, c.variant) {
        (
            ExprVariantV::FunctionApplication(d1, xs),
            ExprVariantV::FunctionApplication(d2, ys),
            ExprVariantV::FunctionApplication(d3, zs),
        ) => {
            assert forall|i: int| 0 <= i < xs.len() implies (#[trigger] xs[i]).eq_spec(
                zs[i],
                eng,
            ) by {
                assert(xs[i].eq_spec(ys[i], eng));
                assert(ys[i].eq_spec(zs[i], eng));
                lemma_expr_eq_transitive(xs[i], ys[i], zs[i], eng);
            }
        },
        _ => (),
    }
}

/// Argument lists that are pairwise equal feed the same words.
pub proof fn lemma_args_words_eq(xs: Seq<ExprV>, ys: Seq<ExprV>, eng: Engines)
    requires
        xs.len() == ys.len(),
        forall|i: int| 0 <= i < xs.len() ==> (#[trigger] xs[i]).eq_spec(ys[i], eng),
    ensures
        args_words(xs, eng) == args_words(ys, eng),
    decreases xs,
{
    if xs.len() > 0 {
        assert(xs.last().eq_spec(ys.last(), eng));
        lemma_expr_eq_hash(xs.last(), ys.last(), eng);
        assert forall|i: int| 0 <= i < xs.drop_last().len() implies (#[trigger] xs.drop_last()[i]).eq_spec(ys.drop_last()[i], eng) by {
            assert(xs.drop_last()[i] == xs[i]);
            assert(ys.drop_last()[i] == ys[i]);
            assert(xs[i].eq_spec(ys[i], eng));
        }
        lemma_args_words_eq(xs.drop_last(), ys.drop_last(), eng);
    }
}

/// Equal expressions feed the same words.
pub proof fn lemma_expr_eq_hash(a: ExprV, b: ExprV, eng: Engines)
    requires
        a.eq_spec(b, eng),
    ensures
        a.hash_words_spec(eng) == b.hash_words_spec(eng),
    decreases a,
{
    match (a.variant, b.variant) {
        (ExprVariantV::FunctionApplication(d1, xs), ExprVariantV::FunctionApplication(d2, ys)) => {
            lemma_args_words_eq(xs, ys, eng);
        },
        _ => (),
    }
}

/// Substitution with the empty mapping leaves an expression unchanged.
pub proof fn lemma_expr_subst_empty(e: ExprV, m: TypeSubstMap, eng: Engines)
    requires
        m.entries@.len() == 0,
    ensures
        e.subst_spec(m, eng) == e,
    decreases e,
{
    match e.variant {
        ExprVariantV::FunctionApplication(d, children) => {
            assert forall|i: int| 0 <= i < children.len() implies (#[trigger] children[i]).subst_spec(m, eng) == children[i] by {
                lemma_expr_subst_empty(children[i], m, eng);
            }
            assert(subst_all(children, m, eng) =~= children);
            assert(e.subst_spec(m, eng) =~= e);
        },
        _ => {
            assert(e.subst_spec(m, eng) =~= e);
        },
    }
}

/// Looking a parameter up in a concatenation: the right-hand entries win.
pub proof fn lemma_lookup_concat(s1: Seq<(u64, TypeId)>, s2: Seq<(u64, TypeId)>, p: u64)
    ensures
        lookup_entries(s1 + s2, p) == (match lookup_entries(s2, p) {
            Some(t) => Some(t),
            None => lookup_entries(s1, p),
        }),
    decreases s2.len(),
{
    if s2.len() == 0 {
        assert(s1 + s2 =~= s1);
    } else {
        assert((s1 + s2).last() == s2.last());
        assert((s1 + s2).drop_last() =~= s1 + s2.drop_last());
        lemma_lookup_concat(s1, s2.drop_last(), p);
    }
}

/// Looking a parameter up among mapped entries: the keys are unchanged and
/// the targets carry the second substitution.
pub proof fn lemma_lookup_mapped(
    s: Seq<(u64, TypeId)>,
    second: TypeSubstMap,
    eng: Engines,
    p: u64,
)
    ensures
        lookup_entries(mapped_entries(s, second, eng), p) == (match lookup_entries(s, p) {
            Some(t) => Some(t.subst_spec(second, eng)),
            None => None,
        }),
    decreases s.len(),
{
    if s.len() == 0 {
        assert(mapped_entries(s, second, eng) =~= Seq::<(u64, TypeId)>::empty());
    } else {
        assert(mapped_entries(s, second, eng).last() == (s.last().0,
        s.last().1.subst_spec(second, eng)));
        assert(mapped_entries(s, second, eng).drop_last() =~= mapped_entries(
            s.drop_last(),
            second,
            eng,
        ));
        lemma_lookup_mapped(s.drop_last(), second, eng, p);
    }
}

/// Substituting one handle under `first` and then `second` is substituting it
/// once under their composition.
pub proof fn lemma_type_subst_composes(
    t: TypeId,
    first: TypeSubstMap,
    second: TypeSubstMap,
    mc: TypeSubstMap,
    eng: Engines,
)
    requires
        is_composition(mc, first, second, eng),
    ensures
        t.subst_spec(first, eng).subst_spec(second, eng) == t.subst_spec(mc, eng),
{
    match eng.resolve(t) {
        TypeInfo::Placeholder(p) => {
            lemma_lookup_concat(second.entries@, mapped_entries(first.entries@, second, eng), p);
            lemma_lookup_mapped(first.entries@, second, eng, p);
        },
        _ => (),
    }
}

/// Substituting an expression under `first` and then `second` is substituting
/// it once under their composition.
pub proof fn lemma_expr_subst_composes(
    e: ExprV,
    first: TypeSubstMap,
    second: TypeSubstMap,
    mc: TypeSubstMap,
    eng: Engines,
)
    requires
        is_composition(mc, first, second, eng),
    ensures
        e.subst_spec(first, eng).subst_spec(second, eng) == e.subst_spec(mc, eng),
    decreases e,
{
    lemma_type_subst_composes(e.return_type, first, second, mc, eng);
    match e.variant {
        ExprVariantV::FunctionApplication(d, children) => {
            let once = subst_all(children, first, eng);
            assert forall|i: int| 0 <= i < children.len() implies (#[trigger] once[i]).subst_spec(
                second,
                eng,
            ) == children[i].subst_spec(mc, eng) by {
                assert(once[i] == children[i].subst_spec(first, eng));
                lemma_expr_subst_composes(children[i], first, second, mc, eng);
            }
            assert(subst_all(once, second, eng) =~= subst_all(children, mc, eng));
            assert(e.subst_spec(first, eng).subst_spec(second, eng) =~= e.subst_spec(mc, eng));
        },
        _ => {
            assert(e.subst_spec(first, eng).subst_spec(second, eng) =~= e.subst_spec(mc, eng));
        },
    }
}

/// Self-type replacement leaves an expression unchanged when the placeholder
/// does not occur in it.
pub proof fn lemma_expr_replace_self_absent(e: ExprV, t: TypeId, eng: Engines)
    requires
        !e.contains_self_spec(eng),
    ensures
        e.replace_self_spec(t, eng) == e,
    decreases e,
{
    match e.variant {
        ExprVariantV::FunctionApplication(d, children) => {
            assert forall|i: int| 0 <= i < children.len() implies (#[trigger] children[i]).replace_self_spec(t, eng) == children[i] by {
                assert(!children[i].contains_self_spec(eng));
                lemma_expr_replace_self_absent(children[i], t, eng);
            }
            assert(replace_self_all(children, t, eng) =~= children);
            assert(e.replace_self_spec(t, eng) =~= e);
        },
        _ => {
            assert(e.replace_self_spec(t, eng) =~= e);
        },
    }
}

/// Equality-with-context is reflexive on every node that carries an
/// implementing type. A free-standing node is never equal even to itself,
/// by the documented design of the protocol.
pub proof fn lemma_equals_reflexive(n: ConstantV, eng: Engines)
    requires
        n.implementing_type is Some,
    ensures
        n.eq_spec(n, eng),
{
    match n.value {
        Some(e) => lemma_expr_eq_reflexive(e, eng),
        None => (),
    }
}

/// Equality-with-context is symmetric.
pub proof fn lemma_equals_symmetric(a: ConstantV, b: ConstantV, eng: Engines)
    ensures
        a.eq_spec(b, eng) == b.eq_spec(a, eng),
{
    match (a.value, b.value) {
        (Some(x), Some(y)) => lemma_expr_eq_symmetric(x, y, eng),
        _ => (),
    }
}

/// Equality-with-context is transitive.
pub proof fn lemma_equals_transitive(a: ConstantV, b: ConstantV, c: ConstantV, eng: Engines)
    requires
        a.eq_spec(b, eng),
        b.eq_spec(c, eng),
    ensures
        a.eq_spec(c, eng),
{
    match (a.value, b.value, c.value) {
        (Some(x), Some(y), Some(z)) => lemma_expr_eq_transitive(x, y, z, eng),
        _ => (),
    }
}

/// Equal nodes feed the same words, so they hash identically under any
/// hasher driven by the fed stream.
pub proof fn lemma_equals_implies_hash_eq(a: ConstantV, b: ConstantV, eng: Engines)
    requires
        a.eq_spec(b, eng),
    ensures
        a.hash_words_spec(eng) == b.hash_words_spec(eng),
{
    match (a.value, b.value) {
        (Some(x), Some(y)) => lemma_expr_eq_hash(x, y, eng),
        _ => (),
    }
}

/// Two nodes agreeing on every identity-relevant field are equal (when they
/// carry an implementing type) and hash identically, whatever their
/// `attributes` and `span` hold: provenance never affects identity.
pub proof fn lemma_provenance_irrelevant(a: ConstantV, b: ConstantV, eng: Engines)
    requires
        a.call_path == b.call_path,
        a.value == b.value,
        a.visibility == b.visibility,
        a.is_configurable == b.is_configurable,
        a.return_type == b.return_type,
        a.type_ascription == b.type_ascription,
        a.implementing_type == b.implementing_type,
    ensures
        a.hash_words_spec(eng) == b.hash_words_spec(eng),
        a.implementing_type is Some ==> a.eq_spec(b, eng),
{
    match a.value {
        Some(e) => lemma_expr_eq_reflexive(e, eng),
        None => (),
    }
}

/// A free-standing constant is never equal to another free-standing constant,
/// whatever the other fields hold.
pub proof fn lemma_freestanding_never_equal(a: ConstantV, b: ConstantV, eng: Engines)
    requires
        a.implementing_type is None || b.implementing_type is None,
    ensures
        !a.eq_spec(b, eng),
{
}

/// Substitution with the empty mapping is the identity transform.
pub proof fn lemma_substitute_empty_identity(n: ConstantV, m: TypeSubstMap, eng: Engines)
    requires
        m.entries@.len() == 0,
    ensures
        n.subst_spec(m, eng) == n,
{
    match n.value {
        Some(e) => lemma_expr_subst_empty(e, m, eng),
        None => (),
    }
    assert(n.subst_spec(m, eng) =~= n);
}

/// Substituting under `first` and then `second` rewrites a node exactly as
/// substituting once under their composition.
pub proof fn lemma_substitute_composes(
    n: ConstantV,
    first: TypeSubstMap,
    second: TypeSubstMap,
    mc: TypeSubstMap,
    eng: Engines,
)
    requires
        is_composition(mc, first, second, eng),
    ensures
        n.subst_spec(first, eng).subst_spec(second, eng) == n.subst_spec(mc, eng),
{
    lemma_type_subst_composes(n.return_type, first, second, mc, eng);
    lemma_type_subst_composes(n.type_ascription.type_id, first, second, mc, eng);
    match n.value {
        Some(e) => lemma_expr_subst_composes(e, first, second, mc, eng),
        None => (),
    }
    assert(n.subst_spec(first, eng).subst_spec(second, eng) =~= n.subst_spec(mc, eng));
}

/// Self-type replacement is a no-op when the placeholder is absent from the
/// node.
pub proof fn lemma_replace_self_absent_identity(
    n: ConstantV,
    t: TypeId,
    eng: Engines,
)
    requires
        !n.contains_self_spec(eng),
    ensures
        n.replace_self_spec(t, eng) == n,
{
    match n.value {
        Some(e) => lemma_expr_replace_self_absent(e, t, eng),
        None => (),
    }
    assert(n.replace_self_spec(t, eng) =~= n);
}

/// Declaration replacement on a node without an initializer always succeeds
/// and never mutates the node.
pub proof fn lemma_replace_decls_no_value(
    n: ConstantV,
    m: DeclMapping,
    eng: Engines,
)
    requires
        n.value is None,
    ensures
        n.replace_decls_spec(m, eng) == Ok::<ConstantV, DeclId>(n),
{
}

} // verus!

//! The type interner and the handles into it, together with substitution
//! mappings over abstract type parameters.

use vstd::prelude::*;
use crate::engines::Engines;
use crate::language::Span;

verus! {

/// A handle into the type interner. Raw handle equality is never meaningful:
/// two different handles may describe the same type, so every comparison
/// resolves through the interner first.
#[derive(Clone, Copy, PartialEq, Eq, Structural, Debug)]
pub struct TypeId(pub usize);

/// The structural description a type handle resolves to.
#[derive(Clone, Copy, PartialEq, Eq, Structural, Debug)]
pub enum TypeInfo {
    Boolean,
    /// An unsigned integer of the given bit width.
    UnsignedInteger(u32),
    Unit,
    /// An abstract type parameter, identified independently of any handle.
    Placeholder(u64),
    /// The reserved placeholder for the implementing type inside a trait or
    /// impl body.
    SelfType,
}

/// The words a resolved structural description feeds for hashing.
pub open spec fn type_words(info: TypeInfo) -> Seq<u64> {
    match info {
        TypeInfo::Boolean => seq![0u64],
        TypeInfo::UnsignedInteger(w) => seq![1u64, w as u64],
        TypeInfo::Unit => seq![2u64],
        TypeInfo::Placeholder(p) => seq![3u64, p],
        TypeInfo::SelfType => seq![4u64],
    }
}

/// The type interner: an append-only table of structural descriptions.
/// Structurally identical descriptions may sit behind different handles;
/// resolving is read-only and stable for a handle's lifetime.
pub struct TypeEngine {
    types: Vec<TypeInfo>,
}

impl View for TypeEngine {
    type V = Seq<TypeInfo>;

    closed spec fn view(&self) -> Seq<TypeInfo> {
        self.types@
    }
}

impl TypeEngine {
    pub fn new() -> (r: TypeEngine)
        ensures
            r@ == Seq::<TypeInfo>::empty(),
    {
        TypeEngine { types: Vec::new() }
    }

    /// Interns a description, returning a fresh handle. Never deduplicates:
    /// interning the same description twice gives two distinct handles that
    /// must still compare equal through the protocol.
    pub fn insert(&mut self, info: TypeInfo) -> (id: TypeId)
        ensures
            final(self)@ == old(self)@.push(info),
            id.0 == old(self)@.len(),
    {
        let id = TypeId(self.types.len());
        self.types.push(info);
        id
    }

    /// Resolves a handle. Read-only.
    pub fn get(&self, id: TypeId) -> (r: TypeInfo)
        requires
            id.0 < self@.len(),
        ensures
            r == self@[id.0 as int],
    {
        self.types[id.0]
    }

    pub fn len(&self) -> (n: usize)
        ensures
            n == self@.len(),
    {
        self.types.len()
    }
}

/// Last-wins lookup over a list of (parameter identity, handle) entries.
pub open spec fn lookup_entries(s: Seq<(u64, TypeId)>, p: u64) -> Option<TypeId>
    decreases s.len(),
{
    if s.len() == 0 {
        None
    } else if s.last().0 == p {
        Some(s.last().1)
    } else {
        lookup_entries(s.drop_last(), p)
    }
}

/// A substitution mapping from abstract type-parameter identity to concrete
/// type handle. When one parameter occurs twice the later entry wins.
#[derive(Clone, Debug)]
pub struct TypeSubstMap {
    pub entries: Vec<(u64, TypeId)>,
}

impl TypeSubstMap {
    pub open spec fn spec_lookup(self, p: u64) -> Option<TypeId> {
        lookup_entries(self.entries@, p)
    }

    /// Every handle the mapping can substitute in is resolvable.
    pub open spec fn valid_in(self, eng: Engines) -> bool {
        forall|i: int|
            0 <= i < self.entries@.len() ==> (#[trigger] self.entries@[i]).1.valid_in(eng)
    }

    pub fn new() -> (r: TypeSubstMap)
        ensures
            r.entries@ == Seq::<(u64, TypeId)>::empty(),
    {
        TypeSubstMap { entries: Vec::new() }
    }

    pub fn insert(&mut self, p: u64, t: TypeId)
        ensures
            final(self).entries@ == old(self).entries@.push((p, t)),
    {
        self.entries.push((p, t));
    }

    pub fn is_empty(&self) -> (r: bool)
        ensures
            r == (self.entries@.len() == 0),
    {
        self.entries.len() == 0
    }

    pub fn lookup(&self, p: u64) -> (r: Option<TypeId>)
        ensures
            r == self.spec_lookup(p),
    {
        let mut i: usize = self.entries.len();
        proof {
            assert(self.entries@.take(self.entries@.len() as int) =~= self.entries@);
        }
        while i > 0
            invariant
                i <= self.entries@.len(),
                lookup_entries(self.entries@, p) == lookup_entries(
                    self.entries@.take(i as int),
                    p,
                ),
            decreases i,
        {
            i = i - 1;
            let e = self.entries[i];
            proof {
                assert(self.entries@.take(i + 1 as int).last() == e);
                assert(self.entries@.take(i + 1 as int).drop_last() =~= self.entries@.take(
                    i as int,
                ));
            }
            if e.0 == p {
                return Some(e.1);
            }
        }
        None
    }
}

impl TypeId {
    /// The handle points at an entry of the interner.
    pub open spec fn valid_in(self, eng: Engines) -> bool {
        self.0 < eng.type_engine@.len()
    }

    /// What substitution does to one handle: a handle that resolves to a
    /// parameter present in the mapping becomes the mapped handle; any other
    /// handle is untouched.
    pub open spec fn subst_spec(self, m: TypeSubstMap, eng: Engines) -> TypeId {
        match eng.resolve(self) {
            TypeInfo::Placeholder(p) => match m.spec_lookup(p) {
                Some(t) => t,
                None => self,
            },
            _ => self,
        }
    }

    /// What self-type replacement does to one handle: a handle that resolves
    /// to the reserved self placeholder becomes the concrete self handle.
    pub open spec fn replace_self_spec(self, self_type: TypeId, eng: Engines) -> TypeId {
        if eng.resolve(self) == TypeInfo::SelfType {
            self_type
        } else {
            self
        }
    }

    pub fn subst(self, type_mapping: &TypeSubstMap, engines: &Engines) -> (r: TypeId)
        requires
            self.valid_in(*engines),
        ensures
            r == self.subst_spec(*type_mapping, *engines),
    {
        match engines.te().get(self) {
            TypeInfo::Placeholder(p) => match type_mapping.lookup(p) {
                Some(t) => t,
                None => self,
            },
            _ => self,
        }
    }

    pub fn replace_self(self, engines: &Engines, self_type: TypeId) -> (r: TypeId)
        requires
            self.valid_in(*engines),
        ensures
            r == self.replace_self_spec(self_type, *engines),
    {
        if engines.te().get(self) == TypeInfo::SelfType {
            self_type
        } else {
            self
        }
    }
}

/// The full type argument as written by the user: a handle plus the span of
/// the ascription. Its identity is the resolved structure of the handle.
#[derive(Clone, Copy, PartialEq, Eq, Structural, Debug)]
pub struct TypeArgument {
    pub type_id: TypeId,
    pub span: Span,
}

impl TypeArgument {
    pub open spec fn valid_in(self, eng: Engines) -> bool {
        self.type_id.valid_in(eng)
    }

    /// Identity of a type argument: the resolved structural descriptions
    /// agree; the ascription spans and the raw handle values do not matter.
    pub open spec fn eq_spec(self, other: TypeArgument, eng: Engines) -> bool {
        eng.resolve(self.type_id) == eng.resolve(other.type_id)
    }

    pub open spec fn hash_words_spec(self, eng: Engines) -> Seq<u64> {
        type_words(eng.resolve(self.type_id))
    }

    pub open spec fn subst_spec(self, m: TypeSubstMap, eng: Engines) -> TypeArgument {
        TypeArgument { type_id: self.type_id.subst_spec(m, eng), span: self.span }
    }

    pub open spec fn replace_self_spec(self, self_type: TypeId, eng: Engines) -> TypeArgument {
        TypeArgument { type_id: self.type_id.replace_self_spec(self_type, eng), span: self.span }
    }

    pub fn equals(&self, other: &TypeArgument, engines: &Engines) -> (r: bool)
        requires
            self.valid_in(*engines),
            other.valid_in(*engines),
        ensures
            r == self.eq_spec(*other, *engines),
    {
        engines.te().get(self.type_id) == engines.te().get(other.type_id)
    }

    pub fn hash(&self, state: &mut crate::hasher::FieldHasher, engines: &Engines)
        requires
            self.valid_in(*engines),
        ensures
            final(state)@ == old(state)@ + self.hash_words_spec(*engines),
    {
        hash_type_info(engines.te().get(self.type_id), state);
    }

    pub fn subst(&mut self, type_mapping: &TypeSubstMap, engines: &Engines)
        requires
            old(self).valid_in(*engines),
        ensures
            *final(self) == old(self).subst_spec(*type_mapping, *engines),
    {
        self.type_id = self.type_id.subst(type_mapping, engines);
    }

    pub fn replace_self_type(&mut self, engines: &Engines, self_type: TypeId)
        requires
            old(self).valid_in(*engines),
        ensures
            *final(self) == old(self).replace_self_spec(self_type, *engines),
    {
        self.type_id = self.type_id.replace_self(engines, self_type);
    }
}

/// Feeds the words of one resolved structural description.
pub fn hash_type_info(info: TypeInfo, state: &mut crate::hasher::FieldHasher)
    ensures
        final(state)@ == old(state)@ + type_words(info),
{
    match info {
        TypeInfo::Boolean => state.write_u64(0),
        TypeInfo::UnsignedInteger(w) => {
            state.write_u64(1);
            state.write_u64(w as u64);
        },
        TypeInfo::Unit => state.write_u64(2),
        TypeInfo::Placeholder(p) => {
            state.write_u64(3);
            state.write_u64(p);
        },
        TypeInfo::SelfType => state.write_u64(4),
    }
    proof {
        assert(final(state)@ =~= old(state)@ + type_words(info));
    }
}


/// The entries of a substitution with a second substitution already applied
/// to every target handle. The range guard keeps the definition total; an
/// out-of-range index never arises.
pub open spec fn mapped_entries(
    s: Seq<(u64, TypeId)>,
    second: TypeSubstMap,
    eng: Engines,
) -> Seq<(u64, TypeId)> {
    Seq::new(
        s.len(),
        |i: int|
            if 0 <= i < s.len() {
                (s[i].0, s[i].1.subst_spec(second, eng))
            } else {
                s[i]
            },
    )
}

/// What it means for `mc` to be the composition of applying `first` and then
/// `second`: it holds `second`'s entries, overridden by `first`'s entries
/// with `second` already applied to their targets.
pub open spec fn is_composition(
    mc: TypeSubstMap,
    first: TypeSubstMap,
    second: TypeSubstMap,
    eng: Engines,
) -> bool {
    mc.entries@ == second.entries@ + mapped_entries(first.entries@, second, eng)
}

impl TypeSubstMap {
    /// Builds the composition of two substitutions: applying the result once
    /// rewrites a node exactly as applying `self` and then `second` would.
    pub fn compose(&self, second: &TypeSubstMap, engines: &Engines) -> (r: TypeSubstMap)
        requires
            self.valid_in(*engines),
        ensures
            is_composition(r, *self, *second, *engines),
    {
        let mut entries: Vec<(u64, TypeId)> = Vec::new();
        let n2 = second.entries.len();
        let mut i: usize = 0;
        while i < n2
            invariant
                i <= n2,
                n2 == second.entries@.len(),
                entries@ == second.entries@.take(i as int),
            decreases n2 - i,
        {
            let e = second.entries[i];
            entries.push(e);
            proof {
                assert(second.entries@.take(i + 1 as int) =~= second.entries@.take(
                    i as int,
                ).push(second.entries@[i as int]));
            }
            i += 1;
        }
        proof {
            assert(second.entries@.take(n2 as int) =~= second.entries@);
        }
        let n1 = self.entries.len();
        let mut j: usize = 0;
        while j < n1
            invariant
                j <= n1,
                n1 == self.entries@.len(),
                self.valid_in(*engines),
                entries@.len() == n2 + j,
                n2 == second.entries@.len(),
                forall|k: int| 0 <= k < n2 ==> entries@[k] == second.entries@[k],
                forall|k: int|
                    0 <= k < j ==> entries@[n2 + k] == (#[trigger] (self.entries@[k]).0,
                    self.entries@[k].1.subst_spec(*second, *engines)),
            decreases n1 - j,
        {
            let e = self.entries[j];
            proof {
                assert((self.entries@[j as int]).1.valid_in(*engines));
            }
            let t2 = e.1.subst(second, engines);
            entries.push((e.0, t2));
            j += 1;
        }
        let r = TypeSubstMap { entries };
        proof {
            assert(r.entries@ =~= second.entries@ + mapped_entries(
                self.entries@,
                *second,
                *engines,
            ));
        }
        r
    }
}

} // verus!

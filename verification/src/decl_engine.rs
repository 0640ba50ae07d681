//! The declaration interner and the mapping that declaration replacement
//! applies to abstract references.

use vstd::prelude::*;
use crate::engines::Engines;
use crate::hasher::{str_words, FieldHasher};
use crate::language::Ident;

verus! {

/// A handle into the declaration interner. As with type handles, raw handle
/// equality means nothing: comparisons resolve through the interner.
#[derive(Clone, Copy, PartialEq, Eq, Structural, Debug)]
pub struct DeclId(pub usize);

/// What the declaration interner records about an entry, at the grain this
/// protocol reads it: the declared name, and whether the entry is still an
/// abstract (first-pass) reference awaiting a concrete resolved body.
#[derive(Clone, Debug)]
pub struct DeclInfo {
    pub name: Ident,
    pub is_abstract: bool,
}

impl DeclInfo {
    /// Identity of an interned declaration as this protocol compares it:
    /// name text and resolution state; the name's span is provenance.
    pub open spec fn eq_spec(self, other: DeclInfo) -> bool {
        self.name@ == other.name@ && self.is_abstract == other.is_abstract
    }

    /// The words an interned declaration feeds for hashing.
    pub open spec fn hash_words_spec(self) -> Seq<u64> {
        seq![if self.is_abstract { 1u64 } else { 0u64 }] + str_words(self.name@)
    }

    pub fn equals(&self, other: &DeclInfo) -> (r: bool)
        ensures
            r == self.eq_spec(*other),
    {
        self.name.equals(&other.name) && self.is_abstract == other.is_abstract
    }

    pub fn hash(&self, state: &mut FieldHasher)
        ensures
            final(state)@ == old(state)@ + self.hash_words_spec(),
    {
        state.write_bool(self.is_abstract);
        state.write_str(self.name.name.as_str());
        proof {
            assert(final(state)@ =~= old(state)@ + self.hash_words_spec());
        }
    }
}

/// The declaration interner. Besides appending, it supports overwriting an
/// entry in place while preserving handle identity, which is how a concrete
/// resolved body is attached behind a previously abstract reference.
pub struct DeclEngine {
    decls: Vec<DeclInfo>,
}

impl View for DeclEngine {
    type V = Seq<DeclInfo>;

    closed spec fn view(&self) -> Seq<DeclInfo> {
        self.decls@
    }
}

impl DeclEngine {
    pub fn new() -> (r: DeclEngine)
        ensures
            r@ == Seq::<DeclInfo>::empty(),
    {
        DeclEngine { decls: Vec::new() }
    }

    pub fn insert(&mut self, info: DeclInfo) -> (id: DeclId)
        ensures
            final(self)@ == old(self)@.push(info),
            id.0 == old(self)@.len(),
    {
        let id = DeclId(self.decls.len());
        self.decls.push(info);
        id
    }

    /// Resolves a handle. Read-only.
    pub fn get(&self, id: DeclId) -> (r: &DeclInfo)
        requires
            id.0 < self@.len(),
        ensures
            *r == self@[id.0 as int],
    {
        &self.decls[id.0]
    }

    /// Overwrites an entry in place; the handle keeps pointing at it.
    pub fn replace(&mut self, id: DeclId, info: DeclInfo)
        requires
            id.0 < old(self)@.len(),
        ensures
            final(self)@ == old(self)@.update(id.0 as int, info),
    {
        self.decls[id.0] = info;
    }

    pub fn len(&self) -> (n: usize)
        ensures
            n == self@.len(),
    {
        self.decls.len()
    }
}

/// Last-wins lookup over a list of (abstract handle, resolved handle) entries.
pub open spec fn lookup_decl_entries(s: Seq<(DeclId, DeclId)>, d: DeclId) -> Option<DeclId>
    decreases s.len(),
{
    if s.len() == 0 {
        None
    } else if s.last().0 == d {
        Some(s.last().1)
    } else {
        lookup_decl_entries(s.drop_last(), d)
    }
}

/// A mapping from abstract declaration references to concrete resolved
/// declarations, produced by trait and generic elaboration. When one
/// reference occurs twice the later entry wins.
#[derive(Clone, Debug)]
pub struct DeclMapping {
    pub entries: Vec<(DeclId, DeclId)>,
}

impl DeclMapping {
    pub open spec fn spec_lookup(self, d: DeclId) -> Option<DeclId> {
        lookup_decl_entries(self.entries@, d)
    }

    /// Every handle the mapping can introduce is resolvable.
    pub open spec fn valid_in(self, eng: Engines) -> bool {
        forall|i: int|
            0 <= i < self.entries@.len() ==> (#[trigger] self.entries@[i]).1.0
                < eng.decl_engine@.len()
    }

    pub fn new() -> (r: DeclMapping)
        ensures
            r.entries@ == Seq::<(DeclId, DeclId)>::empty(),
    {
        DeclMapping { entries: Vec::new() }
    }

    pub fn insert(&mut self, from: DeclId, to: DeclId)
        ensures
            final(self).entries@ == old(self).entries@.push((from, to)),
    {
        self.entries.push((from, to));
    }

    pub fn lookup(&self, d: DeclId) -> (r: Option<DeclId>)
        ensures
            r == self.spec_lookup(d),
    {
        let mut i: usize = self.entries.len();
        proof {
            assert(self.entries@.take(self.entries@.len() as int) =~= self.entries@);
        }
        while i > 0
            invariant
                i <= self.entries@.len(),
                lookup_decl_entries(self.entries@, d) == lookup_decl_entries(
                    self.entries@.take(i as int),
                    d,
                ),
            decreases i,
        {
            i = i - 1;
            let e = self.entries[i];
            proof {
                assert(self.entries@.take(i + 1 as int).last() == e);
                assert(self.entries@.take(i + 1 as int).drop_last() =~= self.entries@.take(
                    i as int,
                ));
            }
            if e.0 == d {
                return Some(e.1);
            }
        }
        None
    }
}

} // verus!

//! The Engines facade: the bundle of interner references that every
//! context-dependent operation takes explicitly instead of relying on
//! ambient global state.

use vstd::prelude::*;
use crate::decl_engine::{DeclEngine, DeclId, DeclInfo};
use crate::type_system::{TypeEngine, TypeId, TypeInfo};

verus! {

/// The interning context. It is passed by shared reference into every
/// comparison, hash and rewrite; none of those operations writes to it.
pub struct Engines {
    pub type_engine: TypeEngine,
    pub decl_engine: DeclEngine,
}

impl Engines {
    /// The structural description behind a type handle.
    pub open spec fn resolve(self, id: TypeId) -> TypeInfo {
        self.type_engine@[id.0 as int]
    }

    /// The interned entry behind a declaration handle.
    pub open spec fn decl_of(self, id: DeclId) -> DeclInfo {
        self.decl_engine@[id.0 as int]
    }

    pub fn new() -> (r: Engines)
        ensures
            r.type_engine@ == Seq::<TypeInfo>::empty(),
            r.decl_engine@ == Seq::<DeclInfo>::empty(),
    {
        Engines { type_engine: TypeEngine::new(), decl_engine: DeclEngine::new() }
    }

    pub fn te(&self) -> (r: &TypeEngine)
        ensures
            *r == self.type_engine,
    {
        &self.type_engine
    }

    pub fn de(&self) -> (r: &DeclEngine)
        ensures
            *r == self.decl_engine,
    {
        &self.decl_engine
    }
}

} // verus!

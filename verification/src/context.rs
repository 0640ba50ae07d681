//! The read-only scope that declaration replacement receives.

use vstd::prelude::*;
use crate::engines::Engines;

verus! {

/// The lexical/type-checking scope threaded into declaration replacement. At
/// the grain this protocol reads it, it carries the engines that references
/// are resolved through; the protocol never writes through it.
pub struct TypeCheckContext<'a> {
    pub engines: &'a Engines,
}

impl<'a> TypeCheckContext<'a> {
    pub fn new(engines: &'a Engines) -> (r: TypeCheckContext<'a>)
        ensures
            r.engines == engines,
    {
        TypeCheckContext { engines }
    }

    pub fn engines(&self) -> (r: &'a Engines)
        ensures
            r == self.engines,
    {
        self.engines
    }
}

} // verus!

//! Diagnostics: the handler that collects user-visible errors and the
//! proof-of-reported-error token that suppresses duplicate reporting.

use vstd::prelude::*;
use crate::language::{Ident, Span};

verus! {

/// The one user-visible failure this layer can raise: a reference inside an
/// initializer could not be mapped to a concrete declaration.
#[derive(Clone, Debug)]
pub enum CompileError {
    UnresolvableDeclaration { name: Ident, span: Span },
}

/// Certifies that a diagnostic was already emitted. Only
/// [`Handler::emit_err`] can construct it, so a caller holding one knows the
/// failure was reported exactly once and must propagate the token instead of
/// re-reporting.
#[derive(Clone, Copy, Debug)]
pub struct ErrorEmitted {
    _private: (),
}

/// Collects diagnostics. Its view is the sequence of errors reported so far.
pub struct Handler {
    errors: Vec<CompileError>,
}

impl View for Handler {
    type V = Seq<CompileError>;

    closed spec fn view(&self) -> Seq<CompileError> {
        self.errors@
    }
}

impl Handler {
    pub fn new() -> (h: Handler)
        ensures
            h@ == Seq::<CompileError>::empty(),
    {
        Handler { errors: Vec::new() }
    }

    /// The only sanctioned way to surface an error: records the diagnostic
    /// and hands back the unforgeable token.
    pub fn emit_err(&mut self, err: CompileError) -> (t: ErrorEmitted)
        ensures
            final(self)@ == old(self)@.push(err),
    {
        self.errors.push(err);
        ErrorEmitted { _private: () }
    }

    pub fn error_count(&self) -> (n: usize)
        ensures
            n == self@.len(),
    {
        self.errors.len()
    }

    pub fn errors(&self) -> (r: &Vec<CompileError>)
        ensures
            r@ == self@,
    {
        &self.errors
    }
}

} // verus!

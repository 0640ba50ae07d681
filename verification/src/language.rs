//! Source-level vocabulary shared by every checked node: spans, identifiers,
//! paths, visibility markers and attributes.

use vstd::prelude::*;
use crate::hasher::{str_words, FieldHasher};

verus! {

/// A region of source text. Provenance only: no identity-relevant operation
/// reads it.
#[derive(Clone, Copy, PartialEq, Eq, Structural, Debug)]
pub struct Span {
    pub start: usize,
    pub end: usize,
}

/// The public/private marker of a declaration. Identity-relevant.
#[derive(Clone, Copy, PartialEq, Eq, Structural, Debug)]
pub enum Visibility {
    Private,
    Public,
}

/// A source-level annotation attached to a declaration. Provenance only.
#[derive(Clone, Debug)]
pub struct Attribute {
    pub name: String,
    pub span: Span,
}

impl View for Attribute {
    type V = Seq<char>;

    open spec fn view(&self) -> Seq<char> {
        self.name@
    }
}

/// An identifier: a name together with the place it was written. Its identity
/// is the name alone; the span is provenance.
#[derive(Clone, Debug)]
pub struct Ident {
    pub name: String,
    pub span: Span,
}

impl View for Ident {
    type V = Seq<char>;

    open spec fn view(&self) -> Seq<char> {
        self.name@
    }
}

impl Ident {
    /// Identifiers are equal exactly when their texts are; spans are ignored.
    pub fn equals(&self, other: &Ident) -> (r: bool)
        ensures
            r == (self@ == other@),
    {
        self.name == other.name
    }

}

/// The mathematical content of a [`CallPath`]: the texts of its segments and
/// whether the path is absolute.
#[verifier::ext_equal]
pub struct CallPathV {
    pub prefixes: Seq<Seq<char>>,
    pub suffix: Seq<char>,
    pub is_absolute: bool,
}

/// A fully-qualified namespace path; the final segment is the declared name.
#[derive(Clone, Debug)]
pub struct CallPath {
    pub prefixes: Vec<Ident>,
    pub suffix: Ident,
    pub is_absolute: bool,
}

impl View for CallPath {
    type V = CallPathV;

    open spec fn view(&self) -> CallPathV {
        CallPathV {
            prefixes: self.prefixes@.map_values(|i: Ident| i@),
            suffix: self.suffix@,
            is_absolute: self.is_absolute,
        }
    }
}

impl CallPath {
    /// Two paths are the same when segment texts and absoluteness agree;
    /// the spans inside the segments are ignored.
    pub fn equals(&self, other: &CallPath) -> (r: bool)
        ensures
            r == (self@ == other@),
    {
        if self.prefixes.len() != other.prefixes.len() {
            proof {
                assert(self@.prefixes.len() == self.prefixes@.len());
                assert(other@.prefixes.len() == other.prefixes@.len());
            }
            return false;
        }
        if !self.suffix.equals(&other.suffix) {
            return false;
        }
        if self.is_absolute != other.is_absolute {
            return false;
        }
        let n = self.prefixes.len();
        let mut i: usize = 0;
        while i < n
            invariant
                i <= n,
                n == self.prefixes@.len(),
                n == other.prefixes@.len(),
                self.suffix@ == other.suffix@,
                self.is_absolute == other.is_absolute,
                forall|j: int| 0 <= j < i ==> #[trigger] self.prefixes@[j]@ == other.prefixes@[j]@,
            decreases n - i,
        {
            if !self.prefixes[i].equals(&other.prefixes[i]) {
                assert(self@.prefixes[i as int] != other@.prefixes[i as int]);
                return false;
            }
            i += 1;
        }
        proof {
            assert(self@.prefixes =~= other@.prefixes);
            assert(self@ =~= other@);
        }
        true
    }
}


/// The words a list of segment texts feeds, in order.
pub open spec fn texts_words(s: Seq<Seq<char>>) -> Seq<u64>
    decreases s,
{
    if s.len() == 0 {
        Seq::empty()
    } else {
        texts_words(s.drop_last()) + str_words(s.last())
    }
}

/// The words a whole path feeds: segment count, each segment's text, the
/// declared name, and absoluteness. Spans are never fed.
pub open spec fn call_path_words(v: CallPathV) -> Seq<u64> {
    seq![v.prefixes.len() as u64] + texts_words(v.prefixes) + str_words(v.suffix) + seq![
        if v.is_absolute {
            1u64
        } else {
            0u64
        },
    ]
}

impl Ident {
    /// Feeds the identifier's text; the span is not fed.
    pub fn hash(&self, state: &mut FieldHasher)
        ensures
            final(state)@ == old(state)@ + str_words(self@),
    {
        state.write_str(self.name.as_str());
    }
}

impl CallPath {
    /// Feeds the path's identity words; see [`call_path_words`].
    pub fn hash(&self, state: &mut FieldHasher)
        ensures
            final(state)@ == old(state)@ + call_path_words(self@),
    {
        state.write_u64(self.prefixes.len() as u64);
        let ghost ps = self@.prefixes;
        let n = self.prefixes.len();
        let mut i: usize = 0;
        proof {
            assert(ps.len() == n);
            assert(ps.take(0) =~= Seq::<Seq<char>>::empty());
        }
        while i < n
            invariant
                i <= n,
                n == self.prefixes@.len(),
                ps == self@.prefixes,
                ps.len() == n,
                state@ == old(state)@ + seq![n as u64] + texts_words(ps.take(i as int)),
            decreases n - i,
        {
            proof {
                assert(ps[i as int] == self.prefixes@[i as int]@);
            }
            self.prefixes[i].hash(state);
            proof {
                assert(ps.take(i + 1 as int).drop_last() =~= ps.take(i as int));
                assert(ps.take(i + 1 as int).last() == ps[i as int]);
            }
            i += 1;
        }
        proof {
            assert(ps.take(n as int) =~= ps);
        }
        self.suffix.hash(state);
        state.write_bool(self.is_absolute);
        proof {
            assert(final(state)@ =~= old(state)@ + call_path_words(self@));
        }
    }
}

} // verus!

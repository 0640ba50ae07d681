//! Hash-with-context sink.
//!
//! The hashing protocol is specified by the exact stream of words a node feeds
//! for its identity-relevant fields, in a fixed field order. [`FieldHasher`]
//! records that stream and condenses it with [`FieldHasher::finish`]; any two
//! nodes that feed the same stream hash alike, so the stream view is what the
//! crate's hashing laws are stated over.

use vstd::prelude::*;
use vstd::string::StringSliceAdditionalSpecFns;

verus! {

/// Multiplier of the word-mixing step in [`FieldHasher::finish`].
pub const HASH_PRIME: u64 = 0x100000001b3;

/// Starting accumulator of [`FieldHasher::finish`].
pub const HASH_SEED: u64 = 0xcbf29ce484222325;

/// The words contributed by one string: its encoded length, then each byte.
pub open spec fn str_words(cs: Seq<char>) -> Seq<u64> {
    seq![vstd::utf8::encode_utf8(cs).len() as u64]
        + vstd::utf8::encode_utf8(cs).map_values(|b: u8| b as u64)
}

/// One mixing step of the condensed hash.
pub open spec fn mix_step(acc: u64, w: u64) -> u64 {
    vstd::wrapping::u64_specs::wrapping_mul(acc ^ w, HASH_PRIME)
}

/// The condensed hash of a whole stream of fed words.
pub open spec fn condense(ws: Seq<u64>) -> u64
    decreases ws.len(),
{
    if ws.len() == 0 {
        HASH_SEED
    } else {
        mix_step(condense(ws.drop_last()), ws.last())
    }
}

/// An accumulating hasher whose view is the exact sequence of words fed so
/// far.
pub struct FieldHasher {
    words: Vec<u64>,
}

impl View for FieldHasher {
    type V = Seq<u64>;

    closed spec fn view(&self) -> Seq<u64> {
        self.words@
    }
}

impl FieldHasher {
    pub fn new() -> (h: FieldHasher)
        ensures
            h@ == Seq::<u64>::empty(),
    {
        FieldHasher { words: Vec::new() }
    }

    pub fn write_u64(&mut self, w: u64)
        ensures
            final(self)@ == old(self)@.push(w),
    {
        self.words.push(w);
    }

    pub fn write_bool(&mut self, b: bool)
        ensures
            final(self)@ == old(self)@.push(if b { 1u64 } else { 0u64 }),
    {
        self.write_u64(if b { 1 } else { 0 });
    }

    /// Feeds a string as its encoded length followed by its bytes.
    pub fn write_str(&mut self, s: &str)
        ensures
            final(self)@ == old(self)@ + str_words(s@),
    {
        let bs: &[u8] = s.as_bytes();
        self.write_u64(bs.len() as u64);
        let n = bs.len();
        let mut i: usize = 0;
        proof {
            assert(self@ =~= old(self)@ + seq![bs@.len() as u64]
                + bs@.take(0).map_values(|b: u8| b as u64));
        }
        while i < n
            invariant
                i <= n,
                n == bs@.len(),
                bs@ == s.spec_bytes(),
                self@ == old(self)@ + seq![bs@.len() as u64]
                    + bs@.take(i as int).map_values(|b: u8| b as u64),
            decreases n - i,
        {
            self.write_u64(bs[i] as u64);
            proof {
                assert(bs@.take(i + 1 as int).map_values(|b: u8| b as u64) =~= bs@.take(
                    i as int,
                ).map_values(|b: u8| b as u64).push(bs@[i as int] as u64));
            }
            i += 1;
        }
        proof {
            assert(bs@.take(n as int) =~= bs@);
            assert(final(self)@ =~= old(self)@ + str_words(s@));
        }
    }

    /// Condenses the stream fed so far into one word. Equal streams give
    /// equal results.
    pub fn finish(&self) -> (h: u64)
        ensures
            h == condense(self@),
    {
        let n = self.words.len();
        let mut acc: u64 = HASH_SEED;
        let mut i: usize = 0;
        proof {
            assert(self@.take(0) =~= Seq::<u64>::empty());
        }
        while i < n
            invariant
                i <= n,
                n == self@.len(),
                acc == condense(self@.take(i as int)),
            decreases n - i,
        {
            let w = self.words[i];
            acc = (acc ^ w).wrapping_mul(HASH_PRIME);
            proof {
                assert(self@.take(i + 1 as int).drop_last() =~= self@.take(i as int));
                assert(self@.take(i + 1 as int).last() == self@[i as int]);
            }
            i += 1;
        }
        proof {
            assert(self@.take(n as int) =~= self@);
        }
        acc
    }
}

} // verus!

//! The hash accumulator erased values feed their hash contribution into.
//!
//! The accumulator mixes one `u64` word at a time, in the style of FNV-1a,
//! and its whole behaviour is pinned down by the spec functions [`mix`] and
//! [`mix_words`]: the state after hashing is a function of the starting
//! state and the words written, nothing else.

use vstd::prelude::*;

verus! {

/// Starting state of a fresh accumulator (the FNV-1a 64-bit offset basis).
pub const HASH_SEED: u64 = 0xcbf29ce484222325;

/// Multiplier applied after each word (the FNV 64-bit prime).
pub const HASH_PRIME: u64 = 0x00000100000001b3;

/// The state after mixing one word into state `s`.
pub open spec fn mix(s: u64, x: u64) -> u64 {
    vstd::wrapping::u64_specs::wrapping_mul(s ^ x, HASH_PRIME)
}

/// The state after mixing a sequence of words into state `s`, first first.
pub open spec fn mix_words(s: u64, words: Seq<u64>) -> u64
    decreases words.len(),
{
    if words.len() == 0 {
        s
    } else {
        mix_words(mix(s, words[0]), words.drop_first())
    }
}

/// Mixing `words` and then one more word `x` equals mixing one word into the
/// state `words` produced.
pub proof fn lemma_mix_words_push(s: u64, words: Seq<u64>, x: u64)
    ensures
        mix_words(s, words.push(x)) == mix(mix_words(s, words), x),
    decreases words.len(),
{
    if words.len() == 0 {
        assert(words.push(x)[0] == x);
        assert(words.push(x).drop_first() =~= Seq::<u64>::empty());
        assert(mix_words(s, words.push(x)) == mix_words(mix(s, x), Seq::<u64>::empty()));
        assert(mix_words(s, words) == s);
    } else {
        assert(words.push(x)[0] == words[0]);
        assert(words.push(x).drop_first() =~= words.drop_first().push(x));
        lemma_mix_words_push(mix(s, words[0]), words.drop_first(), x);
        assert(mix_words(s, words.push(x)) == mix_words(
            mix(s, words[0]),
            words.drop_first().push(x),
        ));
        assert(mix_words(s, words) == mix_words(mix(s, words[0]), words.drop_first()));
    }
}

/// Hash accumulator: owns the running state that erased values write their
/// words into, so that hashing is routed through one object however many
/// values contribute.
pub struct HashState {
    state: u64,
}

impl HashState {
    /// The running state, as contracts speak of it.
    pub closed spec fn view(&self) -> u64 {
        self.state
    }

    /// A fresh accumulator, starting from [`HASH_SEED`].
    pub fn new() -> (r: HashState)
        ensures
            r@ == HASH_SEED,
    {
        HashState { state: HASH_SEED }
    }

    /// Mix one word into the accumulator.
    pub fn write_u64(&mut self, x: u64)
        ensures
            final(self)@ == mix(old(self)@, x),
    {
        self.state = (self.state ^ x).wrapping_mul(HASH_PRIME);
    }

    /// The accumulated hash value.
    pub fn finish(&self) -> (r: u64)
        ensures
            r == self@,
    {
        self.state
    }
}

} // verus!

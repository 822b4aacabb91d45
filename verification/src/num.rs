//! `u64` as an erasable type: the smallest concrete type satisfying the
//! capability interface, with a one-word key and decimal text.

use vstd::prelude::*;

use crate::data::DataTrait;
use crate::order::lex_lt;
use crate::text::dec_digits;
use crate::text::u64_to_decimal;

verus! {

/// Identity tag registered for `u64`.
pub const U64_TAG: u64 = 1;

impl DataTrait for u64 {
    type Model = u64;

    open spec fn model(&self) -> u64 {
        *self
    }

    open spec fn tag_spec() -> u64 {
        U64_TAG
    }

    open spec fn key_spec(&self) -> Seq<u64> {
        seq![*self]
    }

    open spec fn text_spec(&self) -> Seq<char> {
        dec_digits(*self as int)
    }

    open spec fn debug_spec(&self) -> Seq<char> {
        dec_digits(*self as int)
    }

    open spec fn lt_spec(&self, other: &Self) -> bool {
        *self < *other
    }

    proof fn lemma_key_injective(&self, other: &Self) {
        if self.key_spec() == other.key_spec() {
            assert(self.key_spec()[0] == other.key_spec()[0]);
        }
    }

    proof fn lemma_lt_is_lex(&self, other: &Self) {
        let a = self.key_spec();
        let b = other.key_spec();
        assert(a[0] == *self && b[0] == *other);
        if *self == *other {
            assert(a.drop_first().len() == 0 && b.drop_first().len() == 0);
            assert(!lex_lt(a.drop_first(), b.drop_first()));
        }
    }

    fn type_tag() -> (r: u64) {
        U64_TAG
    }

    fn encode(&self) -> (r: Vec<u64>) {
        let mut v: Vec<u64> = Vec::new();
        v.push(*self);
        proof {
            assert(v@ =~= seq![*self]);
        }
        v
    }

    fn decode(key: &Vec<u64>) -> (r: Option<u64>) {
        if key.len() == 1 {
            let w = key[0];
            proof {
                assert(w.key_spec() =~= key@);
            }
            Some(w)
        } else {
            proof {
                assert forall|w: u64| w.key_spec() != key@ by {
                    assert(w.key_spec().len() == 1);
                }
            }
            None
        }
    }

    fn display_text(&self) -> (r: String) {
        u64_to_decimal(*self)
    }

    fn debug_text(&self) -> (r: String) {
        u64_to_decimal(*self)
    }
}

} // verus!

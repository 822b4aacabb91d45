//! A custom erasable record: a name with a small age.
//!
//! `Pair` is the kind of concrete type an extension registers with the
//! surrounding value model: it satisfies the whole capability interface, so
//! its values can live behind an erased handle, be compared, ordered,
//! hashed and displayed there, and be recovered by a checked downcast.

use vstd::prelude::*;

use crate::data::DataTrait;
use crate::order::lex_lt;
use crate::text::append_str;
use crate::text::dec_digits;
use crate::text::push_char;
use crate::text::u64_to_decimal;

verus! {

/// Identity tag registered for [`Pair`].
pub const PAIR_TAG: u64 = 2;

/// A record of a textual name and a small integer age.
pub struct Pair {
    pub name: String,
    pub age: u8,
}

/// One key word per name character: the character's code, shifted by one so
/// that the word is never zero and zero can end the name.
pub open spec fn char_word(c: char) -> u64 {
    (((c as u32) as u64) + 1) as u64
}

/// The key of a pair: the shifted name characters, a zero sentinel, then
/// the age.  The sentinel orders a shorter name before its extensions and
/// makes the split of the key unambiguous.
pub open spec fn pair_key(name: Seq<char>, age: u8) -> Seq<u64> {
    name.map_values(|c: char| char_word(c)) + seq![0u64, age as u64]
}

impl DataTrait for Pair {
    type Model = (Seq<char>, u8);

    open spec fn model(&self) -> (Seq<char>, u8) {
        (self.name@, self.age)
    }

    open spec fn tag_spec() -> u64 {
        PAIR_TAG
    }

    open spec fn key_spec(&self) -> Seq<u64> {
        pair_key(self.name@, self.age)
    }

    open spec fn text_spec(&self) -> Seq<char> {
        self.name@ + seq![':'] + dec_digits(self.age as int)
    }

    open spec fn debug_spec(&self) -> Seq<char> {
        seq!['P', 'a', 'i', 'r', '('] + self.name@ + seq![','] + dec_digits(self.age as int) + seq![
            ')',
        ]
    }

    open spec fn lt_spec(&self, other: &Self) -> bool {
        lex_lt(self.key_spec(), other.key_spec())
    }

    proof fn lemma_key_injective(&self, other: &Self) {
        if self.key_spec() == other.key_spec() {
            lemma_pair_key_splits(self.name@, self.age, other.name@, other.age);
            assert(self.name@ == other.name@ && self.age == other.age);
        }
    }

    proof fn lemma_lt_is_lex(&self, other: &Self) {
    }

    fn type_tag() -> (r: u64) {
        PAIR_TAG
    }

    fn encode(&self) -> (r: Vec<u64>) {
        let mut v: Vec<u64> = Vec::new();
        let name = self.name.as_str();
        let n = name.unicode_len();
        let mut i: usize = 0;
        while i < n
            invariant
                0 <= i <= n,
                n == self.name@.len(),
                name@ == self.name@,
                v@ =~= self.name@.take(i as int).map_values(|c: char| char_word(c)),
            decreases n - i,
        {
            let c = name.get_char(i);
            proof {
                vstd::utf8::char_is_scalar(c);
                assert(self.name@.take(i + 1).map_values(|c: char| char_word(c)) =~= self.name@.take(
                    i as int,
                ).map_values(|c: char| char_word(c)).push(char_word(self.name@[i as int])));
            }
            v.push((c as u64) + 1);
            i += 1;
        }
        proof {
            assert(self.name@.take(n as int) =~= self.name@);
        }
        v.push(0);
        v.push(self.age as u64);
        proof {
            assert(v@ =~= pair_key(self.name@, self.age));
        }
        v
    }

    fn decode(key: &Vec<u64>) -> (r: Option<Pair>) {
        let n = key.len();
        let mut name = String::new();
        let mut i: usize = 0;
        while i < n && key[i] != 0
            invariant
                0 <= i <= n,
                n == key@.len(),
                name@.len() == i,
                forall|j: int| 0 <= j < i ==> key@[j] != 0,
                forall|j: int| 0 <= j < i ==> char_word(#[trigger] name@[j]) == key@[j],
            decreases n - i,
        {
            let e = key[i];
            if e > 0x100000000 {
                proof {
                    lemma_no_pair_key(key@, i as int);
                }
                return None;
            }
            match char::from_u32((e - 1) as u32) {
                Some(c) => {
                    push_char(&mut name, c);
                    proof {
                        assert(name@[i as int] == c);
                        assert(char_word(c) == e) by {
                            assert(c as u32 == (e - 1) as u32);
                            assert(((e - 1) as u32) as u64 == e - 1);
                        }
                    }
                    i += 1;
                },
                None => {
                    proof {
                        assert((key@[i as int] - 1) as u32 == e - 1);
                        lemma_no_pair_key(key@, i as int);
                    }
                    return None;
                },
            }
        }
        if i == n {
            proof {
                assert forall|w: Pair| w.key_spec() != key@ by {
                    let nw = w.name@.len() as int;
                    if w.key_spec() == key@ {
                        lemma_pair_key_facts(w.name@, w.age);
                        assert(key@[nw] == 0);
                    }
                }
            }
            return None;
        }
        if n - i != 2 {
            proof {
                lemma_first_zero(key@, i as int);
            }
            return None;
        }
        let a = key[i + 1];
        if a > 255 {
            proof {
                lemma_first_zero(key@, i as int);
            }
            return None;
        }
        let w = Pair { name, age: a as u8 };
        proof {
            lemma_pair_key_facts(w.name@, w.age);
            assert(w.key_spec() =~= key@);
        }
        Some(w)
    }

    fn display_text(&self) -> (r: String) {
        let mut s = String::new();
        append_str(&mut s, self.name.as_str());
        push_char(&mut s, ':');
        let age = u64_to_decimal(self.age as u64);
        append_str(&mut s, age.as_str());
        proof {
            assert(s@ =~= self.text_spec());
        }
        s
    }

    fn debug_text(&self) -> (r: String) {
        let mut s = String::new();
        push_char(&mut s, 'P');
        push_char(&mut s, 'a');
        push_char(&mut s, 'i');
        push_char(&mut s, 'r');
        push_char(&mut s, '(');
        append_str(&mut s, self.name.as_str());
        push_char(&mut s, ',');
        let age = u64_to_decimal(self.age as u64);
        append_str(&mut s, age.as_str());
        push_char(&mut s, ')');
        proof {
            assert(s@ =~= self.debug_spec());
        }
        s
    }
}

/// Where each part of a pair key sits: the shifted, never-zero name
/// characters, the zero sentinel, the age.
proof fn lemma_pair_key_facts(name: Seq<char>, age: u8)
    ensures
        pair_key(name, age).len() == name.len() + 2,
        forall|j: int|
            0 <= j < name.len() ==> #[trigger] pair_key(name, age)[j] == char_word(name[j])
                && pair_key(name, age)[j] != 0,
        pair_key(name, age)[name.len() as int] == 0,
        pair_key(name, age)[name.len() as int + 1] == age as u64,
{
    let m = name.map_values(|c: char| char_word(c));
    assert(m.len() == name.len());
    assert forall|j: int| 0 <= j < name.len() implies #[trigger] pair_key(name, age)[j]
        == char_word(name[j]) && pair_key(name, age)[j] != 0 by {
        assert(pair_key(name, age)[j] == m[j]);
        assert(m[j] == char_word(name[j]));
    }
    assert(pair_key(name, age)[name.len() as int] == seq![0u64, age as u64][0]);
    assert(pair_key(name, age)[name.len() as int + 1] == seq![0u64, age as u64][1]);
}

/// Equal pair keys split the same way: same name and same age.
proof fn lemma_pair_key_splits(n1: Seq<char>, a1: u8, n2: Seq<char>, a2: u8)
    requires
        pair_key(n1, a1) == pair_key(n2, a2),
    ensures
        n1 == n2,
        a1 == a2,
{
    lemma_pair_key_facts(n1, a1);
    lemma_pair_key_facts(n2, a2);
    let k1 = pair_key(n1, a1);
    let k2 = pair_key(n2, a2);
    let l1 = n1.len() as int;
    let l2 = n2.len() as int;
    assert(l1 == l2) by {
        if l1 < l2 {
            assert(k1[l1] == 0);
            assert(k2[l1] != 0);
        }
        if l2 < l1 {
            assert(k2[l2] == 0);
            assert(k1[l2] != 0);
        }
    }
    assert(n1 =~= n2) by {
        assert forall|j: int| 0 <= j < l1 implies n1[j] == n2[j] by {
            vstd::utf8::char_is_scalar(n1[j]);
            vstd::utf8::char_is_scalar(n2[j]);
            assert(k1[j] == char_word(n1[j]));
            assert(k2[j] == char_word(n2[j]));
            assert(n1[j] as u32 == n2[j] as u32);
            vstd::utf8::char_u32_cast(n1[j], n1[j] as u32);
            vstd::utf8::char_u32_cast(n2[j], n2[j] as u32);
            assert(n1[j] == n2[j]);
        }
    }
    assert(k1[l1 + 1] == a1 as u64);
    assert(k2[l2 + 1] == a2 as u64);
}

/// No pair encodes to a key whose first `i` words are non-zero and whose
/// word at `i` is neither zero nor a shifted Unicode scalar value.
proof fn lemma_no_pair_key(key: Seq<u64>, i: int)
    requires
        0 <= i < key.len(),
        forall|j: int| 0 <= j < i ==> key[j] != 0,
        key[i] != 0,
        key[i] > 0x100000000 || !vstd::utf8::is_scalar((key[i] - 1) as u32),
    ensures
        forall|w: Pair| w.key_spec() != key,
{
    assert forall|w: Pair| w.key_spec() != key by {
        let nw = w.name@.len() as int;
        if w.key_spec() == key {
            lemma_pair_key_facts(w.name@, w.age);
            if nw < i {
                assert(key[nw] != 0);
                assert(pair_key(w.name@, w.age)[nw] == 0);
            } else if nw == i {
                assert(pair_key(w.name@, w.age)[i] == 0);
            } else {
                let c = w.name@[i];
                assert(key[i] == char_word(c));
                vstd::utf8::char_is_scalar(c);
                assert((c as u32) as u64 <= 0x10FFFF);
                assert(key[i] <= 0x110000);
                assert((key[i] - 1) as u32 == c as u32);
            }
        }
    }
}

/// In a pair key whose first `i` words are non-zero and whose word at `i`
/// is zero, the name ends exactly at `i`: the key has length `i + 2` and
/// its last word is an age, at most 255.
proof fn lemma_first_zero(key: Seq<u64>, i: int)
    requires
        0 <= i < key.len(),
        forall|j: int| 0 <= j < i ==> key[j] != 0,
        key[i] == 0,
    ensures
        forall|w: Pair| w.key_spec() == key ==> key.len() == i + 2 && key[i + 1] <= 255,
{
    assert forall|w: Pair| w.key_spec() == key implies key.len() == i + 2 && key[i + 1] <= 255 by {
        let nw = w.name@.len() as int;
        lemma_pair_key_facts(w.name@, w.age);
        if nw < i {
            assert(key[nw] != 0);
            assert(pair_key(w.name@, w.age)[nw] == 0);
        }
        if nw > i {
            assert(key[i] == char_word(w.name@[i]));
        }
        assert(nw == i);
        assert(key[i + 1] == w.age as u64);
    }
}

} // verus!

//! The capability interface and the erased handle.
//!
//! A concrete type becomes erasable by implementing [`DataTrait`]: it names
//! an identity tag, encodes itself as a key of `u64` words, decodes such a
//! key back, and renders itself as text.  A [`Datum`] owns one erased value
//! through exactly that interface: it records the tag, the key and the two
//! text forms at construction, and every later operation (clone, equality,
//! ordering, hashing, display) works on those alone, so the holder never
//! needs the concrete type again.  A checked [`Datum::downcast`] recovers
//! the concrete value.

use vstd::prelude::*;

use crate::hashing::HashState;
use crate::hashing::lemma_mix_words_push;
use crate::hashing::mix;
use crate::hashing::mix_words;
use crate::order::key_cmp;
use crate::order::lex_lt;

verus! {

/// Capability interface: what a concrete type must offer so that its values
/// can live behind an erased handle.
///
/// The contract mirrors the six capabilities an erasable type needs —
/// cloning and equality (through the injective key), total ordering
/// (through the lexicographic order on keys), hashing (the key again), and
/// the two text forms.  Identity across types is carried by the tag:
/// every erasable type of one deployment must pick a distinct
/// [`tag_spec`](DataTrait::tag_spec) value, as it would register a distinct
/// entry in a type-id table.
pub trait DataTrait: Sized {
    /// The mathematical value a `Self` stands for; the key determines it.
    type Model;

    /// The model of this value.
    spec fn model(&self) -> Self::Model;

    /// The identity tag of the concrete type.
    spec fn tag_spec() -> u64;

    /// The key of this value: the `u64` words the erased handle stores,
    /// compares, orders and hashes in its place.
    spec fn key_spec(&self) -> Seq<u64>;

    /// The display form of this value.
    spec fn text_spec(&self) -> Seq<char>;

    /// The debug form of this value.
    spec fn debug_spec(&self) -> Seq<char>;

    /// The type's native strict order.
    spec fn lt_spec(&self, other: &Self) -> bool;

    /// The key is injective: values with the same key have the same model.
    proof fn lemma_key_injective(&self, other: &Self)
        ensures
            self.key_spec() == other.key_spec() ==> self.model() == other.model(),
    ;

    /// The encoding preserves order: the native order is exactly the
    /// lexicographic order on keys.
    proof fn lemma_lt_is_lex(&self, other: &Self)
        ensures
            self.lt_spec(other) <==> lex_lt(self.key_spec(), other.key_spec()),
    ;

    /// The identity tag, as a runtime value.
    fn type_tag() -> (r: u64)
        ensures
            r == Self::tag_spec(),
    ;

    /// Encode this value as its key.
    fn encode(&self) -> (r: Vec<u64>)
        ensures
            r@ == self.key_spec(),
    ;

    /// Decode a key back into a value: succeeds exactly on the keys that
    /// some value of this type encodes to.
    fn decode(key: &Vec<u64>) -> (r: Option<Self>)
        ensures
            r matches Some(w) ==> w.key_spec() == key@,
            r is None ==> forall|w: Self| w.key_spec() != key@,
    ;

    /// The display form, as a runtime string.
    fn display_text(&self) -> (r: String)
        ensures
            r@ == self.text_spec(),
    ;

    /// The debug form, as a runtime string.
    fn debug_text(&self) -> (r: String)
        ensures
            r@ == self.debug_spec(),
    ;
}

/// What an erased handle holds, as contracts speak of it: the identity tag
/// of the wrapped value's concrete type, the value's key, and its two text
/// forms.
#[verifier::ext_equal]
pub struct DatumView {
    pub tag: u64,
    pub key: Seq<u64>,
    pub display: Seq<char>,
    pub debug: Seq<char>,
}

/// Two erased handles are equal when their identity tags match and their
/// keys match; handles of different concrete types are never equal.
pub open spec fn spec_equals(a: DatumView, b: DatumView) -> bool {
    a.tag == b.tag && a.key == b.key
}

/// The hash contribution of an erased handle on top of accumulator state
/// `s`: the tag, then the key words.
pub open spec fn datum_hash(s: u64, v: DatumView) -> u64 {
    mix_words(mix(s, v.tag), v.key)
}

/// Erased handle: owns one value of some concrete type that implements
/// [`DataTrait`], and presents value semantics — clone, equality, ordering,
/// hashing, display — without knowing that type.
pub struct Datum {
    tag: u64,
    key: Vec<u64>,
    display: String,
    debug: String,
}

impl View for Datum {
    type V = DatumView;

    closed spec fn view(&self) -> DatumView {
        DatumView { tag: self.tag, key: self.key@, display: self.display@, debug: self.debug@ }
    }
}

impl Datum {
    /// Wrap a concrete value; infallible.
    pub fn new<T: DataTrait>(t: T) -> (r: Datum)
        ensures
            r@.tag == T::tag_spec(),
            r@.key == t.key_spec(),
            r@.display == t.text_spec(),
            r@.debug == t.debug_spec(),
    {
        let display = t.display_text();
        let debug = t.debug_text();
        let key = t.encode();
        Datum { tag: T::type_tag(), key, display, debug }
    }

    /// Wrap an already boxed concrete value; infallible.
    pub fn from_boxed<T: DataTrait>(t: Box<T>) -> (r: Datum)
        ensures
            r@.tag == T::tag_spec(),
            r@.key == t.key_spec(),
            r@.display == t.text_spec(),
            r@.debug == t.debug_spec(),
    {
        Self::new(*t)
    }

    /// Attempt to recover the wrapped value at its concrete type.
    ///
    /// Succeeds exactly when the handle's identity tag is `T`'s and the
    /// stored key decodes at `T`; on failure the original handle comes
    /// back unchanged, so a failed downcast loses nothing.
    pub fn downcast<T: DataTrait>(self) -> (r: Result<T, Datum>)
        ensures
            self@.tag == T::tag_spec() && (exists|w: T| w.key_spec() == self@.key) ==> r is Ok,
            r matches Ok(w) ==> self@.tag == T::tag_spec() && w.key_spec() == self@.key,
            r matches Err(d) ==> d == self && (self@.tag != T::tag_spec() || forall|w: T|
                w.key_spec() != self@.key),
    {
        if self.tag == T::type_tag() {
            match T::decode(&self.key) {
                Some(w) => Ok(w),
                None => Err(self),
            }
        } else {
            Err(self)
        }
    }

    /// Equality of two erased handles: false straight away when the
    /// identity tags differ — cross-type equality is no error — and key
    /// equality otherwise.
    pub fn equals(&self, other: &Datum) -> (r: bool)
        ensures
            r == spec_equals(self@, other@),
    {
        if self.tag != other.tag {
            return false;
        }
        match key_cmp(&self.key, &other.key) {
            core::cmp::Ordering::Equal => true,
            _ => false,
        }
    }

    /// Total order of two erased handles of the same concrete type.
    ///
    /// Unlike [`equals`](Datum::equals), this makes no cross-type
    /// allowance: ordering handles of different concrete types is a caller
    /// error, and the `requires` rules it out.
    pub fn ordering(&self, other: &Datum) -> (r: core::cmp::Ordering)
        requires
            self@.tag == other@.tag,
        ensures
            r == core::cmp::Ordering::Less <==> lex_lt(self@.key, other@.key),
            r == core::cmp::Ordering::Equal <==> self@.key == other@.key,
            r == core::cmp::Ordering::Greater <==> lex_lt(other@.key, self@.key),
    {
        key_cmp(&self.key, &other.key)
    }

    /// Partial order of two erased handles: `None` when the identity tags
    /// differ, the total order otherwise.
    pub fn partial_ordering(&self, other: &Datum) -> (r: Option<core::cmp::Ordering>)
        ensures
            r is Some <==> self@.tag == other@.tag,
            r matches Some(o) ==> {
                &&& o == core::cmp::Ordering::Less <==> lex_lt(self@.key, other@.key)
                &&& o == core::cmp::Ordering::Equal <==> self@.key == other@.key
                &&& o == core::cmp::Ordering::Greater <==> lex_lt(other@.key, self@.key)
            },
    {
        if self.tag != other.tag {
            None
        } else {
            Some(key_cmp(&self.key, &other.key))
        }
    }

    /// Feed this handle's hash contribution — the identity tag, then the
    /// key words — into the given accumulator.
    pub fn hash_into(&self, h: &mut HashState)
        ensures
            final(h)@ == datum_hash(old(h)@, self@),
    {
        h.write_u64(self.tag);
        let ghost start = h@;
        let n = self.key.len();
        let mut i: usize = 0;
        while i < n
            invariant
                0 <= i <= n,
                n == self.key@.len(),
                h@ == mix_words(start, self.key@.take(i as int)),
            decreases n - i,
        {
            proof {
                lemma_mix_words_push(start, self.key@.take(i as int), self.key@[i as int]);
                assert(self.key@.take(i + 1) =~= self.key@.take(i as int).push(
                    self.key@[i as int],
                ));
            }
            h.write_u64(self.key[i]);
            i += 1;
        }
        proof {
            assert(self.key@.take(n as int) =~= self.key@);
        }
    }

    /// The display form captured from the wrapped value.
    pub fn display_text(&self) -> (r: &str)
        ensures
            r@ == self@.display,
    {
        self.display.as_str()
    }

    /// The debug form captured from the wrapped value.
    pub fn debug_text(&self) -> (r: &str)
        ensures
            r@ == self@.debug,
    {
        self.debug.as_str()
    }
}

impl Clone for Datum {
    /// An independent copy holding the same tag, key and text; never fails.
    fn clone(&self) -> (r: Self)
        ensures
            r@ == self@,
    {
        let key = self.key.clone();
        proof {
            assert(key@ =~= self.key@) by {
                assert(forall|i: int|
                    0 <= i < self.key@.len() ==> vstd::pervasive::cloned::<u64>(
                        self.key@[i],
                        #[trigger] key@[i],
                    ));
            }
        }
        let r = Datum {
            tag: self.tag,
            key,
            display: self.display.clone(),
            debug: self.debug.clone(),
        };
        proof {
            assert(r@ =~= self@);
        }
        r
    }
}

impl PartialEq for Datum {
    /// `==` on erased handles is [`Datum::equals`]: false across identity
    /// tags, key equality within one.
    fn eq(&self, other: &Datum) -> (r: bool) {
        self.equals(other)
    }
}

impl vstd::std_specs::cmp::PartialEqSpecImpl for Datum {
    open spec fn obeys_eq_spec() -> bool {
        true
    }

    open spec fn eq_spec(&self, other: &Datum) -> bool {
        spec_equals(self@, other@)
    }
}

impl Eq for Datum {}

impl PartialOrd for Datum {
    /// `partial_cmp` on erased handles is [`Datum::partial_ordering`]:
    /// `None` across identity tags, the key order within one.
    fn partial_cmp(&self, other: &Datum) -> (r: Option<core::cmp::Ordering>) {
        proof {
            crate::order::lemma_lex_trichotomy(self@.key, other@.key);
        }
        self.partial_ordering(other)
    }
}

impl vstd::std_specs::cmp::PartialOrdSpecImpl for Datum {
    open spec fn obeys_partial_cmp_spec() -> bool {
        true
    }

    open spec fn partial_cmp_spec(&self, other: &Datum) -> Option<core::cmp::Ordering> {
        if self@.tag != other@.tag {
            None
        } else if lex_lt(self@.key, other@.key) {
            Some(core::cmp::Ordering::Less)
        } else if lex_lt(other@.key, self@.key) {
            Some(core::cmp::Ordering::Greater)
        } else {
            Some(core::cmp::Ordering::Equal)
        }
    }
}

/// Equality of erased handles is reflexive: any handle — a clone in
/// particular — equals a handle with the same view.
pub proof fn lemma_equals_reflexive(a: DatumView)
    ensures
        spec_equals(a, a),
{
}

/// Equality of erased handles is symmetric.
pub proof fn lemma_equals_symmetric(a: DatumView, b: DatumView)
    ensures
        spec_equals(a, b) == spec_equals(b, a),
{
}

/// Handles of different concrete types — different identity tags — are
/// never equal: cross-type equality is plain `false`, not an error.
pub proof fn lemma_equals_cross_type(a: DatumView, b: DatumView)
    requires
        a.tag != b.tag,
    ensures
        !spec_equals(a, b),
{
}

/// Downcasting a freshly wrapped value at its own type is owed success:
/// the stored key always has a decoding witness, the value itself, so the
/// success premise of [`Datum::downcast`] holds for what
/// [`Datum::new`] built from a value of the expected type.
pub proof fn lemma_downcast_succeeds<T: DataTrait>(v: T)
    ensures
        exists|w: T| w.key_spec() == v.key_spec(),
{
    assert(exists|w: T| w.key_spec() == v.key_spec()) by {
        assert(v.key_spec() == v.key_spec());
    }
}

/// A successful downcast loses nothing: any value whose key matches the
/// wrapped value's key has the wrapped value's model, so the value
/// [`Datum::downcast`] hands back models exactly what went in.
pub proof fn lemma_downcast_roundtrip<T: DataTrait>(v: T, w: T)
    requires
        w.key_spec() == v.key_spec(),
    ensures
        w.model() == v.model(),
{
    w.lemma_key_injective(&v);
}

/// The order [`Datum::ordering`] reports is the wrapped type's native
/// order: `v1` comes before `v2` natively exactly when `v1`'s key comes
/// before `v2`'s key lexicographically.
pub proof fn lemma_ordering_matches_native<T: DataTrait>(v1: T, v2: T)
    ensures
        v1.lt_spec(&v2) <==> lex_lt(v1.key_spec(), v2.key_spec()),
{
    v1.lemma_lt_is_lex(&v2);
}

/// Hashing is consistent with equality: handles that compare equal make
/// the same hash contribution from any accumulator state.
pub proof fn lemma_hash_consistent_with_equals(s: u64, a: DatumView, b: DatumView)
    requires
        spec_equals(a, b),
    ensures
        datum_hash(s, a) == datum_hash(s, b),
{
}

} // verus!

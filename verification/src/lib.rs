//! Type-erased, heap-owned values with uniform value semantics.
//!
//! A [`Datum`](data::Datum) wraps a value of any concrete type that
//! implements the capability interface [`DataTrait`](data::DataTrait), and
//! lets the rest of a program clone, compare, order, hash and display that
//! value without knowing its concrete type.  A checked
//! [`downcast`](data::Datum::downcast) recovers the original value.

mod data;
mod hashing;
mod num;
mod order;
mod pair;
mod text;

pub use data::DataTrait;
pub use data::Datum;
pub use data::DatumView;
pub use data::datum_hash;
pub use data::lemma_downcast_roundtrip;
pub use data::lemma_downcast_succeeds;
pub use data::lemma_equals_cross_type;
pub use data::lemma_equals_reflexive;
pub use data::lemma_equals_symmetric;
pub use data::lemma_hash_consistent_with_equals;
pub use data::lemma_ordering_matches_native;
pub use data::spec_equals;
pub use hashing::HashState;
pub use hashing::mix;
pub use hashing::mix_words;
pub use num::U64_TAG;
pub use order::key_cmp;
pub use order::lex_lt;
pub use pair::PAIR_TAG;
pub use pair::Pair;
pub use pair::char_word;
pub use pair::pair_key;
pub use text::dec_digits;
pub use text::digit_char;
pub use text::u64_to_decimal;

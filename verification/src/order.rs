//! Lexicographic order on encoded keys.
//!
//! Every erasable value is encoded as a sequence of `u64` words (its *key*),
//! and the order the erased handle exposes is the lexicographic order on
//! those keys: the first differing word decides, and a proper prefix comes
//! first.

use vstd::prelude::*;

verus! {

/// Strict lexicographic order on key words: `a` comes before `b` when at the
/// first position where they differ `a` holds the smaller word, or when `a`
/// is a proper prefix of `b`.
pub open spec fn lex_lt(a: Seq<u64>, b: Seq<u64>) -> bool
    decreases a.len(),
{
    if b.len() == 0 {
        false
    } else if a.len() == 0 {
        true
    } else if a[0] < b[0] {
        true
    } else if a[0] > b[0] {
        false
    } else {
        lex_lt(a.drop_first(), b.drop_first())
    }
}

/// The lexicographic order is irreflexive.
pub proof fn lemma_lex_irreflexive(a: Seq<u64>)
    ensures
        !lex_lt(a, a),
    decreases a.len(),
{
    if a.len() > 0 {
        lemma_lex_irreflexive(a.drop_first());
    }
}

/// The lexicographic order is trichotomous: of two keys, either one comes
/// before the other or they are the same sequence.
pub proof fn lemma_lex_trichotomy(a: Seq<u64>, b: Seq<u64>)
    ensures
        lex_lt(a, b) || lex_lt(b, a) || a == b,
    decreases a.len(),
{
    if a.len() > 0 && b.len() > 0 && a[0] == b[0] {
        lemma_lex_trichotomy(a.drop_first(), b.drop_first());
        if a.drop_first() == b.drop_first() {
            assert(a =~= b) by {
                assert forall|j: int| 0 <= j < a.len() implies a[j] == b[j] by {
                    if j > 0 {
                        assert(a.drop_first()[j - 1] == b.drop_first()[j - 1]);
                    }
                }
            }
        }
    }
}

/// Dropping an equal prefix does not change how two keys compare.
proof fn lemma_lex_drop_prefix(a: Seq<u64>, b: Seq<u64>, i: int)
    requires
        0 <= i <= a.len(),
        i <= b.len(),
        a.subrange(0, i) == b.subrange(0, i),
    ensures
        lex_lt(a, b) <==> lex_lt(a.skip(i), b.skip(i)),
    decreases i,
{
    if i > 0 {
        assert forall|j: int| 0 <= j < i implies a[j] == b[j] by {
            assert(a.subrange(0, i)[j] == b.subrange(0, i)[j]);
            assert(a.subrange(0, i)[j] == a[j]);
            assert(b.subrange(0, i)[j] == b[j]);
        }
        assert(a.drop_first().subrange(0, i - 1) =~= b.drop_first().subrange(0, i - 1)) by {
            assert forall|j: int| 0 <= j < i - 1 implies #[trigger] a.drop_first().subrange(
                0,
                i - 1,
            )[j] == b.drop_first().subrange(0, i - 1)[j] by {
                assert(a.drop_first()[j] == a[j + 1]);
                assert(b.drop_first()[j] == b[j + 1]);
            }
        }
        lemma_lex_drop_prefix(a.drop_first(), b.drop_first(), i - 1);
        assert(a.drop_first().skip(i - 1) =~= a.skip(i));
        assert(b.drop_first().skip(i - 1) =~= b.skip(i));
        if a.len() > 0 && b.len() > 0 {
            assert(lex_lt(a, b) <==> lex_lt(a.drop_first(), b.drop_first()));
        }
    } else {
        assert(a.skip(0) =~= a);
        assert(b.skip(0) =~= b);
    }
}

/// Three-way comparison of two keys, agreeing with [`lex_lt`]:
/// `Less` exactly when `a` comes before `b`, `Equal` exactly when the two
/// sequences are the same, `Greater` exactly when `b` comes before `a`.
pub fn key_cmp(a: &Vec<u64>, b: &Vec<u64>) -> (r: core::cmp::Ordering)
    ensures
        r == core::cmp::Ordering::Less <==> lex_lt(a@, b@),
        r == core::cmp::Ordering::Equal <==> a@ == b@,
        r == core::cmp::Ordering::Greater <==> lex_lt(b@, a@),
{
    let a_len = a.len();
    let b_len = b.len();
    let n = if a_len < b_len {
        a_len
    } else {
        b_len
    };
    let mut i: usize = 0;
    while i < n
        invariant
            0 <= i <= n,
            n <= a@.len(),
            n <= b@.len(),
            n == if a@.len() < b@.len() {
                a@.len()
            } else {
                b@.len()
            },
            a@.subrange(0, i as int) =~= b@.subrange(0, i as int),
        decreases n - i,
    {
        let x = a[i];
        let y = b[i];
        if x < y {
            proof {
                lemma_lex_drop_prefix(a@, b@, i as int);
                lemma_lex_drop_prefix(b@, a@, i as int);
                lemma_lex_irreflexive(a@);
            }
            assert(lex_lt(a@.skip(i as int), b@.skip(i as int)));
            assert(!lex_lt(b@.skip(i as int), a@.skip(i as int)));
            assert(a@ != b@);
            return core::cmp::Ordering::Less;
        }
        if x > y {
            proof {
                lemma_lex_drop_prefix(a@, b@, i as int);
                lemma_lex_drop_prefix(b@, a@, i as int);
                lemma_lex_irreflexive(a@);
            }
            assert(lex_lt(b@.skip(i as int), a@.skip(i as int)));
            assert(!lex_lt(a@.skip(i as int), b@.skip(i as int)));
            assert(a@ != b@);
            return core::cmp::Ordering::Greater;
        }
        assert(a@.subrange(0, i + 1) =~= b@.subrange(0, i + 1));
        i += 1;
    }
    proof {
        lemma_lex_drop_prefix(a@, b@, n as int);
        lemma_lex_drop_prefix(b@, a@, n as int);
    }
    if a_len < b_len {
        assert(a@.skip(n as int).len() == 0);
        assert(b@.skip(n as int).len() > 0);
        assert(a@ != b@);
        core::cmp::Ordering::Less
    } else if a_len > b_len {
        assert(b@.skip(n as int).len() == 0);
        assert(a@.skip(n as int).len() > 0);
        assert(a@ != b@);
        core::cmp::Ordering::Greater
    } else {
        assert(a@ =~= b@) by {
            assert forall|j: int| 0 <= j < a@.len() implies a@[j] == b@[j] by {
                assert(a@.subrange(0, n as int)[j] == b@.subrange(0, n as int)[j]);
            }
        }
        proof {
            lemma_lex_irreflexive(a@);
        }
        core::cmp::Ordering::Equal
    }
}

} // verus!

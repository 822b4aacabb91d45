//! Text building blocks for the display and debug forms of erased values.

use vstd::prelude::*;

verus! {

/// The character for one decimal digit.
pub open spec fn digit_char(d: int) -> char
    recommends
        0 <= d < 10,
{
    if d == 0 {
        '0'
    } else if d == 1 {
        '1'
    } else if d == 2 {
        '2'
    } else if d == 3 {
        '3'
    } else if d == 4 {
        '4'
    } else if d == 5 {
        '5'
    } else if d == 6 {
        '6'
    } else if d == 7 {
        '7'
    } else if d == 8 {
        '8'
    } else {
        '9'
    }
}

/// The decimal form of a non-negative number, most significant digit first,
/// with no leading zeros (a single `'0'` for zero).
pub open spec fn dec_digits(n: int) -> Seq<char>
    recommends
        n >= 0,
    decreases n,
{
    if n < 10 {
        seq![digit_char(n)]
    } else {
        dec_digits(n / 10).push(digit_char(n % 10))
    }
}

fn digit_to_char(d: u64) -> (r: char)
    requires
        d < 10,
    ensures
        r == digit_char(d as int),
{
    if d == 0 {
        '0'
    } else if d == 1 {
        '1'
    } else if d == 2 {
        '2'
    } else if d == 3 {
        '3'
    } else if d == 4 {
        '4'
    } else if d == 5 {
        '5'
    } else if d == 6 {
        '6'
    } else if d == 7 {
        '7'
    } else if d == 8 {
        '8'
    } else {
        '9'
    }
}

/// Relies on `String::push`: appends the given character to the end of the
/// string.
#[verifier::external_body]
pub fn push_char(s: &mut String, c: char)
    ensures
        final(s)@ == old(s)@.push(c),
{
    s.push(c)
}

/// Relies on `String::push_str`: appends the given string slice to the end
/// of the string.
#[verifier::external_body]
pub fn append_str(s: &mut String, t: &str)
    ensures
        final(s)@ == old(s)@ + t@,
{
    s.push_str(t)
}

/// Relies on `char::from_u32`: returns the character with the given code
/// when the code is a Unicode scalar value, and `None` otherwise.
pub assume_specification[ char::from_u32 ](v: u32) -> (r: Option<char>)
    ensures
        r matches Some(c) ==> c as u32 == v,
        r is Some <==> vstd::utf8::is_scalar(v),
;

/// The decimal form of `n`, as [`dec_digits`] describes it.
pub fn u64_to_decimal(n: u64) -> (r: String)
    ensures
        r@ == dec_digits(n as int),
{
    let mut digits: Vec<char> = Vec::new();
    let mut m: u64 = n;
    while m >= 10
        invariant
            dec_digits(n as int) =~= dec_digits(m as int) + Seq::new(
                digits@.len(),
                |i: int| digits@[digits@.len() - 1 - i],
            ),
        decreases m,
    {
        let d = m % 10;
        digits.push(digit_to_char(d));
        m = m / 10;
        proof {
            let prev = digits@.drop_last();
            assert(dec_digits(n as int) =~= dec_digits(m as int) + Seq::new(
                digits@.len(),
                |i: int| digits@[digits@.len() - 1 - i],
            )) by {
                assert(dec_digits(n as int) =~= dec_digits((m * 10 + d) as int) + Seq::new(
                    prev.len(),
                    |i: int| prev[prev.len() - 1 - i],
                ));
                assert((m * 10 + d) as int / 10 == m as int);
                assert((m * 10 + d) as int % 10 == d as int);
                assert(dec_digits((m * 10 + d) as int) == dec_digits(m as int).push(
                    digit_char(d as int),
                ));
            }
        }
    }
    digits.push(digit_to_char(m));
    proof {
        let l = digits@.len();
        let rev = Seq::new(l, |i: int| digits@[l - 1 - i]);
        let prev = digits@.drop_last();
        assert(dec_digits(n as int) =~= rev) by {
            assert(dec_digits(n as int) =~= dec_digits(m as int) + Seq::new(
                prev.len(),
                |i: int| prev[prev.len() - 1 - i],
            ));
            assert(dec_digits(m as int) == seq![digit_char(m as int)]);
            assert forall|i: int| 0 <= i < l implies (dec_digits(m as int) + Seq::new(
                prev.len(),
                |i: int| prev[prev.len() - 1 - i],
            ))[i] == rev[i] by {
                if i == 0 {
                    assert(rev[0] == digits@[l - 1]);
                } else {
                    assert(rev[i] == digits@[l - 1 - i]);
                    assert(prev[prev.len() - 1 - (i - 1)] == digits@[l - 1 - i]);
                }
            }
        }
    }
    let total = digits.len();
    let mut s = String::new();
    let mut i: usize = 0;
    while i < total
        invariant
            total == digits@.len(),
            0 <= i <= total,
            s@ =~= Seq::new(i as nat, |j: int| digits@[total - 1 - j]),
        decreases total - i,
    {
        push_char(&mut s, digits[total - 1 - i]);
        i += 1;
    }
    proof {
        assert(s@ =~= dec_digits(n as int));
    }
    s
}

} // verus!

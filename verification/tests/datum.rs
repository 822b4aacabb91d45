//! Behaviour of the erased handle over the two built-in erasable types.

use core::cmp::Ordering;
use erased_datum::Datum;
use erased_datum::HashState;
use erased_datum::Pair;

fn pair(name: &str, age: u8) -> Pair {
    Pair { name: String::from(name), age }
}

#[test]
fn clone_equals_original() {
    let d = Datum::new(7u64);
    let c = d.clone();
    assert!(c.equals(&d));
    assert!(d.equals(&c));
    // The two handles are independent owned values: dropping one leaves the
    // other fully usable.
    drop(d);
    assert_eq!(c.display_text(), "7");
}

#[test]
fn clone_equals_original_pair() {
    let d = Datum::new(pair("John", 34));
    let c = d.clone();
    assert!(c.equals(&d));
    drop(d);
    assert_eq!(c.display_text(), "John:34");
}

#[test]
fn downcast_same_type_succeeds() {
    let d = Datum::new(34u64);
    match d.downcast::<u64>() {
        Ok(v) => assert_eq!(v, 34),
        Err(_) => panic!("downcast to the wrapped type must succeed"),
    }
    let d = Datum::new(pair("John", 34));
    match d.downcast::<Pair>() {
        Ok(p) => {
            assert_eq!(p.name, "John");
            assert_eq!(p.age, 34);
        }
        Err(_) => panic!("downcast to the wrapped type must succeed"),
    }
}

#[test]
fn downcast_mismatch_returns_original() {
    let d = Datum::new(pair("John", 34));
    let keep = d.clone();
    match d.downcast::<u64>() {
        Ok(_) => panic!("downcast to a different type must fail"),
        Err(back) => {
            // Nothing is lost on a failed downcast: the handle comes back
            // unchanged and still holds the value.
            assert!(back.equals(&keep));
            let p = back.downcast::<Pair>().ok().unwrap();
            assert_eq!(p.name, "John");
            assert_eq!(p.age, 34);
        }
    }
}

#[test]
fn cross_type_equality_is_false() {
    let a = Datum::new(2u64);
    let b = Datum::new(pair("", 0));
    assert!(!a.equals(&b));
    assert!(!b.equals(&a));
}

#[test]
fn equality_same_type() {
    let a = Datum::new(5u64);
    let b = Datum::new(5u64);
    let c = Datum::new(6u64);
    assert!(a.equals(&b));
    assert!(!a.equals(&c));
    let p = Datum::new(pair("Ann", 3));
    let q = Datum::new(pair("Ann", 3));
    let r = Datum::new(pair("Ann", 4));
    let s = Datum::new(pair("Bob", 3));
    assert!(p.equals(&q));
    assert!(!p.equals(&r));
    assert!(!p.equals(&s));
}

#[test]
fn ordering_follows_native_order() {
    let three = Datum::new(3u64);
    let five = Datum::new(5u64);
    assert_eq!(three.ordering(&five), Ordering::Less);
    assert_eq!(five.ordering(&three), Ordering::Greater);
    assert_eq!(three.ordering(&three.clone()), Ordering::Equal);
}

#[test]
fn ordering_pairs() {
    let ann = Datum::new(pair("Ann", 50));
    let bob = Datum::new(pair("Bob", 1));
    assert_eq!(ann.ordering(&bob), Ordering::Less);
    // A name that is a proper prefix comes first, whatever the ages.
    let jo = Datum::new(pair("Jo", 99));
    let john = Datum::new(pair("John", 1));
    assert_eq!(jo.ordering(&john), Ordering::Less);
    // Equal names fall back to the age.
    let young = Datum::new(pair("John", 1));
    let old = Datum::new(pair("John", 2));
    assert_eq!(young.ordering(&old), Ordering::Less);
    assert_eq!(old.ordering(&young), Ordering::Greater);
}

#[test]
fn partial_ordering_cross_type_is_none() {
    let a = Datum::new(1u64);
    let b = Datum::new(pair("x", 1));
    assert!(a.partial_ordering(&b).is_none());
    assert!(b.partial_ordering(&a).is_none());
    let c = Datum::new(2u64);
    assert_eq!(a.partial_ordering(&c), Some(Ordering::Less));
    assert_eq!(a.partial_ordering(&a.clone()), Some(Ordering::Equal));
}

#[test]
fn hashing_consistent_with_equality() {
    let a = Datum::new(7u64);
    let b = Datum::new(7u64);
    assert!(a.equals(&b));
    let mut ha = HashState::new();
    a.hash_into(&mut ha);
    let mut hb = HashState::new();
    b.hash_into(&mut hb);
    assert_eq!(ha.finish(), hb.finish());

    let p = Datum::new(pair("John", 34));
    let q = Datum::new(pair("John", 34));
    assert!(p.equals(&q));
    let mut hp = HashState::new();
    p.hash_into(&mut hp);
    let mut hq = HashState::new();
    q.hash_into(&mut hq);
    assert_eq!(hp.finish(), hq.finish());
}

#[test]
fn hash_reads_the_value() {
    // Handles over different values make different contributions here, so
    // hashing demonstrably feeds the value's words, not some constant.
    let a = Datum::new(1u64);
    let b = Datum::new(2u64);
    let mut ha = HashState::new();
    a.hash_into(&mut ha);
    let mut hb = HashState::new();
    b.hash_into(&mut hb);
    assert_ne!(ha.finish(), hb.finish());
}

#[test]
fn display_and_debug_text() {
    let d = Datum::new(34u64);
    assert_eq!(d.display_text(), "34");
    assert_eq!(d.debug_text(), "34");
    let p = Datum::new(pair("John", 34));
    assert_eq!(p.display_text(), "John:34");
    assert_eq!(p.debug_text(), "Pair(John,34)");
    let zero = Datum::new(0u64);
    assert_eq!(zero.display_text(), "0");
    let max = Datum::new(u64::MAX);
    assert_eq!(max.display_text(), "18446744073709551615");
}

#[test]
fn std_operators_match_methods() {
    let a = Datum::new(3u64);
    let b = Datum::new(3u64);
    let c = Datum::new(9u64);
    assert!(a == b);
    assert!(a != c);
    assert!(a < c);
    assert!(c > a);
    let p = Datum::new(pair("x", 1));
    // Across types `==` is false and the partial order is vacuous.
    assert!(a != p);
    assert!(!(a < p) && !(p < a) && !(a > p) && !(p > a));
}

#[test]
fn from_boxed_wraps_like_new() {
    let a = Datum::from_boxed(Box::new(41u64));
    let b = Datum::new(41u64);
    assert!(a.equals(&b));
    let p = Datum::from_boxed(Box::new(pair("Ada", 36)));
    assert_eq!(p.display_text(), "Ada:36");
}

//! End-to-end scenario: a reader extension wraps a custom record as an
//! erased value inside a document, and a consumer recovers it.

use core::cmp::Ordering;
use erased_datum::Datum;
use erased_datum::Pair;

/// The surrounding value model's closed set of value kinds, with the one
/// opaque kind that carries an erased handle.
enum Value {
    Text(String),
    Opaque(Datum),
}

/// The extension callback: parses the body of a tagged literal such as
/// `#pair John 34` into a `Pair` and wraps it as an opaque value.
fn pair_callback(body: &str) -> Option<Value> {
    let mut parts = body.split_whitespace();
    let name = parts.next()?;
    let age: u8 = parts.next()?.parse().ok()?;
    if parts.next().is_some() {
        return None;
    }
    Some(Value::Opaque(Datum::new(Pair {
        name: String::from(name),
        age,
    })))
}

/// A toy reader: a document is a line; a `#pair` tag goes to the callback,
/// anything else stays text.
fn read_document(doc: &str) -> Option<Value> {
    match doc.strip_prefix("#pair ") {
        Some(body) => pair_callback(body),
        None => Some(Value::Text(String::from(doc))),
    }
}

#[test]
fn tagged_literal_roundtrip() {
    let value = read_document("#pair John 34").unwrap();
    match value {
        Value::Opaque(datum) => {
            let p = datum.downcast::<Pair>().ok().unwrap();
            assert_eq!(p.name, "John");
            assert_eq!(p.age, 34);
        }
        Value::Text(_) => panic!("a tagged literal must become an opaque value"),
    }
}

#[test]
fn untagged_document_stays_text() {
    match read_document("plain words").unwrap() {
        Value::Text(t) => assert_eq!(t, "plain words"),
        Value::Opaque(_) => panic!("plain text must stay text"),
    }
}

#[test]
fn unicode_names_survive_erasure() {
    let d = Datum::new(Pair {
        name: String::from("Zo\u{17d}ofia \u{1f600}"),
        age: 1,
    });
    let p = d.downcast::<Pair>().ok().unwrap();
    assert_eq!(p.name, "Zo\u{17d}ofia \u{1f600}");
    assert_eq!(p.age, 1);
}

#[test]
fn nul_and_empty_names_survive_erasure() {
    let empty = Datum::new(Pair {
        name: String::new(),
        age: 0,
    });
    assert_eq!(empty.display_text(), ":0");
    let back = empty.downcast::<Pair>().ok().unwrap();
    assert_eq!(back.name, "");
    assert_eq!(back.age, 0);

    let nul = Datum::new(Pair {
        name: String::from("\u{0}"),
        age: 255,
    });
    let back = nul.downcast::<Pair>().ok().unwrap();
    assert_eq!(back.name, "\u{0}");
    assert_eq!(back.age, 255);
}

#[test]
fn empty_name_orders_first() {
    let empty = Datum::new(Pair {
        name: String::new(),
        age: 200,
    });
    let named = Datum::new(Pair {
        name: String::from("A"),
        age: 0,
    });
    assert_eq!(empty.ordering(&named), Ordering::Less);
}

use npm_powertoys::text::{comes_first, push_decimal, same_text, strip_quotes};
use npm_powertoys::version::Version;

fn decimal(n: u64) -> String {
    let mut out = String::new();
    push_decimal(&mut out, n);
    out
}

#[test]
fn decimal_notation() {
    assert_eq!(decimal(0), "0");
    assert_eq!(decimal(7), "7");
    assert_eq!(decimal(10), "10");
    assert_eq!(decimal(1203), "1203");
    assert_eq!(decimal(u64::MAX), "18446744073709551615");
    for n in [9u64, 99, 100, 101, 4096, 900_719_925_474_099] {
        assert_eq!(decimal(n), n.to_string());
    }
}

#[test]
fn decimal_is_appended() {
    let mut out = String::from("v");
    push_decimal(&mut out, 42);
    assert_eq!(out, "v42");
    push_decimal(&mut out, 0);
    assert_eq!(out, "v420");
}

#[test]
fn version_notation() {
    assert_eq!(Version::new(1, 3, 0).render(), "1.3.0");
    assert_eq!(Version::new(0, 0, 0).render(), "0.0.0");
    assert_eq!(Version::new(12, 0, 345).render(), "12.0.345");
    let mut out = String::from("^");
    Version::new(2, 10, 1).push_onto(&mut out);
    assert_eq!(out, "^2.10.1");
}

#[test]
fn version_precedence() {
    let v = Version::new(1, 2, 3);
    assert!(Version::new(2, 0, 0).is_newer_than(&v));
    assert!(Version::new(1, 3, 0).is_newer_than(&v));
    assert!(Version::new(1, 2, 4).is_newer_than(&v));
    assert!(!v.is_newer_than(&v));
    assert!(!Version::new(1, 2, 2).is_newer_than(&v));
    assert!(!Version::new(1, 1, 9).is_newer_than(&v));
    assert!(!Version::new(0, 9, 9).is_newer_than(&v));
}

#[test]
fn quotes_are_taken_out() {
    assert_eq!(strip_quotes("\"^1.0.0\""), "^1.0.0");
    assert_eq!(strip_quotes("1.0.0"), "1.0.0");
    assert_eq!(strip_quotes("a\"b\"c\""), "abc");
    assert_eq!(strip_quotes("\"\""), "");
    assert_eq!(strip_quotes(""), "");
    assert_eq!(strip_quotes("{\"a\":1}"), "{a:1}");
}

#[test]
fn texts_are_compared_by_character() {
    assert!(same_text("node_modules", "node_modules"));
    assert!(!same_text("node_modules", "node_module"));
    assert!(!same_text("node_modules", "Node_modules"));
    assert!(same_text("", ""));
    assert!(same_text("é", "é"));
}

#[test]
fn dictionary_order_is_that_of_strings() {
    let words = ["", "a", "ab", "abc", "b", "B", "left-pad", "lodash", "@scope/pkg", "é", "z"];
    for a in words {
        for b in words {
            assert_eq!(comes_first(a, b), a <= b, "{:?} {:?}", a, b);
        }
    }
}

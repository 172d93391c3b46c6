use apoloo::number::{abs_bits, equal_bits, less_bits, nan_bits, negate_bits};
use apoloo::value::{Value, ValueKind, ValueRepr};
use std::cmp::Ordering;

fn samples() -> Vec<f64> {
    vec![
        0.0,
        -0.0,
        1.0,
        -1.0,
        0.5,
        -0.5,
        1.5,
        2.0,
        1e308,
        -1e308,
        5e-324,
        -5e-324,
        f64::MIN_POSITIVE,
        f64::MAX,
        f64::MIN,
        f64::INFINITY,
        f64::NEG_INFINITY,
        f64::NAN,
        -f64::NAN,
        f64::from_bits(0x7ff0_0000_0000_0001),
        f64::from_bits(0xffff_ffff_ffff_ffff),
        f64::EPSILON,
        123456789.125,
    ]
}

fn number(x: f64) -> Value {
    Value(ValueRepr::Number(x.to_bits()))
}

fn text(s: &str) -> Value {
    Value(ValueRepr::String(s.to_string()))
}

#[test]
fn number_equality_is_that_of_the_floats() {
    for a in samples() {
        for b in samples() {
            assert_eq!(equal_bits(a.to_bits(), b.to_bits()), a == b, "{} == {}", a, b);
        }
    }
}

#[test]
fn number_order_is_that_of_the_floats() {
    for a in samples() {
        for b in samples() {
            assert_eq!(less_bits(a.to_bits(), b.to_bits()), a < b, "{} < {}", a, b);
        }
    }
}

#[test]
fn number_negation_is_that_of_the_floats() {
    for a in samples() {
        assert_eq!(negate_bits(a.to_bits()), (-a).to_bits());
        assert_eq!(negate_bits(negate_bits(a.to_bits())), a.to_bits());
        assert_eq!(nan_bits(a.to_bits()), a.is_nan());
        assert_eq!(abs_bits(a.to_bits()), a.abs().to_bits());
    }
}

#[test]
fn values_are_compared_for_equality() {
    assert!(number(1.0) == number(1.0));
    assert!(number(0.0) == number(-0.0));
    assert!(number(1.0) != number(2.0));
    assert!(number(f64::NAN) != number(f64::NAN));
    assert!(Value::new() == Value::new());
    assert!(Value(ValueRepr::Boolean(true)) == Value(ValueRepr::Boolean(true)));
    assert!(Value(ValueRepr::Boolean(true)) != Value(ValueRepr::Boolean(false)));
    assert!(text("a") == text("a"));
    assert!(text("a") != text("b"));
    assert!(text("1") != number(1.0));
    assert!(Value::new() != Value(ValueRepr::Boolean(false)));
    assert!(number(0.0) != Value(ValueRepr::Boolean(false)));
}

#[test]
fn values_are_ordered() {
    for a in samples() {
        for b in samples() {
            assert_eq!(number(a).partial_cmp(&number(b)), a.partial_cmp(&b), "{} ? {}", a, b);
            assert_eq!(number(a) < number(b), a < b);
            assert_eq!(number(a) > number(b), a > b);
            assert_eq!(number(a).less(&number(b)), a < b);
            assert_eq!(number(a).greater(&number(b)), a > b);
        }
    }
    let words = ["", "a", "ab", "b", "B", "\u{e9}", "z", "\u{4e16}", "a\u{0}"];
    for a in words {
        for b in words {
            assert_eq!(text(a).partial_cmp(&text(b)), a.partial_cmp(b), "{:?} ? {:?}", a, b);
            assert_eq!(text(a).less(&text(b)), a < b);
            assert_eq!(text(a).greater(&text(b)), a > b);
        }
    }
    assert_eq!(number(1.0).partial_cmp(&number(2.0)), Some(Ordering::Less));
    assert_eq!(text("b").partial_cmp(&text("a")), Some(Ordering::Greater));
    assert_eq!(text("a").partial_cmp(&text("a")), Some(Ordering::Equal));
}

#[test]
fn values_of_different_kinds_have_no_order() {
    assert_eq!(number(1.0).partial_cmp(&text("1")), None);
    assert_eq!(Value::new().partial_cmp(&Value::new()), None);
    assert_eq!(
        Value(ValueRepr::Boolean(false)).partial_cmp(&Value(ValueRepr::Boolean(true))),
        None
    );
    assert!(number(1.0).orderable_with(&number(f64::NAN)));
    assert!(text("a").orderable_with(&text("b")));
    assert!(!number(1.0).orderable_with(&text("b")));
    assert!(!Value::new().orderable_with(&Value::new()));
    assert!(!number(1.0).less(&text("b")));
    assert!(!number(1.0).greater(&text("b")));
}

#[test]
fn only_nil_and_false_are_falsey() {
    assert!(Value::new().is_falsey());
    assert!(Value(ValueRepr::Boolean(false)).is_falsey());
    assert!(!Value(ValueRepr::Boolean(true)).is_falsey());
    assert!(!number(0.0).is_falsey());
    assert!(!number(f64::NAN).is_falsey());
    assert!(!text("").is_falsey());
}

#[test]
fn values_have_kinds() {
    assert_eq!(Value::new().0.kind(), ValueKind::Nil);
    assert_eq!(ValueRepr::Boolean(true).kind(), ValueKind::Bool);
    assert_eq!(ValueRepr::Number(0).kind(), ValueKind::Number);
    assert_eq!(ValueRepr::String(String::new()).kind(), ValueKind::String);
    assert!(matches!(ValueRepr::default(), ValueRepr::Nil()));
}

#[test]
fn values_are_shown_as_text() {
    assert_eq!(Value::new().to_text(), Some("nil".to_string()));
    assert_eq!(Value(ValueRepr::Boolean(true)).to_text(), Some("true".to_string()));
    assert_eq!(Value(ValueRepr::Boolean(false)).to_text(), Some("false".to_string()));
    assert_eq!(text("a b").to_text(), Some("a b".to_string()));
    assert_eq!(number(1.0).to_text(), None);
}

#[test]
fn clone_keeps_the_value() {
    let first = text("abc");
    let copy = first.clone();
    assert!(copy == first);
    assert!(matches!(number(2.5).clone().0, ValueRepr::Number(b) if f64::from_bits(b) == 2.5));
}

use muninn::catalogue::{build_schema, Catalogue};
use muninn::document::{coerce_value, marshal_document, FieldValue, FloatSource, HostValue};
use muninn::catalogue::FieldKind;

fn none() -> HostValue {
    HostValue { text: None, unsigned: None, signed: None, float_bits: None, boolean: None }
}

fn text(s: &str) -> HostValue {
    HostValue { text: Some(s.to_string()), ..none() }
}

fn unsigned(n: u64) -> HostValue {
    let signed = if n <= i64::MAX as u64 { Some(n as i64) } else { None };
    HostValue { unsigned: Some(n), signed, ..none() }
}

fn signed(n: i64) -> HostValue {
    let unsigned = if n >= 0 { Some(n as u64) } else { None };
    HostValue { unsigned, signed: Some(n), ..none() }
}

fn float(x: f64) -> HostValue {
    HostValue { float_bits: Some(x.to_bits()), ..none() }
}

fn boolean(b: bool) -> HostValue {
    HostValue { boolean: Some(b), ..none() }
}

fn catalogue() -> Catalogue {
    build_schema(vec![
        ("title".to_string(), "text".to_string(), true, true),
        ("views".to_string(), "u64".to_string(), true, true),
        ("delta".to_string(), "i64".to_string(), true, true),
        ("ratio".to_string(), "f64".to_string(), true, true),
        ("live".to_string(), "bool".to_string(), true, true),
    ])
    .unwrap()
}

fn is_text(v: &Option<FieldValue>, s: &str) -> bool {
    matches!(v, Some(FieldValue::Text(t)) if t == s)
}

#[test]
fn text_takes_strings_only() {
    assert!(is_text(&coerce_value(FieldKind::Text, &text("Hello")), "Hello"));
    assert!(coerce_value(FieldKind::Text, &unsigned(7)).is_none());
    assert!(coerce_value(FieldKind::Text, &boolean(true)).is_none());
}

#[test]
fn unsigned_refuses_negative_values() {
    assert!(matches!(coerce_value(FieldKind::UnsignedInt, &unsigned(42)), Some(FieldValue::UnsignedInt(42))));
    assert!(matches!(
        coerce_value(FieldKind::UnsignedInt, &HostValue { signed: Some(5), ..none() }),
        Some(FieldValue::UnsignedInt(5))
    ));
    assert!(coerce_value(FieldKind::UnsignedInt, &signed(-1)).is_none());
    assert!(coerce_value(FieldKind::UnsignedInt, &signed(i64::MIN)).is_none());
    assert!(coerce_value(FieldKind::UnsignedInt, &text("42")).is_none());
}

#[test]
fn signed_takes_unsigned_with_wrap() {
    assert!(matches!(coerce_value(FieldKind::SignedInt, &signed(-3)), Some(FieldValue::SignedInt(-3))));
    assert!(matches!(
        coerce_value(FieldKind::SignedInt, &unsigned(u64::MAX)),
        Some(FieldValue::SignedInt(-1))
    ));
    assert!(coerce_value(FieldKind::SignedInt, &float(1.5)).is_none());
}

#[test]
fn float_prefers_float_then_signed_then_unsigned() {
    let bits = 2.5f64.to_bits();
    assert!(matches!(coerce_value(FieldKind::Float, &float(2.5)), Some(FieldValue::Float(FloatSource::Bits(b))) if b == bits));
    assert!(matches!(coerce_value(FieldKind::Float, &signed(-4)), Some(FieldValue::Float(FloatSource::Signed(-4)))));
    assert!(matches!(
        coerce_value(FieldKind::Float, &unsigned(u64::MAX)),
        Some(FieldValue::Float(FloatSource::Unsigned(u64::MAX)))
    ));
    assert!(coerce_value(FieldKind::Float, &boolean(false)).is_none());
}

#[test]
fn boolean_takes_booleans_only() {
    assert!(matches!(coerce_value(FieldKind::Boolean, &boolean(true)), Some(FieldValue::Boolean(true))));
    assert!(coerce_value(FieldKind::Boolean, &unsigned(1)).is_none());
}

#[test]
fn marshal_skips_unknown_names_and_bad_values() {
    let doc = vec![
        ("title".to_string(), text("Hello World")),
        ("nope".to_string(), text("ignored")),
        ("views".to_string(), signed(-2)),
        ("live".to_string(), boolean(true)),
        ("delta".to_string(), text("x")),
    ];
    let t = marshal_document(&catalogue(), &doc);
    assert_eq!(t.len(), 2);
    assert_eq!(t[0].0, 0);
    assert!(matches!(&t[0].1, FieldValue::Text(s) if s == "Hello World"));
    assert_eq!(t[1].0, 4);
    assert!(matches!(t[1].1, FieldValue::Boolean(true)));
}

#[test]
fn marshal_text_field_given_number_is_omitted() {
    let doc = vec![("title".to_string(), unsigned(3)), ("views".to_string(), unsigned(3))];
    let t = marshal_document(&catalogue(), &doc);
    assert_eq!(t.len(), 1);
    assert_eq!(t[0].0, 1);
    assert!(matches!(t[0].1, FieldValue::UnsignedInt(3)));
}

#[test]
fn marshal_empty_document() {
    assert!(marshal_document(&catalogue(), &Vec::new()).is_empty());
}

#[test]
fn marshal_scenario_document() {
    let c = build_schema(vec![
        ("title".to_string(), "text".to_string(), true, true),
        ("views".to_string(), "u64".to_string(), true, true),
    ])
    .unwrap();
    let doc = vec![("title".to_string(), text("Hello World")), ("views".to_string(), unsigned(42))];
    let t = marshal_document(&c, &doc);
    assert_eq!(t.len(), 2);
    assert!(matches!(&t[0], (0, FieldValue::Text(s)) if s == "Hello World"));
    assert!(matches!(t[1], (1, FieldValue::UnsignedInt(42))));
}

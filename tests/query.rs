use muninn::catalogue::{build_schema, Catalogue, FieldKind};
use muninn::query::{
    build_fuzzy_prefix_query, build_fuzzy_query, build_parsed_query, build_prefix_query,
    build_range_f64_query, build_range_i64_query, build_range_u64_query, build_term_query,
    prefix_pattern, resolve_field, Query, QueryError, TermQueryDef,
};

fn catalogue() -> Catalogue {
    build_schema(vec![
        ("title".to_string(), "text".to_string(), true, true),
        ("views".to_string(), "u64".to_string(), true, true),
        ("delta".to_string(), "i64".to_string(), true, true),
        ("ratio".to_string(), "f64".to_string(), true, true),
        ("body".to_string(), "text".to_string(), true, true),
    ])
    .unwrap()
}

fn not_found(name: &str) -> QueryError {
    QueryError::FieldNotFound(name.to_string())
}

fn wrong_type(name: &str) -> QueryError {
    QueryError::UnsupportedFieldType(name.to_string())
}

#[test]
fn resolve_field_checks_name_and_kind() {
    let c = catalogue();
    assert_eq!(resolve_field(&c, "body", FieldKind::Text), Ok(4));
    assert_eq!(resolve_field(&c, "views", FieldKind::Text), Err(wrong_type("views")));
    assert_eq!(resolve_field(&c, "titel", FieldKind::Text), Err(not_found("titel")));
}

#[test]
fn term_query_on_text_field() {
    let def = TermQueryDef { field: "title".to_string(), value: "hello".to_string() };
    match build_term_query(&catalogue(), &def).unwrap() {
        Query::Term { field, text } => {
            assert_eq!(field, 0);
            assert_eq!(text, "hello");
        }
        other => panic!("unexpected query {:?}", other),
    }
}

#[test]
fn term_query_refuses_other_kinds_and_unknown_fields() {
    let c = catalogue();
    let def = TermQueryDef { field: "views".to_string(), value: "42".to_string() };
    assert_eq!(build_term_query(&c, &def).unwrap_err(), wrong_type("views"));
    let def = TermQueryDef { field: "missing".to_string(), value: "x".to_string() };
    assert_eq!(build_term_query(&c, &def).unwrap_err(), not_found("missing"));
}

#[test]
fn unknown_field_fails_for_every_query_shape() {
    let c = catalogue();
    assert_eq!(build_prefix_query(&c, "nope", "he").unwrap_err(), not_found("nope"));
    assert_eq!(build_range_u64_query(&c, "nope", 0, 1, true, true).unwrap_err(), not_found("nope"));
    assert_eq!(build_range_i64_query(&c, "nope", 0, 1, true, true).unwrap_err(), not_found("nope"));
    assert_eq!(build_range_f64_query(&c, "nope", 0, 1, true, true).unwrap_err(), not_found("nope"));
    assert_eq!(build_fuzzy_query(&c, "nope", "x", 1, true).unwrap_err(), not_found("nope"));
    assert_eq!(build_fuzzy_prefix_query(&c, "nope", "x", 1, true).unwrap_err(), not_found("nope"));
    let fields = vec!["title".to_string(), "nope".to_string()];
    assert_eq!(build_parsed_query(&c, "hello", &fields).unwrap_err(), not_found("nope"));
}

#[test]
fn parsed_query_resolves_default_fields() {
    let fields = vec!["body".to_string(), "title".to_string()];
    match build_parsed_query(&catalogue(), "title:hello AND world", &fields).unwrap() {
        Query::Parsed { text, fields } => {
            assert_eq!(text, "title:hello AND world");
            assert_eq!(fields, vec![4, 0]);
        }
        other => panic!("unexpected query {:?}", other),
    }
}

#[test]
fn parsed_query_needs_a_default_field() {
    assert_eq!(build_parsed_query(&catalogue(), "hello", &Vec::new()).unwrap_err(), QueryError::EmptyFieldList);
}

#[test]
fn prefix_pattern_appends_word_tail() {
    assert_eq!(prefix_pattern("hel"), "hel[a-z0-9]*");
    assert_eq!(prefix_pattern(""), "[a-z0-9]*");
}

#[test]
fn prefix_query_lowercases_and_escapes() {
    let c = catalogue();
    match build_prefix_query(&c, "title", "hel").unwrap() {
        Query::Prefix { field, pattern } => {
            assert_eq!(field, 0);
            assert_eq!(pattern, "hel[a-z0-9]*");
        }
        other => panic!("unexpected query {:?}", other),
    }
    match build_prefix_query(&c, "title", "C++.Net").unwrap() {
        Query::Prefix { pattern, .. } => assert_eq!(pattern, "c\\+\\+\\.net[a-z0-9]*"),
        other => panic!("unexpected query {:?}", other),
    }
}

#[test]
fn prefix_query_refuses_empty_prefix() {
    assert_eq!(build_prefix_query(&catalogue(), "title", "").unwrap_err(), QueryError::EmptyPrefix);
}

#[test]
fn prefix_query_checks_field_before_prefix() {
    let c = catalogue();
    assert_eq!(build_prefix_query(&c, "views", "").unwrap_err(), wrong_type("views"));
    assert_eq!(build_prefix_query(&c, "nope", "").unwrap_err(), not_found("nope"));
}

#[test]
fn range_queries_need_matching_numeric_kind() {
    let c = catalogue();
    match build_range_u64_query(&c, "views", 0, 10, true, false).unwrap() {
        Query::RangeU64 { field, lower, upper, lower_inclusive, upper_inclusive } => {
            assert_eq!((field, lower, upper, lower_inclusive, upper_inclusive), (1, 0, 10, true, false));
        }
        other => panic!("unexpected query {:?}", other),
    }
    assert_eq!(build_range_u64_query(&c, "delta", 0, 10, true, true).unwrap_err(), wrong_type("delta"));
    assert!(matches!(
        build_range_i64_query(&c, "delta", -5, 5, false, true).unwrap(),
        Query::RangeI64 { field: 2, lower: -5, upper: 5, lower_inclusive: false, upper_inclusive: true }
    ));
    assert_eq!(build_range_i64_query(&c, "views", 0, 1, true, true).unwrap_err(), wrong_type("views"));
    let (lo, hi) = (0.5f64.to_bits(), 2.0f64.to_bits());
    match build_range_f64_query(&c, "ratio", lo, hi, true, true).unwrap() {
        Query::RangeF64 { field, lower_bits, upper_bits, .. } => {
            assert_eq!((field, lower_bits, upper_bits), (3, lo, hi));
        }
        other => panic!("unexpected query {:?}", other),
    }
    assert_eq!(build_range_f64_query(&c, "views", lo, hi, true, true).unwrap_err(), wrong_type("views"));
}

#[test]
fn fuzzy_queries_on_text_fields() {
    let c = catalogue();
    match build_fuzzy_query(&c, "body", "helo", 1, true).unwrap() {
        Query::Fuzzy { field, term, distance, transposition_cost_one } => {
            assert_eq!((field, term.as_str(), distance, transposition_cost_one), (4, "helo", 1, true));
        }
        other => panic!("unexpected query {:?}", other),
    }
    match build_fuzzy_prefix_query(&c, "title", "wor", 2, false).unwrap() {
        Query::FuzzyPrefix { field, prefix, distance, transposition_cost_one } => {
            assert_eq!((field, prefix.as_str(), distance, transposition_cost_one), (0, "wor", 2, false));
        }
        other => panic!("unexpected query {:?}", other),
    }
    assert_eq!(build_fuzzy_query(&c, "ratio", "x", 1, true).unwrap_err(), wrong_type("ratio"));
}

#[test]
fn query_error_messages_name_the_culprit() {
    assert!(not_found("titel").message().contains("titel"));
    assert!(wrong_type("views").message().contains("views"));
    assert_eq!(QueryError::EmptyPrefix.message(), "Prefix cannot be empty");
    let e = QueryError::Parse { query: "a AND".to_string(), reason: "unexpected end".to_string() };
    assert_eq!(e.message(), "Failed to parse query 'a AND': unexpected end");
}

use std::cmp::Ordering;

use nextdb_server::json::{JsonNumber, JsonValue};
use nextdb_server::predicate_fields::{
    RecordPredicate, RecordPredicateOp, RecordPredicateTerm, validate_record_predicate,
    value_at_field_path,
};
use nextdb_server::predicate_match::{record_matches_predicate, record_matches_predicate_term};
use nextdb_server::records::DbRecord;

fn text(s: &str) -> JsonValue {
    JsonValue::String(s.to_string())
}

fn object(members: Vec<(&str, JsonValue)>) -> JsonValue {
    let mut members: Vec<(String, JsonValue)> =
        members.into_iter().map(|(k, v)| (k.to_string(), v)).collect();
    members.sort_by(|a, b| a.0.cmp(&b.0));
    JsonValue::Object(members)
}

fn record(value: JsonValue) -> DbRecord {
    DbRecord {
        table: "notes".to_string(),
        key: "n1".to_string(),
        path: "tables/notes/n1".to_string(),
        value,
        lsn: 1,
    }
}

fn term(field: &str, op: RecordPredicateOp, value: Option<JsonValue>) -> RecordPredicateTerm {
    RecordPredicateTerm { field: field.to_string(), op, value }
}

fn sample() -> DbRecord {
    record(object(vec![
        ("title", text("hello world")),
        ("count", JsonValue::Number(JsonNumber::PosInt(3))),
        (
            "meta",
            object(vec![
                ("owner", text("ada")),
                ("tags", JsonValue::Array(vec![text("red"), text("blue")])),
            ]),
        ),
    ]))
}

#[test]
fn field_paths_reach_nested_members() {
    let r = sample();
    assert!(matches!(value_at_field_path(&r.value, "meta.owner"), Some(JsonValue::String(s)) if s == "ada"));
    assert!(value_at_field_path(&r.value, "meta.missing").is_none());
    assert!(value_at_field_path(&r.value, "title.inner").is_none());
}

#[test]
fn validation_refuses_bad_fields_and_missing_values() {
    let ok = RecordPredicate { all: vec![term("meta.owner", RecordPredicateOp::Eq, Some(text("ada")))] };
    assert!(validate_record_predicate(&ok).is_ok());

    let bad_field = RecordPredicate { all: vec![term("meta..owner", RecordPredicateOp::Eq, Some(text("ada")))] };
    let err = validate_record_predicate(&bad_field).unwrap_err();
    assert_eq!(err.message, "invalid predicate field");

    let bad_char = RecordPredicate { all: vec![term("meta/owner", RecordPredicateOp::Exists, None)] };
    assert_eq!(validate_record_predicate(&bad_char).unwrap_err().message, "invalid predicate field");

    let no_value = RecordPredicate { all: vec![term("title", RecordPredicateOp::Lt, None)] };
    assert_eq!(validate_record_predicate(&no_value).unwrap_err().message, "predicate term requires value");

    let exists_without_value = RecordPredicate { all: vec![term("title", RecordPredicateOp::Exists, None)] };
    assert!(validate_record_predicate(&exists_without_value).is_ok());

    let too_many = RecordPredicate {
        all: (0..33).map(|_| term("title", RecordPredicateOp::Exists, None)).collect(),
    };
    assert_eq!(
        validate_record_predicate(&too_many).unwrap_err().message,
        "record predicate supports at most 32 all terms"
    );
}

#[test]
fn terms_compare_strings_contain_and_exist() {
    let r = sample();
    assert!(record_matches_predicate_term(&r, &term("title", RecordPredicateOp::Eq, Some(text("hello world"))), None));
    assert!(!record_matches_predicate_term(&r, &term("title", RecordPredicateOp::Ne, Some(text("hello world"))), None));
    assert!(record_matches_predicate_term(&r, &term("title", RecordPredicateOp::Contains, Some(text("lo wo"))), None));
    assert!(record_matches_predicate_term(&r, &term("title", RecordPredicateOp::StartsWith, Some(text("hell"))), None));
    assert!(!record_matches_predicate_term(&r, &term("title", RecordPredicateOp::StartsWith, Some(text("world"))), None));
    assert!(record_matches_predicate_term(&r, &term("meta.tags", RecordPredicateOp::Contains, Some(text("blue"))), None));
    assert!(!record_matches_predicate_term(&r, &term("meta.tags", RecordPredicateOp::Contains, Some(text("green"))), None));
    assert!(record_matches_predicate_term(&r, &term("meta.owner", RecordPredicateOp::Lt, Some(text("bob"))), None));
    assert!(record_matches_predicate_term(&r, &term("meta.owner", RecordPredicateOp::Gte, Some(text("ada"))), None));
    assert!(!record_matches_predicate_term(&r, &term("meta.owner", RecordPredicateOp::Gt, Some(text("ada"))), None));
    assert!(record_matches_predicate_term(&r, &term("meta.owner", RecordPredicateOp::Exists, None), None));
    assert!(record_matches_predicate_term(
        &r,
        &term("meta.missing", RecordPredicateOp::Exists, Some(JsonValue::Bool(false))),
        None
    ));
    // a missing field meets no comparison, not even `ne`
    assert!(!record_matches_predicate_term(&r, &term("missing", RecordPredicateOp::Ne, Some(text("x"))), None));
}

#[test]
fn number_terms_follow_the_given_comparison() {
    let r = sample();
    let three = || Some(JsonValue::Number(JsonNumber::PosInt(3)));
    let five = || Some(JsonValue::Number(JsonNumber::PosInt(5)));
    assert!(record_matches_predicate_term(&r, &term("count", RecordPredicateOp::Lt, five()), Some(Ordering::Less)));
    assert!(!record_matches_predicate_term(&r, &term("count", RecordPredicateOp::Lt, five()), None));
    assert!(record_matches_predicate_term(&r, &term("count", RecordPredicateOp::Lte, three()), Some(Ordering::Equal)));
    assert!(!record_matches_predicate_term(&r, &term("count", RecordPredicateOp::Gt, three()), Some(Ordering::Equal)));
    // a number never compares with a string
    assert!(!record_matches_predicate_term(&r, &term("count", RecordPredicateOp::Lt, Some(text("9"))), Some(Ordering::Less)));
}

#[test]
fn predicates_need_every_term() {
    let r = sample();
    assert!(record_matches_predicate(&r, None, &vec![]));
    let both = RecordPredicate {
        all: vec![
            term("meta.owner", RecordPredicateOp::Eq, Some(text("ada"))),
            term("count", RecordPredicateOp::Gte, Some(JsonValue::Number(JsonNumber::PosInt(2)))),
        ],
    };
    assert!(record_matches_predicate(&r, Some(&both), &vec![None, Some(Ordering::Greater)]));
    assert!(!record_matches_predicate(&r, Some(&both), &vec![None, Some(Ordering::Less)]));
    assert!(!record_matches_predicate(&r, Some(&both), &vec![None]));
    let empty = RecordPredicate { all: vec![] };
    assert!(record_matches_predicate(&r, Some(&empty), &vec![]));
}

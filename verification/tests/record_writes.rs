use nextdb_server::json::{JsonNumber, JsonValue};
use nextdb_server::record_checks::{
    LiveRecord, ensure_expected_record_lsn, live_record_state, validate_nested_record_identity,
    validate_record_identity,
};
use nextdb_server::records::{DbRecord, SchemaTable};

fn tables() -> Vec<SchemaTable> {
    vec![SchemaTable { name: "rooms".to_string(), nested: vec!["messages".to_string()] }]
}

fn doc(members: Vec<(&str, JsonValue)>) -> JsonValue {
    let mut members: Vec<(String, JsonValue)> =
        members.into_iter().map(|(k, v)| (k.to_string(), v)).collect();
    members.sort_by(|a, b| a.0.cmp(&b.0));
    JsonValue::Object(members)
}

fn text(s: &str) -> JsonValue {
    JsonValue::String(s.to_string())
}

fn record(lsn: u64) -> DbRecord {
    DbRecord {
        table: "rooms".to_string(),
        key: "r1".to_string(),
        path: "tables/rooms/r1".to_string(),
        value: JsonValue::Null,
        lsn,
    }
}

#[test]
fn record_documents_must_name_their_key() {
    let t = tables();
    assert!(validate_record_identity("rooms", "r1", &doc(vec![("id", text("r1"))]), &t, Ok(())).is_ok());
    assert!(validate_record_identity("rooms", "r1", &doc(vec![("name", text("x"))]), &t, Ok(())).is_ok());
    // an id that is not a string is not compared
    let numeric = doc(vec![("id", JsonValue::Number(JsonNumber::PosInt(7)))]);
    assert!(validate_record_identity("rooms", "r1", &numeric, &t, Ok(())).is_ok());
    let e = validate_record_identity("rooms", "r1", &doc(vec![("id", text("r2"))]), &t, Ok(())).unwrap_err();
    assert_eq!(e.message, "record value.id must match key");
    let e = validate_record_identity("rooms", "r1", &doc(vec![]), &t, Err("missing field name".to_string())).unwrap_err();
    assert_eq!(e.message, "missing field name");
    // the path is checked before the document
    let e = validate_record_identity("rooms", "..", &doc(vec![("id", text("r2"))]), &t, Ok(())).unwrap_err();
    assert_eq!(e.message, "invalid record key");
}

#[test]
fn nested_documents_must_name_their_key_and_parent() {
    let t = tables();
    let ok = doc(vec![("id", text("m1")), ("parentId", text("r1"))]);
    assert!(validate_nested_record_identity("rooms", "r1", "messages", "m1", &ok, &t, Ok(())).is_ok());
    let wrong_id = doc(vec![("id", text("m2"))]);
    let e = validate_nested_record_identity("rooms", "r1", "messages", "m1", &wrong_id, &t, Ok(())).unwrap_err();
    assert_eq!(e.message, "nested record value.id must match key");
    let wrong_parent = doc(vec![("parentKey", text("r9"))]);
    let e = validate_nested_record_identity("rooms", "r1", "messages", "m1", &wrong_parent, &t, Ok(())).unwrap_err();
    assert_eq!(e.message, "nested record parentId/parentKey must match parent key");
    // parentId wins over parentKey, and a parentId that is not a string hides parentKey
    let both = doc(vec![("parentId", text("r1")), ("parentKey", text("r9"))]);
    assert!(validate_nested_record_identity("rooms", "r1", "messages", "m1", &both, &t, Ok(())).is_ok());
    let odd = doc(vec![("parentId", JsonValue::Null), ("parentKey", text("r9"))]);
    assert!(validate_nested_record_identity("rooms", "r1", "messages", "m1", &odd, &t, Ok(())).is_ok());
}

#[test]
fn expected_versions_must_match() {
    let current = record(7);
    assert_eq!(ensure_expected_record_lsn(Some(&current), None).ok(), Some(7));
    assert_eq!(ensure_expected_record_lsn(Some(&current), Some(7)).ok(), Some(7));
    assert_eq!(ensure_expected_record_lsn(None, Some(0)).ok(), Some(0));
    let e = ensure_expected_record_lsn(Some(&current), Some(6)).err().unwrap();
    assert_eq!(e.message, "record version conflict: expected lsn 6, found 7");
    let e = ensure_expected_record_lsn(None, Some(3)).err().unwrap();
    assert_eq!(e.message, "record version conflict: expected lsn 3, found 0");
}

#[test]
fn hot_state_decides_what_is_current() {
    assert!(matches!(live_record_state(Some(Some(record(2))), false), LiveRecord::Present(r) if r.lsn == 2));
    assert!(matches!(live_record_state(Some(None), true), LiveRecord::Deleted));
    assert!(matches!(live_record_state(Some(None), false), LiveRecord::Unknown));
    assert!(matches!(live_record_state(None, true), LiveRecord::Unknown));
}

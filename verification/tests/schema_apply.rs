use nextdb_server::api_error::{ApiError, ApiErrorKind};
use nextdb_server::json::{JsonNumber, JsonValue};
use nextdb_server::schema_apply::{SchemaApplyPlan, schema_apply_plan};

fn err<T>(r: Result<T, ApiError>) -> ApiError {
    match r {
        Err(e) => e,
        Ok(_) => panic!("expected an error"),
    }
}

fn ok(r: Result<SchemaApplyPlan, ApiError>) -> SchemaApplyPlan {
    match r {
        Ok(p) => p,
        Err(e) => panic!("unexpected error {}", e.message),
    }
}

#[test]
fn an_apply_that_expects_another_version_is_a_conflict() {
    let e = err(schema_apply_plan(3, Some(2), None, true, None, false, false, false, true, true, false));
    assert_eq!(e.kind, ApiErrorKind::Conflict);
    assert_eq!(e.message, "schema version conflict: expected active version 2, got 3");
    assert_eq!(
        render(&e.details.unwrap()),
        "{\"activeVersion\":3,\"expectedVersion\":2,\"schemaVersionConflict\":true}"
    );
}

#[test]
fn an_invalid_schema_or_a_breaking_migration_is_refused() {
    let e = err(schema_apply_plan(3, None, Some("table users has no key".to_string()), true, None, false, false, false, true, true, false));
    assert_eq!(e.kind, ApiErrorKind::BadRequest);
    assert_eq!(e.message, "table users has no key");
    assert!(e.details.is_none());
    let e = err(schema_apply_plan(3, Some(3), None, false, Some("index changed".to_string()), true, false, false, true, true, false));
    assert_eq!(e.message, "index changed");
}

#[test]
fn a_breaking_migration_may_replay_when_allowed() {
    let p = ok(schema_apply_plan(3, Some(3), None, false, Some("index changed".to_string()), true, false, true, true, true, true));
    assert!(p.replay_rebuild);
    assert!(p.projection_rebuild);
    assert!(p.projection_rebuilt);
    assert!(p.persisted);
    assert!(p.mark_replay_committing);
    assert!(p.rebuild_object_refs);
}

#[test]
fn a_dry_run_changes_nothing() {
    let p = ok(schema_apply_plan(3, None, None, true, None, false, true, false, false, true, false));
    assert!(!p.replay_rebuild);
    assert!(p.projection_rebuild);
    assert!(!p.projection_rebuilt);
    assert!(!p.persisted);
    assert!(!p.mark_replay_committing);
    assert!(!p.rebuild_object_refs);
}

fn render(v: &JsonValue) -> String {
    match v {
        JsonValue::Null => "null".to_string(),
        JsonValue::Bool(b) => b.to_string(),
        JsonValue::Number(JsonNumber::PosInt(n)) => n.to_string(),
        JsonValue::Number(JsonNumber::NegInt(n)) => n.to_string(),
        JsonValue::Number(JsonNumber::Float(f)) => f.clone(),
        JsonValue::String(s) => format!("\"{s}\""),
        JsonValue::Array(a) => format!("[{}]", a.iter().map(render).collect::<Vec<_>>().join(",")),
        JsonValue::Object(m) => format!(
            "{{{}}}",
            m.iter().map(|(k, v)| format!("\"{k}\":{}", render(v))).collect::<Vec<_>>().join(",")
        ),
    }
}

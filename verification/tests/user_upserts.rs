use nextdb_server::json::JsonValue;
use nextdb_server::users::user_profile_draft;

#[test]
fn upserts_trim_names_and_keep_creation_time() {
    let d = user_profile_draft("u1", Some("m1".to_string()), Some("  Ada ".to_string()), JsonValue::Null, Some(5), 9);
    assert_eq!(d.display_name, Some("Ada".to_string()));
    assert!(matches!(&d.metadata, JsonValue::Object(m) if m.is_empty()));
    assert_eq!((d.created_at_ms, d.updated_at_ms), (5, 9));
    assert_eq!(d.path, "users/u1");
    assert_eq!(d.client_mutation_id, Some("m1".to_string()));
    let d = user_profile_draft("u2", None, Some("   ".to_string()), JsonValue::Bool(true), None, 9);
    assert_eq!(d.display_name, None);
    assert!(matches!(d.metadata, JsonValue::Bool(true)));
    assert_eq!(d.created_at_ms, 9);
}

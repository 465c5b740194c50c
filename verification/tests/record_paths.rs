use nextdb_server::api_error::ApiErrorKind;
use nextdb_server::json::JsonValue;
use nextdb_server::record_store::ensure_safe_record_component;
use nextdb_server::records::{
    DbRecord, SchemaTable, ensure_transaction_partition, record_matches_shard,
    validate_nested_record_path, validate_nested_table_path, validate_record_path,
    validate_table_path,
};
use nextdb_server::util::shard_index;

fn schema() -> Vec<SchemaTable> {
    vec![SchemaTable { name: "rooms".to_string(), nested: vec!["messages".to_string()] }]
}

#[test]
fn path_components_are_safe_names() {
    assert!(ensure_safe_record_component("room-a"));
    assert!(!ensure_safe_record_component(""));
    assert!(!ensure_safe_record_component(".."));
    assert!(!ensure_safe_record_component("a/b"));
    assert!(!ensure_safe_record_component("a\u{1}"));
}

#[test]
fn table_and_record_paths_are_checked() {
    let tables = schema();
    assert!(validate_table_path("rooms", &tables).is_ok());
    let e = validate_table_path("users", &tables).err().unwrap();
    assert!(e.kind == ApiErrorKind::NotFound);
    assert_eq!(e.message, "table not found");
    assert_eq!(validate_table_path("a/b", &tables).err().unwrap().message, "invalid table name");
    assert_eq!(validate_record_path("rooms", "..", &tables).err().unwrap().message, "invalid record key");
    assert!(validate_nested_table_path("rooms", "room-a", "messages", &tables).is_ok());
    assert_eq!(
        validate_nested_table_path("rooms", "room-a", "members", &tables).err().unwrap().message,
        "nested table not found"
    );
    assert_eq!(
        validate_nested_table_path("rooms", "", "messages", &tables).err().unwrap().message,
        "invalid parent record key"
    );
    assert_eq!(
        validate_nested_record_path("rooms", "room-a", "messages", "m/1", &tables).err().unwrap().message,
        "invalid nested record key"
    );
}

#[test]
fn transactions_stay_in_one_nested_partition() {
    let mut touched = Vec::new();
    let mut nested = None;
    assert!(ensure_transaction_partition(&mut touched, &mut nested, "rooms:a", true).is_ok());
    assert!(ensure_transaction_partition(&mut touched, &mut nested, "rooms:a", true).is_ok());
    assert_eq!(touched, vec!["rooms:a"]);
    let e = ensure_transaction_partition(&mut touched, &mut nested, "rooms:b", true).err().unwrap();
    assert_eq!(e.message, "nested transaction operations must target one parent partition; got rooms:a and rooms:b");
    let e = ensure_transaction_partition(&mut touched, &mut nested, "rooms:b", false).err().unwrap();
    assert_eq!(e.message, "nested transaction operations must not be mixed with top-level partition rooms:b");

    let mut touched = vec!["other".to_string()];
    let mut nested = None;
    let e = ensure_transaction_partition(&mut touched, &mut nested, "rooms:a", true).err().unwrap();
    assert_eq!(e.message, "nested transaction operations must not be mixed with a different partition than rooms:a");
    assert_eq!(nested.as_deref(), Some("rooms:a"));
}

#[test]
fn records_match_the_shard_of_table_and_key() {
    let record = DbRecord {
        table: "rooms".to_string(),
        key: "a".to_string(),
        path: "tables/rooms/a".to_string(),
        value: JsonValue::Null,
        lsn: 1,
    };
    let shard = shard_index("rooms:a", 8);
    assert!(record_matches_shard(&record, Some(shard), 8));
    assert!(!record_matches_shard(&record, Some((shard + 1) % 8), 8));
    assert!(record_matches_shard(&record, None, 8));
}

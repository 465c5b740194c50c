use nextdb_server::actor::ActorId;
use nextdb_server::api_error::ApiErrorKind;
use nextdb_server::behavior::ActorKind;
use nextdb_server::json::JsonValue;
use nextdb_server::records::SchemaTable;
use nextdb_server::runtime::{
    RuntimeRecordActivationRequest, actor_reminder_shard_key, runtime_actor_id,
    runtime_record_activation_has_index_filter_options,
    runtime_record_activation_has_index_query_options, runtime_record_activation_keys,
    runtime_record_activation_logical_key, runtime_record_activation_target,
};
use nextdb_server::runtime::{
    RecordActivationSource, activation_counts, record_activation_storage_error,
    runtime_record_activation_source,
};

fn request(table: &str) -> RuntimeRecordActivationRequest {
    RuntimeRecordActivationRequest {
        table: table.to_string(),
        parent_key: None,
        nested: None,
        key: None,
        keys: Vec::new(),
        index_name: None,
        value: None,
        values: None,
        lower: None,
        upper: None,
        lower_values: None,
        upper_values: None,
        after_key: None,
        after_cursor: None,
        order: None,
        limit: None,
        predicate: None,
    }
}

fn schema() -> Vec<SchemaTable> {
    vec![SchemaTable { name: "rooms".to_string(), nested: vec!["messages".to_string()] }]
}

#[test]
fn activation_targets_resolve_tables_and_nested_tables() {
    let target = runtime_record_activation_target(&request(" rooms "), &schema()).ok().unwrap();
    assert_eq!(target.table, "rooms");
    assert_eq!(target.logical_table, "rooms");
    assert!(target.key_prefix.is_none());

    let mut nested = request("rooms");
    nested.nested = Some(" messages ".to_string());
    nested.parent_key = Some("room-a".to_string());
    let target = runtime_record_activation_target(&nested, &schema()).ok().unwrap();
    assert_eq!(target.logical_table, "rooms.messages");
    assert_eq!(target.key_prefix.as_deref(), Some("room-a:"));

    let mut missing_parent = request("rooms");
    missing_parent.nested = Some("messages".to_string());
    missing_parent.parent_key = Some("  ".to_string());
    let e = runtime_record_activation_target(&missing_parent, &schema()).err().unwrap();
    assert_eq!(e.message, "parentKey is required for nested activation");

    let mut missing_nested = request("rooms");
    missing_nested.parent_key = Some("room-a".to_string());
    let e = runtime_record_activation_target(&missing_nested, &schema()).err().unwrap();
    assert_eq!(e.message, "nested is required when parentKey is provided");

    let e = runtime_record_activation_target(&request("users"), &schema()).err().unwrap();
    assert!(e.kind == ApiErrorKind::NotFound);
}

#[test]
fn activation_keys_are_logical_keys_once_each() {
    let mut nested = request("rooms");
    nested.nested = Some("messages".to_string());
    nested.parent_key = Some("room-a".to_string());
    let target = runtime_record_activation_target(&nested, &schema()).ok().unwrap();
    assert_eq!(runtime_record_activation_logical_key("m1", &target).ok().unwrap(), "room-a:m1");
    assert_eq!(
        runtime_record_activation_logical_key("m/1", &target).err().unwrap().message,
        "invalid nested record key"
    );

    nested.key = Some(" m1 ".to_string());
    nested.keys = vec!["m2".to_string(), " ".to_string(), "m1".to_string(), "m2".to_string()];
    let keys = runtime_record_activation_keys(&nested, &target).ok().unwrap();
    assert_eq!(keys, vec!["room-a:m1", "room-a:m2"]);

    nested.limit = Some(5);
    let e = runtime_record_activation_keys(&nested, &target).err().unwrap();
    assert_eq!(
        e.message,
        "record activation keys cannot be combined with index query options, afterKey, order, or limit"
    );
}

#[test]
fn index_options_are_detected() {
    let mut r = request("rooms");
    assert!(!runtime_record_activation_has_index_query_options(&r));
    r.index_name = Some("  ".to_string());
    assert!(!runtime_record_activation_has_index_query_options(&r));
    r.index_name = Some("by_name".to_string());
    assert!(runtime_record_activation_has_index_query_options(&r));
    let mut r = request("rooms");
    r.upper = Some(JsonValue::Null);
    assert!(runtime_record_activation_has_index_filter_options(&r));
    assert!(runtime_record_activation_has_index_query_options(&r));
}

#[test]
fn actor_ids_and_reminder_shard_keys() {
    let id = runtime_actor_id(ActorKind::Scope, " table:rooms ".to_string()).ok().unwrap();
    assert_eq!(id.key, "table:rooms");
    assert_eq!(runtime_actor_id(ActorKind::Room, "  ".to_string()).err().unwrap().message, "key is required");
    let id = ActorId { kind: ActorKind::Room, key: "room-a".to_string() };
    assert_eq!(actor_reminder_shard_key(&id, "r1"), "actor-reminder:room:room-a:r1");
}

#[test]
fn activation_sources_follow_keys_index_and_table_shape() {
    let plain = request("rooms");
    let target = runtime_record_activation_target(&plain, &schema()).ok().unwrap();
    assert!(matches!(runtime_record_activation_source(&plain, &target, 2).ok().unwrap(), RecordActivationSource::Keys));
    assert!(matches!(runtime_record_activation_source(&plain, &target, 0).ok().unwrap(), RecordActivationSource::TableList));
    let mut indexed = request("rooms");
    indexed.index_name = Some(" byName ".to_string());
    assert!(matches!(runtime_record_activation_source(&indexed, &target, 0).ok().unwrap(), RecordActivationSource::Index(n) if n == "byName"));
    let mut options = request("rooms");
    options.value = Some(JsonValue::Null);
    assert_eq!(
        runtime_record_activation_source(&options, &target, 0).err().unwrap().message,
        "record activation index options require indexName"
    );
    let mut nested = request("rooms");
    nested.nested = Some("messages".to_string());
    nested.parent_key = Some("r1".to_string());
    let nested_target = runtime_record_activation_target(&nested, &schema()).ok().unwrap();
    assert!(matches!(runtime_record_activation_source(&nested, &nested_target, 0).ok().unwrap(), RecordActivationSource::NestedList));
    assert_eq!(
        record_activation_storage_error("rooms").message,
        "rooms is not configured for resident, lru, actorPartition, or chatLog storage"
    );
    assert_eq!(activation_counts(3, 7), (4, 0));
    assert_eq!(activation_counts(7, 3), (0, 4));
}

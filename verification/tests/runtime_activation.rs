use nextdb_server::records::nested_record_prefix;
use nextdb_server::runtime::{
    RuntimeRecordActivationTarget, runtime_record_activation_scope_key,
    runtime_record_activation_table_key,
};
use nextdb_server::util::shard_index;

#[test]
fn runtime_record_activation_scope_key_uses_top_level_buckets() {
    let target = RuntimeRecordActivationTarget {
        table: "rooms".to_string(),
        logical_table: "rooms".to_string(),
        parent_key: None,
        nested: None,
        key_prefix: None,
    };
    let bucket = shard_index("room-a", 256);

    assert_eq!(
        runtime_record_activation_scope_key(&target, "room-a"),
        format!("table:rooms/bucket:{bucket:02x}")
    );
}

#[test]
fn runtime_record_activation_scope_key_uses_nested_parent_partition() {
    let target = RuntimeRecordActivationTarget {
        table: "rooms".to_string(),
        logical_table: "rooms.messages".to_string(),
        parent_key: Some("room-a".to_string()),
        nested: Some("messages".to_string()),
        key_prefix: Some(nested_record_prefix("room-a")),
    };

    assert_eq!(
        runtime_record_activation_scope_key(&target, "room-a:message-1"),
        "table:rooms.messages/parent:room-a"
    );
}

#[test]
fn runtime_record_activation_table_key_names_the_logical_table() {
    assert_eq!(runtime_record_activation_table_key("rooms.messages"), "table:rooms.messages");
}

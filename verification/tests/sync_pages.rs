use nextdb_server::api_error::ApiErrorKind;
use nextdb_server::json::JsonValue;
use nextdb_server::model::{Durability, 
    DbRecordDeleteDraft, DbRecordDraft, DbRecordMutationDraft, DeliveryEvent, MessageDraft,
    WalPayload, WalRecord,
};
use nextdb_server::records::{DbRecord, SchemaTable};
use nextdb_server::sync::{
    NestedTableSubscription, ReadConsistency, SyncWaitQuery, parse_name_filter,
    parse_nested_table_filter, parse_room_filter, record_matches_table_filters_with_record,
    sync_events_from_wal_records, sync_wait_target_shard,
};
use nextdb_server::util::shard_index;

struct KeyRange {
    table: String,
    prefix: String,
}

fn key_range(s: &KeyRange, table: &String, key: &String, _record: Option<&DbRecord>) -> bool {
    s.table == *table && key.starts_with(&s.prefix)
}

fn no_ranges() -> Vec<KeyRange> {
    Vec::new()
}

fn wal(lsn: u64, payload: WalPayload) -> WalRecord {
    WalRecord { lsn, shard: 0, shard_epoch: 1, owner_node_id: String::new(), durability: Durability::Strict, timestamp_ms: lsn, payload }
}

fn message(room: &str, id: &str) -> WalPayload {
    WalPayload::MessageCreated {
        message: MessageDraft {
            id: id.to_string(),
            room_id: room.to_string(),
            sender_id: "user-a".to_string(),
            body: id.to_string(),
            attachments: Vec::new(),
            created_at_ms: 1,
            path: format!("rooms/{room}/messages/{id}"),
        },
    }
}

fn upsert(table: &str, key: &str) -> DbRecordDraft {
    DbRecordDraft {
        table: table.to_string(),
        key: key.to_string(),
        path: format!("tables/{table}/{key}"),
        value: JsonValue::Null,
    }
}

fn delete(table: &str, key: &str) -> DbRecordDeleteDraft {
    DbRecordDeleteDraft {
        table: table.to_string(),
        key: key.to_string(),
        deleted_at_ms: 7,
        path: format!("tables/{table}/{key}"),
        client_mutation_id: None,
    }
}

fn lsns(events: &[DeliveryEvent]) -> Vec<u64> {
    events
        .iter()
        .map(|event| match event {
            DeliveryEvent::MessageCreated { message, .. } => message.lsn,
            DeliveryEvent::UserEvent { event, .. } => event.lsn,
            DeliveryEvent::UserUpserted { user, .. } => user.lsn,
            DeliveryEvent::RecordUpserted { record, .. } => record.lsn,
            DeliveryEvent::RecordDeleted { lsn, .. } => *lsn,
            DeliveryEvent::ObjectCommitted { lsn, .. } => *lsn,
            DeliveryEvent::ObjectDeleted { lsn, .. } => *lsn,
        })
        .collect()
}

#[test]
fn unscoped_sync_delivers_every_event_after_the_lsn() {
    let records = vec![
        wal(1, message("room-a", "m1")),
        wal(2, message("room-b", "m2")),
        wal(3, WalPayload::RecordUpserted { record: upsert("rooms", "r1") }),
        wal(4, WalPayload::Other),
    ];
    let page = sync_events_from_wal_records(records, 1, &vec![], &vec![], &vec![], &no_ranges(), &vec![], key_range, false, 10);
    assert_eq!(lsns(&page.events), vec![2, 3]);
    assert_eq!(page.next_after_lsn, 3);
    assert!(!page.has_more);
}

#[test]
fn scoped_sync_filters_rooms_and_tables_and_stops_at_the_limit() {
    let records = vec![
        wal(1, message("room-a", "m1")),
        wal(2, message("room-b", "m2")),
        wal(3, WalPayload::RecordUpserted { record: upsert("rooms", "r1") }),
        wal(4, WalPayload::RecordDeleted { record: delete("other", "x") }),
        wal(5, message("room-a", "m3")),
    ];
    let rooms = vec!["room-a".to_string()];
    let tables = vec!["rooms".to_string()];
    let page = sync_events_from_wal_records(records, 0, &rooms, &vec![], &tables, &no_ranges(), &vec![], key_range, false, 2);
    assert_eq!(lsns(&page.events), vec![1, 3]);
    assert_eq!(page.next_after_lsn, 3);
    assert!(page.has_more);
}

#[test]
fn sync_keeps_a_transaction_together() {
    let txn = WalPayload::RecordTransactionCommitted {
        operations: vec![
            DbRecordMutationDraft::Upsert { record: upsert("rooms", "a") },
            DbRecordMutationDraft::Delete { record: delete("rooms", "b") },
        ],
    };
    let records = vec![wal(1, message("room-a", "m1")), wal(2, txn)];
    let page = sync_events_from_wal_records(records, 0, &vec![], &vec![], &vec![], &no_ranges(), &vec![], key_range, false, 2);
    assert_eq!(lsns(&page.events), vec![1]);
    assert_eq!(page.next_after_lsn, 1);
    assert!(page.has_more);

    let txn = WalPayload::RecordTransactionCommitted {
        operations: vec![
            DbRecordMutationDraft::Upsert { record: upsert("rooms", "a") },
            DbRecordMutationDraft::Delete { record: delete("rooms", "b") },
        ],
    };
    let page = sync_events_from_wal_records(vec![wal(2, txn)], 0, &vec![], &vec![], &vec![], &no_ranges(), &vec![], key_range, false, 1);
    assert_eq!(lsns(&page.events), vec![2, 2]);
    assert!(!page.has_more);
}

#[test]
fn nested_subscriptions_match_rows_under_their_parent() {
    let subs = vec![NestedTableSubscription::new(
        "rooms".to_string(),
        "room-a".to_string(),
        "messages".to_string(),
    )];
    let t = |v: &str| v.to_string();
    assert!(record_matches_table_filters_with_record(&t("rooms.messages"), &t("room-a:m1"), None, &vec![], &no_ranges(), &subs, &key_range));
    assert!(!record_matches_table_filters_with_record(&t("rooms.messages"), &t("room-b:m1"), None, &vec![], &no_ranges(), &subs, &key_range));
    assert!(record_matches_table_filters_with_record(&t("rooms"), &t("x"), None, &vec!["rooms".to_string()], &no_ranges(), &subs, &key_range));
    let ranges = vec![KeyRange { table: t("orders"), prefix: t("2024-") }];
    assert!(record_matches_table_filters_with_record(&t("orders"), &t("2024-07"), None, &vec![], &ranges, &vec![], &key_range));
    assert!(!record_matches_table_filters_with_record(&t("orders"), &t("2023-07"), None, &vec![], &ranges, &vec![], &key_range));
}

#[test]
fn name_filters_split_on_commas_and_drop_blanks() {
    assert_eq!(parse_name_filter(Some(" a, ,b,,a ".to_string())), vec!["a", "b", "a"]);
    assert!(parse_name_filter(None).is_empty());
    assert_eq!(parse_room_filter(Some("room-1".to_string())), vec!["room-1"]);
}

#[test]
fn nested_table_filters_are_checked_against_the_schema() {
    let tables = vec![SchemaTable { name: "rooms".to_string(), nested: vec!["messages".to_string()] }];
    let subs = parse_nested_table_filter(Some(" rooms : room-a : messages ".to_string()), &tables)
        .ok()
        .unwrap();
    assert_eq!(subs.len(), 1);
    assert_eq!(subs[0].table, "rooms");
    assert_eq!(subs[0].parent_key, "room-a");
    assert_eq!(subs[0].nested, "messages");

    let err = parse_nested_table_filter(Some("rooms:messages".to_string()), &tables).err().unwrap();
    assert_eq!(err.message, "nestedTables entries must use table:parentKey:nested");
    let err = parse_nested_table_filter(Some("rooms:room-a:other".to_string()), &tables).err().unwrap();
    assert!(err.kind == ApiErrorKind::NotFound);
    assert_eq!(err.message, "nested table not found");
}

#[test]
fn sync_wait_target_shard_needs_a_shard_beyond_local_reads() {
    let local = SyncWaitQuery { min_lsn: 1, timeout_ms: None, consistency: ReadConsistency::Local, shard_key: None, shard: Some(9) };
    assert_eq!(sync_wait_target_shard(&local, 2, 4).ok().unwrap(), Some(9));
    let out_of_range = SyncWaitQuery { min_lsn: 1, timeout_ms: None, consistency: ReadConsistency::Quorum, shard_key: None, shard: Some(2) };
    assert_eq!(sync_wait_target_shard(&out_of_range, 2, 4).err().unwrap().message, "shard is out of range");
    let keyed = SyncWaitQuery { min_lsn: 1, timeout_ms: None, consistency: ReadConsistency::All, shard_key: Some(" room-a ".to_string()), shard: None };
    assert_eq!(sync_wait_target_shard(&keyed, 2, 4).ok().unwrap(), Some(shard_index("room-a", 4)));
    let missing = SyncWaitQuery { min_lsn: 1, timeout_ms: None, consistency: ReadConsistency::All, shard_key: Some("  ".to_string()), shard: None };
    assert_eq!(
        sync_wait_target_shard(&missing, 2, 4).err().unwrap().message,
        "sync wait consistency quorum/all requires shard or shardKey"
    );
}

#[test]
fn a_range_subscriber_receives_only_the_records_of_its_range() {
    let records = vec![
        wal(1, message("room-a", "m1")),
        wal(2, WalPayload::RecordUpserted { record: upsert("orders", "2024-01") }),
        wal(3, WalPayload::RecordUpserted { record: upsert("orders", "2023-12") }),
        wal(4, WalPayload::RecordDeleted { record: delete("orders", "2024-02") }),
    ];
    let ranges = vec![KeyRange { table: "orders".to_string(), prefix: "2024-".to_string() }];
    let page = sync_events_from_wal_records(records, 0, &vec![], &vec![], &vec![], &ranges, &vec![], key_range, false, 10);
    assert_eq!(lsns(&page.events), vec![2, 4]);
    assert_eq!(page.next_after_lsn, 4);
    assert!(!page.has_more);
}

use std::collections::BTreeMap;

use nextdb_server::api_error::ApiErrorKind;
use nextdb_server::json::{JsonNumber, JsonValue};
use nextdb_server::model::{DbRecordDeleteDraft, Durability, WalPayload, WalRecord};
use nextdb_server::shard_controls::{ShardControl, ensure_shard_not_frozen, freeze_shard, unfreeze_shard};
use nextdb_server::wal_replication::{
    ReplicatedWalAction, WalChecksumStatus, check_replicated_wal_record, replicated_wal_action, replication_skipped,
    select_new_replicated_records, validate_replicated_wal_fence,
};

fn entry(lsn: u64, timestamp_ms: u64) -> WalRecord {
    WalRecord {
        lsn,
        shard: 1,
        shard_epoch: 3,
        owner_node_id: "n1".to_string(),
        durability: Durability::Strict,
        timestamp_ms,
        payload: WalPayload::Other,
    }
}

#[test]
fn replicated_entries_must_fit_the_shard() {
    assert!(validate_replicated_wal_fence(1, &entry(5, 0), 3, "n1").is_ok());
    let e = validate_replicated_wal_fence(2, &entry(5, 0), 3, "n1").unwrap_err();
    assert_eq!(e.kind, ApiErrorKind::Conflict);
    assert_eq!(e.message, "replicated WAL record shard 1 does not match request shard 2");
    let e = validate_replicated_wal_fence(1, &entry(5, 0), 4, "n1").unwrap_err();
    assert_eq!(e.message, "replicated WAL record epoch 3 does not match local shard epoch 4");
    let e = validate_replicated_wal_fence(1, &entry(5, 0), 3, "n2").unwrap_err();
    assert_eq!(e.message, "replicated WAL record owner n1 does not match configured shard owner n2");
    let mut anonymous = entry(5, 0);
    anonymous.owner_node_id = String::new();
    assert!(validate_replicated_wal_fence(1, &anonymous, 3, "n2").is_ok());
}

#[test]
fn replicated_entries_need_an_lsn_durability_and_a_good_checksum() {
    assert_eq!(check_replicated_wal_record(1, &entry(5, 0), 3, "n1", &WalChecksumStatus::Valid, None).ok(), Some(false));
    assert_eq!(check_replicated_wal_record(1, &entry(5, 0), 3, "n1", &WalChecksumStatus::Missing, None).ok(), Some(true));
    let e = check_replicated_wal_record(1, &entry(0, 0), 3, "n1", &WalChecksumStatus::Valid, None).unwrap_err();
    assert_eq!(e.message, "replicated WAL records must have lsn");
    let mut volatile = entry(5, 0);
    volatile.durability = Durability::Volatile;
    let e = check_replicated_wal_record(1, &volatile, 3, "n1", &WalChecksumStatus::Valid, None).unwrap_err();
    assert_eq!(e.message, "volatile records must not be replicated through WAL");
    let bad = WalChecksumStatus::Mismatch { expected: "abc".to_string() };
    let e = check_replicated_wal_record(1, &entry(5, 0), 3, "n1", &bad, Some("xyz")).unwrap_err();
    assert_eq!(e.message, "replicated WAL checksum mismatch for LSN 5: expected abc, found xyz");
    let e = check_replicated_wal_record(1, &entry(5, 0), 3, "n1", &bad, None).unwrap_err();
    assert_eq!(e.message, "replicated WAL checksum mismatch for LSN 5: expected abc, found ");
    // the fence is checked first
    let e = check_replicated_wal_record(2, &entry(0, 0), 3, "n1", &bad, None).unwrap_err();
    assert_eq!(e.kind, ApiErrorKind::Conflict);
}

#[test]
fn a_replica_takes_new_entries_once_in_lsn_order() {
    let requested = vec![entry(9, 1), entry(4, 2), entry(7, 3), entry(4, 4), entry(2, 5), entry(9, 6)];
    let taken = select_new_replicated_records(requested, &vec![7, 100]);
    let picked: Vec<(u64, u64)> = taken.iter().map(|r| (r.lsn, r.timestamp_ms)).collect();
    assert_eq!(picked, vec![(2, 5), (4, 2), (9, 1)]);
    assert!(select_new_replicated_records(vec![], &vec![]).is_empty());
    assert_eq!(replication_skipped(6, 3), 3);
    assert_eq!(replication_skipped(2, 5), 0);
}

#[test]
fn frozen_shards_refuse_writes_until_unfrozen() {
    let mut controls: BTreeMap<usize, ShardControl> = BTreeMap::new();
    assert!(ensure_shard_not_frozen(&controls, 1).is_ok());
    let c = freeze_shard(&mut controls, 1, 4, Some("maintenance".to_string()), 77).ok().unwrap();
    assert!(c.frozen && c.frozen_at_ms == Some(77));
    let e = ensure_shard_not_frozen(&controls, 1).unwrap_err();
    assert_eq!(e.kind, ApiErrorKind::Locked);
    assert_eq!(e.message, "shard 1 is frozen: maintenance");
    freeze_shard(&mut controls, 2, 4, Some("  ".to_string()), 78).ok().unwrap();
    assert_eq!(ensure_shard_not_frozen(&controls, 2).unwrap_err().message, "shard 2 is frozen");
    assert!(ensure_shard_not_frozen(&controls, 3).is_ok());
    let c = unfreeze_shard(&mut controls, 1, 4).ok().unwrap();
    assert!(!c.frozen && c.reason.is_none());
    assert!(ensure_shard_not_frozen(&controls, 1).is_ok());
    assert_eq!(freeze_shard(&mut controls, 4, 4, None, 1).err().unwrap().message, "shard is out of range");
    assert_eq!(unfreeze_shard(&mut controls, 9, 4).err().unwrap().message, "shard is out of range");
}

#[test]
fn a_replica_moves_the_projections_only_for_record_changes() {
    let mut w = entry(9, 0);
    assert_eq!(replicated_wal_action(&w), (ReplicatedWalAction::Nothing, None));
    w.payload = WalPayload::RecordDeleted {
        record: DbRecordDeleteDraft {
            table: "rooms".to_string(),
            key: "r1".to_string(),
            deleted_at_ms: 1,
            path: "tables/rooms/r1".to_string(),
            client_mutation_id: None,
        },
    };
    assert_eq!(replicated_wal_action(&w), (ReplicatedWalAction::DeleteRecord, Some(9)));
    w.payload = WalPayload::ObjectDeleted {
        object_id: "o1".to_string(),
        deleted_at_ms: 1,
        path: "objects/o1".to_string(),
        force: false,
    };
    assert_eq!(replicated_wal_action(&w), (ReplicatedWalAction::DeleteObject, None));
    w.payload = WalPayload::SchemaApplied {
        schema: JsonValue::Object(vec![("version".to_string(), JsonValue::Number(JsonNumber::PosInt(2)))]),
        migration: JsonValue::Object(Vec::new()),
    };
    assert_eq!(replicated_wal_action(&w), (ReplicatedWalAction::ApplySchema, None));
}

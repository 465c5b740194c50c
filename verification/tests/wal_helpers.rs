use nextdb_server::api_error::ApiErrorKind;
use nextdb_server::endpoints::normalize_replication_url;
use nextdb_server::model::{Durability, WalPayload, WalRecord};
use nextdb_server::util::shard_index;
use nextdb_server::wal::{
    WalRemoteReplica, latest_lsn_for_shard, map_wal_append_error, remote_ack_lsn_for_url,
    wal_shard_for_key,
};

#[test]
fn append_errors_about_replication_are_conflicts() {
    let e = map_wal_append_error("replicated WAL record owner node-b does not match".to_string());
    assert!(e.kind == ApiErrorKind::Conflict);
    assert_eq!(e.message, "replicated WAL record owner node-b does not match");
    let e = map_wal_append_error("disk full".to_string());
    assert!(e.kind == ApiErrorKind::Internal);
}

#[test]
fn keys_map_to_configured_shards() {
    assert_eq!(wal_shard_for_key("room-a", 4).ok().unwrap(), shard_index("room-a", 4));
    let e = wal_shard_for_key("room-a", 0).err().unwrap();
    assert_eq!(e.message, "WAL shard 0 is not configured");
}

#[test]
fn latest_lsn_counts_only_the_shard() {
    let records = vec![
        WalRecord { lsn: 4, shard: 1, shard_epoch: 1, owner_node_id: String::new(), durability: Durability::Strict, timestamp_ms: 0, payload: WalPayload::Other },
        WalRecord { lsn: 9, shard: 0, shard_epoch: 1, owner_node_id: String::new(), durability: Durability::Strict, timestamp_ms: 0, payload: WalPayload::Other },
        WalRecord { lsn: 7, shard: 1, shard_epoch: 1, owner_node_id: String::new(), durability: Durability::Strict, timestamp_ms: 0, payload: WalPayload::Other },
    ];
    assert_eq!(latest_lsn_for_shard(&records, 1), 7);
    assert_eq!(latest_lsn_for_shard(&records, 2), 0);
}

#[test]
fn replica_acks_are_found_by_normalized_url() {
    assert_eq!(normalize_replication_url("http://b:1/"), "http://b:1/v1/admin/wal/replicate");
    assert_eq!(
        normalize_replication_url("http://b:1/v1/admin/wal/replicate//"),
        "http://b:1/v1/admin/wal/replicate"
    );
    let replicas = vec![
        WalRemoteReplica { url: "http://b:1/v1/admin/wal/replicate".to_string(), highest_acked_lsn: 3 },
        WalRemoteReplica { url: "http://c:1/v1/admin/wal/replicate".to_string(), highest_acked_lsn: 8 },
        WalRemoteReplica { url: "http://b:1/v1/admin/wal/replicate".to_string(), highest_acked_lsn: 5 },
    ];
    assert_eq!(remote_ack_lsn_for_url(&replicas, "http://b:1"), Some(5));
    assert_eq!(remote_ack_lsn_for_url(&replicas, "http://d:1"), None);
}

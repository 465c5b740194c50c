use nextdb_server::behavior::BehaviorAbiEncoding;
use nextdb_server::metrics_snapshot::{
    MetricsSnapshot, RecordHotTableMetrics, WalRemoteReplicaMetrics, WalShardMetrics, metrics_text,
};
use nextdb_server::runtime_behavior::{BehaviorRuntimeConfig, BehaviorRuntimeCounterSnapshot, BehaviorRuntimeStatus};

fn snapshot() -> MetricsSnapshot {
    MetricsSnapshot {
        behavior_runtime: BehaviorRuntimeStatus {
            epoch: 1,
            behavior_count: 0,
            fuel_enabled: true,
            instance_pool_max: 4,
            pooled_instances: 2,
            counters: BehaviorRuntimeCounterSnapshot::zero(),
            config: BehaviorRuntimeConfig {
                fuel_enabled: true,
                instance_pool_max: 4,
                pooling_total_core_instances: 8,
                pooling_total_memories: 8,
                pooling_total_tables: 8,
            },
            behaviors: Vec::new(),
        },
        runtime_drain_draining: false,
        current_lsn: 42,
        last_snapshot_lsn: 0,
        last_compaction_lsn: 0,
        checkpoint_in_flight: false,
        runtime_writes_in_flight: 0,
        room_count: 0,
        hot_room_idle_ttl_ms: 0,
        hot_room_maintenance_interval_ms: 0,
        hot_room_idle_maintenance_last_sweep_at_ms: None,
        hot_room_idle_maintenance_last_evicted: 0,
        hot_room_idle_maintenance_total_evicted: 0,
        projection_status_records: 0,
        projection_status_index_entries: 0,
        projection_status_key_order_entries: 0,
        projection_status_recent_entries: 0,
        projection_status_partition_entries: 0,
        projection_status_order_entries: 0,
        record_hot_table_count: 0,
        record_hot_record_count: 0,
        record_hot_volatile_records: 0,
        record_hot_durable_idle_ttl_ms: 0,
        record_hot_maintenance_interval_ms: 0,
        record_hot_prewarm_enabled: false,
        record_hot_prewarm_limit_per_table: 0,
        record_hot_prewarm_last_started_at_ms: Some(7),
        record_hot_prewarm_last_finished_at_ms: None,
        record_hot_prewarm_total_found: 0,
        record_hot_prewarm_total_activated: 0,
        record_hot_durable_idle_last_sweep_at_ms: None,
        record_hot_durable_idle_last_evicted: 0,
        record_hot_durable_idle_total_evicted: 0,
        record_hot_get_total: 0,
        record_hot_get_hit_total: 0,
        record_hot_get_miss_total: 0,
        record_hot_list_total: 0,
        record_hot_list_records_total: 0,
        record_hot_hydrate_durable_total: 0,
        record_hot_hydrate_durable_skipped_volatile_total: 0,
        record_hot_upsert_total: 0,
        record_hot_delete_total: 0,
        record_hot_evict_total: 0,
        record_hot_lru_evicted_total: 0,
        object_count: 0,
        connection_count: 0,
        connected_users: 0,
        live_queries_current: 0,
        live_queries_subscribed_total: 0,
        live_queries_unsubscribed_total: 0,
        live_queries_event_batch_max: 0,
        live_queries_event_batches_total: 0,
        live_queries_batched_events_total: 0,
        live_queries_refresh_candidates_total: 0,
        live_queries_refresh_total: 0,
        live_queries_query_executions_total: 0,
        live_queries_result_frames_total: 0,
        live_queries_diff_frames_total: 0,
        live_queries_unchanged_total: 0,
        live_queries_evaluation_cache_hits_total: 0,
        live_queries_errors_total: 0,
        realtime_status_channel_count: 0,
        realtime_status_state_count: 0,
        realtime_status_sequence_count: 0,
        realtime_maintenance_interval_ms: 0,
        realtime_status_maintenance_last_sweep_at_ms: None,
        realtime_status_maintenance_last_orphan_states_removed: 0,
        realtime_status_maintenance_last_stale_members_removed: 0,
        realtime_status_maintenance_last_orphan_sequences_removed: 0,
        realtime_status_maintenance_total_stale_members_removed: 0,
        realtime_status_maintenance_total_orphan_states_removed: 0,
        realtime_status_maintenance_total_orphan_sequences_removed: 0,
        limits_max_object_bytes: 0,
        limits_max_message_bytes: 0,
        limits_max_user_event_bytes: 0,
        limits_max_record_value_bytes: 0,
        limits_max_live_queries_per_connection: 0,
        limits_max_live_queries_per_table_per_connection: 0,
        limits_max_live_queries_per_user: 0,
        wal_shards_count: 0,
        export_backup_runs: 0,
        export_backup_controller_enabled: false,
        export_backup_controller_interval_ms: 0,
        handoff_controller_enabled: false,
        failover_controller_enabled: false,
        wal_repair_controller_enabled: false,
        wal_repair_controller_interval_ms: 0,
        wal_repair_controller_last_run_at_ms: None,
        wal_repair_controller_last_records_sent: 0,
        wal_repair_controller_last_repaired_replicas: 0,
        wal_repair_controller_last_satisfied: false,
        wal_repair_controller_last_error: Some("boom".to_string()),
        object_repair_controller_enabled: false,
        object_repair_controller_interval_ms: 0,
        object_repair_controller_last_run_at_ms: None,
        object_repair_controller_last_objects_sent: 0,
        object_repair_controller_last_repaired_replicas: 0,
        object_repair_controller_last_satisfied: false,
        object_repair_controller_last_error: None,
        peer_health_enabled: false,
        peer_health_peers_count: 0,
        record_hot_tables: vec![RecordHotTableMetrics {
            table: "rooms".to_string(),
            records: 5,
            volatile_records: 0,
            get_total: 0,
            get_hit_total: 0,
            get_miss_total: 0,
            list_total: 0,
            list_records_total: 0,
            hydrate_durable_total: 0,
            hydrate_durable_skipped_volatile_total: 0,
            upsert_total: 0,
            delete_total: 0,
            evict_total: 0,
            lru_evicted_total: 0,
        }],
        wal_shards: vec![WalShardMetrics {
            shard: 0,
            remote_replica_count: 1,
            batch_max: 0,
            batch_wait_ms: 0,
            queue_depth: 0,
            local_batches: 0,
            local_failed_batches: 0,
            local_records: 0,
            local_bytes: 0,
            local_syncs: 0,
            local_last_batch_records: 0,
            local_last_batch_write_ms: 0,
            local_last_batch_sync_ms: 0,
            remote_replicas: vec![WalRemoteReplicaMetrics { url: "http://b".to_string(), ok: true, highest_acked_lsn: 9 }],
        }],
    }
}

#[test]
fn the_metrics_page_reports_the_snapshot_in_prometheus_text() {
    let text = metrics_text(&snapshot());
    assert!(text.starts_with("# HELP nextdb_up NextDB process health.\n# TYPE nextdb_up gauge\nnextdb_up 1\n"));
    assert!(text.contains("\nnextdb_behavior_pooled_instances 2\n"));
    assert!(text.contains("\nnextdb_accepting_writes 1\nnextdb_draining 0\nnextdb_current_lsn 42\n"));
    assert!(text.contains("\nnextdb_record_hot_table_records{table=\"rooms\"} 5\n"));
    assert!(text.contains("\nnextdb_wal_remote_replicas 1\n"));
    assert!(text.contains("\nnextdb_wal_remote_replica_ok{shard=\"0\",replica=\"0\",url=\"http://b\"} 1\n"));
    assert!(text.contains("\nnextdb_wal_remote_replica_highest_acked_lsn{shard=\"0\",replica=\"0\",url=\"http://b\"} 9\n"));
    assert!(text.contains("\nnextdb_wal_repair_controller_last_error 1\n"));
    assert!(text.ends_with("nextdb_peer_monitor_peers 0\n"));
}


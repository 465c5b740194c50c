//! The metrics page of a node: a plain snapshot of what the page reports,
//! and the Prometheus text built from it, line by line in a fixed order.
use vstd::prelude::*;
use crate::failover::decimal_string;
use crate::metrics::{
    behavior_counter_metrics, bool_metric, escape_label, help_line, labels_text, metric_line,
    push_behavior_counter_metrics, push_metric, push_metric_help, push_metric_type, type_line,
};
use crate::runtime_behavior::BehaviorRuntimeStatus;
use crate::text::{decimal, owned};

verus! {

/// What the page reports of one table of the hot record cache.
pub struct RecordHotTableMetrics {
    pub table: String,
    pub records: u64,
    pub volatile_records: u64,
    pub get_total: u64,
    pub get_hit_total: u64,
    pub get_miss_total: u64,
    pub list_total: u64,
    pub list_records_total: u64,
    pub hydrate_durable_total: u64,
    pub hydrate_durable_skipped_volatile_total: u64,
    pub upsert_total: u64,
    pub delete_total: u64,
    pub evict_total: u64,
    pub lru_evicted_total: u64,
}

/// What the page reports of one remote replica of a shard's log.
pub struct WalRemoteReplicaMetrics {
    pub url: String,
    pub ok: bool,
    pub highest_acked_lsn: u64,
}

/// What the page reports of one shard's log writer.
pub struct WalShardMetrics {
    pub shard: usize,
    pub remote_replica_count: u64,
    pub batch_max: u64,
    pub batch_wait_ms: u64,
    pub queue_depth: u64,
    pub local_batches: u64,
    pub local_failed_batches: u64,
    pub local_records: u64,
    pub local_bytes: u64,
    pub local_syncs: u64,
    pub local_last_batch_records: u64,
    pub local_last_batch_write_ms: u64,
    pub local_last_batch_sync_ms: u64,
    pub remote_replicas: Vec<WalRemoteReplicaMetrics>,
}

/// Everything the metrics page reports, as the node read it.
pub struct MetricsSnapshot {
    pub behavior_runtime: BehaviorRuntimeStatus,
    pub runtime_drain_draining: bool,
    pub current_lsn: u64,
    pub last_snapshot_lsn: u64,
    pub last_compaction_lsn: u64,
    pub checkpoint_in_flight: bool,
    pub runtime_writes_in_flight: u64,
    pub room_count: u64,
    pub hot_room_idle_ttl_ms: u64,
    pub hot_room_maintenance_interval_ms: u64,
    pub hot_room_idle_maintenance_last_sweep_at_ms: Option<u64>,
    pub hot_room_idle_maintenance_last_evicted: u64,
    pub hot_room_idle_maintenance_total_evicted: u64,
    pub projection_status_records: u64,
    pub projection_status_index_entries: u64,
    pub projection_status_key_order_entries: u64,
    pub projection_status_recent_entries: u64,
    pub projection_status_partition_entries: u64,
    pub projection_status_order_entries: u64,
    pub record_hot_table_count: u64,
    pub record_hot_record_count: u64,
    pub record_hot_volatile_records: u64,
    pub record_hot_durable_idle_ttl_ms: u64,
    pub record_hot_maintenance_interval_ms: u64,
    pub record_hot_prewarm_enabled: bool,
    pub record_hot_prewarm_limit_per_table: u64,
    pub record_hot_prewarm_last_started_at_ms: Option<u64>,
    pub record_hot_prewarm_last_finished_at_ms: Option<u64>,
    pub record_hot_prewarm_total_found: u64,
    pub record_hot_prewarm_total_activated: u64,
    pub record_hot_durable_idle_last_sweep_at_ms: Option<u64>,
    pub record_hot_durable_idle_last_evicted: u64,
    pub record_hot_durable_idle_total_evicted: u64,
    pub record_hot_get_total: u64,
    pub record_hot_get_hit_total: u64,
    pub record_hot_get_miss_total: u64,
    pub record_hot_list_total: u64,
    pub record_hot_list_records_total: u64,
    pub record_hot_hydrate_durable_total: u64,
    pub record_hot_hydrate_durable_skipped_volatile_total: u64,
    pub record_hot_upsert_total: u64,
    pub record_hot_delete_total: u64,
    pub record_hot_evict_total: u64,
    pub record_hot_lru_evicted_total: u64,
    pub object_count: u64,
    pub connection_count: u64,
    pub connected_users: u64,
    pub live_queries_current: u64,
    pub live_queries_subscribed_total: u64,
    pub live_queries_unsubscribed_total: u64,
    pub live_queries_event_batch_max: u64,
    pub live_queries_event_batches_total: u64,
    pub live_queries_batched_events_total: u64,
    pub live_queries_refresh_candidates_total: u64,
    pub live_queries_refresh_total: u64,
    pub live_queries_query_executions_total: u64,
    pub live_queries_result_frames_total: u64,
    pub live_queries_diff_frames_total: u64,
    pub live_queries_unchanged_total: u64,
    pub live_queries_evaluation_cache_hits_total: u64,
    pub live_queries_errors_total: u64,
    pub realtime_status_channel_count: u64,
    pub realtime_status_state_count: u64,
    pub realtime_status_sequence_count: u64,
    pub realtime_maintenance_interval_ms: u64,
    pub realtime_status_maintenance_last_sweep_at_ms: Option<u64>,
    pub realtime_status_maintenance_last_orphan_states_removed: u64,
    pub realtime_status_maintenance_last_stale_members_removed: u64,
    pub realtime_status_maintenance_last_orphan_sequences_removed: u64,
    pub realtime_status_maintenance_total_stale_members_removed: u64,
    pub realtime_status_maintenance_total_orphan_states_removed: u64,
    pub realtime_status_maintenance_total_orphan_sequences_removed: u64,
    pub limits_max_object_bytes: u64,
    pub limits_max_message_bytes: u64,
    pub limits_max_user_event_bytes: u64,
    pub limits_max_record_value_bytes: u64,
    pub limits_max_live_queries_per_connection: u64,
    pub limits_max_live_queries_per_table_per_connection: u64,
    pub limits_max_live_queries_per_user: u64,
    pub wal_shards_count: u64,
    pub export_backup_runs: u64,
    pub export_backup_controller_enabled: bool,
    pub export_backup_controller_interval_ms: u64,
    pub handoff_controller_enabled: bool,
    pub failover_controller_enabled: bool,
    pub wal_repair_controller_enabled: bool,
    pub wal_repair_controller_interval_ms: u64,
    pub wal_repair_controller_last_run_at_ms: Option<u64>,
    pub wal_repair_controller_last_records_sent: u64,
    pub wal_repair_controller_last_repaired_replicas: u64,
    pub wal_repair_controller_last_satisfied: bool,
    pub wal_repair_controller_last_error: Option<String>,
    pub object_repair_controller_enabled: bool,
    pub object_repair_controller_interval_ms: u64,
    pub object_repair_controller_last_run_at_ms: Option<u64>,
    pub object_repair_controller_last_objects_sent: u64,
    pub object_repair_controller_last_repaired_replicas: u64,
    pub object_repair_controller_last_satisfied: bool,
    pub object_repair_controller_last_error: Option<String>,
    pub peer_health_enabled: bool,
    pub peer_health_peers_count: u64,
    pub record_hot_tables: Vec<RecordHotTableMetrics>,
    pub wal_shards: Vec<WalShardMetrics>,
}

/// The labels as plain text pairs.
pub open spec fn label_views(labels: Seq<(String, String)>) -> Seq<(Seq<char>, Seq<char>)> {
    labels.map_values(|l: (String, String)| (l.0@, l.1@))
}

/// `key="value"` pairs, the values escaped, joined by commas.
pub open spec fn labels_text_of(labels: Seq<(Seq<char>, Seq<char>)>) -> Seq<char>
    decreases labels.len(),
{
    if labels.len() == 0 {
        Seq::empty()
    } else {
        let prev = labels_text_of(labels.drop_last());
        let one = labels.last().0 + "=\""@ + escape_label(labels.last().1) + seq!['"'];
        if labels.len() == 1 {
            one
        } else {
            prev + seq![','] + one
        }
    }
}

/// A sample line with labels given as plain text pairs.
pub open spec fn sample_line(name: Seq<char>, labels: Seq<(Seq<char>, Seq<char>)>, value: u64) -> Seq<char> {
    name + (if labels.len() == 0 {
        Seq::empty()
    } else {
        seq!['{'] + labels_text_of(labels) + seq!['}']
    }) + seq![' '] + decimal(value as nat) + seq!['\n']
}

proof fn lemma_labels_text(labels: Seq<(String, String)>)
    ensures
        labels_text(labels) == labels_text_of(label_views(labels)),
    decreases labels.len(),
{
    if labels.len() > 0 {
        lemma_labels_text(labels.drop_last());
        assert(label_views(labels.drop_last()) =~= label_views(labels).drop_last());
    }
}

proof fn lemma_metric_lines(labels: Seq<(String, String)>)
    ensures
        forall|name: Seq<char>, value: u64| #[trigger] metric_line(name, labels, value) == sample_line(name, label_views(labels), value),
{
    lemma_labels_text(labels);
}

pub open spec fn table_labels(t: RecordHotTableMetrics) -> Seq<(Seq<char>, Seq<char>)> {
    seq![("table"@, t.table@)]
}

/// The samples of one hot cache table.
pub open spec fn table_block(t: RecordHotTableMetrics) -> Seq<char> {
    sample_line("nextdb_record_hot_table_records"@, table_labels(t), t.records)
        + sample_line("nextdb_record_hot_table_volatile_records"@, table_labels(t), t.volatile_records)
        + sample_line("nextdb_record_hot_table_get_total"@, table_labels(t), t.get_total)
        + sample_line("nextdb_record_hot_table_get_hit_total"@, table_labels(t), t.get_hit_total)
        + sample_line("nextdb_record_hot_table_get_miss_total"@, table_labels(t), t.get_miss_total)
        + sample_line("nextdb_record_hot_table_list_total"@, table_labels(t), t.list_total)
        + sample_line("nextdb_record_hot_table_list_records_total"@, table_labels(t), t.list_records_total)
        + sample_line("nextdb_record_hot_table_hydrate_durable_total"@, table_labels(t), t.hydrate_durable_total)
        + sample_line("nextdb_record_hot_table_hydrate_durable_skipped_volatile_total"@, table_labels(t), t.hydrate_durable_skipped_volatile_total)
        + sample_line("nextdb_record_hot_table_upsert_total"@, table_labels(t), t.upsert_total)
        + sample_line("nextdb_record_hot_table_delete_total"@, table_labels(t), t.delete_total)
        + sample_line("nextdb_record_hot_table_evict_total"@, table_labels(t), t.evict_total)
        + sample_line("nextdb_record_hot_table_lru_evicted_total"@, table_labels(t), t.lru_evicted_total)
}

/// The samples of the hot cache tables, in order.
pub open spec fn table_blocks(ts: Seq<RecordHotTableMetrics>) -> Seq<char>
    decreases ts.len(),
{
    if ts.len() == 0 {
        Seq::empty()
    } else {
        table_blocks(ts.drop_last()) + table_block(ts.last())
    }
}

#[verifier::rlimit(40)]
fn push_table_block(out: &mut String, t: &RecordHotTableMetrics)
    ensures
        final(out)@ == old(out)@ + table_block(*t),
{
    let labels: Vec<(String, String)> = vec![(owned("table"), t.table.clone())];
    proof {
        lemma_metric_lines(labels@);
        assert(label_views(labels@) =~= table_labels(*t));
    }
    let ghost start = out@;
    push_metric(out, "nextdb_record_hot_table_records", &labels, t.records);
    push_metric(out, "nextdb_record_hot_table_volatile_records", &labels, t.volatile_records);
    push_metric(out, "nextdb_record_hot_table_get_total", &labels, t.get_total);
    push_metric(out, "nextdb_record_hot_table_get_hit_total", &labels, t.get_hit_total);
    push_metric(out, "nextdb_record_hot_table_get_miss_total", &labels, t.get_miss_total);
    push_metric(out, "nextdb_record_hot_table_list_total", &labels, t.list_total);
    push_metric(out, "nextdb_record_hot_table_list_records_total", &labels, t.list_records_total);
    push_metric(out, "nextdb_record_hot_table_hydrate_durable_total", &labels, t.hydrate_durable_total);
    push_metric(out, "nextdb_record_hot_table_hydrate_durable_skipped_volatile_total", &labels, t.hydrate_durable_skipped_volatile_total);
    push_metric(out, "nextdb_record_hot_table_upsert_total", &labels, t.upsert_total);
    push_metric(out, "nextdb_record_hot_table_delete_total", &labels, t.delete_total);
    push_metric(out, "nextdb_record_hot_table_evict_total", &labels, t.evict_total);
    push_metric(out, "nextdb_record_hot_table_lru_evicted_total", &labels, t.lru_evicted_total);
    assert(out@ =~= start + table_block(*t));
}

fn push_table_blocks(out: &mut String, ts: &Vec<RecordHotTableMetrics>)
    ensures
        final(out)@ == old(out)@ + table_blocks(ts@),
{
    let ghost start = out@;
    let mut i: usize = 0;
    while i < ts.len()
        invariant
            i <= ts@.len(),
            out@ == start + table_blocks(ts@.take(i as int)),
        decreases ts@.len() - i,
    {
        proof {
            assert(ts@.take(i as int + 1).drop_last() =~= ts@.take(i as int));
        }
        push_table_block(out, &ts[i]);
        assert(out@ =~= start + table_blocks(ts@.take(i as int + 1)));
        i = i + 1;
    }
    assert(ts@.take(ts@.len() as int) =~= ts@);
}

pub open spec fn shard_labels(w: WalShardMetrics) -> Seq<(Seq<char>, Seq<char>)> {
    seq![("shard"@, decimal(w.shard as nat))]
}

pub open spec fn replica_labels(shard: usize, index: nat, r: WalRemoteReplicaMetrics) -> Seq<(Seq<char>, Seq<char>)> {
    seq![("shard"@, decimal(shard as nat)), ("replica"@, decimal(index)), ("url"@, r.url@)]
}

/// The samples of one remote replica of a shard's log.
pub open spec fn replica_block(shard: usize, index: nat, r: WalRemoteReplicaMetrics) -> Seq<char> {
    sample_line("nextdb_wal_remote_replica_ok"@, replica_labels(shard, index, r), (if r.ok { 1u64 } else { 0u64 }))
        + sample_line("nextdb_wal_remote_replica_highest_acked_lsn"@, replica_labels(shard, index, r), r.highest_acked_lsn)
}

/// The samples of the first `k` remote replicas of a shard's log.
pub open spec fn replica_blocks(shard: usize, rs: Seq<WalRemoteReplicaMetrics>, k: nat) -> Seq<char>
    decreases k,
{
    if k == 0 {
        Seq::empty()
    } else {
        replica_blocks(shard, rs, (k - 1) as nat) + replica_block(shard, (k - 1) as nat, rs[k - 1])
    }
}

/// The samples of one shard's log writer, then of its remote replicas.
pub open spec fn shard_block(w: WalShardMetrics) -> Seq<char> {
    sample_line("nextdb_wal_batch_max"@, shard_labels(w), w.batch_max)
        + sample_line("nextdb_wal_batch_wait_ms"@, shard_labels(w), w.batch_wait_ms)
        + sample_line("nextdb_wal_queue_depth"@, shard_labels(w), w.queue_depth)
        + sample_line("nextdb_wal_local_batches"@, shard_labels(w), w.local_batches)
        + sample_line("nextdb_wal_local_failed_batches"@, shard_labels(w), w.local_failed_batches)
        + sample_line("nextdb_wal_local_records"@, shard_labels(w), w.local_records)
        + sample_line("nextdb_wal_local_bytes"@, shard_labels(w), w.local_bytes)
        + sample_line("nextdb_wal_local_syncs"@, shard_labels(w), w.local_syncs)
        + sample_line("nextdb_wal_local_last_batch_records"@, shard_labels(w), w.local_last_batch_records)
        + sample_line("nextdb_wal_local_last_batch_write_ms"@, shard_labels(w), w.local_last_batch_write_ms)
        + sample_line("nextdb_wal_local_last_batch_sync_ms"@, shard_labels(w), w.local_last_batch_sync_ms)
        + replica_blocks(w.shard, w.remote_replicas@, w.remote_replicas@.len())
}

/// The samples of the shards' log writers, in order.
pub open spec fn shard_blocks(ws: Seq<WalShardMetrics>) -> Seq<char>
    decreases ws.len(),
{
    if ws.len() == 0 {
        Seq::empty()
    } else {
        shard_blocks(ws.drop_last()) + shard_block(ws.last())
    }
}

/// The remote replicas of all shards' logs.
pub open spec fn remote_replica_total(ws: Seq<WalShardMetrics>) -> int
    decreases ws.len(),
{
    if ws.len() == 0 {
        0
    } else {
        remote_replica_total(ws.drop_last()) + ws.last().remote_replica_count
    }
}

proof fn lemma_remote_total_prefix(ws: Seq<WalShardMetrics>, k: int)
    requires
        0 <= k <= ws.len(),
    ensures
        remote_replica_total(ws.take(k)) <= remote_replica_total(ws),
    decreases ws.len() - k,
{
    if k < ws.len() {
        lemma_remote_total_prefix(ws, k + 1);
        assert(ws.take(k + 1).drop_last() =~= ws.take(k));
    } else {
        assert(ws.take(k) =~= ws);
    }
}

fn remote_replica_total_of(ws: &Vec<WalShardMetrics>) -> (n: u64)
    requires
        remote_replica_total(ws@) <= u64::MAX,
    ensures
        n == remote_replica_total(ws@),
{
    let mut n: u64 = 0;
    let mut i: usize = 0;
    while i < ws.len()
        invariant
            i <= ws@.len(),
            remote_replica_total(ws@) <= u64::MAX,
            n == remote_replica_total(ws@.take(i as int)),
        decreases ws@.len() - i,
    {
        proof {
            assert(ws@.take(i as int + 1).drop_last() =~= ws@.take(i as int));
            lemma_remote_total_prefix(ws@, i as int + 1);
        }
        n = n + ws[i].remote_replica_count;
        i = i + 1;
    }
    assert(ws@.take(ws@.len() as int) =~= ws@);
    n
}

fn push_replica_block(out: &mut String, shard: usize, shard_text: &String, index: usize, r: &WalRemoteReplicaMetrics)
    requires
        shard_text@ == decimal(shard as nat),
    ensures
        final(out)@ == old(out)@ + replica_block(shard, index as nat, *r),
{
    let labels: Vec<(String, String)> = vec![
        (owned("shard"), shard_text.clone()),
        (owned("replica"), decimal_string(index as u64)),
        (owned("url"), r.url.clone()),
    ];
    proof {
        lemma_metric_lines(labels@);
        assert(label_views(labels@) =~= replica_labels(shard, index as nat, *r));
    }
    let ghost start = out@;
    push_metric(out, "nextdb_wal_remote_replica_ok", &labels, bool_metric(r.ok));
    push_metric(out, "nextdb_wal_remote_replica_highest_acked_lsn", &labels, r.highest_acked_lsn);
    assert(out@ =~= start + replica_block(shard, index as nat, *r));
}

#[verifier::rlimit(40)]
fn push_shard_block(out: &mut String, w: &WalShardMetrics)
    ensures
        final(out)@ == old(out)@ + shard_block(*w),
{
    let shard = decimal_string(w.shard as u64);
    let labels: Vec<(String, String)> = vec![(owned("shard"), shard.clone())];
    proof {
        lemma_metric_lines(labels@);
        assert(label_views(labels@) =~= shard_labels(*w));
    }
    let ghost start = out@;
    push_metric(out, "nextdb_wal_batch_max", &labels, w.batch_max);
    push_metric(out, "nextdb_wal_batch_wait_ms", &labels, w.batch_wait_ms);
    push_metric(out, "nextdb_wal_queue_depth", &labels, w.queue_depth);
    push_metric(out, "nextdb_wal_local_batches", &labels, w.local_batches);
    push_metric(out, "nextdb_wal_local_failed_batches", &labels, w.local_failed_batches);
    push_metric(out, "nextdb_wal_local_records", &labels, w.local_records);
    push_metric(out, "nextdb_wal_local_bytes", &labels, w.local_bytes);
    push_metric(out, "nextdb_wal_local_syncs", &labels, w.local_syncs);
    push_metric(out, "nextdb_wal_local_last_batch_records", &labels, w.local_last_batch_records);
    push_metric(out, "nextdb_wal_local_last_batch_write_ms", &labels, w.local_last_batch_write_ms);
    push_metric(out, "nextdb_wal_local_last_batch_sync_ms", &labels, w.local_last_batch_sync_ms);
    let ghost mid = out@;
    assert(mid =~= start + (sample_line("nextdb_wal_batch_max"@, shard_labels(*w), w.batch_max)
        + sample_line("nextdb_wal_batch_wait_ms"@, shard_labels(*w), w.batch_wait_ms)
        + sample_line("nextdb_wal_queue_depth"@, shard_labels(*w), w.queue_depth)
        + sample_line("nextdb_wal_local_batches"@, shard_labels(*w), w.local_batches)
        + sample_line("nextdb_wal_local_failed_batches"@, shard_labels(*w), w.local_failed_batches)
        + sample_line("nextdb_wal_local_records"@, shard_labels(*w), w.local_records)
        + sample_line("nextdb_wal_local_bytes"@, shard_labels(*w), w.local_bytes)
        + sample_line("nextdb_wal_local_syncs"@, shard_labels(*w), w.local_syncs)
        + sample_line("nextdb_wal_local_last_batch_records"@, shard_labels(*w), w.local_last_batch_records)
        + sample_line("nextdb_wal_local_last_batch_write_ms"@, shard_labels(*w), w.local_last_batch_write_ms)
        + sample_line("nextdb_wal_local_last_batch_sync_ms"@, shard_labels(*w), w.local_last_batch_sync_ms)));
    let mut i: usize = 0;
    while i < w.remote_replicas.len()
        invariant
            i <= w.remote_replicas@.len(),
            shard@ == decimal(w.shard as nat),
            out@ == mid + replica_blocks(w.shard, w.remote_replicas@, i as nat),
        decreases w.remote_replicas@.len() - i,
    {
        push_replica_block(out, w.shard, &shard, i, &w.remote_replicas[i]);
        assert(out@ =~= mid + replica_blocks(w.shard, w.remote_replicas@, (i + 1) as nat));
        i = i + 1;
    }
    assert(out@ =~= start + shard_block(*w));
}

fn push_shard_blocks(out: &mut String, ws: &Vec<WalShardMetrics>)
    ensures
        final(out)@ == old(out)@ + shard_blocks(ws@),
{
    let ghost start = out@;
    let mut i: usize = 0;
    while i < ws.len()
        invariant
            i <= ws@.len(),
            out@ == start + shard_blocks(ws@.take(i as int)),
        decreases ws@.len() - i,
    {
        proof {
            assert(ws@.take(i as int + 1).drop_last() =~= ws@.take(i as int));
        }
        push_shard_block(out, &ws[i]);
        assert(out@ =~= start + shard_blocks(ws@.take(i as int + 1)));
        i = i + 1;
    }
    assert(ws@.take(ws@.len() as int) =~= ws@);
}

/// Part 1 of the page, in the order the page gives it.
pub open spec fn metrics_part_1(s: MetricsSnapshot) -> Seq<char> {
    help_line("nextdb_up"@, "NextDB process health."@)
        + type_line("nextdb_up"@, "gauge"@)
        + metric_line("nextdb_up"@, Seq::empty(), 1u64)
        + help_line("nextdb_behavior_pooled_instances"@, "Resident pooled Wasm behavior instances."@)
        + type_line("nextdb_behavior_pooled_instances"@, "gauge"@)
        + metric_line("nextdb_behavior_pooled_instances"@, Seq::empty(), s.behavior_runtime.pooled_instances as u64)
        + help_line("nextdb_behavior_instance_pool_max"@, "Configured resident Wasm instance pool limit per behavior."@)
        + type_line("nextdb_behavior_instance_pool_max"@, "gauge"@)
}

#[verifier::rlimit(40)]
fn push_metrics_part_1(out: &mut String, s: &MetricsSnapshot)
    requires
        remote_replica_total(s.wal_shards@) <= u64::MAX,
    ensures
        final(out)@ == old(out)@ + metrics_part_1(*s),
{
    let empty: Vec<(String, String)> = Vec::new();
    let ghost start = out@;
    push_metric_help(out, "nextdb_up", "NextDB process health.");
    push_metric_type(out, "nextdb_up", "gauge");
    push_metric(out, "nextdb_up", &empty, 1);
    push_metric_help(out, "nextdb_behavior_pooled_instances", "Resident pooled Wasm behavior instances.");
    push_metric_type(out, "nextdb_behavior_pooled_instances", "gauge");
    push_metric(out, "nextdb_behavior_pooled_instances", &empty, s.behavior_runtime.pooled_instances as u64);
    push_metric_help(out, "nextdb_behavior_instance_pool_max", "Configured resident Wasm instance pool limit per behavior.");
    push_metric_type(out, "nextdb_behavior_instance_pool_max", "gauge");
    assert(out@ =~= start + metrics_part_1(*s));
}

/// Part 2 of the page, in the order the page gives it.
pub open spec fn metrics_part_2(s: MetricsSnapshot) -> Seq<char> {
    metric_line("nextdb_behavior_instance_pool_max"@, Seq::empty(), s.behavior_runtime.instance_pool_max as u64)
        + help_line("nextdb_behavior_fuel_enabled"@, "Whether Wasm fuel instrumentation is enabled for behavior turns."@)
        + type_line("nextdb_behavior_fuel_enabled"@, "gauge"@)
        + metric_line("nextdb_behavior_fuel_enabled"@, Seq::empty(), (if s.behavior_runtime.fuel_enabled { 1u64 } else { 0u64 }))
        + behavior_counter_metrics(s.behavior_runtime)
        + metric_line("nextdb_accepting_writes"@, Seq::empty(), (if !s.runtime_drain_draining { 1u64 } else { 0u64 }))
        + metric_line("nextdb_draining"@, Seq::empty(), (if s.runtime_drain_draining { 1u64 } else { 0u64 }))
        + metric_line("nextdb_current_lsn"@, Seq::empty(), s.current_lsn)
}

#[verifier::rlimit(40)]
fn push_metrics_part_2(out: &mut String, s: &MetricsSnapshot)
    requires
        remote_replica_total(s.wal_shards@) <= u64::MAX,
    ensures
        final(out)@ == old(out)@ + metrics_part_2(*s),
{
    let empty: Vec<(String, String)> = Vec::new();
    let ghost start = out@;
    push_metric(out, "nextdb_behavior_instance_pool_max", &empty, s.behavior_runtime.instance_pool_max as u64);
    push_metric_help(out, "nextdb_behavior_fuel_enabled", "Whether Wasm fuel instrumentation is enabled for behavior turns.");
    push_metric_type(out, "nextdb_behavior_fuel_enabled", "gauge");
    push_metric(out, "nextdb_behavior_fuel_enabled", &empty, bool_metric(s.behavior_runtime.fuel_enabled));
    push_behavior_counter_metrics(out, &s.behavior_runtime);
    push_metric(out, "nextdb_accepting_writes", &empty, bool_metric(!s.runtime_drain_draining));
    push_metric(out, "nextdb_draining", &empty, bool_metric(s.runtime_drain_draining));
    push_metric(out, "nextdb_current_lsn", &empty, s.current_lsn);
    assert(out@ =~= start + metrics_part_2(*s));
}

/// Part 3 of the page, in the order the page gives it.
pub open spec fn metrics_part_3(s: MetricsSnapshot) -> Seq<char> {
    metric_line("nextdb_last_snapshot_lsn"@, Seq::empty(), s.last_snapshot_lsn)
        + metric_line("nextdb_last_compaction_lsn"@, Seq::empty(), s.last_compaction_lsn)
        + metric_line("nextdb_checkpoint_in_flight"@, Seq::empty(), (if s.checkpoint_in_flight { 1u64 } else { 0u64 }))
        + metric_line("nextdb_runtime_writes_in_flight"@, Seq::empty(), s.runtime_writes_in_flight)
        + metric_line("nextdb_rooms_total"@, Seq::empty(), s.room_count)
        + metric_line("nextdb_hot_room_idle_ttl_ms"@, Seq::empty(), s.hot_room_idle_ttl_ms)
        + metric_line("nextdb_hot_room_maintenance_interval_ms"@, Seq::empty(), s.hot_room_maintenance_interval_ms)
        + metric_line("nextdb_hot_room_idle_last_sweep_at_ms"@, Seq::empty(), (match s.hot_room_idle_maintenance_last_sweep_at_ms { Some(v) => v, None => 0u64 }))
}

#[verifier::rlimit(40)]
fn push_metrics_part_3(out: &mut String, s: &MetricsSnapshot)
    requires
        remote_replica_total(s.wal_shards@) <= u64::MAX,
    ensures
        final(out)@ == old(out)@ + metrics_part_3(*s),
{
    let empty: Vec<(String, String)> = Vec::new();
    let ghost start = out@;
    push_metric(out, "nextdb_last_snapshot_lsn", &empty, s.last_snapshot_lsn);
    push_metric(out, "nextdb_last_compaction_lsn", &empty, s.last_compaction_lsn);
    push_metric(out, "nextdb_checkpoint_in_flight", &empty, bool_metric(s.checkpoint_in_flight));
    push_metric(out, "nextdb_runtime_writes_in_flight", &empty, s.runtime_writes_in_flight);
    push_metric(out, "nextdb_rooms_total", &empty, s.room_count);
    push_metric(out, "nextdb_hot_room_idle_ttl_ms", &empty, s.hot_room_idle_ttl_ms);
    push_metric(out, "nextdb_hot_room_maintenance_interval_ms", &empty, s.hot_room_maintenance_interval_ms);
    push_metric(out, "nextdb_hot_room_idle_last_sweep_at_ms", &empty, match s.hot_room_idle_maintenance_last_sweep_at_ms { Some(v) => v, None => 0 });
    assert(out@ =~= start + metrics_part_3(*s));
}

/// Part 4 of the page, in the order the page gives it.
pub open spec fn metrics_part_4(s: MetricsSnapshot) -> Seq<char> {
    metric_line("nextdb_hot_room_idle_last_evicted"@, Seq::empty(), s.hot_room_idle_maintenance_last_evicted)
        + metric_line("nextdb_hot_room_idle_total_evicted"@, Seq::empty(), s.hot_room_idle_maintenance_total_evicted)
        + metric_line("nextdb_record_projection_records"@, Seq::empty(), s.projection_status_records)
        + metric_line("nextdb_record_projection_index_entries"@, Seq::empty(), s.projection_status_index_entries)
        + metric_line("nextdb_record_projection_key_order_entries"@, Seq::empty(), s.projection_status_key_order_entries)
        + metric_line("nextdb_record_projection_recent_entries"@, Seq::empty(), s.projection_status_recent_entries)
        + metric_line("nextdb_record_projection_partition_entries"@, Seq::empty(), s.projection_status_partition_entries)
        + metric_line("nextdb_record_projection_order_entries"@, Seq::empty(), s.projection_status_order_entries)
}

#[verifier::rlimit(40)]
fn push_metrics_part_4(out: &mut String, s: &MetricsSnapshot)
    requires
        remote_replica_total(s.wal_shards@) <= u64::MAX,
    ensures
        final(out)@ == old(out)@ + metrics_part_4(*s),
{
    let empty: Vec<(String, String)> = Vec::new();
    let ghost start = out@;
    push_metric(out, "nextdb_hot_room_idle_last_evicted", &empty, s.hot_room_idle_maintenance_last_evicted);
    push_metric(out, "nextdb_hot_room_idle_total_evicted", &empty, s.hot_room_idle_maintenance_total_evicted);
    push_metric(out, "nextdb_record_projection_records", &empty, s.projection_status_records);
    push_metric(out, "nextdb_record_projection_index_entries", &empty, s.projection_status_index_entries);
    push_metric(out, "nextdb_record_projection_key_order_entries", &empty, s.projection_status_key_order_entries);
    push_metric(out, "nextdb_record_projection_recent_entries", &empty, s.projection_status_recent_entries);
    push_metric(out, "nextdb_record_projection_partition_entries", &empty, s.projection_status_partition_entries);
    push_metric(out, "nextdb_record_projection_order_entries", &empty, s.projection_status_order_entries);
    assert(out@ =~= start + metrics_part_4(*s));
}

/// Part 5 of the page, in the order the page gives it.
pub open spec fn metrics_part_5(s: MetricsSnapshot) -> Seq<char> {
    metric_line("nextdb_record_hot_tables"@, Seq::empty(), s.record_hot_table_count)
        + metric_line("nextdb_record_hot_records"@, Seq::empty(), s.record_hot_record_count)
        + metric_line("nextdb_record_hot_volatile_records"@, Seq::empty(), s.record_hot_volatile_records)
        + metric_line("nextdb_record_hot_durable_idle_ttl_ms"@, Seq::empty(), s.record_hot_durable_idle_ttl_ms)
        + metric_line("nextdb_record_hot_maintenance_interval_ms"@, Seq::empty(), s.record_hot_maintenance_interval_ms)
        + metric_line("nextdb_record_hot_prewarm_enabled"@, Seq::empty(), (if s.record_hot_prewarm_enabled { 1u64 } else { 0u64 }))
        + metric_line("nextdb_record_hot_prewarm_limit"@, Seq::empty(), s.record_hot_prewarm_limit_per_table)
        + metric_line("nextdb_record_hot_prewarm_last_started_at_ms"@, Seq::empty(), (match s.record_hot_prewarm_last_started_at_ms { Some(v) => v, None => 0u64 }))
}

#[verifier::rlimit(40)]
fn push_metrics_part_5(out: &mut String, s: &MetricsSnapshot)
    requires
        remote_replica_total(s.wal_shards@) <= u64::MAX,
    ensures
        final(out)@ == old(out)@ + metrics_part_5(*s),
{
    let empty: Vec<(String, String)> = Vec::new();
    let ghost start = out@;
    push_metric(out, "nextdb_record_hot_tables", &empty, s.record_hot_table_count);
    push_metric(out, "nextdb_record_hot_records", &empty, s.record_hot_record_count);
    push_metric(out, "nextdb_record_hot_volatile_records", &empty, s.record_hot_volatile_records);
    push_metric(out, "nextdb_record_hot_durable_idle_ttl_ms", &empty, s.record_hot_durable_idle_ttl_ms);
    push_metric(out, "nextdb_record_hot_maintenance_interval_ms", &empty, s.record_hot_maintenance_interval_ms);
    push_metric(out, "nextdb_record_hot_prewarm_enabled", &empty, bool_metric(s.record_hot_prewarm_enabled));
    push_metric(out, "nextdb_record_hot_prewarm_limit", &empty, s.record_hot_prewarm_limit_per_table);
    push_metric(out, "nextdb_record_hot_prewarm_last_started_at_ms", &empty, match s.record_hot_prewarm_last_started_at_ms { Some(v) => v, None => 0 });
    assert(out@ =~= start + metrics_part_5(*s));
}

/// Part 6 of the page, in the order the page gives it.
pub open spec fn metrics_part_6(s: MetricsSnapshot) -> Seq<char> {
    metric_line("nextdb_record_hot_prewarm_last_finished_at_ms"@, Seq::empty(), (match s.record_hot_prewarm_last_finished_at_ms { Some(v) => v, None => 0u64 }))
        + metric_line("nextdb_record_hot_prewarm_total_found"@, Seq::empty(), s.record_hot_prewarm_total_found)
        + metric_line("nextdb_record_hot_prewarm_total_activated"@, Seq::empty(), s.record_hot_prewarm_total_activated)
        + metric_line("nextdb_record_hot_durable_idle_last_sweep_at_ms"@, Seq::empty(), (match s.record_hot_durable_idle_last_sweep_at_ms { Some(v) => v, None => 0u64 }))
        + metric_line("nextdb_record_hot_durable_idle_last_evicted"@, Seq::empty(), s.record_hot_durable_idle_last_evicted)
        + metric_line("nextdb_record_hot_durable_idle_total_evicted"@, Seq::empty(), s.record_hot_durable_idle_total_evicted)
        + metric_line("nextdb_record_hot_get_total"@, Seq::empty(), s.record_hot_get_total)
        + metric_line("nextdb_record_hot_get_hit_total"@, Seq::empty(), s.record_hot_get_hit_total)
}

#[verifier::rlimit(40)]
fn push_metrics_part_6(out: &mut String, s: &MetricsSnapshot)
    requires
        remote_replica_total(s.wal_shards@) <= u64::MAX,
    ensures
        final(out)@ == old(out)@ + metrics_part_6(*s),
{
    let empty: Vec<(String, String)> = Vec::new();
    let ghost start = out@;
    push_metric(out, "nextdb_record_hot_prewarm_last_finished_at_ms", &empty, match s.record_hot_prewarm_last_finished_at_ms { Some(v) => v, None => 0 });
    push_metric(out, "nextdb_record_hot_prewarm_total_found", &empty, s.record_hot_prewarm_total_found);
    push_metric(out, "nextdb_record_hot_prewarm_total_activated", &empty, s.record_hot_prewarm_total_activated);
    push_metric(out, "nextdb_record_hot_durable_idle_last_sweep_at_ms", &empty, match s.record_hot_durable_idle_last_sweep_at_ms { Some(v) => v, None => 0 });
    push_metric(out, "nextdb_record_hot_durable_idle_last_evicted", &empty, s.record_hot_durable_idle_last_evicted);
    push_metric(out, "nextdb_record_hot_durable_idle_total_evicted", &empty, s.record_hot_durable_idle_total_evicted);
    push_metric(out, "nextdb_record_hot_get_total", &empty, s.record_hot_get_total);
    push_metric(out, "nextdb_record_hot_get_hit_total", &empty, s.record_hot_get_hit_total);
    assert(out@ =~= start + metrics_part_6(*s));
}

/// Part 7 of the page, in the order the page gives it.
pub open spec fn metrics_part_7(s: MetricsSnapshot) -> Seq<char> {
    metric_line("nextdb_record_hot_get_miss_total"@, Seq::empty(), s.record_hot_get_miss_total)
        + metric_line("nextdb_record_hot_list_total"@, Seq::empty(), s.record_hot_list_total)
        + metric_line("nextdb_record_hot_list_records_total"@, Seq::empty(), s.record_hot_list_records_total)
        + metric_line("nextdb_record_hot_hydrate_durable_total"@, Seq::empty(), s.record_hot_hydrate_durable_total)
        + metric_line("nextdb_record_hot_hydrate_durable_skipped_volatile_total"@, Seq::empty(), s.record_hot_hydrate_durable_skipped_volatile_total)
        + metric_line("nextdb_record_hot_upsert_total"@, Seq::empty(), s.record_hot_upsert_total)
        + metric_line("nextdb_record_hot_delete_total"@, Seq::empty(), s.record_hot_delete_total)
        + metric_line("nextdb_record_hot_evict_total"@, Seq::empty(), s.record_hot_evict_total)
}

#[verifier::rlimit(40)]
fn push_metrics_part_7(out: &mut String, s: &MetricsSnapshot)
    requires
        remote_replica_total(s.wal_shards@) <= u64::MAX,
    ensures
        final(out)@ == old(out)@ + metrics_part_7(*s),
{
    let empty: Vec<(String, String)> = Vec::new();
    let ghost start = out@;
    push_metric(out, "nextdb_record_hot_get_miss_total", &empty, s.record_hot_get_miss_total);
    push_metric(out, "nextdb_record_hot_list_total", &empty, s.record_hot_list_total);
    push_metric(out, "nextdb_record_hot_list_records_total", &empty, s.record_hot_list_records_total);
    push_metric(out, "nextdb_record_hot_hydrate_durable_total", &empty, s.record_hot_hydrate_durable_total);
    push_metric(out, "nextdb_record_hot_hydrate_durable_skipped_volatile_total", &empty, s.record_hot_hydrate_durable_skipped_volatile_total);
    push_metric(out, "nextdb_record_hot_upsert_total", &empty, s.record_hot_upsert_total);
    push_metric(out, "nextdb_record_hot_delete_total", &empty, s.record_hot_delete_total);
    push_metric(out, "nextdb_record_hot_evict_total", &empty, s.record_hot_evict_total);
    assert(out@ =~= start + metrics_part_7(*s));
}

/// Part 8 of the page, in the order the page gives it.
pub open spec fn metrics_part_8(s: MetricsSnapshot) -> Seq<char> {
    metric_line("nextdb_record_hot_lru_evicted_total"@, Seq::empty(), s.record_hot_lru_evicted_total)
        + table_blocks(s.record_hot_tables@)
        + metric_line("nextdb_objects_total"@, Seq::empty(), s.object_count)
        + metric_line("nextdb_connections_total"@, Seq::empty(), s.connection_count)
        + metric_line("nextdb_connected_users"@, Seq::empty(), s.connected_users)
        + metric_line("nextdb_live_queries_current"@, Seq::empty(), s.live_queries_current)
        + metric_line("nextdb_live_queries_subscribed_total"@, Seq::empty(), s.live_queries_subscribed_total)
        + metric_line("nextdb_live_queries_unsubscribed_total"@, Seq::empty(), s.live_queries_unsubscribed_total)
}

#[verifier::rlimit(40)]
fn push_metrics_part_8(out: &mut String, s: &MetricsSnapshot)
    requires
        remote_replica_total(s.wal_shards@) <= u64::MAX,
    ensures
        final(out)@ == old(out)@ + metrics_part_8(*s),
{
    let empty: Vec<(String, String)> = Vec::new();
    let ghost start = out@;
    push_metric(out, "nextdb_record_hot_lru_evicted_total", &empty, s.record_hot_lru_evicted_total);
    push_table_blocks(out, &s.record_hot_tables);
    push_metric(out, "nextdb_objects_total", &empty, s.object_count);
    push_metric(out, "nextdb_connections_total", &empty, s.connection_count);
    push_metric(out, "nextdb_connected_users", &empty, s.connected_users);
    push_metric(out, "nextdb_live_queries_current", &empty, s.live_queries_current);
    push_metric(out, "nextdb_live_queries_subscribed_total", &empty, s.live_queries_subscribed_total);
    push_metric(out, "nextdb_live_queries_unsubscribed_total", &empty, s.live_queries_unsubscribed_total);
    assert(out@ =~= start + metrics_part_8(*s));
}

/// Part 9 of the page, in the order the page gives it.
pub open spec fn metrics_part_9(s: MetricsSnapshot) -> Seq<char> {
    metric_line("nextdb_live_query_event_batch_max"@, Seq::empty(), s.live_queries_event_batch_max)
        + metric_line("nextdb_live_query_event_batches_total"@, Seq::empty(), s.live_queries_event_batches_total)
        + metric_line("nextdb_live_query_batched_events_total"@, Seq::empty(), s.live_queries_batched_events_total)
        + metric_line("nextdb_live_query_refresh_candidates_total"@, Seq::empty(), s.live_queries_refresh_candidates_total)
        + metric_line("nextdb_live_query_refresh_total"@, Seq::empty(), s.live_queries_refresh_total)
        + metric_line("nextdb_live_query_executions_total"@, Seq::empty(), s.live_queries_query_executions_total)
        + metric_line("nextdb_live_query_result_frames_total"@, Seq::empty(), s.live_queries_result_frames_total)
        + metric_line("nextdb_live_query_diff_frames_total"@, Seq::empty(), s.live_queries_diff_frames_total)
}

#[verifier::rlimit(40)]
fn push_metrics_part_9(out: &mut String, s: &MetricsSnapshot)
    requires
        remote_replica_total(s.wal_shards@) <= u64::MAX,
    ensures
        final(out)@ == old(out)@ + metrics_part_9(*s),
{
    let empty: Vec<(String, String)> = Vec::new();
    let ghost start = out@;
    push_metric(out, "nextdb_live_query_event_batch_max", &empty, s.live_queries_event_batch_max);
    push_metric(out, "nextdb_live_query_event_batches_total", &empty, s.live_queries_event_batches_total);
    push_metric(out, "nextdb_live_query_batched_events_total", &empty, s.live_queries_batched_events_total);
    push_metric(out, "nextdb_live_query_refresh_candidates_total", &empty, s.live_queries_refresh_candidates_total);
    push_metric(out, "nextdb_live_query_refresh_total", &empty, s.live_queries_refresh_total);
    push_metric(out, "nextdb_live_query_executions_total", &empty, s.live_queries_query_executions_total);
    push_metric(out, "nextdb_live_query_result_frames_total", &empty, s.live_queries_result_frames_total);
    push_metric(out, "nextdb_live_query_diff_frames_total", &empty, s.live_queries_diff_frames_total);
    assert(out@ =~= start + metrics_part_9(*s));
}

/// Part 10 of the page, in the order the page gives it.
pub open spec fn metrics_part_10(s: MetricsSnapshot) -> Seq<char> {
    metric_line("nextdb_live_query_unchanged_total"@, Seq::empty(), s.live_queries_unchanged_total)
        + metric_line("nextdb_live_query_evaluation_cache_hits_total"@, Seq::empty(), s.live_queries_evaluation_cache_hits_total)
        + metric_line("nextdb_live_query_errors_total"@, Seq::empty(), s.live_queries_errors_total)
        + metric_line("nextdb_realtime_channels"@, Seq::empty(), s.realtime_status_channel_count)
        + metric_line("nextdb_realtime_channel_states"@, Seq::empty(), s.realtime_status_state_count)
        + metric_line("nextdb_realtime_channel_sequences"@, Seq::empty(), s.realtime_status_sequence_count)
        + metric_line("nextdb_realtime_maintenance_interval_ms"@, Seq::empty(), s.realtime_maintenance_interval_ms)
        + metric_line("nextdb_realtime_maintenance_last_sweep_at_ms"@, Seq::empty(), (match s.realtime_status_maintenance_last_sweep_at_ms { Some(v) => v, None => 0u64 }))
}

#[verifier::rlimit(40)]
fn push_metrics_part_10(out: &mut String, s: &MetricsSnapshot)
    requires
        remote_replica_total(s.wal_shards@) <= u64::MAX,
    ensures
        final(out)@ == old(out)@ + metrics_part_10(*s),
{
    let empty: Vec<(String, String)> = Vec::new();
    let ghost start = out@;
    push_metric(out, "nextdb_live_query_unchanged_total", &empty, s.live_queries_unchanged_total);
    push_metric(out, "nextdb_live_query_evaluation_cache_hits_total", &empty, s.live_queries_evaluation_cache_hits_total);
    push_metric(out, "nextdb_live_query_errors_total", &empty, s.live_queries_errors_total);
    push_metric(out, "nextdb_realtime_channels", &empty, s.realtime_status_channel_count);
    push_metric(out, "nextdb_realtime_channel_states", &empty, s.realtime_status_state_count);
    push_metric(out, "nextdb_realtime_channel_sequences", &empty, s.realtime_status_sequence_count);
    push_metric(out, "nextdb_realtime_maintenance_interval_ms", &empty, s.realtime_maintenance_interval_ms);
    push_metric(out, "nextdb_realtime_maintenance_last_sweep_at_ms", &empty, match s.realtime_status_maintenance_last_sweep_at_ms { Some(v) => v, None => 0 });
    assert(out@ =~= start + metrics_part_10(*s));
}

/// Part 11 of the page, in the order the page gives it.
pub open spec fn metrics_part_11(s: MetricsSnapshot) -> Seq<char> {
    metric_line("nextdb_realtime_maintenance_last_orphan_states_removed"@, Seq::empty(), s.realtime_status_maintenance_last_orphan_states_removed)
        + metric_line("nextdb_realtime_maintenance_last_stale_members_removed"@, Seq::empty(), s.realtime_status_maintenance_last_stale_members_removed)
        + metric_line("nextdb_realtime_maintenance_last_orphan_sequences_removed"@, Seq::empty(), s.realtime_status_maintenance_last_orphan_sequences_removed)
        + metric_line("nextdb_realtime_maintenance_total_stale_members_removed"@, Seq::empty(), s.realtime_status_maintenance_total_stale_members_removed)
        + metric_line("nextdb_realtime_maintenance_total_orphan_states_removed"@, Seq::empty(), s.realtime_status_maintenance_total_orphan_states_removed)
        + metric_line("nextdb_realtime_maintenance_total_orphan_sequences_removed"@, Seq::empty(), s.realtime_status_maintenance_total_orphan_sequences_removed)
        + metric_line("nextdb_limit_max_object_bytes"@, Seq::empty(), s.limits_max_object_bytes)
        + metric_line("nextdb_limit_max_message_bytes"@, Seq::empty(), s.limits_max_message_bytes)
}

#[verifier::rlimit(40)]
fn push_metrics_part_11(out: &mut String, s: &MetricsSnapshot)
    requires
        remote_replica_total(s.wal_shards@) <= u64::MAX,
    ensures
        final(out)@ == old(out)@ + metrics_part_11(*s),
{
    let empty: Vec<(String, String)> = Vec::new();
    let ghost start = out@;
    push_metric(out, "nextdb_realtime_maintenance_last_orphan_states_removed", &empty, s.realtime_status_maintenance_last_orphan_states_removed);
    push_metric(out, "nextdb_realtime_maintenance_last_stale_members_removed", &empty, s.realtime_status_maintenance_last_stale_members_removed);
    push_metric(out, "nextdb_realtime_maintenance_last_orphan_sequences_removed", &empty, s.realtime_status_maintenance_last_orphan_sequences_removed);
    push_metric(out, "nextdb_realtime_maintenance_total_stale_members_removed", &empty, s.realtime_status_maintenance_total_stale_members_removed);
    push_metric(out, "nextdb_realtime_maintenance_total_orphan_states_removed", &empty, s.realtime_status_maintenance_total_orphan_states_removed);
    push_metric(out, "nextdb_realtime_maintenance_total_orphan_sequences_removed", &empty, s.realtime_status_maintenance_total_orphan_sequences_removed);
    push_metric(out, "nextdb_limit_max_object_bytes", &empty, s.limits_max_object_bytes);
    push_metric(out, "nextdb_limit_max_message_bytes", &empty, s.limits_max_message_bytes);
    assert(out@ =~= start + metrics_part_11(*s));
}

/// Part 12 of the page, in the order the page gives it.
pub open spec fn metrics_part_12(s: MetricsSnapshot) -> Seq<char> {
    metric_line("nextdb_limit_max_user_event_bytes"@, Seq::empty(), s.limits_max_user_event_bytes)
        + metric_line("nextdb_limit_max_record_value_bytes"@, Seq::empty(), s.limits_max_record_value_bytes)
        + metric_line("nextdb_limit_max_live_queries_per_connection"@, Seq::empty(), s.limits_max_live_queries_per_connection)
        + metric_line("nextdb_limit_max_live_queries_per_table_per_connection"@, Seq::empty(), s.limits_max_live_queries_per_table_per_connection)
        + metric_line("nextdb_limit_max_live_queries_per_user"@, Seq::empty(), s.limits_max_live_queries_per_user)
        + metric_line("nextdb_wal_shards"@, Seq::empty(), s.wal_shards_count)
        + metric_line("nextdb_wal_remote_replicas"@, Seq::empty(), remote_replica_total(s.wal_shards@) as u64)
        + shard_blocks(s.wal_shards@)
}

#[verifier::rlimit(40)]
fn push_metrics_part_12(out: &mut String, s: &MetricsSnapshot)
    requires
        remote_replica_total(s.wal_shards@) <= u64::MAX,
    ensures
        final(out)@ == old(out)@ + metrics_part_12(*s),
{
    let empty: Vec<(String, String)> = Vec::new();
    let ghost start = out@;
    push_metric(out, "nextdb_limit_max_user_event_bytes", &empty, s.limits_max_user_event_bytes);
    push_metric(out, "nextdb_limit_max_record_value_bytes", &empty, s.limits_max_record_value_bytes);
    push_metric(out, "nextdb_limit_max_live_queries_per_connection", &empty, s.limits_max_live_queries_per_connection);
    push_metric(out, "nextdb_limit_max_live_queries_per_table_per_connection", &empty, s.limits_max_live_queries_per_table_per_connection);
    push_metric(out, "nextdb_limit_max_live_queries_per_user", &empty, s.limits_max_live_queries_per_user);
    push_metric(out, "nextdb_wal_shards", &empty, s.wal_shards_count);
    let total = remote_replica_total_of(&s.wal_shards);
    push_metric(out, "nextdb_wal_remote_replicas", &empty, total);
    push_shard_blocks(out, &s.wal_shards);
    assert(out@ =~= start + metrics_part_12(*s));
}

/// Part 13 of the page, in the order the page gives it.
pub open spec fn metrics_part_13(s: MetricsSnapshot) -> Seq<char> {
    metric_line("nextdb_backup_runs_total"@, Seq::empty(), s.export_backup_runs)
        + metric_line("nextdb_backup_controller_enabled"@, Seq::empty(), (if s.export_backup_controller_enabled { 1u64 } else { 0u64 }))
        + metric_line("nextdb_backup_controller_interval_ms"@, Seq::empty(), s.export_backup_controller_interval_ms)
        + metric_line("nextdb_handoff_controller_enabled"@, Seq::empty(), (if s.handoff_controller_enabled { 1u64 } else { 0u64 }))
        + metric_line("nextdb_failover_controller_enabled"@, Seq::empty(), (if s.failover_controller_enabled { 1u64 } else { 0u64 }))
        + metric_line("nextdb_wal_repair_controller_enabled"@, Seq::empty(), (if s.wal_repair_controller_enabled { 1u64 } else { 0u64 }))
        + metric_line("nextdb_wal_repair_controller_interval_ms"@, Seq::empty(), s.wal_repair_controller_interval_ms)
        + metric_line("nextdb_wal_repair_controller_last_run_at_ms"@, Seq::empty(), (match s.wal_repair_controller_last_run_at_ms { Some(v) => v, None => 0u64 }))
}

#[verifier::rlimit(40)]
fn push_metrics_part_13(out: &mut String, s: &MetricsSnapshot)
    requires
        remote_replica_total(s.wal_shards@) <= u64::MAX,
    ensures
        final(out)@ == old(out)@ + metrics_part_13(*s),
{
    let empty: Vec<(String, String)> = Vec::new();
    let ghost start = out@;
    push_metric(out, "nextdb_backup_runs_total", &empty, s.export_backup_runs);
    push_metric(out, "nextdb_backup_controller_enabled", &empty, bool_metric(s.export_backup_controller_enabled));
    push_metric(out, "nextdb_backup_controller_interval_ms", &empty, s.export_backup_controller_interval_ms);
    push_metric(out, "nextdb_handoff_controller_enabled", &empty, bool_metric(s.handoff_controller_enabled));
    push_metric(out, "nextdb_failover_controller_enabled", &empty, bool_metric(s.failover_controller_enabled));
    push_metric(out, "nextdb_wal_repair_controller_enabled", &empty, bool_metric(s.wal_repair_controller_enabled));
    push_metric(out, "nextdb_wal_repair_controller_interval_ms", &empty, s.wal_repair_controller_interval_ms);
    push_metric(out, "nextdb_wal_repair_controller_last_run_at_ms", &empty, match s.wal_repair_controller_last_run_at_ms { Some(v) => v, None => 0 });
    assert(out@ =~= start + metrics_part_13(*s));
}

/// Part 14 of the page, in the order the page gives it.
pub open spec fn metrics_part_14(s: MetricsSnapshot) -> Seq<char> {
    metric_line("nextdb_wal_repair_controller_records_sent"@, Seq::empty(), s.wal_repair_controller_last_records_sent)
        + metric_line("nextdb_wal_repair_controller_repaired_replicas"@, Seq::empty(), s.wal_repair_controller_last_repaired_replicas)
        + metric_line("nextdb_wal_repair_controller_satisfied"@, Seq::empty(), (if s.wal_repair_controller_last_satisfied { 1u64 } else { 0u64 }))
        + metric_line("nextdb_wal_repair_controller_last_error"@, Seq::empty(), (if s.wal_repair_controller_last_error is Some { 1u64 } else { 0u64 }))
        + metric_line("nextdb_object_repair_controller_enabled"@, Seq::empty(), (if s.object_repair_controller_enabled { 1u64 } else { 0u64 }))
        + metric_line("nextdb_object_repair_controller_interval_ms"@, Seq::empty(), s.object_repair_controller_interval_ms)
        + metric_line("nextdb_object_repair_controller_last_run_at_ms"@, Seq::empty(), (match s.object_repair_controller_last_run_at_ms { Some(v) => v, None => 0u64 }))
        + metric_line("nextdb_object_repair_controller_objects_sent"@, Seq::empty(), s.object_repair_controller_last_objects_sent)
}

#[verifier::rlimit(40)]
fn push_metrics_part_14(out: &mut String, s: &MetricsSnapshot)
    requires
        remote_replica_total(s.wal_shards@) <= u64::MAX,
    ensures
        final(out)@ == old(out)@ + metrics_part_14(*s),
{
    let empty: Vec<(String, String)> = Vec::new();
    let ghost start = out@;
    push_metric(out, "nextdb_wal_repair_controller_records_sent", &empty, s.wal_repair_controller_last_records_sent);
    push_metric(out, "nextdb_wal_repair_controller_repaired_replicas", &empty, s.wal_repair_controller_last_repaired_replicas);
    push_metric(out, "nextdb_wal_repair_controller_satisfied", &empty, bool_metric(s.wal_repair_controller_last_satisfied));
    push_metric(out, "nextdb_wal_repair_controller_last_error", &empty, bool_metric(s.wal_repair_controller_last_error.is_some()));
    push_metric(out, "nextdb_object_repair_controller_enabled", &empty, bool_metric(s.object_repair_controller_enabled));
    push_metric(out, "nextdb_object_repair_controller_interval_ms", &empty, s.object_repair_controller_interval_ms);
    push_metric(out, "nextdb_object_repair_controller_last_run_at_ms", &empty, match s.object_repair_controller_last_run_at_ms { Some(v) => v, None => 0 });
    push_metric(out, "nextdb_object_repair_controller_objects_sent", &empty, s.object_repair_controller_last_objects_sent);
    assert(out@ =~= start + metrics_part_14(*s));
}

/// Part 15 of the page, in the order the page gives it.
pub open spec fn metrics_part_15(s: MetricsSnapshot) -> Seq<char> {
    metric_line("nextdb_object_repair_controller_repaired_replicas"@, Seq::empty(), s.object_repair_controller_last_repaired_replicas)
        + metric_line("nextdb_object_repair_controller_satisfied"@, Seq::empty(), (if s.object_repair_controller_last_satisfied { 1u64 } else { 0u64 }))
        + metric_line("nextdb_object_repair_controller_last_error"@, Seq::empty(), (if s.object_repair_controller_last_error is Some { 1u64 } else { 0u64 }))
        + metric_line("nextdb_peer_monitor_enabled"@, Seq::empty(), (if s.peer_health_enabled { 1u64 } else { 0u64 }))
        + metric_line("nextdb_peer_monitor_peers"@, Seq::empty(), s.peer_health_peers_count)
}

#[verifier::rlimit(40)]
fn push_metrics_part_15(out: &mut String, s: &MetricsSnapshot)
    requires
        remote_replica_total(s.wal_shards@) <= u64::MAX,
    ensures
        final(out)@ == old(out)@ + metrics_part_15(*s),
{
    let empty: Vec<(String, String)> = Vec::new();
    let ghost start = out@;
    push_metric(out, "nextdb_object_repair_controller_repaired_replicas", &empty, s.object_repair_controller_last_repaired_replicas);
    push_metric(out, "nextdb_object_repair_controller_satisfied", &empty, bool_metric(s.object_repair_controller_last_satisfied));
    push_metric(out, "nextdb_object_repair_controller_last_error", &empty, bool_metric(s.object_repair_controller_last_error.is_some()));
    push_metric(out, "nextdb_peer_monitor_enabled", &empty, bool_metric(s.peer_health_enabled));
    push_metric(out, "nextdb_peer_monitor_peers", &empty, s.peer_health_peers_count);
    assert(out@ =~= start + metrics_part_15(*s));
}

/// The metrics page of a snapshot: its parts in order.
pub open spec fn metrics_spec(s: MetricsSnapshot) -> Seq<char> {
    metrics_part_1(s)
        + metrics_part_2(s)
        + metrics_part_3(s)
        + metrics_part_4(s)
        + metrics_part_5(s)
        + metrics_part_6(s)
        + metrics_part_7(s)
        + metrics_part_8(s)
        + metrics_part_9(s)
        + metrics_part_10(s)
        + metrics_part_11(s)
        + metrics_part_12(s)
        + metrics_part_13(s)
        + metrics_part_14(s)
        + metrics_part_15(s)
}

/// The Prometheus text of the metrics page for a snapshot of the node, as
/// `metrics_spec` gives it.
pub fn metrics_text(snapshot: &MetricsSnapshot) -> (out: String)
    requires
        remote_replica_total(snapshot.wal_shards@) <= u64::MAX,
    ensures
        out@ == metrics_spec(*snapshot),
{
    let mut out = String::new();
    push_metrics_part_1(&mut out, snapshot);
    push_metrics_part_2(&mut out, snapshot);
    push_metrics_part_3(&mut out, snapshot);
    push_metrics_part_4(&mut out, snapshot);
    push_metrics_part_5(&mut out, snapshot);
    push_metrics_part_6(&mut out, snapshot);
    push_metrics_part_7(&mut out, snapshot);
    push_metrics_part_8(&mut out, snapshot);
    push_metrics_part_9(&mut out, snapshot);
    push_metrics_part_10(&mut out, snapshot);
    push_metrics_part_11(&mut out, snapshot);
    push_metrics_part_12(&mut out, snapshot);
    push_metrics_part_13(&mut out, snapshot);
    push_metrics_part_14(&mut out, snapshot);
    push_metrics_part_15(&mut out, snapshot);
    assert(out@ =~= metrics_spec(*snapshot));
    out
}

} // verus!

use nextdb_server::readiness::readiness_report;

#[test]
fn a_draining_node_reads_but_refuses_writes() {
    let r = readiness_report(2, 2, true, Some("restarting".to_string()), 1, "schema.json".to_string());
    assert!(r.read_ready && !r.write_ready && !r.realtime_ready && !r.ok);
    assert_eq!(r.checks[1].detail, "restarting");
    assert_eq!(r.checks[4].detail, "runtime drain rejects new realtime connections");
}

#[test]
fn a_node_that_owns_no_shard_cannot_write() {
    let r = readiness_report(3, 3, false, None, 0, "s".to_string());
    assert!(r.read_ready && !r.write_ready && r.realtime_ready && !r.ok);
    assert_eq!(r.checks[0].detail, "3 WAL shard worker(s) available");
    assert_eq!(r.checks[2].detail, "0/3 local shard(s) writable");
    let r = readiness_report(3, 3, false, None, 2, "s".to_string());
    assert!(r.ok && r.write_ready);
    assert_eq!(r.checks[1].detail, "runtime accepts new writes and realtime connections");
    let empty = readiness_report(0, 0, false, None, 0, "s".to_string());
    assert!(!empty.read_ready);
}

#[test]
fn health_sums_replicas_and_lists_object_replicas_once() {
    let s = |v: &str| v.to_string();
    let h = nextdb_server::readiness::health_summary(
        true,
        false,
        false,
        2,
        &vec![1, 2],
        &vec![0, 3],
        &vec![vec![s("http://a"), s("http://b")], vec![s("http://b"), s("http://c")]],
    );
    assert!(!h.accepting_writes);
    assert!(!h.admin_auth_enabled);
    assert!(h.client_auth_enabled);
    assert!(h.client_user_auth_enabled);
    assert_eq!(h.wal_replica_count, 3);
    assert_eq!(h.wal_remote_replica_count, 3);
    assert_eq!(h.object_remote_replicas, vec![s("http://a"), s("http://b"), s("http://c")]);
}

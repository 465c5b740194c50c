use nextdb_server::wal_maintenance::{
    ActiveChecksumSeal, ChecksumSealCounts, WalRepairReport, checksum_seal_totals, remote_replica_urls_for_shard,
    wal_repair_summary,
};

fn s(v: &str) -> String {
    v.to_string()
}

fn nodes() -> Vec<(String, String)> {
    vec![(s("n1"), s("http://n1:7000")), (s("n2"), s("http://n2:7000")), (s("n3"), s("http://n3:7000"))]
}

#[test]
fn replicas_are_reached_by_their_urls_without_this_node() {
    let replicas = vec![s("n1"), s("n2"), s("n4"), s("n3")];
    let urls = remote_replica_urls_for_shard(true, None, &replicas, "n2", &nodes());
    assert_eq!(urls, vec![s("http://n1:7000"), s("http://n3:7000")]);
}

#[test]
fn configured_replica_urls_win_and_a_lone_node_replicates_nowhere() {
    let replicas = vec![s("n1"), s("n2")];
    let urls = remote_replica_urls_for_shard(true, Some(vec![s("http://backup:1")]), &replicas, "n2", &nodes());
    assert_eq!(urls, vec![s("http://backup:1")]);
    let urls = remote_replica_urls_for_shard(false, Some(vec![s("http://backup:1")]), &replicas, "n2", &nodes());
    assert!(urls.is_empty());
}

#[test]
fn a_repair_pass_sums_its_shards_and_names_the_first_short_one() {
    let reports = vec![
        (0, WalRepairReport { records_sent: 4, repaired_replicas: 2, remote_required_acks: 2, satisfied: true }),
        (2, WalRepairReport { records_sent: 1, repaired_replicas: 0, remote_required_acks: 1, satisfied: false }),
        (3, WalRepairReport { records_sent: 7, repaired_replicas: 1, remote_required_acks: 2, satisfied: false }),
    ];
    let summary = wal_repair_summary(&reports);
    assert_eq!(summary.shards, vec![0, 2, 3]);
    assert_eq!(summary.records_sent, 12);
    assert_eq!(summary.repaired_replicas, 3);
    assert!(!summary.satisfied);
    assert_eq!(summary.error.as_deref(), Some("shard 2 repair satisfied 0/1 remote ack(s)"));
    let empty = wal_repair_summary(&Vec::new());
    assert!(empty.satisfied);
    assert!(empty.error.is_none());
    assert_eq!(empty.records_sent, 0);
}

#[test]
fn sealing_totals_count_logs_replicas_and_archives() {
    let c = |records, sealed, already_sealed, rewritten| ChecksumSealCounts { records, sealed, already_sealed, rewritten };
    let active = vec![
        ActiveChecksumSeal { log: c(10, 2, 8, true), replicas: vec![c(10, 10, 0, true)] },
        ActiveChecksumSeal { log: c(3, 0, 3, false), replicas: Vec::new() },
    ];
    let archives = vec![c(100, 0, 100, false), c(5, 5, 0, true)];
    let t = checksum_seal_totals(&active, &archives);
    assert_eq!(t.records, 128);
    assert_eq!(t.sealed, 17);
    assert_eq!(t.already_sealed, 111);
    assert_eq!(t.rewritten_files, 3);
}

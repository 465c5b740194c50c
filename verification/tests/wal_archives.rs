use nextdb_server::model::{Durability, WalPayload, WalRecord};
use nextdb_server::wal_archive::{
    WalArchiveRetentionQuery, archive_file_report, archive_retain_reason, archive_retention_response, archive_should_delete,
    archive_span, check_archive_retention_query, unreadable_archive_report,
};

fn entry(lsn: u64, timestamp_ms: u64) -> WalRecord {
    WalRecord {
        lsn,
        shard: 0,
        shard_epoch: 1,
        owner_node_id: String::new(),
        durability: Durability::Strict,
        timestamp_ms,
        payload: WalPayload::Other,
    }
}

#[test]
fn retention_needs_a_bound_and_defaults_to_a_dry_run() {
    let q = |l, t, d| WalArchiveRetentionQuery { before_lsn: l, before_timestamp_ms: t, dry_run: d };
    assert_eq!(
        check_archive_retention_query(&q(None, None, None)).unwrap_err().message,
        "provide beforeLsn or beforeTimestampMs for WAL archive retention"
    );
    assert_eq!(check_archive_retention_query(&q(Some(5), None, None)).ok(), Some(true));
    assert_eq!(check_archive_retention_query(&q(None, Some(5), Some(false))).ok(), Some(false));
}

#[test]
fn archives_go_only_when_wholly_before_the_bounds() {
    let span = archive_span(&vec![entry(7, 300), entry(3, 900), entry(5, 100)]);
    assert_eq!((span.records, span.min_lsn, span.max_lsn), (3, Some(3), Some(7)));
    assert_eq!((span.min_timestamp_ms, span.max_timestamp_ms), (Some(100), Some(900)));

    let by_lsn = WalArchiveRetentionQuery { before_lsn: Some(7), before_timestamp_ms: None, dry_run: None };
    assert_eq!(archive_retain_reason(&span, &by_lsn), Some("max LSN is not before 7".to_string()));
    let by_lsn = WalArchiveRetentionQuery { before_lsn: Some(8), before_timestamp_ms: None, dry_run: None };
    assert_eq!(archive_retain_reason(&span, &by_lsn), None);
    let both = WalArchiveRetentionQuery { before_lsn: Some(8), before_timestamp_ms: Some(900), dry_run: None };
    assert_eq!(archive_retain_reason(&span, &both), Some("max timestamp is not before 900".to_string()));
    let empty = archive_span(&vec![]);
    assert_eq!(archive_retain_reason(&empty, &both), Some("archive file has no records".to_string()));
}

#[test]
fn the_report_counts_each_action() {
    let q = WalArchiveRetentionQuery { before_lsn: Some(10), before_timestamp_ms: None, dry_run: Some(false) };
    let span = || archive_span(&vec![entry(1, 1)]);
    let reports = vec![
        archive_file_report("a".to_string(), 0, span(), None, true),
        archive_file_report("b".to_string(), 0, span(), Some("max LSN is not before 10".to_string()), false),
        archive_file_report("c".to_string(), 1, span(), None, false),
        unreadable_archive_report("d".to_string(), 1, "bad line"),
    ];
    assert_eq!(reports[0].action, "deleted");
    assert_eq!(reports[2].action, "delete");
    assert_eq!(reports[3].reason, Some("failed to read archive file: bad line".to_string()));
    let r = archive_retention_response(&q, false, reports);
    assert_eq!((r.retained, r.candidates, r.deleted), (2, 2, 1));
    assert_eq!(r.before_lsn, Some(10));
}

#[test]
fn archives_lie_beside_the_log_file() {
    assert_eq!(nextdb_server::wal_archive::wal_archive_dir_for_path("/data/wal/shard-0.jsonl"), "/data/wal/archive");
    assert_eq!(nextdb_server::wal_archive::wal_archive_dir_for_path("shard-0.jsonl"), "archive");
    assert_eq!(nextdb_server::wal_archive::wal_archive_dir_for_path("/"), "archive");
}

#[test]
fn an_archive_is_deleted_only_when_nothing_keeps_it_and_the_run_is_real() {
    assert!(archive_should_delete(&None, false));
    assert!(!archive_should_delete(&None, true));
    assert!(!archive_should_delete(&Some("archive file has no records".to_string()), false));
    assert!(!archive_should_delete(&Some("archive file has no records".to_string()), true));
}

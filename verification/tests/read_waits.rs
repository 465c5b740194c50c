use nextdb_server::index_query::{
    QueryRecordsByIndexQuery, RecordReadConsistency, RecordReadConsistencyQuery,
    parse_index_bound_values, parse_index_prefix_values, parse_index_query_values, parse_index_value,
    record_projection_lag_error, record_read_wait_lsn,
};
use nextdb_server::json::{JsonNumber, JsonValue};
use nextdb_server::sync::ReadConsistency;
use nextdb_server::sync_wait::{RemoteReadAckProgress, remote_read_ack_progress, sync_wait_outcome};
use nextdb_server::wal::WalRemoteReplica;

fn replica(lsn: u64) -> WalRemoteReplica {
    WalRemoteReplica { url: "http://r/v1/admin/wal/replicate".to_string(), highest_acked_lsn: lsn }
}

fn num(n: u64) -> JsonValue {
    JsonValue::Number(JsonNumber::PosInt(n))
}

#[test]
fn remote_progress_counts_replicas_at_the_lsn() {
    let replicas = vec![replica(5), replica(10), replica(12)];
    let p = remote_read_ack_progress(10, ReadConsistency::All, Some(0), 2, &replicas, 2).ok().unwrap();
    assert_eq!((p.required_acks, p.acked, p.caught_up), (3, 2, false));
    let p = remote_read_ack_progress(10, ReadConsistency::Quorum, Some(1), 2, &replicas, 2).ok().unwrap();
    assert_eq!((p.required_acks, p.acked, p.caught_up), (2, 2, true));
    let p = remote_read_ack_progress(10, ReadConsistency::Local, Some(1), 2, &replicas, 2).ok().unwrap();
    assert_eq!((p.required_acks, p.acked, p.caught_up), (0, 2, true));
    let p = remote_read_ack_progress(10, ReadConsistency::All, None, 2, &replicas, 2).ok().unwrap();
    assert_eq!((p.required_acks, p.acked, p.caught_up), (0, 0, true));
    let e = remote_read_ack_progress(10, ReadConsistency::All, Some(2), 2, &replicas, 2).err().unwrap();
    assert_eq!(e.message, "shard is out of range");
}

#[test]
fn waits_end_when_caught_up_or_out_of_time() {
    let behind = RemoteReadAckProgress { required_acks: 2, acked: 1, caught_up: false };
    let ahead = RemoteReadAckProgress { required_acks: 2, acked: 2, caught_up: true };
    assert!(sync_wait_outcome(10, None, ReadConsistency::Quorum, Some(0), 12, &behind, 100).is_none());
    let done = sync_wait_outcome(10, None, ReadConsistency::Quorum, Some(0), 12, &ahead, 100).unwrap();
    assert!(done.caught_up && done.remote_caught_up);
    assert_eq!((done.waited_ms, done.remote_acked), (100, 2));
    let late = sync_wait_outcome(10, None, ReadConsistency::Quorum, Some(0), 12, &behind, 5000).unwrap();
    assert!(!late.caught_up);
    // the time asked for is capped at 30 s
    assert!(sync_wait_outcome(10, Some(60_000), ReadConsistency::Local, None, 3, &ahead, 29_999).is_none());
    assert!(sync_wait_outcome(10, Some(60_000), ReadConsistency::Local, None, 3, &ahead, 30_000).is_some());
    assert!(sync_wait_outcome(10, Some(20), ReadConsistency::Local, None, 3, &ahead, 20).is_some());
}

#[test]
fn read_consistency_picks_the_lsn_to_wait_for() {
    let q = |c, m| RecordReadConsistencyQuery { consistency: c, min_lsn: m };
    assert_eq!(record_read_wait_lsn(&RecordReadConsistencyQuery::default(), 9).ok().unwrap(), None);
    assert_eq!(record_read_wait_lsn(&q(Some(RecordReadConsistency::Eventual), Some(4)), 9).ok().unwrap(), None);
    assert_eq!(record_read_wait_lsn(&q(Some(RecordReadConsistency::ReadYourWrites), Some(4)), 9).ok().unwrap(), Some(4));
    assert_eq!(record_read_wait_lsn(&q(Some(RecordReadConsistency::Strong), None), 9).ok().unwrap(), Some(9));
    let e = record_read_wait_lsn(&q(Some(RecordReadConsistency::ReadYourWrites), None), 9).err().unwrap();
    assert_eq!(e.message, "read-your-writes consistency requires minLsn");
    let e = record_projection_lag_error(&q(Some(RecordReadConsistency::ReadYourWrites), Some(42)), 42, 50);
    assert_eq!(e.message, "record projection did not catch up to LSN 42");
    let details = e.details.unwrap();
    match details {
        JsonValue::Object(members) => {
            let keys: Vec<&str> = members.iter().map(|(k, _)| k.as_str()).collect();
            assert_eq!(keys, vec!["consistency", "currentLsn", "minLsn", "waitedForLsn"]);
            assert!(matches!(&members[0].1, JsonValue::String(s) if s == "read-your-writes"));
            assert!(matches!(members[1].1, JsonValue::Number(JsonNumber::PosInt(50))));
            assert!(matches!(members[2].1, JsonValue::Number(JsonNumber::PosInt(42))));
            assert!(matches!(members[3].1, JsonValue::Number(JsonNumber::PosInt(42))));
        }
        _ => panic!("details are an object"),
    }
    let e = record_projection_lag_error(&q(None, None), 7, 7);
    match e.details.unwrap() {
        JsonValue::Object(members) => {
            assert!(matches!(&members[0].1, JsonValue::String(s) if s == "eventual"));
            assert!(matches!(members[2].1, JsonValue::Null));
        }
        _ => panic!("details are an object"),
    }
}

#[test]
fn index_values_are_counted_and_scalar() {
    assert!(matches!(parse_index_value("abc", None), JsonValue::String(s) if s == "abc"));
    assert!(matches!(parse_index_value("7", Some(num(7))), JsonValue::Number(JsonNumber::PosInt(7))));
    assert!(matches!(parse_index_value("[1]", Some(JsonValue::Array(vec![num(1)]))), JsonValue::String(s) if s == "[1]"));

    let ok = parse_index_query_values(Some(Ok(vec![num(1), JsonValue::Null])), None, 2).ok().unwrap();
    assert_eq!(ok.len(), 2);
    let e = parse_index_query_values(Some(Ok(vec![num(1)])), None, 2).err().unwrap();
    assert_eq!(e.message, "index requires 2 value(s), got 1");
    let e = parse_index_query_values(Some(Ok(vec![JsonValue::Array(vec![])])), None, 1).err().unwrap();
    assert_eq!(e.message, "index query values must be scalar");
    let e = parse_index_query_values(Some(Err("expected value".to_string())), None, 1).err().unwrap();
    assert_eq!(e.message, "invalid values JSON: expected value");
    let e = parse_index_query_values(None, None, 1).err().unwrap();
    assert_eq!(e.message, "value or values is required");
    assert_eq!(parse_index_query_values(None, Some(num(3)), 1).ok().unwrap().len(), 1);

    let e = parse_index_prefix_values(Ok(vec![]), 2).err().unwrap();
    assert_eq!(e.message, "indexValues must not be empty");
    let e = parse_index_prefix_values(Ok(vec![num(1), num(2), num(3)]), 2).err().unwrap();
    assert_eq!(e.message, "index prefix accepts at most 2 value(s), got 3");
    let e = parse_index_prefix_values(Ok(vec![JsonValue::Object(vec![])]), 2).err().unwrap();
    assert_eq!(e.message, "indexValues must be scalar");
    let e = parse_index_prefix_values(Err("eof".to_string()), 2).err().unwrap();
    assert_eq!(e.message, "invalid indexValues JSON: eof");
    assert_eq!(parse_index_prefix_values(Ok(vec![num(1)]), 2).ok().unwrap().len(), 1);

    assert!(parse_index_bound_values(None, None, 2).ok().unwrap().is_none());
    let e = parse_index_bound_values(None, Some(num(1)), 2).err().unwrap();
    assert_eq!(e.message, "index range bound requires 2 value(s), got 1");
    let e = parse_index_bound_values(Some(Ok(vec![JsonValue::Array(vec![])])), None, 1).err().unwrap();
    assert_eq!(e.message, "index range values must be scalar");
    assert_eq!(parse_index_bound_values(Some(Ok(vec![num(1)])), None, 1).ok().unwrap().unwrap().len(), 1);
}

#[test]
fn range_queries_name_a_bound_or_cursor() {
    let mut q = QueryRecordsByIndexQuery {
        consistency: RecordReadConsistencyQuery::default(),
        value: Some("x".to_string()),
        values: None,
        lower: None,
        upper: None,
        lower_values: None,
        upper_values: None,
        after_key: Some("k".to_string()),
        after_cursor: None,
        limit: Some(10),
        shard: None,
        predicate: None,
    };
    assert!(!q.is_range_query());
    q.upper_values = Some("[1]".to_string());
    assert!(q.is_range_query());
    q.upper_values = None;
    q.after_cursor = Some("c".to_string());
    assert!(q.is_range_query());
}

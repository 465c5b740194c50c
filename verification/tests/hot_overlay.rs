use nextdb_server::json::JsonValue;
use nextdb_server::merge::{
    OrderedDbRecord, RecordHotKeyOrderOverlay, merge_ordered_records_matching_with_shadow_keys,
    record_key_set, split_matching_hot_overlay, split_matching_hot_records,
    split_matching_ordered_hot_records,
};
use nextdb_server::records::DbRecord;

fn record(key: &str, lsn: u64) -> DbRecord {
    DbRecord {
        table: "t".to_string(),
        key: key.to_string(),
        path: format!("tables/t/{key}"),
        value: JsonValue::Null,
        lsn,
    }
}

fn ordered(key: &str, cursor: &str, lsn: u64) -> OrderedDbRecord {
    OrderedDbRecord { record: record(key, lsn), cursor: cursor.to_string() }
}

fn keys(records: &[OrderedDbRecord]) -> Vec<String> {
    records.iter().map(|r| r.record.key.clone()).collect()
}

#[test]
fn hot_records_split_into_matches_and_shadow_keys() {
    let hot = vec![record("a", 1), record("b", 2), record("c", 3)];
    assert_eq!(record_key_set(&hot), vec!["a", "b", "c"]);
    let (matching, shadow) = split_matching_hot_records(hot, |r: &DbRecord| r.lsn != 2);
    let matched: Vec<&str> = matching.iter().map(|r| r.key.as_str()).collect();
    assert_eq!(matched, vec!["a", "c"]);
    assert_eq!(shadow, vec!["a", "b", "c"]);

    let overlay = RecordHotKeyOrderOverlay {
        records: vec![record("x", 1), record("y", 5)],
        shadow_keys: vec!["x".to_string(), "y".to_string(), "z".to_string()],
    };
    let (matching, shadow) = split_matching_hot_overlay(overlay, |r: &DbRecord| r.lsn > 1);
    assert_eq!(matching.len(), 1);
    assert_eq!(shadow.len(), 3);

    let only = split_matching_ordered_hot_records(vec![ordered("a", "1", 1), ordered("b", "2", 2)], |r: &DbRecord| r.key == "b");
    assert_eq!(keys(&only), vec!["b"]);
}

#[test]
fn ordered_merge_takes_smaller_cursors_first_and_drops_shadowed_disk_rows() {
    let disk = vec![ordered("a", "1", 1), ordered("b", "3", 1), ordered("c", "5", 1)];
    let hot = vec![ordered("b", "2", 2), ordered("d", "3", 2)];
    let shadow = vec!["b".to_string()];
    let (page, has_more) =
        merge_ordered_records_matching_with_shadow_keys(disk, hot, &shadow, 10, |_: &DbRecord| true);
    assert_eq!(keys(&page), vec!["a", "b", "d", "c"]);
    assert_eq!(page[1].record.lsn, 2);
    assert!(!has_more);

    let disk = vec![ordered("a", "1", 1), ordered("c", "5", 1)];
    let hot = vec![ordered("b", "2", 2), ordered("d", "3", 2)];
    let (page, has_more) =
        merge_ordered_records_matching_with_shadow_keys(disk, hot, &[], 2, |r: &DbRecord| r.key != "a");
    assert_eq!(keys(&page), vec!["b", "d"]);
    assert!(has_more);
}

use nextdb_server::json::JsonValue;
use nextdb_server::merge::OrderedDbRecord;
use nextdb_server::predicate_scans::{
    SCAN_PAGE_SIZE, new_key_order_scan, new_ordered_scan, scan_key_order_page, scan_ordered_page,
};
use nextdb_server::records::DbRecord;

fn rec(key: &str, lsn: u64) -> DbRecord {
    DbRecord {
        table: "rooms".to_string(),
        key: key.to_string(),
        path: format!("tables/rooms/{key}"),
        value: JsonValue::Null,
        lsn,
    }
}

fn keys(records: &[DbRecord]) -> Vec<String> {
    records.iter().map(|r| r.key.clone()).collect()
}

#[test]
fn a_scan_skips_shadowed_records_and_ends_on_a_short_page() {
    let mut scan = new_key_order_scan(None);
    let page = vec![rec("a", 1), rec("b", 2), rec("c", 0), rec("d", 4)];
    let shadow = vec!["b".to_string()];
    scan_key_order_page(&mut scan, page, &shadow, 10, |r: &DbRecord| r.lsn > 0);
    assert_eq!(keys(&scan.matched), vec!["a", "d"]);
    assert_eq!(scan.after_key.as_deref(), Some("d"));
    assert!(scan.done);
}

#[test]
fn a_scan_stops_at_its_target() {
    let mut scan = new_key_order_scan(Some("0".to_string()));
    let page = vec![rec("a", 1), rec("b", 2), rec("c", 3)];
    scan_key_order_page(&mut scan, page, &[], 2, |_r: &DbRecord| true);
    assert_eq!(keys(&scan.matched), vec!["a", "b"]);
    assert_eq!(scan.after_key.as_deref(), Some("b"));
    assert!(scan.done);
    scan_key_order_page(&mut scan, vec![rec("z", 9)], &[], 2, |_r: &DbRecord| true);
    assert_eq!(keys(&scan.matched), vec!["a", "b"]);
    assert_eq!(scan.after_key.as_deref(), Some("b"));
}

#[test]
fn a_full_page_without_matches_goes_on() {
    let mut scan = new_key_order_scan(None);
    let page: Vec<DbRecord> = (0..SCAN_PAGE_SIZE).map(|i| rec(&format!("k{i:04}"), 0)).collect();
    scan_key_order_page(&mut scan, page, &[], 3, |r: &DbRecord| r.lsn > 0);
    assert!(scan.matched.is_empty());
    assert_eq!(scan.after_key.as_deref(), Some("k0499"));
    assert!(!scan.done);
    scan_key_order_page(&mut scan, Vec::new(), &[], 3, |r: &DbRecord| r.lsn > 0);
    assert!(scan.done);
    assert_eq!(scan.after_key.as_deref(), Some("k0499"));
}

#[test]
fn an_ordered_scan_notes_key_and_cursor() {
    let mut scan = new_ordered_scan(None, None);
    let page = vec![
        OrderedDbRecord { record: rec("a", 0), cursor: "c1".to_string() },
        OrderedDbRecord { record: rec("b", 5), cursor: "c2".to_string() },
        OrderedDbRecord { record: rec("c", 0), cursor: "c3".to_string() },
    ];
    scan_ordered_page(&mut scan, page, &[], 5, |r: &DbRecord| r.lsn > 0);
    assert_eq!(scan.matched.len(), 1);
    assert_eq!(scan.matched[0].cursor, "c2");
    assert_eq!(scan.after_key.as_deref(), Some("c"));
    assert_eq!(scan.after_cursor.as_deref(), Some("c3"));
    assert!(scan.done);
}

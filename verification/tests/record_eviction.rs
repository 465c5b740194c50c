use nextdb_server::api_error::{ApiError, ApiErrorKind};
use nextdb_server::runtime::{
    RecordEvictionSource, RuntimeRecordActivationRequest, RuntimeRecordActivationTarget, check_record_eviction,
    record_eviction_source,
};

fn err<T>(r: Result<T, ApiError>) -> ApiError {
    match r {
        Err(e) => e,
        Ok(_) => panic!("expected an error"),
    }
}

fn request(table: &str) -> RuntimeRecordActivationRequest {
    RuntimeRecordActivationRequest {
        table: table.to_string(),
        parent_key: None,
        nested: None,
        key: None,
        keys: Vec::new(),
        index_name: None,
        value: None,
        values: None,
        lower: None,
        upper: None,
        lower_values: None,
        upper_values: None,
        after_key: None,
        after_cursor: None,
        order: None,
        limit: None,
        predicate: None,
    }
}

fn table_target() -> RuntimeRecordActivationTarget {
    RuntimeRecordActivationTarget {
        table: "sessions".to_string(),
        logical_table: "sessions".to_string(),
        parent_key: None,
        nested: None,
        key_prefix: None,
    }
}

fn nested_target() -> RuntimeRecordActivationTarget {
    RuntimeRecordActivationTarget {
        table: "rooms".to_string(),
        logical_table: "rooms.messages".to_string(),
        parent_key: Some("r1".to_string()),
        nested: Some("messages".to_string()),
        key_prefix: Some("r1:".to_string()),
    }
}

#[test]
fn only_an_lru_table_is_evicted_by_hand() {
    let e = err(check_record_eviction(&request("sessions"), &table_target(), false));
    assert_eq!(e.kind, ApiErrorKind::BadRequest);
    assert_eq!(
        e.message,
        "sessions is not an lru table; resident, actorPartition, and chatLog tables are not manually evictable"
    );
    assert!(check_record_eviction(&request("sessions"), &table_target(), true).is_ok());
}

#[test]
fn an_eviction_takes_no_index_query() {
    let mut r = request("sessions");
    r.index_name = Some(" byUser ".to_string());
    let e = err(check_record_eviction(&r, &table_target(), true));
    assert_eq!(
        e.message,
        "record eviction does not support index query options; provide key, keys, or a hot key-order page"
    );
    let mut r = request("sessions");
    r.index_name = Some("   ".to_string());
    assert!(check_record_eviction(&r, &table_target(), true).is_ok());
}

#[test]
fn an_eviction_without_keys_takes_a_hot_page() {
    let mut r = request("rooms");
    r.after_key = Some("m9".to_string());
    match record_eviction_source(&r, &nested_target(), 0) {
        RecordEvictionSource::PrefixPage { prefix, after_key } => {
            assert_eq!(prefix, "r1:");
            assert_eq!(after_key.as_deref(), Some("r1:m9"));
        }
        _ => panic!("expected a prefix page"),
    }
    match record_eviction_source(&r, &table_target(), 0) {
        RecordEvictionSource::TablePage { after_key } => assert_eq!(after_key.as_deref(), Some("m9")),
        _ => panic!("expected a table page"),
    }
    assert!(matches!(record_eviction_source(&r, &table_target(), 2), RecordEvictionSource::Keys));
}

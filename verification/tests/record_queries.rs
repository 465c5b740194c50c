use nextdb_server::api_error::{ApiError, ApiErrorKind};
use nextdb_server::index_query::{QueryRecordsByIndexQuery, RecordReadConsistencyQuery};
use nextdb_server::json::{JsonNumber, JsonValue};
use nextdb_server::predicate_fields::{RecordPredicate, RecordPredicateOp, RecordPredicateTerm};
use nextdb_server::record_queries::{
    IndexLookup, ListRecordsQuery, ParsedIndexParams, RecordListPlan, RecordQueryPlan, next_after_key_of,
    plan_record_index_query, plan_record_list_query,
};
use nextdb_server::records::{DbRecord, SchemaTable};

fn s(v: &str) -> String {
    v.to_string()
}

fn err<T>(r: Result<T, ApiError>) -> ApiError {
    match r {
        Err(e) => e,
        Ok(_) => panic!("expected an error"),
    }
}

fn tables() -> Vec<SchemaTable> {
    vec![SchemaTable { name: s("rooms"), nested: vec![s("messages")] }]
}

fn index_query() -> QueryRecordsByIndexQuery {
    QueryRecordsByIndexQuery {
        consistency: RecordReadConsistencyQuery::default(),
        value: None,
        values: None,
        lower: None,
        upper: None,
        lower_values: None,
        upper_values: None,
        after_key: None,
        after_cursor: None,
        limit: None,
        shard: None,
        predicate: None,
    }
}

fn params(value: Option<JsonValue>) -> ParsedIndexParams {
    ParsedIndexParams { values: None, value, lower_values: None, lower: None, upper_values: None, upper: None }
}

fn num(n: u64) -> JsonValue {
    JsonValue::Number(JsonNumber::PosInt(n))
}

fn indexes() -> Result<Vec<(String, usize)>, String> {
    Ok(vec![(s("byOwner"), 1), (s("byPair"), 2)])
}

fn plan(r: Result<RecordQueryPlan, ApiError>) -> RecordQueryPlan {
    match r {
        Ok(p) => p,
        Err(e) => panic!("unexpected error {}", e.message),
    }
}

fn list_plan(r: Result<RecordListPlan, ApiError>) -> RecordListPlan {
    match r {
        Ok(p) => p,
        Err(e) => panic!("unexpected error {}", e.message),
    }
}

fn exists_term() -> RecordPredicateTerm {
    RecordPredicateTerm { field: s("owner"), op: RecordPredicateOp::Exists, value: None }
}

#[test]
fn an_index_query_on_a_table_reads_exact_values() {
    let p = plan(plan_record_index_query(
        "rooms", &None, &None, "byOwner", &index_query(), params(Some(num(7))), &tables(), indexes(), 4, 50,
    ));
    assert_eq!(p.logical_table, "rooms");
    assert_eq!(p.key_prefix, None);
    assert!(!p.filtered);
    assert_eq!(p.limit, 50);
    match p.lookup {
        Some(IndexLookup::Exact { values }) => assert_eq!(values.len(), 1),
        _ => panic!("expected an exact lookup"),
    }
}

#[test]
fn an_index_query_checks_in_order() {
    let e = err(plan_record_index_query("rooms", &None, &None, "bad/name", &index_query(), params(None), &tables(), indexes(), 4, 50));
    assert_eq!(e.message, "invalid index name");
    let e = err(plan_record_index_query("rooms", &None, &None, "missing", &index_query(), params(None), &tables(), indexes(), 4, 50));
    assert_eq!(e.kind, ApiErrorKind::NotFound);
    assert_eq!(e.message, "index not found");
    let mut q = index_query();
    q.shard = Some(9);
    let e = err(plan_record_index_query("rooms", &None, &None, "byOwner", &q, params(None), &tables(), indexes(), 4, 50));
    assert_eq!(e.message, "shard is out of range");
    let e = err(plan_record_index_query("rooms", &None, &None, "byOwner", &index_query(), params(None), &tables(), indexes(), 4, 50));
    assert_eq!(e.message, "value or values is required");
    let e = err(plan_record_index_query("rooms", &None, &Some(s("messages")), "byOwner", &index_query(), params(None), &tables(), indexes(), 4, 50));
    assert_eq!(e.message, "parentKey is required");
    let e = err(plan_record_index_query("rooms", &Some(s("r1")), &Some(s("messages")), "missing", &index_query(), params(None), &tables(), indexes(), 4, 50));
    assert_eq!(e.message, "nested index not found");
    let e = err(plan_record_index_query("rooms", &None, &None, "byOwner", &index_query(), params(None), &tables(), Err(s("schema has no table rooms")), 4, 50));
    assert_eq!(e.message, "schema has no table rooms");
    let mut q = index_query();
    q.predicate = Some(RecordPredicate { all: (0..33).map(|_| exists_term()).collect() });
    let e = err(plan_record_index_query("rooms", &None, &None, "missing", &q, params(None), &tables(), indexes(), 4, 50));
    assert_eq!(e.message, "record predicate supports at most 32 all terms");
}

#[test]
fn a_nested_range_query_reads_under_its_parent() {
    let mut q = index_query();
    q.after_key = Some(s("m5"));
    q.after_cursor = Some(s("c"));
    q.predicate = Some(RecordPredicate { all: vec![exists_term()] });
    let mut ps = params(None);
    ps.lower = Some(num(1));
    let p = plan(plan_record_index_query("rooms", &Some(s("r1")), &Some(s("messages")), "byOwner", &q, ps, &tables(), indexes(), 4, 20));
    assert_eq!(p.logical_table, "rooms.messages");
    assert_eq!(p.key_prefix.as_deref(), Some("r1:"));
    assert_eq!(p.after_key.as_deref(), Some("r1:m5"));
    assert!(p.filtered);
    match p.lookup {
        Some(IndexLookup::Range { lower, upper }) => {
            assert_eq!(lower.map(|v| v.len()), Some(1));
            assert!(upper.is_none());
        }
        _ => panic!("expected a range lookup"),
    }
    let mut ps = params(None);
    ps.lower = Some(num(1));
    let e = err(plan_record_index_query("rooms", &Some(s("r1")), &Some(s("messages")), "byPair", &q, ps, &tables(), indexes(), 4, 20));
    assert_eq!(e.message, "index range bound requires 2 value(s), got 1");
}

fn list_query() -> ListRecordsQuery {
    ListRecordsQuery {
        consistency: RecordReadConsistencyQuery::default(),
        after_key: Some(s("m5")),
        after_cursor: Some(s("c9")),
        limit: None,
        order: None,
        shard: None,
        predicate: None,
    }
}

#[test]
fn a_nested_list_reads_in_key_or_schema_order() {
    let p = list_plan(plan_record_list_query("rooms", &Some(s("r1")), &Some(s("messages")), &list_query(), &tables(), Ok(()), 4, 10));
    assert_eq!(p.after_key.as_deref(), Some("r1:m5"));
    assert_eq!(p.after_cursor, None);
    assert!(!p.schema_order);
    let mut q = list_query();
    q.order = Some(s("schema"));
    let p = list_plan(plan_record_list_query("rooms", &Some(s("r1")), &Some(s("messages")), &q, &tables(), Ok(()), 4, 10));
    assert!(p.schema_order);
    assert_eq!(p.after_key.as_deref(), Some("m5"));
    assert_eq!(p.after_cursor.as_deref(), Some("c9"));
    q.predicate = Some(RecordPredicate { all: vec![exists_term()] });
    let p = list_plan(plan_record_list_query("rooms", &Some(s("r1")), &Some(s("messages")), &q, &tables(), Ok(()), 4, 10));
    assert_eq!(p.after_key.as_deref(), Some("r1:m5"));
    assert!(p.filtered);
    let e = err(plan_record_list_query("rooms", &Some(s("r1")), &Some(s("messages")), &q, &tables(), Err(s("nested table does not define schema order")), 4, 10));
    assert_eq!(e.message, "nested table does not define schema order");
}

#[test]
fn a_table_list_checks_its_path_and_shard() {
    let e = err(plan_record_list_query("nope", &None, &None, &list_query(), &tables(), Ok(()), 4, 10));
    assert_eq!(e.kind, ApiErrorKind::NotFound);
    let mut q = list_query();
    q.shard = Some(4);
    let e = err(plan_record_list_query("rooms", &None, &None, &q, &tables(), Ok(()), 4, 10));
    assert_eq!(e.message, "shard is out of range");
    q.shard = Some(3);
    let p = list_plan(plan_record_list_query("rooms", &None, &None, &q, &tables(), Ok(()), 4, 10));
    assert!(p.filtered);
    assert_eq!(p.after_key.as_deref(), Some("m5"));
    let e = err(plan_record_list_query("rooms", &None, &Some(s("messages")), &q, &tables(), Ok(()), 4, 10));
    assert_eq!(e.message, "parentKey is required");
}

#[test]
fn a_next_page_starts_after_the_last_key() {
    let rec = |key: &str| DbRecord { table: s("rooms.messages"), key: s(key), path: s("p"), value: JsonValue::Null, lsn: 1 };
    assert_eq!(next_after_key_of(&vec![rec("r1:a"), rec("r1:b")], &Some(s("r1"))), Some(s("b")));
    assert_eq!(next_after_key_of(&vec![rec("r2:a")], &Some(s("r1"))), None);
    assert_eq!(next_after_key_of(&vec![rec("x")], &None), Some(s("x")));
    assert_eq!(next_after_key_of(&Vec::new(), &None), None);
}

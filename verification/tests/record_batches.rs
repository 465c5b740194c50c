use nextdb_server::api_error::{ApiError, ApiErrorKind};
use nextdb_server::json::JsonValue;
use nextdb_server::model::{DbRecordDeleteDraft, DbRecordDraft, DbRecordMutationDraft, Durability};
use nextdb_server::record_batches::{
    RecordTransactionOperationResponse, RecordTransactionResponse, check_record_batch_request,
    check_record_transaction_request, ensure_batch_operations_distinct, plan_record_batch, record_batch_response,
    transaction_operation_responses,
};
use nextdb_server::records::RecordTransactionOperationRequest;
use nextdb_server::util::shard_index;

fn err<T>(r: Result<T, ApiError>) -> ApiError {
    match r {
        Err(e) => e,
        Ok(_) => panic!("expected an error"),
    }
}

fn s(v: &str) -> String {
    v.to_string()
}

fn upsert(table: &str, key: &str) -> RecordTransactionOperationRequest {
    RecordTransactionOperationRequest::Upsert { table: s(table), key: s(key), value: JsonValue::Null, expected_lsn: None }
}

fn key_of(op: &RecordTransactionOperationRequest) -> String {
    match op {
        RecordTransactionOperationRequest::Upsert { key, .. } => key.clone(),
        RecordTransactionOperationRequest::Delete { key, .. } => key.clone(),
        RecordTransactionOperationRequest::NestedUpsert { nested_key, .. } => nested_key.clone(),
        RecordTransactionOperationRequest::NestedDelete { nested_key, .. } => nested_key.clone(),
    }
}

#[test]
fn a_transaction_must_be_durable_and_sized() {
    let e = err(check_record_transaction_request(Durability::Volatile, 3));
    assert_eq!(e.kind, ApiErrorKind::BadRequest);
    assert_eq!(e.message, "record transactions cannot be volatile; use realtime events for lossy data");
    let e = err(check_record_transaction_request(Durability::Strict, 0));
    assert_eq!(e.message, "record transaction requires at least one operation");
    let e = err(check_record_transaction_request(Durability::Strict, 501));
    assert_eq!(e.message, "record transaction supports at most 500 operations");
    assert!(check_record_transaction_request(Durability::Strict, 500).is_ok());
}

#[test]
fn a_batch_must_be_durable_and_sized() {
    let e = err(check_record_batch_request(Durability::Volatile, 3, 5000));
    assert_eq!(e.message, "record batches cannot be volatile; use realtime events for lossy data");
    let e = err(check_record_batch_request(Durability::Strict, 0, 5000));
    assert_eq!(e.message, "record batch requires at least one operation");
    let e = err(check_record_batch_request(Durability::Strict, 5001, 5000));
    assert_eq!(e.message, "record batch supports at most 5000 operations");
    assert!(check_record_batch_request(Durability::Strict, 5000, 5000).is_ok());
}

#[test]
fn a_batch_touching_a_record_twice_is_refused() {
    let ops = vec![upsert("rooms", "a"), upsert("rooms", "b"), upsert("rooms", "a")];
    let e = err(ensure_batch_operations_distinct(&ops));
    assert_eq!(e.kind, ApiErrorKind::BadRequest);
    assert_eq!(e.message, "record batch contains duplicate operation for rooms/a");
    let e = err(plan_record_batch(Durability::Strict, &ops, 4, 5000, None));
    assert_eq!(e.message, "record batch contains duplicate operation for rooms/a");
}

#[test]
fn a_batch_on_one_shard_is_one_transaction_with_its_own_id() {
    let ops = vec![upsert("rooms", "a"), upsert("rooms", "b"), upsert("rooms", "c")];
    let chunks = plan_record_batch(Durability::Strict, &ops, 1, 5000, Some(s("batch-1"))).unwrap();
    assert_eq!(chunks.len(), 1);
    assert_eq!(chunks[0].shard, 0);
    assert_eq!(chunks[0].client_mutation_id, Some(s("batch-1")));
    let keys: Vec<String> = chunks[0].operations.iter().map(key_of).collect();
    assert_eq!(keys, vec![s("a"), s("b"), s("c")]);
}

#[test]
fn a_large_batch_is_cut_into_transactions_of_five_hundred() {
    let ops: Vec<RecordTransactionOperationRequest> = (0..1001).map(|i| upsert("rooms", &format!("k{i}"))).collect();
    let chunks = plan_record_batch(Durability::Strict, &ops, 1, 5000, Some(s("m1"))).unwrap();
    assert_eq!(chunks.len(), 3);
    assert_eq!(chunks[0].operations.len(), 500);
    assert_eq!(chunks[1].operations.len(), 500);
    assert_eq!(chunks[2].operations.len(), 1);
    assert_eq!(chunks[0].client_mutation_id, Some(s("m1:s0p0")));
    assert_eq!(chunks[1].client_mutation_id, Some(s("m1:s0p1")));
    assert_eq!(chunks[2].client_mutation_id, Some(s("m1:s0p2")));
    assert_eq!(key_of(&chunks[1].operations[0]), "k500");
    assert_eq!(key_of(&chunks[2].operations[0]), "k1000");
}

#[test]
fn a_batch_over_shards_is_grouped_in_shard_order() {
    let keys = ["a", "b", "c", "d", "e", "f", "g", "h"];
    let ops: Vec<RecordTransactionOperationRequest> = keys.iter().map(|k| upsert("rooms", k)).collect();
    let chunks = plan_record_batch(Durability::Strict, &ops, 4, 5000, None).unwrap();
    let mut expected: Vec<(usize, Vec<String>)> = Vec::new();
    for shard in 0..4 {
        let group: Vec<String> = keys
            .iter()
            .filter(|k| shard_index(&format!("rooms:{k}"), 4) == shard)
            .map(|k| s(k))
            .collect();
        if !group.is_empty() {
            expected.push((shard, group));
        }
    }
    let got: Vec<(usize, Vec<String>)> =
        chunks.iter().map(|c| (c.shard, c.operations.iter().map(key_of).collect())).collect();
    assert_eq!(got, expected);
    assert!(chunks.iter().all(|c| c.client_mutation_id.is_none()));
    let total: usize = chunks.iter().map(|c| c.operations.len()).sum();
    assert_eq!(total, keys.len());
}

#[test]
fn a_batch_answers_the_highest_lsn_and_every_operation() {
    let deleted = |key: &str, lsn: u64| RecordTransactionOperationResponse::RecordDeleted {
        table: s("rooms"),
        key: s(key),
        deleted_at_ms: 7,
        lsn,
        path: format!("tables/rooms/{key}"),
    };
    let responses = vec![
        RecordTransactionResponse { lsn: 12, operations: vec![deleted("a", 12), deleted("b", 12)] },
        RecordTransactionResponse { lsn: 9, operations: vec![deleted("c", 9)] },
    ];
    let r = record_batch_response(responses);
    assert_eq!(r.lsn, 12);
    assert_eq!(r.transaction_count, 2);
    assert_eq!(r.operations.len(), 3);
    match &r.operations[2] {
        RecordTransactionOperationResponse::RecordDeleted { key, lsn, .. } => {
            assert_eq!(key, "c");
            assert_eq!(*lsn, 9);
        }
        _ => panic!("expected a delete"),
    }
    let empty = record_batch_response(Vec::new());
    assert_eq!(empty.lsn, 0);
    assert_eq!(empty.transaction_count, 0);
}

#[test]
fn committed_operations_answer_at_the_transaction_lsn() {
    let ops = vec![
        DbRecordMutationDraft::Upsert {
            record: DbRecordDraft { table: s("rooms"), key: s("a"), path: s("tables/rooms/a"), value: JsonValue::Bool(true) },
        },
        DbRecordMutationDraft::Delete {
            record: DbRecordDeleteDraft {
                table: s("rooms"),
                key: s("b"),
                deleted_at_ms: 55,
                path: s("tables/rooms/b"),
                client_mutation_id: None,
            },
        },
    ];
    let r = transaction_operation_responses(ops, 42);
    assert_eq!(r.len(), 2);
    match &r[0] {
        RecordTransactionOperationResponse::RecordUpserted { record } => {
            assert_eq!(record.key, "a");
            assert_eq!(record.lsn, 42);
        }
        _ => panic!("expected an upsert"),
    }
    match &r[1] {
        RecordTransactionOperationResponse::RecordDeleted { key, lsn, deleted_at_ms, path, .. } => {
            assert_eq!(key, "b");
            assert_eq!(*lsn, 42);
            assert_eq!(*deleted_at_ms, 55);
            assert_eq!(path, "tables/rooms/b");
        }
        _ => panic!("expected a delete"),
    }
}

use nextdb_server::api_error::ApiError;
use nextdb_server::json::JsonValue;
use nextdb_server::model::{DbRecordMutationDraft, Durability};
use nextdb_server::records::{DbRecord, RecordTransactionOperationRequest, SchemaTable};
use nextdb_server::transaction_plan::{
    OperationFacts, TransactionPlan, finish_transaction_plan, plan_record_transaction_operation,
};

fn tables() -> Vec<SchemaTable> {
    vec![SchemaTable { name: "rooms".to_string(), nested: vec!["messages".to_string()] }]
}

fn s(v: &str) -> String {
    v.to_string()
}

fn facts(shard: usize, current_lsn: Option<u64>) -> OperationFacts {
    OperationFacts {
        value_check: Ok(()),
        schema_check: Ok(()),
        object_refs: Ok(()),
        shard: Ok(shard),
        current: Ok(current_lsn.map(|lsn| DbRecord {
            table: s("rooms"),
            key: s("r1"),
            path: s("tables/rooms/r1"),
            value: JsonValue::Null,
            lsn,
        })),
    }
}

fn upsert(key: &str, expected: Option<u64>) -> RecordTransactionOperationRequest {
    RecordTransactionOperationRequest::Upsert { table: s("rooms"), key: s(key), value: JsonValue::Bool(true), expected_lsn: expected }
}

#[test]
fn a_transaction_plans_its_writes() {
    let t = tables();
    let mut plan = TransactionPlan::new();
    assert!(plan_record_transaction_operation(&mut plan, upsert("r1", Some(4)), facts(2, Some(4)), &t, 100).is_ok());
    let del = RecordTransactionOperationRequest::Delete { table: s("rooms"), key: s("r2"), expected_lsn: None };
    assert!(plan_record_transaction_operation(&mut plan, del, facts(2, Some(9)), &t, 100).is_ok());
    // deleting a record that does not exist plans nothing more
    let gone = RecordTransactionOperationRequest::Delete { table: s("rooms"), key: s("r3"), expected_lsn: None };
    assert!(plan_record_transaction_operation(&mut plan, gone, facts(2, None), &t, 100).is_ok());
    assert_eq!(plan.seen_keys, vec![s("rooms/r1"), s("rooms/r2"), s("rooms/r3")]);
    assert_eq!(plan.deletes, vec![s("tables/rooms/r2")]);
    assert_eq!(plan.delete_identities, vec![s("rooms/r2")]);
    assert_eq!(plan.provisional_upserts.len(), 1);
    assert_eq!(plan.provisional_upserts[0].path, "tables/rooms/r1");
    let prepared = finish_transaction_plan(plan, Durability::Strict);
    assert_eq!(prepared.shard, 2);
    assert_eq!(prepared.operations.len(), 2);
    assert!(matches!(&prepared.operations[1], DbRecordMutationDraft::Delete { record } if record.deleted_at_ms == 100));
}

#[test]
fn a_transaction_refuses_conflicts() {
    let t = tables();
    let mut plan = TransactionPlan::new();
    assert!(plan_record_transaction_operation(&mut plan, upsert("r1", None), facts(1, None), &t, 1).is_ok());
    let e = plan_record_transaction_operation(&mut plan, upsert("r1", None), facts(1, None), &t, 1).unwrap_err();
    assert_eq!(e.message, "record transaction contains duplicate operation for rooms/r1");

    let mut plan = TransactionPlan::new();
    assert!(plan_record_transaction_operation(&mut plan, upsert("r1", None), facts(1, None), &t, 1).is_ok());
    let e = plan_record_transaction_operation(&mut plan, upsert("r2", None), facts(3, None), &t, 1).unwrap_err();
    assert_eq!(e.message, "record transaction operations must target one shard; got shards 1 and 3");

    let mut plan = TransactionPlan::new();
    let e = plan_record_transaction_operation(&mut plan, upsert("r1", Some(2)), facts(1, Some(5)), &t, 1).unwrap_err();
    assert_eq!(e.message, "record version conflict: expected lsn 2, found 5");

    let mut plan = TransactionPlan::new();
    let mut f = facts(1, None);
    f.object_refs = Err(ApiError::bad_request(s("object o1 does not exist")));
    let e = plan_record_transaction_operation(&mut plan, upsert("r1", None), f, &t, 1).unwrap_err();
    assert_eq!(e.message, "object o1 does not exist");

    let mut plan = TransactionPlan::new();
    let bad = RecordTransactionOperationRequest::Delete { table: s("rooms"), key: s("a/b"), expected_lsn: None };
    assert_eq!(plan_record_transaction_operation(&mut plan, bad, facts(1, None), &t, 1).unwrap_err().message, "invalid record key");
}

#[test]
fn nested_operations_share_one_parent() {
    let t = tables();
    let nested = |parent: &str, key: &str| RecordTransactionOperationRequest::NestedUpsert {
        table: s("rooms"),
        parent_key: s(parent),
        nested: s("messages"),
        nested_key: s(key),
        value: JsonValue::Null,
        expected_lsn: None,
    };
    let mut plan = TransactionPlan::new();
    assert!(plan_record_transaction_operation(&mut plan, nested("r1", "m1"), facts(0, None), &t, 1).is_ok());
    assert_eq!(plan.seen_keys, vec![s("rooms.messages/r1:m1")]);
    assert_eq!(plan.provisional_upserts[0].path, "tables/rooms/r1/messages/m1");
    assert!(plan_record_transaction_operation(&mut plan, nested("r1", "m2"), facts(0, None), &t, 1).is_ok());
    let e = plan_record_transaction_operation(&mut plan, nested("r2", "m3"), facts(0, None), &t, 1).unwrap_err();
    assert_eq!(e.message, "nested transaction operations must target one parent partition; got rooms:r1 and rooms:r2");
    let e = plan_record_transaction_operation(&mut plan, upsert("r5", None), facts(0, None), &t, 1).unwrap_err();
    assert_eq!(e.message, "nested transaction operations must not be mixed with top-level partition rooms:r5");
}

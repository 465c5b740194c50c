//! Planning a record transaction: each operation in turn is checked (its
//! path, its document, the partition and shard it touches, the version it
//! expects) and turned into the mutation the log will carry. What only the
//! store or the cluster can tell about an operation (its document's size and
//! schema verdict, its object references, its writable shard, the record it
//! finds) is looked up first and handed in.
use vstd::prelude::*;
use crate::api_error::{ApiError, ApiErrorKind, api_err};
use crate::model::{DbRecordDeleteDraft, DbRecordDraft, DbRecordMutationDraft};
use crate::record_checks::{
    check_view, ensure_expected_record_lsn, nested_record_identity_error, record_identity_error,
    validate_nested_record_identity, validate_record_identity,
};
use crate::record_store::{ensure_safe_record_component, safe_component};
use crate::records::{
    DbRecord, RecordTransactionOperationRequest, SchemaTable, colon, dot, ensure_same_transaction_shard,
    ensure_transaction_key_once, ensure_transaction_partition, nested_record_key, nested_record_path,
    nested_record_path_error, nested_record_table, partition_check, record_identity, slash, string_views,
    table_path_error, validate_nested_record_path, validate_table_path,
};
use crate::text::{chars_of, decimal, push_str_chars, string_from_chars};

verus! {

/// What a transaction has planned so far.
pub struct TransactionPlan {
    /// The identities (`table/key`) of the records it touches.
    pub seen_keys: Vec<String>,
    /// The partitions (`table:key`, or `table:parent` when nested) it touches.
    pub touched_partitions: Vec<String>,
    /// The one parent partition its nested operations share.
    pub nested_partition: Option<String>,
    /// The one shard all its operations go to.
    pub shard_index: Option<usize>,
    pub operations: Vec<DbRecordMutationDraft>,
    /// The records its upserts will write, before they have an LSN (0).
    pub provisional_upserts: Vec<DbRecord>,
    /// The paths and identities of the records it deletes.
    pub deletes: Vec<String>,
    pub delete_identities: Vec<String>,
}

/// A plan as plain values; the partitions as a set.
pub struct PlanView {
    pub seen: Seq<Seq<char>>,
    pub touched: Set<Seq<char>>,
    pub nested: Option<Seq<char>>,
    pub shard: Option<usize>,
    pub operations: Seq<DbRecordMutationDraft>,
    pub upserts: Seq<DbRecord>,
    pub deletes: Seq<Seq<char>>,
    pub delete_identities: Seq<Seq<char>>,
}

impl View for TransactionPlan {
    type V = PlanView;

    open spec fn view(&self) -> PlanView {
        PlanView {
            seen: string_views(self.seen_keys@),
            touched: string_views(self.touched_partitions@).to_set(),
            nested: crate::model::opt_str_view(self.nested_partition),
            shard: self.shard_index,
            operations: self.operations@,
            upserts: self.provisional_upserts@,
            deletes: string_views(self.deletes@),
            delete_identities: string_views(self.delete_identities@),
        }
    }
}

impl TransactionPlan {
    /// A plan with nothing in it yet.
    pub fn new() -> (p: Self)
        ensures
            p@.seen.len() == 0,
            p@.touched.is_empty(),
            p@.nested is None,
            p@.shard is None,
            p@.operations.len() == 0,
            p@.upserts.len() == 0,
            p@.deletes.len() == 0,
            p@.delete_identities.len() == 0,
    {
        let p = TransactionPlan {
            seen_keys: Vec::new(),
            touched_partitions: Vec::new(),
            nested_partition: None,
            shard_index: None,
            operations: Vec::new(),
            provisional_upserts: Vec::new(),
            deletes: Vec::new(),
            delete_identities: Vec::new(),
        };
        assert(string_views(p.touched_partitions@).to_set() =~= Set::<Seq<char>>::empty());
        p
    }
}

/// What was looked up about one operation before it is planned: whether its
/// document fits the size limit, the schema's verdict on it, whether the
/// objects it references exist (these three only for upserts), the writable
/// shard of its partition, and the record stored under its identity now.
pub struct OperationFacts {
    pub value_check: Result<(), ApiError>,
    pub schema_check: Result<(), String>,
    pub object_refs: Result<(), ApiError>,
    pub shard: Result<usize, ApiError>,
    pub current: Result<Option<DbRecord>, ApiError>,
}

/// The error of a check, as plain values.
pub open spec fn err_of(r: Result<(), ApiError>) -> Option<(ApiErrorKind, Seq<char>)> {
    match r {
        Ok(()) => None,
        Err(e) => Some(api_err(e)),
    }
}

/// The version conflict of a write that expected `expected` and finds the
/// LSN `current`.
pub open spec fn lsn_conflict(current: u64, expected: Option<u64>) -> Option<(ApiErrorKind, Seq<char>)> {
    match expected {
        Some(e) => if e != current {
            Some(
                (
                    ApiErrorKind::Conflict,
                    "record version conflict: expected lsn "@ + decimal(e as nat) + ", found "@ + decimal(
                        current as nat,
                    ),
                ),
            )
        } else {
            None
        },
        None => None,
    }
}

/// The LSN of the record found, 0 where there is none.
pub open spec fn found_lsn(c: Option<DbRecord>) -> u64 {
    match c {
        Some(r) => r.lsn,
        None => 0,
    }
}

/// The refusal of a second shard.
pub open spec fn shard_mismatch(before: Option<usize>, shard: usize) -> Option<(ApiErrorKind, Seq<char>)> {
    match before {
        Some(existing) => if existing != shard {
            Some(
                (
                    ApiErrorKind::BadRequest,
                    "record transaction operations must target one shard; got shards "@ + decimal(existing as nat)
                        + " and "@ + decimal(shard as nat),
                ),
            )
        } else {
            None
        },
        None => None,
    }
}

/// `partition_check` over the set of partitions touched.
pub open spec fn partition_check_set(
    touched: Set<Seq<char>>,
    nested: Option<Seq<char>>,
    partition: Seq<char>,
    is_nested: bool,
) -> (Option<Seq<char>>, Option<Seq<char>>) {
    let other = exists|x: Seq<char>| touched.contains(x) && x != partition;
    if is_nested {
        match nested {
            Some(existing) => if existing != partition {
                (
                    nested,
                    Some(
                        "nested transaction operations must target one parent partition; got "@ + existing
                            + " and "@ + partition,
                    ),
                )
            } else if other {
                (nested, Some("nested transaction operations must not be mixed with a different partition than "@ + partition))
            } else {
                (nested, None)
            },
            None => if other {
                (Some(partition), Some("nested transaction operations must not be mixed with a different partition than "@ + partition))
            } else {
                (Some(partition), None)
            },
        }
    } else if nested is Some && nested->Some_0 != partition {
        (nested, Some("nested transaction operations must not be mixed with top-level partition "@ + partition))
    } else {
        (nested, None)
    }
}

proof fn lemma_partition_check_set(touched: Seq<Seq<char>>, nested: Option<Seq<char>>, partition: Seq<char>, is_nested: bool)
    ensures
        partition_check(touched, nested, partition, is_nested) == partition_check_set(
            touched.to_set(),
            nested,
            partition,
            is_nested,
        ),
{
    let a = exists|i: int| 0 <= i < touched.len() && touched[i] != partition;
    let b = exists|x: Seq<char>| touched.to_set().contains(x) && x != partition;
    if a {
        let i = choose|i: int| 0 <= i < touched.len() && touched[i] != partition;
        assert(touched.to_set().contains(touched[i]));
    }
    if b {
        let x = choose|x: Seq<char>| touched.to_set().contains(x) && x != partition;
        assert(touched.contains(x));
        let i = choose|i: int| 0 <= i < touched.len() && touched[i] == x;
        assert(touched[i] != partition);
    }
    assert(a == b);
}

/// The checks every operation ends with, in order: the partition it touches,
/// its identity touched once, its shard (and the one shard of the
/// transaction), and the version it expects. The error, if any.
pub open spec fn tail_error(
    p: PlanView,
    partition: Seq<char>,
    is_nested: bool,
    identity: Seq<char>,
    shard: Result<usize, ApiError>,
    current: Result<Option<DbRecord>, ApiError>,
    expected: Option<u64>,
) -> Option<(ApiErrorKind, Seq<char>)> {
    let pc = partition_check_set(p.touched, p.nested, partition, is_nested);
    if pc.1 is Some {
        Some((ApiErrorKind::BadRequest, pc.1->Some_0))
    } else if p.seen.contains(identity) {
        Some((ApiErrorKind::BadRequest, "record transaction contains duplicate operation for "@ + identity))
    } else if shard is Err {
        Some(api_err(shard->Err_0))
    } else if shard_mismatch(p.shard, shard->Ok_0) is Some {
        shard_mismatch(p.shard, shard->Ok_0)
    } else if current is Err {
        Some(api_err(current->Err_0))
    } else {
        lsn_conflict(found_lsn(current->Ok_0), expected)
    }
}

/// The plan after the tail checks pass: the partition, identity and shard
/// recorded.
pub open spec fn after_tail(p: PlanView, partition: Seq<char>, is_nested: bool, identity: Seq<char>, shard: usize) -> PlanView {
    PlanView {
        seen: p.seen.push(identity),
        touched: p.touched.insert(partition),
        nested: partition_check_set(p.touched, p.nested, partition, is_nested).0,
        shard: Some(shard),
        ..p
    }
}

/// `tables/table/key`.
pub open spec fn top_record_path(table: Seq<char>, key: Seq<char>) -> Seq<char> {
    "tables/"@ + table + seq!['/'] + key
}

/// The nested record path `tables/table/parent/nested/key`.
pub open spec fn nested_path(table: Seq<char>, parent: Seq<char>, nested: Seq<char>, key: Seq<char>) -> Seq<char> {
    "tables/"@ + table + seq!['/'] + parent + seq!['/'] + nested + seq!['/'] + key
}

/// The error of planning an operation, if any, in the order the checks run.
pub open spec fn operation_error(
    p: PlanView,
    op: RecordTransactionOperationRequest,
    f: OperationFacts,
    ts: Seq<SchemaTable>,
) -> Option<(ApiErrorKind, Seq<char>)> {
    match op {
        RecordTransactionOperationRequest::Upsert { table, key, value, expected_lsn } => if err_of(f.value_check) is Some {
            err_of(f.value_check)
        } else if record_identity_error(table@, key@, value@, ts, check_view(f.schema_check)) is Some {
            record_identity_error(table@, key@, value@, ts, check_view(f.schema_check))
        } else if err_of(f.object_refs) is Some {
            err_of(f.object_refs)
        } else {
            tail_error(p, colon(table@, key@), false, slash(table@, key@), f.shard, f.current, expected_lsn)
        },
        RecordTransactionOperationRequest::Delete { table, key, expected_lsn } => if table_path_error(table@, ts) is Some {
            table_path_error(table@, ts)
        } else if !safe_component(key@) {
            Some((ApiErrorKind::BadRequest, "invalid record key"@))
        } else {
            tail_error(p, colon(table@, key@), false, slash(table@, key@), f.shard, f.current, expected_lsn)
        },
        RecordTransactionOperationRequest::NestedUpsert { table, parent_key, nested, nested_key, value, expected_lsn } => if err_of(
            f.value_check,
        ) is Some {
            err_of(f.value_check)
        } else if nested_record_identity_error(
            table@,
            parent_key@,
            nested@,
            nested_key@,
            value@,
            ts,
            check_view(f.schema_check),
        ) is Some {
            nested_record_identity_error(table@, parent_key@, nested@, nested_key@, value@, ts, check_view(f.schema_check))
        } else if err_of(f.object_refs) is Some {
            err_of(f.object_refs)
        } else {
            tail_error(
                p,
                colon(table@, parent_key@),
                true,
                slash(dot(table@, nested@), colon(parent_key@, nested_key@)),
                f.shard,
                f.current,
                expected_lsn,
            )
        },
        RecordTransactionOperationRequest::NestedDelete { table, parent_key, nested, nested_key, expected_lsn } => if nested_record_path_error(
            table@,
            parent_key@,
            nested@,
            nested_key@,
            ts,
        ) is Some {
            nested_record_path_error(table@, parent_key@, nested@, nested_key@, ts)
        } else {
            tail_error(
                p,
                colon(table@, parent_key@),
                true,
                slash(dot(table@, nested@), colon(parent_key@, nested_key@)),
                f.shard,
                f.current,
                expected_lsn,
            )
        },
    }
}

/// The plan after an operation passes its checks: an upsert adds its
/// mutation and provisional record; a delete of a record that exists adds
/// its mutation, path and identity (a delete of a missing record adds
/// nothing more).
pub open spec fn planned(
    p: PlanView,
    op: RecordTransactionOperationRequest,
    f: OperationFacts,
    timestamp_ms: u64,
    out: PlanView,
) -> bool {
    let shard = f.shard->Ok_0;
    match op {
        RecordTransactionOperationRequest::Upsert { table, key, value, .. } => {
            let q = after_tail(p, colon(table@, key@), false, slash(table@, key@), shard);
            &&& out.seen == q.seen && out.touched == q.touched && out.nested == q.nested && out.shard == q.shard
            &&& out.deletes == p.deletes && out.delete_identities == p.delete_identities
            &&& out.operations.len() == p.operations.len() + 1
            &&& out.operations.drop_last() == p.operations
            &&& out.operations.last() matches DbRecordMutationDraft::Upsert { record: d } && d.table@ == table@
                && d.key@ == key@ && d.path@ == top_record_path(table@, key@) && d.value@ == value@
            &&& out.upserts.len() == p.upserts.len() + 1
            &&& out.upserts.drop_last() == p.upserts
            &&& out.upserts.last().table@ == table@ && out.upserts.last().key@ == key@
            &&& out.upserts.last().path@ == top_record_path(table@, key@)
            &&& out.upserts.last().value@ == value@ && out.upserts.last().lsn == 0
        },
        RecordTransactionOperationRequest::NestedUpsert { table, parent_key, nested, nested_key, value, .. } => {
            let q = after_tail(
                p,
                colon(table@, parent_key@),
                true,
                slash(dot(table@, nested@), colon(parent_key@, nested_key@)),
                shard,
            );
            &&& out.seen == q.seen && out.touched == q.touched && out.nested == q.nested && out.shard == q.shard
            &&& out.deletes == p.deletes && out.delete_identities == p.delete_identities
            &&& out.operations.len() == p.operations.len() + 1
            &&& out.operations.drop_last() == p.operations
            &&& out.operations.last() matches DbRecordMutationDraft::Upsert { record: d } && d.table@ == dot(
                table@,
                nested@,
            ) && d.key@ == colon(parent_key@, nested_key@) && d.path@ == nested_path(
                table@,
                parent_key@,
                nested@,
                nested_key@,
            ) && d.value@ == value@
            &&& out.upserts.len() == p.upserts.len() + 1
            &&& out.upserts.drop_last() == p.upserts
            &&& out.upserts.last().table@ == dot(table@, nested@)
            &&& out.upserts.last().key@ == colon(parent_key@, nested_key@)
            &&& out.upserts.last().path@ == nested_path(table@, parent_key@, nested@, nested_key@)
            &&& out.upserts.last().value@ == value@ && out.upserts.last().lsn == 0
        },
        RecordTransactionOperationRequest::Delete { table, key, .. } => {
            let q = after_tail(p, colon(table@, key@), false, slash(table@, key@), shard);
            &&& out.seen == q.seen && out.touched == q.touched && out.nested == q.nested && out.shard == q.shard
            &&& out.upserts == p.upserts
            &&& if found_lsn(f.current->Ok_0) == 0 {
                out.operations == p.operations && out.deletes == p.deletes && out.delete_identities
                    == p.delete_identities
            } else {
                &&& out.deletes == p.deletes.push(top_record_path(table@, key@))
                &&& out.delete_identities == p.delete_identities.push(slash(table@, key@))
                &&& out.operations.len() == p.operations.len() + 1
                &&& out.operations.drop_last() == p.operations
                &&& out.operations.last() matches DbRecordMutationDraft::Delete { record: d } && d.table@ == table@
                    && d.key@ == key@ && d.path@ == top_record_path(table@, key@) && d.deleted_at_ms == timestamp_ms
                    && d.client_mutation_id is None
            }
        },
        RecordTransactionOperationRequest::NestedDelete { table, parent_key, nested, nested_key, .. } => {
            let q = after_tail(
                p,
                colon(table@, parent_key@),
                true,
                slash(dot(table@, nested@), colon(parent_key@, nested_key@)),
                shard,
            );
            &&& out.seen == q.seen && out.touched == q.touched && out.nested == q.nested && out.shard == q.shard
            &&& out.upserts == p.upserts
            &&& if found_lsn(f.current->Ok_0) == 0 {
                out.operations == p.operations && out.deletes == p.deletes && out.delete_identities
                    == p.delete_identities
            } else {
                &&& out.deletes == p.deletes.push(nested_path(table@, parent_key@, nested@, nested_key@))
                &&& out.delete_identities == p.delete_identities.push(
                    slash(dot(table@, nested@), colon(parent_key@, nested_key@)),
                )
                &&& out.operations.len() == p.operations.len() + 1
                &&& out.operations.drop_last() == p.operations
                &&& out.operations.last() matches DbRecordMutationDraft::Delete { record: d } && d.table@ == dot(
                    table@,
                    nested@,
                ) && d.key@ == colon(parent_key@, nested_key@) && d.path@ == nested_path(
                    table@,
                    parent_key@,
                    nested@,
                    nested_key@,
                ) && d.deleted_at_ms == timestamp_ms && d.client_mutation_id is None
            }
        },
    }
}

fn plan_tail(
    plan: &mut TransactionPlan,
    partition: &str,
    is_nested: bool,
    identity_table: &str,
    identity_key: &str,
    shard: Result<usize, ApiError>,
    current: Result<Option<DbRecord>, ApiError>,
    expected: Option<u64>,
) -> (r: Result<u64, ApiError>)
    ensures
        match tail_error(old(plan)@, partition@, is_nested, slash(identity_table@, identity_key@), shard, current, expected) {
            Some(e) => r matches Err(x) && api_err(x) == e,
            None => r == Ok::<u64, ApiError>(found_lsn(current->Ok_0)) && final(plan)@ == after_tail(
                old(plan)@,
                partition@,
                is_nested,
                slash(identity_table@, identity_key@),
                shard->Ok_0,
            ),
        },
{
    let ghost before = plan@;
    proof {
        lemma_partition_check_set(string_views(plan.touched_partitions@), before.nested, partition@, is_nested);
    }
    let pc = ensure_transaction_partition(&mut plan.touched_partitions, &mut plan.nested_partition, partition, is_nested);
    if let Err(e) = pc {
        return Err(e);
    }
    let kc = ensure_transaction_key_once(&mut plan.seen_keys, identity_table, identity_key);
    if let Err(e) = kc {
        return Err(e);
    }
    let s = match shard {
        Ok(s) => s,
        Err(e) => {
            return Err(e);
        },
    };
    let sc = ensure_same_transaction_shard(&mut plan.shard_index, s);
    if let Err(e) = sc {
        return Err(e);
    }
    let c = match current {
        Ok(c) => c,
        Err(e) => {
            return Err(e);
        },
    };
    let lsn = ensure_expected_record_lsn(c.as_ref(), expected);
    proof {
        assert(plan@.touched =~= before.touched.insert(partition@));
        assert(plan@ =~= after_tail(before, partition@, is_nested, slash(identity_table@, identity_key@), s));
    }
    lsn
}

fn top_path(table: &str, key: &str) -> (s: String)
    ensures
        s@ == top_record_path(table@, key@),
{
    let mut v = chars_of("tables/");
    push_str_chars(&mut v, table);
    v.push('/');
    push_str_chars(&mut v, key);
    string_from_chars(v.as_slice())
}

/// Plans one operation of a transaction, with what was looked up about it
/// (`facts`), at `timestamp_ms`: checks it (see `operation_error`) and, where
/// it passes, adds what it writes (see `planned`).
pub fn plan_record_transaction_operation(
    plan: &mut TransactionPlan,
    op: RecordTransactionOperationRequest,
    facts: OperationFacts,
    tables: &Vec<SchemaTable>,
    timestamp_ms: u64,
) -> (r: Result<(), ApiError>)
    ensures
        match operation_error(old(plan)@, op, facts, tables@) {
            Some(e) => r matches Err(x) && api_err(x) == e,
            None => r is Ok && planned(old(plan)@, op, facts, timestamp_ms, final(plan)@),
        },
{
    let ghost before = plan@;
    let OperationFacts { value_check, schema_check, object_refs, shard, current } = facts;
    match op {
        RecordTransactionOperationRequest::Upsert { table, key, value, expected_lsn } => {
            if let Err(e) = value_check {
                return Err(e);
            }
            let id = validate_record_identity(table.as_str(), key.as_str(), &value, tables, schema_check);
            if let Err(e) = id {
                return Err(e);
            }
            if let Err(e) = object_refs {
                return Err(e);
            }
            let partition = nested_record_key(table.as_str(), key.as_str());
            let t = plan_tail(plan, partition.as_str(), false, table.as_str(), key.as_str(), shard, current, expected_lsn);
            if let Err(e) = t {
                return Err(e);
            }
            let path = top_path(table.as_str(), key.as_str());
            let record = DbRecord {
                table: table.clone(),
                key: key.clone(),
                path: path.clone(),
                value: crate::json::json_copy(&value),
                lsn: 0,
            };
            plan.provisional_upserts.push(record);
            plan.operations.push(DbRecordMutationDraft::Upsert { record: DbRecordDraft { table, key, path, value } });
            proof {
                assert(plan@.operations.drop_last() =~= before.operations);
                assert(plan@.upserts.drop_last() =~= before.upserts);
            }
            Ok(())
        },
        RecordTransactionOperationRequest::Delete { table, key, expected_lsn } => {
            let checked = validate_table_path(table.as_str(), tables);
            if let Err(e) = checked {
                return Err(e);
            }
            if !ensure_safe_record_component(key.as_str()) {
                return Err(ApiError::bad_request(crate::text::owned("invalid record key")));
            }
            let partition = nested_record_key(table.as_str(), key.as_str());
            let t = plan_tail(plan, partition.as_str(), false, table.as_str(), key.as_str(), shard, current, expected_lsn);
            let lsn = match t {
                Ok(l) => l,
                Err(e) => {
                    return Err(e);
                },
            };
            if lsn == 0 {
                return Ok(());
            }
            let path = top_path(table.as_str(), key.as_str());
            let identity = record_identity(table.as_str(), key.as_str());
            let ghost d0 = plan.deletes@;
            let ghost i0 = plan.delete_identities@;
            plan.deletes.push(path.clone());
            plan.delete_identities.push(identity);
            plan.operations.push(
                DbRecordMutationDraft::Delete {
                    record: DbRecordDeleteDraft { table, key, deleted_at_ms: timestamp_ms, path, client_mutation_id: None },
                },
            );
            proof {
                assert(string_views(plan.deletes@) =~= string_views(d0).push(top_record_path(table@, key@)));
                assert(string_views(plan.delete_identities@) =~= string_views(i0).push(slash(table@, key@)));
                assert(plan@.operations.drop_last() =~= before.operations);
            }
            Ok(())
        },
        RecordTransactionOperationRequest::NestedUpsert { table, parent_key, nested, nested_key, value, expected_lsn } => {
            if let Err(e) = value_check {
                return Err(e);
            }
            let id = validate_nested_record_identity(
                table.as_str(),
                parent_key.as_str(),
                nested.as_str(),
                nested_key.as_str(),
                &value,
                tables,
                schema_check,
            );
            if let Err(e) = id {
                return Err(e);
            }
            if let Err(e) = object_refs {
                return Err(e);
            }
            let logical_table = nested_record_table(table.as_str(), nested.as_str());
            let logical_key = nested_record_key(parent_key.as_str(), nested_key.as_str());
            let partition = nested_record_key(table.as_str(), parent_key.as_str());
            let t = plan_tail(
                plan,
                partition.as_str(),
                true,
                logical_table.as_str(),
                logical_key.as_str(),
                shard,
                current,
                expected_lsn,
            );
            if let Err(e) = t {
                return Err(e);
            }
            let path = nested_record_path(table.as_str(), parent_key.as_str(), nested.as_str(), nested_key.as_str());
            let record = DbRecord {
                table: logical_table.clone(),
                key: logical_key.clone(),
                path: path.clone(),
                value: crate::json::json_copy(&value),
                lsn: 0,
            };
            plan.provisional_upserts.push(record);
            plan.operations.push(
                DbRecordMutationDraft::Upsert {
                    record: DbRecordDraft { table: logical_table, key: logical_key, path, value },
                },
            );
            proof {
                assert(plan@.operations.drop_last() =~= before.operations);
                assert(plan@.upserts.drop_last() =~= before.upserts);
            }
            Ok(())
        },
        RecordTransactionOperationRequest::NestedDelete { table, parent_key, nested, nested_key, expected_lsn } => {
            let checked = validate_nested_record_path(
                table.as_str(),
                parent_key.as_str(),
                nested.as_str(),
                nested_key.as_str(),
                tables,
            );
            if let Err(e) = checked {
                return Err(e);
            }
            let logical_table = nested_record_table(table.as_str(), nested.as_str());
            let logical_key = nested_record_key(parent_key.as_str(), nested_key.as_str());
            let partition = nested_record_key(table.as_str(), parent_key.as_str());
            let t = plan_tail(
                plan,
                partition.as_str(),
                true,
                logical_table.as_str(),
                logical_key.as_str(),
                shard,
                current,
                expected_lsn,
            );
            let lsn = match t {
                Ok(l) => l,
                Err(e) => {
                    return Err(e);
                },
            };
            if lsn == 0 {
                return Ok(());
            }
            let path = nested_record_path(table.as_str(), parent_key.as_str(), nested.as_str(), nested_key.as_str());
            let identity = record_identity(logical_table.as_str(), logical_key.as_str());
            let ghost d0 = plan.deletes@;
            let ghost i0 = plan.delete_identities@;
            plan.deletes.push(path.clone());
            plan.delete_identities.push(identity);
            plan.operations.push(
                DbRecordMutationDraft::Delete {
                    record: DbRecordDeleteDraft {
                        table: logical_table,
                        key: logical_key,
                        deleted_at_ms: timestamp_ms,
                        path,
                        client_mutation_id: None,
                    },
                },
            );
            proof {
                assert(string_views(plan.deletes@) =~= string_views(d0).push(
                    nested_path(table@, parent_key@, nested@, nested_key@),
                ));
                assert(string_views(plan.delete_identities@) =~= string_views(i0).push(
                    slash(dot(table@, nested@), colon(parent_key@, nested_key@)),
                ));
                assert(plan@.operations.drop_last() =~= before.operations);
            }
            Ok(())
        },
    }
}

/// A planned transaction, ready for the log.
pub struct PreparedRecordTransaction {
    pub shard: usize,
    pub durability: crate::model::Durability,
    pub operations: Vec<DbRecordMutationDraft>,
}

/// The transaction a plan makes: on its one shard (shard 0 where it touched
/// none), with its mutations.
pub fn finish_transaction_plan(plan: TransactionPlan, durability: crate::model::Durability) -> (t: PreparedRecordTransaction)
    ensures
        t.shard == match plan@.shard {
            Some(s) => s,
            None => 0,
        },
        t.durability == durability,
        t.operations@ == plan@.operations,
{
    PreparedRecordTransaction {
        shard: match plan.shard_index {
            Some(s) => s,
            None => 0,
        },
        durability,
        operations: plan.operations,
    }
}

/// Planning keeps a transaction's promises as it grows: no record is
/// touched twice, the shard once chosen stays, and once a nested operation
/// fixed the parent partition, it stays fixed.
pub proof fn planning_keeps_one_shard_and_distinct_records(
    p: PlanView,
    op: RecordTransactionOperationRequest,
    f: OperationFacts,
    ts: Seq<SchemaTable>,
    timestamp_ms: u64,
    out: PlanView,
)
    requires
        p.seen.no_duplicates(),
        operation_error(p, op, f, ts) is None,
        planned(p, op, f, timestamp_ms, out),
    ensures
        out.seen.no_duplicates(),
        out.seen.len() == p.seen.len() + 1,
        p.shard is Some ==> out.shard == p.shard,
        p.nested is Some ==> out.nested == p.nested,
{
    let id = match op {
        RecordTransactionOperationRequest::Upsert { table, key, .. } => slash(table@, key@),
        RecordTransactionOperationRequest::Delete { table, key, .. } => slash(table@, key@),
        RecordTransactionOperationRequest::NestedUpsert { table, parent_key, nested, nested_key, .. } => slash(
            dot(table@, nested@),
            colon(parent_key@, nested_key@),
        ),
        RecordTransactionOperationRequest::NestedDelete { table, parent_key, nested, nested_key, .. } => slash(
            dot(table@, nested@),
            colon(parent_key@, nested_key@),
        ),
    };
    assert(!p.seen.contains(id));
    assert(out.seen == p.seen.push(id));
    assert forall|i: int, j: int| 0 <= i < j < out.seen.len() implies out.seen[i] != out.seen[j] by {
        if j == p.seen.len() {
            assert(out.seen[j] == id);
            assert(out.seen[i] == p.seen[i]);
        } else {
            assert(out.seen[i] == p.seen[i] && out.seen[j] == p.seen[j]);
        }
    }
}

} // verus!

//! Decisions a write makes while it is committed: replaying a client
//! mutation id that was already used, what a delete does with the record it
//! finds, and whether a written record collides with another on a unique
//! index.
use vstd::prelude::*;
use crate::api_error::{ApiError, ApiErrorKind};
use crate::json::{JsonValue, JsonView, json_copy, json_eq};
use crate::model::{Durability, UserProfile};
use crate::record_batches::RecordTransactionResponse;
use crate::records::{DbRecord, list_contains, record_identity, slash, string_views, volatile_record_path, is_volatile_record_path, volatile_prefix};
use crate::record_checks::ensure_expected_record_lsn;
use crate::text::{cat3, cat4, decimal, owned, starts_with, str_eq};

verus! {

/// What a delete of one record answers.
pub struct DeleteRecordResponse {
    pub table: String,
    pub key: String,
    pub deleted: bool,
    pub lsn: u64,
    pub deleted_at_ms: Option<u64>,
    pub path: String,
}

/// A mutation already committed under a client mutation id, with what it
/// answered.
#[allow(inconsistent_fields)]
pub enum CommittedMutation {
    RecordUpserted { record: DbRecord },
    RecordDeleted { response: DeleteRecordResponse },
    RecordTransactionCommitted { response: RecordTransactionResponse },
    UserUpserted { user: UserProfile },
}

/// The kind of a committed mutation.
#[derive(PartialEq, Eq, Structural, Clone, Copy, Debug)]
pub enum MutationKind {
    RecordUpserted,
    RecordDeleted,
    RecordTransactionCommitted,
    UserUpserted,
}

pub open spec fn mutation_kind(m: CommittedMutation) -> MutationKind {
    match m {
        CommittedMutation::RecordUpserted { .. } => MutationKind::RecordUpserted,
        CommittedMutation::RecordDeleted { .. } => MutationKind::RecordDeleted,
        CommittedMutation::RecordTransactionCommitted { .. } => MutationKind::RecordTransactionCommitted,
        CommittedMutation::UserUpserted { .. } => MutationKind::UserUpserted,
    }
}

/// What a write does with the mutation found under its client mutation id
/// (`existing`, where one was found): a volatile write keeps no ids and
/// replays nothing; a mutation of the write's own kind is answered again as
/// it was (`Ok(Some(..))`); one of another kind is a conflict; with none the
/// write goes ahead (`Ok(None)`).
pub fn replay_committed_mutation(durability: Durability, existing: Option<CommittedMutation>, kind: MutationKind) -> (r: Result<
    Option<CommittedMutation>,
    ApiError,
>)
    ensures
        durability == Durability::Volatile ==> r matches Ok(None),
        durability != Durability::Volatile ==> match existing {
            None => r matches Ok(None),
            Some(m) => if mutation_kind(m) == kind {
                r == Ok::<Option<CommittedMutation>, ApiError>(Some(m))
            } else {
                r matches Err(e) && e.kind == ApiErrorKind::Conflict && e.message@
                    == "clientMutationId was already used for a different mutation kind"@
            },
        },
{
    if durability == Durability::Volatile {
        return Ok(None);
    }
    match existing {
        None => Ok(None),
        Some(m) => {
            let found = match &m {
                CommittedMutation::RecordUpserted { .. } => MutationKind::RecordUpserted,
                CommittedMutation::RecordDeleted { .. } => MutationKind::RecordDeleted,
                CommittedMutation::RecordTransactionCommitted { .. } => MutationKind::RecordTransactionCommitted,
                CommittedMutation::UserUpserted { .. } => MutationKind::UserUpserted,
            };
            if found == kind {
                Ok(Some(m))
            } else {
                Err(ApiError::conflict(owned("clientMutationId was already used for a different mutation kind")))
            }
        },
    }
}


/// The path a volatile record is kept under: the path itself where it lies
/// under `volatile/`, else the path under `volatile/`.
pub open spec fn volatile_path_of(path: Seq<char>) -> Seq<char> {
    if starts_with(path, volatile_prefix()) {
        path
    } else {
        volatile_prefix() + path
    }
}

/// What a volatile delete does.
pub enum VolatileDelete {
    /// Nothing is deleted; the delete answers this.
    Answer(DeleteRecordResponse),
    /// The volatile record held in memory (`previous`) goes; the delete
    /// answers the volatile `path`.
    Delete { path: String, previous: DbRecord },
}

/// What a volatile delete of `table`/`key` at `path` does with the record
/// held in memory (`held`): with none, nothing is deleted and it answers the
/// volatile path at LSN 0; a durable record held there stays, and the delete
/// answers its LSN and path; a volatile one is deleted.
pub fn plan_volatile_record_delete(table: String, key: String, path: &str, held: Option<DbRecord>) -> (r: VolatileDelete)
    ensures
        match held {
            None => r matches VolatileDelete::Answer(a) && a.table == table && a.key == key && !a.deleted && a.lsn == 0
                && a.deleted_at_ms is None && a.path@ == volatile_path_of(path@),
            Some(cur) => if starts_with(cur.path@, volatile_prefix()) {
                r matches VolatileDelete::Delete { path: p, previous } && p@ == volatile_path_of(path@) && previous == cur
            } else {
                r matches VolatileDelete::Answer(a) && a.table == table && a.key == key && !a.deleted && a.lsn == cur.lsn
                    && a.deleted_at_ms is None && a.path == cur.path
            },
        },
{
    match held {
        None => VolatileDelete::Answer(
            DeleteRecordResponse {
                table,
                key,
                deleted: false,
                lsn: 0,
                deleted_at_ms: None,
                path: volatile_record_path(path),
            },
        ),
        Some(cur) => {
            if !is_volatile_record_path(cur.path.as_str()) {
                let lsn = cur.lsn;
                VolatileDelete::Answer(
                    DeleteRecordResponse { table, key, deleted: false, lsn, deleted_at_ms: None, path: cur.path },
                )
            } else {
                VolatileDelete::Delete { path: volatile_record_path(path), previous: cur }
            }
        },
    }
}

/// What a durable delete does.
pub enum DurableDelete {
    /// Nothing is deleted; the delete answers this.
    Answer(DeleteRecordResponse),
    /// Nothing is deleted, but the client mutation id is written to the log
    /// so that a retry is answered the same.
    RecordNoop,
    /// The stored record (`previous`) is deleted.
    Delete { previous: DbRecord },
}

/// What a durable delete of `table`/`key` at `path` does with the stored
/// record (`current`): a version other than the expected one is a conflict;
/// with no record, nothing is deleted (and a client mutation id, where the
/// delete has one, is recorded); else the record is deleted.
pub fn plan_durable_record_delete(
    table: String,
    key: String,
    path: String,
    current: Option<DbRecord>,
    expected_lsn: Option<u64>,
    has_client_mutation_id: bool,
) -> (r: Result<DurableDelete, ApiError>)
    ensures
        ({
            let current_lsn: u64 = match current {
                Some(c) => c.lsn,
                None => 0,
            };
            match expected_lsn {
                Some(e) if e != current_lsn => r matches Err(err) && err.kind == ApiErrorKind::Conflict
                    && err.message@ == "record version conflict: expected lsn "@ + decimal(e as nat) + ", found "@
                    + decimal(current_lsn as nat),
                _ => match current {
                    None => if has_client_mutation_id {
                        r matches Ok(DurableDelete::RecordNoop)
                    } else {
                        r matches Ok(DurableDelete::Answer(a)) && a.table == table && a.key == key && !a.deleted
                            && a.lsn == 0 && a.deleted_at_ms is None && a.path == path
                    },
                    Some(c) => r matches Ok(DurableDelete::Delete { previous }) && previous == c,
                },
            }
        }),
{
    let checked = match &current {
        Some(c) => ensure_expected_record_lsn(Some(c), expected_lsn),
        None => ensure_expected_record_lsn(None, expected_lsn),
    };
    if let Err(e) = checked {
        return Err(e);
    }
    match current {
        None => if has_client_mutation_id {
            Ok(DurableDelete::RecordNoop)
        } else {
            Ok(DurableDelete::Answer(DeleteRecordResponse { table, key, deleted: false, lsn: 0, deleted_at_ms: None, path }))
        },
        Some(c) => Ok(DurableDelete::Delete { previous: c }),
    }
}


/// The values of a list of JSON values.
pub open spec fn json_views(vs: Seq<JsonValue>) -> Seq<JsonView> {
    vs.map_values(|v: JsonValue| v@)
}

/// Whether two lists of JSON values are equal.
pub fn json_list_eq(a: &Vec<JsonValue>, b: &Vec<JsonValue>) -> (r: bool)
    ensures
        r == (json_views(a@) == json_views(b@)),
{
    if a.len() != b.len() {
        proof {
            if json_views(a@) == json_views(b@) {
                assert(json_views(a@).len() == json_views(b@).len());
            }
        }
        return false;
    }
    let mut i: usize = 0;
    while i < a.len()
        invariant
            i <= a@.len(),
            a@.len() == b@.len(),
            forall|k: int| 0 <= k < i ==> a@[k]@ == b@[k]@,
        decreases a@.len() - i,
    {
        if !json_eq(&a[i], &b[i]) {
            proof {
                if json_views(a@) == json_views(b@) {
                    assert(json_views(a@)[i as int] == json_views(b@)[i as int]);
                }
            }
            return false;
        }
        i = i + 1;
    }
    assert(json_views(a@) =~= json_views(b@));
    true
}

/// Whether a record found on a unique index (`existing`) collides with the
/// record being written (`candidate`, whose values on the index are
/// `values`): it does where it is another record, neither deleted nor
/// rewritten by the same write, whose values on the index (`existing_values`,
/// as the schema computes them) are the same. The schema's refusal of the
/// existing record is a bad request.
pub fn record_conflicts_with_unique_candidate(
    candidate: &DbRecord,
    values: &Vec<JsonValue>,
    existing: &DbRecord,
    existing_values: Result<Vec<JsonValue>, String>,
    deletes: &Vec<String>,
    delete_identities: &Vec<String>,
    upsert_paths: &Vec<String>,
) -> (r: Result<bool, ApiError>)
    ensures
        if existing.key@ == candidate.key@ || string_views(deletes@).contains(existing.path@) || string_views(
            delete_identities@,
        ).contains(slash(existing.table@, existing.key@)) || string_views(upsert_paths@).contains(existing.path@) {
            r == Ok::<bool, ApiError>(false)
        } else {
            match existing_values {
                Err(m) => r matches Err(e) && e.kind == ApiErrorKind::BadRequest && e.message@ == m@,
                Ok(v) => r == Ok::<bool, ApiError>(json_views(v@) == json_views(values@)),
            }
        },
{
    if str_eq(existing.key.as_str(), candidate.key.as_str()) || list_contains(deletes, existing.path.as_str())
        || list_contains(delete_identities, record_identity(existing.table.as_str(), existing.key.as_str()).as_str())
        || list_contains(upsert_paths, existing.path.as_str()) {
        return Ok(false);
    }
    match existing_values {
        Err(m) => Err(ApiError::bad_request(m)),
        Ok(v) => Ok(json_list_eq(&v, values)),
    }
}

/// One unique index value of a write: the table, the index, the values on
/// it, and the key of the record that holds them.
pub struct UniqueValue {
    pub table: String,
    pub index_name: String,
    pub values: Vec<JsonValue>,
    pub key: String,
}

/// The identity of a unique index value, and the key that holds it.
pub open spec fn unique_view(u: UniqueValue) -> ((Seq<char>, Seq<char>, Seq<JsonView>), Seq<char>) {
    ((u.table@, u.index_name@, json_views(u.values@)), u.key@)
}

pub open spec fn unique_views(us: Seq<UniqueValue>) -> Seq<((Seq<char>, Seq<char>, Seq<JsonView>), Seq<char>)> {
    us.map_values(|u: UniqueValue| unique_view(u))
}

/// The key recorded for a unique index value, the latest where several are.
pub open spec fn recorded_key(
    seen: Seq<((Seq<char>, Seq<char>, Seq<JsonView>), Seq<char>)>,
    id: (Seq<char>, Seq<char>, Seq<JsonView>),
) -> Option<Seq<char>>
    decreases seen.len(),
{
    if seen.len() == 0 {
        None
    } else if seen.last().0 == id {
        Some(seen.last().1)
    } else {
        recorded_key(seen.drop_last(), id)
    }
}

/// Records that the record `key` of `table` holds `values` on the unique
/// index `index_name`, among the values a write has recorded so far
/// (`seen`); two records of one write that hold the same values are a
/// conflict.
pub fn note_unique_value(
    seen: &mut Vec<UniqueValue>,
    table: &str,
    index_name: &str,
    values: &Vec<JsonValue>,
    key: &str,
) -> (r: Result<(), ApiError>)
    ensures
        ({
            let id = (table@, index_name@, json_views(values@));
            match recorded_key(unique_views(old(seen)@), id) {
                Some(k) => if k != key@ {
                    &&& r matches Err(e) && e.kind == ApiErrorKind::Conflict && e.message@
                        == "unique index violation on "@ + table@ + "."@ + index_name@
                    &&& unique_views(final(seen)@) == unique_views(old(seen)@)
                } else {
                    &&& r is Ok
                    &&& unique_views(final(seen)@) == unique_views(old(seen)@)
                },
                None => {
                    &&& r is Ok
                    &&& unique_views(final(seen)@) == unique_views(old(seen)@).push((id, key@))
                },
            }
        }),
{
    let ghost id = (table@, index_name@, json_views(values@));
    let ghost sv = unique_views(seen@);
    let mut j: usize = seen.len();
    assert(sv.take(j as int) =~= sv);
    while j > 0
        invariant
            j <= seen@.len(),
            sv == unique_views(seen@),
            id == (table@, index_name@, json_views(values@)),
            recorded_key(sv, id) == recorded_key(sv.take(j as int), id),
        decreases j,
    {
        let u = &seen[j - 1];
        proof {
            assert(sv.take(j as int).last() == unique_view(seen@[j - 1]));
            assert(sv.take(j as int).drop_last() =~= sv.take(j - 1));
        }
        let same_table = str_eq(u.table.as_str(), table);
        let same_index = str_eq(u.index_name.as_str(), index_name);
        let same_values = json_list_eq(&u.values, values);
        if same_table && same_index && same_values {
            assert(sv.take(j as int).last().0 == id);
            if str_eq(u.key.as_str(), key) {
                return Ok(());
            }
            return Err(ApiError::conflict(cat4("unique index violation on ", table, ".", index_name)));
        }
        assert(sv.take(j as int).last().0 != id);
        j = j - 1;
    }
    let entry = UniqueValue { table: owned(table), index_name: owned(index_name), values: json_list_copy(values), key: owned(key) };
    seen.push(entry);
    assert(unique_views(seen@) =~= sv.push((id, key@)));
    Ok(())
}

/// A copy of a list of JSON values.
fn json_list_copy(vs: &Vec<JsonValue>) -> (r: Vec<JsonValue>)
    ensures
        json_views(r@) == json_views(vs@),
{
    let mut r: Vec<JsonValue> = Vec::new();
    let mut i: usize = 0;
    while i < vs.len()
        invariant
            i <= vs@.len(),
            json_views(r@) == json_views(vs@).take(i as int),
        decreases vs@.len() - i,
    {
        let c = json_copy(&vs[i]);
        let ghost before = r@;
        r.push(c);
        proof {
            assert(json_views(vs@)[i as int] == vs@[i as int]@);
            assert(json_views(r@) =~= json_views(before).push(c@));
            assert(json_views(r@) =~= json_views(vs@).take(i as int + 1));
        }
        i = i + 1;
    }
    assert(json_views(vs@).take(vs@.len() as int) =~= json_views(vs@));
    r
}

/// The conflict of a record that another record holds the same values
/// of a unique index against.
pub fn unique_index_violation(table: &str, index_name: &str, key: &str) -> (e: ApiError)
    ensures
        e.kind == ApiErrorKind::Conflict,
        e.message@ == "unique index violation on "@ + table@ + "."@ + index_name@ + " for record "@ + key@,
{
    let head = cat4("unique index violation on ", table, ".", index_name);
    ApiError::conflict(cat3(head.as_str(), " for record ", key))
}


/// The record a unique index check holds against, for a record found on
/// the index (`existing`): the record held in memory where there is one
/// (`hot` is `Some(Some(..))`), none where memory holds a delete that is
/// durable, else the one found.
pub fn record_current_for_unique_validation(existing: DbRecord, hot: Option<Option<DbRecord>>, durable_delete: bool) -> (r: Option<DbRecord>)
    ensures
        match hot {
            Some(Some(h)) => r == Some(h),
            Some(None) => if durable_delete {
                r is None
            } else {
                r == Some(existing)
            },
            None => r == Some(existing),
        },
{
    match hot {
        Some(Some(h)) => Some(h),
        Some(None) => if durable_delete {
            None
        } else {
            Some(existing)
        },
        None => Some(existing),
    }
}

} // verus!

//! Log entries a replica receives from a shard's owner: the checks each
//! entry must pass, and which of them it takes (those it does not have yet,
//! one per LSN, in LSN order).
use vstd::prelude::*;
use crate::api_error::{ApiError, ApiErrorKind};
use crate::failover::decimal_string;
use crate::model::{Durability, WalPayload, WalRecord};
use crate::text::{cat2, cat4, cat5, decimal, owned, str_eq};

verus! {

/// How an entry's checksum compares with its contents.
pub enum WalChecksumStatus {
    Valid,
    Missing,
    Mismatch { expected: String },
}

/// Why an entry does not belong to this shard as this node knows it: another
/// shard, another epoch, or another owner (an entry that names no owner
/// passes that check).
pub open spec fn fence_error(shard: usize, r: WalRecord, expected_epoch: u64, expected_owner: Seq<char>) -> Option<
    Seq<char>,
> {
    if r.shard != shard {
        Some(
            "replicated WAL record shard "@ + decimal(r.shard as nat) + " does not match request shard "@ + decimal(
                shard as nat,
            ),
        )
    } else if r.shard_epoch != expected_epoch {
        Some(
            "replicated WAL record epoch "@ + decimal(r.shard_epoch as nat) + " does not match local shard epoch "@
                + decimal(expected_epoch as nat),
        )
    } else if r.owner_node_id@.len() > 0 && r.owner_node_id@ != expected_owner {
        Some(
            "replicated WAL record owner "@ + r.owner_node_id@ + " does not match configured shard owner "@
                + expected_owner,
        )
    } else {
        None
    }
}

/// Checks that a replicated entry belongs to `shard` at this node's epoch
/// and owner for it.
pub fn validate_replicated_wal_fence(
    shard: usize,
    record: &WalRecord,
    expected_epoch: u64,
    expected_owner: &str,
) -> (r: Result<(), ApiError>)
    ensures
        match fence_error(shard, *record, expected_epoch, expected_owner@) {
            None => r is Ok,
            Some(m) => r matches Err(e) && e.kind == ApiErrorKind::Conflict && e.message@ == m,
        },
{
    if record.shard != shard {
        let a = decimal_string(record.shard as u64);
        let b = decimal_string(shard as u64);
        return Err(
            ApiError::conflict(cat4("replicated WAL record shard ", a.as_str(), " does not match request shard ", b.as_str())),
        );
    }
    if record.shard_epoch != expected_epoch {
        let a = decimal_string(record.shard_epoch);
        let b = decimal_string(expected_epoch);
        return Err(
            ApiError::conflict(
                cat4("replicated WAL record epoch ", a.as_str(), " does not match local shard epoch ", b.as_str()),
            ),
        );
    }
    let named = crate::text::chars_of(record.owner_node_id.as_str()).len() > 0;
    if named && !str_eq(record.owner_node_id.as_str(), expected_owner) {
        return Err(
            ApiError::conflict(
                cat4(
                    "replicated WAL record owner ",
                    record.owner_node_id.as_str(),
                    " does not match configured shard owner ",
                    expected_owner,
                ),
            ),
        );
    }
    Ok(())
}

/// Checks a replicated entry in full: its fence, an LSN, a durable entry,
/// and a checksum that matches where it has one (`found` is the checksum it
/// carries). Says whether the entry still needs its checksum added.
pub fn check_replicated_wal_record(
    shard: usize,
    record: &WalRecord,
    expected_epoch: u64,
    expected_owner: &str,
    checksum: &WalChecksumStatus,
    found: Option<&str>,
) -> (r: Result<bool, ApiError>)
    ensures
        fence_error(shard, *record, expected_epoch, expected_owner@) matches Some(m) ==> (r matches Err(e) && e.kind
            == ApiErrorKind::Conflict && e.message@ == m),
        fence_error(shard, *record, expected_epoch, expected_owner@) is None ==> if record.lsn == 0 {
            r matches Err(e) && e.kind == ApiErrorKind::BadRequest && e.message@ == "replicated WAL records must have lsn"@
        } else if record.durability == Durability::Volatile {
            r matches Err(e) && e.kind == ApiErrorKind::BadRequest && e.message@
                == "volatile records must not be replicated through WAL"@
        } else {
            match checksum {
                WalChecksumStatus::Valid => r == Ok::<bool, ApiError>(false),
                WalChecksumStatus::Missing => r == Ok::<bool, ApiError>(true),
                WalChecksumStatus::Mismatch { expected } => r matches Err(e) && e.kind == ApiErrorKind::BadRequest
                    && e.message@ == "replicated WAL checksum mismatch for LSN "@ + decimal(record.lsn as nat)
                    + ": expected "@ + expected@ + ", found "@ + match found {
                    Some(f) => f@,
                    None => Seq::empty(),
                },
            }
        },
{
    let fenced = validate_replicated_wal_fence(shard, record, expected_epoch, expected_owner);
    if let Err(e) = fenced {
        return Err(e);
    }
    if record.lsn == 0 {
        return Err(ApiError::bad_request(owned("replicated WAL records must have lsn")));
    }
    if record.durability == Durability::Volatile {
        return Err(ApiError::bad_request(owned("volatile records must not be replicated through WAL")));
    }
    match checksum {
        WalChecksumStatus::Valid => Ok(false),
        WalChecksumStatus::Missing => Ok(true),
        WalChecksumStatus::Mismatch { expected } => {
            let n = decimal_string(record.lsn);
            let head = cat5("replicated WAL checksum mismatch for LSN ", n.as_str(), ": expected ", expected.as_str(), ", found ");
            let shown = match found {
                Some(f) => owned(f),
                None => String::new(),
            };
            Err(ApiError::bad_request(cat2(head.as_str(), shown.as_str())))
        },
    }
}

/// Whether entry `i` is the first with its LSN.
pub open spec fn first_of_its_lsn(s: Seq<WalRecord>, i: int) -> bool {
    forall|j: int| 0 <= j < i ==> s[j].lsn != s[i].lsn
}

/// `r` is the first entry of `s` with its LSN, which `existing` does not
/// hold.
pub open spec fn first_new(s: Seq<WalRecord>, existing: Seq<u64>, r: WalRecord) -> bool {
    exists|i: int| 0 <= i < s.len() && first_of_its_lsn(s, i) && !existing.contains(s[i].lsn) && r == s[i]
}

/// Some entry of `out` has the LSN `l`.
pub open spec fn has_lsn(out: Seq<WalRecord>, l: u64) -> bool {
    exists|k: int| 0 <= k < out.len() && out[k].lsn == l
}

/// `out` holds, in strictly increasing LSN order, the first entry of `s`
/// with each LSN that `existing` does not hold, and nothing else.
pub open spec fn new_entries(s: Seq<WalRecord>, existing: Seq<u64>, out: Seq<WalRecord>) -> bool {
    &&& forall|a: int, b: int| 0 <= a < b < out.len() ==> #[trigger] out[a].lsn < #[trigger] out[b].lsn
    &&& forall|k: int| 0 <= k < out.len() ==> first_new(s, existing, #[trigger] out[k])
    &&& forall|i: int| 0 <= i < s.len() && !existing.contains(#[trigger] s[i].lsn) ==> has_lsn(out, s[i].lsn)
}

fn holds_lsn(lsns: &Vec<u64>, lsn: u64) -> (b: bool)
    ensures
        b == lsns@.contains(lsn),
{
    let mut i: usize = 0;
    while i < lsns.len()
        invariant
            i <= lsns@.len(),
            forall|j: int| 0 <= j < i ==> lsns@[j] != lsn,
        decreases lsns@.len() - i,
    {
        if lsns[i] == lsn {
            assert(lsns@[i as int] == lsn);
            return true;
        }
        i = i + 1;
    }
    false
}

proof fn lemma_first_new_grows(t: Seq<WalRecord>, x: WalRecord, ex: Seq<u64>, r: WalRecord)
    requires
        first_new(t, ex, r),
    ensures
        first_new(t.push(x), ex, r),
{
    let t2 = t.push(x);
    let i = choose|i: int| 0 <= i < t.len() && first_of_its_lsn(t, i) && !ex.contains(t[i].lsn) && r == t[i];
    assert(t2[i] == t[i]);
    assert forall|j: int| 0 <= j < i implies t2[j].lsn != t2[i].lsn by {
        assert(t2[j] == t[j]);
    }
}

proof fn lemma_keep(t: Seq<WalRecord>, x: WalRecord, ex: Seq<u64>, out: Seq<WalRecord>)
    requires
        new_entries(t, ex, out),
        ex.contains(x.lsn) || has_lsn(out, x.lsn),
    ensures
        new_entries(t.push(x), ex, out),
{
    let t2 = t.push(x);
    assert forall|k: int| 0 <= k < out.len() implies first_new(t2, ex, #[trigger] out[k]) by {
        lemma_first_new_grows(t, x, ex, out[k]);
    }
    assert forall|i: int| 0 <= i < t2.len() && !ex.contains(#[trigger] t2[i].lsn) implies has_lsn(out, t2[i].lsn) by {
        if i < t.len() {
            assert(t2[i] == t[i]);
        }
    }
}

proof fn lemma_insert_sorted(out: Seq<WalRecord>, x: WalRecord, p: int)
    requires
        forall|a: int, b: int| 0 <= a < b < out.len() ==> #[trigger] out[a].lsn < #[trigger] out[b].lsn,
        0 <= p <= out.len(),
        forall|q: int| 0 <= q < p ==> out[q].lsn < x.lsn,
        p < out.len() ==> out[p].lsn > x.lsn,
    ensures
        forall|a: int, b: int|
            0 <= a < b < out.insert(p, x).len() ==> #[trigger] out.insert(p, x)[a].lsn < #[trigger] out.insert(
                p,
                x,
            )[b].lsn,
{
    let o = out.insert(p, x);
    assert forall|a: int, b: int| 0 <= a < b < o.len() implies #[trigger] o[a].lsn < #[trigger] o[b].lsn by {
        if b < p {
            assert(o[a] == out[a] && o[b] == out[b]);
        } else if b == p {
            assert(o[a] == out[a]);
        } else {
            assert(o[b] == out[b - 1]);
            if a < p {
                assert(o[a] == out[a]);
                if b - 1 > p {
                    assert(out[p].lsn < out[b - 1].lsn);
                }
            } else if a == p {
                if b - 1 > p {
                    assert(out[p].lsn < out[b - 1].lsn);
                }
            } else {
                assert(o[a] == out[a - 1]);
            }
        }
    }
}

proof fn lemma_insert(t: Seq<WalRecord>, x: WalRecord, ex: Seq<u64>, out: Seq<WalRecord>, p: int)
    requires
        new_entries(t, ex, out),
        !ex.contains(x.lsn),
        0 <= p <= out.len(),
        forall|q: int| 0 <= q < p ==> out[q].lsn < x.lsn,
        p < out.len() ==> out[p].lsn > x.lsn,
    ensures
        new_entries(t.push(x), ex, out.insert(p, x)),
{
    let t2 = t.push(x);
    let o = out.insert(p, x);
    lemma_insert_sorted(out, x, p);
    assert forall|j: int| 0 <= j < t.len() implies t2[j].lsn != x.lsn by {
        assert(t2[j] == t[j]);
        if t[j].lsn == x.lsn {
            assert(has_lsn(out, t[j].lsn));
            let k = choose|k: int| 0 <= k < out.len() && out[k].lsn == t[j].lsn;
            if k > p {
                assert(out[p].lsn < out[k].lsn);
            }
        }
    }
    assert(t2[t.len() as int] == x);
    assert(first_new(t2, ex, x));
    assert forall|k: int| 0 <= k < o.len() implies first_new(t2, ex, #[trigger] o[k]) by {
        if k != p {
            let kk = if k < p { k } else { k - 1 };
            assert(o[k] == out[kk]);
            lemma_first_new_grows(t, x, ex, out[kk]);
        }
    }
    assert forall|i: int| 0 <= i < t2.len() && !ex.contains(#[trigger] t2[i].lsn) implies has_lsn(o, t2[i].lsn) by {
        if i == t.len() {
            assert(o[p].lsn == t2[i].lsn);
        } else {
            assert(t2[i] == t[i]);
            let k = choose|k: int| 0 <= k < out.len() && out[k].lsn == t[i].lsn;
            if k < p {
                assert(o[k] == out[k]);
            } else {
                assert(o[k + 1] == out[k]);
            }
        }
    }
}

/// The entries a replica takes from those it received: the ones whose LSN
/// it does not already hold (`existing_lsns`), the first received for each
/// LSN, ordered by LSN.
pub fn select_new_replicated_records(requested: Vec<WalRecord>, existing_lsns: &Vec<u64>) -> (out: Vec<WalRecord>)
    ensures
        new_entries(requested@, existing_lsns@, out@),
{
    let ghost s = requested@;
    let mut rest = requested;
    assert(s.len() == rest.len());
    let mut out: Vec<WalRecord> = Vec::new();
    let mut i: usize = 0;
    while rest.len() > 0
        invariant
            i <= s.len(),
            s.len() <= usize::MAX,
            rest@ == s.skip(i as int),
            new_entries(s.take(i as int), existing_lsns@, out@),
        decreases rest@.len(),
    {
        assert(rest@.len() == s.len() - i);
        let r = rest.remove(0);
        let ghost prev = out@;
        proof {
            assert(r == s[i as int]);
            assert(s.take(i + 1) =~= s.take(i as int).push(r));
        }
        if holds_lsn(existing_lsns, r.lsn) {
            proof {
                lemma_keep(s.take(i as int), r, existing_lsns@, prev);
            }
        } else {
            let mut p: usize = 0;
            while p < out.len() && out[p].lsn < r.lsn
                invariant
                    p <= out@.len(),
                    out@ == prev,
                    forall|q: int| 0 <= q < p ==> out@[q].lsn < r.lsn,
                decreases out@.len() - p,
            {
                p = p + 1;
            }
            if p < out.len() && out[p].lsn == r.lsn {
                proof {
                    assert(prev[p as int].lsn == r.lsn);
                    lemma_keep(s.take(i as int), r, existing_lsns@, prev);
                }
            } else {
                proof {
                    lemma_insert(s.take(i as int), r, existing_lsns@, prev, p as int);
                }
                out.insert(p, r);
            }
        }
        i = i + 1;
        assert(rest@ =~= s.skip(i as int));
    }
    assert(s.take(i as int) =~= s);
    out
}

/// The entries of a replication request that were not taken.
pub fn replication_skipped(requested: usize, accepted: usize) -> (n: usize)
    ensures
        n == if accepted <= requested {
            requested - accepted
        } else {
            0
        },
{
    requested.saturating_sub(accepted)
}


/// What a replica does with a log entry it accepted.
#[derive(PartialEq, Eq, Structural, Clone, Copy, Debug)]
pub enum ReplicatedWalAction {
    /// Appends the message to its room's log and delivers it.
    AppendMessage,
    /// Delivers the user event.
    PublishUserEvent,
    /// Delivers the user's new profile.
    PublishUserUpsert,
    /// Writes the record to memory and queues it for the projections.
    UpsertRecord,
    /// Deletes the record from memory and queues the delete.
    DeleteRecord,
    /// Applies the transaction's operations.
    ApplyTransaction,
    /// Schedules the reminder.
    ScheduleReminder,
    /// Cancels the reminder (it was cancelled or it fired).
    CancelReminder,
    /// Deletes the stored object.
    DeleteObject,
    /// Waits until the record projections reach the LSN they had before this
    /// entry, then applies the schema.
    ApplySchema,
    /// Nothing beyond the bookkeeping every entry gets: an object commit, or a
    /// kind that the library does not model.
    Nothing,
}

/// The action of a log entry's payload.
pub open spec fn replicated_action(p: WalPayload) -> ReplicatedWalAction {
    match p {
        WalPayload::MessageCreated { .. } => ReplicatedWalAction::AppendMessage,
        WalPayload::UserEventPublished { .. } => ReplicatedWalAction::PublishUserEvent,
        WalPayload::UserUpserted { .. } => ReplicatedWalAction::PublishUserUpsert,
        WalPayload::RecordUpserted { .. } => ReplicatedWalAction::UpsertRecord,
        WalPayload::RecordDeleted { .. } => ReplicatedWalAction::DeleteRecord,
        WalPayload::RecordTransactionCommitted { .. } => ReplicatedWalAction::ApplyTransaction,
        WalPayload::ActorReminderScheduled { .. } => ReplicatedWalAction::ScheduleReminder,
        WalPayload::ActorReminderCancelled { .. } => ReplicatedWalAction::CancelReminder,
        WalPayload::ActorReminderFired { .. } => ReplicatedWalAction::CancelReminder,
        WalPayload::ObjectDeleted { .. } => ReplicatedWalAction::DeleteObject,
        WalPayload::SchemaApplied { .. } => ReplicatedWalAction::ApplySchema,
        _ => ReplicatedWalAction::Nothing,
    }
}

/// What a replica does with an accepted entry, and the LSN the record
/// projections reach with it: the entry's own for a record write, delete or
/// transaction, none for any other entry.
pub fn replicated_wal_action(record: &WalRecord) -> (r: (ReplicatedWalAction, Option<u64>))
    ensures
        r.0 == replicated_action(record.payload),
        r.1 == match record.payload {
            WalPayload::RecordUpserted { .. } => Some(record.lsn),
            WalPayload::RecordDeleted { .. } => Some(record.lsn),
            WalPayload::RecordTransactionCommitted { .. } => Some(record.lsn),
            _ => None::<u64>,
        },
{
    match &record.payload {
        WalPayload::MessageCreated { .. } => (ReplicatedWalAction::AppendMessage, None),
        WalPayload::UserEventPublished { .. } => (ReplicatedWalAction::PublishUserEvent, None),
        WalPayload::UserUpserted { .. } => (ReplicatedWalAction::PublishUserUpsert, None),
        WalPayload::RecordUpserted { .. } => (ReplicatedWalAction::UpsertRecord, Some(record.lsn)),
        WalPayload::RecordDeleted { .. } => (ReplicatedWalAction::DeleteRecord, Some(record.lsn)),
        WalPayload::RecordTransactionCommitted { .. } => (ReplicatedWalAction::ApplyTransaction, Some(record.lsn)),
        WalPayload::ActorReminderScheduled { .. } => (ReplicatedWalAction::ScheduleReminder, None),
        WalPayload::ActorReminderCancelled { .. } => (ReplicatedWalAction::CancelReminder, None),
        WalPayload::ActorReminderFired { .. } => (ReplicatedWalAction::CancelReminder, None),
        WalPayload::ObjectDeleted { .. } => (ReplicatedWalAction::DeleteObject, None),
        WalPayload::SchemaApplied { .. } => (ReplicatedWalAction::ApplySchema, None),
        _ => (ReplicatedWalAction::Nothing, None),
    }
}

} // verus!

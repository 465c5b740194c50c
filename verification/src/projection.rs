//! The record projection that a write-ahead log describes: replaying record
//! upserts, deletes and committed transactions gives, for each record path,
//! the last record written there and not deleted since.
use vstd::prelude::*;
use crate::model::{DbRecordMutationDraft, WalPayload, WalRecord};
use crate::order::{chars_lt, lex_lt, lemma_lex_irreflexive, lemma_lex_transitive, lemma_lex_trichotomy};
use crate::records::DbRecord;
use crate::text::{chars_eq, chars_of};

verus! {

/// Record states by path.
pub type RecordMap = Map<Seq<char>, DbRecord>;

pub open spec fn apply_mutation(m: RecordMap, op: DbRecordMutationDraft, lsn: u64) -> RecordMap {
    match op {
        DbRecordMutationDraft::Upsert { record } => m.insert(record.path@, record.into_record_spec(lsn)),
        DbRecordMutationDraft::Delete { record } => m.remove(record.path@),
    }
}

pub open spec fn apply_mutations(m: RecordMap, ops: Seq<DbRecordMutationDraft>, lsn: u64) -> RecordMap
    decreases ops.len(),
{
    if ops.len() == 0 {
        m
    } else {
        apply_mutation(apply_mutations(m, ops.drop_last(), lsn), ops.last(), lsn)
    }
}

pub open spec fn apply_entry(m: RecordMap, w: WalRecord) -> RecordMap {
    match w.payload {
        WalPayload::RecordUpserted { record } => m.insert(record.path@, record.into_record_spec(w.lsn)),
        WalPayload::RecordDeleted { record } => m.remove(record.path@),
        WalPayload::RecordTransactionCommitted { operations } => apply_mutations(m, operations@, w.lsn),
        _ => m,
    }
}

/// The projection after replaying `log` in order.
pub open spec fn record_state(log: Seq<WalRecord>) -> RecordMap
    decreases log.len(),
{
    if log.len() == 0 {
        Map::empty()
    } else {
        apply_entry(record_state(log.drop_last()), log.last())
    }
}

/// The path an operation of a transaction writes.
pub open spec fn op_path(op: DbRecordMutationDraft) -> Seq<char> {
    match op {
        DbRecordMutationDraft::Upsert { record } => record.path@,
        DbRecordMutationDraft::Delete { record } => record.path@,
    }
}

/// Whether the log entry `w` writes (upserts or deletes) the record at `p`,
/// on its own or as an operation of a transaction.
pub open spec fn writes_path(w: WalRecord, p: Seq<char>) -> bool {
    match w.payload {
        WalPayload::RecordUpserted { record } => record.path@ == p,
        WalPayload::RecordDeleted { record } => record.path@ == p,
        WalPayload::RecordTransactionCommitted { operations } =>
            exists|i: int| 0 <= i < operations@.len() && #[trigger] op_path(operations@[i]) == p,
        _ => false,
    }
}

/// Two projections agree at path `p`.
pub open spec fn same_at(m1: RecordMap, m2: RecordMap, p: Seq<char>) -> bool {
    &&& m1.contains_key(p) == m2.contains_key(p)
    &&& m1.contains_key(p) ==> m1[p] == m2[p]
}

proof fn lemma_mutations_keep_unwritten(m: RecordMap, ops: Seq<DbRecordMutationDraft>, lsn: u64, p: Seq<char>)
    requires
        forall|i: int| 0 <= i < ops.len() ==> #[trigger] op_path(ops[i]) != p,
    ensures
        same_at(apply_mutations(m, ops, lsn), m, p),
    decreases ops.len(),
{
    if ops.len() > 0 {
        let t = ops.drop_last();
        assert forall|i: int| 0 <= i < t.len() implies #[trigger] op_path(t[i]) != p by {
            assert(t[i] == ops[i]);
        }
        lemma_mutations_keep_unwritten(m, t, lsn, p);
        assert(op_path(ops[ops.len() - 1]) != p);
    }
}

proof fn lemma_entries_keep_unwritten(log: Seq<WalRecord>, later: Seq<WalRecord>, p: Seq<char>)
    requires
        forall|i: int| 0 <= i < later.len() ==> !writes_path(#[trigger] later[i], p),
    ensures
        same_at(record_state(log + later), record_state(log), p),
    decreases later.len(),
{
    if later.len() == 0 {
        assert(log + later =~= log);
    } else {
        let t = later.drop_last();
        assert forall|i: int| 0 <= i < t.len() implies !writes_path(#[trigger] t[i], p) by {
            assert(t[i] == later[i]);
        }
        lemma_entries_keep_unwritten(log, t, p);
        assert((log + later).drop_last() =~= log + t);
        let w = later.last();
        assert(!writes_path(later[later.len() - 1], p));
        assert((log + later).last() == w);
        match w.payload {
            WalPayload::RecordTransactionCommitted { operations } => {
                assert forall|i: int| 0 <= i < operations@.len() implies #[trigger] op_path(operations@[i]) != p by {}
                lemma_mutations_keep_unwritten(record_state(log + t), operations@, w.lsn, p);
            },
            _ => {},
        }
    }
}

/// A record path that no later entry writes keeps what it had: the
/// projection after more entries agrees at `p` with the projection before
/// them.
pub proof fn unwritten_path_keeps_its_record(log: Seq<WalRecord>, later: Seq<WalRecord>, p: Seq<char>)
    requires
        forall|i: int| 0 <= i < later.len() ==> !writes_path(#[trigger] later[i], p),
    ensures
        record_state(log + later).contains_key(p) == record_state(log).contains_key(p),
        record_state(log).contains_key(p) ==> record_state(log + later)[p] == record_state(log)[p],
{
    lemma_entries_keep_unwritten(log, later, p);
}

/// After a delete of the record at a path, the projection holds no record
/// there until a later entry writes that path again.
pub proof fn deleted_record_stays_deleted(log: Seq<WalRecord>, w: WalRecord, later: Seq<WalRecord>)
    requires
        w.payload is RecordDeleted,
        forall|i: int| 0 <= i < later.len() ==> !writes_path(#[trigger] later[i], w.payload->RecordDeleted_record.path@),
    ensures
        !record_state(log.push(w) + later).contains_key(w.payload->RecordDeleted_record.path@),
{
    let p = w.payload->RecordDeleted_record.path@;
    lemma_entries_keep_unwritten(log.push(w), later, p);
    assert(log.push(w).drop_last() =~= log);
}

/// After an upsert of a record, the projection holds that record (with the
/// entry's LSN) at its path until a later entry writes that path again.
pub proof fn upserted_record_stays_until_rewritten(log: Seq<WalRecord>, w: WalRecord, later: Seq<WalRecord>)
    requires
        w.payload is RecordUpserted,
        forall|i: int| 0 <= i < later.len() ==> !writes_path(#[trigger] later[i], w.payload->RecordUpserted_record.path@),
    ensures
        ({
            let d = w.payload->RecordUpserted_record;
            &&& record_state(log.push(w) + later).contains_key(d.path@)
            &&& record_state(log.push(w) + later)[d.path@] == d.into_record_spec(w.lsn)
        }),
{
    let p = w.payload->RecordUpserted_record.path@;
    lemma_entries_keep_unwritten(log.push(w), later, p);
    assert(log.push(w).drop_last() =~= log);
}

/// A committed transaction writes each path as its last operation on that
/// path says: an upsert leaves that record (with the transaction's LSN), a
/// delete leaves none; paths it does not touch keep what they had.
pub proof fn transaction_applies_its_last_operation_per_path(
    m: RecordMap,
    ops: Seq<DbRecordMutationDraft>,
    lsn: u64,
    i: int,
)
    requires
        0 <= i < ops.len(),
        forall|j: int| i < j < ops.len() ==> #[trigger] op_path(ops[j]) != op_path(ops[i]),
    ensures
        match ops[i] {
            DbRecordMutationDraft::Upsert { record } => apply_mutations(m, ops, lsn).contains_key(record.path@)
                && apply_mutations(m, ops, lsn)[record.path@] == record.into_record_spec(lsn),
            DbRecordMutationDraft::Delete { record } => !apply_mutations(m, ops, lsn).contains_key(record.path@),
        },
    decreases ops.len(),
{
    let p = op_path(ops[i]);
    if i == ops.len() - 1 {
    } else {
        let t = ops.drop_last();
        assert(t[i] == ops[i]);
        assert forall|j: int| i < j < t.len() implies #[trigger] op_path(t[j]) != op_path(t[i]) by {
            assert(t[j] == ops[j]);
        }
        transaction_applies_its_last_operation_per_path(m, t, lsn, i);
        assert(op_path(ops[ops.len() - 1]) != p);
    }
}

/// After a committed transaction, each path holds what the transaction's last
/// operation on it wrote (the record, with the transaction's LSN, or nothing
/// for a delete) until a later entry writes that path again.
pub proof fn transaction_writes_stay_until_rewritten(log: Seq<WalRecord>, w: WalRecord, later: Seq<WalRecord>, i: int)
    requires
        w.payload is RecordTransactionCommitted,
        0 <= i < w.payload->RecordTransactionCommitted_operations@.len(),
        forall|j: int|
            i < j < w.payload->RecordTransactionCommitted_operations@.len() ==> #[trigger] op_path(
                w.payload->RecordTransactionCommitted_operations@[j],
            ) != op_path(w.payload->RecordTransactionCommitted_operations@[i]),
        forall|k: int| 0 <= k < later.len() ==> !writes_path(
            #[trigger] later[k],
            op_path(w.payload->RecordTransactionCommitted_operations@[i]),
        ),
    ensures
        match w.payload->RecordTransactionCommitted_operations@[i] {
            DbRecordMutationDraft::Upsert { record } => record_state(log.push(w) + later).contains_key(record.path@)
                && record_state(log.push(w) + later)[record.path@] == record.into_record_spec(w.lsn),
            DbRecordMutationDraft::Delete { record } => !record_state(log.push(w) + later).contains_key(record.path@),
        },
{
    let ops = w.payload->RecordTransactionCommitted_operations@;
    lemma_entries_keep_unwritten(log.push(w), later, op_path(ops[i]));
    assert(log.push(w).drop_last() =~= log);
    transaction_applies_its_last_operation_per_path(record_state(log), ops, w.lsn, i);
}

pub open spec fn sorted_by_path(s: Seq<DbRecord>) -> bool {
    forall|i: int, j: int| 0 <= i < j < s.len() ==> lex_lt(s[i].path@, s[j].path@)
}

/// `s` lists `m` in path order: each listed record is the state of its path,
/// and each path of `m` is listed.
pub open spec fn lists(s: Seq<DbRecord>, m: RecordMap) -> bool {
    &&& sorted_by_path(s)
    &&& forall|i: int| 0 <= i < s.len() ==> m.contains_key(#[trigger] s[i].path@) && m[s[i].path@] == s[i]
    &&& forall|p: Seq<char>| m.contains_key(p) ==> exists|i: int| 0 <= i < s.len() && #[trigger] s[i].path@ == p
}

fn path_lt(a: &DbRecord, b: &DbRecord) -> (r: bool)
    ensures
        r == lex_lt(a.path@, b.path@),
{
    let x = chars_of(a.path.as_str());
    let y = chars_of(b.path.as_str());
    chars_lt(x.as_slice(), y.as_slice())
}

fn path_eq(a: &DbRecord, b: &DbRecord) -> (r: bool)
    ensures
        r == (a.path@ == b.path@),
{
    let x = chars_of(a.path.as_str());
    let y = chars_of(b.path.as_str());
    chars_eq(x.as_slice(), y.as_slice())
}

fn path_is(a: &DbRecord, p: &[char]) -> (r: bool)
    ensures
        r == (a.path@ == p@),
{
    let x = chars_of(a.path.as_str());
    chars_eq(x.as_slice(), p)
}

/// Sets the state of `rec`'s path to `rec`.
fn store_upsert(store: &mut Vec<DbRecord>, rec: DbRecord, Ghost(m): Ghost<RecordMap>)
    requires
        lists(old(store)@, m),
    ensures
        lists(final(store)@, m.insert(rec.path@, rec)),
{
    let ghost s = store@;
    let ghost key = rec.path@;
    let n = store.len();
    let mut i: usize = 0;
    while i < n && path_lt(&store[i], &rec)
        invariant
            n == s.len(),
            store@ == s,
            key == rec.path@,
            i <= n,
            forall|j: int| 0 <= j < i ==> lex_lt(#[trigger] s[j].path@, key),
        decreases n - i,
    {
        i = i + 1;
    }
    let m2 = Ghost(m.insert(key, rec));
    if i < n && path_eq(&store[i], &rec) {
        store.set(i, rec);
        proof {
            let t = store@;
            assert forall|a: int, b: int| 0 <= a < b < t.len() implies lex_lt(t[a].path@, t[b].path@) by {
                assert(lex_lt(s[a].path@, s[b].path@));
            }
            assert forall|j: int| 0 <= j < t.len() implies m2@.contains_key(#[trigger] t[j].path@) && m2@[t[j].path@] == t[j] by {
                if j != i {
                    assert(t[j] == s[j]);
                    if j < i {
                        assert(lex_lt(s[j].path@, s[i as int].path@));
                    } else {
                        assert(lex_lt(s[i as int].path@, s[j].path@));
                    }
                    if s[j].path@ == key {
                        lemma_lex_irreflexive(key);
                    }
                }
            }
            assert forall|p: Seq<char>| m2@.contains_key(p) implies exists|j: int| 0 <= j < t.len() && #[trigger] t[j].path@ == p by {
                if p == key {
                    assert(t[i as int].path@ == p);
                } else {
                    let j = choose|j: int| 0 <= j < s.len() && #[trigger] s[j].path@ == p;
                    assert(t[j].path@ == p);
                }
            }
        }
    } else {
        proof {
            if i < n {
                lemma_lex_trichotomy(s[i as int].path@, key);
            }
        }
        store.insert(i, rec);
        proof {
            let t = store@;
            assert forall|j: int| i <= j < s.len() implies lex_lt(key, #[trigger] s[j].path@) by {
                if j > i {
                    assert(lex_lt(s[i as int].path@, s[j].path@));
                    lemma_lex_transitive(key, s[i as int].path@, s[j].path@);
                }
            }
            assert forall|a: int, b: int| 0 <= a < b < t.len() implies lex_lt(t[a].path@, t[b].path@) by {
                if b < i {
                    assert(t[a] == s[a] && t[b] == s[b]);
                } else if b == i {
                    assert(t[a] == s[a]);
                } else if a == i {
                    assert(t[b] == s[b - 1]);
                } else if a < i {
                    assert(t[a] == s[a] && t[b] == s[b - 1]);
                    lemma_lex_transitive(s[a].path@, key, s[b - 1].path@);
                } else {
                    assert(t[a] == s[a - 1] && t[b] == s[b - 1]);
                }
            }
            assert forall|j: int| 0 <= j < t.len() implies m2@.contains_key(#[trigger] t[j].path@) && m2@[t[j].path@] == t[j] by {
                if j < i {
                    assert(t[j] == s[j]);
                    if s[j].path@ == key {
                        lemma_lex_irreflexive(key);
                    }
                } else if j > i {
                    assert(t[j] == s[j - 1]);
                    if s[j - 1].path@ == key {
                        lemma_lex_irreflexive(key);
                    }
                }
            }
            assert forall|p: Seq<char>| m2@.contains_key(p) implies exists|j: int| 0 <= j < t.len() && #[trigger] t[j].path@ == p by {
                if p == key {
                    assert(t[i as int].path@ == p);
                } else {
                    let j = choose|j: int| 0 <= j < s.len() && #[trigger] s[j].path@ == p;
                    if j < i {
                        assert(t[j].path@ == p);
                    } else {
                        assert(t[j + 1].path@ == p);
                    }
                }
            }
        }
    }
}

/// Drops the state of path `p`.
fn store_remove(store: &mut Vec<DbRecord>, p: &[char], Ghost(m): Ghost<RecordMap>)
    requires
        lists(old(store)@, m),
    ensures
        lists(final(store)@, m.remove(p@)),
{
    let ghost s = store@;
    let n = store.len();
    let mut i: usize = 0;
    while i < n && !path_is(&store[i], p)
        invariant
            n == s.len(),
            store@ == s,
            i <= n,
            forall|j: int| 0 <= j < i ==> #[trigger] s[j].path@ != p@,
        decreases n - i,
    {
        i = i + 1;
    }
    let m2 = Ghost(m.remove(p@));
    if i < n {
        store.remove(i);
        proof {
            let t = store@;
            assert forall|a: int, b: int| 0 <= a < b < t.len() implies lex_lt(t[a].path@, t[b].path@) by {
                if b < i {
                    assert(t[a] == s[a] && t[b] == s[b]);
                } else if a < i {
                    assert(t[a] == s[a] && t[b] == s[b + 1]);
                } else {
                    assert(t[a] == s[a + 1] && t[b] == s[b + 1]);
                }
            }
            assert forall|j: int| 0 <= j < t.len() implies m2@.contains_key(#[trigger] t[j].path@) && m2@[t[j].path@] == t[j] by {
                let k = if j < i { j } else { j + 1 };
                assert(t[j] == s[k]);
                if s[k].path@ == p@ {
                    if k < i {
                        assert(lex_lt(s[k].path@, s[i as int].path@));
                    } else {
                        assert(lex_lt(s[i as int].path@, s[k].path@));
                    }
                    lemma_lex_irreflexive(p@);
                }
            }
            assert forall|q: Seq<char>| m2@.contains_key(q) implies exists|j: int| 0 <= j < t.len() && #[trigger] t[j].path@ == q by {
                let j = choose|j: int| 0 <= j < s.len() && #[trigger] s[j].path@ == q;
                if j < i {
                    assert(t[j].path@ == q);
                } else {
                    assert(j != i);
                    assert(t[j - 1].path@ == q);
                }
            }
        }
    } else {
        proof {
            assert(!m.contains_key(p@)) by {
                if m.contains_key(p@) {
                    let j = choose|j: int| 0 <= j < s.len() && #[trigger] s[j].path@ == p@;
                }
            }
            assert(m2@ =~= m);
        }
    }
}

fn apply_operations(store: &mut Vec<DbRecord>, operations: Vec<DbRecordMutationDraft>, lsn: u64, Ghost(m): Ghost<RecordMap>)
    requires
        lists(old(store)@, m),
    ensures
        lists(final(store)@, apply_mutations(m, operations@, lsn)),
{
    let ghost ops = operations@;
    let mut rev = crate::merge::reversed(operations);
    let ghost mut cur = m;
    assert(ops.subrange(0, 0) =~= Seq::<DbRecordMutationDraft>::empty());
    while rev.len() > 0
        invariant
            rev@.len() <= ops.len(),
            rev@.reverse() == ops.subrange(ops.len() - rev@.len(), ops.len() as int),
            cur == apply_mutations(m, ops.subrange(0, ops.len() - rev@.len()), lsn),
            lists(store@, cur),
        decreases rev@.len(),
    {
        let ghost k = ops.len() - rev@.len();
        proof {
            crate::merge::lemma_reverse_last_pub(rev@);
            assert(ops.subrange(k, ops.len() as int)[0] == ops[k]);
            assert(ops.subrange(k, ops.len() as int).drop_first() =~= ops.subrange(k + 1, ops.len() as int));
            assert(ops.subrange(0, k + 1).drop_last() =~= ops.subrange(0, k));
        }
        let op = rev.pop().unwrap();
        assert(op == ops[k]);
        match op {
            DbRecordMutationDraft::Upsert { record } => {
                let r = record.into_record(lsn);
                store_upsert(store, r, Ghost(cur));
            },
            DbRecordMutationDraft::Delete { record } => {
                let p = chars_of(record.path.as_str());
                store_remove(store, p.as_slice(), Ghost(cur));
            },
        }
        proof {
            cur = apply_mutation(cur, ops[k], lsn);
        }
    }
    assert(ops.subrange(0, ops.len() as int) =~= ops);
}

/// The records that the log leaves, in path order (see `record_state`).
pub fn records_from_wal_records(records: Vec<WalRecord>) -> (out: Vec<DbRecord>)
    ensures
        lists(out@, record_state(records@)),
{
    let ghost log = records@;
    let mut rev = crate::merge::reversed(records);
    let mut store: Vec<DbRecord> = Vec::new();
    assert(log.subrange(0, 0) =~= Seq::<WalRecord>::empty());
    while rev.len() > 0
        invariant
            rev@.len() <= log.len(),
            rev@.reverse() == log.subrange(log.len() - rev@.len(), log.len() as int),
            lists(store@, record_state(log.subrange(0, log.len() - rev@.len()))),
        decreases rev@.len(),
    {
        let ghost k = log.len() - rev@.len();
        let ghost cur = record_state(log.subrange(0, k));
        proof {
            crate::merge::lemma_reverse_last_pub(rev@);
            assert(log.subrange(k, log.len() as int)[0] == log[k]);
            assert(log.subrange(k, log.len() as int).drop_first() =~= log.subrange(k + 1, log.len() as int));
            assert(log.subrange(0, k + 1).drop_last() =~= log.subrange(0, k));
        }
        let w = rev.pop().unwrap();
        assert(w == log[k]);
        let lsn = w.lsn;
        match w.payload {
            WalPayload::RecordUpserted { record } => {
                let r = record.into_record(lsn);
                store_upsert(&mut store, r, Ghost(cur));
            },
            WalPayload::RecordDeleted { record } => {
                let p = chars_of(record.path.as_str());
                store_remove(&mut store, p.as_slice(), Ghost(cur));
            },
            WalPayload::RecordTransactionCommitted { operations } => {
                apply_operations(&mut store, operations, lsn, Ghost(cur));
            },
            _ => {},
        }
    }
    assert(log.subrange(0, log.len() as int) =~= log);
    store
}

} // verus!

//! The index of actor reminders that the write-ahead log describes: for each
//! reminder (by actor kind, actor key and reminder id) its latest schedule and
//! whether it was since cancelled or fired.
use vstd::prelude::*;
use crate::actor::{ActorId, actor_kind_name};
use crate::api_error::{ApiError, ApiErrorKind};
use crate::json::json_eq;
use crate::model::{ActorReminderDraft, ActorReminderDraftView, WalPayload, WalRecord};
use crate::text::{chars_eq, chars_of, owned, trim, trim_string};

verus! {

/// An index key: the trimmed actor kind, actor key and reminder id.
pub type ReminderKey = (Seq<char>, Seq<char>, Seq<char>);

pub open spec fn parts_key(kind: Seq<char>, key: Seq<char>, id: Seq<char>) -> ReminderKey {
    (trim(kind), trim(key), trim(id))
}

pub open spec fn draft_key(d: ActorReminderDraftView) -> ReminderKey {
    parts_key(d.actor_kind, d.actor_key, d.reminder_id)
}

#[derive(PartialEq, Eq, Structural, Clone, Copy)]
pub enum ActorReminderRecordStatus {
    Scheduled,
    Cancelled,
    Fired,
}

/// A reminder as the index holds it.
pub struct ActorReminderRecord {
    pub reminder: ActorReminderDraft,
    pub scheduled_lsn: u64,
    pub scheduled_at_ms: u64,
    pub status: ActorReminderRecordStatus,
}

pub struct ActorReminderRecordView {
    pub reminder: ActorReminderDraftView,
    pub scheduled_lsn: u64,
    pub scheduled_at_ms: u64,
    pub status: ActorReminderRecordStatus,
}

impl View for ActorReminderRecord {
    type V = ActorReminderRecordView;

    open spec fn view(&self) -> ActorReminderRecordView {
        ActorReminderRecordView {
            reminder: self.reminder@,
            scheduled_lsn: self.scheduled_lsn,
            scheduled_at_ms: self.scheduled_at_ms,
            status: self.status,
        }
    }
}

impl ActorReminderRecord {
    pub fn duplicate(&self) -> (r: ActorReminderRecord)
        ensures
            r@ == self@,
    {
        ActorReminderRecord {
            reminder: self.reminder.duplicate(),
            scheduled_lsn: self.scheduled_lsn,
            scheduled_at_ms: self.scheduled_at_ms,
            status: self.status,
        }
    }
}

pub open spec fn rec_key(r: ActorReminderRecord) -> ReminderKey {
    draft_key(r.reminder@)
}

/// The index as a map from key to reminder record.
pub type ReminderMap = Map<ReminderKey, ActorReminderRecordView>;

/// `s` holds exactly the entries of `m`, each key once.
pub open spec fn entries_hold(s: Seq<ActorReminderRecord>, m: ReminderMap) -> bool {
    &&& forall|i: int, j: int| 0 <= i < j < s.len() ==> rec_key(#[trigger] s[i]) != rec_key(#[trigger] s[j])
    &&& forall|i: int| 0 <= i < s.len() ==> m.contains_key(rec_key(#[trigger] s[i])) && m[rec_key(s[i])] == s[i]@
    &&& forall|k: ReminderKey| m.contains_key(k) ==> exists|i: int| 0 <= i < s.len() && #[trigger] rec_key(s[i]) == k
}

/// The index of actor reminders.
pub struct ActorReminderIndex {
    entries: Vec<ActorReminderRecord>,
    map: Ghost<ReminderMap>,
}

impl View for ActorReminderIndex {
    type V = ReminderMap;

    closed spec fn view(&self) -> ReminderMap {
        self.map@
    }
}

pub struct KeyStrings {
    pub kind: String,
    pub key: String,
    pub id: String,
}

pub open spec fn key_strings_view(k: KeyStrings) -> ReminderKey {
    (k.kind@, k.key@, k.id@)
}

/// The index key of a reminder given by its parts: each part trimmed.
pub fn actor_reminder_index_key_from_parts(actor_kind: &str, actor_key: &str, reminder_id: &str) -> (k: KeyStrings)
    ensures
        key_strings_view(k) == parts_key(actor_kind@, actor_key@, reminder_id@),
{
    KeyStrings { kind: trim_string(actor_kind), key: trim_string(actor_key), id: trim_string(reminder_id) }
}

/// The index key of a scheduled reminder.
pub fn actor_reminder_index_key_from_draft(draft: &ActorReminderDraft) -> (k: KeyStrings)
    ensures
        key_strings_view(k) == draft_key(draft@),
{
    actor_reminder_index_key_from_parts(draft.actor_kind.as_str(), draft.actor_key.as_str(), draft.reminder_id.as_str())
}

/// A reminder as the actor kernel keeps it.
pub struct ActorReminderEntry {
    pub actor_id: ActorId,
    pub reminder_id: String,
    pub due_at_ms: u64,
}

/// The index key of a reminder of the actor kernel.
pub fn actor_reminder_index_key_from_entry(entry: &ActorReminderEntry) -> (k: KeyStrings)
    ensures
        key_strings_view(k) == parts_key(actor_kind_name(entry.actor_id.kind), entry.actor_id.key@, entry.reminder_id@),
{
    let kind = entry.actor_id.kind.as_str();
    actor_reminder_index_key_from_parts(kind.as_str(), entry.actor_id.key.as_str(), entry.reminder_id.as_str())
}

fn same_str(a: &String, b: &String) -> (r: bool)
    ensures
        r == (a@ == b@),
{
    let x = chars_of(a.as_str());
    let y = chars_of(b.as_str());
    chars_eq(x.as_slice(), y.as_slice())
}

fn key_matches(r: &ActorReminderRecord, k: &KeyStrings) -> (b: bool)
    ensures
        b == (rec_key(*r) == key_strings_view(*k)),
{
    let rk = actor_reminder_index_key_from_draft(&r.reminder);
    same_str(&rk.kind, &k.kind) && same_str(&rk.key, &k.key) && same_str(&rk.id, &k.id)
}

impl ActorReminderIndex {
    pub closed spec fn wf(&self) -> bool {
        entries_hold(self.entries@, self.map@)
    }

    /// An empty index.
    pub fn new() -> (r: ActorReminderIndex)
        ensures
            r.wf(),
            r@ == Map::<ReminderKey, ActorReminderRecordView>::empty(),
    {
        ActorReminderIndex { entries: Vec::new(), map: Ghost(Map::empty()) }
    }

    fn find(&self, k: &KeyStrings) -> (r: Option<usize>)
        requires
            self.wf(),
        ensures
            match r {
                Some(i) => i < self.entries@.len() && rec_key(self.entries@[i as int]) == key_strings_view(*k),
                None => !self@.contains_key(key_strings_view(*k)),
            },
    {
        let mut i: usize = 0;
        while i < self.entries.len()
            invariant
                i <= self.entries@.len(),
                forall|j: int| 0 <= j < i ==> rec_key(#[trigger] self.entries@[j]) != key_strings_view(*k),
            decreases self.entries@.len() - i,
        {
            if key_matches(&self.entries[i], k) {
                return Some(i);
            }
            i = i + 1;
        }
        None
    }

    /// The record of key `k`, if the index holds one.
    pub fn get(&self, k: &KeyStrings) -> (r: Option<&ActorReminderRecord>)
        requires
            self.wf(),
        ensures
            match r {
                Some(rec) => self@.contains_key(key_strings_view(*k)) && self@[key_strings_view(*k)] == rec@,
                None => !self@.contains_key(key_strings_view(*k)),
            },
    {
        match self.find(k) {
            Some(i) => Some(&self.entries[i]),
            None => None,
        }
    }

    /// Puts `rec` under its key, in place of any record there.
    pub fn insert(&mut self, rec: ActorReminderRecord)
        requires
            old(self).wf(),
        ensures
            final(self).wf(),
            final(self)@ == old(self)@.insert(rec_key(rec), rec@),
    {
        let k = actor_reminder_index_key_from_draft(&rec.reminder);
        let ghost key = rec_key(rec);
        let ghost s = self.entries@;
        let ghost m = self.map@;
        let ghost m2 = m.insert(key, rec@);
        match self.find(&k) {
            Some(i) => {
                self.entries.set(i, rec);
                self.map = Ghost(m2);
                proof {
                    let t = self.entries@;
                    assert forall|a: int, b: int| 0 <= a < b < t.len() implies rec_key(#[trigger] t[a]) != rec_key(#[trigger] t[b]) by {
                        assert(rec_key(s[a]) != rec_key(s[b]));
                    }
                    assert forall|j: int| 0 <= j < t.len() implies m2.contains_key(rec_key(#[trigger] t[j])) && m2[rec_key(t[j])] == t[j]@ by {
                        if j != i {
                            assert(rec_key(s[j]) != rec_key(s[i as int]));
                        }
                    }
                    assert forall|kk: ReminderKey| m2.contains_key(kk) implies exists|j: int| 0 <= j < t.len() && #[trigger] rec_key(t[j]) == kk by {
                        if kk == key {
                            assert(rec_key(t[i as int]) == kk);
                        } else {
                            let j = choose|j: int| 0 <= j < s.len() && #[trigger] rec_key(s[j]) == kk;
                            assert(rec_key(t[j]) == kk);
                        }
                    }
                }
            },
            None => {
                self.entries.push(rec);
                self.map = Ghost(m2);
                proof {
                    let t = self.entries@;
                    let n = s.len() as int;
                    assert forall|a: int, b: int| 0 <= a < b < t.len() implies rec_key(#[trigger] t[a]) != rec_key(#[trigger] t[b]) by {
                        if b == n {
                            assert(m.contains_key(rec_key(s[a])));
                        } else {
                            assert(rec_key(s[a]) != rec_key(s[b]));
                        }
                    }
                    assert forall|j: int| 0 <= j < t.len() implies m2.contains_key(rec_key(#[trigger] t[j])) && m2[rec_key(t[j])] == t[j]@ by {
                        if j < n {
                            assert(m.contains_key(rec_key(s[j])));
                            assert(rec_key(s[j]) != key);
                        }
                    }
                    assert forall|kk: ReminderKey| m2.contains_key(kk) implies exists|j: int| 0 <= j < t.len() && #[trigger] rec_key(t[j]) == kk by {
                        if kk == key {
                            assert(rec_key(t[n]) == kk);
                        } else {
                            let j = choose|j: int| 0 <= j < s.len() && #[trigger] rec_key(s[j]) == kk;
                            assert(rec_key(t[j]) == kk);
                        }
                    }
                }
            },
        }
    }

    /// Sets the status of the record of key `k`, if the index holds one.
    pub fn set_status(&mut self, k: &KeyStrings, status: ActorReminderRecordStatus)
        requires
            old(self).wf(),
        ensures
            final(self).wf(),
            final(self)@ == with_status(old(self)@, key_strings_view(*k), status),
    {
        match self.find(k) {
            Some(i) => {
                let ghost s = self.entries@;
                let ghost m = self.map@;
                let ghost key = key_strings_view(*k);
                let mut rec = self.entries[i].duplicate();
                rec.status = status;
                assert(rec_key(rec) == key);
                assert(m.contains_key(key) && m[key] == s[i as int]@);
                self.insert(rec);
                assert(self@ =~= with_status(m, key, status));
            },
            None => {
                assert(self@ =~= with_status(self@, key_strings_view(*k), status));
            },
        }
    }
}

/// `m` with the status of key `k` set to `status`, where `m` holds `k`.
pub open spec fn with_status(m: ReminderMap, k: ReminderKey, status: ActorReminderRecordStatus) -> ReminderMap {
    if m.contains_key(k) {
        m.insert(k, ActorReminderRecordView { status, ..m[k] })
    } else {
        m
    }
}

/// The index after one log entry: a schedule puts a fresh record under its key,
/// a cancellation or a firing marks the record it names.
pub open spec fn reminder_step(m: ReminderMap, w: WalRecord) -> ReminderMap {
    match w.payload {
        WalPayload::ActorReminderScheduled { reminder } => m.insert(
            draft_key(reminder@),
            ActorReminderRecordView {
                reminder: reminder@,
                scheduled_lsn: w.lsn,
                scheduled_at_ms: w.timestamp_ms,
                status: ActorReminderRecordStatus::Scheduled,
            },
        ),
        WalPayload::ActorReminderCancelled { actor_kind, actor_key, reminder_id, .. } => with_status(
            m,
            parts_key(actor_kind@, actor_key@, reminder_id@),
            ActorReminderRecordStatus::Cancelled,
        ),
        WalPayload::ActorReminderFired { actor_kind, actor_key, reminder_id, .. } => with_status(
            m,
            parts_key(actor_kind@, actor_key@, reminder_id@),
            ActorReminderRecordStatus::Fired,
        ),
        _ => m,
    }
}

/// The index after replaying `log` in the order given.
pub open spec fn reminder_replay(log: Seq<WalRecord>) -> ReminderMap
    decreases log.len(),
{
    if log.len() == 0 {
        Map::empty()
    } else {
        reminder_step(reminder_replay(log.drop_last()), log.last())
    }
}

/// `w` placed into `s` after every entry whose LSN is not greater than its own.
pub open spec fn insert_by_lsn(s: Seq<WalRecord>, w: WalRecord) -> Seq<WalRecord>
    decreases s.len(),
{
    if s.len() == 0 || s.last().lsn <= w.lsn {
        s.push(w)
    } else {
        insert_by_lsn(s.drop_last(), w).push(s.last())
    }
}

/// The log in LSN order; entries with one LSN keep the order they had (a
/// stable sort).
pub open spec fn sort_by_lsn(log: Seq<WalRecord>) -> Seq<WalRecord>
    decreases log.len(),
{
    if log.len() == 0 {
        Seq::empty()
    } else {
        insert_by_lsn(sort_by_lsn(log.drop_last()), log.last())
    }
}

proof fn lemma_insert_at(s: Seq<WalRecord>, w: WalRecord, p: int)
    requires
        0 <= p <= s.len(),
        p == 0 || s[p - 1].lsn <= w.lsn,
        forall|j: int| p <= j < s.len() ==> #[trigger] s[j].lsn > w.lsn,
    ensures
        insert_by_lsn(s, w) == s.take(p).push(w) + s.skip(p),
    decreases s.len(),
{
    if p == s.len() {
        assert(s.take(p) =~= s);
        assert(s.skip(p) =~= Seq::<WalRecord>::empty());
        assert(s.take(p).push(w) + s.skip(p) =~= s.push(w));
    } else {
        assert(s.last().lsn > w.lsn);
        let t = s.drop_last();
        lemma_insert_at(t, w, p);
        assert(t.take(p) =~= s.take(p));
        assert(s.take(p).push(w) + s.skip(p) =~= (t.take(p).push(w) + t.skip(p)).push(s.last()));
    }
}



/// No two entries of the log share an LSN.
pub open spec fn distinct_lsns(log: Seq<WalRecord>) -> bool {
    forall|i: int, j: int| 0 <= i < log.len() && 0 <= j < log.len() && i != j ==> log[i].lsn != log[j].lsn
}

/// The entries' LSNs do not decrease.
pub open spec fn lsn_sorted(s: Seq<WalRecord>) -> bool {
    forall|i: int, j: int| 0 <= i < j < s.len() ==> s[i].lsn <= s[j].lsn
}

/// The entries' LSNs increase.
pub open spec fn lsn_increasing(s: Seq<WalRecord>) -> bool {
    forall|i: int, j: int| 0 <= i < j < s.len() ==> s[i].lsn < s[j].lsn
}

/// Two entries of the log with one LSN are one entry.
pub open spec fn lsn_determines(s: Seq<WalRecord>) -> bool {
    forall|v1: WalRecord, v2: WalRecord| s.contains(v1) && s.contains(v2) && v1.lsn == v2.lsn ==> v1 == v2
}

proof fn lemma_push_contains(s: Seq<WalRecord>, x: WalRecord)
    ensures
        forall|v: WalRecord| s.push(x).contains(v) <==> (s.contains(v) || v == x),
{
    let r = s.push(x);
    assert forall|v: WalRecord| r.contains(v) <==> (s.contains(v) || v == x) by {
        if r.contains(v) {
            let k = choose|k: int| 0 <= k < r.len() && r[k] == v;
            if k < s.len() {
                assert(s[k] == v);
            }
        }
        if s.contains(v) {
            let k = choose|k: int| 0 <= k < s.len() && s[k] == v;
            assert(r[k] == v);
        }
        if v == x {
            assert(r[s.len() as int] == x);
        }
    }
}

proof fn lemma_insert_by_lsn_contains(s: Seq<WalRecord>, w: WalRecord)
    ensures
        insert_by_lsn(s, w).len() == s.len() + 1,
        forall|v: WalRecord| insert_by_lsn(s, w).contains(v) <==> (s.contains(v) || v == w),
    decreases s.len(),
{
    lemma_push_contains(s, w);
    if s.len() > 0 && s.last().lsn > w.lsn {
        let t = s.drop_last();
        lemma_insert_by_lsn_contains(t, w);
        lemma_push_contains(insert_by_lsn(t, w), s.last());
        lemma_push_contains(t, s.last());
        assert(t.push(s.last()) =~= s);
        let r0 = insert_by_lsn(t, w);
        assert(insert_by_lsn(s, w) == r0.push(s.last()));
        assert forall|v: WalRecord| insert_by_lsn(s, w).contains(v) <==> (s.contains(v) || v == w) by {
            assert(r0.push(s.last()).contains(v) <==> (r0.contains(v) || v == s.last()));
            assert(r0.contains(v) <==> (t.contains(v) || v == w));
            assert(t.push(s.last()).contains(v) <==> (t.contains(v) || v == s.last()));
        }
    }
}

proof fn lemma_insert_by_lsn_sorted(s: Seq<WalRecord>, w: WalRecord)
    requires
        lsn_sorted(s),
    ensures
        lsn_sorted(insert_by_lsn(s, w)),
    decreases s.len(),
{
    if s.len() == 0 || s.last().lsn <= w.lsn {
        let r = s.push(w);
        assert forall|i: int, j: int| 0 <= i < j < r.len() implies r[i].lsn <= r[j].lsn by {
            if j == s.len() {
                assert(s[i].lsn <= s.last().lsn);
            }
        }
    } else {
        let t = s.drop_last();
        lemma_insert_by_lsn_sorted(t, w);
        lemma_insert_by_lsn_contains(t, w);
        let r0 = insert_by_lsn(t, w);
        let r = r0.push(s.last());
        assert forall|i: int, j: int| 0 <= i < j < r.len() implies r[i].lsn <= r[j].lsn by {
            if j == r0.len() {
                assert(r0.contains(r0[i]));
                if t.contains(r0[i]) {
                    let k = choose|k: int| 0 <= k < t.len() && t[k] == r0[i];
                    assert(s[k] == t[k]);
                    assert(s[k].lsn <= s[s.len() - 1].lsn);
                }
            }
        }
    }
}

proof fn lemma_insert_by_lsn_no_duplicates(s: Seq<WalRecord>, w: WalRecord)
    requires
        s.no_duplicates(),
        !s.contains(w),
    ensures
        insert_by_lsn(s, w).no_duplicates(),
    decreases s.len(),
{
    if s.len() == 0 || s.last().lsn <= w.lsn {
        let r = s.push(w);
        assert forall|i: int, j: int| 0 <= i < r.len() && 0 <= j < r.len() && i != j implies r[i] != r[j] by {
            if i == s.len() {
                assert(s.contains(r[j]));
            } else if j == s.len() {
                assert(s.contains(r[i]));
            }
        }
    } else {
        let t = s.drop_last();
        assert forall|i: int, j: int| 0 <= i < t.len() && 0 <= j < t.len() && i != j implies t[i] != t[j] by {
            assert(s[i] == t[i] && s[j] == t[j]);
        }
        assert(!t.contains(w)) by {
            if t.contains(w) {
                let k = choose|k: int| 0 <= k < t.len() && t[k] == w;
                assert(s[k] == w);
            }
        }
        lemma_insert_by_lsn_no_duplicates(t, w);
        lemma_insert_by_lsn_contains(t, w);
        let r0 = insert_by_lsn(t, w);
        let x = s.last();
        assert(!t.contains(x)) by {
            if t.contains(x) {
                let k = choose|k: int| 0 <= k < t.len() && t[k] == x;
                assert(s[k] == s[s.len() - 1]);
            }
        }
        assert(x != w) by {
            assert(s[s.len() - 1] == x);
        }
        let r = r0.push(x);
        assert forall|i: int, j: int| 0 <= i < r.len() && 0 <= j < r.len() && i != j implies r[i] != r[j] by {
            if i == r0.len() {
                assert(r0.contains(r[j]));
            } else if j == r0.len() {
                assert(r0.contains(r[i]));
            }
        }
    }
}

proof fn lemma_sort_by_lsn_facts(s: Seq<WalRecord>)
    ensures
        sort_by_lsn(s).len() == s.len(),
        forall|v: WalRecord| sort_by_lsn(s).contains(v) <==> s.contains(v),
        lsn_sorted(sort_by_lsn(s)),
        s.no_duplicates() ==> sort_by_lsn(s).no_duplicates(),
    decreases s.len(),
{
    if s.len() > 0 {
        let t = s.drop_last();
        lemma_sort_by_lsn_facts(t);
        lemma_insert_by_lsn_contains(sort_by_lsn(t), s.last());
        lemma_insert_by_lsn_sorted(sort_by_lsn(t), s.last());
        lemma_push_contains(t, s.last());
        assert(t.push(s.last()) =~= s);
        let st = sort_by_lsn(t);
        assert(sort_by_lsn(s) == insert_by_lsn(st, s.last()));
        assert forall|v: WalRecord| sort_by_lsn(s).contains(v) <==> s.contains(v) by {
            assert(insert_by_lsn(st, s.last()).contains(v) <==> (st.contains(v) || v == s.last()));
            assert(st.contains(v) <==> t.contains(v));
            assert(t.push(s.last()).contains(v) <==> (t.contains(v) || v == s.last()));
        }
        if s.no_duplicates() {
            assert forall|i: int, j: int| 0 <= i < t.len() && 0 <= j < t.len() && i != j implies t[i] != t[j] by {
                assert(s[i] == t[i] && s[j] == t[j]);
            }
            assert(!t.contains(s.last())) by {
                if t.contains(s.last()) {
                    let k = choose|k: int| 0 <= k < t.len() && t[k] == s.last();
                    assert(s[k] == s[s.len() - 1]);
                }
            }
            lemma_insert_by_lsn_no_duplicates(sort_by_lsn(t), s.last());
        }
    }
}

proof fn lemma_sorted_is_increasing(x: Seq<WalRecord>)
    requires
        lsn_sorted(x),
        x.no_duplicates(),
        lsn_determines(x),
    ensures
        lsn_increasing(x),
{
    assert forall|i: int, j: int| 0 <= i < j < x.len() implies x[i].lsn < x[j].lsn by {
        assert(x.contains(x[i]) && x.contains(x[j]));
        assert(x[i] != x[j]);
    }
}

proof fn lemma_increasing_unique(x: Seq<WalRecord>, y: Seq<WalRecord>)
    requires
        lsn_increasing(x),
        lsn_increasing(y),
        forall|v: WalRecord| x.contains(v) <==> y.contains(v),
    ensures
        x == y,
    decreases x.len() + y.len(),
{
    if x.len() == 0 {
        if y.len() > 0 {
            assert(y.contains(y[0]));
        }
        assert(x =~= y);
    } else if y.len() == 0 {
        assert(x.contains(x[0]));
    } else {
        let a = x.last();
        let b = y.last();
        assert(x.contains(a)) by {
            assert(x[x.len() - 1] == a);
        }
        assert(y.contains(b)) by {
            assert(y[y.len() - 1] == b);
        }
        let ka = choose|k: int| 0 <= k < y.len() && y[k] == a;
        let kb = choose|k: int| 0 <= k < x.len() && x[k] == b;
        assert(a.lsn <= b.lsn) by {
            if ka < y.len() - 1 {
                assert(y[ka].lsn < y[y.len() - 1].lsn);
            }
        }
        assert(b.lsn <= a.lsn) by {
            if kb < x.len() - 1 {
                assert(x[kb].lsn < x[x.len() - 1].lsn);
            }
        }
        assert(ka == y.len() - 1) by {
            if ka < y.len() - 1 {
                assert(y[ka].lsn < y[y.len() - 1].lsn);
            }
        }
        assert(a == b);
        let x1 = x.drop_last();
        let y1 = y.drop_last();
        assert forall|v: WalRecord| x1.contains(v) <==> y1.contains(v) by {
            if x1.contains(v) {
                let k = choose|k: int| 0 <= k < x1.len() && x1[k] == v;
                assert(x[k] == v);
                assert(x.contains(v));
                let k2 = choose|k2: int| 0 <= k2 < y.len() && y[k2] == v;
                assert(v.lsn < a.lsn) by {
                    assert(x[k].lsn < x[x.len() - 1].lsn);
                }
                if k2 == y.len() - 1 {
                    assert(v == b);
                }
                assert(y1[k2] == v);
            }
            if y1.contains(v) {
                let k = choose|k: int| 0 <= k < y1.len() && y1[k] == v;
                assert(y[k] == v);
                assert(y.contains(v));
                let k2 = choose|k2: int| 0 <= k2 < x.len() && x[k2] == v;
                assert(v.lsn < b.lsn) by {
                    assert(y[k].lsn < y[y.len() - 1].lsn);
                }
                if k2 == x.len() - 1 {
                    assert(v == a);
                }
                assert(x1[k2] == v);
            }
        }
        lemma_increasing_unique(x1, y1);
        assert(x =~= x1.push(a));
        assert(y =~= y1.push(b));
    }
}

/// The reminder index does not depend on the order in which the log's
/// entries come: any two orders of one log whose entries have distinct LSNs
/// give the same index.
pub proof fn reminder_index_is_the_same_in_every_order(log: Seq<WalRecord>, reordered: Seq<WalRecord>)
    requires
        distinct_lsns(log),
        reordered.to_multiset() == log.to_multiset(),
    ensures
        reminder_replay(sort_by_lsn(reordered)) == reminder_replay(sort_by_lsn(log)),
{
    log.to_multiset_ensures();
    reordered.to_multiset_ensures();
    assert forall|v: WalRecord| reordered.contains(v) <==> log.contains(v) by {
        assert(reordered.contains(v) <==> reordered.to_multiset().count(v) > 0);
        assert(log.contains(v) <==> log.to_multiset().count(v) > 0);
    }
    assert(log.no_duplicates()) by {
        assert forall|i: int, j: int| 0 <= i < log.len() && 0 <= j < log.len() && i != j implies log[i] != log[j] by {
            assert(log[i].lsn != log[j].lsn);
        }
    }
    log.lemma_multiset_has_no_duplicates();
    reordered.lemma_multiset_has_no_duplicates_conv();
    assert(lsn_determines(log)) by {
        assert forall|v1: WalRecord, v2: WalRecord|
            log.contains(v1) && log.contains(v2) && v1.lsn == v2.lsn implies v1 == v2 by {
            let i = choose|i: int| 0 <= i < log.len() && log[i] == v1;
            let j = choose|j: int| 0 <= j < log.len() && log[j] == v2;
            if i != j {
                assert(log[i].lsn != log[j].lsn);
            }
        }
    }
    let x = sort_by_lsn(log);
    let y = sort_by_lsn(reordered);
    lemma_sort_by_lsn_facts(log);
    lemma_sort_by_lsn_facts(reordered);
    assert(lsn_determines(x)) by {
        assert forall|v1: WalRecord, v2: WalRecord|
            x.contains(v1) && x.contains(v2) && v1.lsn == v2.lsn implies v1 == v2 by {
            assert(log.contains(v1) && log.contains(v2));
        }
    }
    assert(lsn_determines(y)) by {
        assert forall|v1: WalRecord, v2: WalRecord|
            y.contains(v1) && y.contains(v2) && v1.lsn == v2.lsn implies v1 == v2 by {
            assert(reordered.contains(v1) && reordered.contains(v2));
            assert(log.contains(v1) && log.contains(v2));
        }
    }
    assert forall|v: WalRecord| x.contains(v) <==> y.contains(v) by {
        assert(x.contains(v) <==> log.contains(v));
        assert(y.contains(v) <==> reordered.contains(v));
        assert(reordered.contains(v) <==> log.contains(v));
    }
    lemma_sorted_is_increasing(x);
    lemma_sorted_is_increasing(y);
    lemma_increasing_unique(x, y);
}

/// `w` schedules a reminder under key `k`.
pub open spec fn schedules(w: WalRecord, k: ReminderKey) -> bool {
    match w.payload {
        WalPayload::ActorReminderScheduled { reminder } => draft_key(reminder@) == k,
        _ => false,
    }
}

/// `w` cancels or fires the reminder under key `k`.
pub open spec fn marks(w: WalRecord, k: ReminderKey) -> bool {
    match w.payload {
        WalPayload::ActorReminderCancelled { actor_kind, actor_key, reminder_id, .. } =>
            parts_key(actor_kind@, actor_key@, reminder_id@) == k,
        WalPayload::ActorReminderFired { actor_kind, actor_key, reminder_id, .. } =>
            parts_key(actor_kind@, actor_key@, reminder_id@) == k,
        _ => false,
    }
}

/// The status that a cancellation or a firing gives.
pub open spec fn mark_status(w: WalRecord) -> ActorReminderRecordStatus {
    match w.payload {
        WalPayload::ActorReminderCancelled { .. } => ActorReminderRecordStatus::Cancelled,
        _ => ActorReminderRecordStatus::Fired,
    }
}

/// The record that a schedule entry puts into the index.
pub open spec fn scheduled_record(w: WalRecord) -> ActorReminderRecordView {
    match w.payload {
        WalPayload::ActorReminderScheduled { reminder } => ActorReminderRecordView {
            reminder: reminder@,
            scheduled_lsn: w.lsn,
            scheduled_at_ms: w.timestamp_ms,
            status: ActorReminderRecordStatus::Scheduled,
        },
        _ => arbitrary(),
    }
}

/// Entry `i` of `s` is the last that schedules key `k`.
pub open spec fn last_schedule(s: Seq<WalRecord>, k: ReminderKey, i: int) -> bool {
    &&& 0 <= i < s.len()
    &&& schedules(s[i], k)
    &&& forall|j: int| i < j < s.len() ==> !#[trigger] schedules(s[j], k)
}

/// Entry `j` of `s` is the last that cancels or fires key `k`.
pub open spec fn last_mark(s: Seq<WalRecord>, k: ReminderKey, j: int) -> bool {
    &&& 0 <= j < s.len()
    &&& marks(s[j], k)
    &&& forall|l: int| j < l < s.len() ==> !#[trigger] marks(s[l], k)
}

/// No entry of `s` after entry `i` cancels or fires key `k`.
pub open spec fn unmarked_after(s: Seq<WalRecord>, k: ReminderKey, i: int) -> bool {
    forall|j: int| i < j < s.len() ==> !#[trigger] marks(s[j], k)
}

/// The record `r` is the one that the schedule at entry `i` of `s` gives,
/// with the status of the last cancellation or firing after it.
pub open spec fn record_from(s: Seq<WalRecord>, k: ReminderKey, i: int, r: ActorReminderRecordView) -> bool {
    &&& r.reminder == scheduled_record(s[i]).reminder
    &&& r.scheduled_lsn == s[i].lsn
    &&& r.scheduled_at_ms == s[i].timestamp_ms
    &&& unmarked_after(s, k, i) ==> r.status == ActorReminderRecordStatus::Scheduled
    &&& forall|j: int| i < j && #[trigger] last_mark(s, k, j) ==> r.status == mark_status(s[j])
}

/// Replaying `s` holds key `k` exactly when some entry schedules it.
proof fn lemma_replay_contains(s: Seq<WalRecord>, k: ReminderKey)
    ensures
        reminder_replay(s).contains_key(k) <==> exists|i: int| 0 <= i < s.len() && #[trigger] schedules(s[i], k),
    decreases s.len(),
{
    if s.len() > 0 {
        let t = s.drop_last();
        let n = s.len() - 1;
        lemma_replay_contains(t, k);
        if exists|i: int| 0 <= i < t.len() && #[trigger] schedules(t[i], k) {
            let i = choose|i: int| 0 <= i < t.len() && #[trigger] schedules(t[i], k);
            assert(schedules(s[i], k));
        }
        if !schedules(s[n], k) {
            if exists|i: int| 0 <= i < s.len() && #[trigger] schedules(s[i], k) {
                let i = choose|i: int| 0 <= i < s.len() && #[trigger] schedules(s[i], k);
                assert(schedules(t[i], k));
            }
        }
    }
}

/// Replaying `s` gives key `k` the record of its last schedule, with the
/// status of the last cancellation or firing after it.
proof fn lemma_replay_value(s: Seq<WalRecord>, k: ReminderKey, i: int)
    requires
        last_schedule(s, k, i),
    ensures
        reminder_replay(s).contains_key(k),
        record_from(s, k, i, reminder_replay(s)[k]),
    decreases s.len(),
{
    let t = s.drop_last();
    let n = s.len() - 1;
    let w = s[n];
    if i == n {
        assert(reminder_replay(s)[k] == scheduled_record(w));
        assert(unmarked_after(s, k, i));
    } else {
        assert(!schedules(s[n], k));
        assert(last_schedule(t, k, i)) by {
            assert forall|j: int| i < j < t.len() implies !#[trigger] schedules(t[j], k) by {
                assert(t[j] == s[j]);
            }
        }
        lemma_replay_value(t, k, i);
        let r = reminder_replay(t)[k];
        assert(t[i] == s[i]);
        if marks(w, k) {
            assert(reminder_replay(s) == with_status(reminder_replay(t), k, mark_status(w)));
            assert(!unmarked_after(s, k, i)) by {
                assert(marks(s[n], k));
            }
            assert forall|j: int| i < j && #[trigger] last_mark(s, k, j) implies reminder_replay(s)[k].status == mark_status(s[j]) by {
                if j < n {
                    assert(!marks(s[n], k));
                }
            }
        } else {
            assert(reminder_replay(s)[k] == r);
            assert(unmarked_after(s, k, i) ==> unmarked_after(t, k, i)) by {
                if unmarked_after(s, k, i) {
                    assert forall|j: int| i < j < t.len() implies !#[trigger] marks(t[j], k) by {
                        assert(t[j] == s[j]);
                        assert(!marks(s[j], k));
                    }
                }
            }
            assert forall|j: int| i < j && #[trigger] last_mark(s, k, j) implies r.status == mark_status(s[j]) by {
                assert(j < n);
                assert(t[j] == s[j]);
                assert(last_mark(t, k, j)) by {
                    assert forall|l: int| j < l < t.len() implies !#[trigger] marks(t[l], k) by {
                        assert(t[l] == s[l]);
                        assert(!marks(s[l], k));
                    }
                }
            }
        }
    }
}

/// Entry `i` of `log` is a schedule of key `k` with the highest LSN among them.
pub open spec fn highest_schedule(log: Seq<WalRecord>, k: ReminderKey, i: int) -> bool {
    &&& 0 <= i < log.len()
    &&& schedules(log[i], k)
    &&& forall|j: int| 0 <= j < log.len() && #[trigger] schedules(log[j], k) ==> log[j].lsn <= log[i].lsn
}

/// Entry `j` of `log` is a cancellation or firing of key `k` with the highest
/// LSN among them.
pub open spec fn highest_mark(log: Seq<WalRecord>, k: ReminderKey, j: int) -> bool {
    &&& 0 <= j < log.len()
    &&& marks(log[j], k)
    &&& forall|l: int| 0 <= l < log.len() && #[trigger] marks(log[l], k) ==> log[l].lsn <= log[j].lsn
}

/// A log whose entries have distinct LSNs, sorted by LSN: the same entries, in
/// increasing LSN order.
proof fn lemma_sorted_log(log: Seq<WalRecord>)
    requires
        distinct_lsns(log),
    ensures
        forall|v: WalRecord| sort_by_lsn(log).contains(v) <==> log.contains(v),
        lsn_increasing(sort_by_lsn(log)),
{
    assert(log.no_duplicates()) by {
        assert forall|i: int, j: int| 0 <= i < log.len() && 0 <= j < log.len() && i != j implies log[i] != log[j] by {
            assert(log[i].lsn != log[j].lsn);
        }
    }
    let x = sort_by_lsn(log);
    lemma_sort_by_lsn_facts(log);
    assert(lsn_determines(x)) by {
        assert forall|v1: WalRecord, v2: WalRecord|
            x.contains(v1) && x.contains(v2) && v1.lsn == v2.lsn implies v1 == v2 by {
            assert(log.contains(v1) && log.contains(v2));
            let i = choose|i: int| 0 <= i < log.len() && log[i] == v1;
            let j = choose|j: int| 0 <= j < log.len() && log[j] == v2;
            if i != j {
                assert(log[i].lsn != log[j].lsn);
            }
        }
    }
    lemma_sorted_is_increasing(x);
}

/// For each reminder key the index that the log describes holds the schedule
/// with the highest LSN: its reminder, LSN and time. It is Cancelled or Fired
/// when the last cancellation or firing of the key has a higher LSN than that
/// schedule, and Scheduled when every one has a lower LSN. A key is there
/// exactly when some entry schedules it (keys are the trimmed actor kind,
/// actor key and reminder id). This holds of a log whose entries have distinct
/// LSNs.
pub proof fn reminder_index_holds_the_latest_schedule_of_each_key(log: Seq<WalRecord>, k: ReminderKey)
    requires
        distinct_lsns(log),
    ensures
        reminder_replay(sort_by_lsn(log)).contains_key(k)
            <==> exists|i: int| 0 <= i < log.len() && #[trigger] schedules(log[i], k),
        forall|i: int| #[trigger] highest_schedule(log, k, i) ==> {
            let r = reminder_replay(sort_by_lsn(log))[k];
            &&& r.reminder == scheduled_record(log[i]).reminder
            &&& r.scheduled_lsn == log[i].lsn
            &&& r.scheduled_at_ms == log[i].timestamp_ms
            &&& (forall|j: int| 0 <= j < log.len() && #[trigger] marks(log[j], k) ==> log[j].lsn < log[i].lsn)
                ==> r.status == ActorReminderRecordStatus::Scheduled
            &&& forall|j: int| #[trigger] highest_mark(log, k, j) && log[j].lsn > log[i].lsn
                ==> r.status == mark_status(log[j])
        },
{
    let x = sort_by_lsn(log);
    lemma_sorted_log(log);
    lemma_replay_contains(x, k);
    assert((exists|i: int| 0 <= i < x.len() && #[trigger] schedules(x[i], k))
        <==> (exists|i: int| 0 <= i < log.len() && #[trigger] schedules(log[i], k))) by {
        if exists|i: int| 0 <= i < x.len() && #[trigger] schedules(x[i], k) {
            let i = choose|i: int| 0 <= i < x.len() && #[trigger] schedules(x[i], k);
            assert(x.contains(x[i]));
            assert(log.contains(x[i]));
            let j = choose|j: int| 0 <= j < log.len() && log[j] == x[i];
            assert(schedules(log[j], k));
        }
        if exists|i: int| 0 <= i < log.len() && #[trigger] schedules(log[i], k) {
            let i = choose|i: int| 0 <= i < log.len() && #[trigger] schedules(log[i], k);
            assert(log.contains(log[i]));
            let j = choose|j: int| 0 <= j < x.len() && x[j] == log[i];
            assert(schedules(x[j], k));
        }
    }
    assert forall|i: int| #[trigger] highest_schedule(log, k, i) implies {
        let r = reminder_replay(x)[k];
        &&& r.reminder == scheduled_record(log[i]).reminder
        &&& r.scheduled_lsn == log[i].lsn
        &&& r.scheduled_at_ms == log[i].timestamp_ms
        &&& (forall|j: int| 0 <= j < log.len() && #[trigger] marks(log[j], k) ==> log[j].lsn < log[i].lsn)
            ==> r.status == ActorReminderRecordStatus::Scheduled
        &&& forall|j: int| #[trigger] highest_mark(log, k, j) && log[j].lsn > log[i].lsn
            ==> r.status == mark_status(log[j])
    } by {
        lemma_schedule_in_sorted(log, k, i);
    }
}

/// The transfer of one highest schedule of the log to its place in the sorted log.
proof fn lemma_schedule_in_sorted(log: Seq<WalRecord>, k: ReminderKey, i: int)
    requires
        distinct_lsns(log),
        highest_schedule(log, k, i),
    ensures
        ({
            let r = reminder_replay(sort_by_lsn(log))[k];
            &&& r.reminder == scheduled_record(log[i]).reminder
            &&& r.scheduled_lsn == log[i].lsn
            &&& r.scheduled_at_ms == log[i].timestamp_ms
            &&& (forall|j: int| 0 <= j < log.len() && #[trigger] marks(log[j], k) ==> log[j].lsn < log[i].lsn)
                ==> r.status == ActorReminderRecordStatus::Scheduled
            &&& forall|j: int| #[trigger] highest_mark(log, k, j) && log[j].lsn > log[i].lsn
                ==> r.status == mark_status(log[j])
        }),
{
    let x = sort_by_lsn(log);
    lemma_sorted_log(log);
    let w = log[i];
    assert(log.contains(w));
    assert(x.contains(w));
    let p = choose|p: int| 0 <= p < x.len() && x[p] == w;
    assert(last_schedule(x, k, p)) by {
        assert forall|q: int| p < q < x.len() implies !#[trigger] schedules(x[q], k) by {
            if schedules(x[q], k) {
                assert(x.contains(x[q]));
                assert(log.contains(x[q]));
                let j = choose|j: int| 0 <= j < log.len() && log[j] == x[q];
                assert(schedules(log[j], k));
                assert(x[p].lsn < x[q].lsn);
            }
        }
    }
    lemma_replay_value(x, k, p);
    let r = reminder_replay(x)[k];
    if forall|j: int| 0 <= j < log.len() && #[trigger] marks(log[j], k) ==> log[j].lsn < log[i].lsn {
        assert(unmarked_after(x, k, p)) by {
            assert forall|q: int| p < q < x.len() implies !#[trigger] marks(x[q], k) by {
                if marks(x[q], k) {
                    assert(x.contains(x[q]));
                    assert(log.contains(x[q]));
                    let j = choose|j: int| 0 <= j < log.len() && log[j] == x[q];
                    assert(marks(log[j], k));
                    assert(x[p].lsn < x[q].lsn);
                }
            }
        }
    }
    assert forall|j: int| #[trigger] highest_mark(log, k, j) && log[j].lsn > log[i].lsn
        implies r.status == mark_status(log[j]) by {
        let v = log[j];
        assert(log.contains(v));
        assert(x.contains(v));
        let q = choose|q: int| 0 <= q < x.len() && x[q] == v;
        if q <= p {
            if q < p {
                assert(x[q].lsn < x[p].lsn);
            }
        }
        assert(p < q);
        assert(last_mark(x, k, q)) by {
            assert forall|l: int| q < l < x.len() implies !#[trigger] marks(x[l], k) by {
                if marks(x[l], k) {
                    assert(x.contains(x[l]));
                    assert(log.contains(x[l]));
                    let m = choose|m: int| 0 <= m < log.len() && log[m] == x[l];
                    assert(marks(log[m], k));
                    assert(x[q].lsn < x[l].lsn);
                }
            }
        }
    }
}

/// The entries of `records` at the positions `order`.
pub open spec fn at_positions(records: Seq<WalRecord>, order: Seq<usize>) -> Seq<WalRecord> {
    order.map_values(|i: usize| records[i as int])
}

/// The positions of `records` in LSN order, a stable sort.
fn lsn_order(records: &Vec<WalRecord>) -> (order: Vec<usize>)
    ensures
        forall|i: int| 0 <= i < order@.len() ==> order@[i] < records@.len(),
        at_positions(records@, order@) == sort_by_lsn(records@),
{
    let mut order: Vec<usize> = Vec::new();
    let mut k: usize = 0;
    assert(records@.take(0) =~= Seq::<WalRecord>::empty());
    assert(at_positions(records@, order@) =~= Seq::<WalRecord>::empty());
    while k < records.len()
        invariant
            k <= records@.len(),
            forall|i: int| 0 <= i < order@.len() ==> order@[i] < k,
            at_positions(records@, order@) == sort_by_lsn(records@.take(k as int)),
        decreases records@.len() - k,
    {
        let lsn = records[k].lsn;
        let ghost s = at_positions(records@, order@);
        let mut p: usize = order.len();
        while p > 0 && records[order[p - 1]].lsn > lsn
            invariant
                p <= order@.len(),
                s == at_positions(records@, order@),
                forall|i: int| 0 <= i < order@.len() ==> order@[i] < k,
                k < records@.len(),
                lsn == records@[k as int].lsn,
                forall|j: int| p <= j < s.len() ==> #[trigger] s[j].lsn > lsn,
            decreases p,
        {
            p = p - 1;
        }
        proof {
            lemma_insert_at(s, records@[k as int], p as int);
            assert(records@.take(k + 1).drop_last() =~= records@.take(k as int));
            assert(records@.take(k + 1).last() == records@[k as int]);
        }
        order.insert(p, k);
        proof {
            assert(at_positions(records@, order@) =~= s.take(p as int).push(records@[k as int]) + s.skip(p as int));
        }
        k = k + 1;
    }
    assert(records@.take(k as int) =~= records@);
    order
}

/// The reminder index that the log describes, replayed in LSN order.
pub fn actor_reminder_index_from_wal_records(wal_records: &Vec<WalRecord>) -> (index: ActorReminderIndex)
    ensures
        index.wf(),
        index@ == reminder_replay(sort_by_lsn(wal_records@)),
{
    let order = lsn_order(wal_records);
    let ghost sorted = sort_by_lsn(wal_records@);
    let mut index = ActorReminderIndex::new();
    let mut j: usize = 0;
    assert(sorted.take(0) =~= Seq::<WalRecord>::empty());
    while j < order.len()
        invariant
            j <= order@.len(),
            sorted == at_positions(wal_records@, order@),
            forall|i: int| 0 <= i < order@.len() ==> order@[i] < wal_records@.len(),
            index.wf(),
            index@ == reminder_replay(sorted.take(j as int)),
        decreases order@.len() - j,
    {
        let w = &wal_records[order[j]];
        proof {
            assert(sorted[j as int] == *w);
            assert(sorted.take(j + 1).drop_last() =~= sorted.take(j as int));
            assert(sorted.take(j + 1).last() == *w);
        }
        match &w.payload {
            WalPayload::ActorReminderScheduled { reminder } => {
                index.insert(ActorReminderRecord {
                    reminder: reminder.duplicate(),
                    scheduled_lsn: w.lsn,
                    scheduled_at_ms: w.timestamp_ms,
                    status: ActorReminderRecordStatus::Scheduled,
                });
            },
            WalPayload::ActorReminderCancelled { actor_kind, actor_key, reminder_id, .. } => {
                let k = actor_reminder_index_key_from_parts(actor_kind.as_str(), actor_key.as_str(), reminder_id.as_str());
                index.set_status(&k, ActorReminderRecordStatus::Cancelled);
            },
            WalPayload::ActorReminderFired { actor_kind, actor_key, reminder_id, .. } => {
                let k = actor_reminder_index_key_from_parts(actor_kind.as_str(), actor_key.as_str(), reminder_id.as_str());
                index.set_status(&k, ActorReminderRecordStatus::Fired);
            },
            _ => {},
        }
        j = j + 1;
    }
    assert(sorted.take(j as int) =~= sorted);
    index
}

/// Two drafts describe the same reminder: one actor, one id, one due time and
/// equal payloads.
pub open spec fn drafts_match(a: ActorReminderDraftView, b: ActorReminderDraftView) -> bool {
    &&& a.actor_kind == b.actor_kind
    &&& a.actor_key == b.actor_key
    &&& a.reminder_id == b.reminder_id
    &&& a.due_at_ms == b.due_at_ms
    &&& a.payload == b.payload
}

pub fn actor_reminder_draft_matches(existing: &ActorReminderDraft, reminder: &ActorReminderDraft) -> (b: bool)
    ensures
        b == drafts_match(existing@, reminder@),
{
    let payloads = match (&existing.payload, &reminder.payload) {
        (Some(x), Some(y)) => json_eq(x, y),
        (None, None) => true,
        _ => false,
    };
    same_str(&existing.actor_kind, &reminder.actor_kind) && same_str(&existing.actor_key, &reminder.actor_key)
        && same_str(&existing.reminder_id, &reminder.reminder_id) && existing.due_at_ms == reminder.due_at_ms
        && payloads
}

/// A reminder already scheduled under the same key: returned where it is the
/// same reminder, refused where the id was used for a different one.
pub fn existing_idempotent_actor_reminder(
    index: &ActorReminderIndex,
    reminder: &ActorReminderDraft,
) -> (r: Result<Option<ActorReminderRecord>, ApiError>)
    requires
        index.wf(),
    ensures
        match r {
            Ok(None) => !index@.contains_key(draft_key(reminder@)),
            Ok(Some(rec)) => index@.contains_key(draft_key(reminder@)) && index@[draft_key(reminder@)] == rec@
                && drafts_match(rec.reminder@, reminder@),
            Err(e) => {
                &&& index@.contains_key(draft_key(reminder@))
                &&& !drafts_match(index@[draft_key(reminder@)].reminder, reminder@)
                &&& e.kind == ApiErrorKind::BadRequest
                &&& e.message@ == "scheduleActorReminder reminderId was already used for a different reminder"@
            },
        },
{
    let k = actor_reminder_index_key_from_draft(reminder);
    match index.get(&k) {
        None => Ok(None),
        Some(existing) => {
            if !actor_reminder_draft_matches(&existing.reminder, reminder) {
                return Err(ApiError::bad_request(owned(
                    "scheduleActorReminder reminderId was already used for a different reminder",
                )));
            }
            Ok(Some(existing.duplicate()))
        },
    }
}

/// Notes a scheduled reminder in the index.
pub fn record_actor_reminder_scheduled(
    index: &mut ActorReminderIndex,
    reminder: &ActorReminderDraft,
    scheduled_lsn: u64,
    scheduled_at_ms: u64,
)
    requires
        old(index).wf(),
    ensures
        final(index).wf(),
        final(index)@ == old(index)@.insert(
            draft_key(reminder@),
            ActorReminderRecordView {
                reminder: reminder@,
                scheduled_lsn,
                scheduled_at_ms,
                status: ActorReminderRecordStatus::Scheduled,
            },
        ),
{
    index.insert(ActorReminderRecord {
        reminder: reminder.duplicate(),
        scheduled_lsn,
        scheduled_at_ms,
        status: ActorReminderRecordStatus::Scheduled,
    });
}

/// Marks a reminder of `actor_id` cancelled, where the index holds it.
pub fn record_actor_reminder_cancelled(index: &mut ActorReminderIndex, actor_id: &ActorId, reminder_id: &str)
    requires
        old(index).wf(),
    ensures
        final(index).wf(),
        final(index)@ == with_status(
            old(index)@,
            parts_key(actor_kind_name(actor_id.kind), actor_id.key@, reminder_id@),
            ActorReminderRecordStatus::Cancelled,
        ),
{
    let kind = actor_id.kind.as_str();
    let k = actor_reminder_index_key_from_parts(kind.as_str(), actor_id.key.as_str(), reminder_id);
    index.set_status(&k, ActorReminderRecordStatus::Cancelled);
}

/// Marks the reminder of a kernel entry fired, where the index holds it.
pub fn record_actor_reminder_fired(index: &mut ActorReminderIndex, reminder: &ActorReminderEntry)
    requires
        old(index).wf(),
    ensures
        final(index).wf(),
        final(index)@ == with_status(
            old(index)@,
            parts_key(actor_kind_name(reminder.actor_id.kind), reminder.actor_id.key@, reminder.reminder_id@),
            ActorReminderRecordStatus::Fired,
        ),
{
    let k = actor_reminder_index_key_from_entry(reminder);
    index.set_status(&k, ActorReminderRecordStatus::Fired);
}

} // verus!

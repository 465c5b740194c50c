//! Sync: the page of delivery events that a subscriber receives after an LSN,
//! filtered by the rooms, users, tables, ranges of tables and nested tables
//! it follows.
use vstd::prelude::*;
use crate::model::{DbRecordMutationDraft, DeliveryEvent, WalPayload, WalRecord};
use crate::records::DbRecord;
use crate::api_error::{ApiError, ApiErrorKind, api_err};
use crate::records::{SchemaTable, colon, dot, list_contains, nested_table_path_error, string_views, validate_nested_table_path};
use crate::text::{
    chars_of, chars_starts_with, find_char, find_last_char, owned, split_char, split_chars, starts_with,
    string_from_chars, trim, trim_chars,
};
use crate::util::{shard_index, shard_of};

verus! {

/// A subscription to the records of one nested table under one parent record.
pub struct NestedTableSubscription {
    pub table: String,
    pub parent_key: String,
    pub nested: String,
}

impl NestedTableSubscription {
    pub fn new(table: String, parent_key: String, nested: String) -> (s: Self)
        ensures
            s.table == table,
            s.parent_key == parent_key,
            s.nested == nested,
    {
        NestedTableSubscription { table, parent_key, nested }
    }
}

/// The logical table of a nested subscription: `table.nested`.
pub open spec fn sub_logical_table(s: NestedTableSubscription) -> Seq<char> {
    dot(s.table@, s.nested@)
}

/// The key prefix of a nested subscription: `parent:`.
pub open spec fn sub_key_prefix(s: NestedTableSubscription) -> Seq<char> {
    s.parent_key@ + seq![':']
}

/// Whether a record of `table` with `key` is among the tables a subscriber
/// follows, directly or as the rows of a nested table under a parent.
pub open spec fn record_in_filters(
    table: Seq<char>,
    key: Seq<char>,
    table_filter: Seq<String>,
    nested_filter: Seq<NestedTableSubscription>,
) -> bool {
    ||| string_views(table_filter).contains(table)
    ||| exists|i: int|
        0 <= i < nested_filter.len() && sub_logical_table(#[trigger] nested_filter[i]) == table
            && starts_with(key, sub_key_prefix(nested_filter[i]))
}

fn nested_matches(s: &NestedTableSubscription, table: &str, key: &str) -> (b: bool)
    ensures
        b == (sub_logical_table(*s) == table@ && starts_with(key@, sub_key_prefix(*s))),
{
    let logical = crate::records::nested_record_table(s.table.as_str(), s.nested.as_str());
    let prefix = crate::records::nested_record_prefix(s.parent_key.as_str());
    let l = chars_of(logical.as_str());
    let t = chars_of(table);
    if !crate::text::chars_eq(l.as_slice(), t.as_slice()) {
        return false;
    }
    let k = chars_of(key);
    let p = chars_of(prefix.as_str());
    chars_starts_with(k.as_slice(), p.as_slice())
}

/// Whether the filters follow the change of record `key` of `table`
/// (`record` is the record written; a delete has none): its table is
/// followed, one of the range subscriptions follows it (`matches` answers
/// for each), or it lies under the parent of a followed nested table.
pub fn record_matches_table_filters_with_record<S, M: Fn(&S, &String, &String, Option<&DbRecord>) -> bool>(
    table: &String,
    key: &String,
    record: Option<&DbRecord>,
    table_filter: &Vec<String>,
    table_range_filter: &Vec<S>,
    nested_table_filter: &Vec<NestedTableSubscription>,
    matches: &M,
) -> (b: bool)
    requires
        deterministic_matcher(*matches),
    ensures
        b == (record_in_filters(table@, key@, table_filter@, nested_table_filter@) || ranges_follow(
            *matches,
            table_range_filter@,
            *table,
            *key,
            match record {
                Some(r) => Some(*r),
                None => None,
            },
        )),
{
    if list_contains(table_filter, table.as_str()) {
        return true;
    }
    if any_range_follows(table_range_filter, matches, table, key, record) {
        return true;
    }
    let mut i: usize = 0;
    while i < nested_table_filter.len()
        invariant
            i <= nested_table_filter@.len(),
            forall|j: int|
                0 <= j < i ==> !(sub_logical_table(#[trigger] nested_table_filter@[j]) == table@
                    && starts_with(key@, sub_key_prefix(nested_table_filter@[j]))),
        decreases nested_table_filter@.len() - i,
    {
        if nested_matches(&nested_table_filter[i], table.as_str(), key.as_str()) {
            return true;
        }
        i = i + 1;
    }
    false
}

/// What a subscription to a range of a table (by key, or by an index prefix
/// that the schema resolves) says of a record: `matches(subscription, table,
/// key, record)`, where a delete has no record. Such a closure answers every
/// question, and always the same.
pub open spec fn deterministic_matcher<S, M: Fn(&S, &String, &String, Option<&DbRecord>) -> bool>(m: M) -> bool {
    &&& forall|s: &S, t: &String, k: &String, r: Option<&DbRecord>| #[trigger] m.requires((s, t, k, r))
    &&& forall|s: &S, t: &String, k: &String, r: Option<&DbRecord>, a: bool, b: bool|
        #[trigger] m.ensures((s, t, k, r), a) && #[trigger] m.ensures((s, t, k, r), b) ==> a == b
}

/// The answer of such a closure.
pub open spec fn sub_answer<S, M: Fn(&S, &String, &String, Option<&DbRecord>) -> bool>(
    m: M,
    s: S,
    table: String,
    key: String,
    record: Option<DbRecord>,
) -> bool {
    match record {
        Some(x) => m.ensures((&s, &table, &key, Some(&x)), true),
        None => m.ensures((&s, &table, &key, None::<&DbRecord>), true),
    }
}

/// Whether one of the range subscriptions `subs` follows a record.
pub open spec fn ranges_follow<S, M: Fn(&S, &String, &String, Option<&DbRecord>) -> bool>(
    m: M,
    subs: Seq<S>,
    table: String,
    key: String,
    record: Option<DbRecord>,
) -> bool {
    exists|i: int| 0 <= i < subs.len() && sub_answer(m, #[trigger] subs[i], table, key, record)
}

/// What a subscriber follows. `ranges` says whether one of its range
/// subscriptions (it has some where `has_ranges`) follows a record.
pub struct SyncFilters {
    pub rooms: Seq<Seq<char>>,
    pub users: Seq<Seq<char>>,
    pub tables: Seq<String>,
    pub has_ranges: bool,
    pub ranges: spec_fn(String, String, Option<DbRecord>) -> bool,
    pub nested: Seq<NestedTableSubscription>,
    pub include_objects: bool,
}

/// A subscriber that follows nothing in particular receives every event; one
/// that follows something receives only what it follows.
pub open spec fn scoped(f: SyncFilters) -> bool {
    f.rooms.len() > 0 || f.users.len() > 0 || f.tables.len() > 0 || f.has_ranges || f.nested.len() > 0
        || f.include_objects
}

/// Whether a subscriber receives the change of record `key` of `table`
/// (`record` is the record written; a delete has none).
pub open spec fn record_passes(table: String, key: String, record: Option<DbRecord>, f: SyncFilters) -> bool {
    !scoped(f) || record_in_filters(table@, key@, f.tables, f.nested) || (f.ranges)(table, key, record)
}

/// The events of a committed transaction that pass the filters, in order.
pub open spec fn transaction_events(ops: Seq<DbRecordMutationDraft>, lsn: u64, f: SyncFilters) -> Seq<DeliveryEvent>
    decreases ops.len(),
{
    if ops.len() == 0 {
        Seq::empty()
    } else {
        let prev = transaction_events(ops.drop_last(), lsn, f);
        match ops.last() {
            DbRecordMutationDraft::Upsert { record } => if record_passes(
                record.table,
                record.key,
                Some(record.into_record_spec(lsn)),
                f,
            ) {
                prev.push(
                    DeliveryEvent::RecordUpserted {
                        table: record.table,
                        key: record.key,
                        record: record.into_record_spec(lsn),
                    },
                )
            } else {
                prev
            },
            DbRecordMutationDraft::Delete { record } => if record_passes(record.table, record.key, None, f) {
                prev.push(
                    DeliveryEvent::RecordDeleted {
                        table: record.table,
                        key: record.key,
                        deleted_at_ms: record.deleted_at_ms,
                        lsn,
                        path: record.path,
                        previous_record: None,
                    },
                )
            } else {
                prev
            },
        }
    }
}

/// The state of a page being filled: its events, the LSN after which the next
/// page starts, whether more events are left, and whether the page is full.
pub struct SyncState {
    pub events: Seq<DeliveryEvent>,
    pub next_after_lsn: u64,
    pub has_more: bool,
    pub done: bool,
}

/// Adds the single event `e` of the entry at `lsn`, or stops where the page
/// is full.
pub open spec fn add_one(st: SyncState, e: DeliveryEvent, lsn: u64, limit: nat) -> SyncState {
    if st.events.len() >= limit {
        SyncState { has_more: true, done: true, ..st }
    } else {
        SyncState { events: st.events.push(e), next_after_lsn: lsn, ..st }
    }
}

/// The page after one log entry. Entries at or before `after_lsn` and entries
/// the subscriber does not follow are skipped; a transaction's events go in
/// together or not at all (a page that is not empty is not overfilled by one).
pub open spec fn sync_step(st: SyncState, w: WalRecord, after_lsn: u64, f: SyncFilters, limit: nat) -> SyncState {
    if st.done || w.lsn <= after_lsn {
        st
    } else {
        match w.payload {
            WalPayload::MessageCreated { message } => if scoped(f) && !f.rooms.contains(message.room_id@) {
                st
            } else {
                add_one(
                    st,
                    DeliveryEvent::MessageCreated { room_id: message.room_id, message: message.into_message_spec(w.lsn) },
                    w.lsn,
                    limit,
                )
            },
            WalPayload::UserEventPublished { event } => if scoped(f) && !f.users.contains(event.user_id@) {
                st
            } else {
                add_one(
                    st,
                    DeliveryEvent::UserEvent { user_id: event.user_id, event: event.into_event_spec(w.lsn) },
                    w.lsn,
                    limit,
                )
            },
            WalPayload::UserUpserted { user } => if scoped(f) && !f.users.contains(user.user_id@) {
                st
            } else {
                add_one(
                    st,
                    DeliveryEvent::UserUpserted { user_id: user.user_id, user: user.into_profile_spec(w.lsn) },
                    w.lsn,
                    limit,
                )
            },
            WalPayload::RecordUpserted { record } => if !record_passes(
                record.table,
                record.key,
                Some(record.into_record_spec(w.lsn)),
                f,
            ) {
                st
            } else {
                add_one(
                    st,
                    DeliveryEvent::RecordUpserted {
                        table: record.table,
                        key: record.key,
                        record: record.into_record_spec(w.lsn),
                    },
                    w.lsn,
                    limit,
                )
            },
            WalPayload::RecordDeleted { record } => if !record_passes(record.table, record.key, None, f) {
                st
            } else {
                add_one(
                    st,
                    DeliveryEvent::RecordDeleted {
                        table: record.table,
                        key: record.key,
                        deleted_at_ms: record.deleted_at_ms,
                        lsn: w.lsn,
                        path: record.path,
                        previous_record: None,
                    },
                    w.lsn,
                    limit,
                )
            },
            WalPayload::RecordTransactionCommitted { operations } => {
                let tev = transaction_events(operations@, w.lsn, f);
                if tev.len() == 0 {
                    st
                } else if st.events.len() > 0 && st.events.len() + tev.len() > limit {
                    SyncState { has_more: true, done: true, ..st }
                } else {
                    SyncState { events: st.events + tev, next_after_lsn: w.lsn, ..st }
                }
            },
            WalPayload::ObjectCommitted { object } => if scoped(f) && !f.include_objects {
                st
            } else {
                add_one(st, DeliveryEvent::ObjectCommitted { object, lsn: w.lsn }, w.lsn, limit)
            },
            WalPayload::ObjectDeleted { object_id, deleted_at_ms, path, force } => if scoped(f) && !f.include_objects {
                st
            } else {
                add_one(
                    st,
                    DeliveryEvent::ObjectDeleted { object_id, deleted_at_ms, lsn: w.lsn, path, force },
                    w.lsn,
                    limit,
                )
            },
            _ => st,
        }
    }
}

/// The page after the entries of `log`, in order.
pub open spec fn sync_fold(log: Seq<WalRecord>, after_lsn: u64, f: SyncFilters, limit: nat) -> SyncState
    decreases log.len(),
{
    if log.len() == 0 {
        SyncState { events: Seq::empty(), next_after_lsn: after_lsn, has_more: false, done: false }
    } else {
        sync_step(sync_fold(log.drop_last(), after_lsn, f, limit), log.last(), after_lsn, f, limit)
    }
}

/// Once the page is full, later entries leave it as it is.
proof fn lemma_fold_done(log: Seq<WalRecord>, k: int, after_lsn: u64, f: SyncFilters, limit: nat)
    requires
        0 <= k <= log.len(),
        sync_fold(log.take(k), after_lsn, f, limit).done,
    ensures
        sync_fold(log, after_lsn, f, limit) == sync_fold(log.take(k), after_lsn, f, limit),
    decreases log.len() - k,
{
    if k == log.len() {
        assert(log.take(k) =~= log);
    } else {
        let n = log.len() as int;
        assert(log.drop_last().take(k) =~= log.take(k));
        lemma_fold_done(log.drop_last(), k, after_lsn, f, limit);
        if k == n - 1 {
            assert(log.drop_last() =~= log.take(k));
        }
    }
}

/// Whether a subscriber with filters `f` follows the event `e`: a message by
/// its room, a user event or profile by its user, a record change by its
/// table, nested path or range, an object change where it asked for objects;
/// a subscriber that follows nothing in particular follows everything.
pub open spec fn follows_event(e: DeliveryEvent, f: SyncFilters) -> bool {
    match e {
        DeliveryEvent::MessageCreated { room_id, .. } => !scoped(f) || f.rooms.contains(room_id@),
        DeliveryEvent::UserEvent { user_id, .. } => !scoped(f) || f.users.contains(user_id@),
        DeliveryEvent::UserUpserted { user_id, .. } => !scoped(f) || f.users.contains(user_id@),
        DeliveryEvent::RecordUpserted { table, key, record } => record_passes(table, key, Some(record), f),
        DeliveryEvent::RecordDeleted { table, key, .. } => record_passes(table, key, None, f),
        DeliveryEvent::ObjectCommitted { .. } => !scoped(f) || f.include_objects,
        DeliveryEvent::ObjectDeleted { .. } => !scoped(f) || f.include_objects,
    }
}

proof fn lemma_transaction_events_followed(ops: Seq<DbRecordMutationDraft>, lsn: u64, f: SyncFilters)
    ensures
        forall|i: int| 0 <= i < transaction_events(ops, lsn, f).len()
            ==> follows_event(#[trigger] transaction_events(ops, lsn, f)[i], f),
    decreases ops.len(),
{
    if ops.len() > 0 {
        lemma_transaction_events_followed(ops.drop_last(), lsn, f);
        let prev = transaction_events(ops.drop_last(), lsn, f);
        let cur = transaction_events(ops, lsn, f);
        assert forall|i: int| 0 <= i < cur.len() implies follows_event(#[trigger] cur[i], f) by {
            if i < prev.len() {
                assert(cur[i] == prev[i]);
            }
        }
    }
}

/// A sync page holds only events its subscriber follows.
pub proof fn sync_page_holds_only_followed_events(log: Seq<WalRecord>, after_lsn: u64, f: SyncFilters, limit: nat)
    ensures
        forall|i: int| 0 <= i < sync_fold(log, after_lsn, f, limit).events.len()
            ==> follows_event(#[trigger] sync_fold(log, after_lsn, f, limit).events[i], f),
    decreases log.len(),
{
    if log.len() > 0 {
        let prev = sync_fold(log.drop_last(), after_lsn, f, limit);
        sync_page_holds_only_followed_events(log.drop_last(), after_lsn, f, limit);
        let w = log.last();
        let st = sync_fold(log, after_lsn, f, limit);
        if !prev.done && w.lsn > after_lsn {
            match w.payload {
                WalPayload::RecordTransactionCommitted { operations } => {
                    lemma_transaction_events_followed(operations@, w.lsn, f);
                    let tev = transaction_events(operations@, w.lsn, f);
                    assert forall|i: int| 0 <= i < st.events.len() implies follows_event(#[trigger] st.events[i], f) by {
                        if i >= prev.events.len() && st.events == prev.events + tev {
                            assert(st.events[i] == tev[i - prev.events.len()]);
                        }
                    }
                },
                _ => {
                    assert forall|i: int| 0 <= i < st.events.len() implies follows_event(#[trigger] st.events[i], f) by {
                        if i < prev.events.len() {
                            assert(st.events[i] == prev.events[i]);
                        }
                    }
                },
            }
        }
    }
}

/// What one more log entry does to a page that has room: an entry at or
/// before `after_lsn` changes nothing; a message, user event or user profile
/// after it is added exactly when the subscriber follows its room or user
/// (or follows nothing in particular), whatever the other filters say.
pub proof fn sync_page_takes_each_followed_entry(
    log: Seq<WalRecord>,
    w: WalRecord,
    after_lsn: u64,
    f: SyncFilters,
    limit: nat,
)
    ensures
        ({
            let before = sync_fold(log, after_lsn, f, limit);
            let after = sync_fold(log.push(w), after_lsn, f, limit);
            &&& (before.done || w.lsn <= after_lsn) ==> after == before
            &&& (!before.done && before.events.len() < limit && w.lsn > after_lsn) ==> match w.payload {
                WalPayload::UserEventPublished { event } => after.events == if !scoped(f) || f.users.contains(event.user_id@) {
                    before.events.push(DeliveryEvent::UserEvent { user_id: event.user_id, event: event.into_event_spec(w.lsn) })
                } else {
                    before.events
                },
                WalPayload::UserUpserted { user } => after.events == if !scoped(f) || f.users.contains(user.user_id@) {
                    before.events.push(DeliveryEvent::UserUpserted { user_id: user.user_id, user: user.into_profile_spec(w.lsn) })
                } else {
                    before.events
                },
                WalPayload::MessageCreated { message } => after.events == if !scoped(f) || f.rooms.contains(message.room_id@) {
                    before.events.push(
                        DeliveryEvent::MessageCreated { room_id: message.room_id, message: message.into_message_spec(w.lsn) },
                    )
                } else {
                    before.events
                },
                WalPayload::RecordUpserted { record } => after.events
                    == if record_passes(record.table, record.key, Some(record.into_record_spec(w.lsn)), f) {
                    before.events.push(
                        DeliveryEvent::RecordUpserted {
                            table: record.table,
                            key: record.key,
                            record: record.into_record_spec(w.lsn),
                        },
                    )
                } else {
                    before.events
                },
                WalPayload::RecordDeleted { record } => after.events == if record_passes(record.table, record.key, None, f) {
                    before.events.push(
                        DeliveryEvent::RecordDeleted {
                            table: record.table,
                            key: record.key,
                            deleted_at_ms: record.deleted_at_ms,
                            lsn: w.lsn,
                            path: record.path,
                            previous_record: None,
                        },
                    )
                } else {
                    before.events
                },
                WalPayload::ObjectCommitted { object } => after.events == if !scoped(f) || f.include_objects {
                    before.events.push(DeliveryEvent::ObjectCommitted { object, lsn: w.lsn })
                } else {
                    before.events
                },
                _ => true,
            }
            &&& (!before.done && before.events.len() < limit && w.lsn > after_lsn
                && after.events.len() == before.events.len() + 1) ==> after.next_after_lsn == w.lsn
                && !after.done && after.has_more == before.has_more
            &&& after.events.len() == before.events.len() ==> after.next_after_lsn == before.next_after_lsn
        }),
{
    assert(log.push(w).drop_last() =~= log);
}

/// Once a page is full, an entry the subscriber follows ends it: the page
/// keeps its events and says more are left.
pub proof fn a_full_page_stops_at_the_next_followed_entry(
    log: Seq<WalRecord>,
    w: WalRecord,
    after_lsn: u64,
    f: SyncFilters,
    limit: nat,
)
    requires
        !sync_fold(log, after_lsn, f, limit).done,
        sync_fold(log, after_lsn, f, limit).events.len() >= limit,
        w.lsn > after_lsn,
        match w.payload {
            WalPayload::MessageCreated { message } => !scoped(f) || f.rooms.contains(message.room_id@),
            WalPayload::UserEventPublished { event } => !scoped(f) || f.users.contains(event.user_id@),
            WalPayload::UserUpserted { user } => !scoped(f) || f.users.contains(user.user_id@),
            _ => false,
        },
    ensures
        sync_fold(log.push(w), after_lsn, f, limit).has_more,
        sync_fold(log.push(w), after_lsn, f, limit).done,
        sync_fold(log.push(w), after_lsn, f, limit).events == sync_fold(log, after_lsn, f, limit).events,
        sync_fold(log.push(w), after_lsn, f, limit).next_after_lsn == sync_fold(log, after_lsn, f, limit).next_after_lsn,
{
    assert(log.push(w).drop_last() =~= log);
}

/// Which record changes a subscriber follows: all of them where it follows
/// nothing in particular; else those of a table it follows, those under the
/// parent key of a nested table it follows, and those a range subscription
/// follows, and no others.
pub proof fn record_changes_follow_the_filters(table: String, key: String, record: Option<DbRecord>, f: SyncFilters)
    ensures
        !scoped(f) ==> record_passes(table, key, record, f),
        string_views(f.tables).contains(table@) ==> record_passes(table, key, record, f),
        (f.ranges)(table, key, record) ==> record_passes(table, key, record, f),
        forall|i: int|
            0 <= i < f.nested.len() && dot((#[trigger] f.nested[i]).table@, f.nested[i].nested@) == table@
                && starts_with(key@, f.nested[i].parent_key@ + seq![':'])
                ==> record_passes(table, key, record, f),
        scoped(f) && !string_views(f.tables).contains(table@) && !(f.ranges)(table, key, record)
            && (forall|i: int| 0 <= i < f.nested.len() ==> !(dot((#[trigger] f.nested[i]).table@, f.nested[i].nested@) == table@
                && starts_with(key@, f.nested[i].parent_key@ + seq![':'])))
            ==> !record_passes(table, key, record, f),
{
}

/// A page of delivery events.
pub struct SyncEventPage {
    pub events: Vec<DeliveryEvent>,
    pub next_after_lsn: u64,
    pub has_more: bool,
}

/// The filters as plain values.
pub open spec fn filters_of(
    room_filter: Seq<String>,
    user_filter: Seq<String>,
    table_filter: Seq<String>,
    has_ranges: bool,
    ranges: spec_fn(String, String, Option<DbRecord>) -> bool,
    nested_table_filter: Seq<NestedTableSubscription>,
    include_objects: bool,
) -> SyncFilters {
    SyncFilters {
        rooms: string_views(room_filter),
        users: string_views(user_filter),
        tables: table_filter,
        has_ranges,
        ranges,
        nested: nested_table_filter,
        include_objects,
    }
}

/// Whether one of the range subscriptions follows a record.
pub fn any_range_follows<S, M: Fn(&S, &String, &String, Option<&DbRecord>) -> bool>(
    table_range_filter: &Vec<S>,
    matches: &M,
    table: &String,
    key: &String,
    record: Option<&DbRecord>,
) -> (b: bool)
    requires
        deterministic_matcher(*matches),
    ensures
        b == ranges_follow(
            *matches,
            table_range_filter@,
            *table,
            *key,
            match record {
                Some(r) => Some(*r),
                None => None,
            },
        ),
{
    let ghost rec: Option<DbRecord> = match record {
        Some(r) => Some(*r),
        None => None,
    };
    let mut i: usize = 0;
    while i < table_range_filter.len()
        invariant
            i <= table_range_filter@.len(),
            deterministic_matcher(*matches),
            rec == (match record {
                Some(r) => Some(*r),
                None => None::<DbRecord>,
            }),
            forall|j: int| 0 <= j < i ==> !sub_answer(*matches, #[trigger] table_range_filter@[j], *table, *key, rec),
        decreases table_range_filter@.len() - i,
    {
        let hit = matches(&table_range_filter[i], table, key, record);
        proof {
            match record {
                Some(r) => {
                    assert(matches.ensures((&table_range_filter@[i as int], table, key, Some(r)), hit));
                },
                None => {},
            }
        }
        if hit {
            assert(sub_answer(*matches, table_range_filter@[i as int], *table, *key, rec));
            return true;
        }
        i = i + 1;
    }
    false
}


fn passes_exec<S, M: Fn(&S, &String, &String, Option<&DbRecord>) -> bool>(
    scoped_now: bool,
    table: &String,
    key: &String,
    record: Option<&DbRecord>,
    table_filter: &Vec<String>,
    table_range_filter: &Vec<S>,
    matches: &M,
    nested_table_filter: &Vec<NestedTableSubscription>,
) -> (b: bool)
    requires
        deterministic_matcher(*matches),
    ensures
        b == (!scoped_now || record_in_filters(table@, key@, table_filter@, nested_table_filter@) || ranges_follow(
            *matches,
            table_range_filter@,
            *table,
            *key,
            match record {
                Some(r) => Some(*r),
                None => None,
            },
        )),
{
    !scoped_now || record_matches_table_filters_with_record(
        table,
        key,
        record,
        table_filter,
        table_range_filter,
        nested_table_filter,
        matches,
    )
}

fn transaction_events_exec<S, M: Fn(&S, &String, &String, Option<&DbRecord>) -> bool>(
    operations: Vec<DbRecordMutationDraft>,
    lsn: u64,
    scoped_now: bool,
    table_filter: &Vec<String>,
    table_range_filter: &Vec<S>,
    matches: &M,
    nested_table_filter: &Vec<NestedTableSubscription>,
    Ghost(f): Ghost<SyncFilters>,
) -> (out: Vec<DeliveryEvent>)
    requires
        scoped_now == scoped(f),
        f.tables == table_filter@,
        f.nested == nested_table_filter@,
        deterministic_matcher(*matches),
        f.ranges == (|t: String, k: String, r: Option<DbRecord>| ranges_follow(*matches, table_range_filter@, t, k, r)),
    ensures
        out@ == transaction_events(operations@, lsn, f),
{
    let ghost ops = operations@;
    let mut rev = crate::merge::reversed(operations);
    let mut out: Vec<DeliveryEvent> = Vec::new();
    assert(ops.take(0) =~= Seq::<DbRecordMutationDraft>::empty());
    while rev.len() > 0
        invariant
            rev@.len() <= ops.len(),
            rev@.reverse() == ops.subrange(ops.len() - rev@.len(), ops.len() as int),
            out@ == transaction_events(ops.take(ops.len() - rev@.len()), lsn, f),
            scoped_now == scoped(f),
            f.tables == table_filter@,
            f.nested == nested_table_filter@,
            deterministic_matcher(*matches),
            f.ranges == (|t: String, k: String, r: Option<DbRecord>| ranges_follow(*matches, table_range_filter@, t, k, r)),
        decreases rev@.len(),
    {
        let ghost k = ops.len() - rev@.len();
        proof {
            crate::merge::lemma_reverse_last_pub(rev@);
            assert(ops.subrange(k, ops.len() as int)[0] == ops[k]);
            assert(ops.subrange(k, ops.len() as int).drop_first() =~= ops.subrange(k + 1, ops.len() as int));
            assert(ops.take(k + 1).drop_last() =~= ops.take(k));
            assert(ops.take(k + 1).last() == ops[k]);
        }
        let op = rev.pop().unwrap();
        match op {
            DbRecordMutationDraft::Upsert { record } => {
                let table = record.table.clone();
                let key = record.key.clone();
                let r = record.into_record(lsn);
                if passes_exec(
                    scoped_now,
                    &table,
                    &key,
                    Some(&r),
                    table_filter,
                    table_range_filter,
                    matches,
                    nested_table_filter,
                ) {
                    out.push(DeliveryEvent::RecordUpserted { table, key, record: r });
                }
            },
            DbRecordMutationDraft::Delete { record } => {
                if passes_exec(
                    scoped_now,
                    &record.table,
                    &record.key,
                    None,
                    table_filter,
                    table_range_filter,
                    matches,
                    nested_table_filter,
                ) {
                    out.push(DeliveryEvent::RecordDeleted {
                        table: record.table,
                        key: record.key,
                        deleted_at_ms: record.deleted_at_ms,
                        lsn,
                        path: record.path,
                        previous_record: None,
                    });
                }
            },
        }
    }
    assert(ops.take(ops.len() as int) =~= ops);
    out
}

/// The page of delivery events after `after_lsn`: at most `limit` events
/// (a single transaction may exceed it on an empty page), the LSN of the last
/// entry delivered, and whether entries were left for a later page. A
/// subscriber follows rooms, users, tables, ranges of tables
/// (`table_range_filter`, each of which `matches` says whether it follows a
/// record, as the schema resolves it), nested tables and objects.
#[verifier::loop_isolation(false)]
pub fn sync_events_from_wal_records<S, M: Fn(&S, &String, &String, Option<&DbRecord>) -> bool>(
    records: Vec<WalRecord>,
    after_lsn: u64,
    room_filter: &Vec<String>,
    user_filter: &Vec<String>,
    table_filter: &Vec<String>,
    table_range_filter: &Vec<S>,
    nested_table_filter: &Vec<NestedTableSubscription>,
    matches: M,
    include_objects: bool,
    limit: usize,
) -> (page: SyncEventPage)
    requires
        deterministic_matcher(matches),
    ensures
        ({
            let st = sync_fold(
                records@,
                after_lsn,
                filters_of(
                    room_filter@,
                    user_filter@,
                    table_filter@,
                    table_range_filter@.len() > 0,
                    |t: String, k: String, r: Option<DbRecord>| ranges_follow(matches, table_range_filter@, t, k, r),
                    nested_table_filter@,
                    include_objects,
                ),
                limit as nat,
            );
            &&& page.events@ == st.events
            &&& page.next_after_lsn == st.next_after_lsn
            &&& page.has_more == st.has_more
        }),
{
    let ghost log = records@;
    let ghost f = filters_of(
        room_filter@,
        user_filter@,
        table_filter@,
        table_range_filter@.len() > 0,
        |t: String, k: String, r: Option<DbRecord>| ranges_follow(matches, table_range_filter@, t, k, r),
        nested_table_filter@,
        include_objects,
    );
    let ghost lim = limit as nat;
    let scoped_now = room_filter.len() > 0 || user_filter.len() > 0 || table_filter.len() > 0
        || table_range_filter.len() > 0 || nested_table_filter.len() > 0 || include_objects;
    let mut events: Vec<DeliveryEvent> = Vec::new();
    let mut next_after_lsn = after_lsn;
    let mut has_more = false;
    let mut rev = crate::merge::reversed(records);
    assert(log.take(0) =~= Seq::<WalRecord>::empty());
    while rev.len() > 0
        invariant
            rev@.len() <= log.len(),
            rev@.reverse() == log.subrange(log.len() - rev@.len(), log.len() as int),
            ({
                let st = sync_fold(log.take(log.len() - rev@.len()), after_lsn, f, lim);
                &&& !st.done
                &&& events@ == st.events
                &&& next_after_lsn == st.next_after_lsn
                &&& has_more == st.has_more
            }),
        decreases rev@.len(),
    {
        let ghost k = log.len() - rev@.len();
        let ghost st = sync_fold(log.take(k), after_lsn, f, lim);
        proof {
            crate::merge::lemma_reverse_last_pub(rev@);
            assert(log.subrange(k, log.len() as int)[0] == log[k]);
            assert(log.subrange(k, log.len() as int).drop_first() =~= log.subrange(k + 1, log.len() as int));
            assert(log.take(k + 1).drop_last() =~= log.take(k));
            assert(log.take(k + 1).last() == log[k]);
        }
        let w = rev.pop().unwrap();
        let lsn = w.lsn;
        if lsn <= after_lsn {
            continue;
        }
        match w.payload {
            WalPayload::MessageCreated { message } => {
                if scoped_now && !list_contains(room_filter, message.room_id.as_str()) {
                    continue;
                }
                if events.len() >= limit {
                    has_more = true;
                    proof {
                        lemma_fold_done(log, k + 1, after_lsn, f, lim);
                    }
                    break;
                }
                next_after_lsn = lsn;
                let room_id = message.room_id.clone();
                events.push(DeliveryEvent::MessageCreated { room_id, message: message.into_message(lsn) });
            },
            WalPayload::UserEventPublished { event } => {
                if scoped_now && !list_contains(user_filter, event.user_id.as_str()) {
                    continue;
                }
                if events.len() >= limit {
                    has_more = true;
                    proof {
                        lemma_fold_done(log, k + 1, after_lsn, f, lim);
                    }
                    break;
                }
                next_after_lsn = lsn;
                let user_id = event.user_id.clone();
                events.push(DeliveryEvent::UserEvent { user_id, event: event.into_event(lsn) });
            },
            WalPayload::UserUpserted { user } => {
                if scoped_now && !list_contains(user_filter, user.user_id.as_str()) {
                    continue;
                }
                if events.len() >= limit {
                    has_more = true;
                    proof {
                        lemma_fold_done(log, k + 1, after_lsn, f, lim);
                    }
                    break;
                }
                next_after_lsn = lsn;
                let user_id = user.user_id.clone();
                events.push(DeliveryEvent::UserUpserted { user_id, user: user.into_profile(lsn) });
            },
            WalPayload::RecordUpserted { record } => {
                let table = record.table.clone();
                let key = record.key.clone();
                let r = record.into_record(lsn);
                if !passes_exec(
                    scoped_now,
                    &table,
                    &key,
                    Some(&r),
                    table_filter,
                    table_range_filter,
                    &matches,
                    nested_table_filter,
                ) {
                    continue;
                }
                if events.len() >= limit {
                    has_more = true;
                    proof {
                        lemma_fold_done(log, k + 1, after_lsn, f, lim);
                    }
                    break;
                }
                next_after_lsn = lsn;
                events.push(DeliveryEvent::RecordUpserted { table, key, record: r });
            },
            WalPayload::RecordDeleted { record } => {
                if !passes_exec(
                    scoped_now,
                    &record.table,
                    &record.key,
                    None,
                    table_filter,
                    table_range_filter,
                    &matches,
                    nested_table_filter,
                ) {
                    continue;
                }
                if events.len() >= limit {
                    has_more = true;
                    proof {
                        lemma_fold_done(log, k + 1, after_lsn, f, lim);
                    }
                    break;
                }
                next_after_lsn = lsn;
                events.push(DeliveryEvent::RecordDeleted {
                    table: record.table,
                    key: record.key,
                    deleted_at_ms: record.deleted_at_ms,
                    lsn,
                    path: record.path,
                    previous_record: None,
                });
            },
            WalPayload::RecordTransactionCommitted { operations } => {
                let mut tev = transaction_events_exec(
                    operations,
                    lsn,
                    scoped_now,
                    table_filter,
                    table_range_filter,
                    &matches,
                    nested_table_filter,
                    Ghost(f),
                );
                if tev.len() == 0 {
                    continue;
                }
                if events.len() > 0 && (events.len() > limit || tev.len() > limit - events.len()) {
                    has_more = true;
                    proof {
                        lemma_fold_done(log, k + 1, after_lsn, f, lim);
                    }
                    break;
                }
                next_after_lsn = lsn;
                let ghost before = events@;
                events.append(&mut tev);
            },
            WalPayload::ObjectCommitted { object } => {
                if scoped_now && !include_objects {
                    continue;
                }
                if events.len() >= limit {
                    has_more = true;
                    proof {
                        lemma_fold_done(log, k + 1, after_lsn, f, lim);
                    }
                    break;
                }
                next_after_lsn = lsn;
                events.push(DeliveryEvent::ObjectCommitted { object, lsn });
            },
            WalPayload::ObjectDeleted { object_id, deleted_at_ms, path, force } => {
                if scoped_now && !include_objects {
                    continue;
                }
                if events.len() >= limit {
                    has_more = true;
                    proof {
                        lemma_fold_done(log, k + 1, after_lsn, f, lim);
                    }
                    break;
                }
                next_after_lsn = lsn;
                events.push(DeliveryEvent::ObjectDeleted { object_id, deleted_at_ms, lsn, path, force });
            },
            _ => {},
        }
    }
    proof {
        if rev@.len() == 0 {
            assert(log.take(log.len() as int) =~= log);
        }
    }
    SyncEventPage { events, next_after_lsn, has_more }
}


/// The text of an optional string, empty where there is none.
pub open spec fn text_or_empty(o: Option<String>) -> Seq<char> {
    match o {
        Some(s) => s@,
        None => Seq::empty(),
    }
}

/// The pieces that are not blank, trimmed, in order.
pub open spec fn name_list(segs: Seq<Seq<char>>) -> Seq<Seq<char>>
    decreases segs.len(),
{
    if segs.len() == 0 {
        Seq::empty()
    } else {
        let p = name_list(segs.drop_last());
        if trim(segs.last()).len() > 0 {
            p.push(trim(segs.last()))
        } else {
            p
        }
    }
}

/// The names of a comma-separated list: each trimmed, blank ones left out.
/// The list is read as a set; the names come in the order written.
pub open spec fn name_filter(names: Option<String>) -> Seq<Seq<char>> {
    name_list(split_char(text_or_empty(names), ','))
}

fn text_chars(o: &Option<String>) -> (v: Vec<char>)
    ensures
        v@ == text_or_empty(*o),
{
    match o {
        Some(s) => chars_of(s.as_str()),
        None => Vec::new(),
    }
}

/// The names of a comma-separated list.
pub fn parse_name_filter(names: Option<String>) -> (out: Vec<String>)
    ensures
        string_views(out@) == name_filter(names),
{
    let text = text_chars(&names);
    let segs = split_chars(text.as_slice(), ',');
    let ghost all = split_char(text@, ',');
    let mut out: Vec<String> = Vec::new();
    let mut i: usize = 0;
    assert(all.take(0) =~= Seq::<Seq<char>>::empty());
    assert(string_views(out@) =~= Seq::<Seq<char>>::empty());
    while i < segs.len()
        invariant
            i <= segs@.len(),
            segs@.len() == all.len(),
            forall|j: int| 0 <= j < segs@.len() ==> #[trigger] segs@[j]@ == all[j],
            string_views(out@) == name_list(all.take(i as int)),
        decreases segs@.len() - i,
    {
        proof {
            assert(all.take(i + 1).drop_last() =~= all.take(i as int));
            assert(all.take(i + 1).last() == all[i as int]);
        }
        let t = trim_chars(segs[i].as_slice());
        if t.len() > 0 {
            let ghost before = out@;
            out.push(string_from_chars(t.as_slice()));
            assert(string_views(out@) =~= string_views(before).push(t@));
        }
        i = i + 1;
    }
    assert(all.take(i as int) =~= all);
    out
}

/// The rooms of a comma-separated list.
pub fn parse_room_filter(rooms: Option<String>) -> (out: Vec<String>)
    ensures
        string_views(out@) == name_filter(rooms),
{
    parse_name_filter(rooms)
}

/// The parts of a `table:parentKey:nested` entry (the parent key runs from
/// the first colon to the last), each trimmed; none where a part is missing
/// or blank.
pub open spec fn nested_entry(v: Seq<char>) -> Option<(Seq<char>, Seq<char>, Seq<char>)> {
    match (v.index_of_first(':'), v.index_of_last(':')) {
        (Some(a), Some(b)) => if a == b {
            None
        } else {
            let t = trim(v.subrange(0, a));
            let p = trim(v.subrange(a + 1, b));
            let n = trim(v.subrange(b + 1, v.len() as int));
            if t.len() == 0 || p.len() == 0 || n.len() == 0 {
                None
            } else {
                Some((t, p, n))
            }
        },
        _ => None,
    }
}

pub open spec fn nested_entry_message() -> Seq<char> {
    "nestedTables entries must use table:parentKey:nested"@
}

/// The subscriptions of a comma-separated list of nested tables, in order;
/// the first malformed or unknown entry refuses the list.
pub open spec fn nested_filter_fold(segs: Seq<Seq<char>>, ts: Seq<SchemaTable>) -> Result<
    Seq<(Seq<char>, Seq<char>, Seq<char>)>,
    (ApiErrorKind, Seq<char>),
>
    decreases segs.len(),
{
    if segs.len() == 0 {
        Ok(Seq::empty())
    } else {
        match nested_filter_fold(segs.drop_last(), ts) {
            Err(e) => Err(e),
            Ok(acc) => {
                let v = trim(segs.last());
                if v.len() == 0 {
                    Ok(acc)
                } else {
                    match nested_entry(v) {
                        None => Err((ApiErrorKind::BadRequest, nested_entry_message())),
                        Some(e) => match nested_table_path_error(e.0, e.1, e.2, ts) {
                            Some(err) => Err(err),
                            None => Ok(acc.push(e)),
                        },
                    }
                }
            },
        }
    }
}

pub open spec fn subscription_parts(s: NestedTableSubscription) -> (Seq<char>, Seq<char>, Seq<char>) {
    (s.table@, s.parent_key@, s.nested@)
}

fn parse_nested_entry(v: &Vec<char>) -> (r: Option<(String, String, String)>)
    ensures
        match r {
            Some(e) => nested_entry(v@) == Some((e.0@, e.1@, e.2@)),
            None => nested_entry(v@) is None,
        },
{
    let a = match find_char(v, ':') {
        Some(a) => a,
        None => {
            return None;
        },
    };
    let b = match find_last_char(v, ':') {
        Some(b) => b,
        None => {
            return None;
        },
    };
    if a == b {
        return None;
    }
    proof {
        v@.index_of_first_ensures(':');
        v@.index_of_last_ensures(':');
    }
    assert(a < b && b < v.len());
    let t = trim_chars(vstd::slice::slice_subrange(v.as_slice(), 0, a));
    let p = trim_chars(vstd::slice::slice_subrange(v.as_slice(), a + 1, b));
    let n = trim_chars(vstd::slice::slice_subrange(v.as_slice(), b + 1, v.len()));
    if t.len() == 0 || p.len() == 0 || n.len() == 0 {
        return None;
    }
    Some((string_from_chars(t.as_slice()), string_from_chars(p.as_slice()), string_from_chars(n.as_slice())))
}

/// The nested table subscriptions of a comma-separated list of
/// `table:parentKey:nested` entries.
pub fn parse_nested_table_filter(
    nested_tables: Option<String>,
    tables: &Vec<SchemaTable>,
) -> (r: Result<Vec<NestedTableSubscription>, ApiError>)
    ensures
        match r {
            Ok(subs) => nested_filter_fold(split_char(text_or_empty(nested_tables), ','), tables@)
                == Ok::<Seq<(Seq<char>, Seq<char>, Seq<char>)>, (ApiErrorKind, Seq<char>)>(
                subs@.map_values(|s: NestedTableSubscription| subscription_parts(s)),
            ),
            Err(e) => nested_filter_fold(split_char(text_or_empty(nested_tables), ','), tables@)
                == Err::<Seq<(Seq<char>, Seq<char>, Seq<char>)>, (ApiErrorKind, Seq<char>)>(api_err(e)),
        },
{
    let text = text_chars(&nested_tables);
    let segs = split_chars(text.as_slice(), ',');
    let ghost all = split_char(text@, ',');
    let mut out: Vec<NestedTableSubscription> = Vec::new();
    let mut i: usize = 0;
    assert(all.take(0) =~= Seq::<Seq<char>>::empty());
    assert(out@.map_values(|s: NestedTableSubscription| subscription_parts(s)) =~= Seq::<(Seq<char>, Seq<char>, Seq<char>)>::empty());
    while i < segs.len()
        invariant
            i <= segs@.len(),
            segs@.len() == all.len(),
            forall|j: int| 0 <= j < segs@.len() ==> #[trigger] segs@[j]@ == all[j],
            all == split_char(text_or_empty(nested_tables), ','),
            nested_filter_fold(all.take(i as int), tables@)
                == Ok::<Seq<(Seq<char>, Seq<char>, Seq<char>)>, (ApiErrorKind, Seq<char>)>(
                out@.map_values(|s: NestedTableSubscription| subscription_parts(s)),
            ),
        decreases segs@.len() - i,
    {
        proof {
            assert(all.take(i + 1).drop_last() =~= all.take(i as int));
            assert(all.take(i + 1).last() == all[i as int]);
        }
        let v = trim_chars(segs[i].as_slice());
        assert(segs@[i as int]@ == all[i as int]);
        assert(v@ == trim(all[i as int]));
        if v.len() > 0 {
            match parse_nested_entry(&v) {
                None => {
                    proof {
                        lemma_nested_fold_err_stays(all, i as int + 1, tables@);
                    }
                    return Err(ApiError::bad_request(owned("nestedTables entries must use table:parentKey:nested")));
                },
                Some((table, parent_key, nested)) => {
                    match validate_nested_table_path(table.as_str(), parent_key.as_str(), nested.as_str(), tables) {
                        Err(e) => {
                            proof {
                                lemma_nested_fold_err_stays(all, i as int + 1, tables@);
                            }
                            return Err(e);
                        },
                        Ok(()) => {},
                    }
                    let ghost before = out@;
                    out.push(NestedTableSubscription::new(table, parent_key, nested));
                    assert(out@.map_values(|s: NestedTableSubscription| subscription_parts(s))
                        =~= before.map_values(|s: NestedTableSubscription| subscription_parts(s)).push(
                        subscription_parts(out@.last()),
                    ));
                },
            }
        }
        i = i + 1;
    }
    assert(all.take(i as int) =~= all);
    Ok(out)
}

/// An error in a prefix of the list is the error of the whole list.
proof fn lemma_nested_fold_err_stays(segs: Seq<Seq<char>>, k: int, ts: Seq<SchemaTable>)
    requires
        0 <= k <= segs.len(),
        nested_filter_fold(segs.take(k), ts) is Err,
    ensures
        nested_filter_fold(segs, ts) == nested_filter_fold(segs.take(k), ts),
    decreases segs.len() - k,
{
    if k == segs.len() {
        assert(segs.take(k) =~= segs);
    } else {
        assert(segs.drop_last().take(k) =~= segs.take(k));
        lemma_nested_fold_err_stays(segs.drop_last(), k, ts);
    }
}

#[derive(PartialEq, Eq, Structural, Clone, Copy)]
pub enum ReadConsistency {
    Local,
    Quorum,
    All,
}

/// A request to wait until the log reaches an LSN.
pub struct SyncWaitQuery {
    pub min_lsn: u64,
    pub timeout_ms: Option<u64>,
    pub consistency: ReadConsistency,
    pub shard_key: Option<String>,
    pub shard: Option<usize>,
}

/// The shard a wait is for. A local wait takes the shard as given; a quorum or
/// all wait needs a shard in range, or a shard key, which is hashed over the
/// cluster's shards.
pub open spec fn wait_target(q: SyncWaitQuery, wal_shards: nat, cluster_shards: nat) -> Result<
    Option<usize>,
    (ApiErrorKind, Seq<char>),
> {
    if q.consistency == ReadConsistency::Local {
        Ok(q.shard)
    } else if q.shard is Some {
        if q.shard->Some_0 >= wal_shards {
            Err((ApiErrorKind::BadRequest, "shard is out of range"@))
        } else {
            Ok(q.shard)
        }
    } else if q.shard_key is Some && trim(q.shard_key->Some_0@).len() > 0 {
        Ok(Some(shard_of(trim(q.shard_key->Some_0@), cluster_shards) as usize))
    } else {
        Err((ApiErrorKind::BadRequest, "sync wait consistency quorum/all requires shard or shardKey"@))
    }
}

pub fn sync_wait_target_shard(
    query: &SyncWaitQuery,
    wal_shard_count: usize,
    cluster_shard_count: usize,
) -> (r: Result<Option<usize>, ApiError>)
    ensures
        match r {
            Ok(s) => wait_target(*query, wal_shard_count as nat, cluster_shard_count as nat)
                == Ok::<Option<usize>, (ApiErrorKind, Seq<char>)>(s),
            Err(e) => wait_target(*query, wal_shard_count as nat, cluster_shard_count as nat)
                == Err::<Option<usize>, (ApiErrorKind, Seq<char>)>(api_err(e)),
        },
{
    if query.consistency == ReadConsistency::Local {
        return Ok(query.shard);
    }
    if let Some(shard) = query.shard {
        if shard >= wal_shard_count {
            return Err(ApiError::bad_request(owned("shard is out of range")));
        }
        return Ok(Some(shard));
    }
    if let Some(key) = &query.shard_key {
        let t = crate::text::trim_string(key.as_str());
        if !t.as_str().is_empty() {
            let s = shard_index(t.as_str(), cluster_shard_count);
            return Ok(Some(s));
        }
    }
    Err(ApiError::bad_request(owned("sync wait consistency quorum/all requires shard or shardKey")))
}

} // verus!

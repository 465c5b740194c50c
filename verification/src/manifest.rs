//! Validation of behavior manifests, and the checks of a behavior's read plan
//! and returned host commands against the capabilities and scopes that its
//! manifest grants.
use vstd::prelude::*;
use crate::behavior::{
    check, opt_view, wildcard_error, BehaviorAuditReplayKind, BehaviorAuditReplayRead,
    BehaviorAuditTraceKind, BehaviorAuditTraceRead, BehaviorCommand, BehaviorCommandCapability,
    BehaviorManifest, BehaviorReadCapability, BehaviorReadPlan, BehaviorRecordScopes,
    BehaviorRecordTransactionOperation, command_capability, command_capability_name,
    read_capability_name,
};
use crate::error::BehaviorError;
use crate::scopes::{either, first_error, lemma_first_error_stable, result_matches};
use crate::text::{blank, cat2, cat3, cat4, chars_blank, chars_of, owned};

verus! {

/// The view of an optional string.
pub open spec fn opt_string_view(o: Option<String>) -> Option<Seq<char>> {
    match o {
        Some(s) => Some(s@),
        None => None,
    }
}

/// The string held, or the empty sequence.
pub open spec fn string_or_empty(o: Option<String>) -> Seq<char> {
    match o {
        Some(s) => s@,
        None => Seq::empty(),
    }
}

/// `o.as_deref()`.
pub fn as_deref(o: &Option<String>) -> (r: Option<&str>)
    ensures
        opt_view(r) == opt_string_view(*o),
{
    match o {
        Some(s) => Some(s.as_str()),
        None => None,
    }
}

/// The scope name of a nested table: `table.nested`.
pub open spec fn nested_label(table: Seq<char>, nested: Seq<char>) -> Seq<char> {
    table + seq!['.'] + nested
}

/// `format!("{table}.{nested}")`.
pub fn nested_scope_name(table: &str, nested: &str) -> (s: String)
    ensures
        s@ == nested_label(table@, nested@),
{
    let mut v = chars_of(table);
    v.push('.');
    crate::text::push_str_chars(&mut v, nested);
    crate::text::string_from_chars(v.as_slice())
}

/// An audit field is required: present and not blank.
pub open spec fn required_field_error(value: Option<Seq<char>>, message: Seq<char>) -> Option<Seq<char>> {
    match value {
        Some(v) => check(!blank(v), message),
        None => Some(message),
    }
}

pub fn required_behavior_audit_field<'a>(value: Option<&'a str>, message: &str) -> (r: Result<
    &'a str,
    BehaviorError,
>)
    ensures
        match r {
            Ok(v) => value == Some(v) && required_field_error(opt_view(value), message@) is None,
            Err(e) => required_field_error(opt_view(value), message@) == Some(e.message@),
        },
{
    match value {
        None => Err(BehaviorError::new(owned(message))),
        Some(v) => {
            let c = chars_of(v);
            if chars_blank(c.as_slice()) {
                Err(BehaviorError::new(owned(message)))
            } else {
                Ok(v)
            }
        },
    }
}

// ---------------------------------------------------------------------------
// Read plans.

/// The record-scope check of one audit trace read.
pub open spec fn trace_record_error(sc: BehaviorRecordScopes, b: Seq<char>, t: BehaviorAuditTraceRead) -> Option<Seq<char>> {
    match t.kind {
        BehaviorAuditTraceKind::Room => either(
            sc.table_read_error(b, "rooms"@),
            sc.nested_read_error(b, "rooms.messages"@),
        ),
        BehaviorAuditTraceKind::Record => either(
            required_field_error(opt_string_view(t.table), "auditTraces record table is required"@),
            sc.table_read_error(b, string_or_empty(t.table)),
        ),
        BehaviorAuditTraceKind::NestedRecord => either(
            required_field_error(opt_string_view(t.table), "auditTraces nestedRecord table is required"@),
            either(
                required_field_error(opt_string_view(t.nested), "auditTraces nestedRecord nested is required"@),
                sc.nested_read_error(b, nested_label(string_or_empty(t.table), string_or_empty(t.nested))),
            ),
        ),
        _ => None,
    }
}

/// The record-scope check of one audit replay read.
pub open spec fn replay_record_error(sc: BehaviorRecordScopes, b: Seq<char>, t: BehaviorAuditReplayRead) -> Option<Seq<char>> {
    match t.kind {
        BehaviorAuditReplayKind::Record => either(
            required_field_error(opt_string_view(t.table), "auditReplays record table is required"@),
            sc.table_read_error(b, string_or_empty(t.table)),
        ),
        BehaviorAuditReplayKind::NestedRecord => either(
            required_field_error(opt_string_view(t.table), "auditReplays nestedRecord table is required"@),
            either(
                required_field_error(opt_string_view(t.nested), "auditReplays nestedRecord nested is required"@),
                sc.nested_read_error(b, nested_label(string_or_empty(t.table), string_or_empty(t.nested))),
            ),
        ),
        _ => None,
    }
}

pub open spec fn record_read_outcome(m: BehaviorManifest, read: BehaviorReadPlan) -> Option<Seq<char>> {
    match m.record_scopes {
        None => None,
        Some(sc) => {
            let b = m.name@;
            either(
                first_error(|i: int| sc.table_read_error(b, read.records@[i].table@), read.records@.len() as int),
                either(
                    first_error(
                        |i: int| sc.nested_read_error(b, nested_label(read.nested_records@[i].table@, read.nested_records@[i].nested@)),
                        read.nested_records@.len() as int,
                    ),
                    either(
                        first_error(|i: int| sc.nested_read_error(b, "rooms.messages"@), read.latest_messages@.len() as int),
                        either(
                            first_error(|i: int| trace_record_error(sc, b, read.audit_traces@[i]), read.audit_traces@.len() as int),
                            first_error(|i: int| replay_record_error(sc, b, read.audit_replays@[i]), read.audit_replays@.len() as int),
                        ),
                    ),
                ),
            )
        },
    }
}

fn trace_record_check(sc: &BehaviorRecordScopes, b: &str, t: &BehaviorAuditTraceRead) -> (r: Result<(), BehaviorError>)
    ensures
        result_matches(r, trace_record_error(*sc, b@, *t)),
{
    match t.kind {
        BehaviorAuditTraceKind::Room => {
            sc.ensure_table_read(b, "rooms")?;
            sc.ensure_nested_read(b, "rooms.messages")
        },
        BehaviorAuditTraceKind::Record => {
            let table = required_behavior_audit_field(as_deref(&t.table), "auditTraces record table is required")?;
            sc.ensure_table_read(b, table)
        },
        BehaviorAuditTraceKind::NestedRecord => {
            let table = required_behavior_audit_field(as_deref(&t.table), "auditTraces nestedRecord table is required")?;
            let nested = required_behavior_audit_field(as_deref(&t.nested), "auditTraces nestedRecord nested is required")?;
            let name = nested_scope_name(table, nested);
            sc.ensure_nested_read(b, name.as_str())
        },
        _ => Ok(()),
    }
}

fn replay_record_check(sc: &BehaviorRecordScopes, b: &str, t: &BehaviorAuditReplayRead) -> (r: Result<(), BehaviorError>)
    ensures
        result_matches(r, replay_record_error(*sc, b@, *t)),
{
    match t.kind {
        BehaviorAuditReplayKind::Record => {
            let table = required_behavior_audit_field(as_deref(&t.table), "auditReplays record table is required")?;
            sc.ensure_table_read(b, table)
        },
        BehaviorAuditReplayKind::NestedRecord => {
            let table = required_behavior_audit_field(as_deref(&t.table), "auditReplays nestedRecord table is required")?;
            let nested = required_behavior_audit_field(as_deref(&t.nested), "auditReplays nestedRecord nested is required")?;
            let name = nested_scope_name(table, nested);
            sc.ensure_nested_read(b, name.as_str())
        },
        _ => Ok(()),
    }
}

/// The record scopes, when present, cover every table and nested table that
/// the read plan reads; latest messages read `rooms.messages`.
#[verifier::loop_isolation(false)]
pub fn validate_record_scopes_for_read(manifest: &BehaviorManifest, read: &BehaviorReadPlan) -> (r: Result<(), BehaviorError>)
    ensures
        result_matches(r, record_read_outcome(*manifest, *read)),
{
    let scopes = match &manifest.record_scopes {
        None => return Ok(()),
        Some(s) => s,
    };
    let b = manifest.name.as_str();
    let ghost e1 = |i: int| scopes.table_read_error(b@, read.records@[i].table@);
    let ghost e2 = |i: int| scopes.nested_read_error(b@, nested_label(read.nested_records@[i].table@, read.nested_records@[i].nested@));
    let ghost e3 = |i: int| scopes.nested_read_error(b@, "rooms.messages"@);
    let ghost e4 = |i: int| trace_record_error(*scopes, b@, read.audit_traces@[i]);
    let ghost e5 = |i: int| replay_record_error(*scopes, b@, read.audit_replays@[i]);
    let mut i: usize = 0;
    while i < read.records.len()
        invariant
            i <= read.records@.len(),
            first_error(e1, i as int) is None,
        decreases read.records@.len() - i,
    {
        if let Err(e) = scopes.ensure_table_read(b, read.records[i].table.as_str()) {
            proof { lemma_first_error_stable(e1, i + 1, read.records@.len() as int); }
            return Err(e);
        }
        i = i + 1;
    }
    let mut i: usize = 0;
    while i < read.nested_records.len()
        invariant
            i <= read.nested_records@.len(),
            first_error(e2, i as int) is None,
        decreases read.nested_records@.len() - i,
    {
        let item = &read.nested_records[i];
        let name = nested_scope_name(item.table.as_str(), item.nested.as_str());
        if let Err(e) = scopes.ensure_nested_read(b, name.as_str()) {
            proof { lemma_first_error_stable(e2, i + 1, read.nested_records@.len() as int); }
            return Err(e);
        }
        i = i + 1;
    }
    let mut i: usize = 0;
    while i < read.latest_messages.len()
        invariant
            i <= read.latest_messages@.len(),
            first_error(e3, i as int) is None,
        decreases read.latest_messages@.len() - i,
    {
        if let Err(e) = scopes.ensure_nested_read(b, "rooms.messages") {
            proof { lemma_first_error_stable(e3, i + 1, read.latest_messages@.len() as int); }
            return Err(e);
        }
        i = i + 1;
    }
    let mut i: usize = 0;
    while i < read.audit_traces.len()
        invariant
            i <= read.audit_traces@.len(),
            first_error(e4, i as int) is None,
        decreases read.audit_traces@.len() - i,
    {
        if let Err(e) = trace_record_check(scopes, b, &read.audit_traces[i]) {
            proof { lemma_first_error_stable(e4, i + 1, read.audit_traces@.len() as int); }
            return Err(e);
        }
        i = i + 1;
    }
    let mut i: usize = 0;
    while i < read.audit_replays.len()
        invariant
            i <= read.audit_replays@.len(),
            first_error(e5, i as int) is None,
        decreases read.audit_replays@.len() - i,
    {
        if let Err(e) = replay_record_check(scopes, b, &read.audit_replays[i]) {
            proof { lemma_first_error_stable(e5, i + 1, read.audit_replays@.len() as int); }
            return Err(e);
        }
        i = i + 1;
    }
    Ok(())
}


pub open spec fn trace_object_error(sc: crate::behavior::BehaviorObjectScopes, b: Seq<char>, t: BehaviorAuditTraceRead) -> Option<Seq<char>> {
    if t.kind == BehaviorAuditTraceKind::Object {
        either(
            required_field_error(opt_string_view(t.id), "auditTraces object id is required"@),
            wildcard_error(sc.read@, b, "read object"@, string_or_empty(t.id)),
        )
    } else {
        None
    }
}

pub open spec fn replay_object_error(sc: crate::behavior::BehaviorObjectScopes, b: Seq<char>, t: BehaviorAuditReplayRead) -> Option<Seq<char>> {
    if t.kind == BehaviorAuditReplayKind::Object {
        either(
            required_field_error(opt_string_view(t.id), "auditReplays object id is required"@),
            wildcard_error(sc.read@, b, "read object"@, string_or_empty(t.id)),
        )
    } else {
        None
    }
}

pub open spec fn object_read_outcome(m: BehaviorManifest, read: BehaviorReadPlan) -> Option<Seq<char>> {
    match m.object_scopes {
        None => None,
        Some(sc) => {
            let b = m.name@;
            either(
                first_error(|i: int| wildcard_error(sc.read@, b, "read object"@, read.objects@[i].object_id@), read.objects@.len() as int),
                either(
                    first_error(|i: int| wildcard_error(sc.read@, b, "read object"@, read.object_bodies@[i].object_id@), read.object_bodies@.len() as int),
                    either(
                        first_error(|i: int| trace_object_error(sc, b, read.audit_traces@[i]), read.audit_traces@.len() as int),
                        first_error(|i: int| replay_object_error(sc, b, read.audit_replays@[i]), read.audit_replays@.len() as int),
                    ),
                ),
            )
        },
    }
}

/// The object scopes, when present, cover every object the plan reads.
#[verifier::loop_isolation(false)]
pub fn validate_object_scopes_for_read(manifest: &BehaviorManifest, read: &BehaviorReadPlan) -> (r: Result<(), BehaviorError>)
    ensures
        result_matches(r, object_read_outcome(*manifest, *read)),
{
    let scopes = match &manifest.object_scopes {
        None => return Ok(()),
        Some(s) => s,
    };
    let b = manifest.name.as_str();
    let ghost e1 = |i: int| wildcard_error(scopes.read@, b@, "read object"@, read.objects@[i].object_id@);
    let ghost e2 = |i: int| wildcard_error(scopes.read@, b@, "read object"@, read.object_bodies@[i].object_id@);
    let ghost e3 = |i: int| trace_object_error(*scopes, b@, read.audit_traces@[i]);
    let ghost e4 = |i: int| replay_object_error(*scopes, b@, read.audit_replays@[i]);
    let mut i: usize = 0;
    while i < read.objects.len()
        invariant
            i <= read.objects@.len(),
            first_error(e1, i as int) is None,
        decreases read.objects@.len() - i,
    {
        if let Err(e) = scopes.ensure_object_read(b, read.objects[i].object_id.as_str()) {
            proof { lemma_first_error_stable(e1, i + 1, read.objects@.len() as int); }
            return Err(e);
        }
        i = i + 1;
    }
    let mut i: usize = 0;
    while i < read.object_bodies.len()
        invariant
            i <= read.object_bodies@.len(),
            first_error(e2, i as int) is None,
        decreases read.object_bodies@.len() - i,
    {
        if let Err(e) = scopes.ensure_object_read(b, read.object_bodies[i].object_id.as_str()) {
            proof { lemma_first_error_stable(e2, i + 1, read.object_bodies@.len() as int); }
            return Err(e);
        }
        i = i + 1;
    }
    let mut i: usize = 0;
    while i < read.audit_traces.len()
        invariant
            i <= read.audit_traces@.len(),
            first_error(e3, i as int) is None,
        decreases read.audit_traces@.len() - i,
    {
        let item = &read.audit_traces[i];
        if item.kind == BehaviorAuditTraceKind::Object {
            let checked = match required_behavior_audit_field(as_deref(&item.id), "auditTraces object id is required") {
                Err(e) => Err(e),
                Ok(id) => scopes.ensure_object_read(b, id),
            };
            if let Err(e) = checked {
                proof { lemma_first_error_stable(e3, i + 1, read.audit_traces@.len() as int); }
                return Err(e);
            }
        }
        i = i + 1;
    }
    let mut i: usize = 0;
    while i < read.audit_replays.len()
        invariant
            i <= read.audit_replays@.len(),
            first_error(e4, i as int) is None,
        decreases read.audit_replays@.len() - i,
    {
        let item = &read.audit_replays[i];
        if item.kind == BehaviorAuditReplayKind::Object {
            let checked = match required_behavior_audit_field(as_deref(&item.id), "auditReplays object id is required") {
                Err(e) => Err(e),
                Ok(id) => scopes.ensure_object_read(b, id),
            };
            if let Err(e) = checked {
                proof { lemma_first_error_stable(e4, i + 1, read.audit_replays@.len() as int); }
                return Err(e);
            }
        }
        i = i + 1;
    }
    Ok(())
}

pub open spec fn realtime_read_outcome(m: BehaviorManifest, read: BehaviorReadPlan) -> Option<Seq<char>> {
    match m.realtime_scopes {
        None => None,
        Some(sc) => either(
            first_error(|i: int| wildcard_error(sc.read@, m.name@, "read realtime channel"@, read.realtime_channel_members@[i].channel_id@), read.realtime_channel_members@.len() as int),
            first_error(|i: int| wildcard_error(sc.read@, m.name@, "read realtime channel"@, read.realtime_channel_states@[i].channel_id@), read.realtime_channel_states@.len() as int),
        ),
    }
}

/// The realtime scopes, when present, cover every channel the plan reads.
#[verifier::loop_isolation(false)]
pub fn validate_realtime_scopes_for_read(manifest: &BehaviorManifest, read: &BehaviorReadPlan) -> (r: Result<(), BehaviorError>)
    ensures
        result_matches(r, realtime_read_outcome(*manifest, *read)),
{
    let scopes = match &manifest.realtime_scopes {
        None => return Ok(()),
        Some(s) => s,
    };
    let b = manifest.name.as_str();
    let ghost e1 = |i: int| wildcard_error(scopes.read@, b@, "read realtime channel"@, read.realtime_channel_members@[i].channel_id@);
    let ghost e2 = |i: int| wildcard_error(scopes.read@, b@, "read realtime channel"@, read.realtime_channel_states@[i].channel_id@);
    let mut i: usize = 0;
    while i < read.realtime_channel_members.len()
        invariant
            i <= read.realtime_channel_members@.len(),
            first_error(e1, i as int) is None,
        decreases read.realtime_channel_members@.len() - i,
    {
        if let Err(e) = scopes.ensure_channel_read(b, read.realtime_channel_members[i].channel_id.as_str()) {
            proof { lemma_first_error_stable(e1, i + 1, read.realtime_channel_members@.len() as int); }
            return Err(e);
        }
        i = i + 1;
    }
    let mut i: usize = 0;
    while i < read.realtime_channel_states.len()
        invariant
            i <= read.realtime_channel_states@.len(),
            first_error(e2, i as int) is None,
        decreases read.realtime_channel_states@.len() - i,
    {
        if let Err(e) = scopes.ensure_channel_read(b, read.realtime_channel_states[i].channel_id.as_str()) {
            proof { lemma_first_error_stable(e2, i + 1, read.realtime_channel_states@.len() as int); }
            return Err(e);
        }
        i = i + 1;
    }
    Ok(())
}

pub open spec fn connection_read_outcome(m: BehaviorManifest, read: BehaviorReadPlan) -> Option<Seq<char>> {
    match m.connection_scopes {
        None => None,
        Some(sc) => first_error(
            |i: int| sc.user_read_error(m.name@, opt_string_view(read.connection_sessions@[i].user_id)),
            read.connection_sessions@.len() as int,
        ),
    }
}

/// The connection scopes, when present, cover every user whose sessions the
/// plan reads; reading every user's sessions needs `*`.
#[verifier::loop_isolation(false)]
pub fn validate_connection_scopes_for_read(manifest: &BehaviorManifest, read: &BehaviorReadPlan) -> (r: Result<(), BehaviorError>)
    ensures
        result_matches(r, connection_read_outcome(*manifest, *read)),
{
    let scopes = match &manifest.connection_scopes {
        None => return Ok(()),
        Some(s) => s,
    };
    let b = manifest.name.as_str();
    let ghost e1 = |i: int| scopes.user_read_error(b@, opt_string_view(read.connection_sessions@[i].user_id));
    let mut i: usize = 0;
    while i < read.connection_sessions.len()
        invariant
            i <= read.connection_sessions@.len(),
            first_error(e1, i as int) is None,
        decreases read.connection_sessions@.len() - i,
    {
        if let Err(e) = scopes.ensure_user_read(b, as_deref(&read.connection_sessions[i].user_id)) {
            proof { lemma_first_error_stable(e1, i + 1, read.connection_sessions@.len() as int); }
            return Err(e);
        }
        i = i + 1;
    }
    Ok(())
}

pub open spec fn trace_user_error(sc: crate::behavior::BehaviorUserScopes, b: Seq<char>, t: BehaviorAuditTraceRead) -> Option<Seq<char>> {
    if t.kind == BehaviorAuditTraceKind::User {
        either(
            required_field_error(opt_string_view(t.id), "auditTraces user id is required"@),
            wildcard_error(sc.read@, b, "read user audit"@, string_or_empty(t.id)),
        )
    } else {
        None
    }
}

pub open spec fn replay_user_error(sc: crate::behavior::BehaviorUserScopes, b: Seq<char>, t: BehaviorAuditReplayRead) -> Option<Seq<char>> {
    if t.kind == BehaviorAuditReplayKind::User {
        either(
            required_field_error(opt_string_view(t.id), "auditReplays user id is required"@),
            wildcard_error(sc.read@, b, "read user audit"@, string_or_empty(t.id)),
        )
    } else {
        None
    }
}

pub open spec fn user_read_outcome(m: BehaviorManifest, read: BehaviorReadPlan) -> Option<Seq<char>> {
    match m.user_scopes {
        None => None,
        Some(sc) => either(
            first_error(|i: int| trace_user_error(sc, m.name@, read.audit_traces@[i]), read.audit_traces@.len() as int),
            first_error(|i: int| replay_user_error(sc, m.name@, read.audit_replays@[i]), read.audit_replays@.len() as int),
        ),
    }
}

/// The user scopes, when present, cover every user whose audit the plan reads.
#[verifier::loop_isolation(false)]
pub fn validate_user_scopes_for_read(manifest: &BehaviorManifest, read: &BehaviorReadPlan) -> (r: Result<(), BehaviorError>)
    ensures
        result_matches(r, user_read_outcome(*manifest, *read)),
{
    let scopes = match &manifest.user_scopes {
        None => return Ok(()),
        Some(s) => s,
    };
    let b = manifest.name.as_str();
    let ghost e1 = |i: int| trace_user_error(*scopes, b@, read.audit_traces@[i]);
    let ghost e2 = |i: int| replay_user_error(*scopes, b@, read.audit_replays@[i]);
    let mut i: usize = 0;
    while i < read.audit_traces.len()
        invariant
            i <= read.audit_traces@.len(),
            first_error(e1, i as int) is None,
        decreases read.audit_traces@.len() - i,
    {
        let item = &read.audit_traces[i];
        if item.kind == BehaviorAuditTraceKind::User {
            let checked = match required_behavior_audit_field(as_deref(&item.id), "auditTraces user id is required") {
                Err(e) => Err(e),
                Ok(id) => scopes.ensure_read(b, id),
            };
            if let Err(e) = checked {
                proof { lemma_first_error_stable(e1, i + 1, read.audit_traces@.len() as int); }
                return Err(e);
            }
        }
        i = i + 1;
    }
    let mut i: usize = 0;
    while i < read.audit_replays.len()
        invariant
            i <= read.audit_replays@.len(),
            first_error(e2, i as int) is None,
        decreases read.audit_replays@.len() - i,
    {
        let item = &read.audit_replays[i];
        if item.kind == BehaviorAuditReplayKind::User {
            let checked = match required_behavior_audit_field(as_deref(&item.id), "auditReplays user id is required") {
                Err(e) => Err(e),
                Ok(id) => scopes.ensure_read(b, id),
            };
            if let Err(e) = checked {
                proof { lemma_first_error_stable(e2, i + 1, read.audit_replays@.len() as int); }
                return Err(e);
            }
        }
        i = i + 1;
    }
    Ok(())
}

pub open spec fn msg_read_plan_not_allowed(b: Seq<char>, c: BehaviorReadCapability) -> Seq<char> {
    "behavior '"@ + b + "' is not allowed to use read plan "@ + read_capability_name(c)
}

/// The read-capability check alone: a plan may use only listed capabilities.
pub open spec fn read_capability_outcome(m: BehaviorManifest, read: BehaviorReadPlan) -> Option<Seq<char>> {
    match m.reads {
        None => None,
        Some(allowed) => {
            let caps = read.capabilities_spec();
            first_error(|i: int| check(allowed@.contains(caps[i]), msg_read_plan_not_allowed(m.name@, caps[i])), caps.len() as int)
        },
    }
}

/// All checks of a read plan, in the order the runtime makes them.
pub open spec fn read_plan_outcome(m: BehaviorManifest, read: BehaviorReadPlan) -> Option<Seq<char>> {
    either(read_capability_outcome(m, read),
    either(record_read_outcome(m, read),
    either(object_read_outcome(m, read),
    either(realtime_read_outcome(m, read),
    either(connection_read_outcome(m, read),
    user_read_outcome(m, read))))))
}

fn caps_contains(allowed: &[BehaviorReadCapability], c: BehaviorReadCapability) -> (r: bool)
    ensures
        r == allowed@.contains(c),
{
    let mut i: usize = 0;
    while i < allowed.len()
        invariant
            i <= allowed@.len(),
            forall|k: int| 0 <= k < i ==> allowed@[k] != c,
        decreases allowed@.len() - i,
    {
        if allowed[i] == c {
            return true;
        }
        i = i + 1;
    }
    false
}

/// Checks a read plan against the manifest: the capabilities it uses must be
/// listed (when the manifest lists any), and every record, object, channel,
/// connection and user it reads must lie within the manifest's scopes.
#[verifier::loop_isolation(false)]
pub fn validate_read_capabilities(manifest: &BehaviorManifest, read: &BehaviorReadPlan) -> (r: Result<(), BehaviorError>)
    ensures
        result_matches(r, read_plan_outcome(*manifest, *read)),
{
    if let Some(allowed) = &manifest.reads {
        let caps = read.capabilities();
        let ghost e1 = |i: int| check(allowed@.contains(caps@[i]), msg_read_plan_not_allowed(manifest.name@, caps@[i]));
        let mut i: usize = 0;
        while i < caps.len()
            invariant
                i <= caps@.len(),
                first_error(e1, i as int) is None,
            decreases caps@.len() - i,
        {
            if !caps_contains(allowed.as_slice(), caps[i]) {
                proof { lemma_first_error_stable(e1, i + 1, caps@.len() as int); }
                return Err(BehaviorError::new(cat4("behavior '", manifest.name.as_str(), "' is not allowed to use read plan ", caps[i].name())));
            }
            i = i + 1;
        }
    }
    validate_record_scopes_for_read(manifest, read)?;
    validate_object_scopes_for_read(manifest, read)?;
    validate_realtime_scopes_for_read(manifest, read)?;
    validate_connection_scopes_for_read(manifest, read)?;
    validate_user_scopes_for_read(manifest, read)?;
    Ok(())
}


// ---------------------------------------------------------------------------
// Host commands.

pub open spec fn operation_record_error(sc: BehaviorRecordScopes, b: Seq<char>, op: BehaviorRecordTransactionOperation) -> Option<Seq<char>> {
    match op {
        BehaviorRecordTransactionOperation::Upsert { table, .. } => sc.table_write_error(b, table@),
        BehaviorRecordTransactionOperation::Delete { table, .. } => sc.table_write_error(b, table@),
        BehaviorRecordTransactionOperation::NestedUpsert { table, nested, .. } => sc.nested_write_error(b, nested_label(table@, nested@)),
        BehaviorRecordTransactionOperation::NestedDelete { table, nested, .. } => sc.nested_write_error(b, nested_label(table@, nested@)),
    }
}

/// The record-scope check of one command.
pub open spec fn command_record_error(sc: BehaviorRecordScopes, b: Seq<char>, c: BehaviorCommand) -> Option<Seq<char>> {
    match c {
        BehaviorCommand::SendMessage { .. } => sc.nested_write_error(b, "rooms.messages"@),
        BehaviorCommand::UpsertRecord { table, .. } => sc.table_write_error(b, table@),
        BehaviorCommand::DeleteRecord { table, .. } => sc.table_write_error(b, table@),
        BehaviorCommand::RecordTransaction { operations, .. } => first_error(
            |i: int| operation_record_error(sc, b, operations@[i]),
            operations@.len() as int,
        ),
        BehaviorCommand::ActivateRuntimeRecords { table, .. } => sc.table_read_error(b, table@),
        BehaviorCommand::EvictRuntimeRecords { table, .. } => sc.table_write_error(b, table@),
        BehaviorCommand::ActivateRuntimeRoom { .. } => sc.nested_read_error(b, "rooms.messages"@),
        BehaviorCommand::EvictRuntimeRoom { .. } => sc.nested_write_error(b, "rooms.messages"@),
        _ => None,
    }
}

fn operation_record_check(sc: &BehaviorRecordScopes, b: &str, op: &BehaviorRecordTransactionOperation) -> (r: Result<(), BehaviorError>)
    ensures
        result_matches(r, operation_record_error(*sc, b@, *op)),
{
    match op {
        BehaviorRecordTransactionOperation::Upsert { table, .. } => sc.ensure_table_write(b, table.as_str()),
        BehaviorRecordTransactionOperation::Delete { table, .. } => sc.ensure_table_write(b, table.as_str()),
        BehaviorRecordTransactionOperation::NestedUpsert { table, nested, .. } => {
            let name = nested_scope_name(table.as_str(), nested.as_str());
            sc.ensure_nested_write(b, name.as_str())
        },
        BehaviorRecordTransactionOperation::NestedDelete { table, nested, .. } => {
            let name = nested_scope_name(table.as_str(), nested.as_str());
            sc.ensure_nested_write(b, name.as_str())
        },
    }
}

#[verifier::loop_isolation(false)]
fn command_record_check(sc: &BehaviorRecordScopes, b: &str, c: &BehaviorCommand) -> (r: Result<(), BehaviorError>)
    ensures
        result_matches(r, command_record_error(*sc, b@, *c)),
{
    match c {
        BehaviorCommand::SendMessage { .. } => sc.ensure_nested_write(b, "rooms.messages"),
        BehaviorCommand::UpsertRecord { table, .. } => sc.ensure_table_write(b, table.as_str()),
        BehaviorCommand::DeleteRecord { table, .. } => sc.ensure_table_write(b, table.as_str()),
        BehaviorCommand::RecordTransaction { operations, .. } => {
            let ghost errs = |i: int| operation_record_error(*sc, b@, operations@[i]);
            let mut i: usize = 0;
            while i < operations.len()
                invariant
                    i <= operations@.len(),
                    errs == (|i: int| operation_record_error(*sc, b@, operations@[i])),
                    first_error(errs, i as int) is None,
                decreases operations@.len() - i,
            {
                if let Err(e) = operation_record_check(sc, b, &operations[i]) {
                    proof { lemma_first_error_stable(errs, i + 1, operations@.len() as int); }
                    return Err(e);
                }
                i = i + 1;
            }
            Ok(())
        },
        BehaviorCommand::ActivateRuntimeRecords { table, .. } => sc.ensure_table_read(b, table.as_str()),
        BehaviorCommand::EvictRuntimeRecords { table, .. } => sc.ensure_table_write(b, table.as_str()),
        BehaviorCommand::ActivateRuntimeRoom { .. } => sc.ensure_nested_read(b, "rooms.messages"),
        BehaviorCommand::EvictRuntimeRoom { .. } => sc.ensure_nested_write(b, "rooms.messages"),
        _ => Ok(()),
    }
}

pub open spec fn record_commands_outcome(m: BehaviorManifest, commands: Seq<BehaviorCommand>) -> Option<Seq<char>> {
    match m.record_scopes {
        None => None,
        Some(sc) => first_error(|i: int| command_record_error(sc, m.name@, commands[i]), commands.len() as int),
    }
}

/// The record scopes, when present, cover every table and nested table that
/// the commands write, activate or evict.
#[verifier::loop_isolation(false)]
pub fn validate_record_scopes_for_commands(manifest: &BehaviorManifest, commands: &[BehaviorCommand]) -> (r: Result<(), BehaviorError>)
    ensures
        result_matches(r, record_commands_outcome(*manifest, commands@)),
{
    let scopes = match &manifest.record_scopes {
        None => return Ok(()),
        Some(s) => s,
    };
    let b = manifest.name.as_str();
    let ghost errs = |i: int| command_record_error(*scopes, b@, commands@[i]);
    let mut i: usize = 0;
    while i < commands.len()
        invariant
            i <= commands@.len(),
            first_error(errs, i as int) is None,
        decreases commands@.len() - i,
    {
        if let Err(e) = command_record_check(scopes, b, &commands[i]) {
            proof { lemma_first_error_stable(errs, i + 1, commands@.len() as int); }
            return Err(e);
        }
        i = i + 1;
    }
    Ok(())
}

pub open spec fn command_object_error(sc: crate::behavior::BehaviorObjectScopes, b: Seq<char>, c: BehaviorCommand) -> Option<Seq<char>> {
    match c {
        BehaviorCommand::PutObject { object_id, .. } => sc.object_write_optional_error(b, opt_string_view(object_id)),
        BehaviorCommand::DeleteObject { object_id, .. } => wildcard_error(sc.write@, b, "write object"@, object_id@),
        _ => None,
    }
}

pub open spec fn object_commands_outcome(m: BehaviorManifest, commands: Seq<BehaviorCommand>) -> Option<Seq<char>> {
    match m.object_scopes {
        None => None,
        Some(sc) => first_error(|i: int| command_object_error(sc, m.name@, commands[i]), commands.len() as int),
    }
}

/// The object scopes, when present, cover every object the commands put or
/// delete; a put with a generated id needs the write entry `*`.
#[verifier::loop_isolation(false)]
pub fn validate_object_scopes_for_commands(manifest: &BehaviorManifest, commands: &[BehaviorCommand]) -> (r: Result<(), BehaviorError>)
    ensures
        result_matches(r, object_commands_outcome(*manifest, commands@)),
{
    let scopes = match &manifest.object_scopes {
        None => return Ok(()),
        Some(s) => s,
    };
    let b = manifest.name.as_str();
    let ghost errs = |i: int| command_object_error(*scopes, b@, commands@[i]);
    let mut i: usize = 0;
    while i < commands.len()
        invariant
            i <= commands@.len(),
            first_error(errs, i as int) is None,
        decreases commands@.len() - i,
    {
        let checked = match &commands[i] {
            BehaviorCommand::PutObject { object_id, .. } => scopes.ensure_object_write_optional(b, as_deref(object_id)),
            BehaviorCommand::DeleteObject { object_id, .. } => scopes.ensure_object_write(b, object_id.as_str()),
            _ => Ok(()),
        };
        if let Err(e) = checked {
            proof { lemma_first_error_stable(errs, i + 1, commands@.len() as int); }
            return Err(e);
        }
        i = i + 1;
    }
    Ok(())
}

pub open spec fn command_realtime_error(sc: crate::behavior::BehaviorRealtimeScopes, b: Seq<char>, c: BehaviorCommand) -> Option<Seq<char>> {
    match c {
        BehaviorCommand::BroadcastRealtimeChannel { channel_id, .. } => wildcard_error(sc.write@, b, "write realtime channel"@, channel_id@),
        BehaviorCommand::UpdateRealtimePresence { channel_id, .. } => wildcard_error(sc.write@, b, "write realtime channel"@, channel_id@),
        BehaviorCommand::UpdateRealtimeChannelState { channel_id, .. } => wildcard_error(sc.write@, b, "write realtime channel"@, channel_id@),
        _ => None,
    }
}

pub open spec fn realtime_commands_outcome(m: BehaviorManifest, commands: Seq<BehaviorCommand>) -> Option<Seq<char>> {
    match m.realtime_scopes {
        None => None,
        Some(sc) => first_error(|i: int| command_realtime_error(sc, m.name@, commands[i]), commands.len() as int),
    }
}

/// The realtime scopes, when present, cover every channel the commands write.
#[verifier::loop_isolation(false)]
pub fn validate_realtime_scopes_for_commands(manifest: &BehaviorManifest, commands: &[BehaviorCommand]) -> (r: Result<(), BehaviorError>)
    ensures
        result_matches(r, realtime_commands_outcome(*manifest, commands@)),
{
    let scopes = match &manifest.realtime_scopes {
        None => return Ok(()),
        Some(s) => s,
    };
    let b = manifest.name.as_str();
    let ghost errs = |i: int| command_realtime_error(*scopes, b@, commands@[i]);
    let mut i: usize = 0;
    while i < commands.len()
        invariant
            i <= commands@.len(),
            first_error(errs, i as int) is None,
        decreases commands@.len() - i,
    {
        let checked = match &commands[i] {
            BehaviorCommand::BroadcastRealtimeChannel { channel_id, .. } => scopes.ensure_channel_write(b, channel_id.as_str()),
            BehaviorCommand::UpdateRealtimePresence { channel_id, .. } => scopes.ensure_channel_write(b, channel_id.as_str()),
            BehaviorCommand::UpdateRealtimeChannelState { channel_id, .. } => scopes.ensure_channel_write(b, channel_id.as_str()),
            _ => Ok(()),
        };
        if let Err(e) = checked {
            proof { lemma_first_error_stable(errs, i + 1, commands@.len() as int); }
            return Err(e);
        }
        i = i + 1;
    }
    Ok(())
}

pub open spec fn command_connection_error(sc: crate::behavior::BehaviorConnectionScopes, b: Seq<char>, c: BehaviorCommand) -> Option<Seq<char>> {
    match c {
        BehaviorCommand::DisconnectConnections { user_id, .. } => sc.user_write_error(b, opt_string_view(user_id)),
        _ => None,
    }
}

pub open spec fn connection_commands_outcome(m: BehaviorManifest, commands: Seq<BehaviorCommand>) -> Option<Seq<char>> {
    match m.connection_scopes {
        None => None,
        Some(sc) => first_error(|i: int| command_connection_error(sc, m.name@, commands[i]), commands.len() as int),
    }
}

/// The connection scopes, when present, cover every user whose connections
/// the commands close; closing every user's connections needs `*`.
#[verifier::loop_isolation(false)]
pub fn validate_connection_scopes_for_commands(manifest: &BehaviorManifest, commands: &[BehaviorCommand]) -> (r: Result<(), BehaviorError>)
    ensures
        result_matches(r, connection_commands_outcome(*manifest, commands@)),
{
    let scopes = match &manifest.connection_scopes {
        None => return Ok(()),
        Some(s) => s,
    };
    let b = manifest.name.as_str();
    let ghost errs = |i: int| command_connection_error(*scopes, b@, commands@[i]);
    let mut i: usize = 0;
    while i < commands.len()
        invariant
            i <= commands@.len(),
            first_error(errs, i as int) is None,
        decreases commands@.len() - i,
    {
        let checked = match &commands[i] {
            BehaviorCommand::DisconnectConnections { user_id, .. } => scopes.ensure_user_write(b, as_deref(user_id)),
            _ => Ok(()),
        };
        if let Err(e) = checked {
            proof { lemma_first_error_stable(errs, i + 1, commands@.len() as int); }
            return Err(e);
        }
        i = i + 1;
    }
    Ok(())
}

pub open spec fn command_event_error(sc: crate::behavior::BehaviorEventScopes, b: Seq<char>, c: BehaviorCommand) -> Option<Seq<char>> {
    match c {
        BehaviorCommand::PublishVolatile { name, .. } => wildcard_error(sc.publish@, b, "publish event"@, name@),
        BehaviorCommand::PublishUserVolatile { name, .. } => wildcard_error(sc.publish@, b, "publish event"@, name@),
        BehaviorCommand::PublishUserEvent { name, .. } => wildcard_error(sc.publish@, b, "publish event"@, name@),
        BehaviorCommand::BroadcastRealtimeChannel { kind, .. } => wildcard_error(sc.realtime_broadcast@, b, "broadcast realtime event"@, kind@),
        _ => None,
    }
}

pub open spec fn event_commands_outcome(m: BehaviorManifest, commands: Seq<BehaviorCommand>) -> Option<Seq<char>> {
    match m.event_scopes {
        None => None,
        Some(sc) => first_error(|i: int| command_event_error(sc, m.name@, commands[i]), commands.len() as int),
    }
}

/// The event scopes, when present, cover every event the commands publish and
/// every realtime event kind they broadcast.
#[verifier::loop_isolation(false)]
pub fn validate_event_scopes_for_commands(manifest: &BehaviorManifest, commands: &[BehaviorCommand]) -> (r: Result<(), BehaviorError>)
    ensures
        result_matches(r, event_commands_outcome(*manifest, commands@)),
{
    let scopes = match &manifest.event_scopes {
        None => return Ok(()),
        Some(s) => s,
    };
    let b = manifest.name.as_str();
    let ghost errs = |i: int| command_event_error(*scopes, b@, commands@[i]);
    let mut i: usize = 0;
    while i < commands.len()
        invariant
            i <= commands@.len(),
            first_error(errs, i as int) is None,
        decreases commands@.len() - i,
    {
        let checked = match &commands[i] {
            BehaviorCommand::PublishVolatile { name, .. } => scopes.ensure_publish(b, name.as_str()),
            BehaviorCommand::PublishUserVolatile { name, .. } => scopes.ensure_publish(b, name.as_str()),
            BehaviorCommand::PublishUserEvent { name, .. } => scopes.ensure_publish(b, name.as_str()),
            BehaviorCommand::BroadcastRealtimeChannel { kind, .. } => scopes.ensure_realtime_broadcast(b, kind.as_str()),
            _ => Ok(()),
        };
        if let Err(e) = checked {
            proof { lemma_first_error_stable(errs, i + 1, commands@.len() as int); }
            return Err(e);
        }
        i = i + 1;
    }
    Ok(())
}

pub open spec fn command_user_error(sc: crate::behavior::BehaviorUserScopes, b: Seq<char>, c: BehaviorCommand) -> Option<Seq<char>> {
    match c {
        BehaviorCommand::PublishUserEvent { user_id, .. } => wildcard_error(sc.publish@, b, "publish user event to user"@, user_id@),
        BehaviorCommand::PublishUserVolatile { user_id, .. } => wildcard_error(sc.publish@, b, "publish user event to user"@, user_id@),
        _ => None,
    }
}

pub open spec fn user_commands_outcome(m: BehaviorManifest, commands: Seq<BehaviorCommand>) -> Option<Seq<char>> {
    match m.user_scopes {
        None => None,
        Some(sc) => first_error(|i: int| command_user_error(sc, m.name@, commands[i]), commands.len() as int),
    }
}

/// The user scopes, when present, cover every user the commands publish to.
#[verifier::loop_isolation(false)]
pub fn validate_user_scopes_for_commands(manifest: &BehaviorManifest, commands: &[BehaviorCommand]) -> (r: Result<(), BehaviorError>)
    ensures
        result_matches(r, user_commands_outcome(*manifest, commands@)),
{
    let scopes = match &manifest.user_scopes {
        None => return Ok(()),
        Some(s) => s,
    };
    let b = manifest.name.as_str();
    let ghost errs = |i: int| command_user_error(*scopes, b@, commands@[i]);
    let mut i: usize = 0;
    while i < commands.len()
        invariant
            i <= commands@.len(),
            first_error(errs, i as int) is None,
        decreases commands@.len() - i,
    {
        let checked = match &commands[i] {
            BehaviorCommand::PublishUserEvent { user_id, .. } => scopes.ensure_publish(b, user_id.as_str()),
            BehaviorCommand::PublishUserVolatile { user_id, .. } => scopes.ensure_publish(b, user_id.as_str()),
            _ => Ok(()),
        };
        if let Err(e) = checked {
            proof { lemma_first_error_stable(errs, i + 1, commands@.len() as int); }
            return Err(e);
        }
        i = i + 1;
    }
    Ok(())
}

pub open spec fn command_host_http_error(m: BehaviorManifest, c: BehaviorCommand) -> Option<Seq<char>> {
    match c {
        BehaviorCommand::RequestHostHttp { url, .. } => match m.host_http_scopes {
            None => Some("behavior '"@ + m.name@ + "' is not allowed to request host HTTP without hostHttpScopes"@),
            Some(sc) => sc.url_error(m.name@, url@),
        },
        _ => None,
    }
}

pub open spec fn host_http_commands_outcome(m: BehaviorManifest, commands: Seq<BehaviorCommand>) -> Option<Seq<char>> {
    first_error(|i: int| command_host_http_error(m, commands[i]), commands.len() as int)
}

/// Every host HTTP request needs host HTTP scopes, and its URL must begin with
/// one of their prefixes.
#[verifier::loop_isolation(false)]
pub fn validate_host_http_scopes_for_commands(manifest: &BehaviorManifest, commands: &[BehaviorCommand]) -> (r: Result<(), BehaviorError>)
    ensures
        result_matches(r, host_http_commands_outcome(*manifest, commands@)),
{
    let ghost errs = |i: int| command_host_http_error(*manifest, commands@[i]);
    let mut i: usize = 0;
    while i < commands.len()
        invariant
            i <= commands@.len(),
            first_error(errs, i as int) is None,
        decreases commands@.len() - i,
    {
        let checked = match &commands[i] {
            BehaviorCommand::RequestHostHttp { url, .. } => match &manifest.host_http_scopes {
                None => Err(BehaviorError::new(cat3("behavior '", manifest.name.as_str(), "' is not allowed to request host HTTP without hostHttpScopes"))),
                Some(scopes) => scopes.ensure_url_allowed(manifest.name.as_str(), url.as_str()),
            },
            _ => Ok(()),
        };
        if let Err(e) = checked {
            proof { lemma_first_error_stable(errs, i + 1, commands@.len() as int); }
            return Err(e);
        }
        i = i + 1;
    }
    Ok(())
}

/// All scope checks of a command list, in the order the runtime makes them.
pub open spec fn command_scopes_outcome(m: BehaviorManifest, commands: Seq<BehaviorCommand>) -> Option<Seq<char>> {
    either(record_commands_outcome(m, commands),
    either(object_commands_outcome(m, commands),
    either(realtime_commands_outcome(m, commands),
    either(connection_commands_outcome(m, commands),
    either(user_commands_outcome(m, commands),
    either(event_commands_outcome(m, commands),
    host_http_commands_outcome(m, commands)))))))
}

/// Checks host commands against every scope kind of the manifest.
pub fn validate_command_scopes(manifest: &BehaviorManifest, commands: &[BehaviorCommand]) -> (r: Result<(), BehaviorError>)
    ensures
        result_matches(r, command_scopes_outcome(*manifest, commands@)),
{
    validate_record_scopes_for_commands(manifest, commands)?;
    validate_object_scopes_for_commands(manifest, commands)?;
    validate_realtime_scopes_for_commands(manifest, commands)?;
    validate_connection_scopes_for_commands(manifest, commands)?;
    validate_user_scopes_for_commands(manifest, commands)?;
    validate_event_scopes_for_commands(manifest, commands)?;
    validate_host_http_scopes_for_commands(manifest, commands)
}

pub open spec fn msg_command_not_allowed(b: Seq<char>, c: BehaviorCommandCapability) -> Seq<char> {
    "behavior '"@ + b + "' is not allowed to return host command "@ + command_capability_name(c)
}

/// With no command capabilities listed every command is allowed; otherwise
/// each command's capability must be listed.
pub open spec fn command_capabilities_outcome(m: BehaviorManifest, commands: Seq<BehaviorCommand>) -> Option<Seq<char>> {
    if m.commands@.len() == 0 {
        None
    } else {
        first_error(
            |i: int| check(m.commands@.contains(command_capability(commands[i])), msg_command_not_allowed(m.name@, command_capability(commands[i]))),
            commands.len() as int,
        )
    }
}

fn command_caps_contains(allowed: &[BehaviorCommandCapability], c: BehaviorCommandCapability) -> (r: bool)
    ensures
        r == allowed@.contains(c),
{
    let mut i: usize = 0;
    while i < allowed.len()
        invariant
            i <= allowed@.len(),
            forall|k: int| 0 <= k < i ==> allowed@[k] != c,
        decreases allowed@.len() - i,
    {
        if allowed[i] == c {
            return true;
        }
        i = i + 1;
    }
    false
}

#[verifier::loop_isolation(false)]
pub fn validate_command_capabilities(manifest: &BehaviorManifest, commands: &[BehaviorCommand]) -> (r: Result<(), BehaviorError>)
    ensures
        result_matches(r, command_capabilities_outcome(*manifest, commands@)),
{
    if manifest.commands.len() == 0 {
        return Ok(());
    }
    let ghost errs = |i: int| check(manifest.commands@.contains(command_capability(commands@[i])), msg_command_not_allowed(manifest.name@, command_capability(commands@[i])));
    let mut i: usize = 0;
    while i < commands.len()
        invariant
            i <= commands@.len(),
            first_error(errs, i as int) is None,
        decreases commands@.len() - i,
    {
        let cap = commands[i].capability();
        if !command_caps_contains(manifest.commands.as_slice(), cap) {
            proof { lemma_first_error_stable(errs, i + 1, commands@.len() as int); }
            return Err(BehaviorError::new(cat4("behavior '", manifest.name.as_str(), "' is not allowed to return host command ", cap.name())));
        }
        i = i + 1;
    }
    Ok(())
}


// ---------------------------------------------------------------------------
// Manifests.

pub open spec fn mutation_error(muts: Seq<Seq<char>>, i: int) -> Option<Seq<char>> {
    if blank(muts[i]) {
        Some("behavior manifest mutations must not contain empty names"@)
    } else if muts.subrange(0, i).contains(muts[i]) {
        Some("behavior manifest mutation '"@ + muts[i] + "' is duplicated"@)
    } else {
        None
    }
}

pub open spec fn scope_outcomes(m: BehaviorManifest) -> Option<Seq<char>> {
    either(match m.record_scopes { Some(s) => s.validate_outcome(), None => None },
    either(match m.object_scopes { Some(s) => s.validate_outcome(), None => None },
    either(match m.realtime_scopes { Some(s) => s.validate_outcome(), None => None },
    either(match m.connection_scopes { Some(s) => s.validate_outcome(), None => None },
    either(match m.user_scopes { Some(s) => s.validate_outcome(), None => None },
    either(match m.event_scopes { Some(s) => s.validate_outcome(), None => None },
    match m.host_http_scopes { Some(s) => s.validate_outcome(), None => None }))))))
}

pub open spec fn reads_outcome(m: BehaviorManifest) -> Option<Seq<char>> {
    match m.reads {
        None => None,
        Some(reads) => first_error(
            |i: int| check(!reads@.subrange(0, i).contains(reads@[i]), "behavior manifest read '"@ + read_capability_name(reads@[i]) + "' is duplicated"@),
            reads@.len() as int,
        ),
    }
}

pub open spec fn commands_outcome(m: BehaviorManifest) -> Option<Seq<char>> {
    first_error(
        |i: int| check(!m.commands@.subrange(0, i).contains(m.commands@[i]), "behavior manifest command '"@ + command_capability_name(m.commands@[i]) + "' is duplicated"@),
        m.commands@.len() as int,
    )
}

/// What validating a manifest reports: its name, version and mutations must
/// be non-blank and the mutations distinct; every declared input must be a
/// listed mutation; read and command capabilities must each be listed once;
/// and each scope kind must be valid.
pub open spec fn manifest_outcome(m: BehaviorManifest) -> Option<Seq<char>> {
    let muts = crate::scopes::views(m.mutations@);
    if blank(m.name@) {
        Some("behavior manifest name must not be empty"@)
    } else if blank(m.version@) {
        Some("behavior manifest version must not be empty"@)
    } else if muts.len() == 0 {
        Some("behavior manifest mutations must not be empty"@)
    } else {
        either(first_error(|i: int| mutation_error(muts, i), muts.len() as int),
        either(first_error(
            |i: int| check(muts.contains(m.inputs@[i]@), "behavior manifest input '"@ + m.inputs@[i]@ + "' is not listed in mutations"@),
            m.inputs@.len() as int,
        ),
        either(reads_outcome(m),
        either(scope_outcomes(m),
        commands_outcome(m)))))
    }
}

fn read_occurs_before(v: &[BehaviorReadCapability], i: usize) -> (r: bool)
    requires
        i < v@.len(),
    ensures
        r == v@.subrange(0, i as int).contains(v@[i as int]),
{
    let mut j: usize = 0;
    while j < i
        invariant
            i < v@.len(),
            j <= i,
            forall|k: int| 0 <= k < j ==> v@[k] != v@[i as int],
        decreases i - j,
    {
        if v[j] == v[i] {
            assert(v@.subrange(0, i as int)[j as int] == v@[i as int]);
            return true;
        }
        j = j + 1;
    }
    assert forall|k: int| 0 <= k < i implies v@.subrange(0, i as int)[k] != v@[i as int] by {
        assert(v@.subrange(0, i as int)[k] == v@[k]);
    }
    false
}

fn command_occurs_before(v: &[BehaviorCommandCapability], i: usize) -> (r: bool)
    requires
        i < v@.len(),
    ensures
        r == v@.subrange(0, i as int).contains(v@[i as int]),
{
    let mut j: usize = 0;
    while j < i
        invariant
            i < v@.len(),
            j <= i,
            forall|k: int| 0 <= k < j ==> v@[k] != v@[i as int],
        decreases i - j,
    {
        if v[j] == v[i] {
            assert(v@.subrange(0, i as int)[j as int] == v@[i as int]);
            return true;
        }
        j = j + 1;
    }
    assert forall|k: int| 0 <= k < i implies v@.subrange(0, i as int)[k] != v@[i as int] by {
        assert(v@.subrange(0, i as int)[k] == v@[k]);
    }
    false
}

fn contains_string(values: &[String], target: &str) -> (r: bool)
    ensures
        r == crate::scopes::views(values@).contains(target@),
{
    let t = chars_of(target);
    let mut j: usize = 0;
    while j < values.len()
        invariant
            j <= values@.len(),
            t@ == target@,
            forall|k: int| 0 <= k < j ==> values@[k]@ != target@,
        decreases values@.len() - j,
    {
        let c = chars_of(values[j].as_str());
        if crate::text::chars_eq(c.as_slice(), t.as_slice()) {
            assert(crate::scopes::views(values@)[j as int] == target@);
            return true;
        }
        j = j + 1;
    }
    assert forall|k: int| 0 <= k < values@.len() implies crate::scopes::views(values@)[k] != target@ by {
        assert(crate::scopes::views(values@)[k] == values@[k]@);
    }
    false
}

fn validate_manifest_scopes(manifest: &BehaviorManifest) -> (r: Result<(), BehaviorError>)
    ensures
        result_matches(r, scope_outcomes(*manifest)),
{
    if let Some(s) = &manifest.record_scopes {
        s.validate()?;
    }
    if let Some(s) = &manifest.object_scopes {
        s.validate()?;
    }
    if let Some(s) = &manifest.realtime_scopes {
        s.validate()?;
    }
    if let Some(s) = &manifest.connection_scopes {
        s.validate()?;
    }
    if let Some(s) = &manifest.user_scopes {
        s.validate()?;
    }
    if let Some(s) = &manifest.event_scopes {
        s.validate()?;
    }
    if let Some(s) = &manifest.host_http_scopes {
        s.validate()?;
    }
    Ok(())
}

/// Validates a behavior manifest (see `manifest_outcome`).
#[verifier::loop_isolation(false)]
pub fn validate_manifest(manifest: &BehaviorManifest) -> (r: Result<(), BehaviorError>)
    ensures
        result_matches(r, manifest_outcome(*manifest)),
{
    let name = chars_of(manifest.name.as_str());
    if chars_blank(name.as_slice()) {
        return Err(BehaviorError::new(owned("behavior manifest name must not be empty")));
    }
    let version = chars_of(manifest.version.as_str());
    if chars_blank(version.as_slice()) {
        return Err(BehaviorError::new(owned("behavior manifest version must not be empty")));
    }
    if manifest.mutations.len() == 0 {
        return Err(BehaviorError::new(owned("behavior manifest mutations must not be empty")));
    }
    let ghost muts = crate::scopes::views(manifest.mutations@);
    let ghost e1 = |i: int| mutation_error(muts, i);
    let mut i: usize = 0;
    while i < manifest.mutations.len()
        invariant
            i <= manifest.mutations@.len(),
            first_error(e1, i as int) is None,
        decreases manifest.mutations@.len() - i,
    {
        let m = chars_of(manifest.mutations[i].as_str());
        assert(muts[i as int] == manifest.mutations@[i as int]@);
        if chars_blank(m.as_slice()) {
            proof { lemma_first_error_stable(e1, i + 1, muts.len() as int); }
            return Err(BehaviorError::new(owned("behavior manifest mutations must not contain empty names")));
        }
        if crate::scopes::occurs_before(manifest.mutations.as_slice(), i) {
            proof { lemma_first_error_stable(e1, i + 1, muts.len() as int); }
            return Err(BehaviorError::new(cat3("behavior manifest mutation '", manifest.mutations[i].as_str(), "' is duplicated")));
        }
        i = i + 1;
    }
    let ghost e2 = |i: int| check(muts.contains(manifest.inputs@[i]@), "behavior manifest input '"@ + manifest.inputs@[i]@ + "' is not listed in mutations"@);
    let mut i: usize = 0;
    while i < manifest.inputs.len()
        invariant
            i <= manifest.inputs@.len(),
            first_error(e2, i as int) is None,
        decreases manifest.inputs@.len() - i,
    {
        if !contains_string(manifest.mutations.as_slice(), manifest.inputs[i].as_str()) {
            proof { lemma_first_error_stable(e2, i + 1, manifest.inputs@.len() as int); }
            return Err(BehaviorError::new(cat3("behavior manifest input '", manifest.inputs[i].as_str(), "' is not listed in mutations")));
        }
        i = i + 1;
    }
    if let Some(reads) = &manifest.reads {
        let ghost e3 = |i: int| check(!reads@.subrange(0, i).contains(reads@[i]), "behavior manifest read '"@ + read_capability_name(reads@[i]) + "' is duplicated"@);
        let mut i: usize = 0;
        while i < reads.len()
            invariant
                i <= reads@.len(),
                first_error(e3, i as int) is None,
            decreases reads@.len() - i,
        {
            if read_occurs_before(reads.as_slice(), i) {
                proof { lemma_first_error_stable(e3, i + 1, reads@.len() as int); }
                return Err(BehaviorError::new(cat3("behavior manifest read '", reads[i].name(), "' is duplicated")));
            }
            i = i + 1;
        }
    }
    validate_manifest_scopes(manifest)?;
    let ghost e4 = |i: int| check(!manifest.commands@.subrange(0, i).contains(manifest.commands@[i]), "behavior manifest command '"@ + command_capability_name(manifest.commands@[i]) + "' is duplicated"@);
    let mut i: usize = 0;
    while i < manifest.commands.len()
        invariant
            i <= manifest.commands@.len(),
            first_error(e4, i as int) is None,
        decreases manifest.commands@.len() - i,
    {
        if command_occurs_before(manifest.commands.as_slice(), i) {
            proof { lemma_first_error_stable(e4, i + 1, manifest.commands@.len() as int); }
            return Err(BehaviorError::new(cat3("behavior manifest command '", manifest.commands[i].name(), "' is duplicated")));
        }
        i = i + 1;
    }
    Ok(())
}


/// Whether `keys` lists `key`.
pub fn contains_key_of(keys: &[String], key: &str) -> (r: bool)
    ensures
        r == crate::scopes::views(keys@).contains(key@),
{
    contains_string(keys, key)
}


/// A manifest that lists no command capabilities allows every command's
/// capability.
pub proof fn unlisted_command_capabilities_allow_every_command(m: BehaviorManifest, commands: Seq<BehaviorCommand>)
    requires
        m.commands@.len() == 0,
    ensures
        command_capabilities_outcome(m, commands) is None,
{
}

/// A read plan that reads nothing passes every check of the manifest.
pub proof fn empty_read_plan_is_always_allowed(m: BehaviorManifest, read: BehaviorReadPlan)
    requires
        read.records@.len() == 0,
        read.nested_records@.len() == 0,
        read.latest_messages@.len() == 0,
        read.objects@.len() == 0,
        read.object_bodies@.len() == 0,
        read.realtime_channel_members@.len() == 0,
        read.realtime_channel_states@.len() == 0,
        read.connection_sessions@.len() == 0,
        read.audit_traces@.len() == 0,
        read.audit_replays@.len() == 0,
    ensures
        read_plan_outcome(m, read) is None,
{
    assert(read.capabilities_spec() =~= Seq::<BehaviorReadCapability>::empty());
}

/// Returning no commands passes every command check of the manifest.
pub proof fn no_commands_are_always_allowed(m: BehaviorManifest)
    ensures
        command_capabilities_outcome(m, Seq::empty()) is None,
        command_scopes_outcome(m, Seq::empty()) is None,
{
}

} // verus!

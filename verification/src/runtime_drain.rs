//! Draining the node: while it drains it refuses new writes, and a restart
//! is prepared by draining, waiting for the writes under way, then taking a
//! snapshot and compacting the log as asked.
use vstd::prelude::*;
use crate::api_error::{ApiError, ApiErrorKind};
use crate::continuation::{num_or_null, opt_number_json, opt_seq, opt_string_json, str_or_null};
use crate::json::{JsonValue, JsonView, lemma_object_view, members_view, opt_json_view};
use crate::text::{chars_of, owned, trim, trim_string};

verus! {

/// Whether the node drains, why, and since when.
pub struct RuntimeDrainState {
    pub draining: bool,
    pub reason: Option<String>,
    pub updated_at_ms: Option<u64>,
}

/// Sets the drain state at `now`; the reason trimmed, none where blank.
/// Gives the new state.
pub fn set_runtime_drain_state(drain: &mut RuntimeDrainState, draining: bool, reason: Option<String>, now: u64) -> (r:
    RuntimeDrainState)
    ensures
        final(drain).draining == draining,
        final(drain).updated_at_ms == Some(now),
        match reason {
            Some(m) => if trim(m@).len() > 0 {
                final(drain).reason matches Some(x) && x@ == trim(m@)
            } else {
                final(drain).reason is None
            },
            None => final(drain).reason is None,
        },
        r.draining == final(drain).draining && r.updated_at_ms == final(drain).updated_at_ms,
        r.reason == final(drain).reason,
{
    let kept = match reason {
        Some(m) => {
            let t = trim_string(m.as_str());
            if chars_of(t.as_str()).len() > 0 {
                Some(t)
            } else {
                None
            }
        },
        None => None,
    };
    let shown = match &kept {
        Some(t) => Some(t.clone()),
        None => None,
    };
    drain.draining = draining;
    drain.reason = kept;
    drain.updated_at_ms = Some(now);
    RuntimeDrainState { draining, reason: shown, updated_at_ms: Some(now) }
}

/// The details of a write refused while the node drains: that it drains,
/// why, and since when.
pub open spec fn drain_details(drain: RuntimeDrainState) -> JsonView {
    JsonView::Object(
        seq![
            ("draining"@, JsonView::Bool(true)),
            ("reason"@, str_or_null(opt_seq(drain.reason))),
            ("updatedAtMs"@, num_or_null(drain.updated_at_ms)),
        ],
    )
}

/// Refuses a write while the node drains.
pub fn ensure_runtime_accepting_writes(drain: &RuntimeDrainState) -> (r: Result<(), ApiError>)
    ensures
        r is Ok <==> !drain.draining,
        r matches Err(e) ==> e.kind == ApiErrorKind::Unavailable && e.message@ == "node is draining; retry another replica"@
            && opt_json_view(e.details) == Some(drain_details(*drain)),
{
    if !drain.draining {
        return Ok(());
    }
    let reason = match &drain.reason {
        Some(t) => Some(t.clone()),
        None => None,
    };
    let mut members: Vec<(String, JsonValue)> = Vec::new();
    members.push((owned("draining"), JsonValue::Bool(true)));
    members.push((owned("reason"), opt_string_json(reason)));
    members.push((owned("updatedAtMs"), opt_number_json(drain.updated_at_ms)));
    proof {
        lemma_object_view(members);
        assert(members_view(members@) =~= drain_details(*drain)->Object_0);
    }
    Err(ApiError::unavailable_with_details(owned("node is draining; retry another replica"), JsonValue::Object(members)))
}

/// What a restart is prepared with: why the node drains, how long it waits
/// for writes under way, and whether it snapshots and compacts the log.
pub struct RestartPlan {
    pub reason: String,
    pub wait_for_writes_ms: u64,
    pub snapshot: bool,
    pub compact_wal: bool,
}

/// The plan of a restart request: the reason given (else `prepare
/// restart`), the wait given (else `default_wait_ms`), a snapshot unless
/// refused, compaction only when asked.
pub fn restart_plan(
    reason: Option<String>,
    wait_for_writes_ms: Option<u64>,
    snapshot: Option<bool>,
    compact_wal: Option<bool>,
    default_wait_ms: u64,
) -> (p: RestartPlan)
    ensures
        p.reason@ == match reason {
            Some(m) => m@,
            None => "prepare restart"@,
        },
        p.wait_for_writes_ms == match wait_for_writes_ms {
            Some(w) => w,
            None => default_wait_ms,
        },
        p.snapshot == match snapshot {
            Some(b) => b,
            None => true,
        },
        p.compact_wal == match compact_wal {
            Some(b) => b,
            None => false,
        },
{
    RestartPlan {
        reason: match reason {
            Some(m) => m,
            None => owned("prepare restart"),
        },
        wait_for_writes_ms: match wait_for_writes_ms {
            Some(w) => w,
            None => default_wait_ms,
        },
        snapshot: match snapshot {
            Some(b) => b,
            None => true,
        },
        compact_wal: match compact_wal {
            Some(b) => b,
            None => false,
        },
    }
}

/// Whether the node may restart: the writes under way finished, and the
/// snapshot and compaction asked for were made (they are made only once
/// the writes finished).
pub fn ready_for_restart(plan: &RestartPlan, writes_quiesced: bool, snapshot_made: bool, compacted: bool) -> (b: bool)
    ensures
        b == (writes_quiesced && (!plan.snapshot || snapshot_made) && (!plan.compact_wal || compacted)),
{
    writes_quiesced && (!plan.snapshot || snapshot_made) && (!plan.compact_wal || compacted)
}

} // verus!

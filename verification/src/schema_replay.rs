//! The status of a schema replay apply, and when a failed one may be resumed.
use vstd::prelude::*;
use crate::api_error::{ApiError, ApiErrorKind};
use crate::json::JsonValue;
use crate::text::{owned, str_eq};

verus! {

#[derive(PartialEq, Eq, Structural, Clone, Copy, Debug)]
pub enum SchemaReplayApplyPhase {
    Idle,
    Running,
    Committing,
    Succeeded,
    Failed,
    Cancelled,
}

/// The status of a schema replay apply. The schema it applies and the
/// projection status are kept as the documents they are.
pub struct SchemaReplayApplyStatus {
    pub phase: SchemaReplayApplyPhase,
    pub run_id: Option<String>,
    pub resumed_from_run_id: Option<String>,
    pub target_version: Option<u32>,
    pub expected_version: Option<u32>,
    pub schema: Option<JsonValue>,
    pub allow_breaking_replay: bool,
    pub replay_rebuild: bool,
    pub projection_rebuild: bool,
    pub resume_eligible: bool,
    pub resume_reason: Option<String>,
    pub started_at_ms: Option<u64>,
    pub finished_at_ms: Option<u64>,
    pub schema_audit_lsn: Option<u64>,
    pub projection_status: Option<JsonValue>,
    pub error: Option<String>,
}

impl Default for SchemaReplayApplyStatus {
    /// No replay yet: idle, with nothing recorded.
    fn default() -> (s: Self)
        ensures
            s.phase == SchemaReplayApplyPhase::Idle,
            s.run_id is None && s.resumed_from_run_id is None,
            s.target_version is None && s.expected_version is None,
            s.schema is None,
            !s.allow_breaking_replay && !s.replay_rebuild && !s.projection_rebuild,
            !s.resume_eligible && s.resume_reason is None,
            s.started_at_ms is None && s.finished_at_ms is None,
            s.schema_audit_lsn is None && s.projection_status is None && s.error is None,
    {
        SchemaReplayApplyStatus {
            phase: SchemaReplayApplyPhase::Idle,
            run_id: None,
            resumed_from_run_id: None,
            target_version: None,
            expected_version: None,
            schema: None,
            allow_breaking_replay: false,
            replay_rebuild: false,
            projection_rebuild: false,
            resume_eligible: false,
            resume_reason: None,
            started_at_ms: None,
            finished_at_ms: None,
            schema_audit_lsn: None,
            projection_status: None,
            error: None,
        }
    }
}

/// The status unchanged but for whether it may be resumed and why.
pub open spec fn same_but_resume(a: SchemaReplayApplyStatus, b: SchemaReplayApplyStatus) -> bool {
    &&& a.phase == b.phase
    &&& a.run_id == b.run_id
    &&& a.resumed_from_run_id == b.resumed_from_run_id
    &&& a.target_version == b.target_version
    &&& a.expected_version == b.expected_version
    &&& a.schema == b.schema
    &&& a.allow_breaking_replay == b.allow_breaking_replay
    &&& a.replay_rebuild == b.replay_rebuild
    &&& a.projection_rebuild == b.projection_rebuild
    &&& a.started_at_ms == b.started_at_ms
    &&& a.finished_at_ms == b.finished_at_ms
    &&& a.schema_audit_lsn == b.schema_audit_lsn
    &&& a.projection_status == b.projection_status
    &&& a.error == b.error
}

/// Marks the status as one that may be resumed, for `reason`.
pub fn mark_schema_replay_resume_eligible(status: &mut SchemaReplayApplyStatus, reason: &str)
    ensures
        same_but_resume(*old(status), *final(status)),
        final(status).resume_eligible,
        final(status).resume_reason is Some && final(status).resume_reason->Some_0@ == reason@,
{
    status.resume_eligible = true;
    status.resume_reason = Some(owned(reason));
}

/// A replay may be resumed when it failed while applying a schema that
/// rebuilds the replay or the projections.
pub open spec fn resumable(s: SchemaReplayApplyStatus) -> bool {
    s.phase == SchemaReplayApplyPhase::Failed && s.schema is Some && (s.replay_rebuild || s.projection_rebuild)
}

pub open spec fn resume_reason_text() -> Seq<char> {
    "failed replay status includes a retryable schema; call resumeSchemaReplayApply() to restart"@
}

/// `after` is `before` with its resume fields in line with the rest: a
/// resumable status is marked (keeping a reason it already has), any other is
/// unmarked.
pub open spec fn reconciled(before: SchemaReplayApplyStatus, after: SchemaReplayApplyStatus) -> bool {
    &&& same_but_resume(before, after)
    &&& after.resume_eligible == resumable(before)
    &&& resumable(before) && before.resume_eligible ==> after.resume_reason == before.resume_reason
    &&& resumable(before) && !before.resume_eligible ==> (after.resume_reason is Some
        && after.resume_reason->Some_0@ == resume_reason_text())
    &&& !resumable(before) ==> after.resume_reason is None
}

/// Brings the resume fields in line with the rest of the status.
pub fn reconcile_schema_replay_resume_fields(status: &mut SchemaReplayApplyStatus)
    ensures
        reconciled(*old(status), *final(status)),
{
    if status.phase == SchemaReplayApplyPhase::Failed && status.schema.is_some() && (status.replay_rebuild
        || status.projection_rebuild) {
        if !status.resume_eligible {
            mark_schema_replay_resume_eligible(
                status,
                "failed replay status includes a retryable schema; call resumeSchemaReplayApply() to restart",
            );
        }
    } else {
        status.resume_eligible = false;
        status.resume_reason = None;
    }
}

/// Reconciling a reconciled status leaves it as it is.
pub proof fn reconcile_is_idempotent(
    first: SchemaReplayApplyStatus,
    once: SchemaReplayApplyStatus,
    twice: SchemaReplayApplyStatus,
)
    requires
        reconciled(first, once),
        reconciled(once, twice),
    ensures
        twice == once,
{
}

/// The text of an optional string.
pub open spec fn opt_chars(o: Option<String>) -> Option<Seq<char>> {
    match o {
        Some(s) => Some(s@),
        None => None,
    }
}

pub open spec fn interrupted_error_text() -> Seq<char> {
    "schema replay apply was running during previous shutdown; rerun backgroundReplay to resume"@
}

pub open spec fn interrupted_reason_text() -> Seq<char> {
    "interrupted before SchemaApplied commit; call resumeSchemaReplayApply() to restart"@
}

/// Brings a status read back at start-up up to date, at `now`, with what the
/// log shows of the schema (`latest_version` and the LSN that applied it)
/// and the projections' status. A replay that was committing the version
/// the log now holds has succeeded; one still running or committing was cut
/// short and may be resumed; any other has its resume fields reconciled.
/// Says whether the status changed so that it must be stored again.
pub fn recover_schema_replay_status(
    status: &mut SchemaReplayApplyStatus,
    latest_version: Option<u32>,
    latest_lsn: Option<u64>,
    projection_status: JsonValue,
    now: u64,
) -> (changed: bool)
    ensures
        old(status).phase == SchemaReplayApplyPhase::Committing && old(status).target_version == latest_version ==> {
            &&& changed
            &&& final(status).phase == SchemaReplayApplyPhase::Succeeded
            &&& final(status).finished_at_ms == Some(now)
            &&& final(status).schema_audit_lsn == latest_lsn
            &&& final(status).projection_status == Some(projection_status)
            &&& final(status).error is None
            &&& !final(status).resume_eligible
            &&& final(status).resume_reason is None
            &&& final(status).run_id == old(status).run_id
            &&& final(status).schema == old(status).schema
        },
        (old(status).phase == SchemaReplayApplyPhase::Running || (old(status).phase
            == SchemaReplayApplyPhase::Committing && old(status).target_version != latest_version)) ==> {
            &&& changed
            &&& final(status).phase == SchemaReplayApplyPhase::Failed
            &&& final(status).finished_at_ms == Some(now)
            &&& opt_chars(final(status).error) == Some(interrupted_error_text())
            &&& final(status).resume_eligible
            &&& opt_chars(final(status).resume_reason) == Some(interrupted_reason_text())
            &&& final(status).run_id == old(status).run_id
            &&& final(status).schema == old(status).schema
            &&& final(status).schema_audit_lsn == old(status).schema_audit_lsn
        },
        old(status).phase != SchemaReplayApplyPhase::Running && old(status).phase
            != SchemaReplayApplyPhase::Committing ==> !changed && reconciled(*old(status), *final(status)),
{
    let committing = status.phase == SchemaReplayApplyPhase::Committing;
    if committing && status.target_version == latest_version {
        status.phase = SchemaReplayApplyPhase::Succeeded;
        status.finished_at_ms = Some(now);
        status.schema_audit_lsn = latest_lsn;
        status.projection_status = Some(projection_status);
        status.error = None;
        status.resume_eligible = false;
        status.resume_reason = None;
        return true;
    }
    if committing || status.phase == SchemaReplayApplyPhase::Running {
        status.phase = SchemaReplayApplyPhase::Failed;
        status.finished_at_ms = Some(now);
        status.error = Some(
            owned("schema replay apply was running during previous shutdown; rerun backgroundReplay to resume"),
        );
        mark_schema_replay_resume_eligible(
            status,
            "interrupted before SchemaApplied commit; call resumeSchemaReplayApply() to restart",
        );
        return true;
    }
    reconcile_schema_replay_resume_fields(status);
    false
}

/// Whether a replay is under way.
pub open spec fn replay_active(p: SchemaReplayApplyPhase) -> bool {
    p == SchemaReplayApplyPhase::Running || p == SchemaReplayApplyPhase::Committing
}

/// Checks that a replay may be restarted from the status: not while one is
/// under way, only after a failure, and only with the schema it failed on.
pub fn check_schema_replay_restart(status: &SchemaReplayApplyStatus) -> (r: Result<(), ApiError>)
    ensures
        r is Ok <==> status.phase == SchemaReplayApplyPhase::Failed && status.schema is Some,
        r matches Err(e) ==> e.kind == ApiErrorKind::Conflict && e.message@ == if replay_active(status.phase) {
            "schema replay apply already running"@
        } else if status.phase != SchemaReplayApplyPhase::Failed {
            "schema replay retry requires a failed replay status"@
        } else {
            "failed schema replay status does not include a retryable schema"@
        },
{
    if status.phase == SchemaReplayApplyPhase::Running || status.phase == SchemaReplayApplyPhase::Committing {
        return Err(ApiError::conflict(owned("schema replay apply already running")));
    }
    if status.phase != SchemaReplayApplyPhase::Failed {
        return Err(ApiError::conflict(owned("schema replay retry requires a failed replay status")));
    }
    if status.schema.is_none() {
        return Err(ApiError::conflict(owned("failed schema replay status does not include a retryable schema")));
    }
    Ok(())
}

/// Checks a schema apply request: a background replay cannot be a dry run.
pub fn check_schema_apply_request(background_replay: bool, dry_run: bool) -> (r: Result<(), ApiError>)
    ensures
        r is Ok <==> !(background_replay && dry_run),
        r matches Err(e) ==> e.kind == ApiErrorKind::BadRequest && e.message@
            == "backgroundReplay cannot be combined with dryRun"@,
{
    if background_replay && dry_run {
        return Err(ApiError::bad_request(owned("backgroundReplay cannot be combined with dryRun")));
    }
    Ok(())
}

/// Checks that a background replay (or its retry, `retry`) has something to
/// rebuild: the replay or the projections' shape.
pub fn check_replay_rebuild_needed(replay_rebuild: bool, projection_rebuild: bool, retry: bool) -> (r: Result<
    (),
    ApiError,
>)
    ensures
        r is Ok <==> (replay_rebuild || projection_rebuild),
        r matches Err(e) ==> e.kind == ApiErrorKind::BadRequest && e.message@ == if retry {
            "schema replay retry requires a replay or projection-shape rebuild"@
        } else {
            "backgroundReplay requires a replay or projection-shape rebuild"@
        },
{
    if !replay_rebuild && !projection_rebuild {
        if retry {
            return Err(ApiError::bad_request(owned("schema replay retry requires a replay or projection-shape rebuild")));
        }
        return Err(ApiError::bad_request(owned("backgroundReplay requires a replay or projection-shape rebuild")));
    }
    Ok(())
}

/// Starts run `run_id` of a replay at `now`, in place of the status:
/// refused while another replay is under way.
pub fn start_schema_replay_apply(
    status: &mut SchemaReplayApplyStatus,
    run_id: String,
    schema: JsonValue,
    target_version: u32,
    expected_version: Option<u32>,
    allow_breaking_replay: bool,
    replay_rebuild: bool,
    projection_rebuild: bool,
    resumed_from_run_id: Option<String>,
    now: u64,
) -> (r: Result<(), ApiError>)
    ensures
        r is Ok <==> !replay_active(old(status).phase),
        r matches Err(e) ==> e.kind == ApiErrorKind::Conflict && e.message@ == "schema replay apply already running"@
            && *final(status) == *old(status),
        r is Ok ==> *final(status) == (SchemaReplayApplyStatus {
            phase: SchemaReplayApplyPhase::Running,
            run_id: Some(run_id),
            resumed_from_run_id,
            target_version: Some(target_version),
            expected_version,
            schema: Some(schema),
            allow_breaking_replay,
            replay_rebuild,
            projection_rebuild,
            resume_eligible: false,
            resume_reason: None,
            started_at_ms: Some(now),
            finished_at_ms: None,
            schema_audit_lsn: None,
            projection_status: None,
            error: None,
        }),
{
    if status.phase == SchemaReplayApplyPhase::Running || status.phase == SchemaReplayApplyPhase::Committing {
        return Err(ApiError::conflict(owned("schema replay apply already running")));
    }
    *status = SchemaReplayApplyStatus {
        phase: SchemaReplayApplyPhase::Running,
        run_id: Some(run_id),
        resumed_from_run_id,
        target_version: Some(target_version),
        expected_version,
        schema: Some(schema),
        allow_breaking_replay,
        replay_rebuild,
        projection_rebuild,
        resume_eligible: false,
        resume_reason: None,
        started_at_ms: Some(now),
        finished_at_ms: None,
        schema_audit_lsn: None,
        projection_status: None,
        error: None,
    };
    Ok(())
}

fn is_run(status: &SchemaReplayApplyStatus, run_id: &str) -> (b: bool)
    ensures
        b == (opt_chars(status.run_id) == Some(run_id@)),
{
    match &status.run_id {
        Some(r) => str_eq(r.as_str(), run_id),
        None => false,
    }
}

/// Moves run `run_id` to committing: refused once another run took over,
/// or once the run was cancelled or ended; a run already committing stays so.
pub fn mark_schema_replay_committing(status: &mut SchemaReplayApplyStatus, run_id: &str) -> (r: Result<(), ApiError>)
    ensures
        r is Ok <==> (opt_chars(old(status).run_id) == Some(run_id@) && replay_active(old(status).phase)),
        r matches Err(e) ==> e.kind == ApiErrorKind::Conflict && *final(status) == *old(status) && e.message@ == if opt_chars(
            old(status).run_id,
        ) != Some(run_id@) {
            "schema replay apply run changed before commit"@
        } else if old(status).phase == SchemaReplayApplyPhase::Cancelled {
            "schema replay apply cancelled before commit"@
        } else {
            "schema replay apply is no longer running"@
        },
        r is Ok && old(status).phase == SchemaReplayApplyPhase::Committing ==> *final(status) == *old(status),
        r is Ok && old(status).phase == SchemaReplayApplyPhase::Running ==> {
            &&& final(status).phase == SchemaReplayApplyPhase::Committing
            &&& final(status).error is None
            &&& !final(status).resume_eligible
            &&& final(status).resume_reason is None
            &&& final(status).run_id == old(status).run_id
            &&& final(status).schema == old(status).schema
            &&& final(status).target_version == old(status).target_version
        },
{
    if !is_run(status, run_id) {
        return Err(ApiError::conflict(owned("schema replay apply run changed before commit")));
    }
    match status.phase {
        SchemaReplayApplyPhase::Running => {
            status.phase = SchemaReplayApplyPhase::Committing;
            status.error = None;
            status.resume_eligible = false;
            status.resume_reason = None;
            Ok(())
        },
        SchemaReplayApplyPhase::Cancelled => Err(ApiError::conflict(owned("schema replay apply cancelled before commit"))),
        SchemaReplayApplyPhase::Committing => Ok(()),
        _ => Err(ApiError::conflict(owned("schema replay apply is no longer running"))),
    }
}

/// What a finished schema apply reports.
pub struct SchemaApplyOutcome {
    pub schema_audit_lsn: Option<u64>,
    pub projection_status: JsonValue,
    pub replay_rebuild: bool,
    pub projection_rebuilt: bool,
}

/// Records how run `run_id` ended at `now`: nothing where another run took
/// over or the run was cancelled; else succeeded with what the apply
/// reports, or failed with its error (and resumable where it is).
pub fn finish_schema_replay_apply(
    status: &mut SchemaReplayApplyStatus,
    run_id: &str,
    result: Result<SchemaApplyOutcome, String>,
    now: u64,
) -> (recorded: bool)
    ensures
        recorded == (opt_chars(old(status).run_id) == Some(run_id@) && old(status).phase
            != SchemaReplayApplyPhase::Cancelled),
        !recorded ==> *final(status) == *old(status),
        recorded ==> final(status).finished_at_ms == Some(now) && final(status).run_id == old(status).run_id
            && final(status).schema == old(status).schema,
        recorded ==> match result {
            Ok(o) => {
                &&& final(status).phase == SchemaReplayApplyPhase::Succeeded
                &&& final(status).schema_audit_lsn == o.schema_audit_lsn
                &&& final(status).projection_status == Some(o.projection_status)
                &&& final(status).replay_rebuild == o.replay_rebuild
                &&& final(status).projection_rebuild == o.projection_rebuilt
                &&& final(status).error is None
                &&& !final(status).resume_eligible
                &&& final(status).resume_reason is None
            },
            Err(m) => {
                &&& final(status).phase == SchemaReplayApplyPhase::Failed
                &&& final(status).error == Some(m)
                &&& final(status).replay_rebuild == old(status).replay_rebuild
                &&& final(status).projection_rebuild == old(status).projection_rebuild
                &&& final(status).resume_eligible == resumable(*final(status))
                &&& resumable(*final(status)) ==> opt_chars(final(status).resume_reason) == Some(resume_reason_text())
                &&& !resumable(*final(status)) ==> final(status).resume_reason is None
            },
        },
{
    if !is_run(status, run_id) || status.phase == SchemaReplayApplyPhase::Cancelled {
        return false;
    }
    status.finished_at_ms = Some(now);
    match result {
        Ok(o) => {
            status.phase = SchemaReplayApplyPhase::Succeeded;
            status.schema_audit_lsn = o.schema_audit_lsn;
            status.projection_status = Some(o.projection_status);
            status.replay_rebuild = o.replay_rebuild;
            status.projection_rebuild = o.projection_rebuilt;
            status.error = None;
            status.resume_eligible = false;
            status.resume_reason = None;
        },
        Err(m) => {
            status.phase = SchemaReplayApplyPhase::Failed;
            status.error = Some(m);
            if status.schema.is_some() && (status.replay_rebuild || status.projection_rebuild) {
                mark_schema_replay_resume_eligible(
                    status,
                    "failed replay status includes a retryable schema; call resumeSchemaReplayApply() to restart",
                );
            } else {
                status.resume_eligible = false;
                status.resume_reason = None;
            }
        },
    }
    true
}

/// Cancels a running replay at `now`; one that is committing, or not under
/// way, cannot be cancelled.
pub fn cancel_schema_replay_apply(status: &mut SchemaReplayApplyStatus, now: u64) -> (r: Result<(), ApiError>)
    ensures
        r is Ok <==> old(status).phase == SchemaReplayApplyPhase::Running,
        r matches Err(e) ==> e.kind == ApiErrorKind::Conflict && *final(status) == *old(status) && e.message@ == if old(
            status,
        ).phase == SchemaReplayApplyPhase::Committing {
            "schema replay apply is already committing"@
        } else {
            "schema replay cancel requires a running replay status"@
        },
        r is Ok ==> {
            &&& final(status).phase == SchemaReplayApplyPhase::Cancelled
            &&& final(status).finished_at_ms == Some(now)
            &&& opt_chars(final(status).error) == Some("cancelled by operator before SchemaApplied commit"@)
            &&& !final(status).resume_eligible
            &&& final(status).resume_reason is None
            &&& final(status).run_id == old(status).run_id
        },
{
    match status.phase {
        SchemaReplayApplyPhase::Running => {
            status.phase = SchemaReplayApplyPhase::Cancelled;
            status.finished_at_ms = Some(now);
            status.error = Some(owned("cancelled by operator before SchemaApplied commit"));
            status.resume_eligible = false;
            status.resume_reason = None;
            Ok(())
        },
        SchemaReplayApplyPhase::Committing => Err(ApiError::conflict(owned("schema replay apply is already committing"))),
        _ => Err(ApiError::conflict(owned("schema replay cancel requires a running replay status"))),
    }
}

} // verus!

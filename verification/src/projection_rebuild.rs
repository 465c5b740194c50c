//! The status of a projection rebuild: starting one (refused while one runs),
//! finishing it with its counts or its error, and the response that reports it.
use vstd::prelude::*;
use crate::api_error::{ApiError, ApiErrorKind};
use crate::text::owned;

verus! {

#[derive(PartialEq, Eq, Structural, Clone, Copy)]
pub enum ProjectionRebuildPhase {
    Idle,
    Running,
    Succeeded,
    Failed,
}

pub struct ProjectionRebuildStatus {
    pub phase: ProjectionRebuildPhase,
    pub run_id: Option<String>,
    pub background: bool,
    pub started_at_ms: Option<u64>,
    pub finished_at_ms: Option<u64>,
    pub messages: Option<usize>,
    pub records: Option<usize>,
    pub object_refs: Option<usize>,
    pub error: Option<String>,
}

impl Default for ProjectionRebuildStatus {
    fn default() -> (s: Self)
        ensures
            s.phase == ProjectionRebuildPhase::Idle,
            s.run_id is None,
            !s.background,
            s.started_at_ms is None,
            s.finished_at_ms is None,
            s.messages is None,
            s.records is None,
            s.object_refs is None,
            s.error is None,
    {
        ProjectionRebuildStatus {
            phase: ProjectionRebuildPhase::Idle,
            run_id: None,
            background: false,
            started_at_ms: None,
            finished_at_ms: None,
            messages: None,
            records: None,
            object_refs: None,
            error: None,
        }
    }
}

/// What a finished rebuild counted.
pub struct ProjectionRebuildCounts {
    pub messages: usize,
    pub records: usize,
    pub object_refs: usize,
}

fn copy_opt_string(o: &Option<String>) -> (r: Option<String>)
    ensures
        r == *o,
{
    match o {
        Some(s) => Some(s.clone()),
        None => None,
    }
}

impl ProjectionRebuildStatus {
    pub fn duplicate(&self) -> (r: Self)
        ensures
            r == *self,
    {
        ProjectionRebuildStatus {
            phase: self.phase,
            run_id: copy_opt_string(&self.run_id),
            background: self.background,
            started_at_ms: self.started_at_ms,
            finished_at_ms: self.finished_at_ms,
            messages: self.messages,
            records: self.records,
            object_refs: self.object_refs,
            error: copy_opt_string(&self.error),
        }
    }
}

/// Starts a rebuild with the run id and start time given: refused while one
/// is running, else the status becomes a fresh running one.
pub fn mark_projection_rebuild_running(
    status: &mut ProjectionRebuildStatus,
    background: bool,
    run_id: String,
    now_ms: u64,
) -> (r: Result<ProjectionRebuildStatus, ApiError>)
    ensures
        old(status).phase == ProjectionRebuildPhase::Running ==> {
            &&& r is Err
            &&& *final(status) == *old(status)
            &&& r->Err_0.kind == ApiErrorKind::Conflict
            &&& r->Err_0.message@ == "projection rebuild already running"@
        },
        old(status).phase != ProjectionRebuildPhase::Running ==> {
            &&& r is Ok
            &&& r->Ok_0 == *final(status)
            &&& final(status).phase == ProjectionRebuildPhase::Running
            &&& final(status).run_id == Some(run_id)
            &&& final(status).background == background
            &&& final(status).started_at_ms == Some(now_ms)
            &&& final(status).finished_at_ms is None
            &&& final(status).messages is None
            &&& final(status).records is None
            &&& final(status).object_refs is None
            &&& final(status).error is None
        },
{
    if status.phase == ProjectionRebuildPhase::Running {
        return Err(ApiError::conflict(owned("projection rebuild already running")));
    }
    let next = ProjectionRebuildStatus {
        phase: ProjectionRebuildPhase::Running,
        run_id: Some(run_id),
        background,
        started_at_ms: Some(now_ms),
        finished_at_ms: None,
        messages: None,
        records: None,
        object_refs: None,
        error: None,
    };
    *status = next.duplicate();
    Ok(next)
}

/// Finishes a rebuild at `now_ms`: with its counts it succeeded (and any error
/// is cleared), with an error it failed (and the counts stay).
pub fn finish_projection_rebuild(
    status: &mut ProjectionRebuildStatus,
    result: Result<ProjectionRebuildCounts, ApiError>,
    now_ms: u64,
) -> (r: ProjectionRebuildStatus)
    ensures
        r == *final(status),
        final(status).run_id == old(status).run_id,
        final(status).background == old(status).background,
        final(status).started_at_ms == old(status).started_at_ms,
        final(status).finished_at_ms == Some(now_ms),
        match result {
            Ok(counts) => {
                &&& final(status).phase == ProjectionRebuildPhase::Succeeded
                &&& final(status).messages == Some(counts.messages)
                &&& final(status).records == Some(counts.records)
                &&& final(status).object_refs == Some(counts.object_refs)
                &&& final(status).error is None
            },
            Err(e) => {
                &&& final(status).phase == ProjectionRebuildPhase::Failed
                &&& final(status).messages == old(status).messages
                &&& final(status).records == old(status).records
                &&& final(status).object_refs == old(status).object_refs
                &&& final(status).error == Some(e.message)
            },
        },
{
    match result {
        Ok(counts) => {
            status.phase = ProjectionRebuildPhase::Succeeded;
            status.finished_at_ms = Some(now_ms);
            status.messages = Some(counts.messages);
            status.records = Some(counts.records);
            status.object_refs = Some(counts.object_refs);
            status.error = None;
        },
        Err(err) => {
            status.phase = ProjectionRebuildPhase::Failed;
            status.finished_at_ms = Some(now_ms);
            status.error = Some(err.message);
        },
    }
    status.duplicate()
}

/// A rebuild's status as the rebuild endpoint reports it.
pub struct ProjectionRebuildResponse {
    pub messages: usize,
    pub records: usize,
    pub object_refs: usize,
    pub phase: ProjectionRebuildPhase,
    pub run_id: Option<String>,
    pub background: bool,
    pub started_at_ms: Option<u64>,
    pub finished_at_ms: Option<u64>,
    pub error: Option<String>,
}

pub open spec fn count_or_zero(c: Option<usize>) -> usize {
    match c {
        Some(n) => n,
        None => 0,
    }
}

impl ProjectionRebuildResponse {
    /// The response for a status: counts not yet known are 0.
    pub fn from_status(status: ProjectionRebuildStatus) -> (r: Self)
        ensures
            r.messages == count_or_zero(status.messages),
            r.records == count_or_zero(status.records),
            r.object_refs == count_or_zero(status.object_refs),
            r.phase == status.phase,
            r.run_id == status.run_id,
            r.background == status.background,
            r.started_at_ms == status.started_at_ms,
            r.finished_at_ms == status.finished_at_ms,
            r.error == status.error,
    {
        ProjectionRebuildResponse {
            messages: match status.messages {
                Some(n) => n,
                None => 0,
            },
            records: match status.records {
                Some(n) => n,
                None => 0,
            },
            object_refs: match status.object_refs {
                Some(n) => n,
                None => 0,
            },
            phase: status.phase,
            run_id: status.run_id,
            background: status.background,
            started_at_ms: status.started_at_ms,
            finished_at_ms: status.finished_at_ms,
            error: status.error,
        }
    }
}

} // verus!

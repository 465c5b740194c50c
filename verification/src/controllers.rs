//! What the background controllers decide on each pass and what they keep
//! of it: the failover controller acts on the first shard that is ready to
//! fail over, and the handoff controller steps the workflow it picked.
use vstd::prelude::*;
use crate::failover::FailoverPlanResponse;

verus! {

/// What the failover controller kept of its last pass.
pub struct FailoverControllerStatus {
    pub last_run_at_ms: Option<u64>,
    pub last_shard: Option<usize>,
    pub last_proposal_id: Option<String>,
    pub last_committed_proposal_id: Option<String>,
    pub last_error: Option<String>,
}

/// Takes in the plan of one shard, in shard order: whether the controller
/// acts on it (it is ready), and, where it is not, its reason noted as the
/// pass's error unless an earlier shard's reason already is.
pub fn note_failover_plan(last_error: &mut Option<String>, plan: &FailoverPlanResponse) -> (act: bool)
    ensures
        act == plan.ready,
        plan.ready ==> *final(last_error) == *old(last_error),
        !plan.ready ==> *final(last_error) == match *old(last_error) {
            Some(e) => Some(e),
            None => plan.reason,
        },
{
    if plan.ready {
        return true;
    }
    if last_error.is_none() {
        *last_error = match &plan.reason {
            Some(r) => Some(r.clone()),
            None => None,
        };
    }
    false
}

/// Keeps what the controller did with shard `shard` at `now_ms`: the
/// proposal it worked (`proposal_id`), and either the proposal it
/// committed, which clears the error, or the proposal's own last error.
pub fn record_failover_action(
    status: &mut FailoverControllerStatus,
    now_ms: u64,
    shard: usize,
    proposal_id: String,
    committed_proposal_id: Option<String>,
    proposal_error: Option<String>,
)
    ensures
        final(status).last_run_at_ms == Some(now_ms),
        final(status).last_shard == Some(shard),
        final(status).last_proposal_id == Some(proposal_id),
        match committed_proposal_id {
            Some(c) => final(status).last_committed_proposal_id == Some(c) && final(status).last_error is None,
            None => final(status).last_committed_proposal_id == old(status).last_committed_proposal_id
                && final(status).last_error == proposal_error,
        },
{
    status.last_run_at_ms = Some(now_ms);
    status.last_shard = Some(shard);
    status.last_proposal_id = Some(proposal_id);
    match committed_proposal_id {
        Some(c) => {
            status.last_committed_proposal_id = Some(c);
            status.last_error = None;
        },
        None => {
            status.last_error = proposal_error;
        },
    }
}

/// Keeps a pass at `now_ms` on which no shard was ready: no shard and no
/// proposal, and the first reason noted.
pub fn record_idle_failover_pass(status: &mut FailoverControllerStatus, now_ms: u64, last_error: Option<String>)
    ensures
        final(status).last_run_at_ms == Some(now_ms),
        final(status).last_shard is None,
        final(status).last_proposal_id is None,
        final(status).last_committed_proposal_id == old(status).last_committed_proposal_id,
        final(status).last_error == last_error,
{
    status.last_run_at_ms = Some(now_ms);
    status.last_shard = None;
    status.last_proposal_id = None;
    status.last_error = last_error;
}

/// What the handoff controller kept of its last pass.
pub struct HandoffControllerStatus {
    pub last_run_at_ms: Option<u64>,
    pub last_workflow_id: Option<String>,
    pub last_applied_workflow_id: Option<String>,
    pub last_error: Option<String>,
}

/// How stepping a workflow ended: whether it was applied (and the id of the
/// workflow then), or the error message.
pub enum HandoffStepOutcome {
    Stepped { applied: bool, workflow_id: String },
    Failed { message: String },
}

/// Keeps a pass of the handoff controller at `now_ms`: with no workflow
/// under way (`stepped` is `None`), no workflow and no error; else the
/// workflow stepped and how it ended (an applied workflow is noted; a
/// failure's message is the error).
pub fn record_handoff_pass(status: &mut HandoffControllerStatus, now_ms: u64, stepped: Option<(String, HandoffStepOutcome)>)
    ensures
        final(status).last_run_at_ms == Some(now_ms),
        match stepped {
            None => {
                &&& final(status).last_workflow_id is None
                &&& final(status).last_error is None
                &&& final(status).last_applied_workflow_id == old(status).last_applied_workflow_id
            },
            Some((id, HandoffStepOutcome::Stepped { applied, workflow_id: w })) => {
                &&& final(status).last_workflow_id == Some(id)
                &&& final(status).last_error is None
                &&& final(status).last_applied_workflow_id == if applied {
                    Some(w)
                } else {
                    old(status).last_applied_workflow_id
                }
            },
            Some((id, HandoffStepOutcome::Failed { message })) => {
                &&& final(status).last_workflow_id == Some(id)
                &&& final(status).last_error == Some(message)
                &&& final(status).last_applied_workflow_id == old(status).last_applied_workflow_id
            },
        },
{
    status.last_run_at_ms = Some(now_ms);
    match stepped {
        None => {
            status.last_workflow_id = None;
            status.last_error = None;
        },
        Some((id, outcome)) => {
            status.last_workflow_id = Some(id);
            match outcome {
                HandoffStepOutcome::Stepped { applied, workflow_id: w } => {
                    status.last_error = None;
                    if applied {
                        status.last_applied_workflow_id = Some(w);
                    }
                },
                HandoffStepOutcome::Failed { message } => {
                    status.last_error = Some(message);
                },
            }
        },
    }
}

} // verus!

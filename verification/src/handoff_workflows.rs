//! Handoff workflows: a planned move of a shard to a new owner, carried out
//! in steps. The shard is frozen, the workflow waits until the target has
//! caught up, then the new ownership is proposed and committed.
use vstd::prelude::*;
use crate::api_error::{ApiError, ApiErrorKind};
use crate::failover::{ApplyTopologyOverrideRequest, HandoffPlanResponse, pair_views, replicas_without};
use crate::records::{list_contains, string_views};
use crate::text::{cat2, owned, str_eq};

verus! {

#[derive(PartialEq, Eq, Structural, Clone, Copy, Debug)]
pub enum HandoffWorkflowPhase {
    WaitingForCatchUp,
    ReadyToReconfigure,
    Applied,
    Aborted,
}

/// A handoff in progress.
pub struct HandoffWorkflow {
    pub id: String,
    pub shard: usize,
    pub current_owner: String,
    pub target_owner: String,
    pub current_epoch: u64,
    pub next_epoch: u64,
    pub phase: HandoffWorkflowPhase,
    pub created_at_ms: u64,
    pub updated_at_ms: u64,
    pub current_shard_lsn: u64,
    pub target_acked_lsn: u64,
    pub last_error: Option<String>,
    /// The settings the move needs, sorted by name.
    pub required_env: Vec<(String, String)>,
}

fn copy_pairs(v: &Vec<(String, String)>) -> (c: Vec<(String, String)>)
    ensures
        pair_views(c@) == pair_views(v@),
{
    let mut c: Vec<(String, String)> = Vec::new();
    let mut i: usize = 0;
    while i < v.len()
        invariant
            i <= v@.len(),
            pair_views(c@) == pair_views(v@.take(i as int)),
        decreases v@.len() - i,
    {
        let ghost old_c = c@;
        let a = v[i].0.clone();
        let b = v[i].1.clone();
        c.push((a, b));
        assert(pair_views(c@) =~= pair_views(old_c).push((v@[i as int].0@, v@[i as int].1@)));
        assert(pair_views(v@.take(i + 1)) =~= pair_views(v@.take(i as int)).push((v@[i as int].0@, v@[i as int].1@)));
        i = i + 1;
    }
    assert(v@.take(v@.len() as int) =~= v@);
    c
}

/// The reason a shard is frozen for a handoff to `target_owner`.
pub fn handoff_freeze_reason(target_owner: &str) -> (s: String)
    ensures
        s@ == "handoff workflow to "@ + target_owner@,
{
    cat2("handoff workflow to ", target_owner)
}

/// A workflow `id` started at `now` from a plan: ready to reconfigure
/// where the target has caught up, else waiting for it.
pub fn new_handoff_workflow(id: String, plan: &HandoffPlanResponse, now: u64) -> (w: HandoffWorkflow)
    ensures
        w.id == id,
        w.shard == plan.shard,
        w.current_owner@ == plan.current_owner@,
        w.target_owner@ == plan.target_owner@,
        w.current_epoch == plan.current_epoch,
        w.next_epoch == plan.next_epoch,
        w.phase == if plan.target_caught_up {
            HandoffWorkflowPhase::ReadyToReconfigure
        } else {
            HandoffWorkflowPhase::WaitingForCatchUp
        },
        w.created_at_ms == now,
        w.updated_at_ms == now,
        w.current_shard_lsn == plan.current_shard_lsn,
        w.target_acked_lsn == plan.target_acked_lsn,
        w.last_error is None,
        pair_views(w.required_env@) == pair_views(plan.required_env@),
{
    let phase = if plan.target_caught_up {
        HandoffWorkflowPhase::ReadyToReconfigure
    } else {
        HandoffWorkflowPhase::WaitingForCatchUp
    };
    HandoffWorkflow {
        id,
        shard: plan.shard,
        current_owner: plan.current_owner.clone(),
        target_owner: plan.target_owner.clone(),
        current_epoch: plan.current_epoch,
        next_epoch: plan.next_epoch,
        phase,
        created_at_ms: now,
        updated_at_ms: now,
        current_shard_lsn: plan.current_shard_lsn,
        target_acked_lsn: plan.target_acked_lsn,
        last_error: None,
        required_env: copy_pairs(&plan.required_env),
    }
}

/// Checks that a workflow may take another step: not once aborted or
/// applied.
pub fn check_handoff_step(workflow: &HandoffWorkflow) -> (r: Result<(), ApiError>)
    ensures
        r is Ok <==> (workflow.phase != HandoffWorkflowPhase::Aborted && workflow.phase
            != HandoffWorkflowPhase::Applied),
        r matches Err(e) ==> e.kind == ApiErrorKind::Conflict && e.message@ == if workflow.phase
            == HandoffWorkflowPhase::Aborted {
            "handoff workflow is aborted"@
        } else {
            "handoff workflow is already applied"@
        },
{
    if workflow.phase == HandoffWorkflowPhase::Aborted {
        return Err(ApiError::conflict(owned("handoff workflow is aborted")));
    }
    if workflow.phase == HandoffWorkflowPhase::Applied {
        return Err(ApiError::conflict(owned("handoff workflow is already applied")));
    }
    Ok(())
}

/// One step of a workflow at `now`, with a fresh plan: the plan's LSNs and
/// settings, the error cleared, ready to reconfigure exactly when the plan
/// is ready.
pub fn step_handoff_workflow(workflow: &mut HandoffWorkflow, plan: &HandoffPlanResponse, now: u64)
    ensures
        final(workflow).current_shard_lsn == plan.current_shard_lsn,
        final(workflow).target_acked_lsn == plan.target_acked_lsn,
        pair_views(final(workflow).required_env@) == pair_views(plan.required_env@),
        final(workflow).updated_at_ms == now,
        final(workflow).last_error is None,
        final(workflow).phase == if plan.ready {
            HandoffWorkflowPhase::ReadyToReconfigure
        } else {
            HandoffWorkflowPhase::WaitingForCatchUp
        },
        final(workflow).id == old(workflow).id,
        final(workflow).shard == old(workflow).shard,
        final(workflow).current_owner == old(workflow).current_owner,
        final(workflow).target_owner == old(workflow).target_owner,
        final(workflow).next_epoch == old(workflow).next_epoch,
        final(workflow).created_at_ms == old(workflow).created_at_ms,
{
    workflow.current_shard_lsn = plan.current_shard_lsn;
    workflow.target_acked_lsn = plan.target_acked_lsn;
    workflow.required_env = copy_pairs(&plan.required_env);
    workflow.updated_at_ms = now;
    workflow.last_error = None;
    workflow.phase = if plan.ready {
        HandoffWorkflowPhase::ReadyToReconfigure
    } else {
        HandoffWorkflowPhase::WaitingForCatchUp
    };
}

/// Aborts a workflow at `now`, keeping the plan's LSNs.
pub fn abort_handoff_workflow(workflow: &mut HandoffWorkflow, plan: &HandoffPlanResponse, now: u64)
    ensures
        final(workflow).phase == HandoffWorkflowPhase::Aborted,
        final(workflow).updated_at_ms == now,
        final(workflow).last_error matches Some(m) && m@ == "aborted by operator"@,
        final(workflow).current_shard_lsn == plan.current_shard_lsn,
        final(workflow).target_acked_lsn == plan.target_acked_lsn,
        final(workflow).id == old(workflow).id,
        final(workflow).shard == old(workflow).shard,
        final(workflow).required_env == old(workflow).required_env,
{
    workflow.phase = HandoffWorkflowPhase::Aborted;
    workflow.updated_at_ms = now;
    workflow.last_error = Some(owned("aborted by operator"));
    workflow.current_shard_lsn = plan.current_shard_lsn;
    workflow.target_acked_lsn = plan.target_acked_lsn;
}

/// Checks that a workflow may be applied: only once ready to reconfigure.
pub fn check_handoff_apply(workflow: &HandoffWorkflow) -> (r: Result<(), ApiError>)
    ensures
        r is Ok <==> workflow.phase == HandoffWorkflowPhase::ReadyToReconfigure,
        r matches Err(e) ==> e.kind == ApiErrorKind::Conflict && e.message@
            == "handoff workflow must be readyToReconfigure before apply"@,
{
    if workflow.phase != HandoffWorkflowPhase::ReadyToReconfigure {
        return Err(ApiError::conflict(owned("handoff workflow must be readyToReconfigure before apply")));
    }
    Ok(())
}

/// The replicas after a handoff: the shard's replicas without the target and
/// without repeats, then the old owner where it is not among them.
pub open spec fn handoff_replicas(rs: Seq<Seq<char>>, current: Seq<char>, target: Seq<char>) -> Seq<Seq<char>> {
    let base = replicas_without(rs, target);
    if base.contains(current) {
        base
    } else {
        base.push(current)
    }
}

/// The replicas the shard of a workflow keeps once applied, from the
/// shard's replicas now.
pub fn handoff_replica_nodes(replicas: &Vec<String>, workflow: &HandoffWorkflow) -> (r: Vec<String>)
    ensures
        string_views(r@) == handoff_replicas(string_views(replicas@), workflow.current_owner@, workflow.target_owner@),
{
    let mut out: Vec<String> = Vec::new();
    let mut i: usize = 0;
    while i < replicas.len()
        invariant
            i <= replicas@.len(),
            string_views(out@) == replicas_without(string_views(replicas@).take(i as int), workflow.target_owner@),
        decreases replicas@.len() - i,
    {
        let ghost before = string_views(replicas@).take(i as int);
        let ghost after = string_views(replicas@).take(i + 1);
        assert(after.drop_last() =~= before);
        assert(after.last() == replicas@[i as int]@);
        let r = &replicas[i];
        if !str_eq(r.as_str(), workflow.target_owner.as_str()) && !list_contains(&out, r.as_str()) {
            out.push(r.clone());
            assert(string_views(out@) =~= replicas_without(before, workflow.target_owner@).push(replicas@[i as int]@));
        }
        i = i + 1;
    }
    assert(string_views(replicas@).take(replicas@.len() as int) =~= string_views(replicas@));
    if !list_contains(&out, workflow.current_owner.as_str()) {
        out.push(workflow.current_owner.clone());
        assert(string_views(out@) =~= replicas_without(string_views(replicas@), workflow.target_owner@).push(
            workflow.current_owner@,
        ));
    }
    out
}

/// The change a workflow proposes: the target as owner at the next epoch,
/// with the given replicas; and the proposal's reason.
pub fn handoff_override_request(workflow: &HandoffWorkflow, replicas: Vec<String>) -> (r: (
    ApplyTopologyOverrideRequest,
    String,
))
    ensures
        r.0.shard == workflow.shard,
        r.0.owner matches Some(o) && o@ == workflow.target_owner@,
        r.0.epoch == Some(workflow.next_epoch),
        r.0.replicas == Some(replicas),
        r.1@ == "handoff workflow "@ + workflow.id@,
{
    (
        ApplyTopologyOverrideRequest {
            shard: workflow.shard,
            owner: Some(workflow.target_owner.clone()),
            epoch: Some(workflow.next_epoch),
            replicas: Some(replicas),
        },
        cat2("handoff workflow ", workflow.id.as_str()),
    )
}

/// Marks a workflow applied at `now`.
pub fn mark_handoff_applied(workflow: &mut HandoffWorkflow, now: u64)
    ensures
        final(workflow).phase == HandoffWorkflowPhase::Applied,
        final(workflow).updated_at_ms == now,
        final(workflow).last_error is None,
        final(workflow).id == old(workflow).id,
        final(workflow).shard == old(workflow).shard,
{
    workflow.phase = HandoffWorkflowPhase::Applied;
    workflow.updated_at_ms = now;
    workflow.last_error = None;
}

/// Whether a workflow is still under way.
pub open spec fn in_progress(w: HandoffWorkflow) -> bool {
    w.phase == HandoffWorkflowPhase::WaitingForCatchUp || w.phase == HandoffWorkflowPhase::ReadyToReconfigure
}

/// The workflow the controller takes next: the one under way updated
/// longest ago, the first listed among equals.
pub fn next_handoff_workflow(workflows: &Vec<HandoffWorkflow>) -> (r: Option<usize>)
    ensures
        match r {
            None => forall|i: int| 0 <= i < workflows@.len() ==> !in_progress(#[trigger] workflows@[i]),
            Some(k) => {
                &&& k < workflows@.len()
                &&& in_progress(workflows@[k as int])
                &&& forall|i: int|
                    0 <= i < workflows@.len() && in_progress(#[trigger] workflows@[i]) ==> workflows@[k as int].updated_at_ms
                        <= workflows@[i].updated_at_ms
                &&& forall|i: int|
                    0 <= i < k && in_progress(#[trigger] workflows@[i]) ==> workflows@[k as int].updated_at_ms
                        < workflows@[i].updated_at_ms
            },
        },
{
    let mut best: Option<usize> = None;
    let mut i: usize = 0;
    while i < workflows.len()
        invariant
            i <= workflows@.len(),
            match best {
                None => forall|j: int| 0 <= j < i ==> !in_progress(#[trigger] workflows@[j]),
                Some(k) => {
                    &&& k < i
                    &&& in_progress(workflows@[k as int])
                    &&& forall|j: int|
                        0 <= j < i && in_progress(#[trigger] workflows@[j]) ==> workflows@[k as int].updated_at_ms
                            <= workflows@[j].updated_at_ms
                    &&& forall|j: int|
                        0 <= j < k && in_progress(#[trigger] workflows@[j]) ==> workflows@[k as int].updated_at_ms
                            < workflows@[j].updated_at_ms
                },
            },
        decreases workflows@.len() - i,
    {
        let w = &workflows[i];
        let open = w.phase == HandoffWorkflowPhase::WaitingForCatchUp || w.phase
            == HandoffWorkflowPhase::ReadyToReconfigure;
        if open {
            match best {
                None => {
                    best = Some(i);
                },
                Some(k) => {
                    if w.updated_at_ms < workflows[k].updated_at_ms {
                        best = Some(i);
                    }
                },
            }
        }
        i = i + 1;
    }
    best
}

} // verus!

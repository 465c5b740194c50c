use nextdb_server::controllers::{
    FailoverControllerStatus, HandoffControllerStatus, HandoffStepOutcome, note_failover_plan, record_failover_action,
    record_handoff_pass, record_idle_failover_pass,
};
use nextdb_server::failover::{ApplyTopologyOverrideRequest, FailoverPlanResponse};

fn plan(shard: usize, ready: bool, reason: Option<&str>) -> FailoverPlanResponse {
    FailoverPlanResponse {
        shard,
        current_owner: "n1".to_string(),
        target_owner: "n2".to_string(),
        target_owner_url: None,
        current_epoch: 1,
        next_epoch: 2,
        current_shard_lsn: 0,
        local_lsn: 0,
        owner_last_seen_ok_lsn: None,
        owner_healthy: !ready,
        target_is_local: true,
        target_is_replica: true,
        target_caught_up: true,
        ready,
        reason: reason.map(|r| r.to_string()),
        required_override: ApplyTopologyOverrideRequest { shard, owner: None, epoch: None, replicas: None },
        required_acks: 1,
        owner_peer: None,
        steps: Vec::new(),
    }
}

fn failover_status() -> FailoverControllerStatus {
    FailoverControllerStatus {
        last_run_at_ms: None,
        last_shard: None,
        last_proposal_id: None,
        last_committed_proposal_id: Some("p0".to_string()),
        last_error: None,
    }
}

#[test]
fn the_failover_controller_notes_the_first_reason_and_acts_on_a_ready_shard() {
    let mut last_error = None;
    assert!(!note_failover_plan(&mut last_error, &plan(0, false, Some("owner is healthy"))));
    assert!(!note_failover_plan(&mut last_error, &plan(1, false, Some("target is behind"))));
    assert_eq!(last_error.as_deref(), Some("owner is healthy"));
    assert!(note_failover_plan(&mut last_error, &plan(2, true, None)));
    assert_eq!(last_error.as_deref(), Some("owner is healthy"));
}

#[test]
fn the_failover_controller_keeps_what_it_did() {
    let mut status = failover_status();
    record_failover_action(&mut status, 100, 2, "p1".to_string(), Some("p1".to_string()), Some("stale".to_string()));
    assert_eq!(status.last_run_at_ms, Some(100));
    assert_eq!(status.last_shard, Some(2));
    assert_eq!(status.last_proposal_id.as_deref(), Some("p1"));
    assert_eq!(status.last_committed_proposal_id.as_deref(), Some("p1"));
    assert_eq!(status.last_error, None);
    record_failover_action(&mut status, 200, 3, "p2".to_string(), None, Some("waiting for acks".to_string()));
    assert_eq!(status.last_committed_proposal_id.as_deref(), Some("p1"));
    assert_eq!(status.last_error.as_deref(), Some("waiting for acks"));
    record_idle_failover_pass(&mut status, 300, Some("owner is healthy".to_string()));
    assert_eq!(status.last_run_at_ms, Some(300));
    assert_eq!(status.last_shard, None);
    assert_eq!(status.last_proposal_id, None);
    assert_eq!(status.last_committed_proposal_id.as_deref(), Some("p1"));
    assert_eq!(status.last_error.as_deref(), Some("owner is healthy"));
}

#[test]
fn the_handoff_controller_keeps_what_it_stepped() {
    let mut status = HandoffControllerStatus {
        last_run_at_ms: None,
        last_workflow_id: Some("w0".to_string()),
        last_applied_workflow_id: None,
        last_error: Some("old".to_string()),
    };
    record_handoff_pass(&mut status, 10, None);
    assert_eq!(status.last_workflow_id, None);
    assert_eq!(status.last_error, None);
    let applied = HandoffStepOutcome::Stepped { applied: true, workflow_id: "w1".to_string() };
    record_handoff_pass(&mut status, 20, Some(("w1".to_string(), applied)));
    assert_eq!(status.last_workflow_id.as_deref(), Some("w1"));
    assert_eq!(status.last_applied_workflow_id.as_deref(), Some("w1"));
    let failed = HandoffStepOutcome::Failed { message: "shard is frozen".to_string() };
    record_handoff_pass(&mut status, 30, Some(("w2".to_string(), failed)));
    assert_eq!(status.last_workflow_id.as_deref(), Some("w2"));
    assert_eq!(status.last_applied_workflow_id.as_deref(), Some("w1"));
    assert_eq!(status.last_error.as_deref(), Some("shard is frozen"));
    assert_eq!(status.last_run_at_ms, Some(30));
}

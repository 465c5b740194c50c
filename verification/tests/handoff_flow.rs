use nextdb_server::failover::{HandoffPlanRequest, ShardMoveContext, compute_handoff_plan};
use nextdb_server::handoff_workflows::{
    HandoffWorkflow, HandoffWorkflowPhase, abort_handoff_workflow, check_handoff_apply,
    check_handoff_step, handoff_freeze_reason, handoff_override_request, handoff_replica_nodes,
    mark_handoff_applied, new_handoff_workflow, next_handoff_workflow, step_handoff_workflow,
};
use nextdb_server::wal::WalRemoteReplica;

fn s(v: &str) -> String {
    v.to_string()
}

fn context() -> ShardMoveContext {
    ShardMoveContext {
        shard_count: 2,
        local_node_id: s("n1"),
        node_urls: vec![(s("n2"), s("http://n2"))],
        node_count: 3,
        current_owner: s("n1"),
        current_epoch: 1,
        current_shard_lsn: 40,
        replicas: vec![s("n2"), s("n3")],
    }
}

fn plan(frozen: bool, acked: u64) -> nextdb_server::failover::HandoffPlanResponse {
    let remotes = vec![WalRemoteReplica { url: s("http://n2/v1/admin/wal/replicate"), highest_acked_lsn: acked }];
    compute_handoff_plan(&context(), frozen, &remotes, HandoffPlanRequest { shard: 1, target_owner: s("n2") })
        .ok()
        .unwrap()
}

#[test]
fn a_workflow_waits_then_becomes_ready() {
    assert_eq!(handoff_freeze_reason("n2"), "handoff workflow to n2");
    let mut w = new_handoff_workflow(s("w1"), &plan(true, 10), 5);
    assert_eq!(w.phase, HandoffWorkflowPhase::WaitingForCatchUp);
    assert_eq!((w.next_epoch, w.current_shard_lsn, w.target_acked_lsn), (2, 40, 10));
    assert_eq!(w.required_env.len(), 3);
    assert!(check_handoff_step(&w).is_ok());
    assert!(check_handoff_apply(&w).is_err());

    step_handoff_workflow(&mut w, &plan(true, 40), 9);
    assert_eq!(w.phase, HandoffWorkflowPhase::ReadyToReconfigure);
    assert_eq!((w.updated_at_ms, w.target_acked_lsn), (9, 40));
    // an unfrozen shard is not ready even when caught up
    step_handoff_workflow(&mut w, &plan(false, 40), 10);
    assert_eq!(w.phase, HandoffWorkflowPhase::WaitingForCatchUp);
    step_handoff_workflow(&mut w, &plan(true, 41), 11);
    assert!(check_handoff_apply(&w).is_ok());

    let replicas = handoff_replica_nodes(&vec![s("n2"), s("n3"), s("n3")], &w);
    assert_eq!(replicas, vec![s("n3"), s("n1")]);
    let (req, reason) = handoff_override_request(&w, replicas);
    assert_eq!((req.shard, req.owner.clone(), req.epoch), (1, Some(s("n2")), Some(2)));
    assert_eq!(reason, "handoff workflow w1");

    mark_handoff_applied(&mut w, 12);
    assert_eq!(w.phase, HandoffWorkflowPhase::Applied);
    assert_eq!(check_handoff_step(&w).unwrap_err().message, "handoff workflow is already applied");
}

#[test]
fn aborted_workflows_stop() {
    let mut w = new_handoff_workflow(s("w2"), &plan(true, 40), 5);
    assert_eq!(w.phase, HandoffWorkflowPhase::ReadyToReconfigure);
    abort_handoff_workflow(&mut w, &plan(true, 40), 6);
    assert_eq!(w.last_error, Some(s("aborted by operator")));
    assert_eq!(check_handoff_step(&w).unwrap_err().message, "handoff workflow is aborted");
    assert_eq!(
        check_handoff_apply(&w).unwrap_err().message,
        "handoff workflow must be readyToReconfigure before apply"
    );
}

#[test]
fn the_controller_takes_the_oldest_open_workflow() {
    let mk = |id: &str, at: u64, phase: HandoffWorkflowPhase| -> HandoffWorkflow {
        let mut w = new_handoff_workflow(s(id), &plan(true, 0), at);
        w.phase = phase;
        w
    };
    let list = vec![
        mk("a", 3, HandoffWorkflowPhase::Applied),
        mk("b", 7, HandoffWorkflowPhase::WaitingForCatchUp),
        mk("c", 5, HandoffWorkflowPhase::ReadyToReconfigure),
        mk("d", 5, HandoffWorkflowPhase::WaitingForCatchUp),
    ];
    assert_eq!(next_handoff_workflow(&list), Some(2));
    let done = vec![mk("a", 3, HandoffWorkflowPhase::Aborted)];
    assert_eq!(next_handoff_workflow(&done), None);
}

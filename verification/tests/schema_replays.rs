use nextdb_server::json::JsonValue;
use nextdb_server::schema_replay::{
    SchemaApplyOutcome, SchemaReplayApplyPhase, SchemaReplayApplyStatus, cancel_schema_replay_apply,
    check_replay_rebuild_needed, check_schema_apply_request, check_schema_replay_restart,
    finish_schema_replay_apply, mark_schema_replay_committing, recover_schema_replay_status,
    start_schema_replay_apply,
};

fn s(v: &str) -> String {
    v.to_string()
}

fn started(run: &str) -> SchemaReplayApplyStatus {
    let mut status = SchemaReplayApplyStatus::default();
    start_schema_replay_apply(&mut status, s(run), JsonValue::Null, 3, Some(2), false, true, false, None, 10)
        .ok()
        .unwrap();
    status
}

#[test]
fn a_replay_runs_commits_and_succeeds() {
    let mut status = started("r1");
    assert_eq!(status.phase, SchemaReplayApplyPhase::Running);
    assert_eq!((status.target_version, status.started_at_ms), (Some(3), Some(10)));
    let again = start_schema_replay_apply(&mut status, s("r2"), JsonValue::Null, 4, None, false, true, false, None, 11);
    assert_eq!(again.unwrap_err().message, "schema replay apply already running");
    assert_eq!(status.run_id, Some(s("r1")));

    assert_eq!(mark_schema_replay_committing(&mut status, "r9").unwrap_err().message, "schema replay apply run changed before commit");
    assert!(mark_schema_replay_committing(&mut status, "r1").is_ok());
    assert_eq!(status.phase, SchemaReplayApplyPhase::Committing);
    assert!(mark_schema_replay_committing(&mut status, "r1").is_ok());
    assert_eq!(cancel_schema_replay_apply(&mut status, 12).unwrap_err().message, "schema replay apply is already committing");

    let outcome = SchemaApplyOutcome { schema_audit_lsn: Some(77), projection_status: JsonValue::Bool(true), replay_rebuild: true, projection_rebuilt: true };
    assert!(!finish_schema_replay_apply(&mut status, "other", Ok(SchemaApplyOutcome { schema_audit_lsn: None, projection_status: JsonValue::Null, replay_rebuild: false, projection_rebuilt: false }), 13));
    assert!(finish_schema_replay_apply(&mut status, "r1", Ok(outcome), 14));
    assert_eq!(status.phase, SchemaReplayApplyPhase::Succeeded);
    assert_eq!((status.schema_audit_lsn, status.finished_at_ms, status.projection_rebuild), (Some(77), Some(14), true));
    assert_eq!(mark_schema_replay_committing(&mut status, "r1").unwrap_err().message, "schema replay apply is no longer running");
}

#[test]
fn failures_can_be_resumed_and_cancels_are_final() {
    let mut status = started("r1");
    assert!(finish_schema_replay_apply(&mut status, "r1", Err(s("boom")), 20));
    assert_eq!(status.phase, SchemaReplayApplyPhase::Failed);
    assert_eq!(status.error, Some(s("boom")));
    assert!(status.resume_eligible);
    assert!(check_schema_replay_restart(&status).is_ok());

    let mut cancelled = started("r2");
    assert!(cancel_schema_replay_apply(&mut cancelled, 21).is_ok());
    assert_eq!(cancelled.error, Some(s("cancelled by operator before SchemaApplied commit")));
    assert_eq!(mark_schema_replay_committing(&mut cancelled, "r2").unwrap_err().message, "schema replay apply cancelled before commit");
    assert!(!finish_schema_replay_apply(&mut cancelled, "r2", Err(s("late")), 22));
    assert_eq!(cancelled.phase, SchemaReplayApplyPhase::Cancelled);
    assert_eq!(cancel_schema_replay_apply(&mut cancelled, 23).unwrap_err().message, "schema replay cancel requires a running replay status");
    assert_eq!(check_schema_replay_restart(&cancelled).unwrap_err().message, "schema replay retry requires a failed replay status");
    assert_eq!(check_schema_replay_restart(&started("r3")).unwrap_err().message, "schema replay apply already running");
    let mut bare = SchemaReplayApplyStatus::default();
    bare.phase = SchemaReplayApplyPhase::Failed;
    assert_eq!(check_schema_replay_restart(&bare).unwrap_err().message, "failed schema replay status does not include a retryable schema");
}

#[test]
fn start_up_settles_replays_cut_short() {
    let mut committing = started("r1");
    mark_schema_replay_committing(&mut committing, "r1").ok().unwrap();
    assert!(recover_schema_replay_status(&mut committing, Some(3), Some(90), JsonValue::Null, 50));
    assert_eq!(committing.phase, SchemaReplayApplyPhase::Succeeded);
    assert_eq!(committing.schema_audit_lsn, Some(90));

    let mut behind = started("r2");
    mark_schema_replay_committing(&mut behind, "r2").ok().unwrap();
    assert!(recover_schema_replay_status(&mut behind, Some(2), Some(90), JsonValue::Null, 50));
    assert_eq!(behind.phase, SchemaReplayApplyPhase::Failed);
    assert!(behind.resume_eligible);
    assert_eq!(
        behind.resume_reason,
        Some(s("interrupted before SchemaApplied commit; call resumeSchemaReplayApply() to restart"))
    );

    let mut idle = SchemaReplayApplyStatus::default();
    assert!(!recover_schema_replay_status(&mut idle, None, None, JsonValue::Null, 50));
    assert_eq!(idle.phase, SchemaReplayApplyPhase::Idle);
}

#[test]
fn background_replays_need_a_rebuild_and_no_dry_run() {
    assert_eq!(check_schema_apply_request(true, true).unwrap_err().message, "backgroundReplay cannot be combined with dryRun");
    assert!(check_schema_apply_request(true, false).is_ok());
    assert!(check_replay_rebuild_needed(false, true, false).is_ok());
    assert_eq!(check_replay_rebuild_needed(false, false, false).unwrap_err().message, "backgroundReplay requires a replay or projection-shape rebuild");
    assert_eq!(check_replay_rebuild_needed(false, false, true).unwrap_err().message, "schema replay retry requires a replay or projection-shape rebuild");
}

use nextdb_server::endpoints::{
    schema_preflight_endpoint, schema_proposal_abort_endpoint, schema_proposal_commit_endpoint,
    schema_proposal_prepare_endpoint, topology_proposal_abort_endpoint,
    topology_proposal_commit_endpoint, topology_proposal_prepare_endpoint,
};
use nextdb_server::projection_rebuild::{
    ProjectionRebuildCounts, ProjectionRebuildPhase, ProjectionRebuildResponse,
    ProjectionRebuildStatus, finish_projection_rebuild, mark_projection_rebuild_running,
};
use nextdb_server::api_error::{ApiError, ApiErrorKind};
use nextdb_server::schema_replay::{
    SchemaReplayApplyPhase, SchemaReplayApplyStatus, mark_schema_replay_resume_eligible,
    reconcile_schema_replay_resume_fields,
};
use nextdb_server::json::JsonValue;
use nextdb_server::topology::{
    ClusterRouteQuery, PeerHealthStatus, cluster_route_key, peer_health_error, self_topology_result,
};

#[test]
fn peer_endpoints_are_appended_once() {
    assert_eq!(
        topology_proposal_prepare_endpoint("http://n1:8080/"),
        "http://n1:8080/v1/admin/cluster/topology/proposals/prepare"
    );
    let once = topology_proposal_commit_endpoint("http://n1");
    assert_eq!(topology_proposal_commit_endpoint(&once), once);
    assert_eq!(topology_proposal_abort_endpoint("http://n1//"), "http://n1/v1/admin/cluster/topology/proposals/abort");
    assert_eq!(schema_proposal_prepare_endpoint("http://n1"), "http://n1/v1/admin/schema/proposals/prepare");
    assert_eq!(schema_proposal_commit_endpoint("http://n1"), "http://n1/v1/admin/schema/proposals/commit");
    let abort = schema_proposal_abort_endpoint("http://n1");
    assert_eq!(schema_proposal_abort_endpoint(&format!("{abort}/")), abort);
    assert_eq!(schema_preflight_endpoint("http://n1"), "http://n1/v1/admin/schema/preflight");
}

fn route(key: Option<&str>, room: Option<&str>, table: Option<&str>, record: Option<&str>, object: Option<&str>) -> ClusterRouteQuery {
    ClusterRouteQuery {
        key: key.map(str::to_string),
        room_id: room.map(str::to_string),
        table: table.map(str::to_string),
        record_key: record.map(str::to_string),
        object_id: object.map(str::to_string),
    }
}

#[test]
fn route_keys_take_the_first_name_given() {
    assert_eq!(cluster_route_key(route(Some("k"), Some("r"), None, None, None)).ok().unwrap(), "k");
    assert_eq!(cluster_route_key(route(Some(" "), Some("r"), None, None, None)).ok().unwrap(), "r");
    assert_eq!(cluster_route_key(route(None, None, None, None, Some("o"))).ok().unwrap(), "o");
    assert_eq!(cluster_route_key(route(None, None, Some("t"), Some("k"), None)).ok().unwrap(), "t:k");
    let e = cluster_route_key(route(None, None, Some("t"), None, None)).err().unwrap();
    assert!(e.kind == ApiErrorKind::BadRequest);
    assert_eq!(e.message, "provide key, roomId, objectId, or table plus recordKey");
}

#[test]
fn failed_peer_checks_keep_the_last_good_sighting() {
    let previous = vec![PeerHealthStatus {
        node_id: "n2".to_string(),
        url: "http://n2".to_string(),
        ok: true,
        status: Some(200),
        accepting_writes: Some(true),
        current_lsn: Some(10),
        last_seen_ok_lsn: Some(10),
        latency_ms: Some(3),
        last_checked_at_ms: 100,
        last_seen_ok_at_ms: Some(100),
        error: None,
    }];
    let status = peer_health_error("n2", "http://n2", Some(503), 200, &previous, "unavailable".to_string());
    assert!(!status.ok);
    assert_eq!(status.status, Some(503));
    assert_eq!(status.last_seen_ok_lsn, Some(10));
    assert_eq!(status.last_seen_ok_at_ms, Some(100));
    assert_eq!(status.last_checked_at_ms, 200);
    assert_eq!(status.error.as_deref(), Some("unavailable"));
    let fresh = peer_health_error("n3", "http://n3", None, 200, &previous, "timeout".to_string());
    assert_eq!(fresh.last_seen_ok_lsn, None);

    let me = self_topology_result("n1", None, "commit");
    assert_eq!(me.url, "local");
    assert_eq!(me.status, Some(200));
    assert_eq!(me.error.as_deref(), Some("local commit"));
}

fn replay_status(phase: SchemaReplayApplyPhase) -> SchemaReplayApplyStatus {
    SchemaReplayApplyStatus {
        phase,
        run_id: None,
        resumed_from_run_id: None,
        target_version: Some(2),
        expected_version: None,
        schema: Some(JsonValue::Null),
        allow_breaking_replay: false,
        replay_rebuild: true,
        projection_rebuild: false,
        resume_eligible: false,
        resume_reason: None,
        started_at_ms: None,
        finished_at_ms: None,
        schema_audit_lsn: None,
        projection_status: None,
        error: None,
    }
}

#[test]
fn failed_replays_with_a_schema_may_be_resumed() {
    let mut failed = replay_status(SchemaReplayApplyPhase::Failed);
    reconcile_schema_replay_resume_fields(&mut failed);
    assert!(failed.resume_eligible);
    assert_eq!(
        failed.resume_reason.as_deref(),
        Some("failed replay status includes a retryable schema; call resumeSchemaReplayApply() to restart")
    );
    let mut running = replay_status(SchemaReplayApplyPhase::Running);
    mark_schema_replay_resume_eligible(&mut running, "x");
    reconcile_schema_replay_resume_fields(&mut running);
    assert!(!running.resume_eligible);
    assert!(running.resume_reason.is_none());
}

#[test]
fn projection_rebuilds_run_one_at_a_time() {
    let mut status = ProjectionRebuildStatus::default();
    let started = mark_projection_rebuild_running(&mut status, true, "run-1".to_string(), 10).ok().unwrap();
    assert!(started.phase == ProjectionRebuildPhase::Running);
    let e = mark_projection_rebuild_running(&mut status, false, "run-2".to_string(), 11).err().unwrap();
    assert!(e.kind == ApiErrorKind::Conflict);
    assert_eq!(status.run_id.as_deref(), Some("run-1"));
    let done = finish_projection_rebuild(&mut status, Ok(ProjectionRebuildCounts { messages: 1, records: 2, object_refs: 3 }), 20);
    assert!(done.phase == ProjectionRebuildPhase::Succeeded);
    let response = ProjectionRebuildResponse::from_status(done);
    assert_eq!((response.messages, response.records, response.object_refs), (1, 2, 3));
    assert_eq!(response.finished_at_ms, Some(20));
    let failed = finish_projection_rebuild(&mut status, Err(ApiError::internal("boom".to_string())), 30);
    assert!(failed.phase == ProjectionRebuildPhase::Failed);
    assert_eq!(failed.error.as_deref(), Some("boom"));
    let response = ProjectionRebuildResponse::from_status(ProjectionRebuildStatus::default());
    assert_eq!(response.messages, 0);
}

use nextdb_server::failover::{
    FailoverPlanRequest, HandoffPlanRequest, PeerHealthSnapshot, ShardMoveContext,
    compute_failover_plan, compute_handoff_plan, handoff_target_replicas, join_pipe, node_url_for,
    required_topology_acks,
};
use nextdb_server::topology::PeerHealthStatus;
use nextdb_server::wal::WalRemoteReplica;

fn s(v: &str) -> String {
    v.to_string()
}

fn context(local: &str, owner: &str) -> ShardMoveContext {
    ShardMoveContext {
        shard_count: 4,
        local_node_id: s(local),
        node_urls: vec![
            (s("n1"), s("http://n1:8080")),
            (s("n2"), s("http://n2:8080")),
            (s("n3"), s("http://n3:8080")),
        ],
        node_count: 3,
        current_owner: s(owner),
        current_epoch: 4,
        current_shard_lsn: 120,
        replicas: vec![s("n2"), s("n3"), s("n2")],
    }
}

fn peer(node: &str, ok: bool, last_ok: Option<u64>, current: Option<u64>) -> PeerHealthStatus {
    PeerHealthStatus {
        node_id: s(node),
        url: format!("http://{node}:8080"),
        ok,
        status: None,
        accepting_writes: None,
        current_lsn: current,
        last_seen_ok_lsn: last_ok,
        latency_ms: None,
        last_checked_at_ms: 10,
        last_seen_ok_at_ms: None,
        error: None,
    }
}

#[test]
fn replicas_after_a_move_drop_the_target_and_keep_the_old_owner() {
    let replicas = vec![s("n2"), s("n3"), s("n2"), s("n4")];
    assert_eq!(handoff_target_replicas(&replicas, "n1", "n3"), vec![s("n2"), s("n4"), s("n1")]);
    assert_eq!(handoff_target_replicas(&replicas, "n2", "n3"), vec![s("n2"), s("n4")]);
    assert_eq!(handoff_target_replicas(&replicas, "", "n4"), vec![s("n2"), s("n3")]);
    assert_eq!(join_pipe(&vec![s("a"), s("b"), s("c")]), "a|b|c");
    assert_eq!(join_pipe(&vec![]), "");
    assert_eq!(required_topology_acks(3), 2);
    assert_eq!(required_topology_acks(4), 3);
    assert_eq!(node_url_for(&context("n1", "n1").node_urls, "n2"), Some(s("http://n2:8080")));
    assert_eq!(node_url_for(&context("n1", "n1").node_urls, "n9"), None);
}

#[test]
fn failover_is_ready_when_the_owner_failed_and_this_replica_caught_up() {
    let health = PeerHealthSnapshot { enabled: true, peers: vec![peer("n1", false, Some(100), Some(130))] };
    let plan = compute_failover_plan(&context("n2", "n1"), &health, FailoverPlanRequest { shard: 1, target_owner: None })
        .ok()
        .unwrap();
    assert!(plan.ready);
    assert_eq!(plan.reason, None);
    assert_eq!(plan.target_owner, "n2");
    assert_eq!(plan.target_owner_url, Some(s("http://n2:8080")));
    assert_eq!(plan.next_epoch, 5);
    assert_eq!(plan.owner_last_seen_ok_lsn, Some(100));
    assert!(plan.target_caught_up && plan.target_is_local && plan.target_is_replica && !plan.owner_healthy);
    assert_eq!(plan.required_acks, 2);
    assert_eq!(plan.required_override.owner, Some(s("n2")));
    assert_eq!(plan.required_override.epoch, Some(5));
    assert_eq!(plan.required_override.replicas, Some(vec![s("n3"), s("n1")]));
    assert_eq!(
        plan.steps,
        vec![
            s("Peer monitor marks current owner n1 unhealthy."),
            s("Confirm local target n2 is a replica and has WAL LSN 120."),
            s("Prepare topology proposal: shard 1 owner=n2 epoch=5 replicas=n3|n1."),
            s("Commit only after topology quorum accepts the proposal (2 required ack(s))."),
        ]
    );
}

#[test]
fn failover_reasons_come_in_order() {
    let req = |t: Option<&str>| FailoverPlanRequest { shard: 2, target_owner: t.map(s) };
    let reason = |ctx: &ShardMoveContext, health: &PeerHealthSnapshot, t: Option<&str>| {
        compute_failover_plan(ctx, health, req(t)).ok().unwrap().reason
    };
    let failed = PeerHealthSnapshot { enabled: true, peers: vec![peer("n1", false, None, Some(200))] };
    assert_eq!(
        reason(&context("n1", "n1"), &failed, None),
        Some(s("current owner is local; use handoff instead of failover"))
    );
    let off = PeerHealthSnapshot { enabled: false, peers: vec![] };
    assert_eq!(
        reason(&context("n2", "n1"), &off, None),
        Some(s("owner health is unknown; enable NEXTDB_PEER_MONITOR_INTERVAL_MS"))
    );
    let unseen = PeerHealthSnapshot { enabled: true, peers: vec![peer("n3", false, None, None)] };
    assert_eq!(reason(&context("n2", "n1"), &unseen, None), Some(s("owner n1 has not been observed by peer monitor")));
    let healthy = PeerHealthSnapshot { enabled: true, peers: vec![peer("n1", true, Some(1), None)] };
    assert_eq!(reason(&context("n2", "n1"), &healthy, None), Some(s("owner n1 is still healthy")));
    assert_eq!(
        reason(&context("n2", "n1"), &failed, Some("n3")),
        Some(s("failover can only be promoted from the local target node"))
    );
    assert_eq!(
        reason(&context("n4", "n1"), &failed, None),
        Some(s("target owner n4 is not a replica for shard 2"))
    );
    let no_lsn = PeerHealthSnapshot { enabled: true, peers: vec![peer("n1", false, None, None)] };
    assert_eq!(
        reason(&context("n2", "n1"), &no_lsn, None),
        Some(s("owner n1 has no last healthy LSN; wait for peer monitor to observe it"))
    );
    assert_eq!(
        reason(&context("n2", "n1"), &failed, Some("  n2 ")),
        Some(s("local LSN 120 has not caught up to owner last healthy LSN 200"))
    );
}

#[test]
fn failover_refuses_bad_shards_and_blank_targets() {
    let health = PeerHealthSnapshot { enabled: true, peers: vec![] };
    let err = compute_failover_plan(&context("n2", "n1"), &health, FailoverPlanRequest { shard: 4, target_owner: None })
        .err()
        .unwrap();
    assert_eq!(err.message, "shard is out of range");
    let err = compute_failover_plan(
        &context("n2", "n1"),
        &health,
        FailoverPlanRequest { shard: 0, target_owner: Some(s("   ")) },
    )
    .err()
    .unwrap();
    assert_eq!(err.message, "targetOwner cannot be empty");
}

#[test]
fn handoff_plans_wait_for_freeze_and_acknowledgement() {
    let remotes = vec![
        WalRemoteReplica { url: s("http://n2:8080/v1/admin/wal/replicate"), highest_acked_lsn: 90 },
        WalRemoteReplica { url: s("http://n2:8080/v1/admin/wal/replicate"), highest_acked_lsn: 125 },
    ];
    let plan = compute_handoff_plan(&context("n1", "n1"), true, &remotes, HandoffPlanRequest { shard: 3, target_owner: s("n2") })
        .ok()
        .unwrap();
    assert_eq!(plan.target_acked_lsn, 125);
    assert!(plan.target_caught_up && plan.frozen && plan.ready);
    assert_eq!(
        plan.required_env,
        vec![
            (s("NEXTDB_SHARD_EPOCHS"), s("3=5")),
            (s("NEXTDB_SHARD_OWNERS"), s("3=n2")),
            (s("NEXTDB_SHARD_REPLICAS"), s("3=n3|n1")),
        ]
    );
    assert_eq!(
        plan.steps,
        vec![
            s("Freeze shard 3 on current owner n1."),
            s("Wait until target owner n2 has acknowledged LSN 120."),
            s("Restart or reconfigure every node with shard 3 owner=n2 epoch=5 replicas=n3|n1."),
            s("Unfreeze shard 3 on the new owner."),
        ]
    );

    let unfrozen = compute_handoff_plan(&context("n1", "n1"), false, &remotes, HandoffPlanRequest { shard: 3, target_owner: s("n2") })
        .ok()
        .unwrap();
    assert!(!unfrozen.ready);
    let behind = compute_handoff_plan(&context("n1", "n1"), true, &vec![], HandoffPlanRequest { shard: 3, target_owner: s("n3") })
        .ok()
        .unwrap();
    assert_eq!(behind.target_acked_lsn, 0);
    assert!(!behind.ready);

    let same = compute_handoff_plan(&context("n1", "n1"), true, &remotes, HandoffPlanRequest { shard: 0, target_owner: s("n1") });
    assert_eq!(same.err().unwrap().message, "targetOwner is already the owner");
    let blank = compute_handoff_plan(&context("n1", "n1"), true, &remotes, HandoffPlanRequest { shard: 0, target_owner: s(" ") });
    assert_eq!(blank.err().unwrap().message, "targetOwner is required");
}

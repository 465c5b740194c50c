use std::collections::BTreeMap;

use nextdb_server::failover::ApplyTopologyOverrideRequest;
use nextdb_server::topology::{TopologyPropagationResult, self_topology_result};
use nextdb_server::topology_lease::{
    TopologyLease, accept_topology_lease, acquire_topology_lease, cleanup_expired_topology_lease,
    ensure_topology_lease_matches, release_topology_lease,
};
use nextdb_server::topology_overrides::{
    ClusterShardOverride, build_topology_overrides_after_request, normalize_topology_override_request,
};
use nextdb_server::topology_proposals::{
    TopologyProposal, TopologyProposalPhase, acquire_topology_lease_for_proposal, check_topology_abort,
    check_topology_commit, check_topology_retry, count_applied, existing_failover_proposal_for_shard,
    finish_topology_commit, finish_topology_prepare, mark_topology_aborted, new_topology_proposal,
};

fn s(v: &str) -> String {
    v.to_string()
}

fn result(node: &str, applied: bool) -> TopologyPropagationResult {
    TopologyPropagationResult { node_id: s(node), url: format!("http://{node}"), applied, status: None, error: None }
}

fn request(shard: usize) -> ApplyTopologyOverrideRequest {
    ApplyTopologyOverrideRequest { shard, owner: Some(s("n2")), epoch: Some(3), replicas: None }
}

fn proposal(id: &str, required: usize) -> TopologyProposal {
    new_topology_proposal(s(id), s("n1"), 100, s("move"), request(0), self_topology_result("n1", None, "prepare"), required)
}

#[test]
fn a_lease_is_held_by_one_node_at_a_time() {
    let mut lease = TopologyLease::default();
    assert_eq!(acquire_topology_lease(&mut lease, "n1", "p1", 100, 50).ok(), Some((1, 150)));
    assert!(ensure_topology_lease_matches(&lease, "p1", "n1", 1, 150).is_ok());
    let e = ensure_topology_lease_matches(&lease, "p1", "n1", 1, 151).unwrap_err();
    assert_eq!(e.message, "topology lease has expired");
    let e = ensure_topology_lease_matches(&lease, "p2", "n1", 1, 120).unwrap_err();
    assert_eq!(e.message, "topology lease holder does not match proposal");
    let e = ensure_topology_lease_matches(&lease, "p1", "n1", 2, 120).unwrap_err();
    assert_eq!(e.message, "topology proposal term 2 does not match current term 1");

    let e = acquire_topology_lease(&mut lease, "n2", "p2", 120, 50).unwrap_err();
    assert_eq!(e.message, "topology lease is held by n1 until 150");
    assert_eq!(lease.current_term, 1);
    // the holder itself may take it again, with a new term
    assert_eq!(acquire_topology_lease(&mut lease, "n1", "p3", 120, 50).ok(), Some((2, 170)));

    release_topology_lease(&mut lease, "p3", "n1", 2);
    assert_eq!(lease.holder_node_id, None);
    assert_eq!(lease.current_term, 2);
    assert_eq!(acquire_topology_lease(&mut lease, "n2", "p4", 121, 10).ok(), Some((3, 131)));
    // a release for another claim changes nothing
    release_topology_lease(&mut lease, "p3", "n1", 2);
    assert_eq!(lease.holder_node_id, Some(s("n2")));
}

#[test]
fn accepting_and_clearing_leases() {
    let mut lease = TopologyLease::default();
    assert!(accept_topology_lease(&mut lease, "p1", "n1", 4, 200, 100).is_ok());
    assert_eq!((lease.current_term, lease.expires_at_ms), (4, Some(200)));
    let e = accept_topology_lease(&mut lease, "p0", "n2", 3, 300, 100).unwrap_err();
    assert_eq!(e.message, "topology proposal term 3 is lower than current term 4");
    let e = accept_topology_lease(&mut lease, "p2", "n2", 4, 300, 100).unwrap_err();
    assert_eq!(e.message, "topology lease term 4 is held by n1");
    // the same claim may be accepted again, and a later term wins
    assert!(accept_topology_lease(&mut lease, "p1", "n1", 4, 250, 100).is_ok());
    assert!(accept_topology_lease(&mut lease, "p2", "n2", 5, 300, 100).is_ok());
    assert_eq!(lease.holder_node_id, Some(s("n2")));

    assert!(!cleanup_expired_topology_lease(&mut lease, 299));
    assert!(cleanup_expired_topology_lease(&mut lease, 300));
    assert_eq!((lease.holder_node_id.clone(), lease.current_term), (None, 5));
    assert!(!cleanup_expired_topology_lease(&mut lease, 1000));
}

#[test]
fn proposals_need_a_quorum_to_prepare_and_commit() {
    let mut lease = TopologyLease::default();
    let mut p = proposal("p1", 2);
    assert!(acquire_topology_lease_for_proposal(&mut lease, &mut p, 100, 30).is_ok());
    assert_eq!((p.term, p.lease_expires_at_ms), (1, 130));

    assert!(!finish_topology_prepare(&mut p, vec![result("n2", true), result("n3", false)], 105));
    assert_eq!(count_applied(&p.prepare_acks), 2);
    assert_eq!(p.phase, TopologyProposalPhase::Prepared);
    assert_eq!(check_topology_commit(&p).ok(), Some(true));
    assert!(finish_topology_commit(&mut p, vec![result("n2", true)], self_topology_result("n1", None, "commit"), 110).is_ok());
    assert_eq!(p.phase, TopologyProposalPhase::Committed);
    assert_eq!(p.commit_results.len(), 2);
    assert_eq!(check_topology_commit(&p).ok(), Some(false));
    assert_eq!(check_topology_abort(&p).unwrap_err().message, "committed topology proposal cannot be aborted");
    assert_eq!(check_topology_retry(&p, 0).unwrap_err().message, "committed topology proposal cannot be retried");

    let mut q = proposal("p2", 3);
    assert!(finish_topology_prepare(&mut q, vec![result("n2", false)], 105));
    assert_eq!(q.phase, TopologyProposalPhase::Failed);
    assert_eq!(q.last_error, Some(s("topology proposal prepare requires 3 acks, got 1")));
    assert_eq!(check_topology_commit(&q).unwrap_err().message, "topology proposal has failed");
    assert_eq!(check_topology_retry(&q, 0).ok(), Some(s("retry move")));

    let mut r = proposal("p3", 3);
    let e = finish_topology_commit(&mut r, vec![result("n2", true), result("n3", false)], self_topology_result("n1", None, "commit"), 120)
        .unwrap_err();
    assert_eq!(e.message, "topology proposal commit requires 3 acks, got 2");
    assert_eq!(r.phase, TopologyProposalPhase::Failed);

    let mut t = proposal("p4", 3);
    assert_eq!(check_topology_commit(&t).unwrap_err().message, "topology proposal requires 3 prepare acks, got 1");
    t.lease_expires_at_ms = 500;
    assert_eq!(check_topology_retry(&t, 400).unwrap_err().message, "prepared topology proposal still holds an active lease");
    assert!(check_topology_abort(&t).is_ok());
    mark_topology_aborted(&mut t, 450);
    assert_eq!(t.phase, TopologyProposalPhase::Aborted);
    assert_eq!(t.last_error, Some(s("aborted by operator")));
}

#[test]
fn the_latest_open_failover_of_a_shard_is_found() {
    let mut a = proposal("a", 1);
    a.reason = s("failover shard 0 from n1 to n2");
    a.updated_at_ms = 10;
    let mut b = proposal("b", 1);
    b.reason = s("failover shard 0 from n1 to n3");
    b.updated_at_ms = 10;
    let mut c = proposal("c", 1);
    c.reason = s("failover shard 0 from n1 to n4");
    c.updated_at_ms = 50;
    c.phase = TopologyProposalPhase::Committed;
    let d = proposal("d", 1);
    let list = vec![a, b, c, d];
    // equal times: the last listed wins; committed ones and other reasons do not count
    assert_eq!(existing_failover_proposal_for_shard(&list, 0), Some(1));
    assert_eq!(existing_failover_proposal_for_shard(&list, 1), None);
}

#[test]
fn override_requests_are_normalized_and_merged() {
    let req = ApplyTopologyOverrideRequest {
        shard: 1,
        owner: Some(s(" n2 ")),
        epoch: Some(0),
        replicas: Some(vec![s(" n3"), s(""), s("n3"), s("n4 ")]),
    };
    let n = normalize_topology_override_request(req, 2, 0).ok().unwrap();
    assert_eq!(n.owner, Some(s("n2")));
    assert_eq!(n.replicas, Some(vec![s("n3"), s("n4")]));

    let mut overrides = BTreeMap::new();
    overrides.insert(1, ClusterShardOverride { owner: Some(s("n1")), epoch: Some(4), replicas: Some(vec![s("n9")]) });
    overrides.insert(0, ClusterShardOverride { owner: None, epoch: Some(2), replicas: None });
    let next = build_topology_overrides_after_request(&overrides, n);
    let one = next.get(&1).unwrap();
    assert_eq!(one.owner, Some(s("n2")));
    assert_eq!(one.epoch, Some(1));
    assert_eq!(one.replicas, Some(vec![s("n3"), s("n4")]));
    assert_eq!(next.get(&0).unwrap().epoch, Some(2));

    let only_epoch = ApplyTopologyOverrideRequest { shard: 3, owner: None, epoch: Some(7), replicas: None };
    let next = build_topology_overrides_after_request(&next, only_epoch);
    let three = next.get(&3).unwrap();
    assert_eq!((three.owner.clone(), three.epoch), (None, Some(7)));

    let low = ApplyTopologyOverrideRequest { shard: 0, owner: None, epoch: Some(2), replicas: None };
    let e = normalize_topology_override_request(low, 2, 5).err().unwrap();
    assert_eq!(e.message, "topology override epoch 2 is lower than current epoch 5");
    let blank = ApplyTopologyOverrideRequest { shard: 0, owner: Some(s("  ")), epoch: None, replicas: None };
    assert_eq!(normalize_topology_override_request(blank, 2, 5).err().unwrap().message, "owner cannot be empty");
    let far = ApplyTopologyOverrideRequest { shard: 2, owner: None, epoch: None, replicas: None };
    assert_eq!(normalize_topology_override_request(far, 2, 5).err().unwrap().message, "shard is out of range");
}

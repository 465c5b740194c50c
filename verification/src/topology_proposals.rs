//! Topology proposals: a change of a shard's owner, epoch or replicas that
//! a node prepares on a quorum of the cluster and then commits. A proposal
//! moves from prepared to committed, failed or aborted; these functions make
//! each move and the checks before it.
use vstd::prelude::*;
use crate::api_error::{ApiError, ApiErrorKind};
use crate::failover::{ApplyTopologyOverrideRequest, FailoverPlanResponse, decimal_string};
use crate::text::{cat2, cat4, decimal, owned, starts_with};
use crate::topology::TopologyPropagationResult;
use crate::topology_lease::{TopologyLease, acquire_topology_lease, acquired};

verus! {

#[derive(PartialEq, Eq, Structural, Clone, Copy, Debug)]
pub enum TopologyProposalPhase {
    Prepared,
    Committed,
    Failed,
    Aborted,
}

/// A topology change on its way through the cluster.
pub struct TopologyProposal {
    pub id: String,
    pub created_at_ms: u64,
    pub updated_at_ms: u64,
    pub proposed_by: String,
    pub term: u64,
    pub lease_expires_at_ms: u64,
    pub reason: String,
    pub phase: TopologyProposalPhase,
    pub request: ApplyTopologyOverrideRequest,
    pub prepare_acks: Vec<TopologyPropagationResult>,
    pub commit_results: Vec<TopologyPropagationResult>,
    pub required_acks: usize,
    pub last_error: Option<String>,
}

/// How many of the results say the change was applied.
pub open spec fn applied_count(rs: Seq<TopologyPropagationResult>) -> nat
    decreases rs.len(),
{
    if rs.len() == 0 {
        0
    } else {
        applied_count(rs.drop_last()) + if rs.last().applied {
            1nat
        } else {
            0nat
        }
    }
}

proof fn lemma_applied_count_bound(rs: Seq<TopologyPropagationResult>)
    ensures
        applied_count(rs) <= rs.len(),
    decreases rs.len(),
{
    if rs.len() > 0 {
        lemma_applied_count_bound(rs.drop_last());
    }
}

proof fn lemma_applied_count_append(a: Seq<TopologyPropagationResult>, b: Seq<TopologyPropagationResult>)
    ensures
        applied_count(a + b) == applied_count(a) + applied_count(b),
    decreases b.len(),
{
    if b.len() == 0 {
        assert(a + b =~= a);
    } else {
        assert((a + b).drop_last() =~= a + b.drop_last());
        lemma_applied_count_append(a, b.drop_last());
    }
}

/// Counts the results that say the change was applied.
pub fn count_applied(rs: &Vec<TopologyPropagationResult>) -> (n: usize)
    ensures
        n == applied_count(rs@),
{
    let mut n: usize = 0;
    let mut i: usize = 0;
    while i < rs.len()
        invariant
            i <= rs@.len(),
            n == applied_count(rs@.take(i as int)),
        decreases rs@.len() - i,
    {
        assert(rs@.take(i + 1).drop_last() =~= rs@.take(i as int));
        proof {
            lemma_applied_count_bound(rs@.take(i as int));
        }
        if rs[i].applied {
            n = n + 1;
        }
        i = i + 1;
    }
    assert(rs@.take(rs@.len() as int) =~= rs@);
    n
}

/// A new proposal of `node_id`, prepared at `now`: its own prepare result
/// is its first acknowledgement; it holds no lease yet (term 0).
pub fn new_topology_proposal(
    id: String,
    node_id: String,
    now: u64,
    reason: String,
    request: ApplyTopologyOverrideRequest,
    own_prepare: TopologyPropagationResult,
    required_acks: usize,
) -> (p: TopologyProposal)
    ensures
        p.id == id,
        p.proposed_by == node_id,
        p.created_at_ms == now,
        p.updated_at_ms == now,
        p.term == 0,
        p.lease_expires_at_ms == 0,
        p.reason == reason,
        p.phase == TopologyProposalPhase::Prepared,
        p.request == request,
        p.prepare_acks@ == seq![own_prepare],
        p.commit_results@.len() == 0,
        p.required_acks == required_acks,
        p.last_error is None,
{
    let mut acks: Vec<TopologyPropagationResult> = Vec::new();
    acks.push(own_prepare);
    assert(acks@ =~= seq![own_prepare]);
    TopologyProposal {
        id,
        created_at_ms: now,
        updated_at_ms: now,
        proposed_by: node_id,
        term: 0,
        lease_expires_at_ms: 0,
        reason,
        phase: TopologyProposalPhase::Prepared,
        request,
        prepare_acks: acks,
        commit_results: Vec::new(),
        required_acks,
        last_error: None,
    }
}

/// Takes the lease for the proposal at `now` for `lease_ms`, recording the
/// term and the end of the hold in the proposal.
pub fn acquire_topology_lease_for_proposal(
    lease: &mut TopologyLease,
    proposal: &mut TopologyProposal,
    now: u64,
    lease_ms: u64,
) -> (r: Result<(), ApiError>)
    requires
        now + lease_ms <= u64::MAX,
    ensures
        match acquired(old(lease)@, old(proposal).proposed_by@, old(proposal).id@, now, lease_ms) {
            Ok(l) => {
                &&& final(lease)@ == l
                &&& r is Ok
                &&& final(proposal).term == l.term
                &&& final(proposal).lease_expires_at_ms == l.expires->Some_0
                &&& final(proposal).id == old(proposal).id
                &&& final(proposal).proposed_by == old(proposal).proposed_by
                &&& final(proposal).phase == old(proposal).phase
                &&& final(proposal).prepare_acks == old(proposal).prepare_acks
            },
            Err(m) => final(lease)@ == old(lease)@ && *final(proposal) == *old(proposal) && (r matches Err(e)
                && e.kind == ApiErrorKind::Conflict && e.message@ == m),
        },
{
    match acquire_topology_lease(lease, proposal.proposed_by.as_str(), proposal.id.as_str(), now, lease_ms) {
        Ok((term, expires)) => {
            proposal.term = term;
            proposal.lease_expires_at_ms = expires;
            Ok(())
        },
        Err(e) => Err(e),
    }
}

/// `"{what} requires {n} acks, got {m}"`.
pub open spec fn acks_message(what: Seq<char>, n: nat, m: nat) -> Seq<char> {
    what + " requires "@ + decimal(n) + " acks, got "@ + decimal(m)
}

fn acks_error_text(what: &str, n: usize, m: usize) -> (s: String)
    ensures
        s@ == acks_message(what@, n as nat, m as nat),
{
    let a = decimal_string(n as u64);
    let b = decimal_string(m as u64);
    let head = cat4(what, " requires ", a.as_str(), " acks, got ");
    cat2(head.as_str(), b.as_str())
}

/// Adds the peers' prepare results to the proposal at `now`. Where fewer
/// than the required acknowledgements applied it, the proposal fails (and
/// its lease is to be let go): the result says whether it failed.
pub fn finish_topology_prepare(
    proposal: &mut TopologyProposal,
    peer_results: Vec<TopologyPropagationResult>,
    now: u64,
) -> (failed: bool)
    requires
        old(proposal).prepare_acks@.len() + peer_results@.len() <= usize::MAX,
    ensures
        final(proposal).prepare_acks@ == old(proposal).prepare_acks@ + peer_results@,
        failed == (applied_count(final(proposal).prepare_acks@) < old(proposal).required_acks),
        final(proposal).phase == if failed {
            TopologyProposalPhase::Failed
        } else {
            old(proposal).phase
        },
        !failed ==> final(proposal).last_error == old(proposal).last_error,
        failed ==> (final(proposal).last_error matches Some(m) && m@ == acks_message(
            "topology proposal prepare"@,
            old(proposal).required_acks as nat,
            applied_count(final(proposal).prepare_acks@),
        )),
        final(proposal).updated_at_ms == now,
        final(proposal).id == old(proposal).id,
        final(proposal).proposed_by == old(proposal).proposed_by,
        final(proposal).term == old(proposal).term,
        final(proposal).required_acks == old(proposal).required_acks,
        final(proposal).commit_results == old(proposal).commit_results,
{
    let mut peers = peer_results;
    let ghost before = proposal.prepare_acks@;
    let ghost added = peers@;
    proposal.prepare_acks.append(&mut peers);
    assert(proposal.prepare_acks@ =~= before + added);
    let acked = count_applied(&proposal.prepare_acks);
    let failed = acked < proposal.required_acks;
    if failed {
        proposal.phase = TopologyProposalPhase::Failed;
        proposal.last_error = Some(acks_error_text("topology proposal prepare", proposal.required_acks, acked));
    }
    proposal.updated_at_ms = now;
    failed
}

/// Checks that a proposal may be aborted: a committed one may not.
pub fn check_topology_abort(proposal: &TopologyProposal) -> (r: Result<(), ApiError>)
    ensures
        r is Ok <==> proposal.phase != TopologyProposalPhase::Committed,
        r matches Err(e) ==> e.kind == ApiErrorKind::Conflict && e.message@
            == "committed topology proposal cannot be aborted"@,
{
    if proposal.phase == TopologyProposalPhase::Committed {
        return Err(ApiError::conflict(owned("committed topology proposal cannot be aborted")));
    }
    Ok(())
}

/// Marks a proposal aborted by the operator at `now`.
pub fn mark_topology_aborted(proposal: &mut TopologyProposal, now: u64)
    ensures
        final(proposal).phase == TopologyProposalPhase::Aborted,
        final(proposal).updated_at_ms == now,
        final(proposal).last_error matches Some(m) && m@ == "aborted by operator"@,
        final(proposal).id == old(proposal).id,
        final(proposal).term == old(proposal).term,
        final(proposal).prepare_acks == old(proposal).prepare_acks,
        final(proposal).commit_results == old(proposal).commit_results,
{
    proposal.phase = TopologyProposalPhase::Aborted;
    proposal.updated_at_ms = now;
    proposal.last_error = Some(owned("aborted by operator"));
}

/// Checks that a proposal may be prepared again at `now`: not once
/// committed, nor while it is prepared and its lease still runs. Gives the
/// reason of the new proposal.
pub fn check_topology_retry(proposal: &TopologyProposal, now: u64) -> (r: Result<String, ApiError>)
    ensures
        proposal.phase == TopologyProposalPhase::Committed ==> (r matches Err(e) && e.kind == ApiErrorKind::Conflict
            && e.message@ == "committed topology proposal cannot be retried"@),
        proposal.phase == TopologyProposalPhase::Prepared && proposal.lease_expires_at_ms > now ==> (r matches Err(e)
            && e.kind == ApiErrorKind::Conflict && e.message@ == "prepared topology proposal still holds an active lease"@),
        r is Ok <==> (proposal.phase != TopologyProposalPhase::Committed && !(proposal.phase
            == TopologyProposalPhase::Prepared && proposal.lease_expires_at_ms > now)),
        r matches Ok(reason) ==> reason@ == "retry "@ + proposal.reason@,
{
    if proposal.phase == TopologyProposalPhase::Committed {
        return Err(ApiError::conflict(owned("committed topology proposal cannot be retried")));
    }
    if proposal.phase == TopologyProposalPhase::Prepared && proposal.lease_expires_at_ms > now {
        return Err(ApiError::conflict(owned("prepared topology proposal still holds an active lease")));
    }
    Ok(cat2("retry ", proposal.reason.as_str()))
}

/// Whether a commit of the proposal goes ahead: a committed proposal is
/// answered as it is (`Ok(false)`); a failed one, or one that too few nodes
/// prepared, is refused; else the commit goes ahead (`Ok(true)`).
pub fn check_topology_commit(proposal: &TopologyProposal) -> (r: Result<bool, ApiError>)
    ensures
        proposal.phase == TopologyProposalPhase::Committed ==> r == Ok::<bool, ApiError>(false),
        proposal.phase == TopologyProposalPhase::Failed ==> (r matches Err(e) && e.kind == ApiErrorKind::Conflict
            && e.message@ == "topology proposal has failed"@),
        proposal.phase != TopologyProposalPhase::Committed && proposal.phase != TopologyProposalPhase::Failed ==> if applied_count(
            proposal.prepare_acks@,
        ) < proposal.required_acks {
            r matches Err(e) && e.kind == ApiErrorKind::Conflict && e.message@ == "topology proposal requires "@
                + decimal(proposal.required_acks as nat) + " prepare acks, got "@ + decimal(
                applied_count(proposal.prepare_acks@),
            )
        } else {
            r == Ok::<bool, ApiError>(true)
        },
{
    if proposal.phase == TopologyProposalPhase::Committed {
        return Ok(false);
    }
    if proposal.phase == TopologyProposalPhase::Failed {
        return Err(ApiError::conflict(owned("topology proposal has failed")));
    }
    let prepared = count_applied(&proposal.prepare_acks);
    if prepared < proposal.required_acks {
        let a = decimal_string(proposal.required_acks as u64);
        let b = decimal_string(prepared as u64);
        return Err(
            ApiError::conflict(cat4("topology proposal requires ", a.as_str(), " prepare acks, got ", b.as_str())),
        );
    }
    Ok(true)
}

/// Records the outcome of committing on the peers at `now`, this node
/// counting as one more acknowledgement. With too few, the proposal fails
/// (its lease is to be let go) and the error says why; else it is committed
/// with the peers' results and this node's own (`own_commit`).
pub fn finish_topology_commit(
    proposal: &mut TopologyProposal,
    peer_results: Vec<TopologyPropagationResult>,
    own_commit: TopologyPropagationResult,
    now: u64,
) -> (r: Result<(), ApiError>)
    requires
        peer_results@.len() < usize::MAX,
    ensures
        r is Ok <==> applied_count(peer_results@) + 1 >= old(proposal).required_acks,
        r is Ok ==> {
            &&& final(proposal).phase == TopologyProposalPhase::Committed
            &&& final(proposal).commit_results@ == peer_results@.push(own_commit)
            &&& final(proposal).last_error is None
        },
        r matches Err(e) ==> {
            &&& final(proposal).phase == TopologyProposalPhase::Failed
            &&& final(proposal).commit_results@ == peer_results@
            &&& e.kind == ApiErrorKind::Conflict
            &&& final(proposal).last_error matches Some(m) && m@ == e.message@
            &&& e.message@ == acks_message(
                "topology proposal commit"@,
                old(proposal).required_acks as nat,
                applied_count(peer_results@) + 1,
            )
        },
        final(proposal).updated_at_ms == now,
        final(proposal).id == old(proposal).id,
        final(proposal).term == old(proposal).term,
        final(proposal).request == old(proposal).request,
        final(proposal).prepare_acks == old(proposal).prepare_acks,
        final(proposal).required_acks == old(proposal).required_acks,
{
    let successes = count_applied(&peer_results);
    proof {
        lemma_applied_count_bound(peer_results@);
    }
    if successes + 1 < proposal.required_acks {
        let message = acks_error_text("topology proposal commit", proposal.required_acks, successes + 1);
        proposal.phase = TopologyProposalPhase::Failed;
        proposal.updated_at_ms = now;
        proposal.commit_results = peer_results;
        proposal.last_error = Some(message.clone());
        return Err(ApiError::conflict(message));
    }
    let mut results = peer_results;
    results.push(own_commit);
    proposal.phase = TopologyProposalPhase::Committed;
    proposal.updated_at_ms = now;
    proposal.commit_results = results;
    proposal.last_error = None;
    Ok(())
}

/// A committed proposal's results hold a quorum of applied
/// acknowledgements: a commit goes through only where the peers' applied
/// results and this node's own (which is applied) reach the required count.
pub proof fn committed_results_reach_quorum(
    peers: Seq<TopologyPropagationResult>,
    own: TopologyPropagationResult,
    required: usize,
)
    requires
        own.applied,
        applied_count(peers) + 1 >= required,
    ensures
        applied_count(peers.push(own)) >= required,
{
    assert(peers.push(own).drop_last() =~= peers);
}

/// Whether a proposal is a failover of `shard` still open to a commit or a
/// retry.
pub open spec fn open_failover_of(p: TopologyProposal, shard: usize) -> bool {
    &&& p.request.shard == shard
    &&& starts_with(p.reason@, "failover shard "@)
    &&& (p.phase == TopologyProposalPhase::Prepared || p.phase == TopologyProposalPhase::Failed)
}

/// The open failover proposal of `shard` last updated: among those last
/// updated at the same time, the last listed.
pub fn existing_failover_proposal_for_shard(proposals: &Vec<TopologyProposal>, shard: usize) -> (r: Option<usize>)
    ensures
        match r {
            None => forall|i: int| 0 <= i < proposals@.len() ==> !open_failover_of(#[trigger] proposals@[i], shard),
            Some(k) => {
                &&& k < proposals@.len()
                &&& open_failover_of(proposals@[k as int], shard)
                &&& forall|i: int|
                    0 <= i < proposals@.len() && open_failover_of(#[trigger] proposals@[i], shard) ==> proposals@[i].updated_at_ms
                        <= proposals@[k as int].updated_at_ms
                &&& forall|i: int|
                    k < i < proposals@.len() && open_failover_of(#[trigger] proposals@[i], shard) ==> proposals@[i].updated_at_ms
                        < proposals@[k as int].updated_at_ms
            },
        },
{
    let prefix = crate::text::chars_of("failover shard ");
    let mut best: Option<usize> = None;
    let mut i: usize = 0;
    while i < proposals.len()
        invariant
            i <= proposals@.len(),
            prefix@ == "failover shard "@,
            match best {
                None => forall|j: int| 0 <= j < i ==> !open_failover_of(#[trigger] proposals@[j], shard),
                Some(k) => {
                    &&& k < i
                    &&& open_failover_of(proposals@[k as int], shard)
                    &&& forall|j: int|
                        0 <= j < i && open_failover_of(#[trigger] proposals@[j], shard) ==> proposals@[j].updated_at_ms
                            <= proposals@[k as int].updated_at_ms
                    &&& forall|j: int|
                        k < j < i && open_failover_of(#[trigger] proposals@[j], shard) ==> proposals@[j].updated_at_ms
                            < proposals@[k as int].updated_at_ms
                },
            },
        decreases proposals@.len() - i,
    {
        let p = &proposals[i];
        let reason = crate::text::chars_of(p.reason.as_str());
        let open = p.request.shard == shard && crate::text::chars_starts_with(reason.as_slice(), prefix.as_slice())
            && (p.phase == TopologyProposalPhase::Prepared || p.phase == TopologyProposalPhase::Failed);
        if open {
            match best {
                None => {
                    best = Some(i);
                },
                Some(k) => {
                    if proposals[k].updated_at_ms <= p.updated_at_ms {
                        best = Some(i);
                    }
                },
            }
        }
        i = i + 1;
    }
    best
}

/// Whether a prepared failover proposal should be committed now.
pub fn failover_proposal_ready_to_commit(proposal: &TopologyProposal) -> (b: bool)
    ensures
        b == (proposal.phase == TopologyProposalPhase::Prepared),
{
    proposal.phase == TopologyProposalPhase::Prepared
}

/// The reason of the proposal that carries out a failover plan; a plan that
/// is not ready is refused with its reason.
pub fn failover_proposal_reason(plan: &FailoverPlanResponse) -> (r: Result<String, ApiError>)
    ensures
        r is Ok <==> plan.ready,
        r matches Ok(s) ==> s@ == "failover shard "@ + decimal(plan.shard as nat) + " from "@ + plan.current_owner@
            + " to "@ + plan.target_owner@,
        r matches Err(e) ==> e.kind == ApiErrorKind::Conflict && e.message@ == match plan.reason {
            Some(m) => m@,
            None => "failover plan is not ready"@,
        },
{
    if !plan.ready {
        let m = match &plan.reason {
            Some(m) => m.clone(),
            None => owned("failover plan is not ready"),
        };
        return Err(ApiError::conflict(m));
    }
    let s = decimal_string(plan.shard as u64);
    let head = crate::text::cat5("failover shard ", s.as_str(), " from ", plan.current_owner.as_str(), " to ");
    Ok(cat2(head.as_str(), plan.target_owner.as_str()))
}

} // verus!

//! Plans for moving a shard to a new owner: a planned handoff from a healthy
//! owner, or a failover away from one the peer monitor saw fail. A plan says
//! whether the move may go ahead, why not where it may not, and the steps and
//! settings that carry it out.
use vstd::prelude::*;
use crate::api_error::{ApiError, ApiErrorKind};
use crate::records::{list_contains, string_views};
use crate::text::{cat3, cat5, chars_of, decimal, decimal_chars, owned, str_eq, string_from_chars, trim, trim_string};
use crate::endpoints::{endpoint_url, wal_replicate_path};
use crate::topology::{PeerHealthStatus, previous_of};
use crate::wal::{WalRemoteReplica, acked_at, remote_ack_lsn_for_url};

verus! {

/// `items.join(sep)`.
pub open spec fn joined(items: Seq<Seq<char>>, sep: Seq<char>) -> Seq<char>
    decreases items.len(),
{
    if items.len() == 0 {
        Seq::empty()
    } else if items.len() == 1 {
        items[0]
    } else {
        joined(items.drop_last(), sep) + sep + items.last()
    }
}

/// Joins the strings with `|` between them.
pub fn join_pipe(items: &Vec<String>) -> (r: String)
    ensures
        r@ == joined(string_views(items@), "|"@),
{
    let mut m: Vec<char> = Vec::new();
    let mut i: usize = 0;
    while i < items.len()
        invariant
            i <= items@.len(),
            m@ == joined(string_views(items@).take(i as int), "|"@),
        decreases items@.len() - i,
    {
        let ghost before = string_views(items@).take(i as int);
        let ghost after = string_views(items@).take(i + 1);
        assert(after.drop_last() =~= before);
        assert(after.last() == items@[i as int]@);
        if i > 0 {
            crate::text::push_str_chars(&mut m, "|");
        }
        crate::text::push_str_chars(&mut m, items[i].as_str());
        proof {
            if i == 0 {
                assert(m@ =~= after[0]);
            }
        }
        i = i + 1;
    }
    assert(string_views(items@).take(items@.len() as int) =~= string_views(items@));
    crate::text::string_from_chars(m.as_slice())
}

/// The replicas in order, leaving out `target` and any repeat.
pub open spec fn replicas_without(rs: Seq<Seq<char>>, target: Seq<char>) -> Seq<Seq<char>>
    decreases rs.len(),
{
    if rs.len() == 0 {
        Seq::empty()
    } else {
        let prev = replicas_without(rs.drop_last(), target);
        if rs.last() == target || prev.contains(rs.last()) {
            prev
        } else {
            prev.push(rs.last())
        }
    }
}

/// The replicas of a shard once `target` owns it: its replicas without the
/// target and without repeats, then the current owner where it is named and
/// not among them.
pub open spec fn target_replicas(rs: Seq<Seq<char>>, current: Seq<char>, target: Seq<char>) -> Seq<Seq<char>> {
    let base = replicas_without(rs, target);
    if current.len() > 0 && !base.contains(current) {
        base.push(current)
    } else {
        base
    }
}

proof fn lemma_replicas_without(rs: Seq<Seq<char>>, target: Seq<char>)
    ensures
        !replicas_without(rs, target).contains(target),
        replicas_without(rs, target).no_duplicates(),
        forall|x: Seq<char>| replicas_without(rs, target).contains(x) <==> (rs.contains(x) && x != target),
    decreases rs.len(),
{
    if rs.len() > 0 {
        let prev = replicas_without(rs.drop_last(), target);
        lemma_replicas_without(rs.drop_last(), target);
        assert forall|x: Seq<char>| replicas_without(rs, target).contains(x) <==> (rs.contains(x) && x != target) by {
            if rs.contains(x) {
                let i = choose|i: int| 0 <= i < rs.len() && rs[i] == x;
                if i < rs.len() - 1 {
                    assert(rs.drop_last()[i] == x);
                }
            }
            if rs.drop_last().contains(x) {
                let i = choose|i: int| 0 <= i < rs.drop_last().len() && rs.drop_last()[i] == x;
                assert(rs[i] == x);
            }
            if !(rs.last() == target || prev.contains(rs.last())) {
                if prev.push(rs.last()).contains(x) && x != rs.last() {
                    let i = choose|i: int| 0 <= i < prev.push(rs.last()).len() && prev.push(rs.last())[i] == x;
                    assert(prev[i] == x);
                }
                assert(prev.push(rs.last())[prev.len() as int] == rs.last());
                if prev.contains(x) {
                    let i = choose|i: int| 0 <= i < prev.len() && prev[i] == x;
                    assert(prev.push(rs.last())[i] == x);
                }
            }
        }
    }
}

/// Once ownership moves from `current` to another node `target`, the
/// replicas name no node twice and leave the new owner out.
pub proof fn handoff_replicas_are_distinct_without_new_owner(rs: Seq<Seq<char>>, current: Seq<char>, target: Seq<char>)
    requires
        current != target,
    ensures
        target_replicas(rs, current, target).no_duplicates(),
        !target_replicas(rs, current, target).contains(target),
        current.len() > 0 ==> target_replicas(rs, current, target).contains(current),
{
    lemma_replicas_without(rs, target);
    let base = replicas_without(rs, target);
    if current.len() > 0 && !base.contains(current) {
        assert(base.push(current)[base.len() as int] == current);
        if base.push(current).contains(target) {
            let i = choose|i: int| 0 <= i < base.push(current).len() && base.push(current)[i] == target;
            assert(base[i] == target);
        }
        assert forall|i: int, j: int| 0 <= i < j < base.push(current).len() implies base.push(current)[i] != base.push(current)[j] by {
            if j == base.len() {
                assert(base[i] == base.push(current)[i]);
            }
        }
    }
}

/// The replicas a shard keeps when ownership moves from `current_owner` to
/// `target_owner`.
pub fn handoff_target_replicas(replicas: &Vec<String>, current_owner: &str, target_owner: &str) -> (r: Vec<String>)
    ensures
        string_views(r@) == target_replicas(string_views(replicas@), current_owner@, target_owner@),
{
    let mut out: Vec<String> = Vec::new();
    let mut i: usize = 0;
    while i < replicas.len()
        invariant
            i <= replicas@.len(),
            string_views(out@) == replicas_without(string_views(replicas@).take(i as int), target_owner@),
        decreases replicas@.len() - i,
    {
        let ghost before = string_views(replicas@).take(i as int);
        let ghost after = string_views(replicas@).take(i + 1);
        assert(after.drop_last() =~= before);
        assert(after.last() == replicas@[i as int]@);
        let r = &replicas[i];
        if !str_eq(r.as_str(), target_owner) && !list_contains(&out, r.as_str()) {
            out.push(r.clone());
            assert(string_views(out@) =~= replicas_without(before, target_owner@).push(replicas@[i as int]@));
        }
        i = i + 1;
    }
    assert(string_views(replicas@).take(replicas@.len() as int) =~= string_views(replicas@));
    let named = crate::text::chars_of(current_owner).len() > 0;
    if named && !list_contains(&out, current_owner) {
        out.push(owned(current_owner));
        assert(string_views(out@) =~= replicas_without(string_views(replicas@), target_owner@).push(current_owner@));
    }
    out
}

/// The URL of node `id` in a list of (node id, URL) pairs: the first listed.
pub open spec fn url_of(nodes: Seq<(String, String)>, id: Seq<char>) -> Option<Seq<char>>
    decreases nodes.len(),
{
    if nodes.len() == 0 {
        None
    } else if nodes[0].0@ == id {
        Some(nodes[0].1@)
    } else {
        url_of(nodes.drop_first(), id)
    }
}

/// The URL of node `id`, where the cluster lists one.
pub fn node_url_for(nodes: &Vec<(String, String)>, id: &str) -> (r: Option<String>)
    ensures
        match r {
            Some(u) => url_of(nodes@, id@) == Some(u@),
            None => url_of(nodes@, id@) is None,
        },
{
    let mut i: usize = 0;
    assert(nodes@.skip(0) =~= nodes@);
    while i < nodes.len()
        invariant
            i <= nodes@.len(),
            url_of(nodes@, id@) == url_of(nodes@.skip(i as int), id@),
        decreases nodes@.len() - i,
    {
        assert(nodes@.skip(i as int).drop_first() =~= nodes@.skip(i + 1));
        assert(nodes@.skip(i as int)[0] == nodes@[i as int]);
        if str_eq(nodes[i].0.as_str(), id) {
            return Some(nodes[i].1.clone());
        }
        i = i + 1;
    }
    assert(nodes@.skip(i as int).len() == 0);
    None
}

/// The acknowledgements a topology change needs: a majority of the nodes.
pub fn required_topology_acks(node_count: usize) -> (n: usize)
    ensures
        n == node_count / 2 + 1,
{
    node_count / 2 + 1
}

/// The decimal numeral of `n` as a string.
pub fn decimal_string(n: u64) -> (s: String)
    ensures
        s@ == decimal(n as nat),
{
    let d = decimal_chars(n);
    string_from_chars(d.as_slice())
}

/// What this node knows of the cluster and of a shard when it plans moving
/// the shard to another owner.
pub struct ShardMoveContext {
    pub shard_count: usize,
    pub local_node_id: String,
    /// Each node's id and URL.
    pub node_urls: Vec<(String, String)>,
    pub node_count: usize,
    pub current_owner: String,
    pub current_epoch: u64,
    pub current_shard_lsn: u64,
    /// The shard's replicas as the cluster configures them.
    pub replicas: Vec<String>,
}

/// What the peer monitor has seen: whether it runs, and each peer's last
/// status.
pub struct PeerHealthSnapshot {
    pub enabled: bool,
    pub peers: Vec<PeerHealthStatus>,
}

/// A request to move the ownership of a shard.
pub struct ApplyTopologyOverrideRequest {
    pub shard: usize,
    pub owner: Option<String>,
    pub epoch: Option<u64>,
    pub replicas: Option<Vec<String>>,
}

/// A request for a failover plan of `shard`, to `target_owner` or else to
/// this node.
pub struct FailoverPlanRequest {
    pub shard: usize,
    pub target_owner: Option<String>,
}

/// A failover plan.
pub struct FailoverPlanResponse {
    pub shard: usize,
    pub current_owner: String,
    pub target_owner: String,
    pub target_owner_url: Option<String>,
    pub current_epoch: u64,
    pub next_epoch: u64,
    pub current_shard_lsn: u64,
    pub local_lsn: u64,
    pub owner_last_seen_ok_lsn: Option<u64>,
    pub owner_healthy: bool,
    pub target_is_local: bool,
    pub target_is_replica: bool,
    pub target_caught_up: bool,
    pub ready: bool,
    pub reason: Option<String>,
    pub required_override: ApplyTopologyOverrideRequest,
    pub required_acks: usize,
    pub owner_peer: Option<PeerHealthStatus>,
    pub steps: Vec<String>,
}

/// The node a failover promotes: the one asked for, else this node, trimmed.
pub open spec fn failover_target(requested: Option<String>, local: Seq<char>) -> Seq<char> {
    trim(
        match requested {
            Some(t) => t@,
            None => local,
        },
    )
}

/// The last LSN at which the owner was seen healthy: its recorded one, else
/// its current one.
pub open spec fn owner_lsn(peer: Option<PeerHealthStatus>) -> Option<u64> {
    match peer {
        Some(p) => match p.last_seen_ok_lsn {
            Some(l) => Some(l),
            None => p.current_lsn,
        },
        None => None,
    }
}

/// Why a failover may not go ahead, checked in this order; none where it may.
pub open spec fn failover_reason(
    shard: usize,
    current: Seq<char>,
    local: Seq<char>,
    target: Seq<char>,
    enabled: bool,
    owner_peer: Option<PeerHealthStatus>,
    target_is_replica: bool,
    local_lsn: u64,
) -> Option<Seq<char>> {
    if current == local {
        Some("current owner is local; use handoff instead of failover"@)
    } else if !enabled {
        Some("owner health is unknown; enable NEXTDB_PEER_MONITOR_INTERVAL_MS"@)
    } else if owner_peer is None {
        Some("owner "@ + current + " has not been observed by peer monitor"@)
    } else if owner_peer->Some_0.ok {
        Some("owner "@ + current + " is still healthy"@)
    } else if target != local {
        Some("failover can only be promoted from the local target node"@)
    } else if !target_is_replica {
        Some("target owner "@ + target + " is not a replica for shard "@ + decimal(shard as nat))
    } else if owner_lsn(owner_peer) is None {
        Some("owner "@ + current + " has no last healthy LSN; wait for peer monitor to observe it"@)
    } else if local_lsn < owner_lsn(owner_peer)->Some_0 {
        Some(
            "local LSN "@ + decimal(local_lsn as nat) + " has not caught up to owner last healthy LSN "@
                + decimal(owner_lsn(owner_peer)->Some_0 as nat),
        )
    } else {
        None
    }
}

fn failover_reason_text(
    shard: usize,
    current: &str,
    local: &str,
    target: &str,
    enabled: bool,
    owner_peer: &Option<PeerHealthStatus>,
    target_is_replica: bool,
    local_lsn: u64,
) -> (r: Option<String>)
    ensures
        match r {
            Some(t) => failover_reason(shard, current@, local@, target@, enabled, *owner_peer, target_is_replica, local_lsn)
                == Some(t@),
            None => failover_reason(shard, current@, local@, target@, enabled, *owner_peer, target_is_replica, local_lsn)
                is None,
        },
{
    if str_eq(current, local) {
        return Some(owned("current owner is local; use handoff instead of failover"));
    }
    if !enabled {
        return Some(owned("owner health is unknown; enable NEXTDB_PEER_MONITOR_INTERVAL_MS"));
    }
    let peer = match owner_peer {
        None => {
            return Some(cat3("owner ", current, " has not been observed by peer monitor"));
        },
        Some(p) => p,
    };
    if peer.ok {
        return Some(cat3("owner ", current, " is still healthy"));
    }
    if !str_eq(target, local) {
        return Some(owned("failover can only be promoted from the local target node"));
    }
    if !target_is_replica {
        let n = decimal_string(shard as u64);
        let r = cat3("target owner ", target, " is not a replica for shard ");
        return Some(crate::text::cat2(r.as_str(), n.as_str()));
    }
    let owner_ok_lsn = match peer.last_seen_ok_lsn {
        Some(l) => Some(l),
        None => peer.current_lsn,
    };
    match owner_ok_lsn {
        None => Some(cat3("owner ", current, " has no last healthy LSN; wait for peer monitor to observe it")),
        Some(o) => {
            if local_lsn < o {
                let a = decimal_string(local_lsn);
                let b = decimal_string(o);
                Some(crate::text::cat4("local LSN ", a.as_str(), " has not caught up to owner last healthy LSN ", b.as_str()))
            } else {
                None
            }
        },
    }
}

fn copy_text(o: &Option<String>) -> (c: Option<String>)
    ensures
        c == *o,
{
    match o {
        Some(t) => Some(t.clone()),
        None => None,
    }
}

fn copy_peer_status(p: &PeerHealthStatus) -> (c: PeerHealthStatus)
    ensures
        c == *p,
{
    PeerHealthStatus {
        node_id: p.node_id.clone(),
        url: p.url.clone(),
        ok: p.ok,
        status: p.status,
        accepting_writes: p.accepting_writes,
        current_lsn: p.current_lsn,
        last_seen_ok_lsn: p.last_seen_ok_lsn,
        latency_ms: p.latency_ms,
        last_checked_at_ms: p.last_checked_at_ms,
        last_seen_ok_at_ms: p.last_seen_ok_at_ms,
        error: copy_text(&p.error),
    }
}

fn find_peer(peers: &Vec<PeerHealthStatus>, node_id: &str) -> (r: Option<PeerHealthStatus>)
    ensures
        r == previous_of(peers@, node_id@),
{
    let mut i: usize = 0;
    assert(peers@.skip(0) =~= peers@);
    while i < peers.len()
        invariant
            i <= peers@.len(),
            previous_of(peers@, node_id@) == previous_of(peers@.skip(i as int), node_id@),
        decreases peers@.len() - i,
    {
        assert(peers@.skip(i as int).drop_first() =~= peers@.skip(i + 1));
        assert(peers@.skip(i as int)[0] == peers@[i as int]);
        if str_eq(peers[i].node_id.as_str(), node_id) {
            return Some(copy_peer_status(&peers[i]));
        }
        i = i + 1;
    }
    assert(peers@.skip(i as int).len() == 0);
    None
}

/// The steps of a failover.
pub open spec fn failover_steps(
    shard: usize,
    current: Seq<char>,
    target: Seq<char>,
    local_lsn: u64,
    next_epoch: u64,
    replicas: Seq<char>,
    acks: usize,
) -> Seq<Seq<char>> {
    seq![
        "Peer monitor marks current owner "@ + current + " unhealthy."@,
        "Confirm local target "@ + target + " is a replica and has WAL LSN "@ + decimal(local_lsn as nat) + "."@,
        "Prepare topology proposal: shard "@ + decimal(shard as nat) + " owner="@ + target + " epoch="@
            + decimal(next_epoch as nat) + " replicas="@ + replicas + "."@,
        "Commit only after topology quorum accepts the proposal ("@ + decimal(acks as nat) + " required ack(s))."@,
    ]
}

fn failover_step_texts(
    shard: usize,
    current: &str,
    target: &str,
    local_lsn: u64,
    next_epoch: u64,
    replicas: &str,
    acks: usize,
) -> (r: Vec<String>)
    ensures
        string_views(r@) == failover_steps(shard, current@, target@, local_lsn, next_epoch, replicas@, acks),
{
    let lsn = decimal_string(local_lsn);
    let sh = decimal_string(shard as u64);
    let ep = decimal_string(next_epoch);
    let ak = decimal_string(acks as u64);
    let mut steps: Vec<String> = Vec::new();
    steps.push(cat3("Peer monitor marks current owner ", current, " unhealthy."));
    steps.push(cat5("Confirm local target ", target, " is a replica and has WAL LSN ", lsn.as_str(), "."));
    let head = cat5("Prepare topology proposal: shard ", sh.as_str(), " owner=", target, " epoch=");
    steps.push(cat5(head.as_str(), ep.as_str(), " replicas=", replicas, "."));
    steps.push(cat3("Commit only after topology quorum accepts the proposal (", ak.as_str(), " required ack(s))."));
    assert(string_views(steps@) =~= failover_steps(shard, current@, target@, local_lsn, next_epoch, replicas@, acks));
    steps
}

/// Plans a failover of `request.shard` to the requested node (else this
/// node): whether it may go ahead and, if not, why (see `failover_reason`);
/// the new owner, epoch and replicas to propose; and the steps.
pub fn compute_failover_plan(
    ctx: &ShardMoveContext,
    health: &PeerHealthSnapshot,
    request: FailoverPlanRequest,
) -> (r: Result<FailoverPlanResponse, ApiError>)
    requires
        ctx.current_epoch < u64::MAX,
    ensures
        request.shard >= ctx.shard_count ==> (r matches Err(e) && e.kind == ApiErrorKind::BadRequest
            && e.message@ == "shard is out of range"@),
        request.shard < ctx.shard_count && failover_target(request.target_owner, ctx.local_node_id@).len() == 0
            ==> (r matches Err(e) && e.kind == ApiErrorKind::BadRequest && e.message@ == "targetOwner cannot be empty"@),
        r is Ok <==> request.shard < ctx.shard_count && failover_target(request.target_owner, ctx.local_node_id@).len() > 0,
        r matches Ok(p) ==> {
            let target = failover_target(request.target_owner, ctx.local_node_id@);
            let current = ctx.current_owner@;
            let local = ctx.local_node_id@;
            let owner_peer = if current == local { None } else { previous_of(health.peers@, current) };
            let replicas = target_replicas(string_views(ctx.replicas@), current, target);
            let is_replica = string_views(ctx.replicas@).contains(target);
            let reason = failover_reason(
                request.shard,
                current,
                local,
                target,
                health.enabled,
                owner_peer,
                is_replica,
                ctx.current_shard_lsn,
            );
            &&& p.shard == request.shard
            &&& p.current_owner@ == current
            &&& p.target_owner@ == target
            &&& (match p.target_owner_url {
                Some(u) => url_of(ctx.node_urls@, target) == Some(u@),
                None => url_of(ctx.node_urls@, target) is None,
            })
            &&& p.current_epoch == ctx.current_epoch
            &&& p.next_epoch == ctx.current_epoch + 1
            &&& p.current_shard_lsn == ctx.current_shard_lsn
            &&& p.local_lsn == ctx.current_shard_lsn
            &&& p.owner_peer == owner_peer
            &&& p.owner_last_seen_ok_lsn == owner_lsn(owner_peer)
            &&& p.owner_healthy == (current == local || (owner_peer is Some && owner_peer->Some_0.ok))
            &&& p.target_is_local == (target == local)
            &&& p.target_is_replica == is_replica
            &&& p.target_caught_up == (owner_lsn(owner_peer) is Some && ctx.current_shard_lsn
                >= owner_lsn(owner_peer)->Some_0)
            &&& (match p.reason {
                Some(t) => reason == Some(t@),
                None => reason is None,
            })
            &&& p.ready == (reason is None)
            &&& p.required_override.shard == request.shard
            &&& p.required_override.owner matches Some(o) && o@ == target
            &&& p.required_override.epoch == Some((ctx.current_epoch + 1) as u64)
            &&& p.required_override.replicas matches Some(rs) && string_views(rs@) == replicas
            &&& p.required_acks == ctx.node_count / 2 + 1
            &&& string_views(p.steps@) == failover_steps(
                request.shard,
                current,
                target,
                ctx.current_shard_lsn,
                (ctx.current_epoch + 1) as u64,
                joined(replicas, "|"@),
                p.required_acks,
            )
        },
{
    if request.shard >= ctx.shard_count {
        return Err(ApiError::bad_request(owned("shard is out of range")));
    }
    let target_owner = match &request.target_owner {
        Some(t) => trim_string(t.as_str()),
        None => trim_string(ctx.local_node_id.as_str()),
    };
    if chars_of(target_owner.as_str()).len() == 0 {
        return Err(ApiError::bad_request(owned("targetOwner cannot be empty")));
    }
    let current_owner = ctx.current_owner.clone();
    let current_epoch = ctx.current_epoch;
    let next_epoch = current_epoch + 1;
    let local_lsn = ctx.current_shard_lsn;
    let target_owner_url = node_url_for(&ctx.node_urls, target_owner.as_str());
    let target_is_local = str_eq(target_owner.as_str(), ctx.local_node_id.as_str());
    let target_is_replica = list_contains(&ctx.replicas, target_owner.as_str());
    let owner_is_local = str_eq(current_owner.as_str(), ctx.local_node_id.as_str());
    let owner_peer = if owner_is_local {
        None
    } else {
        find_peer(&health.peers, current_owner.as_str())
    };
    let owner_healthy = match &owner_peer {
        Some(p) => owner_is_local || p.ok,
        None => owner_is_local,
    };
    let owner_last_seen_ok_lsn = match &owner_peer {
        Some(p) => match p.last_seen_ok_lsn {
            Some(l) => Some(l),
            None => p.current_lsn,
        },
        None => None,
    };
    let target_caught_up = match owner_last_seen_ok_lsn {
        Some(o) => local_lsn >= o,
        None => false,
    };
    let target_replicas = handoff_target_replicas(&ctx.replicas, current_owner.as_str(), target_owner.as_str());
    let joined_replicas = join_pipe(&target_replicas);
    let required_acks = required_topology_acks(ctx.node_count);
    let reason = failover_reason_text(
        request.shard,
        current_owner.as_str(),
        ctx.local_node_id.as_str(),
        target_owner.as_str(),
        health.enabled,
        &owner_peer,
        target_is_replica,
        local_lsn,
    );
    let ready = reason.is_none();
    let steps = failover_step_texts(
        request.shard,
        current_owner.as_str(),
        target_owner.as_str(),
        local_lsn,
        next_epoch,
        joined_replicas.as_str(),
        required_acks,
    );
    let required_override = ApplyTopologyOverrideRequest {
        shard: request.shard,
        owner: Some(target_owner.clone()),
        epoch: Some(next_epoch),
        replicas: Some(target_replicas),
    };
    Ok(FailoverPlanResponse {
        shard: request.shard,
        current_owner,
        target_owner,
        target_owner_url,
        current_epoch,
        next_epoch,
        current_shard_lsn: local_lsn,
        local_lsn,
        owner_last_seen_ok_lsn,
        owner_healthy,
        target_is_local,
        target_is_replica,
        target_caught_up,
        ready,
        reason,
        required_override,
        required_acks,
        owner_peer,
        steps,
    })
}

/// A request for a handoff plan that moves `shard` to `target_owner`.
pub struct HandoffPlanRequest {
    pub shard: usize,
    pub target_owner: String,
}

/// A handoff plan.
pub struct HandoffPlanResponse {
    pub shard: usize,
    pub current_owner: String,
    pub target_owner: String,
    pub target_owner_url: Option<String>,
    pub current_epoch: u64,
    pub next_epoch: u64,
    pub current_shard_lsn: u64,
    pub target_acked_lsn: u64,
    pub target_caught_up: bool,
    pub frozen: bool,
    pub ready: bool,
    /// The settings every node needs after the move, sorted by name.
    pub required_env: Vec<(String, String)>,
    pub steps: Vec<String>,
}

/// The highest LSN the target has acknowledged: through its URL, 0 where it
/// has none or acknowledged nothing.
pub open spec fn target_acked(nodes: Seq<(String, String)>, remotes: Seq<WalRemoteReplica>, target: Seq<char>) -> u64 {
    match url_of(nodes, target) {
        Some(u) => match acked_at(remotes, endpoint_url(u, wal_replicate_path())) {
            Some(l) => l,
            None => 0,
        },
        None => 0,
    }
}

/// The settings of a handoff, by name in sorted order.
pub open spec fn handoff_env(shard: usize, target: Seq<char>, next_epoch: u64, replicas: Seq<char>) -> Seq<(Seq<char>, Seq<char>)> {
    let s = decimal(shard as nat);
    seq![
        ("NEXTDB_SHARD_EPOCHS"@, s + "="@ + decimal(next_epoch as nat)),
        ("NEXTDB_SHARD_OWNERS"@, s + "="@ + target),
        ("NEXTDB_SHARD_REPLICAS"@, s + "="@ + replicas),
    ]
}

/// The views of a list of string pairs.
pub open spec fn pair_views(v: Seq<(String, String)>) -> Seq<(Seq<char>, Seq<char>)> {
    v.map_values(|p: (String, String)| (p.0@, p.1@))
}

/// The steps of a handoff.
pub open spec fn handoff_steps(
    shard: usize,
    current: Seq<char>,
    target: Seq<char>,
    lsn: u64,
    next_epoch: u64,
    replicas: Seq<char>,
) -> Seq<Seq<char>> {
    let s = decimal(shard as nat);
    seq![
        "Freeze shard "@ + s + " on current owner "@ + current + "."@,
        "Wait until target owner "@ + target + " has acknowledged LSN "@ + decimal(lsn as nat) + "."@,
        "Restart or reconfigure every node with shard "@ + s + " owner="@ + target + " epoch="@
            + decimal(next_epoch as nat) + " replicas="@ + replicas + "."@,
        "Unfreeze shard "@ + s + " on the new owner."@,
    ]
}

fn handoff_env_pairs(shard: usize, target: &str, next_epoch: u64, replicas: &str) -> (r: Vec<(String, String)>)
    ensures
        pair_views(r@) == handoff_env(shard, target@, next_epoch, replicas@),
{
    let s = decimal_string(shard as u64);
    let e = decimal_string(next_epoch);
    let mut env: Vec<(String, String)> = Vec::new();
    env.push((owned("NEXTDB_SHARD_EPOCHS"), cat3(s.as_str(), "=", e.as_str())));
    env.push((owned("NEXTDB_SHARD_OWNERS"), cat3(s.as_str(), "=", target)));
    env.push((owned("NEXTDB_SHARD_REPLICAS"), cat3(s.as_str(), "=", replicas)));
    assert(pair_views(env@) =~= handoff_env(shard, target@, next_epoch, replicas@));
    env
}

fn handoff_step_texts(
    shard: usize,
    current: &str,
    target: &str,
    lsn: u64,
    next_epoch: u64,
    replicas: &str,
) -> (r: Vec<String>)
    ensures
        string_views(r@) == handoff_steps(shard, current@, target@, lsn, next_epoch, replicas@),
{
    let s = decimal_string(shard as u64);
    let l = decimal_string(lsn);
    let e = decimal_string(next_epoch);
    let mut steps: Vec<String> = Vec::new();
    steps.push(cat5("Freeze shard ", s.as_str(), " on current owner ", current, "."));
    steps.push(cat5("Wait until target owner ", target, " has acknowledged LSN ", l.as_str(), "."));
    let head = cat5("Restart or reconfigure every node with shard ", s.as_str(), " owner=", target, " epoch=");
    steps.push(cat5(head.as_str(), e.as_str(), " replicas=", replicas, "."));
    steps.push(cat3("Unfreeze shard ", s.as_str(), " on the new owner."));
    assert(string_views(steps@) =~= handoff_steps(shard, current@, target@, lsn, next_epoch, replicas@));
    steps
}

/// Plans a handoff of `request.shard` from its current owner to
/// `request.target_owner`: ready once the shard is frozen and the target has
/// acknowledged the shard's latest LSN; the settings and steps that carry
/// the move out.
pub fn compute_handoff_plan(
    ctx: &ShardMoveContext,
    frozen: bool,
    remotes: &Vec<WalRemoteReplica>,
    request: HandoffPlanRequest,
) -> (r: Result<HandoffPlanResponse, ApiError>)
    requires
        ctx.current_epoch < u64::MAX,
    ensures
        r is Ok <==> request.shard < ctx.shard_count && trim(request.target_owner@).len() > 0
            && ctx.current_owner@ != request.target_owner@,
        r matches Err(e) ==> e.kind == ApiErrorKind::BadRequest && e.message@ == (if request.shard >= ctx.shard_count {
            "shard is out of range"@
        } else if trim(request.target_owner@).len() == 0 {
            "targetOwner is required"@
        } else {
            "targetOwner is already the owner"@
        }),
        r matches Ok(p) ==> {
            let target = request.target_owner@;
            let current = ctx.current_owner@;
            let replicas = joined(target_replicas(string_views(ctx.replicas@), current, target), "|"@);
            let acked = target_acked(ctx.node_urls@, remotes@, target);
            let next = (ctx.current_epoch + 1) as u64;
            &&& p.shard == request.shard
            &&& p.current_owner@ == current
            &&& p.target_owner@ == target
            &&& (match p.target_owner_url {
                Some(u) => url_of(ctx.node_urls@, target) == Some(u@),
                None => url_of(ctx.node_urls@, target) is None,
            })
            &&& p.current_epoch == ctx.current_epoch
            &&& p.next_epoch == next
            &&& p.current_shard_lsn == ctx.current_shard_lsn
            &&& p.target_acked_lsn == acked
            &&& p.target_caught_up == (acked >= ctx.current_shard_lsn)
            &&& p.frozen == frozen
            &&& p.ready == (frozen && acked >= ctx.current_shard_lsn)
            &&& pair_views(p.required_env@) == handoff_env(request.shard, target, next, replicas)
            &&& string_views(p.steps@) == handoff_steps(
                request.shard,
                current,
                target,
                ctx.current_shard_lsn,
                next,
                replicas,
            )
        },
{
    if request.shard >= ctx.shard_count {
        return Err(ApiError::bad_request(owned("shard is out of range")));
    }
    let trimmed = trim_string(request.target_owner.as_str());
    if chars_of(trimmed.as_str()).len() == 0 {
        return Err(ApiError::bad_request(owned("targetOwner is required")));
    }
    if str_eq(ctx.current_owner.as_str(), request.target_owner.as_str()) {
        return Err(ApiError::bad_request(owned("targetOwner is already the owner")));
    }
    let target_owner = request.target_owner;
    let current_epoch = ctx.current_epoch;
    let next_epoch = current_epoch + 1;
    let current_shard_lsn = ctx.current_shard_lsn;
    let target_owner_url = node_url_for(&ctx.node_urls, target_owner.as_str());
    let target_acked_lsn = match &target_owner_url {
        Some(u) => match remote_ack_lsn_for_url(remotes, u.as_str()) {
            Some(l) => l,
            None => 0,
        },
        None => 0,
    };
    let target_caught_up = target_acked_lsn >= current_shard_lsn;
    let ready = frozen && target_caught_up;
    let target_replicas = handoff_target_replicas(&ctx.replicas, ctx.current_owner.as_str(), target_owner.as_str());
    let joined_replicas = join_pipe(&target_replicas);
    let required_env = handoff_env_pairs(request.shard, target_owner.as_str(), next_epoch, joined_replicas.as_str());
    let steps = handoff_step_texts(
        request.shard,
        ctx.current_owner.as_str(),
        target_owner.as_str(),
        current_shard_lsn,
        next_epoch,
        joined_replicas.as_str(),
    );
    Ok(HandoffPlanResponse {
        shard: request.shard,
        current_owner: ctx.current_owner.clone(),
        target_owner,
        target_owner_url,
        current_epoch,
        next_epoch,
        current_shard_lsn,
        target_acked_lsn,
        target_caught_up,
        frozen,
        ready,
        required_env,
        steps,
    })
}

} // verus!

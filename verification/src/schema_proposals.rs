//! Schema proposals: a new schema prepared on the replicas of the first
//! shard, then committed. A proposal is prepared, then committed, failed or
//! aborted; these functions make each move and the checks before it. The
//! schema and the reports about it are kept as the documents they are.
use vstd::prelude::*;
use crate::api_error::{ApiError, ApiErrorKind};
use crate::continuation::{num, num_or_null, opt_number_json, opt_seq, opt_string_json, str_or_null};
use crate::json::{JsonNumber, JsonValue, JsonView, lemma_object_view, members_view, opt_json_view};
use crate::text::{chars_of, decimal, owned, str_eq, trim, trim_string};
use crate::topology::{PeerReply, TopologyPropagationResult, is_success};
use crate::topology_proposals::{acks_message, applied_count, count_applied};
use crate::failover::{decimal_string, node_url_for, url_of};
use crate::scopes::views;

verus! {

#[derive(PartialEq, Eq, Structural, Clone, Copy, Debug)]
pub enum SchemaProposalPhase {
    Prepared,
    Committed,
    Failed,
    Aborted,
}

/// A schema change on its way through the cluster.
pub struct SchemaProposal {
    pub id: String,
    pub created_at_ms: u64,
    pub updated_at_ms: u64,
    pub proposed_by: String,
    pub reason: String,
    pub phase: SchemaProposalPhase,
    pub expected_version: Option<u32>,
    pub allow_breaking_replay: bool,
    pub schema: JsonValue,
    pub report: JsonValue,
    pub migration: JsonValue,
    pub projection_rebuilt: bool,
    pub projection_status: JsonValue,
    pub prepare_acks: Vec<TopologyPropagationResult>,
    pub commit_acks: Vec<TopologyPropagationResult>,
    pub required_acks: usize,
    pub schema_audit_lsn: Option<u64>,
    pub peer_preflight: Option<JsonValue>,
    pub last_error: Option<String>,
}

/// The reason of a proposal: the one given unless blank, else `operator
/// schema proposal`.
pub fn schema_proposal_reason(reason: Option<String>) -> (r: String)
    ensures
        r@ == match reason {
            Some(m) => if trim(m@).len() > 0 {
                m@
            } else {
                "operator schema proposal"@
            },
            None => "operator schema proposal"@,
        },
{
    match reason {
        Some(m) => {
            let t = trim_string(m.as_str());
            if chars_of(t.as_str()).len() > 0 {
                m
            } else {
                owned("operator schema proposal")
            }
        },
        None => owned("operator schema proposal"),
    }
}

/// The acknowledgements a schema proposal needs: those the first shard's
/// write policy requires of its replicas, plus this node's; 1 where the
/// node has no shard.
pub fn required_schema_proposal_acks(has_shard: bool, remote_required: usize) -> (n: usize)
    requires
        remote_required < usize::MAX,
    ensures
        n == if has_shard {
            remote_required + 1
        } else {
            1
        },
{
    if !has_shard {
        return 1;
    }
    remote_required + 1
}

fn acks_text(what: &str, n: usize, m: usize) -> (s: String)
    ensures
        s@ == acks_message(what@, n as nat, m as nat),
{
    let a = decimal_string(n as u64);
    let b = decimal_string(m as u64);
    let head = crate::text::cat4(what, " requires ", a.as_str(), " acks, got ");
    crate::text::cat2(head.as_str(), b.as_str())
}

/// Adds the peers' prepare results at `now`; with fewer applied than
/// required the proposal fails. Says whether it failed.
pub fn finish_schema_prepare(proposal: &mut SchemaProposal, peer_results: Vec<TopologyPropagationResult>, now: u64) -> (failed:
    bool)
    requires
        old(proposal).prepare_acks@.len() + peer_results@.len() <= usize::MAX,
    ensures
        final(proposal).prepare_acks@ == old(proposal).prepare_acks@ + peer_results@,
        failed == (applied_count(final(proposal).prepare_acks@) < old(proposal).required_acks),
        final(proposal).phase == if failed {
            SchemaProposalPhase::Failed
        } else {
            old(proposal).phase
        },
        !failed ==> final(proposal).last_error == old(proposal).last_error,
        failed ==> (final(proposal).last_error matches Some(m) && m@ == acks_message(
            "schema proposal prepare"@,
            old(proposal).required_acks as nat,
            applied_count(final(proposal).prepare_acks@),
        )),
        final(proposal).updated_at_ms == now,
        final(proposal).id == old(proposal).id,
        final(proposal).required_acks == old(proposal).required_acks,
{
    let mut peers = peer_results;
    let ghost before = proposal.prepare_acks@;
    let ghost added = peers@;
    proposal.prepare_acks.append(&mut peers);
    assert(proposal.prepare_acks@ =~= before + added);
    let acked = count_applied(&proposal.prepare_acks);
    let failed = acked < proposal.required_acks;
    if failed {
        proposal.phase = SchemaProposalPhase::Failed;
        proposal.last_error = Some(acks_text("schema proposal prepare", proposal.required_acks, acked));
    }
    proposal.updated_at_ms = now;
    failed
}

/// Whether a commit of the proposal goes ahead: a committed one is answered
/// as it is (`Ok(false)`), an aborted or failed one is refused, a prepared
/// one goes ahead (`Ok(true)`).
pub fn check_schema_commit(proposal: &SchemaProposal) -> (r: Result<bool, ApiError>)
    ensures
        match proposal.phase {
            SchemaProposalPhase::Committed => r == Ok::<bool, ApiError>(false),
            SchemaProposalPhase::Prepared => r == Ok::<bool, ApiError>(true),
            SchemaProposalPhase::Aborted => r matches Err(e) && e.kind == ApiErrorKind::Conflict && e.message@
                == "aborted schema proposal cannot be committed"@,
            SchemaProposalPhase::Failed => r matches Err(e) && e.kind == ApiErrorKind::Conflict && e.message@
                == "failed schema proposal cannot be committed"@,
        },
{
    match proposal.phase {
        SchemaProposalPhase::Committed => Ok(false),
        SchemaProposalPhase::Aborted => Err(ApiError::conflict(owned("aborted schema proposal cannot be committed"))),
        SchemaProposalPhase::Failed => Err(ApiError::conflict(owned("failed schema proposal cannot be committed"))),
        SchemaProposalPhase::Prepared => Ok(true),
    }
}

/// What applying a proposal's schema reported.
pub struct SchemaApplyReport {
    pub report: JsonValue,
    pub migration: JsonValue,
    pub projection_rebuilt: bool,
    pub projection_status: JsonValue,
    pub schema_audit_lsn: Option<u64>,
    pub peer_preflight: Option<JsonValue>,
}

/// Records a commit whose schema was applied, at `now`: committed, with
/// what the apply reported, and with this node's commit result followed by
/// the peers'; short of acknowledgements, the error says so (the proposal
/// stays committed).
pub fn record_schema_commit(
    proposal: &mut SchemaProposal,
    applied: SchemaApplyReport,
    own_commit: TopologyPropagationResult,
    peer_results: Vec<TopologyPropagationResult>,
    now: u64,
)
    requires
        peer_results@.len() < usize::MAX,
    ensures
        final(proposal).phase == SchemaProposalPhase::Committed,
        final(proposal).updated_at_ms == now,
        final(proposal).report == applied.report && final(proposal).migration == applied.migration,
        final(proposal).projection_rebuilt == applied.projection_rebuilt,
        final(proposal).projection_status == applied.projection_status,
        final(proposal).schema_audit_lsn == applied.schema_audit_lsn,
        final(proposal).peer_preflight == applied.peer_preflight,
        final(proposal).commit_acks@ == seq![own_commit] + peer_results@,
        applied_count(final(proposal).commit_acks@) >= old(proposal).required_acks ==> final(proposal).last_error is None,
        applied_count(final(proposal).commit_acks@) < old(proposal).required_acks ==> (final(proposal).last_error matches Some(
            m,
        ) && m@ == acks_message(
            "schema proposal commit"@,
            old(proposal).required_acks as nat,
            applied_count(final(proposal).commit_acks@),
        )),
        final(proposal).id == old(proposal).id,
        final(proposal).required_acks == old(proposal).required_acks,
{
    proposal.phase = SchemaProposalPhase::Committed;
    proposal.updated_at_ms = now;
    proposal.report = applied.report;
    proposal.migration = applied.migration;
    proposal.projection_rebuilt = applied.projection_rebuilt;
    proposal.projection_status = applied.projection_status;
    proposal.schema_audit_lsn = applied.schema_audit_lsn;
    proposal.peer_preflight = applied.peer_preflight;
    let mut acks: Vec<TopologyPropagationResult> = Vec::new();
    acks.push(own_commit);
    let mut peers = peer_results;
    let ghost added = peers@;
    acks.append(&mut peers);
    assert(acks@ =~= seq![own_commit] + added);
    let acked = count_applied(&acks);
    proposal.commit_acks = acks;
    proposal.last_error = if acked < proposal.required_acks {
        Some(acks_text("schema proposal commit", proposal.required_acks, acked))
    } else {
        None
    };
}

/// Records a commit whose schema could not be applied, at `now`: failed,
/// with the apply's error.
pub fn record_schema_commit_failure(proposal: &mut SchemaProposal, message: String, now: u64)
    ensures
        final(proposal).phase == SchemaProposalPhase::Failed,
        final(proposal).updated_at_ms == now,
        final(proposal).last_error == Some(message),
        final(proposal).id == old(proposal).id,
{
    proposal.phase = SchemaProposalPhase::Failed;
    proposal.updated_at_ms = now;
    proposal.last_error = Some(message);
}

/// Aborts a proposal at the operator's request at `now`; a committed one
/// cannot be aborted.
pub fn abort_schema_proposal(proposal: &mut SchemaProposal, now: u64) -> (r: Result<(), ApiError>)
    ensures
        r is Ok <==> old(proposal).phase != SchemaProposalPhase::Committed,
        r matches Err(e) ==> e.kind == ApiErrorKind::Conflict && e.message@
            == "committed schema proposal cannot be aborted"@ && *final(proposal) == *old(proposal),
        r is Ok ==> final(proposal).phase == SchemaProposalPhase::Aborted && final(proposal).updated_at_ms == now
            && (final(proposal).last_error matches Some(m) && m@ == "aborted by operator"@),
        final(proposal).id == old(proposal).id,
{
    if proposal.phase == SchemaProposalPhase::Committed {
        return Err(ApiError::conflict(owned("committed schema proposal cannot be aborted")));
    }
    proposal.phase = SchemaProposalPhase::Aborted;
    proposal.updated_at_ms = now;
    proposal.last_error = Some(owned("aborted by operator"));
    Ok(())
}

/// A peer takes the coordinator's commit at `now`, unless it aborted the
/// proposal (`existing` is its own copy, where it has one).
pub fn commit_schema_proposal_peer(existing: Option<SchemaProposalPhase>, proposal: &mut SchemaProposal, now: u64) -> (r:
    Result<(), ApiError>)
    ensures
        r is Ok <==> existing != Some(SchemaProposalPhase::Aborted),
        r matches Err(e) ==> e.kind == ApiErrorKind::Conflict && e.message@
            == "aborted schema proposal cannot be committed"@ && *final(proposal) == *old(proposal),
        r is Ok ==> final(proposal).phase == SchemaProposalPhase::Committed && final(proposal).updated_at_ms == now
            && final(proposal).last_error is None,
{
    if existing == Some(SchemaProposalPhase::Aborted) {
        return Err(ApiError::conflict(owned("aborted schema proposal cannot be committed")));
    }
    proposal.phase = SchemaProposalPhase::Committed;
    proposal.updated_at_ms = now;
    proposal.last_error = None;
    Ok(())
}

/// A peer takes the coordinator's abort at `now`: a committed proposal
/// stays committed. Says whether it changed.
pub fn abort_schema_proposal_peer(proposal: &mut SchemaProposal, now: u64) -> (changed: bool)
    ensures
        changed == (old(proposal).phase != SchemaProposalPhase::Committed),
        !changed ==> *final(proposal) == *old(proposal),
        changed ==> final(proposal).phase == SchemaProposalPhase::Aborted && final(proposal).updated_at_ms == now
            && (final(proposal).last_error matches Some(m) && m@ == "aborted by coordinator"@),
{
    if proposal.phase == SchemaProposalPhase::Committed {
        return false;
    }
    proposal.phase = SchemaProposalPhase::Aborted;
    proposal.updated_at_ms = now;
    proposal.last_error = Some(owned("aborted by coordinator"));
    true
}


/// What preflighting a schema on one peer gave.
pub struct SchemaPeerPreflightResult {
    pub node_id: Option<String>,
    pub url: String,
    pub ok: bool,
    pub status: Option<u16>,
    pub error: Option<String>,
}

/// What preflighting a schema on a peer at `endpoint` gave: ok where the
/// peer answered with a success; else the status and the body it sent as
/// the error; or, where the request failed, the note
/// `preflight failed: {error}`.
pub fn schema_preflight_http_result(node_id: Option<String>, endpoint: String, reply: PeerReply) -> (r:
    SchemaPeerPreflightResult)
    ensures
        r.node_id == node_id,
        r.url == endpoint,
        match reply {
            PeerReply::Answered { status, body } => {
                &&& r.ok == is_success(status)
                &&& r.status == Some(status)
                &&& r.error == if is_success(status) {
                    None
                } else {
                    Some(body)
                }
            },
            PeerReply::Failed { error } => {
                &&& !r.ok
                &&& r.status is None
                &&& r.error is Some && r.error->Some_0@ == "preflight failed: "@ + error@
            },
        },
{
    match reply {
        PeerReply::Answered { status, body } => {
            if 200 <= status && status <= 299 {
                SchemaPeerPreflightResult { node_id, url: endpoint, ok: true, status: Some(status), error: None }
            } else {
                SchemaPeerPreflightResult { node_id, url: endpoint, ok: false, status: Some(status), error: Some(body) }
            }
        },
        PeerReply::Failed { error } => SchemaPeerPreflightResult {
            node_id,
            url: endpoint,
            ok: false,
            status: None,
            error: Some(crate::text::cat2("preflight failed: ", error.as_str())),
        },
    }
}


/// The peers a schema is preflighted on: the replica URLs configured by
/// hand (`explicit`, with no node ids) where there are; else the shard's
/// replicas other than this node, with the URLs the cluster's node list
/// gives them (a replica with none is left out).
pub open spec fn preflight_targets(
    replicas: Seq<Seq<char>>,
    self_id: Seq<char>,
    nodes: Seq<(String, String)>,
) -> Seq<(Option<Seq<char>>, Seq<char>)>
    decreases replicas.len(),
{
    if replicas.len() == 0 {
        Seq::empty()
    } else {
        let prev = preflight_targets(replicas.drop_last(), self_id, nodes);
        let r = replicas.last();
        if r == self_id {
            prev
        } else {
            match url_of(nodes, r) {
                Some(u) => prev.push((Some(r), u)),
                None => prev,
            }
        }
    }
}

pub open spec fn target_views(ts: Seq<(Option<String>, String)>) -> Seq<(Option<Seq<char>>, Seq<char>)> {
    ts.map_values(
        |t: (Option<String>, String)|
            (
                match t.0 {
                    Some(n) => Some(n@),
                    None => None,
                },
                t.1@,
            ),
    )
}

/// The peers a schema is preflighted on, as `preflight_targets` says.
pub fn schema_preflight_targets_for_shard(
    explicit: Option<Vec<String>>,
    replicas: &Vec<String>,
    self_id: &str,
    nodes: &Vec<(String, String)>,
) -> (r: Vec<(Option<String>, String)>)
    ensures
        match explicit {
            Some(urls) => r@.len() == urls@.len() && forall|k: int|
                0 <= k < r@.len() ==> (#[trigger] r@[k]).0 is None && r@[k].1 == urls@[k],
            None => target_views(r@) == preflight_targets(views(replicas@), self_id@, nodes@),
        },
{
    let mut out: Vec<(Option<String>, String)> = Vec::new();
    if let Some(urls) = explicit {
        let mut i: usize = 0;
        while i < urls.len()
            invariant
                i <= urls@.len(),
                out@.len() == i,
                forall|k: int| 0 <= k < i ==> (#[trigger] out@[k]).0 is None && out@[k].1 == urls@[k],
            decreases urls@.len() - i,
        {
            out.push((None, urls[i].clone()));
            i = i + 1;
        }
        return out;
    }
    let ghost rv = views(replicas@);
    let mut i: usize = 0;
    while i < replicas.len()
        invariant
            i <= replicas@.len(),
            rv == views(replicas@),
            target_views(out@) == preflight_targets(rv.take(i as int), self_id@, nodes@),
        decreases replicas@.len() - i,
    {
        proof {
            assert(rv.take(i as int + 1).drop_last() =~= rv.take(i as int));
            assert(rv.take(i as int + 1).last() == replicas@[i as int]@);
        }
        let node = &replicas[i];
        if !str_eq(node.as_str(), self_id) {
            if let Some(u) = node_url_for(nodes, node.as_str()) {
                let ghost before = out@;
                out.push((Some(node.clone()), u));
                assert(target_views(out@) =~= target_views(before).push((Some(node@), u@)));
            }
        }
        i = i + 1;
    }
    assert(rv.take(replicas@.len() as int) =~= rv);
    out
}

/// The peers that accepted a preflight.
pub open spec fn preflight_acks(rs: Seq<SchemaPeerPreflightResult>) -> nat
    decreases rs.len(),
{
    if rs.len() == 0 {
        0
    } else {
        preflight_acks(rs.drop_last()) + if rs.last().ok {
            1nat
        } else {
            0nat
        }
    }
}

/// What preflighting a schema on the peers gave.
pub struct SchemaPeerPreflightReport {
    pub required_acks: usize,
    pub acked: usize,
    pub replicas: Vec<SchemaPeerPreflightResult>,
}

/// One peer's preflight result as the details of a refused apply give it.
pub open spec fn preflight_result_json(r: SchemaPeerPreflightResult) -> JsonView {
    JsonView::Object(
        seq![
            ("error"@, str_or_null(opt_seq(r.error))),
            ("nodeId"@, str_or_null(opt_seq(r.node_id))),
            ("ok"@, JsonView::Bool(r.ok)),
            ("status"@, num_or_null(
                match r.status {
                    Some(s) => Some(s as u64),
                    None => None,
                },
            )),
            ("url"@, JsonView::String(r.url@)),
        ],
    )
}

/// The details of a preflight that too few peers accepted: the report, with
/// the acks needed and had, and each peer's result.
pub open spec fn preflight_report_details(required_acks: usize, acked: nat, results: Seq<SchemaPeerPreflightResult>) -> JsonView {
    JsonView::Object(
        seq![
            ("peerPreflight"@, JsonView::Object(
                seq![
                    ("acked"@, num(acked as u64)),
                    ("replicas"@, JsonView::Array(results.map_values(|r: SchemaPeerPreflightResult| preflight_result_json(r)))),
                    ("requiredAcks"@, num(required_acks as u64)),
                ],
            )),
        ],
    )
}

fn preflight_result_value(r: &SchemaPeerPreflightResult) -> (j: JsonValue)
    ensures
        j@ == preflight_result_json(*r),
{
    let status = match r.status {
        Some(s) => Some(s as u64),
        None => None,
    };
    let error = match &r.error {
        Some(t) => Some(t.clone()),
        None => None,
    };
    let node_id = match &r.node_id {
        Some(t) => Some(t.clone()),
        None => None,
    };
    let mut members: Vec<(String, JsonValue)> = Vec::new();
    members.push((owned("error"), opt_string_json(error)));
    members.push((owned("nodeId"), opt_string_json(node_id)));
    members.push((owned("ok"), JsonValue::Bool(r.ok)));
    members.push((owned("status"), opt_number_json(status)));
    members.push((owned("url"), JsonValue::String(r.url.clone())));
    proof {
        lemma_object_view(members);
        assert(members_view(members@) =~= preflight_result_json(*r)->Object_0);
    }
    JsonValue::Object(members)
}

fn preflight_report_value(required_acks: usize, acked: usize, results: &Vec<SchemaPeerPreflightResult>) -> (j: JsonValue)
    ensures
        j@ == preflight_report_details(required_acks, acked as nat, results@),
{
    let mut replicas: Vec<JsonValue> = Vec::new();
    let mut i: usize = 0;
    while i < results.len()
        invariant
            i <= results@.len(),
            replicas@.len() == i,
            forall|k: int| 0 <= k < i ==> (#[trigger] replicas@[k])@ == preflight_result_json(results@[k]),
        decreases results@.len() - i,
    {
        replicas.push(preflight_result_value(&results[i]));
        i = i + 1;
    }
    let replicas_json = JsonValue::Array(replicas);
    assert(replicas_json@->Array_0 =~= results@.map_values(|r: SchemaPeerPreflightResult| preflight_result_json(r)));
    let mut report: Vec<(String, JsonValue)> = Vec::new();
    report.push((owned("acked"), JsonValue::Number(JsonNumber::PosInt(acked as u64))));
    report.push((owned("replicas"), replicas_json));
    report.push((owned("requiredAcks"), JsonValue::Number(JsonNumber::PosInt(required_acks as u64))));
    let ghost inner = preflight_report_details(required_acks, acked as nat, results@)->Object_0[0].1;
    proof {
        lemma_object_view(report);
        assert(members_view(report@) =~= inner->Object_0);
    }
    let mut outer: Vec<(String, JsonValue)> = Vec::new();
    outer.push((owned("peerPreflight"), JsonValue::Object(report)));
    proof {
        lemma_object_view(outer);
        assert(members_view(outer@) =~= preflight_report_details(required_acks, acked as nat, results@)->Object_0);
    }
    JsonValue::Object(outer)
}

/// The report of a preflight on the peers (`results`), which needs
/// `required_acks` of them to accept: fewer is a conflict.
pub fn schema_peer_preflight_report(required_acks: usize, results: Vec<SchemaPeerPreflightResult>) -> (r: Result<
    SchemaPeerPreflightReport,
    ApiError,
>)
    ensures
        preflight_acks(results@) >= required_acks ==> (r matches Ok(rep) && rep.required_acks == required_acks
            && rep.acked == preflight_acks(results@) && rep.replicas@ == results@),
        preflight_acks(results@) < required_acks ==> (r matches Err(e) && e.kind == ApiErrorKind::Conflict && e.message@
            == "schema peer preflight requires "@ + decimal(required_acks as nat) + " acks, got "@ + decimal(
            preflight_acks(results@),
        ) && opt_json_view(e.details) == Some(preflight_report_details(required_acks, preflight_acks(results@), results@))),
{
    let mut acked: usize = 0;
    let mut i: usize = 0;
    while i < results.len()
        invariant
            i <= results@.len(),
            acked == preflight_acks(results@.take(i as int)),
            acked <= i,
        decreases results@.len() - i,
    {
        proof {
            assert(results@.take(i as int + 1).drop_last() =~= results@.take(i as int));
        }
        if results[i].ok {
            acked = acked + 1;
        }
        i = i + 1;
    }
    assert(results@.take(results@.len() as int) =~= results@);
    if acked < required_acks {
        let a = decimal_string(required_acks as u64);
        let b = decimal_string(acked as u64);
        let details = preflight_report_value(required_acks, acked, &results);
        return Err(ApiError::conflict_with_details(
            crate::text::cat4("schema peer preflight requires ", a.as_str(), " acks, got ", b.as_str()),
            details,
        ));
    }
    Ok(SchemaPeerPreflightReport { required_acks, acked, replicas: results })
}

} // verus!

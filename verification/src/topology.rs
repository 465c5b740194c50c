//! Cluster topology helpers: the key a route request names, the health record
//! of a peer that failed a check, and the result a node reports for itself.
use vstd::prelude::*;
use crate::api_error::{ApiError, ApiErrorKind, api_err};
use crate::records::colon;
use crate::text::{cat2, cat3, chars_eq, chars_of, owned, trim, trim_string};

verus! {

/// A request for the route of a key, named directly or by what it belongs to.
pub struct ClusterRouteQuery {
    pub key: Option<String>,
    pub room_id: Option<String>,
    pub table: Option<String>,
    pub record_key: Option<String>,
    pub object_id: Option<String>,
}

pub open spec fn given(o: Option<String>) -> bool {
    o is Some && trim(o->Some_0@).len() > 0
}

/// The key of a route request: `key`, else `roomId`, else `objectId`, else
/// `table:recordKey`; a name that is blank counts as absent.
pub open spec fn route_key(q: ClusterRouteQuery) -> Result<Seq<char>, (ApiErrorKind, Seq<char>)> {
    if given(q.key) {
        Ok(q.key->Some_0@)
    } else if given(q.room_id) {
        Ok(q.room_id->Some_0@)
    } else if given(q.object_id) {
        Ok(q.object_id->Some_0@)
    } else if given(q.table) && given(q.record_key) {
        Ok(colon(q.table->Some_0@, q.record_key->Some_0@))
    } else {
        Err((ApiErrorKind::BadRequest, "provide key, roomId, objectId, or table plus recordKey"@))
    }
}

fn given_exec(o: &Option<String>) -> (b: bool)
    ensures
        b == given(*o),
{
    match o {
        Some(s) => !trim_string(s.as_str()).as_str().is_empty(),
        None => false,
    }
}

pub fn cluster_route_key(query: ClusterRouteQuery) -> (r: Result<String, ApiError>)
    ensures
        match r {
            Ok(k) => route_key(query) == Ok::<Seq<char>, (ApiErrorKind, Seq<char>)>(k@),
            Err(e) => route_key(query) == Err::<Seq<char>, (ApiErrorKind, Seq<char>)>(api_err(e)),
        },
{
    let ghost q = query;
    if given_exec(&query.key) {
        return Ok(query.key.unwrap());
    }
    if given_exec(&query.room_id) {
        return Ok(query.room_id.unwrap());
    }
    if given_exec(&query.object_id) {
        return Ok(query.object_id.unwrap());
    }
    if given_exec(&query.table) && given_exec(&query.record_key) {
        let table = query.table.unwrap();
        let key = query.record_key.unwrap();
        let r = cat3(table.as_str(), ":", key.as_str());
        proof {
            reveal_strlit(":");
            assert(r@ =~= colon(table@, key@));
        }
        return Ok(r);
    }
    Err(ApiError::bad_request(owned("provide key, roomId, objectId, or table plus recordKey")))
}

/// The health of a peer as the monitor last saw it.
pub struct PeerHealthStatus {
    pub node_id: String,
    pub url: String,
    pub ok: bool,
    pub status: Option<u16>,
    pub accepting_writes: Option<bool>,
    pub current_lsn: Option<u64>,
    pub last_seen_ok_lsn: Option<u64>,
    pub latency_ms: Option<u64>,
    pub last_checked_at_ms: u64,
    pub last_seen_ok_at_ms: Option<u64>,
    pub error: Option<String>,
}

/// The first earlier status of `node_id`.
pub open spec fn previous_of(previous: Seq<PeerHealthStatus>, node_id: Seq<char>) -> Option<PeerHealthStatus>
    decreases previous.len(),
{
    if previous.len() == 0 {
        None
    } else if previous[0].node_id@ == node_id {
        Some(previous[0])
    } else {
        previous_of(previous.drop_first(), node_id)
    }
}

fn find_previous(previous: &Vec<PeerHealthStatus>, node_id: &str) -> (r: Option<usize>)
    ensures
        match r {
            Some(i) => i < previous@.len() && previous_of(previous@, node_id@) == Some(previous@[i as int]),
            None => previous_of(previous@, node_id@) is None,
        },
{
    let n = chars_of(node_id);
    let mut i: usize = 0;
    assert(previous@.skip(0) =~= previous@);
    while i < previous.len()
        invariant
            i <= previous@.len(),
            n@ == node_id@,
            previous_of(previous@, node_id@) == previous_of(previous@.skip(i as int), node_id@),
        decreases previous@.len() - i,
    {
        assert(previous@.skip(i as int).drop_first() =~= previous@.skip(i + 1));
        assert(previous@.skip(i as int)[0] == previous@[i as int]);
        let id = chars_of(previous[i].node_id.as_str());
        if chars_eq(id.as_slice(), n.as_slice()) {
            return Some(i);
        }
        i = i + 1;
    }
    assert(previous@.skip(i as int).len() == 0);
    None
}

/// The status of a peer whose check failed: not ok, with the error, and
/// keeping when it was last seen ok from its earlier status.
pub fn peer_health_error(
    node_id: &str,
    url: &str,
    status: Option<u16>,
    checked_at: u64,
    previous: &Vec<PeerHealthStatus>,
    error: String,
) -> (p: PeerHealthStatus)
    ensures
        p.node_id@ == node_id@,
        p.url@ == url@,
        !p.ok,
        p.status == status,
        p.accepting_writes is None,
        p.current_lsn is None,
        p.latency_ms is None,
        p.last_checked_at_ms == checked_at,
        p.error == Some(error),
        p.last_seen_ok_lsn == match previous_of(previous@, node_id@) {
            Some(prev) => prev.last_seen_ok_lsn,
            None => None,
        },
        p.last_seen_ok_at_ms == match previous_of(previous@, node_id@) {
            Some(prev) => prev.last_seen_ok_at_ms,
            None => None,
        },
{
    let (last_seen_ok_lsn, last_seen_ok_at_ms) = match find_previous(previous, node_id) {
        Some(i) => (previous[i].last_seen_ok_lsn, previous[i].last_seen_ok_at_ms),
        None => (None, None),
    };
    PeerHealthStatus {
        node_id: owned(node_id),
        url: owned(url),
        ok: false,
        status,
        accepting_writes: None,
        current_lsn: None,
        last_seen_ok_lsn,
        latency_ms: None,
        last_checked_at_ms: checked_at,
        last_seen_ok_at_ms,
        error: Some(error),
    }
}

/// What applying a topology change on one node gave.
pub struct TopologyPropagationResult {
    pub node_id: String,
    pub url: String,
    pub applied: bool,
    pub status: Option<u16>,
    pub error: Option<String>,
}

/// The result this node reports for itself: applied, status 200, its URL
/// (`local` where it has none), and the note `local {operation}`.
pub fn self_topology_result(node_id: &str, node_url: Option<String>, operation: &str) -> (r: TopologyPropagationResult)
    ensures
        r.node_id@ == node_id@,
        r.url@ == match node_url {
            Some(u) => u@,
            None => "local"@,
        },
        r.applied,
        r.status == Some(200u16),
        r.error is Some && r.error->Some_0@ == "local "@ + operation@,
{
    let url = match node_url {
        Some(u) => u,
        None => owned("local"),
    };
    TopologyPropagationResult {
        node_id: owned(node_id),
        url,
        applied: true,
        status: Some(200),
        error: Some(cat2("local ", operation)),
    }
}

/// The health endpoint of a peer: `/v1/health` after its URL without
/// trailing slashes.
pub fn peer_health_endpoint(url: &str) -> (r: String)
    ensures
        r@ == crate::text::trim_end_char(url@, '/') + "/v1/health"@,
{
    let u = chars_of(url);
    let mut t = crate::text::trim_end_char_chars(u.as_slice(), '/');
    crate::text::push_str_chars(&mut t, "/v1/health");
    crate::text::string_from_chars(t.as_slice())
}

/// The boolean a member of a health body holds, if it holds one.
pub open spec fn bool_member(body: crate::json::JsonView, name: Seq<char>) -> Option<bool> {
    match crate::record_checks::top_member(body, name) {
        Some(crate::json::JsonView::Bool(b)) => Some(b),
        _ => None,
    }
}

/// The unsigned integer a member of a health body holds, if it holds one.
pub open spec fn u64_member(body: crate::json::JsonView, name: Seq<char>) -> Option<u64> {
    match crate::record_checks::top_member(body, name) {
        Some(crate::json::JsonView::Number(crate::json::JsonNumberView::PosInt(n))) => Some(n),
        _ => None,
    }
}

fn bool_member_of(body: &crate::json::JsonValue, name: &str) -> (r: Option<bool>)
    ensures
        r == bool_member(body@, name@),
{
    match crate::predicate_fields::value_at_field_path(body, name) {
        Some(crate::json::JsonValue::Bool(b)) => Some(*b),
        _ => None,
    }
}

fn u64_member_of(body: &crate::json::JsonValue, name: &str) -> (r: Option<u64>)
    ensures
        r == u64_member(body@, name@),
{
    match crate::predicate_fields::value_at_field_path(body, name) {
        Some(crate::json::JsonValue::Number(crate::json::JsonNumber::PosInt(n))) => Some(*n),
        _ => None,
    }
}

/// The status of a peer that answered its health check with `body`, with
/// HTTP status `status`, `latency_ms` after the check began at `checked_at`.
/// It is ok where the body says `ok: true`; an ok peer was last seen ok now
/// at its current LSN, any other keeps when it was last seen ok from its
/// earlier status.
pub fn peer_health_from_body(
    node_id: &str,
    url: &str,
    status: u16,
    body: &crate::json::JsonValue,
    latency_ms: u64,
    checked_at: u64,
    previous: &Vec<PeerHealthStatus>,
) -> (p: PeerHealthStatus)
    ensures
        p.node_id@ == node_id@,
        p.url@ == url@,
        p.ok == (bool_member(body@, "ok"@) == Some(true)),
        p.status == Some(status),
        p.accepting_writes == bool_member(body@, "acceptingWrites"@),
        p.current_lsn == u64_member(body@, "currentLsn"@),
        p.latency_ms == Some(latency_ms),
        p.last_checked_at_ms == checked_at,
        p.ok ==> p.last_seen_ok_lsn == u64_member(body@, "currentLsn"@) && p.last_seen_ok_at_ms == Some(checked_at)
            && p.error is None,
        !p.ok ==> p.last_seen_ok_lsn == match previous_of(previous@, node_id@) {
            Some(prev) => prev.last_seen_ok_lsn,
            None => None,
        } && p.last_seen_ok_at_ms == match previous_of(previous@, node_id@) {
            Some(prev) => prev.last_seen_ok_at_ms,
            None => None,
        } && (p.error matches Some(e) && e@ == "peer health returned ok=false"@),
{
    let ok = match bool_member_of(body, "ok") {
        Some(b) => b,
        None => false,
    };
    let current_lsn = u64_member_of(body, "currentLsn");
    let (last_seen_ok_lsn, last_seen_ok_at_ms) = if ok {
        (current_lsn, Some(checked_at))
    } else {
        match find_previous(previous, node_id) {
            Some(i) => (previous[i].last_seen_ok_lsn, previous[i].last_seen_ok_at_ms),
            None => (None, None),
        }
    };
    PeerHealthStatus {
        node_id: owned(node_id),
        url: owned(url),
        ok,
        status: Some(status),
        accepting_writes: bool_member_of(body, "acceptingWrites"),
        current_lsn,
        last_seen_ok_lsn,
        latency_ms: Some(latency_ms),
        last_checked_at_ms: checked_at,
        last_seen_ok_at_ms,
        error: if ok {
            None
        } else {
            Some(owned("peer health returned ok=false"))
        },
    }
}


/// What a peer made of an HTTP request: its status and the body it sent, or
/// the error that kept the request from being answered.
pub enum PeerReply {
    Answered { status: u16, body: String },
    Failed { error: String },
}

/// Whether an HTTP status is a success (200 to 299).
pub open spec fn is_success(status: u16) -> bool {
    200 <= status <= 299
}

/// What a topology change sent to node `node_id` at `endpoint` gave: applied
/// where the peer answered with a success; else the status and the body it
/// sent as the error; or, where the request failed, the note
/// `{operation} failed: {error}`.
pub fn topology_http_result(node_id: String, endpoint: String, reply: PeerReply, operation: &str) -> (r:
    TopologyPropagationResult)
    ensures
        r.node_id == node_id,
        r.url == endpoint,
        match reply {
            PeerReply::Answered { status, body } => {
                &&& r.applied == is_success(status)
                &&& r.status == Some(status)
                &&& r.error == if is_success(status) {
                    None
                } else {
                    Some(body)
                }
            },
            PeerReply::Failed { error } => {
                &&& !r.applied
                &&& r.status is None
                &&& r.error is Some && r.error->Some_0@ == operation@ + " failed: "@ + error@
            },
        },
{
    match reply {
        PeerReply::Answered { status, body } => {
            if 200 <= status && status <= 299 {
                TopologyPropagationResult { node_id, url: endpoint, applied: true, status: Some(status), error: None }
            } else {
                TopologyPropagationResult {
                    node_id,
                    url: endpoint,
                    applied: false,
                    status: Some(status),
                    error: Some(body),
                }
            }
        },
        PeerReply::Failed { error } => TopologyPropagationResult {
            node_id,
            url: endpoint,
            applied: false,
            status: None,
            error: Some(cat3(operation, " failed: ", error.as_str())),
        },
    }
}

} // verus!

//! The URLs of the peer endpoints that schema and topology proposals are sent
//! to: a node's base URL with the endpoint's path appended once.
use vstd::prelude::*;
use crate::text::{chars_ends_with, chars_of, ends_with, push_str_chars, string_from_chars, trim_end_char, trim_end_char_chars};

verus! {

/// The endpoint `path` under `url`: trailing slashes of the URL dropped, and
/// the path appended unless the URL already ends with it.
pub open spec fn endpoint_url(url: Seq<char>, path: Seq<char>) -> Seq<char> {
    let trimmed = trim_end_char(url, '/');
    if ends_with(trimmed, path) {
        trimmed
    } else {
        trimmed + path
    }
}

/// A path that endpoints can end with: it starts with a slash and does not end
/// with one.
pub open spec fn endpoint_path(path: Seq<char>) -> bool {
    path.len() > 0 && path[0] == '/' && path.last() != '/'
}

fn endpoint(url: &str, path: &str) -> (r: String)
    ensures
        r@ == endpoint_url(url@, path@),
{
    let u = chars_of(url);
    let p = chars_of(path);
    let mut trimmed = trim_end_char_chars(u.as_slice(), '/');
    if chars_ends_with(trimmed.as_slice(), p.as_slice()) {
        string_from_chars(trimmed.as_slice())
    } else {
        push_str_chars(&mut trimmed, path);
        string_from_chars(trimmed.as_slice())
    }
}

proof fn lemma_trim_end_keeps(s: Seq<char>, c: char)
    requires
        s.len() > 0,
        s.last() != c,
    ensures
        trim_end_char(s, c) == s,
{
}

/// Naming an endpoint twice gives the endpoint: the URL that `endpoint_url`
/// returns is returned unchanged when it is given again.
pub proof fn endpoint_url_is_idempotent(url: Seq<char>, path: Seq<char>)
    requires
        endpoint_path(path),
    ensures
        endpoint_url(endpoint_url(url, path), path) == endpoint_url(url, path),
{
    let trimmed = trim_end_char(url, '/');
    let e = endpoint_url(url, path);
    if ends_with(trimmed, path) {
        assert(e.last() == path.last()) by {
            assert(e[e.len() - 1] == path[path.len() - 1]);
        }
    } else {
        assert(e.last() == path.last());
        assert(ends_with(e, path)) by {
            assert(e.subrange(e.len() - path.len(), e.len() as int) =~= path);
        }
    }
    lemma_trim_end_keeps(e, '/');
}

pub open spec fn topology_prepare_path() -> Seq<char> {
    "/v1/admin/cluster/topology/proposals/prepare"@
}

pub open spec fn topology_commit_path() -> Seq<char> {
    "/v1/admin/cluster/topology/proposals/commit"@
}

pub open spec fn topology_abort_path() -> Seq<char> {
    "/v1/admin/cluster/topology/proposals/abort"@
}

pub open spec fn schema_prepare_path() -> Seq<char> {
    "/v1/admin/schema/proposals/prepare"@
}

pub open spec fn schema_commit_path() -> Seq<char> {
    "/v1/admin/schema/proposals/commit"@
}

pub open spec fn schema_abort_path() -> Seq<char> {
    "/v1/admin/schema/proposals/abort"@
}

pub open spec fn schema_preflight_path() -> Seq<char> {
    "/v1/admin/schema/preflight"@
}

pub fn topology_proposal_prepare_endpoint(url: &str) -> (r: String)
    ensures
        r@ == endpoint_url(url@, topology_prepare_path()),
{
    endpoint(url, "/v1/admin/cluster/topology/proposals/prepare")
}

pub fn topology_proposal_commit_endpoint(url: &str) -> (r: String)
    ensures
        r@ == endpoint_url(url@, topology_commit_path()),
{
    endpoint(url, "/v1/admin/cluster/topology/proposals/commit")
}

pub fn topology_proposal_abort_endpoint(url: &str) -> (r: String)
    ensures
        r@ == endpoint_url(url@, topology_abort_path()),
{
    endpoint(url, "/v1/admin/cluster/topology/proposals/abort")
}

pub fn schema_proposal_prepare_endpoint(url: &str) -> (r: String)
    ensures
        r@ == endpoint_url(url@, schema_prepare_path()),
{
    endpoint(url, "/v1/admin/schema/proposals/prepare")
}

pub fn schema_proposal_commit_endpoint(url: &str) -> (r: String)
    ensures
        r@ == endpoint_url(url@, schema_commit_path()),
{
    endpoint(url, "/v1/admin/schema/proposals/commit")
}

pub fn schema_proposal_abort_endpoint(url: &str) -> (r: String)
    ensures
        r@ == endpoint_url(url@, schema_abort_path()),
{
    endpoint(url, "/v1/admin/schema/proposals/abort")
}

pub fn schema_preflight_endpoint(url: &str) -> (r: String)
    ensures
        r@ == endpoint_url(url@, schema_preflight_path()),
{
    endpoint(url, "/v1/admin/schema/preflight")
}

pub open spec fn wal_replicate_path() -> Seq<char> {
    "/v1/admin/wal/replicate"@
}

/// The replication endpoint of a replica's URL.
pub fn normalize_replication_url(url: &str) -> (r: String)
    ensures
        r@ == endpoint_url(url@, wal_replicate_path()),
{
    endpoint(url, "/v1/admin/wal/replicate")
}

/// Each of the peer endpoints is a path that the idempotence law covers.
pub proof fn peer_endpoint_paths_are_endpoint_paths()
    ensures
        endpoint_path(topology_prepare_path()),
        endpoint_path(topology_commit_path()),
        endpoint_path(topology_abort_path()),
        endpoint_path(schema_prepare_path()),
        endpoint_path(schema_commit_path()),
        endpoint_path(schema_abort_path()),
        endpoint_path(schema_preflight_path()),
        endpoint_path(wal_replicate_path()),
{
    reveal_strlit("/v1/admin/wal/replicate");
    reveal_strlit("/v1/admin/cluster/topology/proposals/prepare");
    reveal_strlit("/v1/admin/cluster/topology/proposals/commit");
    reveal_strlit("/v1/admin/cluster/topology/proposals/abort");
    reveal_strlit("/v1/admin/schema/proposals/prepare");
    reveal_strlit("/v1/admin/schema/proposals/commit");
    reveal_strlit("/v1/admin/schema/proposals/abort");
    reveal_strlit("/v1/admin/schema/preflight");
}

} // verus!

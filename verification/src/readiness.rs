//! Whether the node is ready to serve: reads once its log workers are up,
//! writes while it also owns a shard and is not draining, realtime
//! connections while it is not draining.
use vstd::prelude::*;
use crate::failover::decimal_string;
use crate::text::{cat2, cat4, decimal, owned};

verus! {

/// One check of the readiness report.
pub struct ReadinessCheck {
    pub name: String,
    pub ok: bool,
    pub detail: String,
}

/// The readiness of the node.
pub struct ReadinessReport {
    pub ok: bool,
    pub read_ready: bool,
    pub write_ready: bool,
    pub realtime_ready: bool,
    pub checks: Vec<ReadinessCheck>,
}

/// The readiness of a node with `wal_workers` log workers answering for its
/// `wal_shards` shards, of which it owns `writable_shards`; draining (for
/// `drain_reason`) or not; with its schema at `schema_path`.
pub fn readiness_report(
    wal_workers: usize,
    wal_shards: usize,
    draining: bool,
    drain_reason: Option<String>,
    writable_shards: usize,
    schema_path: String,
) -> (r: ReadinessReport)
    ensures
        r.read_ready == (wal_workers == wal_shards && wal_shards > 0),
        r.write_ready == (r.read_ready && !draining && writable_shards > 0),
        r.realtime_ready == !draining,
        r.ok == (r.write_ready && r.realtime_ready),
        r.checks@.len() == 5,
        r.checks@[0].name@ == "wal"@ && r.checks@[0].ok == r.read_ready && r.checks@[0].detail@ == decimal(
            wal_workers as nat,
        ) + " WAL shard worker(s) available"@,
        r.checks@[1].name@ == "runtimeDrain"@ && r.checks@[1].ok == !draining && r.checks@[1].detail@ == match drain_reason {
            Some(m) => m@,
            None => "runtime accepts new writes and realtime connections"@,
        },
        r.checks@[2].name@ == "localShardOwnership"@ && r.checks@[2].ok == (writable_shards > 0) && r.checks@[2].detail@
            == decimal(writable_shards as nat) + "/"@ + decimal(wal_shards as nat) + " local shard(s) writable"@,
        r.checks@[3].name@ == "schema"@ && r.checks@[3].ok && r.checks@[3].detail == schema_path,
        r.checks@[4].name@ == "connectionLayer"@ && r.checks@[4].ok == !draining && r.checks@[4].detail@ == if draining {
            "runtime drain rejects new realtime connections"@
        } else {
            "new WebSocket/custom realtime connections are accepted"@
        },
{
    let read_ready = wal_workers == wal_shards && wal_shards > 0;
    let write_ready = read_ready && !draining && writable_shards > 0;
    let realtime_ready = !draining;
    let workers = decimal_string(wal_workers as u64);
    let owned_shards = decimal_string(writable_shards as u64);
    let all_shards = decimal_string(wal_shards as u64);
    let mut checks: Vec<ReadinessCheck> = Vec::new();
    checks.push(
        ReadinessCheck {
            name: owned("wal"),
            ok: read_ready,
            detail: cat2(workers.as_str(), " WAL shard worker(s) available"),
        },
    );
    checks.push(
        ReadinessCheck {
            name: owned("runtimeDrain"),
            ok: !draining,
            detail: match drain_reason {
                Some(m) => m,
                None => owned("runtime accepts new writes and realtime connections"),
            },
        },
    );
    checks.push(
        ReadinessCheck {
            name: owned("localShardOwnership"),
            ok: writable_shards > 0,
            detail: cat4(owned_shards.as_str(), "/", all_shards.as_str(), " local shard(s) writable"),
        },
    );
    checks.push(ReadinessCheck { name: owned("schema"), ok: true, detail: schema_path });
    checks.push(
        ReadinessCheck {
            name: owned("connectionLayer"),
            ok: realtime_ready,
            detail: if realtime_ready {
                owned("new WebSocket/custom realtime connections are accepted")
            } else {
                owned("runtime drain rejects new realtime connections")
            },
        },
    );
    ReadinessReport { ok: write_ready && realtime_ready, read_ready, write_ready, realtime_ready, checks }
}


/// The sum of a list of counts.
pub open spec fn count_sum(cs: Seq<usize>) -> int
    decreases cs.len(),
{
    if cs.len() == 0 {
        0
    } else {
        count_sum(cs.drop_last()) + cs.last()
    }
}

fn sum_counts(cs: &Vec<usize>) -> (n: usize)
    requires
        count_sum(cs@) <= usize::MAX,
    ensures
        n == count_sum(cs@),
{
    let mut n: usize = 0;
    let mut i: usize = 0;
    while i < cs.len()
        invariant
            i <= cs@.len(),
            n == count_sum(cs@.take(i as int)),
            count_sum(cs@) <= usize::MAX,
        decreases cs@.len() - i,
    {
        proof {
            assert(cs@.take(i as int + 1).drop_last() =~= cs@.take(i as int));
            lemma_count_sum_prefix(cs@, i as int + 1);
        }
        n = n + cs[i];
        i = i + 1;
    }
    assert(cs@.take(cs@.len() as int) =~= cs@);
    n
}

proof fn lemma_count_sum_prefix(cs: Seq<usize>, k: int)
    requires
        0 <= k <= cs.len(),
    ensures
        count_sum(cs.take(k)) <= count_sum(cs),
    decreases cs.len() - k,
{
    if k < cs.len() {
        lemma_count_sum_prefix(cs, k + 1);
        assert(cs.take(k + 1).drop_last() =~= cs.take(k));
    } else {
        assert(cs.take(k) =~= cs);
    }
}

/// The URLs of `lists`, in the order they first come, each once.
pub open spec fn first_seen(lists: Seq<Seq<Seq<char>>>) -> Seq<Seq<char>>
    decreases lists.len(),
{
    if lists.len() == 0 {
        Seq::empty()
    } else {
        add_unseen(first_seen(lists.drop_last()), lists.last())
    }
}

/// `seen` followed by the URLs of `urls` it lacks, in order, each once.
pub open spec fn add_unseen(seen: Seq<Seq<char>>, urls: Seq<Seq<char>>) -> Seq<Seq<char>>
    decreases urls.len(),
{
    if urls.len() == 0 {
        seen
    } else {
        let prev = add_unseen(seen, urls.drop_last());
        if prev.contains(urls.last()) {
            prev
        } else {
            prev.push(urls.last())
        }
    }
}

/// What the health report computes of the node's state rather than copies.
pub struct HealthSummary {
    pub accepting_writes: bool,
    pub admin_auth_enabled: bool,
    pub client_auth_enabled: bool,
    pub client_user_auth_enabled: bool,
    pub wal_replica_count: usize,
    pub wal_remote_replica_count: usize,
    pub object_remote_replicas: Vec<String>,
}

pub open spec fn url_lists(ls: Seq<Vec<String>>) -> Seq<Seq<Seq<char>>> {
    ls.map_values(|l: Vec<String>| crate::scopes::views(l@))
}

/// The computed part of the health report: writes are accepted unless the
/// runtime drains; admin auth is on with an admin token; client auth with a
/// client token or any user token; user auth with any user token; the local
/// and the remote log replicas summed over the shards; and the object
/// replica URLs of all shards, each once, in the order they first come.
pub fn health_summary(
    draining: bool,
    has_admin_token: bool,
    has_client_token: bool,
    client_user_token_count: usize,
    local_replica_counts: &Vec<usize>,
    remote_replica_counts: &Vec<usize>,
    object_replica_urls: &Vec<Vec<String>>,
) -> (h: HealthSummary)
    requires
        count_sum(local_replica_counts@) <= usize::MAX,
        count_sum(remote_replica_counts@) <= usize::MAX,
    ensures
        h.accepting_writes == !draining,
        h.admin_auth_enabled == has_admin_token,
        h.client_auth_enabled == (has_client_token || client_user_token_count > 0),
        h.client_user_auth_enabled == (client_user_token_count > 0),
        h.wal_replica_count == count_sum(local_replica_counts@),
        h.wal_remote_replica_count == count_sum(remote_replica_counts@),
        crate::scopes::views(h.object_remote_replicas@) == first_seen(url_lists(object_replica_urls@)),
{
    let wal_replica_count = sum_counts(local_replica_counts);
    let wal_remote_replica_count = sum_counts(remote_replica_counts);
    let ghost ls = url_lists(object_replica_urls@);
    let mut urls: Vec<String> = Vec::new();
    let mut i: usize = 0;
    while i < object_replica_urls.len()
        invariant
            i <= object_replica_urls@.len(),
            ls == url_lists(object_replica_urls@),
            crate::scopes::views(urls@) == first_seen(ls.take(i as int)),
        decreases object_replica_urls@.len() - i,
    {
        let shard_urls = &object_replica_urls[i];
        let ghost base = crate::scopes::views(urls@);
        let ghost su = crate::scopes::views(shard_urls@);
        let mut j: usize = 0;
        while j < shard_urls.len()
            invariant
                j <= shard_urls@.len(),
                su == crate::scopes::views(shard_urls@),
                crate::scopes::views(urls@) == add_unseen(base, su.take(j as int)),
            decreases shard_urls@.len() - j,
        {
            proof {
                assert(su.take(j as int + 1).drop_last() =~= su.take(j as int));
                assert(su.take(j as int + 1).last() == shard_urls@[j as int]@);
            }
            let u = &shard_urls[j];
            if !crate::manifest::contains_key_of(urls.as_slice(), u.as_str()) {
                let ghost before = urls@;
                urls.push(u.clone());
                assert(crate::scopes::views(urls@) =~= crate::scopes::views(before).push(u@));
            }
            j = j + 1;
        }
        proof {
            assert(su.take(shard_urls@.len() as int) =~= su);
            assert(ls.take(i as int + 1).drop_last() =~= ls.take(i as int));
            assert(ls.take(i as int + 1).last() == su);
        }
        i = i + 1;
    }
    assert(ls.take(object_replica_urls@.len() as int) =~= ls);
    HealthSummary {
        accepting_writes: !draining,
        admin_auth_enabled: has_admin_token,
        client_auth_enabled: has_client_token || client_user_token_count > 0,
        client_user_auth_enabled: client_user_token_count > 0,
        wal_replica_count,
        wal_remote_replica_count,
        object_remote_replicas: urls,
    }
}

} // verus!

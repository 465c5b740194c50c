//! Write-ahead-log helpers: how an append error is answered, which shard a
//! key's entries go to, the latest LSN of a shard, and what a replica has
//! acknowledged.
use vstd::prelude::*;
use crate::api_error::{ApiError, ApiErrorKind};
use crate::endpoints::{endpoint_url, normalize_replication_url, wal_replicate_path};
use crate::model::WalRecord;
use crate::text::{chars_contains, chars_eq, chars_of, has_substring, owned};
use crate::util::{shard_index, shard_of};

verus! {

/// Whether an append error tells of a replicated entry that does not fit this
/// node's epoch, owner or shard.
pub open spec fn replication_mismatch(message: Seq<char>) -> bool {
    ||| has_substring(message, "replicated WAL record epoch"@)
    ||| has_substring(message, "replicated WAL record owner"@)
    ||| has_substring(message, "replicated WAL record shard"@)
}

/// The answer to a failed append, by its message: a replication mismatch is a
/// conflict, anything else an internal error; the message is kept.
pub fn map_wal_append_error(message: String) -> (e: ApiError)
    ensures
        e.kind == (if replication_mismatch(message@) {
            ApiErrorKind::Conflict
        } else {
            ApiErrorKind::Internal
        }),
        e.message@ == message@,
{
    let m = chars_of(message.as_str());
    let a = chars_of("replicated WAL record epoch");
    let b = chars_of("replicated WAL record owner");
    let c = chars_of("replicated WAL record shard");
    if chars_contains(m.as_slice(), a.as_slice()) || chars_contains(m.as_slice(), b.as_slice())
        || chars_contains(m.as_slice(), c.as_slice()) {
        ApiError::conflict(message)
    } else {
        ApiError::internal(message)
    }
}

/// The shard that a key's entries go to among `shard_count` configured
/// shards; with none configured there is no shard to go to.
pub fn wal_shard_for_key(key: &str, shard_count: usize) -> (r: Result<usize, ApiError>)
    ensures
        match r {
            Ok(i) => shard_count > 0 && i == shard_of(key@, shard_count as nat) && i < shard_count,
            Err(e) => shard_count == 0 && e.kind == ApiErrorKind::Internal
                && e.message@ == "WAL shard 0 is not configured"@,
        },
{
    let index = shard_index(key, shard_count);
    if index >= shard_count {
        return Err(ApiError::internal(owned("WAL shard 0 is not configured")));
    }
    Ok(index)
}

/// The greatest LSN among the entries of `shard`, 0 where it has none.
pub open spec fn latest_lsn(records: Seq<WalRecord>, shard: usize) -> u64
    decreases records.len(),
{
    if records.len() == 0 {
        0
    } else {
        let prev = latest_lsn(records.drop_last(), shard);
        if records.last().shard == shard && records.last().lsn > prev {
            records.last().lsn
        } else {
            prev
        }
    }
}

/// The latest LSN of a shard's log, from its entries.
pub fn latest_lsn_for_shard(records: &Vec<WalRecord>, shard: usize) -> (n: u64)
    ensures
        n == latest_lsn(records@, shard),
{
    let mut best: u64 = 0;
    let mut i: usize = 0;
    assert(records@.take(0) =~= Seq::<WalRecord>::empty());
    while i < records.len()
        invariant
            i <= records@.len(),
            best == latest_lsn(records@.take(i as int), shard),
        decreases records@.len() - i,
    {
        proof {
            assert(records@.take(i + 1).drop_last() =~= records@.take(i as int));
            assert(records@.take(i + 1).last() == records@[i as int]);
        }
        if records[i].shard == shard && records[i].lsn > best {
            best = records[i].lsn;
        }
        i = i + 1;
    }
    assert(records@.take(i as int) =~= records@);
    best
}

/// A remote replica of a shard's log and the highest LSN it acknowledged.
pub struct WalRemoteReplica {
    pub url: String,
    pub highest_acked_lsn: u64,
}

/// The highest LSN acknowledged by the replicas at `url`, none where no
/// replica is there.
pub open spec fn acked_at(replicas: Seq<WalRemoteReplica>, url: Seq<char>) -> Option<u64>
    decreases replicas.len(),
{
    if replicas.len() == 0 {
        None
    } else {
        let prev = acked_at(replicas.drop_last(), url);
        if replicas.last().url@ == url {
            match prev {
                Some(p) => if replicas.last().highest_acked_lsn > p {
                    Some(replicas.last().highest_acked_lsn)
                } else {
                    Some(p)
                },
                None => Some(replicas.last().highest_acked_lsn),
            }
        } else {
            prev
        }
    }
}

/// The highest LSN that the replica at `target_url` (named by its base URL or
/// its replication endpoint) acknowledged.
pub fn remote_ack_lsn_for_url(replicas: &Vec<WalRemoteReplica>, target_url: &str) -> (r: Option<u64>)
    ensures
        r == acked_at(replicas@, endpoint_url(target_url@, wal_replicate_path())),
{
    let target = normalize_replication_url(target_url);
    let t = chars_of(target.as_str());
    let mut best: Option<u64> = None;
    let mut i: usize = 0;
    assert(replicas@.take(0) =~= Seq::<WalRemoteReplica>::empty());
    while i < replicas.len()
        invariant
            i <= replicas@.len(),
            t@ == endpoint_url(target_url@, wal_replicate_path()),
            best == acked_at(replicas@.take(i as int), t@),
        decreases replicas@.len() - i,
    {
        proof {
            assert(replicas@.take(i + 1).drop_last() =~= replicas@.take(i as int));
            assert(replicas@.take(i + 1).last() == replicas@[i as int]);
        }
        let u = chars_of(replicas[i].url.as_str());
        if chars_eq(u.as_slice(), t.as_slice()) {
            let lsn = replicas[i].highest_acked_lsn;
            best = match best {
                Some(p) => if lsn > p {
                    Some(lsn)
                } else {
                    Some(p)
                },
                None => Some(lsn),
            };
        }
        i = i + 1;
    }
    assert(replicas@.take(i as int) =~= replicas@);
    best
}

} // verus!

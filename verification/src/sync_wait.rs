//! Waiting for the log to reach an LSN: how many remote replicas must have
//! acknowledged it for the consistency asked, and when a wait ends.
use vstd::prelude::*;
use crate::api_error::{ApiError, ApiErrorKind};
use crate::sync::ReadConsistency;
use crate::text::owned;
use crate::wal::WalRemoteReplica;

verus! {

/// How far the remote replicas of a shard are toward an LSN.
pub struct RemoteReadAckProgress {
    pub required_acks: usize,
    pub acked: usize,
    pub caught_up: bool,
}

/// The number of replicas that acknowledged `min_lsn` or later.
pub open spec fn count_acked(rs: Seq<WalRemoteReplica>, min_lsn: u64) -> nat
    decreases rs.len(),
{
    if rs.len() == 0 {
        0
    } else {
        count_acked(rs.drop_last(), min_lsn) + if rs.last().highest_acked_lsn >= min_lsn {
            1nat
        } else {
            0nat
        }
    }
}

proof fn lemma_count_acked_bound(rs: Seq<WalRemoteReplica>, min_lsn: u64)
    ensures
        count_acked(rs, min_lsn) <= rs.len(),
    decreases rs.len(),
{
    if rs.len() > 0 {
        lemma_count_acked_bound(rs.drop_last(), min_lsn);
    }
}

/// The acknowledgements a read of consistency `c` waits for: none locally,
/// the write quorum for a quorum read, every replica for an all read.
pub open spec fn required_read_acks(c: ReadConsistency, quorum_acks: usize, replica_count: nat) -> nat {
    match c {
        ReadConsistency::Local => 0,
        ReadConsistency::Quorum => quorum_acks as nat,
        ReadConsistency::All => replica_count,
    }
}

/// The progress of the remote replicas of `shard` (of `shard_count`) toward
/// `min_lsn`, given the replicas' acknowledgements and the number of
/// acknowledgements the shard's write quorum takes. Without a shard nothing
/// is waited for.
pub fn remote_read_ack_progress(
    min_lsn: u64,
    consistency: ReadConsistency,
    shard: Option<usize>,
    shard_count: usize,
    replicas: &Vec<WalRemoteReplica>,
    quorum_acks: usize,
) -> (r: Result<RemoteReadAckProgress, ApiError>)
    ensures
        match shard {
            None => r matches Ok(p) && p.required_acks == 0 && p.acked == 0 && p.caught_up,
            Some(s) => if s >= shard_count {
                r matches Err(e) && e.kind == ApiErrorKind::BadRequest && e.message@ == "shard is out of range"@
            } else {
                r matches Ok(p) && p.required_acks == required_read_acks(consistency, quorum_acks, replicas@.len())
                    && p.acked == count_acked(replicas@, min_lsn) && p.caught_up == (p.acked >= p.required_acks)
            },
        },
{
    let s = match shard {
        None => {
            return Ok(RemoteReadAckProgress { required_acks: 0, acked: 0, caught_up: true });
        },
        Some(s) => s,
    };
    if s >= shard_count {
        return Err(ApiError::bad_request(owned("shard is out of range")));
    }
    let required_acks = match consistency {
        ReadConsistency::Local => 0,
        ReadConsistency::Quorum => quorum_acks,
        ReadConsistency::All => replicas.len(),
    };
    let mut acked: usize = 0;
    let mut i: usize = 0;
    while i < replicas.len()
        invariant
            i <= replicas@.len(),
            acked == count_acked(replicas@.take(i as int), min_lsn),
        decreases replicas@.len() - i,
    {
        assert(replicas@.take(i + 1).drop_last() =~= replicas@.take(i as int));
        proof {
            lemma_count_acked_bound(replicas@.take(i as int), min_lsn);
        }
        if replicas[i].highest_acked_lsn >= min_lsn {
            acked = acked + 1;
        }
        i = i + 1;
    }
    assert(replicas@.take(replicas@.len() as int) =~= replicas@);
    Ok(RemoteReadAckProgress { required_acks, acked, caught_up: acked >= required_acks })
}

/// How long a wait may last: the time asked for, 5000 ms by default, at most
/// 30000 ms.
pub open spec fn wait_timeout_ms(asked: Option<u64>) -> u64 {
    let t = match asked {
        Some(t) => t,
        None => 5000,
    };
    if t < 30000 {
        t
    } else {
        30000
    }
}

/// The answer to a wait.
pub struct SyncWaitResponse {
    pub min_lsn: u64,
    pub current_lsn: u64,
    pub caught_up: bool,
    pub waited_ms: u64,
    pub consistency: ReadConsistency,
    pub shard: Option<usize>,
    pub remote_required_acks: usize,
    pub remote_acked: usize,
    pub remote_caught_up: bool,
}

/// One round of a wait: the answer once this node has reached `min_lsn` and
/// the remote replicas caught up (`caught_up`), or once the wait has lasted
/// its time (not caught up); none while it should go on waiting.
pub fn sync_wait_outcome(
    min_lsn: u64,
    timeout_ms: Option<u64>,
    consistency: ReadConsistency,
    shard: Option<usize>,
    current_lsn: u64,
    progress: &RemoteReadAckProgress,
    elapsed_ms: u64,
) -> (r: Option<SyncWaitResponse>)
    ensures
        r is Some <==> ((current_lsn >= min_lsn && progress.caught_up) || elapsed_ms >= wait_timeout_ms(timeout_ms)),
        r matches Some(a) ==> {
            &&& a.min_lsn == min_lsn
            &&& a.current_lsn == current_lsn
            &&& a.caught_up == (current_lsn >= min_lsn && progress.caught_up)
            &&& a.waited_ms == elapsed_ms
            &&& a.consistency == consistency
            &&& a.shard == shard
            &&& a.remote_required_acks == progress.required_acks
            &&& a.remote_acked == progress.acked
            &&& a.remote_caught_up == progress.caught_up
        },
{
    let asked = match timeout_ms {
        Some(t) => t,
        None => 5000,
    };
    let limit = if asked < 30000 {
        asked
    } else {
        30000
    };
    let caught_up = current_lsn >= min_lsn && progress.caught_up;
    if caught_up || elapsed_ms >= limit {
        Some(SyncWaitResponse {
            min_lsn,
            current_lsn,
            caught_up,
            waited_ms: elapsed_ms,
            consistency,
            shard,
            remote_required_acks: progress.required_acks,
            remote_acked: progress.acked,
            remote_caught_up: progress.caught_up,
        })
    } else {
        None
    }
}

} // verus!

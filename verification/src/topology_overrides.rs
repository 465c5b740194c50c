//! Topology overrides: per shard, the owner, epoch and replicas that replace
//! what the cluster configuration says. A request to change them is first
//! put in a canonical form, then merged into the overrides.
use vstd::prelude::*;
use std::collections::BTreeMap;
use crate::api_error::{ApiError, ApiErrorKind};
use crate::failover::{ApplyTopologyOverrideRequest, decimal_string};
use crate::records::{list_contains, string_views};
use crate::text::{cat4, chars_of, decimal, owned, trim, trim_string};

verus! {

/// What overrides the configuration of one shard.
#[derive(Clone)]
pub struct ClusterShardOverride {
    pub owner: Option<String>,
    pub epoch: Option<u64>,
    pub replicas: Option<Vec<String>>,
}

/// The replicas as a request gives them: trimmed, the blank ones left out,
/// each kept once, first place first.
pub open spec fn normalized_replicas(rs: Seq<Seq<char>>) -> Seq<Seq<char>>
    decreases rs.len(),
{
    if rs.len() == 0 {
        Seq::empty()
    } else {
        let prev = normalized_replicas(rs.drop_last());
        let t = trim(rs.last());
        if t.len() == 0 || prev.contains(t) {
            prev
        } else {
            prev.push(t)
        }
    }
}

fn normalize_replicas(replicas: &Vec<String>) -> (r: Vec<String>)
    ensures
        string_views(r@) == normalized_replicas(string_views(replicas@)),
{
    let mut out: Vec<String> = Vec::new();
    let mut i: usize = 0;
    while i < replicas.len()
        invariant
            i <= replicas@.len(),
            string_views(out@) == normalized_replicas(string_views(replicas@).take(i as int)),
        decreases replicas@.len() - i,
    {
        let ghost before = string_views(replicas@).take(i as int);
        let ghost after = string_views(replicas@).take(i + 1);
        assert(after.drop_last() =~= before);
        assert(after.last() == replicas@[i as int]@);
        let t = trim_string(replicas[i].as_str());
        if chars_of(t.as_str()).len() > 0 && !list_contains(&out, t.as_str()) {
            let ghost tv = t@;
            out.push(t);
            assert(string_views(out@) =~= normalized_replicas(before).push(tv));
        }
        i = i + 1;
    }
    assert(string_views(replicas@).take(replicas@.len() as int) =~= string_views(replicas@));
    out
}

/// The views of an optional list of strings.
pub open spec fn opt_views(o: Option<Vec<String>>) -> Option<Seq<Seq<char>>> {
    match o {
        Some(v) => Some(string_views(v@)),
        None => None,
    }
}

/// Why a change of `request.shard` (of `shard_count`, now at epoch
/// `current_epoch`) is refused, if it is: a shard out of range, an epoch
/// below the current one, a blank owner.
pub open spec fn override_request_error(
    request: ApplyTopologyOverrideRequest,
    shard_count: usize,
    current_epoch: u64,
) -> Option<(ApiErrorKind, Seq<char>)> {
    if request.shard >= shard_count {
        Some((ApiErrorKind::BadRequest, "shard is out of range"@))
    } else if request.epoch is Some && request.epoch->Some_0 < current_epoch {
        Some(
            (
                ApiErrorKind::Conflict,
                "topology override epoch "@ + decimal(request.epoch->Some_0 as nat) + " is lower than current epoch "@
                    + decimal(current_epoch as nat),
            ),
        )
    } else if request.owner is Some && trim(request.owner->Some_0@).len() == 0 {
        Some((ApiErrorKind::BadRequest, "owner cannot be empty"@))
    } else {
        None
    }
}

/// Puts a change of a shard in canonical form (see
/// `override_request_error` for when it is refused): the owner trimmed, the
/// replicas normalized.
pub fn normalize_topology_override_request(
    request: ApplyTopologyOverrideRequest,
    shard_count: usize,
    current_epoch: u64,
) -> (r: Result<ApplyTopologyOverrideRequest, ApiError>)
    ensures
        match r {
            Err(e) => override_request_error(request, shard_count, current_epoch) == Some((e.kind, e.message@)),
            Ok(n) => {
                &&& override_request_error(request, shard_count, current_epoch) is None
                &&& n.shard == request.shard
                &&& n.epoch == request.epoch
                &&& (match request.owner {
                    Some(o) => n.owner matches Some(no) && no@ == trim(o@),
                    None => n.owner is None,
                })
                &&& opt_views(n.replicas) == match request.replicas {
                    Some(rs) => Some(normalized_replicas(string_views(rs@))),
                    None => None,
                }
            },
        },
{
    if request.shard >= shard_count {
        return Err(ApiError::bad_request(owned("shard is out of range")));
    }
    if let Some(x) = request.epoch {
        if x < current_epoch {
            let a = decimal_string(x);
            let b = decimal_string(current_epoch);
            return Err(
                ApiError::conflict(cat4("topology override epoch ", a.as_str(), " is lower than current epoch ", b.as_str())),
            );
        }
    }
    let owner = match &request.owner {
        Some(o) => {
            let t = trim_string(o.as_str());
            if chars_of(t.as_str()).len() == 0 {
                return Err(ApiError::bad_request(owned("owner cannot be empty")));
            }
            Some(t)
        },
        None => None,
    };
    let replicas = match &request.replicas {
        Some(rs) => Some(normalize_replicas(rs)),
        None => None,
    };
    Ok(ApplyTopologyOverrideRequest { shard: request.shard, owner, epoch: request.epoch, replicas })
}

/// The override of a shard after a change: the owner and replicas the change
/// gives, else the ones it had; the epoch it gives (at least 1), else the
/// one it had.
pub open spec fn updated_override(base: ClusterShardOverride, request: ApplyTopologyOverrideRequest) -> ClusterShardOverride {
    ClusterShardOverride {
        owner: match request.owner {
            Some(o) => Some(o),
            None => base.owner,
        },
        epoch: match request.epoch {
            Some(e) => Some(if e < 1 { 1 } else { e }),
            None => base.epoch,
        },
        replicas: match request.replicas {
            Some(r) => Some(r),
            None => base.replicas,
        },
    }
}

/// The override a shard has before any change: nothing overridden.
pub open spec fn no_override() -> ClusterShardOverride {
    ClusterShardOverride { owner: None, epoch: None, replicas: None }
}

/// The overrides after a change of `request.shard`: that shard's override
/// updated (from none where it had none), every other shard's unchanged.
pub fn build_topology_overrides_after_request(
    overrides: &BTreeMap<usize, ClusterShardOverride>,
    request: ApplyTopologyOverrideRequest,
) -> (next: BTreeMap<usize, ClusterShardOverride>)
    ensures
        next@ == overrides@.insert(
            request.shard,
            updated_override(
                if overrides@.contains_key(request.shard) {
                    overrides@[request.shard]
                } else {
                    no_override()
                },
                request,
            ),
        ),
{
    let mut next = overrides.clone();
    let base = match next.remove(&request.shard) {
        Some(o) => o,
        None => ClusterShardOverride { owner: None, epoch: None, replicas: None },
    };
    let entry = ClusterShardOverride {
        owner: match request.owner {
            Some(o) => Some(o),
            None => base.owner,
        },
        epoch: match request.epoch {
            Some(e) => Some(if e < 1 { 1 } else { e }),
            None => base.epoch,
        },
        replicas: match request.replicas {
            Some(r) => Some(r),
            None => base.replicas,
        },
    };
    next.insert(request.shard, entry);
    proof {
        assert(next@ =~= overrides@.insert(
            request.shard,
            updated_override(
                if overrides@.contains_key(request.shard) {
                    overrides@[request.shard]
                } else {
                    no_override()
                },
                request,
            ),
        ));
    }
    next
}

/// An accepted change never moves a shard to an earlier epoch: the epoch it
/// sets is at least the current one (and at least 1).
pub proof fn accepted_overrides_keep_epochs_moving_forward(
    request: ApplyTopologyOverrideRequest,
    shard_count: usize,
    current_epoch: u64,
    base: ClusterShardOverride,
)
    requires
        override_request_error(request, shard_count, current_epoch) is None,
        request.epoch is Some,
    ensures
        updated_override(base, request).epoch matches Some(e) && e >= current_epoch && e >= 1,
{
}

} // verus!

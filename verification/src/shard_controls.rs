//! Freezing a shard: while frozen, no write reaches it. A handoff freezes
//! the shard it moves; an operator may freeze and unfreeze any shard.
use vstd::prelude::*;
use std::collections::BTreeMap;
use crate::api_error::{ApiError, ApiErrorKind};
use crate::failover::decimal_string;
use crate::text::{cat2, cat3, chars_of, decimal, owned, trim};

verus! {

/// Whether a shard is frozen, why, and since when.
pub struct ShardControl {
    pub shard: usize,
    pub frozen: bool,
    pub reason: Option<String>,
    pub frozen_at_ms: Option<u64>,
}

/// Why a write to `shard` is refused under the controls, if it is.
pub open spec fn frozen_error(controls: Map<usize, ShardControl>, shard: usize) -> Option<Seq<char>> {
    if controls.contains_key(shard) && controls[shard].frozen {
        Some(
            "shard "@ + decimal(shard as nat) + " is frozen"@ + match controls[shard].reason {
                Some(r) => ": "@ + r@,
                None => Seq::empty(),
            },
        )
    } else {
        None
    }
}

/// Refuses a write to a frozen shard, saying why it is frozen.
pub fn ensure_shard_not_frozen(controls: &BTreeMap<usize, ShardControl>, shard: usize) -> (r: Result<(), ApiError>)
    ensures
        match frozen_error(controls@, shard) {
            None => r is Ok,
            Some(m) => r matches Err(e) && e.kind == ApiErrorKind::Locked && e.message@ == m,
        },
{
    match controls.get(&shard) {
        Some(c) => {
            if c.frozen {
                let n = decimal_string(shard as u64);
                let head = cat3("shard ", n.as_str(), " is frozen");
                let message = match &c.reason {
                    Some(reason) => {
                        let tail = cat2(": ", reason.as_str());
                        cat2(head.as_str(), tail.as_str())
                    },
                    None => {
                        proof {
                            assert(head@ + Seq::<char>::empty() =~= head@);
                        }
                        head
                    },
                };
                return Err(ApiError::locked(message));
            }
            Ok(())
        },
        None => Ok(()),
    }
}

/// The reason a freeze keeps: the one given, unless it is blank.
pub open spec fn kept_reason(reason: Option<String>) -> Option<String> {
    match reason {
        Some(r) => if trim(r@).len() > 0 {
            Some(r)
        } else {
            None
        },
        None => None,
    }
}

/// Freezes `shard` (of `shard_count`) at `now`, for `reason`. Gives the
/// control now in force.
pub fn freeze_shard(
    controls: &mut BTreeMap<usize, ShardControl>,
    shard: usize,
    shard_count: usize,
    reason: Option<String>,
    now: u64,
) -> (r: Result<ShardControl, ApiError>)
    ensures
        shard >= shard_count ==> (r matches Err(e) && e.kind == ApiErrorKind::BadRequest && e.message@
            == "shard is out of range"@ && final(controls)@ == old(controls)@),
        shard < shard_count ==> {
            let c = ShardControl { shard, frozen: true, reason: kept_reason(reason), frozen_at_ms: Some(now) };
            &&& final(controls)@ == old(controls)@.insert(shard, c)
            &&& r matches Ok(x) && x.shard == shard && x.frozen && x.frozen_at_ms == Some(now)
                && opt_reason(x.reason) == opt_reason(kept_reason(reason))
        },
{
    if shard >= shard_count {
        return Err(ApiError::bad_request(owned("shard is out of range")));
    }
    let kept = match reason {
        Some(r) => {
            let t = crate::text::trim_string(r.as_str());
            if chars_of(t.as_str()).len() > 0 {
                Some(r)
            } else {
                None
            }
        },
        None => None,
    };
    let shown = match &kept {
        Some(r) => Some(r.clone()),
        None => None,
    };
    controls.insert(shard, ShardControl { shard, frozen: true, reason: kept, frozen_at_ms: Some(now) });
    Ok(ShardControl { shard, frozen: true, reason: shown, frozen_at_ms: Some(now) })
}

/// The text of an optional reason.
pub open spec fn opt_reason(r: Option<String>) -> Option<Seq<char>> {
    match r {
        Some(s) => Some(s@),
        None => None,
    }
}

/// Unfreezes `shard` (of `shard_count`). Gives the control now in force.
pub fn unfreeze_shard(controls: &mut BTreeMap<usize, ShardControl>, shard: usize, shard_count: usize) -> (r: Result<
    ShardControl,
    ApiError,
>)
    ensures
        shard >= shard_count ==> (r matches Err(e) && e.kind == ApiErrorKind::BadRequest && e.message@
            == "shard is out of range"@ && final(controls)@ == old(controls)@),
        shard < shard_count ==> final(controls)@ == old(controls)@.remove(shard) && (r matches Ok(x) && x.shard
            == shard && !x.frozen && x.reason is None && x.frozen_at_ms is None),
{
    if shard >= shard_count {
        return Err(ApiError::bad_request(owned("shard is out of range")));
    }
    controls.remove(&shard);
    Ok(ShardControl { shard, frozen: false, reason: None, frozen_at_ms: None })
}

/// A frozen shard refuses writes until it is unfrozen; an unfrozen one
/// takes them.
pub proof fn freezing_blocks_writes_until_unfrozen(controls: Map<usize, ShardControl>, shard: usize, c: ShardControl)
    requires
        c.frozen,
    ensures
        frozen_error(controls.insert(shard, c), shard) is Some,
        frozen_error(controls.insert(shard, c).remove(shard), shard) is None,
{
}

} // verus!

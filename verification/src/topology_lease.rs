//! The topology lease: the one node at a time that may drive a topology
//! change. A proposal takes the lease with a new term, the other nodes
//! accept it for that term, and a commit goes ahead only while the lease
//! still names that proposal.
use vstd::prelude::*;
use crate::api_error::{ApiError, ApiErrorKind};
use crate::failover::decimal_string;
use crate::text::{cat2, cat4, decimal, owned, str_eq};

verus! {

/// The lease as each node keeps it.
pub struct TopologyLease {
    pub current_term: u64,
    pub holder_node_id: Option<String>,
    pub proposal_id: Option<String>,
    pub expires_at_ms: Option<u64>,
}

/// The lease as plain values.
pub struct LeaseView {
    pub term: u64,
    pub holder: Option<Seq<char>>,
    pub proposal: Option<Seq<char>>,
    pub expires: Option<u64>,
}

pub open spec fn opt_text(o: Option<String>) -> Option<Seq<char>> {
    match o {
        Some(s) => Some(s@),
        None => None,
    }
}

impl View for TopologyLease {
    type V = LeaseView;

    open spec fn view(&self) -> LeaseView {
        LeaseView {
            term: self.current_term,
            holder: opt_text(self.holder_node_id),
            proposal: opt_text(self.proposal_id),
            expires: self.expires_at_ms,
        }
    }
}

impl Default for TopologyLease {
    fn default() -> (l: Self)
        ensures
            l@ == (LeaseView { term: 0, holder: None, proposal: None, expires: None }),
    {
        TopologyLease { current_term: 0, holder_node_id: None, proposal_id: None, expires_at_ms: None }
    }
}

/// What a proposal claims of the lease: its id, the node that made it, the
/// term it holds and when its hold ends.
pub struct LeaseClaim {
    pub id: Seq<char>,
    pub by: Seq<char>,
    pub term: u64,
    pub expires: u64,
}

/// Whether the lease is held, unexpired at `now`, by a node other than
/// `node`.
pub open spec fn held_by_other(l: LeaseView, node: Seq<char>, now: u64) -> bool {
    &&& l.expires is Some && l.expires->Some_0 > now
    &&& l.holder is Some && l.holder->Some_0 != node
}

/// `x + 1`, staying at the largest `u64`.
pub open spec fn next_term(x: u64) -> u64 {
    if x == u64::MAX {
        u64::MAX
    } else {
        (x + 1) as u64
    }
}

/// Taking the lease for proposal `id` of `node` at `now` for `lease_ms`:
/// refused while another node holds it; else a new term, held by `node` for
/// `id` until `now + lease_ms`.
pub open spec fn acquired(l: LeaseView, node: Seq<char>, id: Seq<char>, now: u64, lease_ms: u64) -> Result<
    LeaseView,
    Seq<char>,
> {
    if held_by_other(l, node, now) {
        Err("topology lease is held by "@ + l.holder->Some_0 + " until "@ + decimal(l.expires->Some_0 as nat))
    } else {
        Ok(
            LeaseView {
                term: next_term(l.term),
                holder: Some(node),
                proposal: Some(id),
                expires: Some((now + lease_ms) as u64),
            },
        )
    }
}

/// Whether the lease names the claim: its term, its node and its proposal.
pub open spec fn same_lease(l: LeaseView, c: LeaseClaim) -> bool {
    l.holder == Some(c.by) && l.proposal == Some(c.id)
}

/// Accepting a proposal's claim at `now`: refused for an older term, and for
/// the same term while another unexpired holder has it; else the lease
/// takes the claim.
pub open spec fn accepted(l: LeaseView, c: LeaseClaim, now: u64) -> Result<LeaseView, Seq<char>> {
    if c.term < l.term {
        Err("topology proposal term "@ + decimal(c.term as nat) + " is lower than current term "@ + decimal(l.term as nat))
    } else if c.term == l.term && !same_lease(l, c) && l.expires is Some && l.expires->Some_0 > now {
        Err(
            "topology lease term "@ + decimal(l.term as nat) + " is held by "@ + match l.holder {
                Some(h) => h,
                None => Seq::empty(),
            },
        )
    } else {
        Ok(LeaseView { term: c.term, holder: Some(c.by), proposal: Some(c.id), expires: Some(c.expires) })
    }
}

/// Why the lease does not back the claim at `now`, if it does not.
pub open spec fn mismatch(l: LeaseView, c: LeaseClaim, now: u64) -> Option<Seq<char>> {
    if c.term != l.term {
        Some(
            "topology proposal term "@ + decimal(c.term as nat) + " does not match current term "@ + decimal(
                l.term as nat,
            ),
        )
    } else if !same_lease(l, c) {
        Some("topology lease holder does not match proposal"@)
    } else if l.expires is Some && l.expires->Some_0 < now {
        Some("topology lease has expired"@)
    } else {
        None
    }
}

/// The lease after the claim lets it go: freed where it holds that claim,
/// unchanged otherwise. The term stays.
pub open spec fn released(l: LeaseView, c: LeaseClaim) -> LeaseView {
    if l.term == c.term && same_lease(l, c) {
        LeaseView { term: l.term, holder: None, proposal: None, expires: None }
    } else {
        l
    }
}

/// Whether a held lease has run out at `now`.
pub open spec fn lapsed(l: LeaseView, now: u64) -> bool {
    l.holder is Some && l.expires is Some && l.expires->Some_0 <= now
}

fn copy_text(o: &Option<String>) -> (c: Option<String>)
    ensures
        c == *o,
{
    match o {
        Some(t) => Some(t.clone()),
        None => None,
    }
}

fn text_is(o: &Option<String>, s: &str) -> (b: bool)
    ensures
        b == (opt_text(*o) == Some(s@)),
{
    match o {
        Some(t) => str_eq(t.as_str(), s),
        None => false,
    }
}

/// Takes the lease for the proposal `proposal_id` of `node_id` at `now`,
/// for `lease_ms`. Gives the term and the end of the hold.
pub fn acquire_topology_lease(
    lease: &mut TopologyLease,
    node_id: &str,
    proposal_id: &str,
    now: u64,
    lease_ms: u64,
) -> (r: Result<(u64, u64), ApiError>)
    requires
        now + lease_ms <= u64::MAX,
    ensures
        match acquired(old(lease)@, node_id@, proposal_id@, now, lease_ms) {
            Ok(l) => final(lease)@ == l && r == Ok::<(u64, u64), ApiError>((l.term, l.expires->Some_0)),
            Err(m) => final(lease)@ == old(lease)@ && (r matches Err(e) && e.kind == ApiErrorKind::Conflict
                && e.message@ == m),
        },
{
    let expires_at = now + lease_ms;
    let held = match lease.expires_at_ms {
        Some(x) => x > now,
        None => false,
    };
    let other = match &lease.holder_node_id {
        Some(h) => !str_eq(h.as_str(), node_id),
        None => false,
    };
    if held && other {
        let holder = match &lease.holder_node_id {
            Some(h) => h.clone(),
            None => String::new(),
        };
        let until = match lease.expires_at_ms {
            Some(x) => x,
            None => 0,
        };
        let u = decimal_string(until);
        return Err(ApiError::conflict(cat4("topology lease is held by ", holder.as_str(), " until ", u.as_str())));
    }
    let term = if lease.current_term == u64::MAX {
        u64::MAX
    } else {
        lease.current_term + 1
    };
    lease.current_term = term;
    lease.holder_node_id = Some(owned(node_id));
    lease.proposal_id = Some(owned(proposal_id));
    lease.expires_at_ms = Some(expires_at);
    Ok((term, expires_at))
}

/// Accepts a proposal's claim on the lease at `now`.
pub fn accept_topology_lease(
    lease: &mut TopologyLease,
    proposal_id: &str,
    proposed_by: &str,
    term: u64,
    lease_expires_at_ms: u64,
    now: u64,
) -> (r: Result<(), ApiError>)
    ensures
        ({
            let c = LeaseClaim { id: proposal_id@, by: proposed_by@, term, expires: lease_expires_at_ms };
            match accepted(old(lease)@, c, now) {
                Ok(l) => final(lease)@ == l && r is Ok,
                Err(m) => final(lease)@ == old(lease)@ && (r matches Err(e) && e.kind == ApiErrorKind::Conflict
                    && e.message@ == m),
            }
        }),
{
    if term < lease.current_term {
        let a = decimal_string(term);
        let b = decimal_string(lease.current_term);
        return Err(
            ApiError::conflict(cat4("topology proposal term ", a.as_str(), " is lower than current term ", b.as_str())),
        );
    }
    let same = text_is(&lease.holder_node_id, proposed_by) && text_is(&lease.proposal_id, proposal_id);
    let live = match lease.expires_at_ms {
        Some(x) => x > now,
        None => false,
    };
    if term == lease.current_term && !same && live {
        let a = decimal_string(lease.current_term);
        let holder = match &lease.holder_node_id {
            Some(h) => h.clone(),
            None => String::new(),
        };
        return Err(ApiError::conflict(cat4("topology lease term ", a.as_str(), " is held by ", holder.as_str())));
    }
    lease.current_term = term;
    lease.holder_node_id = Some(owned(proposed_by));
    lease.proposal_id = Some(owned(proposal_id));
    lease.expires_at_ms = Some(lease_expires_at_ms);
    Ok(())
}

/// Checks that the lease still backs a proposal's claim at `now`.
pub fn ensure_topology_lease_matches(
    lease: &TopologyLease,
    proposal_id: &str,
    proposed_by: &str,
    term: u64,
    now: u64,
) -> (r: Result<(), ApiError>)
    ensures
        ({
            let c = LeaseClaim { id: proposal_id@, by: proposed_by@, term, expires: 0 };
            match mismatch(lease@, c, now) {
                None => r is Ok,
                Some(m) => r matches Err(e) && e.kind == ApiErrorKind::Conflict && e.message@ == m,
            }
        }),
{
    if term != lease.current_term {
        let a = decimal_string(term);
        let b = decimal_string(lease.current_term);
        return Err(
            ApiError::conflict(cat4("topology proposal term ", a.as_str(), " does not match current term ", b.as_str())),
        );
    }
    if !text_is(&lease.holder_node_id, proposed_by) || !text_is(&lease.proposal_id, proposal_id) {
        return Err(ApiError::conflict(owned("topology lease holder does not match proposal")));
    }
    let expired = match lease.expires_at_ms {
        Some(x) => x < now,
        None => false,
    };
    if expired {
        return Err(ApiError::conflict(owned("topology lease has expired")));
    }
    Ok(())
}

/// Lets the lease go for a proposal's claim.
pub fn release_topology_lease(lease: &mut TopologyLease, proposal_id: &str, proposed_by: &str, term: u64)
    ensures
        final(lease)@ == released(old(lease)@, LeaseClaim { id: proposal_id@, by: proposed_by@, term, expires: 0 }),
{
    if lease.current_term == term && text_is(&lease.holder_node_id, proposed_by) && text_is(&lease.proposal_id, proposal_id) {
        lease.holder_node_id = None;
        lease.proposal_id = None;
        lease.expires_at_ms = None;
    }
}

/// Frees a held lease that has run out at `now`; says whether it did.
pub fn cleanup_expired_topology_lease(lease: &mut TopologyLease, now: u64) -> (cleared: bool)
    ensures
        cleared == lapsed(old(lease)@, now),
        final(lease)@ == if cleared {
            LeaseView { term: old(lease)@.term, holder: None, proposal: None, expires: None }
        } else {
            old(lease)@
        },
{
    let run_out = match lease.expires_at_ms {
        Some(x) => x <= now,
        None => false,
    };
    if lease.holder_node_id.is_some() && run_out {
        lease.holder_node_id = None;
        lease.proposal_id = None;
        lease.expires_at_ms = None;
        true
    } else {
        false
    }
}

/// A lease a node has just taken backs its proposal until the hold ends.
pub proof fn acquired_lease_backs_its_proposal(
    l: LeaseView,
    node: Seq<char>,
    id: Seq<char>,
    now: u64,
    lease_ms: u64,
    t: u64,
)
    requires
        now + lease_ms <= u64::MAX,
        acquired(l, node, id, now, lease_ms) is Ok,
        t <= now + lease_ms,
    ensures
        ({
            let l2 = acquired(l, node, id, now, lease_ms)->Ok_0;
            mismatch(l2, LeaseClaim { id, by: node, term: l2.term, expires: 0 }, t) is None
        }),
{
}

/// While another node holds the lease unexpired, no node can take it, and
/// the lease stays as it is.
pub proof fn held_lease_excludes_others(l: LeaseView, node: Seq<char>, id: Seq<char>, now: u64, lease_ms: u64)
    requires
        held_by_other(l, node, now),
    ensures
        acquired(l, node, id, now, lease_ms) is Err,
{
}

/// Taking the lease moves to a later term, unless the terms have run out.
pub proof fn acquiring_advances_the_term(l: LeaseView, node: Seq<char>, id: Seq<char>, now: u64, lease_ms: u64)
    requires
        acquired(l, node, id, now, lease_ms) is Ok,
        l.term < u64::MAX,
    ensures
        acquired(l, node, id, now, lease_ms)->Ok_0.term == l.term + 1,
{
}

/// No step of the lease goes back to an earlier term: taking, accepting,
/// releasing or clearing it.
pub proof fn lease_terms_never_decrease(l: LeaseView, node: Seq<char>, c: LeaseClaim, now: u64, lease_ms: u64)
    ensures
        acquired(l, node, c.id, now, lease_ms) matches Ok(l2) ==> l2.term >= l.term,
        accepted(l, c, now) matches Ok(l2) ==> l2.term >= l.term,
        released(l, c).term == l.term,
{
}

/// A lease that accepted a claim backs it until the claim's hold ends.
pub proof fn accepted_lease_backs_the_claim(l: LeaseView, c: LeaseClaim, now: u64, t: u64)
    requires
        accepted(l, c, now) is Ok,
        t <= c.expires,
    ensures
        mismatch(accepted(l, c, now)->Ok_0, c, t) is None,
{
}

/// Once a proposal lets its lease go, any node can take the lease.
pub proof fn released_lease_is_free(l: LeaseView, c: LeaseClaim, node: Seq<char>, id: Seq<char>, now: u64, lease_ms: u64)
    requires
        l.term == c.term,
        same_lease(l, c),
    ensures
        acquired(released(l, c), node, id, now, lease_ms) is Ok,
{
}

} // verus!

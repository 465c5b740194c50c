//! Requests that schedule, cancel and fire actor reminders: what a request
//! must give, and the reminder it makes.
use vstd::prelude::*;
use crate::actor::{ActorId, actor_kind_name};
use crate::behavior::ActorKind;
use crate::api_error::{ApiError, ApiErrorKind};
use crate::continuation::{ContinuationParse, RuntimeBehaviorContinuationPayload, continuation_outcome};
use crate::json::{JsonValue, opt_json_view};
use crate::model::ActorReminderDraft;
use crate::reminder_index::ActorReminderEntry;
use crate::runtime::runtime_actor_id;
use crate::text::{chars_of, owned, trim, trim_string};

verus! {

/// A request to schedule a reminder for an actor: at `due_at_ms`, or
/// `delay_ms` after it is accepted. An idempotent request (one a reply
/// makes) that matches a reminder already scheduled is answered with it.
pub struct RuntimeActorReminderScheduleRequest {
    pub kind: ActorKind,
    pub key: String,
    pub reminder_id: Option<String>,
    pub due_at_ms: Option<u64>,
    pub delay_ms: Option<u64>,
    pub payload: Option<JsonValue>,
    pub idempotent: bool,
}

/// When a reminder accepted at `accepted_at_ms` is due: the time given,
/// else the delay after acceptance (staying at the largest time).
pub open spec fn reminder_due(due_at_ms: Option<u64>, delay_ms: Option<u64>, accepted_at_ms: u64) -> Option<u64> {
    match due_at_ms {
        Some(d) => Some(d),
        None => match delay_ms {
            Some(delay) => Some(
                if accepted_at_ms + delay > u64::MAX {
                    u64::MAX
                } else {
                    (accepted_at_ms + delay) as u64
                },
            ),
            None => None,
        },
    }
}

/// The id of a scheduled reminder: the one given, trimmed, unless blank;
/// else `fresh_id`.
pub open spec fn reminder_id_of(given: Option<String>, fresh_id: Seq<char>) -> Seq<char> {
    match given {
        Some(g) => if trim(g@).len() > 0 {
            trim(g@)
        } else {
            fresh_id
        },
        None => fresh_id,
    }
}

/// The error of a schedule request accepted at `accepted_at_ms`, in the
/// order checked: no actor key, no due time, a zero due time, a payload
/// continuation that is refused (`parse` is what reading the payload as one
/// gave).
pub open spec fn schedule_error(
    request: RuntimeActorReminderScheduleRequest,
    accepted_at_ms: u64,
    parse: ContinuationParse,
) -> Option<Seq<char>> {
    if trim(request.key@).len() == 0 {
        Some("key is required"@)
    } else if reminder_due(request.due_at_ms, request.delay_ms, accepted_at_ms) is None {
        Some("dueAtMs or delayMs is required"@)
    } else if reminder_due(request.due_at_ms, request.delay_ms, accepted_at_ms) == Some(0u64) {
        Some("dueAtMs must be greater than zero"@)
    } else if continuation_outcome(parse, accepted_at_ms) is Err {
        Some(continuation_outcome(parse, accepted_at_ms)->Err_0)
    } else {
        None
    }
}

/// The reminder a schedule request makes, accepted at `accepted_at_ms`,
/// with `fresh_id` as its id where it names none; or why it is refused.
pub fn prepare_actor_reminder(
    request: RuntimeActorReminderScheduleRequest,
    accepted_at_ms: u64,
    fresh_id: String,
    parse: ContinuationParse,
) -> (r: Result<(ActorId, ActorReminderDraft), ApiError>)
    ensures
        match r {
            Err(e) => e.kind == ApiErrorKind::BadRequest && schedule_error(request, accepted_at_ms, parse) == Some(
                e.message@,
            ),
            Ok((id, draft)) => {
                &&& schedule_error(request, accepted_at_ms, parse) is None
                &&& id.kind == request.kind
                &&& id.key@ == trim(request.key@)
                &&& draft.actor_kind@ == actor_kind_name(request.kind)
                &&& draft.actor_key@ == trim(request.key@)
                &&& draft.reminder_id@ == reminder_id_of(request.reminder_id, fresh_id@)
                &&& Some(draft.due_at_ms) == reminder_due(request.due_at_ms, request.delay_ms, accepted_at_ms)
                &&& draft.payload == request.payload
            },
        },
{
    let actor_id = match runtime_actor_id(request.kind, request.key) {
        Ok(id) => id,
        Err(e) => {
            return Err(e);
        },
    };
    let reminder_id = match &request.reminder_id {
        Some(g) => {
            let t = trim_string(g.as_str());
            if chars_of(t.as_str()).len() > 0 {
                t
            } else {
                fresh_id
            }
        },
        None => fresh_id,
    };
    let due = match request.due_at_ms {
        Some(d) => d,
        None => match request.delay_ms {
            Some(delay) => accepted_at_ms.saturating_add(delay),
            None => {
                return Err(ApiError::bad_request(owned("dueAtMs or delayMs is required")));
            },
        },
    };
    if due == 0 {
        return Err(ApiError::bad_request(owned("dueAtMs must be greater than zero")));
    }
    match RuntimeBehaviorContinuationPayload::from_reminder_payload(parse, accepted_at_ms) {
        Err(e) => {
            return Err(e);
        },
        Ok(_) => {},
    }
    let draft = ActorReminderDraft {
        actor_kind: actor_id.kind.as_str(),
        actor_key: actor_id.key.clone(),
        reminder_id,
        due_at_ms: due,
        payload: request.payload,
    };
    Ok((actor_id, draft))
}

/// The actor and reminder a cancel request names: the key and reminder id
/// trimmed, neither blank.
pub fn prepare_actor_reminder_cancel(kind: ActorKind, key: String, reminder_id: &str) -> (r: Result<
    (ActorId, String),
    ApiError,
>)
    ensures
        match r {
            Err(e) => e.kind == ApiErrorKind::BadRequest && e.message@ == if trim(key@).len() == 0 {
                "key is required"@
            } else {
                "reminderId is required"@
            } && (trim(key@).len() == 0 || trim(reminder_id@).len() == 0),
            Ok((id, rid)) => trim(key@).len() > 0 && trim(reminder_id@).len() > 0 && id.kind == kind && id.key@
                == trim(key@) && rid@ == trim(reminder_id@),
        },
{
    let actor_id = match runtime_actor_id(kind, key) {
        Ok(id) => id,
        Err(e) => {
            return Err(e);
        },
    };
    let rid = trim_string(reminder_id);
    if chars_of(rid.as_str()).len() == 0 {
        return Err(ApiError::bad_request(owned("reminderId is required")));
    }
    Ok((actor_id, rid))
}

/// How many due reminders one sweep fires at most: the limit asked for
/// (64 by default), at least 1.
pub fn due_reminder_batch_size(limit: Option<usize>) -> (n: usize)
    ensures
        n == match limit {
            Some(l) => if l < 1 { 1 } else { l },
            None => 64,
        },
{
    match limit {
        Some(l) => if l < 1 {
            1
        } else {
            l
        },
        None => 64,
    }
}


/// The due reminders put back after a run of them failed on the one at
/// `failed_at`: that reminder alone. Those before it were fired and stay
/// so; those after it, taken from the queue with the batch, are not put
/// back by the run.
pub fn reminders_to_requeue(due: Vec<ActorReminderEntry>, failed_at: usize) -> (r: Vec<ActorReminderEntry>)
    requires
        failed_at < due@.len(),
    ensures
        r@ == seq![due@[failed_at as int]],
{
    let mut due = due;
    let ghost d0 = due@;
    let n = due.len();
    assert(failed_at + 1 <= n);
    due.truncate(failed_at + 1);
    let last = due.pop().unwrap();
    assert(last == d0[failed_at as int]);
    let mut r: Vec<ActorReminderEntry> = Vec::new();
    r.push(last);
    assert(r@ =~= seq![d0[failed_at as int]]);
    r
}

} // verus!

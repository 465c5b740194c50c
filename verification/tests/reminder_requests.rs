use nextdb_server::behavior::ActorKind;
use nextdb_server::continuation::ContinuationParse;
use nextdb_server::json::JsonValue;
use nextdb_server::reminder_requests::{
    RuntimeActorReminderScheduleRequest, due_reminder_batch_size, prepare_actor_reminder,
    prepare_actor_reminder_cancel, reminders_to_requeue,
};
use nextdb_server::actor::ActorId;
use nextdb_server::reminder_index::ActorReminderEntry;

fn request(key: &str, id: Option<&str>, due: Option<u64>, delay: Option<u64>) -> RuntimeActorReminderScheduleRequest {
    RuntimeActorReminderScheduleRequest {
        kind: ActorKind::Room,
        key: key.to_string(),
        reminder_id: id.map(|s| s.to_string()),
        due_at_ms: due,
        delay_ms: delay,
        payload: Some(JsonValue::Null),
        idempotent: false,
    }
}

#[test]
fn scheduling_makes_a_reminder() {
    let (id, draft) =
        prepare_actor_reminder(request(" room-1 ", Some(" r1 "), None, Some(50)), 1000, "fresh".to_string(), ContinuationParse::NotContinuation)
            .ok()
            .unwrap();
    assert_eq!(id.key, "room-1");
    assert_eq!((draft.actor_kind.as_str(), draft.actor_key.as_str(), draft.reminder_id.as_str()), ("room", "room-1", "r1"));
    assert_eq!(draft.due_at_ms, 1050);
    let (_, draft) =
        prepare_actor_reminder(request("k", Some("  "), Some(7), Some(50)), 1000, "fresh".to_string(), ContinuationParse::NotContinuation)
            .ok()
            .unwrap();
    assert_eq!((draft.reminder_id.as_str(), draft.due_at_ms), ("fresh", 7));
    let (_, draft) =
        prepare_actor_reminder(request("k", None, None, Some(u64::MAX)), 1000, "f".to_string(), ContinuationParse::NotContinuation)
            .ok()
            .unwrap();
    assert_eq!(draft.due_at_ms, u64::MAX);
}

#[test]
fn scheduling_refuses_bad_requests_in_order() {
    let err = |r, p| prepare_actor_reminder(r, 1000, "f".to_string(), p).err().unwrap().message;
    assert_eq!(err(request(" ", None, None, None), ContinuationParse::NotContinuation), "key is required");
    assert_eq!(err(request("k", None, None, None), ContinuationParse::NotContinuation), "dueAtMs or delayMs is required");
    assert_eq!(err(request("k", None, Some(0), None), ContinuationParse::NotContinuation), "dueAtMs must be greater than zero");
    assert_eq!(
        err(request("k", None, Some(5), None), ContinuationParse::Unreadable("missing field".to_string())),
        "invalid behavior continuation payload: missing field"
    );
}

#[test]
fn cancelling_and_sweeping() {
    let (id, rid) = prepare_actor_reminder_cancel(ActorKind::Scope, " s1".to_string(), " r9 ").ok().unwrap();
    assert_eq!((id.key.as_str(), rid.as_str()), ("s1", "r9"));
    assert_eq!(prepare_actor_reminder_cancel(ActorKind::Scope, "s1".to_string(), " ").err().unwrap().message, "reminderId is required");
    assert_eq!(prepare_actor_reminder_cancel(ActorKind::Scope, "".to_string(), "r").err().unwrap().message, "key is required");
    assert_eq!(due_reminder_batch_size(None), 64);
    assert_eq!(due_reminder_batch_size(Some(0)), 1);
    assert_eq!(due_reminder_batch_size(Some(10)), 10);
}

#[test]
fn a_failed_run_puts_back_only_the_reminder_it_failed_on() {
    let entry = |id: &str, due: u64| ActorReminderEntry {
        actor_id: ActorId { kind: ActorKind::Room, key: "room-a".to_string() },
        reminder_id: id.to_string(),
        due_at_ms: due,
    };
    let due = vec![entry("a", 1), entry("b", 2), entry("c", 3)];
    let back = reminders_to_requeue(due, 1);
    assert_eq!(back.len(), 1);
    assert_eq!(back[0].reminder_id, "b");
    assert_eq!(back[0].due_at_ms, 2);
}

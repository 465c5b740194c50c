use nextdb_server::json::JsonValue;
use nextdb_server::model::{Durability, ActorReminderDraft, WalPayload, WalRecord};
use nextdb_server::reminder_index::{
    ActorReminderRecordStatus, actor_reminder_index_from_wal_records,
    actor_reminder_index_key_from_draft, actor_reminder_index_key_from_parts,
};

fn wal_record(lsn: u64, payload: WalPayload) -> WalRecord {
    WalRecord { lsn, shard: 0, shard_epoch: 1, owner_node_id: String::new(), durability: Durability::Strict, timestamp_ms: lsn * 100, payload }
}

fn reminder(reminder_id: &str, due_at_ms: u64) -> ActorReminderDraft {
    ActorReminderDraft {
        actor_kind: "room".to_string(),
        actor_key: "room-a".to_string(),
        reminder_id: reminder_id.to_string(),
        due_at_ms,
        payload: Some(JsonValue::Object(vec![(
            "tick".to_string(),
            JsonValue::String(reminder_id.to_string()),
        )])),
    }
}

#[test]
fn actor_reminder_index_tracks_terminal_status_and_latest_schedule() {
    let cancelled = reminder("cancelled", 1000);
    let fired = reminder("fired", 2000);
    let rescheduled_initial = reminder("rescheduled", 3000);
    let rescheduled_latest = reminder("rescheduled", 4000);
    let records = vec![
        wal_record(1, WalPayload::ActorReminderScheduled { reminder: cancelled.duplicate() }),
        wal_record(
            2,
            WalPayload::ActorReminderCancelled {
                actor_kind: cancelled.actor_kind.clone(),
                actor_key: cancelled.actor_key.clone(),
                reminder_id: cancelled.reminder_id.clone(),
                cancelled_at_ms: 200,
            },
        ),
        wal_record(3, WalPayload::ActorReminderScheduled { reminder: fired.duplicate() }),
        wal_record(
            4,
            WalPayload::ActorReminderFired {
                actor_kind: fired.actor_kind.clone(),
                actor_key: fired.actor_key.clone(),
                reminder_id: fired.reminder_id.clone(),
                due_at_ms: fired.due_at_ms,
                fired_at_ms: 400,
            },
        ),
        wal_record(5, WalPayload::ActorReminderScheduled { reminder: rescheduled_initial }),
        wal_record(6, WalPayload::ActorReminderScheduled { reminder: rescheduled_latest.duplicate() }),
    ];

    let index = actor_reminder_index_from_wal_records(&records);

    assert!(
        index.get(&actor_reminder_index_key_from_draft(&cancelled)).unwrap().status
            == ActorReminderRecordStatus::Cancelled
    );
    assert!(
        index.get(&actor_reminder_index_key_from_draft(&fired)).unwrap().status
            == ActorReminderRecordStatus::Fired
    );
    let rescheduled = index.get(&actor_reminder_index_key_from_draft(&rescheduled_latest)).unwrap();
    assert!(rescheduled.status == ActorReminderRecordStatus::Scheduled);
    assert_eq!(rescheduled.scheduled_lsn, 6);
    assert_eq!(rescheduled.scheduled_at_ms, 600);
    assert_eq!(rescheduled.reminder.due_at_ms, 4000);
}

#[test]
fn actor_reminder_index_orders_entries_by_lsn_before_replaying() {
    let first = reminder("late", 1000);
    let records = vec![
        wal_record(
            9,
            WalPayload::ActorReminderCancelled {
                actor_kind: " room ".to_string(),
                actor_key: "room-a".to_string(),
                reminder_id: "late".to_string(),
                cancelled_at_ms: 900,
            },
        ),
        wal_record(2, WalPayload::ActorReminderScheduled { reminder: first.duplicate() }),
    ];
    let index = actor_reminder_index_from_wal_records(&records);
    let key = actor_reminder_index_key_from_parts("room", "room-a", "late");
    let record = index.get(&key).unwrap();
    assert!(record.status == ActorReminderRecordStatus::Cancelled);
    assert_eq!(record.scheduled_lsn, 2);
}

#[test]
fn the_reminder_index_is_the_same_in_any_order_of_the_log() {
    let first = reminder("r", 1000);
    let second = reminder("r", 2000);
    let fire = |lsn: u64| {
        wal_record(
            lsn,
            WalPayload::ActorReminderFired {
                actor_kind: "room".to_string(),
                actor_key: "room-a".to_string(),
                reminder_id: "r".to_string(),
                due_at_ms: 1000,
                fired_at_ms: lsn * 100,
            },
        )
    };
    let in_order = vec![
        wal_record(1, WalPayload::ActorReminderScheduled { reminder: first.duplicate() }),
        fire(2),
        wal_record(3, WalPayload::ActorReminderScheduled { reminder: second.duplicate() }),
    ];
    let shuffled = vec![
        wal_record(3, WalPayload::ActorReminderScheduled { reminder: second.duplicate() }),
        fire(2),
        wal_record(1, WalPayload::ActorReminderScheduled { reminder: first.duplicate() }),
    ];
    let a = actor_reminder_index_from_wal_records(&in_order);
    let b = actor_reminder_index_from_wal_records(&shuffled);
    let key = actor_reminder_index_key_from_draft(&second);
    let ra = a.get(&key).unwrap();
    let rb = b.get(&key).unwrap();
    assert_eq!(ra.scheduled_lsn, 3);
    assert_eq!(rb.scheduled_lsn, 3);
    assert!(ra.status == ActorReminderRecordStatus::Scheduled);
    assert!(rb.status == ActorReminderRecordStatus::Scheduled);
    assert_eq!(ra.reminder.due_at_ms, rb.reminder.due_at_ms);
}

#[test]
fn each_key_holds_its_highest_schedule_and_only_later_marks_count() {
    let early = reminder("tick", 1000);
    let late = reminder("tick", 5000);
    let records = vec![
        wal_record(8, WalPayload::ActorReminderScheduled { reminder: late.duplicate() }),
        wal_record(
            5,
            WalPayload::ActorReminderCancelled {
                actor_kind: " room ".to_string(),
                actor_key: "room-a".to_string(),
                reminder_id: "tick ".to_string(),
                cancelled_at_ms: 500,
            },
        ),
        wal_record(3, WalPayload::ActorReminderScheduled { reminder: early }),
        wal_record(
            2,
            WalPayload::ActorReminderFired {
                actor_kind: "room".to_string(),
                actor_key: "room-b".to_string(),
                reminder_id: "never".to_string(),
                due_at_ms: 1,
                fired_at_ms: 2,
            },
        ),
    ];
    let index = actor_reminder_index_from_wal_records(&records);
    let record = index.get(&actor_reminder_index_key_from_parts(" room", "room-a ", "tick")).unwrap();
    assert!(record.status == ActorReminderRecordStatus::Scheduled);
    assert_eq!(record.scheduled_lsn, 8);
    assert_eq!(record.scheduled_at_ms, 800);
    assert_eq!(record.reminder.due_at_ms, 5000);
    assert!(index.get(&actor_reminder_index_key_from_parts("room", "room-b", "never")).is_none());

    let mut later = records;
    later.push(wal_record(
        9,
        WalPayload::ActorReminderFired {
            actor_kind: "room".to_string(),
            actor_key: "room-a".to_string(),
            reminder_id: "tick".to_string(),
            due_at_ms: 5000,
            fired_at_ms: 900,
        },
    ));
    let index = actor_reminder_index_from_wal_records(&later);
    let record = index.get(&actor_reminder_index_key_from_parts("room", "room-a", "tick")).unwrap();
    assert!(record.status == ActorReminderRecordStatus::Fired);
    assert_eq!(record.scheduled_lsn, 8);
}

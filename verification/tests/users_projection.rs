use nextdb_server::json::JsonValue;
use nextdb_server::model::{Durability, UserEventDraft, UserProfileDraft, WalPayload, WalRecord};
use nextdb_server::users::{UserProjection, ensure_safe_user_id};
use nextdb_server::util::shard_index;

fn wal(lsn: u64, payload: WalPayload) -> WalRecord {
    WalRecord { lsn, shard: 0, shard_epoch: 1, owner_node_id: String::new(), durability: Durability::Strict, timestamp_ms: lsn, payload }
}

fn profile(user_id: &str, name: &str) -> WalPayload {
    WalPayload::UserUpserted {
        user: UserProfileDraft {
            user_id: user_id.to_string(),
            client_mutation_id: None,
            display_name: Some(name.to_string()),
            metadata: JsonValue::Object(Vec::new()),
            created_at_ms: 1,
            updated_at_ms: 2,
            path: format!("users/{user_id}"),
        },
    }
}

fn event(user_id: &str, id: &str) -> WalPayload {
    WalPayload::UserEventPublished {
        event: UserEventDraft {
            id: id.to_string(),
            user_id: user_id.to_string(),
            name: "ping".to_string(),
            payload: JsonValue::Null,
            created_at_ms: 5,
        },
    }
}

#[test]
fn user_ids_are_short_and_plain() {
    assert!(ensure_safe_user_id("alice-1_b:c.d"));
    assert!(!ensure_safe_user_id(""));
    assert!(!ensure_safe_user_id("a/b"));
    assert!(!ensure_safe_user_id(&"a".repeat(161)));
    assert!(ensure_safe_user_id(&"a".repeat(160)));
}

#[test]
fn projection_keeps_latest_profiles_in_id_order() {
    let records = vec![
        wal(1, profile("carol", "C")),
        wal(2, profile("alice", "A")),
        wal(3, profile("bob", "B")),
        wal(4, profile("alice", "A2")),
    ];
    let projection = UserProjection::from_wal_records(&records);
    let alice = projection.get_user("alice").unwrap();
    assert_eq!(alice.display_name.as_deref(), Some("A2"));
    assert_eq!(alice.lsn, 4);
    assert!(projection.get_user("dave").is_none());

    let page = projection.list_users(None, None, 1, 2);
    let ids: Vec<&str> = page.users.iter().map(|u| u.user_id.as_str()).collect();
    assert_eq!(ids, vec!["alice", "bob"]);
    assert!(page.has_more);
    assert_eq!(page.next_after_user_id.as_deref(), Some("bob"));

    let page = projection.list_users(Some("bob"), None, 1, 2);
    let ids: Vec<&str> = page.users.iter().map(|u| u.user_id.as_str()).collect();
    assert_eq!(ids, vec!["carol"]);
    assert!(!page.has_more);

    let shard = shard_index("alice", 4);
    let page = projection.list_users(None, Some(shard), 4, 10);
    assert!(page.users.iter().all(|u| shard_index(&u.user_id, 4) == shard));
    assert!(page.users.iter().any(|u| u.user_id == "alice"));
}

#[test]
fn events_are_listed_newest_first_once_per_lsn() {
    let mut projection = UserProjection::from_wal_records(&vec![
        wal(3, event("alice", "e3")),
        wal(1, event("alice", "e1")),
        wal(2, event("alice", "e2")),
        wal(9, event("bob", "b9")),
    ]);
    projection.apply_wal_record(&wal(2, event("alice", "dup")));
    let ids: Vec<String> = projection.list_events("alice", None, 10).into_iter().map(|e| e.id).collect();
    assert_eq!(ids, vec!["e3", "e2", "e1"]);
    let ids: Vec<String> = projection.list_events("alice", Some(3), 1).into_iter().map(|e| e.id).collect();
    assert_eq!(ids, vec!["e2"]);
    assert!(projection.list_events("carol", None, 10).is_empty());
    assert!(projection.list_events("alice", None, 0).is_empty());
}

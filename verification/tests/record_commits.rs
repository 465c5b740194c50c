use nextdb_server::api_error::{ApiError, ApiErrorKind};
use nextdb_server::json::{JsonNumber, JsonValue};
use nextdb_server::model::Durability;
use nextdb_server::record_commits::{
    CommittedMutation, DeleteRecordResponse, DurableDelete, MutationKind, UniqueValue, VolatileDelete,
    note_unique_value, plan_durable_record_delete, plan_volatile_record_delete, record_conflicts_with_unique_candidate,
    record_current_for_unique_validation, replay_committed_mutation, unique_index_violation,
};
use nextdb_server::records::DbRecord;

fn err<T>(r: Result<T, ApiError>) -> ApiError {
    match r {
        Err(e) => e,
        Ok(_) => panic!("expected an error"),
    }
}

fn s(v: &str) -> String {
    v.to_string()
}

fn record(key: &str, path: &str, lsn: u64) -> DbRecord {
    DbRecord { table: s("users"), key: s(key), path: s(path), value: JsonValue::Null, lsn }
}

fn num(n: u64) -> JsonValue {
    JsonValue::Number(JsonNumber::PosInt(n))
}

#[test]
fn a_used_client_mutation_id_replays_its_answer() {
    let existing = CommittedMutation::RecordUpserted { record: record("u1", "tables/users/u1", 4) };
    match replay_committed_mutation(Durability::Strict, Some(existing), MutationKind::RecordUpserted) {
        Ok(Some(CommittedMutation::RecordUpserted { record })) => assert_eq!(record.lsn, 4),
        _ => panic!("expected the earlier answer"),
    }
}

#[test]
fn a_client_mutation_id_of_another_kind_is_a_conflict() {
    let existing = CommittedMutation::RecordUpserted { record: record("u1", "tables/users/u1", 4) };
    let e = err(replay_committed_mutation(Durability::Strict, Some(existing), MutationKind::RecordDeleted));
    assert_eq!(e.kind, ApiErrorKind::Conflict);
    assert_eq!(e.message, "clientMutationId was already used for a different mutation kind");
}

#[test]
fn a_volatile_write_replays_nothing() {
    let existing = CommittedMutation::RecordUpserted { record: record("u1", "tables/users/u1", 4) };
    assert!(matches!(
        replay_committed_mutation(Durability::Volatile, Some(existing), MutationKind::RecordDeleted),
        Ok(None)
    ));
    assert!(matches!(replay_committed_mutation(Durability::Strict, None, MutationKind::UserUpserted), Ok(None)));
}

#[test]
fn a_volatile_delete_of_nothing_answers_the_volatile_path() {
    match plan_volatile_record_delete(s("users"), s("u1"), "tables/users/u1", None) {
        VolatileDelete::Answer(DeleteRecordResponse { deleted, lsn, deleted_at_ms, path, .. }) => {
            assert!(!deleted);
            assert_eq!(lsn, 0);
            assert_eq!(deleted_at_ms, None);
            assert_eq!(path, "volatile/tables/users/u1");
        }
        _ => panic!("expected an answer"),
    }
}

#[test]
fn a_volatile_delete_leaves_a_durable_record() {
    let held = record("u1", "tables/users/u1", 9);
    match plan_volatile_record_delete(s("users"), s("u1"), "tables/users/u1", Some(held)) {
        VolatileDelete::Answer(a) => {
            assert!(!a.deleted);
            assert_eq!(a.lsn, 9);
            assert_eq!(a.path, "tables/users/u1");
        }
        _ => panic!("expected an answer"),
    }
    let held = record("u1", "volatile/tables/users/u1", 0);
    match plan_volatile_record_delete(s("users"), s("u1"), "tables/users/u1", Some(held)) {
        VolatileDelete::Delete { path, previous } => {
            assert_eq!(path, "volatile/tables/users/u1");
            assert_eq!(previous.path, "volatile/tables/users/u1");
        }
        _ => panic!("expected a delete"),
    }
}

#[test]
fn a_durable_delete_checks_the_expected_version() {
    let current = record("u1", "tables/users/u1", 5);
    let e = err(plan_durable_record_delete(s("users"), s("u1"), s("tables/users/u1"), Some(current), Some(4), false)
        );
    assert_eq!(e.kind, ApiErrorKind::Conflict);
    assert_eq!(e.message, "record version conflict: expected lsn 4, found 5");
    let current = record("u1", "tables/users/u1", 5);
    match plan_durable_record_delete(s("users"), s("u1"), s("tables/users/u1"), Some(current), Some(5), false) {
        Ok(DurableDelete::Delete { previous }) => assert_eq!(previous.lsn, 5),
        _ => panic!("expected a delete"),
    }
}

#[test]
fn a_durable_delete_of_nothing_records_its_client_mutation_id() {
    assert!(matches!(
        plan_durable_record_delete(s("users"), s("u1"), s("tables/users/u1"), None, None, true),
        Ok(DurableDelete::RecordNoop)
    ));
    match plan_durable_record_delete(s("users"), s("u1"), s("tables/users/u1"), None, Some(0), false) {
        Ok(DurableDelete::Answer(a)) => {
            assert!(!a.deleted);
            assert_eq!(a.lsn, 0);
            assert_eq!(a.path, "tables/users/u1");
        }
        _ => panic!("expected an answer"),
    }
    let e = err(plan_durable_record_delete(s("users"), s("u1"), s("tables/users/u1"), None, Some(3), true));
    assert_eq!(e.message, "record version conflict: expected lsn 3, found 0");
}

#[test]
fn another_record_with_the_same_unique_values_conflicts() {
    let candidate = record("u1", "tables/users/u1", 0);
    let values = vec![JsonValue::String(s("a@example.com"))];
    let existing = record("u2", "tables/users/u2", 3);
    let no: Vec<String> = Vec::new();
    let r = record_conflicts_with_unique_candidate(
        &candidate,
        &values,
        &existing,
        Ok(vec![JsonValue::String(s("a@example.com"))]),
        &no,
        &no,
        &no,
    );
    assert_eq!(r.unwrap(), true);
    let r = record_conflicts_with_unique_candidate(
        &candidate,
        &values,
        &existing,
        Ok(vec![JsonValue::String(s("b@example.com"))]),
        &no,
        &no,
        &no,
    );
    assert_eq!(r.unwrap(), false);
    let deletes = vec![s("users/u2")];
    let r = record_conflicts_with_unique_candidate(
        &candidate,
        &values,
        &existing,
        Ok(vec![JsonValue::String(s("a@example.com"))]),
        &no,
        &deletes,
        &no,
    );
    assert_eq!(r.unwrap(), false);
    let same = record("u1", "tables/users/u1", 3);
    let r = record_conflicts_with_unique_candidate(&candidate, &values, &same, Err(s("bad index")), &no, &no, &no);
    assert_eq!(r.unwrap(), false);
    let e = err(record_conflicts_with_unique_candidate(&candidate, &values, &existing, Err(s("bad index")), &no, &no, &no)
        );
    assert_eq!(e.kind, ApiErrorKind::BadRequest);
    assert_eq!(e.message, "bad index");
}

#[test]
fn two_records_of_one_write_with_the_same_unique_values_conflict() {
    let mut seen: Vec<UniqueValue> = Vec::new();
    assert!(note_unique_value(&mut seen, "users", "email", &vec![num(1)], "u1").is_ok());
    assert!(note_unique_value(&mut seen, "users", "email", &vec![num(1)], "u1").is_ok());
    assert!(note_unique_value(&mut seen, "users", "email", &vec![num(2)], "u2").is_ok());
    assert_eq!(seen.len(), 2);
    let e = err(note_unique_value(&mut seen, "users", "email", &vec![num(1)], "u3"));
    assert_eq!(e.kind, ApiErrorKind::Conflict);
    assert_eq!(e.message, "unique index violation on users.email");
    let e = unique_index_violation("users", "email", "u3");
    assert_eq!(e.message, "unique index violation on users.email for record u3");
}

#[test]
fn a_unique_check_holds_against_the_record_in_memory() {
    let found = record("u2", "tables/users/u2", 3);
    let hot = record("u2", "tables/users/u2", 8);
    assert_eq!(record_current_for_unique_validation(found, Some(Some(hot)), false).unwrap().lsn, 8);
    let found = record("u2", "tables/users/u2", 3);
    assert!(record_current_for_unique_validation(found, Some(None), true).is_none());
    let found = record("u2", "tables/users/u2", 3);
    assert_eq!(record_current_for_unique_validation(found, Some(None), false).unwrap().lsn, 3);
    let found = record("u2", "tables/users/u2", 3);
    assert_eq!(record_current_for_unique_validation(found, None, true).unwrap().lsn, 3);
}

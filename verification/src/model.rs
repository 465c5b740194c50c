//! Write-ahead-log entries and the drafts they carry, as plain values.
use vstd::prelude::*;
use crate::json::{JsonValue, JsonView, json_copy, opt_json_view};
use crate::records::DbRecord;

verus! {

/// A record as a write carries it, before the log assigns its LSN.
pub struct DbRecordDraft {
    pub table: String,
    pub key: String,
    pub path: String,
    pub value: JsonValue,
}

impl DbRecordDraft {
    pub open spec fn into_record_spec(self, lsn: u64) -> DbRecord {
        DbRecord { table: self.table, key: self.key, path: self.path, value: self.value, lsn }
    }

    /// The record that the draft becomes at log position `lsn`.
    pub fn into_record(self, lsn: u64) -> (r: DbRecord)
        ensures
            r == self.into_record_spec(lsn),
    {
        DbRecord { table: self.table, key: self.key, path: self.path, value: self.value, lsn }
    }
}

/// A record deletion as a write carries it.
pub struct DbRecordDeleteDraft {
    pub table: String,
    pub key: String,
    pub deleted_at_ms: u64,
    pub path: String,
    pub client_mutation_id: Option<String>,
}

pub enum DbRecordMutationDraft {
    Upsert { record: DbRecordDraft },
    Delete { record: DbRecordDeleteDraft },
}

/// An actor reminder as it is scheduled.
pub struct ActorReminderDraft {
    pub actor_kind: String,
    pub actor_key: String,
    pub reminder_id: String,
    pub due_at_ms: u64,
    pub payload: Option<JsonValue>,
}

/// The value of an actor reminder draft.
pub struct ActorReminderDraftView {
    pub actor_kind: Seq<char>,
    pub actor_key: Seq<char>,
    pub reminder_id: Seq<char>,
    pub due_at_ms: u64,
    pub payload: Option<JsonView>,
}

impl View for ActorReminderDraft {
    type V = ActorReminderDraftView;

    open spec fn view(&self) -> ActorReminderDraftView {
        ActorReminderDraftView {
            actor_kind: self.actor_kind@,
            actor_key: self.actor_key@,
            reminder_id: self.reminder_id@,
            due_at_ms: self.due_at_ms,
            payload: opt_json_view(self.payload),
        }
    }
}

impl ActorReminderDraft {
    /// A copy of the draft.
    pub fn duplicate(&self) -> (r: ActorReminderDraft)
        ensures
            r@ == self@,
    {
        ActorReminderDraft {
            actor_kind: self.actor_kind.clone(),
            actor_key: self.actor_key.clone(),
            reminder_id: self.reminder_id.clone(),
            due_at_ms: self.due_at_ms,
            payload: match &self.payload {
                Some(p) => Some(json_copy(p)),
                None => None,
            },
        }
    }
}

pub struct UserProfileDraft {
    pub user_id: String,
    pub client_mutation_id: Option<String>,
    pub display_name: Option<String>,
    pub metadata: JsonValue,
    pub created_at_ms: u64,
    pub updated_at_ms: u64,
    pub path: String,
}

pub struct UserProfile {
    pub user_id: String,
    pub display_name: Option<String>,
    pub metadata: JsonValue,
    pub created_at_ms: u64,
    pub updated_at_ms: u64,
    pub path: String,
    pub lsn: u64,
}

impl UserProfileDraft {
    pub open spec fn into_profile_spec(self, lsn: u64) -> UserProfile {
        UserProfile {
            user_id: self.user_id,
            display_name: self.display_name,
            metadata: self.metadata,
            created_at_ms: self.created_at_ms,
            updated_at_ms: self.updated_at_ms,
            path: self.path,
            lsn,
        }
    }

    /// The profile that the draft becomes at log position `lsn`.
    pub fn into_profile(self, lsn: u64) -> (p: UserProfile)
        ensures
            p == self.into_profile_spec(lsn),
    {
        UserProfile {
            user_id: self.user_id,
            display_name: self.display_name,
            metadata: self.metadata,
            created_at_ms: self.created_at_ms,
            updated_at_ms: self.updated_at_ms,
            path: self.path,
            lsn,
        }
    }
}

/// The value of a user profile.
pub struct UserProfileView {
    pub user_id: Seq<char>,
    pub display_name: Option<Seq<char>>,
    pub metadata: JsonView,
    pub created_at_ms: u64,
    pub updated_at_ms: u64,
    pub path: Seq<char>,
    pub lsn: u64,
}

pub open spec fn opt_str_view(o: Option<String>) -> Option<Seq<char>> {
    match o {
        Some(s) => Some(s@),
        None => None,
    }
}

impl View for UserProfile {
    type V = UserProfileView;

    open spec fn view(&self) -> UserProfileView {
        UserProfileView {
            user_id: self.user_id@,
            display_name: opt_str_view(self.display_name),
            metadata: self.metadata@,
            created_at_ms: self.created_at_ms,
            updated_at_ms: self.updated_at_ms,
            path: self.path@,
            lsn: self.lsn,
        }
    }
}

fn opt_string_copy(o: &Option<String>) -> (r: Option<String>)
    ensures
        r == *o,
{
    match o {
        Some(s) => Some(s.clone()),
        None => None,
    }
}

impl UserProfile {
    pub fn duplicate(&self) -> (r: UserProfile)
        ensures
            r@ == self@,
    {
        UserProfile {
            user_id: self.user_id.clone(),
            display_name: opt_string_copy(&self.display_name),
            metadata: json_copy(&self.metadata),
            created_at_ms: self.created_at_ms,
            updated_at_ms: self.updated_at_ms,
            path: self.path.clone(),
            lsn: self.lsn,
        }
    }
}

impl UserProfileDraft {
    pub fn duplicate(&self) -> (r: UserProfileDraft)
        ensures
            r.user_id == self.user_id,
            r.client_mutation_id == self.client_mutation_id,
            r.display_name == self.display_name,
            r.metadata@ == self.metadata@,
            r.created_at_ms == self.created_at_ms,
            r.updated_at_ms == self.updated_at_ms,
            r.path == self.path,
    {
        UserProfileDraft {
            user_id: self.user_id.clone(),
            client_mutation_id: opt_string_copy(&self.client_mutation_id),
            display_name: opt_string_copy(&self.display_name),
            metadata: json_copy(&self.metadata),
            created_at_ms: self.created_at_ms,
            updated_at_ms: self.updated_at_ms,
            path: self.path.clone(),
        }
    }
}

pub struct UserEventDraft {
    pub id: String,
    pub user_id: String,
    pub name: String,
    pub payload: JsonValue,
    pub created_at_ms: u64,
}

pub struct UserEvent {
    pub id: String,
    pub user_id: String,
    pub name: String,
    pub payload: JsonValue,
    pub created_at_ms: u64,
    pub lsn: u64,
}

impl UserEventDraft {
    pub open spec fn into_event_spec(self, lsn: u64) -> UserEvent {
        UserEvent {
            id: self.id,
            user_id: self.user_id,
            name: self.name,
            payload: self.payload,
            created_at_ms: self.created_at_ms,
            lsn,
        }
    }

    /// The event that the draft becomes at log position `lsn`.
    pub fn into_event(self, lsn: u64) -> (e: UserEvent)
        ensures
            e == self.into_event_spec(lsn),
    {
        UserEvent {
            id: self.id,
            user_id: self.user_id,
            name: self.name,
            payload: self.payload,
            created_at_ms: self.created_at_ms,
            lsn,
        }
    }

    pub fn duplicate(&self) -> (r: UserEventDraft)
        ensures
            r.id == self.id,
            r.user_id == self.user_id,
            r.name == self.name,
            r.payload@ == self.payload@,
            r.created_at_ms == self.created_at_ms,
    {
        UserEventDraft {
            id: self.id.clone(),
            user_id: self.user_id.clone(),
            name: self.name.clone(),
            payload: json_copy(&self.payload),
            created_at_ms: self.created_at_ms,
        }
    }
}

/// The value of a user event.
pub struct UserEventView {
    pub id: Seq<char>,
    pub user_id: Seq<char>,
    pub name: Seq<char>,
    pub payload: JsonView,
    pub created_at_ms: u64,
    pub lsn: u64,
}

impl View for UserEvent {
    type V = UserEventView;

    open spec fn view(&self) -> UserEventView {
        UserEventView {
            id: self.id@,
            user_id: self.user_id@,
            name: self.name@,
            payload: self.payload@,
            created_at_ms: self.created_at_ms,
            lsn: self.lsn,
        }
    }
}

impl UserEvent {
    pub fn duplicate(&self) -> (r: UserEvent)
        ensures
            r@ == self@,
    {
        UserEvent {
            id: self.id.clone(),
            user_id: self.user_id.clone(),
            name: self.name.clone(),
            payload: json_copy(&self.payload),
            created_at_ms: self.created_at_ms,
            lsn: self.lsn,
        }
    }
}

/// A chat message as a write carries it, before the log assigns its LSN.
pub struct MessageDraft {
    pub id: String,
    pub room_id: String,
    pub sender_id: String,
    pub body: String,
    pub attachments: Vec<JsonValue>,
    pub created_at_ms: u64,
    pub path: String,
}

/// A chat message.
pub struct Message {
    pub id: String,
    pub room_id: String,
    pub sender_id: String,
    pub body: String,
    pub attachments: Vec<JsonValue>,
    pub created_at_ms: u64,
    pub lsn: u64,
    pub path: String,
}

impl MessageDraft {
    pub open spec fn into_message_spec(self, lsn: u64) -> Message {
        Message {
            id: self.id,
            room_id: self.room_id,
            sender_id: self.sender_id,
            body: self.body,
            attachments: self.attachments,
            created_at_ms: self.created_at_ms,
            lsn,
            path: self.path,
        }
    }

    /// The message that the draft becomes at log position `lsn`.
    pub fn into_message(self, lsn: u64) -> (m: Message)
        ensures
            m == self.into_message_spec(lsn),
    {
        Message {
            id: self.id,
            room_id: self.room_id,
            sender_id: self.sender_id,
            body: self.body,
            attachments: self.attachments,
            created_at_ms: self.created_at_ms,
            lsn,
            path: self.path,
        }
    }
}

/// The payload of a log entry. `Other` stands for the payload kinds that no
/// function of this library reads (behavior publications, host HTTP requests
/// and client mutations).
pub enum WalPayload {
    MessageCreated { message: MessageDraft },
    /// A stored object; its metadata as the log wrote it.
    ObjectCommitted { object: JsonValue },
    ObjectDeleted { object_id: String, deleted_at_ms: u64, path: String, force: bool },
    RecordUpserted { record: DbRecordDraft },
    RecordDeleted { record: DbRecordDeleteDraft },
    RecordTransactionCommitted { operations: Vec<DbRecordMutationDraft> },
    ActorReminderScheduled { reminder: ActorReminderDraft },
    ActorReminderCancelled { actor_kind: String, actor_key: String, reminder_id: String, cancelled_at_ms: u64 },
    ActorReminderFired {
        actor_kind: String,
        actor_key: String,
        reminder_id: String,
        due_at_ms: u64,
        fired_at_ms: u64,
    },
    UserUpserted { user: UserProfileDraft },
    UserEventPublished { event: UserEventDraft },
    /// A new database schema and the migration that led to it, each as the
    /// log wrote it.
    SchemaApplied { schema: JsonValue, migration: JsonValue },
    Other,
}

/// An event delivered to a subscriber.
pub enum DeliveryEvent {
    MessageCreated { room_id: String, message: Message },
    UserEvent { user_id: String, event: UserEvent },
    UserUpserted { user_id: String, user: UserProfile },
    RecordUpserted { table: String, key: String, record: DbRecord },
    RecordDeleted {
        table: String,
        key: String,
        deleted_at_ms: u64,
        lsn: u64,
        path: String,
        previous_record: Option<DbRecord>,
    },
    ObjectCommitted { object: JsonValue, lsn: u64 },
    ObjectDeleted { object_id: String, deleted_at_ms: u64, lsn: u64, path: String, force: bool },
}

/// How a log entry is kept: written to the log, or held in memory only.
#[derive(PartialEq, Eq, Structural, Clone, Copy, Debug)]
pub enum Durability {
    Strict,
    Volatile,
}

/// A log entry: its LSN, the shard and epoch it was written under, the node
/// that owned the shard then (empty where unknown), and what it records.
pub struct WalRecord {
    pub lsn: u64,
    pub shard: usize,
    pub shard_epoch: u64,
    pub owner_node_id: String,
    pub durability: Durability,
    pub timestamp_ms: u64,
    pub payload: WalPayload,
}

} // verus!

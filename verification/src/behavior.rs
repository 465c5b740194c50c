//! Behavior manifests: the capabilities and scopes they grant, the read plans
//! and host commands a behavior may use, and the checks between them.
use vstd::prelude::*;
use crate::error::BehaviorError;
use crate::json::JsonValue;
use crate::scopes::{
    either, ensure_scope_contains, ensure_wildcard_scope_contains, msg_not_allowed,
    scope_contains, scope_list_outcome, star, validate_scope_list,
    validate_wildcard_scope_list, views, wildcard_list_outcome, wildcard_scope_contains,
    result_matches,
};

verus! {

/// Whether an optional check passed: the error it gives, if any.
pub open spec fn check(ok: bool, message: Seq<char>) -> Option<Seq<char>> {
    if ok {
        None
    } else {
        Some(message)
    }
}

pub struct BehaviorRecordScopes {
    pub read: Vec<String>,
    pub write: Vec<String>,
    pub nested_read: Vec<String>,
    pub nested_write: Vec<String>,
}

pub struct BehaviorObjectScopes {
    pub read: Vec<String>,
    pub write: Vec<String>,
}

pub struct BehaviorRealtimeScopes {
    pub read: Vec<String>,
    pub write: Vec<String>,
}

pub struct BehaviorConnectionScopes {
    pub read: Vec<String>,
    pub write: Vec<String>,
}

pub struct BehaviorUserScopes {
    pub read: Vec<String>,
    pub publish: Vec<String>,
}

pub struct BehaviorEventScopes {
    pub publish: Vec<String>,
    pub realtime_broadcast: Vec<String>,
}

pub struct BehaviorHostHttpScopes {
    pub allow_url_prefixes: Vec<String>,
}

impl BehaviorRecordScopes {
    pub open spec fn validate_outcome(&self) -> Option<Seq<char>> {
        either(
            scope_list_outcome("recordScopes.read"@, views(self.read@)),
            either(
                scope_list_outcome("recordScopes.write"@, views(self.write@)),
                either(
                    scope_list_outcome("recordScopes.nestedRead"@, views(self.nested_read@)),
                    scope_list_outcome("recordScopes.nestedWrite"@, views(self.nested_write@)),
                ),
            ),
        )
    }

    pub open spec fn table_read_error(&self, behavior: Seq<char>, table: Seq<char>) -> Option<
        Seq<char>,
    > {
        check(
            scope_contains(views(self.read@), table),
            msg_not_allowed(behavior, "read table"@, table),
        )
    }

    pub open spec fn table_write_error(&self, behavior: Seq<char>, table: Seq<char>) -> Option<
        Seq<char>,
    > {
        check(
            scope_contains(views(self.write@), table),
            msg_not_allowed(behavior, "write table"@, table),
        )
    }

    pub open spec fn nested_read_error(&self, behavior: Seq<char>, nested: Seq<char>) -> Option<
        Seq<char>,
    > {
        check(
            scope_contains(views(self.nested_read@), nested),
            msg_not_allowed(behavior, "read nested table"@, nested),
        )
    }

    pub open spec fn nested_write_error(&self, behavior: Seq<char>, nested: Seq<char>) -> Option<
        Seq<char>,
    > {
        check(
            scope_contains(views(self.nested_write@), nested),
            msg_not_allowed(behavior, "write nested table"@, nested),
        )
    }

    /// Each list holds no blank entry and no entry twice.
    pub fn validate(&self) -> (r: Result<(), BehaviorError>)
        ensures
            result_matches(r, self.validate_outcome()),
    {
        validate_scope_list("recordScopes.read", self.read.as_slice())?;
        validate_scope_list("recordScopes.write", self.write.as_slice())?;
        validate_scope_list("recordScopes.nestedRead", self.nested_read.as_slice())?;
        validate_scope_list("recordScopes.nestedWrite", self.nested_write.as_slice())?;
        Ok(())
    }

    pub fn ensure_table_read(&self, behavior: &str, table: &str) -> (r: Result<(), BehaviorError>)
        ensures
            result_matches(r, self.table_read_error(behavior@, table@)),
    {
        ensure_scope_contains(behavior, "read table", table, self.read.as_slice())
    }

    pub fn ensure_table_write(&self, behavior: &str, table: &str) -> (r: Result<(), BehaviorError>)
        ensures
            result_matches(r, self.table_write_error(behavior@, table@)),
    {
        ensure_scope_contains(behavior, "write table", table, self.write.as_slice())
    }

    pub fn ensure_nested_read(&self, behavior: &str, nested: &str) -> (r: Result<(), BehaviorError>)
        ensures
            result_matches(r, self.nested_read_error(behavior@, nested@)),
    {
        ensure_scope_contains(behavior, "read nested table", nested, self.nested_read.as_slice())
    }

    pub fn ensure_nested_write(&self, behavior: &str, nested: &str) -> (r: Result<
        (),
        BehaviorError,
    >)
        ensures
            result_matches(r, self.nested_write_error(behavior@, nested@)),
    {
        ensure_scope_contains(behavior, "write nested table", nested, self.nested_write.as_slice())
    }
}


/// Whether a plain list holds the entry `*` (compared exactly).
pub open spec fn lists_star(values: Seq<String>) -> bool {
    views(values).contains(star())
}

fn has_star_entry(values: &[String]) -> (r: bool)
    ensures
        r == lists_star(values@),
{
    let mut i: usize = 0;
    while i < values.len()
        invariant
            i <= values@.len(),
            forall|k: int| 0 <= k < i ==> values@[k]@ != star(),
        decreases values@.len() - i,
    {
        let v = crate::text::chars_of(values[i].as_str());
        if v.len() == 1 && v[0] == '*' {
            assert(v@ =~= star());
            assert(views(values@)[i as int] == star());
            return true;
        }
        proof {
            if v@ == star() {
                assert(v@[0] == '*');
            }
        }
        i = i + 1;
    }
    proof {
        assert forall|k: int| 0 <= k < views(values@).len() implies views(values@)[k] != star() by {
            assert(views(values@)[k] == values@[k]@);
        }
    }
    false
}

pub open spec fn wildcard_error(
    allowed: Seq<String>,
    behavior: Seq<char>,
    action: Seq<char>,
    value: Seq<char>,
) -> Option<Seq<char>> {
    check(wildcard_scope_contains(views(allowed), value), msg_not_allowed(behavior, action, value))
}

impl BehaviorObjectScopes {
    pub open spec fn validate_outcome(&self) -> Option<Seq<char>> {
        either(
            wildcard_list_outcome("objectScopes.read"@, views(self.read@)),
            wildcard_list_outcome("objectScopes.write"@, views(self.write@)),
        )
    }

    pub open spec fn object_write_optional_error(&self, behavior: Seq<char>, object_id: Option<Seq<char>>) -> Option<Seq<char>> {
        match object_id {
            Some(id) => wildcard_error(self.write@, behavior, "write object"@, id),
            None => check(
                lists_star(self.write@),
                "behavior '"@ + behavior
                    + "' is not allowed to write generated object ids without objectScopes.write '*'"@,
            ),
        }
    }

    pub fn validate(&self) -> (r: Result<(), BehaviorError>)
        ensures
            result_matches(r, self.validate_outcome()),
    {
        validate_wildcard_scope_list("objectScopes.read", self.read.as_slice())?;
        validate_wildcard_scope_list("objectScopes.write", self.write.as_slice())?;
        Ok(())
    }

    pub fn ensure_object_read(&self, behavior: &str, object_id: &str) -> (r: Result<(), BehaviorError>)
        ensures
            result_matches(r, wildcard_error(self.read@, behavior@, "read object"@, object_id@)),
    {
        ensure_wildcard_scope_contains(behavior, "read object", object_id, self.read.as_slice())
    }

    pub fn ensure_object_write(&self, behavior: &str, object_id: &str) -> (r: Result<(), BehaviorError>)
        ensures
            result_matches(r, wildcard_error(self.write@, behavior@, "write object"@, object_id@)),
    {
        ensure_wildcard_scope_contains(behavior, "write object", object_id, self.write.as_slice())
    }

    /// A generated object id (`None`) needs the write entry `*`.
    pub fn ensure_object_write_optional(&self, behavior: &str, object_id: Option<&str>) -> (r: Result<
        (),
        BehaviorError,
    >)
        ensures
            result_matches(r, self.object_write_optional_error(behavior@, opt_view(object_id))),
    {
        match object_id {
            Some(object_id) => self.ensure_object_write(behavior, object_id),
            None => {
                if has_star_entry(self.write.as_slice()) {
                    Ok(())
                } else {
                    Err(
                        BehaviorError::new(
                            crate::text::cat3(
                                "behavior '",
                                behavior,
                                "' is not allowed to write generated object ids without objectScopes.write '*'",
                            ),
                        ),
                    )
                }
            },
        }
    }
}

/// The view of an optional string slice.
pub open spec fn opt_view(v: Option<&str>) -> Option<Seq<char>> {
    match v {
        Some(s) => Some(s@),
        None => None,
    }
}

impl BehaviorRealtimeScopes {
    pub open spec fn validate_outcome(&self) -> Option<Seq<char>> {
        either(
            wildcard_list_outcome("realtimeScopes.read"@, views(self.read@)),
            wildcard_list_outcome("realtimeScopes.write"@, views(self.write@)),
        )
    }

    pub fn validate(&self) -> (r: Result<(), BehaviorError>)
        ensures
            result_matches(r, self.validate_outcome()),
    {
        validate_wildcard_scope_list("realtimeScopes.read", self.read.as_slice())?;
        validate_wildcard_scope_list("realtimeScopes.write", self.write.as_slice())?;
        Ok(())
    }

    pub fn ensure_channel_read(&self, behavior: &str, channel_id: &str) -> (r: Result<(), BehaviorError>)
        ensures
            result_matches(r, wildcard_error(self.read@, behavior@, "read realtime channel"@, channel_id@)),
    {
        ensure_wildcard_scope_contains(behavior, "read realtime channel", channel_id, self.read.as_slice())
    }

    pub fn ensure_channel_write(&self, behavior: &str, channel_id: &str) -> (r: Result<(), BehaviorError>)
        ensures
            result_matches(r, wildcard_error(self.write@, behavior@, "write realtime channel"@, channel_id@)),
    {
        ensure_wildcard_scope_contains(behavior, "write realtime channel", channel_id, self.write.as_slice())
    }
}

impl BehaviorConnectionScopes {
    pub open spec fn validate_outcome(&self) -> Option<Seq<char>> {
        either(
            wildcard_list_outcome("connectionScopes.read"@, views(self.read@)),
            wildcard_list_outcome("connectionScopes.write"@, views(self.write@)),
        )
    }

    pub open spec fn user_read_error(&self, behavior: Seq<char>, user_id: Option<Seq<char>>) -> Option<Seq<char>> {
        match user_id {
            Some(id) => wildcard_error(self.read@, behavior, "read connection sessions for user"@, id),
            None => check(
                lists_star(self.read@),
                "behavior '"@ + behavior
                    + "' is not allowed to read all connection sessions without connectionScopes.read '*'"@,
            ),
        }
    }

    pub open spec fn user_write_error(&self, behavior: Seq<char>, user_id: Option<Seq<char>>) -> Option<Seq<char>> {
        match user_id {
            Some(id) => wildcard_error(self.write@, behavior, "write connection sessions for user"@, id),
            None => check(
                lists_star(self.write@),
                "behavior '"@ + behavior
                    + "' is not allowed to write all connection sessions without connectionScopes.write '*'"@,
            ),
        }
    }

    pub fn validate(&self) -> (r: Result<(), BehaviorError>)
        ensures
            result_matches(r, self.validate_outcome()),
    {
        validate_wildcard_scope_list("connectionScopes.read", self.read.as_slice())?;
        validate_wildcard_scope_list("connectionScopes.write", self.write.as_slice())?;
        Ok(())
    }

    /// Reading the sessions of all users (`None`) needs the read entry `*`.
    pub fn ensure_user_read(&self, behavior: &str, user_id: Option<&str>) -> (r: Result<(), BehaviorError>)
        ensures
            result_matches(r, self.user_read_error(behavior@, opt_view(user_id))),
    {
        match user_id {
            Some(user_id) => ensure_wildcard_scope_contains(
                behavior,
                "read connection sessions for user",
                user_id,
                self.read.as_slice(),
            ),
            None => {
                if has_star_entry(self.read.as_slice()) {
                    Ok(())
                } else {
                    Err(
                        BehaviorError::new(
                            crate::text::cat3(
                                "behavior '",
                                behavior,
                                "' is not allowed to read all connection sessions without connectionScopes.read '*'",
                            ),
                        ),
                    )
                }
            },
        }
    }

    /// Writing the sessions of all users (`None`) needs the write entry `*`.
    pub fn ensure_user_write(&self, behavior: &str, user_id: Option<&str>) -> (r: Result<(), BehaviorError>)
        ensures
            result_matches(r, self.user_write_error(behavior@, opt_view(user_id))),
    {
        match user_id {
            Some(user_id) => ensure_wildcard_scope_contains(
                behavior,
                "write connection sessions for user",
                user_id,
                self.write.as_slice(),
            ),
            None => {
                if has_star_entry(self.write.as_slice()) {
                    Ok(())
                } else {
                    Err(
                        BehaviorError::new(
                            crate::text::cat3(
                                "behavior '",
                                behavior,
                                "' is not allowed to write all connection sessions without connectionScopes.write '*'",
                            ),
                        ),
                    )
                }
            },
        }
    }
}

impl BehaviorUserScopes {
    pub open spec fn validate_outcome(&self) -> Option<Seq<char>> {
        either(
            wildcard_list_outcome("userScopes.read"@, views(self.read@)),
            wildcard_list_outcome("userScopes.publish"@, views(self.publish@)),
        )
    }

    pub fn validate(&self) -> (r: Result<(), BehaviorError>)
        ensures
            result_matches(r, self.validate_outcome()),
    {
        validate_wildcard_scope_list("userScopes.read", self.read.as_slice())?;
        validate_wildcard_scope_list("userScopes.publish", self.publish.as_slice())?;
        Ok(())
    }

    pub fn ensure_read(&self, behavior: &str, user_id: &str) -> (r: Result<(), BehaviorError>)
        ensures
            result_matches(r, wildcard_error(self.read@, behavior@, "read user audit"@, user_id@)),
    {
        ensure_wildcard_scope_contains(behavior, "read user audit", user_id, self.read.as_slice())
    }

    pub fn ensure_publish(&self, behavior: &str, user_id: &str) -> (r: Result<(), BehaviorError>)
        ensures
            result_matches(r, wildcard_error(self.publish@, behavior@, "publish user event to user"@, user_id@)),
    {
        ensure_wildcard_scope_contains(behavior, "publish user event to user", user_id, self.publish.as_slice())
    }
}

impl BehaviorEventScopes {
    pub open spec fn validate_outcome(&self) -> Option<Seq<char>> {
        either(
            wildcard_list_outcome("eventScopes.publish"@, views(self.publish@)),
            wildcard_list_outcome("eventScopes.realtimeBroadcast"@, views(self.realtime_broadcast@)),
        )
    }

    pub fn validate(&self) -> (r: Result<(), BehaviorError>)
        ensures
            result_matches(r, self.validate_outcome()),
    {
        validate_wildcard_scope_list("eventScopes.publish", self.publish.as_slice())?;
        validate_wildcard_scope_list("eventScopes.realtimeBroadcast", self.realtime_broadcast.as_slice())?;
        Ok(())
    }

    pub fn ensure_publish(&self, behavior: &str, name: &str) -> (r: Result<(), BehaviorError>)
        ensures
            result_matches(r, wildcard_error(self.publish@, behavior@, "publish event"@, name@)),
    {
        ensure_wildcard_scope_contains(behavior, "publish event", name, self.publish.as_slice())
    }

    pub fn ensure_realtime_broadcast(&self, behavior: &str, kind: &str) -> (r: Result<(), BehaviorError>)
        ensures
            result_matches(r, wildcard_error(self.realtime_broadcast@, behavior@, "broadcast realtime event"@, kind@)),
    {
        ensure_wildcard_scope_contains(behavior, "broadcast realtime event", kind, self.realtime_broadcast.as_slice())
    }
}

pub open spec fn msg_prefix_empty() -> Seq<char> {
    "behavior manifest hostHttpScopes.allowUrlPrefixes must not be empty"@
}

pub open spec fn msg_prefix_empty_value() -> Seq<char> {
    "behavior manifest hostHttpScopes.allowUrlPrefixes must not contain empty values"@
}

pub open spec fn msg_prefix_scheme(prefix: Seq<char>) -> Seq<char> {
    "behavior manifest hostHttpScopes.allowUrlPrefixes value '"@ + prefix
        + "' must start with http:// or https://"@
}

pub open spec fn msg_prefix_duplicate(prefix: Seq<char>) -> Seq<char> {
    "behavior manifest hostHttpScopes.allowUrlPrefixes contains duplicate value '"@ + prefix + "'"@
}

/// What is wrong with URL prefix `i`, if anything.
pub open spec fn url_prefix_error(prefixes: Seq<Seq<char>>, i: int) -> Option<Seq<char>> {
    let p = prefixes[i];
    if crate::text::blank(p) {
        Some(msg_prefix_empty_value())
    } else if !crate::text::starts_with(p, "https://"@) && !crate::text::starts_with(p, "http://"@) {
        Some(msg_prefix_scheme(p))
    } else if prefixes.subrange(0, i).contains(p) {
        Some(msg_prefix_duplicate(p))
    } else {
        None
    }
}

impl BehaviorHostHttpScopes {
    pub open spec fn validate_outcome(&self) -> Option<Seq<char>> {
        if self.allow_url_prefixes@.len() == 0 {
            Some(msg_prefix_empty())
        } else {
            crate::scopes::first_error(
                |i: int| url_prefix_error(views(self.allow_url_prefixes@), i),
                self.allow_url_prefixes@.len() as int,
            )
        }
    }

    /// Some allowed prefix begins `url`.
    pub open spec fn url_allowed(&self, url: Seq<char>) -> bool {
        exists|i: int|
            0 <= i < self.allow_url_prefixes@.len() && crate::text::starts_with(
                url,
                #[trigger] self.allow_url_prefixes@[i]@,
            )
    }

    /// The prefix list is non-empty; each prefix is non-blank, starts with
    /// `http://` or `https://`, and occurs once.
    pub fn validate(&self) -> (r: Result<(), BehaviorError>)
        ensures
            result_matches(r, self.validate_outcome()),
    {
        let prefixes = self.allow_url_prefixes.as_slice();
        if prefixes.len() == 0 {
            return Err(
                BehaviorError::new(
                    crate::text::owned("behavior manifest hostHttpScopes.allowUrlPrefixes must not be empty"),
                ),
            );
        }
        let https = crate::text::chars_of("https://");
        let http = crate::text::chars_of("http://");
        let ghost errs = |i: int| url_prefix_error(views(prefixes@), i);
        let mut i: usize = 0;
        while i < prefixes.len()
            invariant
                i <= prefixes@.len(),
                prefixes@ == self.allow_url_prefixes@,
                https@ == "https://"@,
                http@ == "http://"@,
                errs == (|i: int| url_prefix_error(views(prefixes@), i)),
                crate::scopes::first_error(errs, i as int) is None,
            decreases prefixes@.len() - i,
        {
            let p = crate::text::chars_of(prefixes[i].as_str());
            assert(views(prefixes@)[i as int] == prefixes@[i as int]@);
            let err: Option<String> = if crate::text::chars_blank(p.as_slice()) {
                Some(
                    crate::text::owned("behavior manifest hostHttpScopes.allowUrlPrefixes must not contain empty values"),
                )
            } else if !crate::text::chars_starts_with(p.as_slice(), https.as_slice())
                && !crate::text::chars_starts_with(p.as_slice(), http.as_slice()) {
                Some(
                    crate::text::cat3(
                        "behavior manifest hostHttpScopes.allowUrlPrefixes value '",
                        prefixes[i].as_str(),
                        "' must start with http:// or https://",
                    ),
                )
            } else if crate::scopes::occurs_before(prefixes, i) {
                Some(
                    crate::text::cat3(
                        "behavior manifest hostHttpScopes.allowUrlPrefixes contains duplicate value '",
                        prefixes[i].as_str(),
                        "'",
                    ),
                )
            } else {
                None
            };
            match err {
                Some(m) => {
                    proof {
                        crate::scopes::lemma_first_error_stable(errs, i + 1, prefixes@.len() as int);
                    }
                    return Err(BehaviorError::new(m));
                },
                None => {},
            }
            i = i + 1;
        }
        Ok(())
    }

    pub open spec fn url_error(&self, behavior: Seq<char>, url: Seq<char>) -> Option<Seq<char>> {
        check(
            self.url_allowed(url),
            "behavior '"@ + behavior + "' is not allowed to request host HTTP URL '"@ + url + "'"@,
        )
    }

    /// Accepts `url` when it begins with one of the allowed prefixes.
    pub fn ensure_url_allowed(&self, behavior: &str, url: &str) -> (r: Result<(), BehaviorError>)
        ensures
            result_matches(r, self.url_error(behavior@, url@)),
    {
        let u = crate::text::chars_of(url);
        let mut i: usize = 0;
        while i < self.allow_url_prefixes.len()
            invariant
                i <= self.allow_url_prefixes@.len(),
                u@ == url@,
                forall|k: int|
                    0 <= k < i ==> !crate::text::starts_with(url@, #[trigger] self.allow_url_prefixes@[k]@),
            decreases self.allow_url_prefixes@.len() - i,
        {
            let p = crate::text::chars_of(self.allow_url_prefixes[i].as_str());
            if crate::text::chars_starts_with(u.as_slice(), p.as_slice()) {
                return Ok(());
            }
            i = i + 1;
        }
        Err(
            BehaviorError::new(
                crate::text::cat5(
                    "behavior '",
                    behavior,
                    "' is not allowed to request host HTTP URL '",
                    url,
                    "'",
                ),
            ),
        )
    }
}


#[derive(PartialEq, Eq, Structural, Clone, Copy)]
pub enum BehaviorAbiEncoding {
    Json,
    Postcard,
    PostcardTypedSchema,
}

#[derive(PartialEq, Eq, Structural, Clone, Copy)]
pub enum BehaviorReadCapability {
    Records,
    NestedRecords,
    LatestMessages,
    Objects,
    ObjectBodies,
    RealtimeChannelMembers,
    RealtimeChannelStates,
    ConnectionSessions,
    AuditTraces,
    AuditReplays,
}

/// The `Debug` name of a read capability.
pub open spec fn read_capability_name(c: BehaviorReadCapability) -> Seq<char> {
    match c {
        BehaviorReadCapability::Records => "Records"@,
        BehaviorReadCapability::NestedRecords => "NestedRecords"@,
        BehaviorReadCapability::LatestMessages => "LatestMessages"@,
        BehaviorReadCapability::Objects => "Objects"@,
        BehaviorReadCapability::ObjectBodies => "ObjectBodies"@,
        BehaviorReadCapability::RealtimeChannelMembers => "RealtimeChannelMembers"@,
        BehaviorReadCapability::RealtimeChannelStates => "RealtimeChannelStates"@,
        BehaviorReadCapability::ConnectionSessions => "ConnectionSessions"@,
        BehaviorReadCapability::AuditTraces => "AuditTraces"@,
        BehaviorReadCapability::AuditReplays => "AuditReplays"@,
    }
}

impl BehaviorReadCapability {
    /// The `Debug` name of the capability.
    pub fn name(&self) -> (s: &'static str)
        ensures
            s@ == read_capability_name(*self),
    {
        match self {
            BehaviorReadCapability::Records => "Records",
            BehaviorReadCapability::NestedRecords => "NestedRecords",
            BehaviorReadCapability::LatestMessages => "LatestMessages",
            BehaviorReadCapability::Objects => "Objects",
            BehaviorReadCapability::ObjectBodies => "ObjectBodies",
            BehaviorReadCapability::RealtimeChannelMembers => "RealtimeChannelMembers",
            BehaviorReadCapability::RealtimeChannelStates => "RealtimeChannelStates",
            BehaviorReadCapability::ConnectionSessions => "ConnectionSessions",
            BehaviorReadCapability::AuditTraces => "AuditTraces",
            BehaviorReadCapability::AuditReplays => "AuditReplays",
        }
    }
}

#[derive(PartialEq, Eq, Structural, Clone, Copy, Debug)]
pub enum BehaviorCommandCapability {
    SendMessage,
    PublishVolatile,
    PublishUserVolatile,
    PublishUserEvent,
    PutObject,
    DeleteObject,
    UpsertRecord,
    DeleteRecord,
    RecordTransaction,
    BroadcastRealtimeChannel,
    UpdateRealtimeChannelState,
    UpdateRealtimePresence,
    DisconnectConnections,
    ActivateRuntimeRecords,
    EvictRuntimeRecords,
    ActivateRuntimeRoom,
    EvictRuntimeRoom,
    ScheduleActorReminder,
    RequestHostHttp,
}

/// The `Debug` name of a command capability.
pub open spec fn command_capability_name(c: BehaviorCommandCapability) -> Seq<char> {
    match c {
        BehaviorCommandCapability::SendMessage => "SendMessage"@,
        BehaviorCommandCapability::PublishVolatile => "PublishVolatile"@,
        BehaviorCommandCapability::PublishUserVolatile => "PublishUserVolatile"@,
        BehaviorCommandCapability::PublishUserEvent => "PublishUserEvent"@,
        BehaviorCommandCapability::PutObject => "PutObject"@,
        BehaviorCommandCapability::DeleteObject => "DeleteObject"@,
        BehaviorCommandCapability::UpsertRecord => "UpsertRecord"@,
        BehaviorCommandCapability::DeleteRecord => "DeleteRecord"@,
        BehaviorCommandCapability::RecordTransaction => "RecordTransaction"@,
        BehaviorCommandCapability::BroadcastRealtimeChannel => "BroadcastRealtimeChannel"@,
        BehaviorCommandCapability::UpdateRealtimeChannelState => "UpdateRealtimeChannelState"@,
        BehaviorCommandCapability::UpdateRealtimePresence => "UpdateRealtimePresence"@,
        BehaviorCommandCapability::DisconnectConnections => "DisconnectConnections"@,
        BehaviorCommandCapability::ActivateRuntimeRecords => "ActivateRuntimeRecords"@,
        BehaviorCommandCapability::EvictRuntimeRecords => "EvictRuntimeRecords"@,
        BehaviorCommandCapability::ActivateRuntimeRoom => "ActivateRuntimeRoom"@,
        BehaviorCommandCapability::EvictRuntimeRoom => "EvictRuntimeRoom"@,
        BehaviorCommandCapability::ScheduleActorReminder => "ScheduleActorReminder"@,
        BehaviorCommandCapability::RequestHostHttp => "RequestHostHttp"@,
    }
}

impl BehaviorCommandCapability {
    /// The `Debug` name of the capability.
    pub fn name(&self) -> (s: &'static str)
        ensures
            s@ == command_capability_name(*self),
    {
        match self {
            BehaviorCommandCapability::SendMessage => "SendMessage",
            BehaviorCommandCapability::PublishVolatile => "PublishVolatile",
            BehaviorCommandCapability::PublishUserVolatile => "PublishUserVolatile",
            BehaviorCommandCapability::PublishUserEvent => "PublishUserEvent",
            BehaviorCommandCapability::PutObject => "PutObject",
            BehaviorCommandCapability::DeleteObject => "DeleteObject",
            BehaviorCommandCapability::UpsertRecord => "UpsertRecord",
            BehaviorCommandCapability::DeleteRecord => "DeleteRecord",
            BehaviorCommandCapability::RecordTransaction => "RecordTransaction",
            BehaviorCommandCapability::BroadcastRealtimeChannel => "BroadcastRealtimeChannel",
            BehaviorCommandCapability::UpdateRealtimeChannelState => "UpdateRealtimeChannelState",
            BehaviorCommandCapability::UpdateRealtimePresence => "UpdateRealtimePresence",
            BehaviorCommandCapability::DisconnectConnections => "DisconnectConnections",
            BehaviorCommandCapability::ActivateRuntimeRecords => "ActivateRuntimeRecords",
            BehaviorCommandCapability::EvictRuntimeRecords => "EvictRuntimeRecords",
            BehaviorCommandCapability::ActivateRuntimeRoom => "ActivateRuntimeRoom",
            BehaviorCommandCapability::EvictRuntimeRoom => "EvictRuntimeRoom",
            BehaviorCommandCapability::ScheduleActorReminder => "ScheduleActorReminder",
            BehaviorCommandCapability::RequestHostHttp => "RequestHostHttp",
        }
    }
}

#[derive(PartialEq, Eq, Structural, Clone, Copy)]
pub enum BehaviorAuditTraceKind {
    Room,
    User,
    Object,
    Record,
    NestedRecord,
    Path,
    ClientMutation,
}

pub struct BehaviorAuditTraceRead {
    pub kind: BehaviorAuditTraceKind,
    pub id: Option<String>,
    pub table: Option<String>,
    pub record_key: Option<String>,
    pub parent_key: Option<String>,
    pub nested: Option<String>,
    pub nested_key: Option<String>,
    pub path: Option<String>,
    pub client_mutation_id: Option<String>,
    pub after_lsn: Option<u64>,
    pub limit: Option<usize>,
}

#[derive(PartialEq, Eq, Structural, Clone, Copy)]
pub enum BehaviorAuditReplayKind {
    User,
    Object,
    Record,
    NestedRecord,
}

pub struct BehaviorAuditReplayRead {
    pub kind: BehaviorAuditReplayKind,
    pub id: Option<String>,
    pub table: Option<String>,
    pub record_key: Option<String>,
    pub parent_key: Option<String>,
    pub nested: Option<String>,
    pub nested_key: Option<String>,
    pub at_lsn: Option<u64>,
}

pub struct BehaviorRecordRead {
    pub table: String,
    pub key: String,
}

pub struct BehaviorNestedRecordRead {
    pub table: String,
    pub parent_key: String,
    pub nested: String,
    pub nested_key: String,
}

pub struct BehaviorLatestMessagesRead {
    pub room_id: String,
    pub limit: Option<usize>,
}

pub struct BehaviorObjectRead {
    pub object_id: String,
}

pub struct BehaviorRealtimeChannelStateRead {
    pub channel_id: String,
}

pub struct BehaviorRealtimeChannelMembersRead {
    pub channel_id: String,
}

/// A connection-session read. The transport is held by its wire name.
pub struct BehaviorConnectionSessionsRead {
    pub user_id: Option<String>,
    pub session_id: Option<String>,
    pub transport: Option<String>,
}

pub struct BehaviorReadPlan {
    pub records: Vec<BehaviorRecordRead>,
    pub nested_records: Vec<BehaviorNestedRecordRead>,
    pub latest_messages: Vec<BehaviorLatestMessagesRead>,
    pub objects: Vec<BehaviorObjectRead>,
    pub object_bodies: Vec<BehaviorObjectRead>,
    pub realtime_channel_members: Vec<BehaviorRealtimeChannelMembersRead>,
    pub realtime_channel_states: Vec<BehaviorRealtimeChannelStateRead>,
    pub connection_sessions: Vec<BehaviorConnectionSessionsRead>,
    pub audit_traces: Vec<BehaviorAuditTraceRead>,
    pub audit_replays: Vec<BehaviorAuditReplayRead>,
}

/// `s` with `c` appended when `used`.
pub open spec fn push_if(s: Seq<BehaviorReadCapability>, used: bool, c: BehaviorReadCapability) -> Seq<BehaviorReadCapability> {
    if used {
        s.push(c)
    } else {
        s
    }
}

impl BehaviorReadPlan {
    /// The read capabilities a plan uses, in declaration order: one for each
    /// non-empty list.
    pub open spec fn capabilities_spec(&self) -> Seq<BehaviorReadCapability> {
        let s0 = Seq::<BehaviorReadCapability>::empty();
        let s1 = push_if(s0, self.records@.len() > 0, BehaviorReadCapability::Records);
        let s2 = push_if(s1, self.nested_records@.len() > 0, BehaviorReadCapability::NestedRecords);
        let s3 = push_if(s2, self.latest_messages@.len() > 0, BehaviorReadCapability::LatestMessages);
        let s4 = push_if(s3, self.objects@.len() > 0, BehaviorReadCapability::Objects);
        let s5 = push_if(s4, self.object_bodies@.len() > 0, BehaviorReadCapability::ObjectBodies);
        let s6 = push_if(s5, self.realtime_channel_members@.len() > 0, BehaviorReadCapability::RealtimeChannelMembers);
        let s7 = push_if(s6, self.realtime_channel_states@.len() > 0, BehaviorReadCapability::RealtimeChannelStates);
        let s8 = push_if(s7, self.connection_sessions@.len() > 0, BehaviorReadCapability::ConnectionSessions);
        let s9 = push_if(s8, self.audit_traces@.len() > 0, BehaviorReadCapability::AuditTraces);
        push_if(s9, self.audit_replays@.len() > 0, BehaviorReadCapability::AuditReplays)
    }

    /// An empty plan.
    pub fn empty() -> (p: Self)
        ensures
            p.records@.len() == 0 && p.nested_records@.len() == 0 && p.latest_messages@.len() == 0
                && p.objects@.len() == 0 && p.object_bodies@.len() == 0
                && p.realtime_channel_members@.len() == 0 && p.realtime_channel_states@.len() == 0
                && p.connection_sessions@.len() == 0 && p.audit_traces@.len() == 0
                && p.audit_replays@.len() == 0,
    {
        BehaviorReadPlan {
            records: Vec::new(),
            nested_records: Vec::new(),
            latest_messages: Vec::new(),
            objects: Vec::new(),
            object_bodies: Vec::new(),
            realtime_channel_members: Vec::new(),
            realtime_channel_states: Vec::new(),
            connection_sessions: Vec::new(),
            audit_traces: Vec::new(),
            audit_replays: Vec::new(),
        }
    }

    pub fn capabilities(&self) -> (caps: Vec<BehaviorReadCapability>)
        ensures
            caps@ == self.capabilities_spec(),
    {
        let mut caps: Vec<BehaviorReadCapability> = Vec::new();
        if self.records.len() > 0 {
            caps.push(BehaviorReadCapability::Records);
        }
        if self.nested_records.len() > 0 {
            caps.push(BehaviorReadCapability::NestedRecords);
        }
        if self.latest_messages.len() > 0 {
            caps.push(BehaviorReadCapability::LatestMessages);
        }
        if self.objects.len() > 0 {
            caps.push(BehaviorReadCapability::Objects);
        }
        if self.object_bodies.len() > 0 {
            caps.push(BehaviorReadCapability::ObjectBodies);
        }
        if self.realtime_channel_members.len() > 0 {
            caps.push(BehaviorReadCapability::RealtimeChannelMembers);
        }
        if self.realtime_channel_states.len() > 0 {
            caps.push(BehaviorReadCapability::RealtimeChannelStates);
        }
        if self.connection_sessions.len() > 0 {
            caps.push(BehaviorReadCapability::ConnectionSessions);
        }
        if self.audit_traces.len() > 0 {
            caps.push(BehaviorReadCapability::AuditTraces);
        }
        if self.audit_replays.len() > 0 {
            caps.push(BehaviorReadCapability::AuditReplays);
        }
        caps
    }
}

#[derive(PartialEq, Eq, Structural, Clone, Copy)]
pub enum Durability {
    Strict,
    Volatile,
}

#[derive(PartialEq, Eq, Structural, Clone, Copy, Debug)]
pub enum ActorKind {
    Room,
    Scope,
}

pub enum BehaviorRecordTransactionOperation {
    Upsert { table: String, key: String, value: JsonValue, expected_lsn: Option<u64> },
    Delete { table: String, key: String, expected_lsn: Option<u64> },
    NestedUpsert {
        table: String,
        parent_key: String,
        nested: String,
        nested_key: String,
        value: JsonValue,
        expected_lsn: Option<u64>,
    },
    NestedDelete {
        table: String,
        parent_key: String,
        nested: String,
        nested_key: String,
        expected_lsn: Option<u64>,
    },
}

/// A host command returned by a behavior.
#[allow(inconsistent_fields)]
pub enum BehaviorCommand {
    SendMessage { room_id: String, body: String, attachments: Vec<String>, durability: Durability },
    PublishVolatile { room_id: String, name: String, payload: JsonValue },
    PublishUserVolatile { user_id: String, name: String, payload: JsonValue },
    PublishUserEvent {
        user_id: String,
        name: String,
        payload: JsonValue,
        durability: Durability,
        client_mutation_id: Option<String>,
    },
    PutObject {
        body_base64: String,
        content_type: String,
        object_id: Option<String>,
        client_mutation_id: Option<String>,
    },
    DeleteObject { object_id: String, force: Option<bool>, client_mutation_id: Option<String> },
    UpsertRecord {
        table: String,
        key: String,
        value: JsonValue,
        durability: Durability,
        expected_lsn: Option<u64>,
    },
    DeleteRecord { table: String, key: String, durability: Durability, expected_lsn: Option<u64> },
    RecordTransaction { operations: Vec<BehaviorRecordTransactionOperation>, durability: Durability },
    BroadcastRealtimeChannel {
        channel_id: String,
        kind: String,
        payload: JsonValue,
        include_self: Option<bool>,
    },
    UpdateRealtimeChannelState { channel_id: String, state: JsonValue, expected_version: Option<u64> },
    UpdateRealtimePresence { channel_id: String, metadata: JsonValue, session_id: Option<String> },
    DisconnectConnections {
        user_id: Option<String>,
        session_id: Option<String>,
        reason: Option<String>,
    },
    ActivateRuntimeRecords {
        table: String,
        parent_key: Option<String>,
        nested: Option<String>,
        key: Option<String>,
        keys: Vec<String>,
        index_name: Option<String>,
        value: Option<JsonValue>,
        values: Option<JsonValue>,
        lower: Option<JsonValue>,
        upper: Option<JsonValue>,
        lower_values: Option<JsonValue>,
        upper_values: Option<JsonValue>,
        after_key: Option<String>,
        after_cursor: Option<String>,
        order: Option<String>,
        limit: Option<usize>,
        predicate: Option<JsonValue>,
    },
    EvictRuntimeRecords {
        table: String,
        parent_key: Option<String>,
        nested: Option<String>,
        key: Option<String>,
        keys: Vec<String>,
        after_key: Option<String>,
        limit: Option<usize>,
    },
    ActivateRuntimeRoom { room_id: String, limit: Option<usize> },
    EvictRuntimeRoom { room_id: String, limit: Option<usize> },
    ScheduleActorReminder {
        kind: ActorKind,
        key: String,
        reminder_id: Option<String>,
        due_at_ms: Option<u64>,
        delay_ms: Option<u64>,
        payload: Option<JsonValue>,
    },
    RequestHostHttp {
        request_id: Option<String>,
        method: String,
        url: String,
        headers: Vec<(String, String)>,
        body: Option<JsonValue>,
        body_base64: Option<String>,
        timeout_ms: Option<u64>,
        actor_kind: ActorKind,
        actor_key: String,
        reminder_id: Option<String>,
        continuation: JsonValue,
    },
}

/// The capability a command needs.
pub open spec fn command_capability(c: BehaviorCommand) -> BehaviorCommandCapability {
    match c {
        BehaviorCommand::SendMessage { .. } => BehaviorCommandCapability::SendMessage,
        BehaviorCommand::PublishVolatile { .. } => BehaviorCommandCapability::PublishVolatile,
        BehaviorCommand::PublishUserVolatile { .. } => BehaviorCommandCapability::PublishUserVolatile,
        BehaviorCommand::PublishUserEvent { .. } => BehaviorCommandCapability::PublishUserEvent,
        BehaviorCommand::PutObject { .. } => BehaviorCommandCapability::PutObject,
        BehaviorCommand::DeleteObject { .. } => BehaviorCommandCapability::DeleteObject,
        BehaviorCommand::UpsertRecord { .. } => BehaviorCommandCapability::UpsertRecord,
        BehaviorCommand::DeleteRecord { .. } => BehaviorCommandCapability::DeleteRecord,
        BehaviorCommand::RecordTransaction { .. } => BehaviorCommandCapability::RecordTransaction,
        BehaviorCommand::BroadcastRealtimeChannel { .. } => BehaviorCommandCapability::BroadcastRealtimeChannel,
        BehaviorCommand::UpdateRealtimeChannelState { .. } => BehaviorCommandCapability::UpdateRealtimeChannelState,
        BehaviorCommand::UpdateRealtimePresence { .. } => BehaviorCommandCapability::UpdateRealtimePresence,
        BehaviorCommand::DisconnectConnections { .. } => BehaviorCommandCapability::DisconnectConnections,
        BehaviorCommand::ActivateRuntimeRecords { .. } => BehaviorCommandCapability::ActivateRuntimeRecords,
        BehaviorCommand::EvictRuntimeRecords { .. } => BehaviorCommandCapability::EvictRuntimeRecords,
        BehaviorCommand::ActivateRuntimeRoom { .. } => BehaviorCommandCapability::ActivateRuntimeRoom,
        BehaviorCommand::EvictRuntimeRoom { .. } => BehaviorCommandCapability::EvictRuntimeRoom,
        BehaviorCommand::ScheduleActorReminder { .. } => BehaviorCommandCapability::ScheduleActorReminder,
        BehaviorCommand::RequestHostHttp { .. } => BehaviorCommandCapability::RequestHostHttp,
    }
}

impl BehaviorCommand {
    pub fn capability(&self) -> (c: BehaviorCommandCapability)
        ensures
            c == command_capability(*self),
    {
        match self {
            BehaviorCommand::SendMessage { .. } => BehaviorCommandCapability::SendMessage,
            BehaviorCommand::PublishVolatile { .. } => BehaviorCommandCapability::PublishVolatile,
            BehaviorCommand::PublishUserVolatile { .. } => BehaviorCommandCapability::PublishUserVolatile,
            BehaviorCommand::PublishUserEvent { .. } => BehaviorCommandCapability::PublishUserEvent,
            BehaviorCommand::PutObject { .. } => BehaviorCommandCapability::PutObject,
            BehaviorCommand::DeleteObject { .. } => BehaviorCommandCapability::DeleteObject,
            BehaviorCommand::UpsertRecord { .. } => BehaviorCommandCapability::UpsertRecord,
            BehaviorCommand::DeleteRecord { .. } => BehaviorCommandCapability::DeleteRecord,
            BehaviorCommand::RecordTransaction { .. } => BehaviorCommandCapability::RecordTransaction,
            BehaviorCommand::BroadcastRealtimeChannel { .. } => BehaviorCommandCapability::BroadcastRealtimeChannel,
            BehaviorCommand::UpdateRealtimeChannelState { .. } => BehaviorCommandCapability::UpdateRealtimeChannelState,
            BehaviorCommand::UpdateRealtimePresence { .. } => BehaviorCommandCapability::UpdateRealtimePresence,
            BehaviorCommand::DisconnectConnections { .. } => BehaviorCommandCapability::DisconnectConnections,
            BehaviorCommand::ActivateRuntimeRecords { .. } => BehaviorCommandCapability::ActivateRuntimeRecords,
            BehaviorCommand::EvictRuntimeRecords { .. } => BehaviorCommandCapability::EvictRuntimeRecords,
            BehaviorCommand::ActivateRuntimeRoom { .. } => BehaviorCommandCapability::ActivateRuntimeRoom,
            BehaviorCommand::EvictRuntimeRoom { .. } => BehaviorCommandCapability::EvictRuntimeRoom,
            BehaviorCommand::ScheduleActorReminder { .. } => BehaviorCommandCapability::ScheduleActorReminder,
            BehaviorCommand::RequestHostHttp { .. } => BehaviorCommandCapability::RequestHostHttp,
        }
    }
}

/// A behavior manifest. `inputs` holds the names of the mutations whose input
/// schemas it declares, in key order; the schemas themselves are kept by the
/// caller.
pub struct BehaviorManifest {
    pub name: String,
    pub version: String,
    pub module_file: String,
    pub abi_encoding: BehaviorAbiEncoding,
    pub mutations: Vec<String>,
    pub inputs: Vec<String>,
    pub reads: Option<Vec<BehaviorReadCapability>>,
    pub record_scopes: Option<BehaviorRecordScopes>,
    pub object_scopes: Option<BehaviorObjectScopes>,
    pub realtime_scopes: Option<BehaviorRealtimeScopes>,
    pub connection_scopes: Option<BehaviorConnectionScopes>,
    pub user_scopes: Option<BehaviorUserScopes>,
    pub event_scopes: Option<BehaviorEventScopes>,
    pub host_http_scopes: Option<BehaviorHostHttpScopes>,
    pub commands: Vec<BehaviorCommandCapability>,
    pub max_fuel: Option<u64>,
}

} // verus!

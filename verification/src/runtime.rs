//! Runtime administration: which records an activation request names, the
//! actor scopes they live in, and the index of scheduled actor reminders.
use vstd::prelude::*;
use crate::actor::{ActorId, actor_kind_name, record_actor_scope_key, record_actor_table_key, record_scope_key, record_table_key};
use crate::api_error::{ApiError, ApiErrorKind, api_err};
use crate::json::JsonValue;
use crate::record_store::{ensure_safe_record_component, safe_component};
use crate::records::{
    SchemaTable, colon, dot, list_contains, nested_record_key, nested_record_prefix, nested_record_table,
    nested_table_path_error, string_views, table_path_error, validate_nested_table_path,
    validate_table_path,
};
use crate::behavior::ActorKind;
use crate::text::{cat7, chars_eq, chars_of, owned, trim, trim_string};

verus! {

/// A request to bring records of a table into (or out of) the hot cache.
pub struct RuntimeRecordActivationRequest {
    pub table: String,
    pub parent_key: Option<String>,
    pub nested: Option<String>,
    pub key: Option<String>,
    pub keys: Vec<String>,
    pub index_name: Option<String>,
    pub value: Option<JsonValue>,
    pub values: Option<JsonValue>,
    pub lower: Option<JsonValue>,
    pub upper: Option<JsonValue>,
    pub lower_values: Option<JsonValue>,
    pub upper_values: Option<JsonValue>,
    pub after_key: Option<String>,
    pub after_cursor: Option<String>,
    pub order: Option<String>,
    pub limit: Option<usize>,
    /// The record predicate as the request wrote it.
    pub predicate: Option<JsonValue>,
}

/// The table that an activation request resolves to.
pub struct RuntimeRecordActivationTarget {
    pub table: String,
    pub logical_table: String,
    pub parent_key: Option<String>,
    pub nested: Option<String>,
    pub key_prefix: Option<String>,
}

/// The view of an optional string.
pub open spec fn opt_view(o: Option<String>) -> Option<Seq<char>> {
    match o {
        Some(s) => Some(s@),
        None => None,
    }
}

/// An optional name, trimmed, where what is left is not empty.
pub open spec fn trimmed_nonempty(o: Option<String>) -> Option<Seq<char>> {
    match o {
        Some(s) => if trim(s@).len() > 0 {
            Some(trim(s@))
        } else {
            None
        },
        None => None,
    }
}

fn trimmed_nonempty_exec(o: &Option<String>) -> (r: Option<String>)
    ensures
        opt_view(r) == trimmed_nonempty(*o),
{
    match o {
        Some(s) => {
            let t = trim_string(s.as_str());
            if !t.as_str().is_empty() {
                Some(t)
            } else {
                None
            }
        },
        None => None,
    }
}

/// Whether the request filters an index by values, bounds, a cursor or a
/// predicate.
pub open spec fn has_index_filter_options(r: RuntimeRecordActivationRequest) -> bool {
    ||| r.value is Some
    ||| r.values is Some
    ||| r.lower is Some
    ||| r.upper is Some
    ||| r.lower_values is Some
    ||| r.upper_values is Some
    ||| r.after_cursor is Some
    ||| r.predicate is Some
}

/// Whether the request names an index (by a name that is not blank) or
/// filters one.
pub open spec fn has_index_query_options(r: RuntimeRecordActivationRequest) -> bool {
    ||| (r.index_name is Some && trim(r.index_name->Some_0@).len() > 0)
    ||| has_index_filter_options(r)
}

pub fn runtime_record_activation_has_index_filter_options(request: &RuntimeRecordActivationRequest) -> (b: bool)
    ensures
        b == has_index_filter_options(*request),
{
    request.value.is_some() || request.values.is_some() || request.lower.is_some()
        || request.upper.is_some() || request.lower_values.is_some()
        || request.upper_values.is_some() || request.after_cursor.is_some()
        || request.predicate.is_some()
}

pub fn runtime_record_activation_has_index_query_options(request: &RuntimeRecordActivationRequest) -> (b: bool)
    ensures
        b == has_index_query_options(*request),
{
    let named = match &request.index_name {
        Some(name) => !trim_string(name.as_str()).as_str().is_empty(),
        None => false,
    };
    named || runtime_record_activation_has_index_filter_options(request)
}

/// The target that an activation request resolves to, or the error it is
/// refused with: a nested table needs a parent key, a parent key needs a
/// nested table, and the names must pass the schema's path checks.
pub open spec fn activation_target_error(
    r: RuntimeRecordActivationRequest,
    ts: Seq<SchemaTable>,
) -> Option<(ApiErrorKind, Seq<char>)> {
    let table = trim(r.table@);
    let nested = trimmed_nonempty(r.nested);
    let parent = trimmed_nonempty(r.parent_key);
    if nested is Some {
        if parent is None {
            Some((ApiErrorKind::BadRequest, "parentKey is required for nested activation"@))
        } else {
            nested_table_path_error(table, parent->Some_0, nested->Some_0, ts)
        }
    } else if parent is Some {
        Some((ApiErrorKind::BadRequest, "nested is required when parentKey is provided"@))
    } else {
        table_path_error(table, ts)
    }
}

/// The target of an accepted activation request.
pub open spec fn activation_target_is(
    r: RuntimeRecordActivationRequest,
    t: RuntimeRecordActivationTarget,
) -> bool {
    let table = trim(r.table@);
    let nested = trimmed_nonempty(r.nested);
    let parent = trimmed_nonempty(r.parent_key);
    &&& t.table@ == table
    &&& opt_view(t.nested) == nested
    &&& opt_view(t.parent_key) == parent
    &&& match nested {
        Some(n) => {
            &&& t.logical_table@ == dot(table, n)
            &&& opt_view(t.key_prefix) == Some(parent->Some_0 + seq![':'])
        },
        None => {
            &&& t.logical_table@ == table
            &&& t.key_prefix is None
        },
    }
}

/// Resolves the table that an activation request names.
pub fn runtime_record_activation_target(
    request: &RuntimeRecordActivationRequest,
    tables: &Vec<SchemaTable>,
) -> (r: Result<RuntimeRecordActivationTarget, ApiError>)
    ensures
        match r {
            Ok(t) => activation_target_error(*request, tables@) is None && activation_target_is(*request, t),
            Err(e) => activation_target_error(*request, tables@) == Some(api_err(e)),
        },
{
    let table = trim_string(request.table.as_str());
    let nested = trimmed_nonempty_exec(&request.nested);
    let parent_key = trimmed_nonempty_exec(&request.parent_key);
    match nested {
        Some(nested) => {
            let parent_key = match parent_key {
                Some(p) => p,
                None => {
                    return Err(ApiError::bad_request(owned("parentKey is required for nested activation")));
                },
            };
            let checked = validate_nested_table_path(table.as_str(), parent_key.as_str(), nested.as_str(), tables);
            match checked {
                Err(e) => {
                    return Err(e);
                },
                Ok(()) => {},
            }
            let logical_table = nested_record_table(table.as_str(), nested.as_str());
            let key_prefix = nested_record_prefix(parent_key.as_str());
            Ok(RuntimeRecordActivationTarget {
                table,
                logical_table,
                parent_key: Some(parent_key),
                nested: Some(nested),
                key_prefix: Some(key_prefix),
            })
        },
        None => {
            if parent_key.is_some() {
                return Err(ApiError::bad_request(owned("nested is required when parentKey is provided")));
            }
            let checked = validate_table_path(table.as_str(), tables);
            match checked {
                Err(e) => {
                    return Err(e);
                },
                Ok(()) => {},
            }
            let logical_table = owned(table.as_str());
            Ok(RuntimeRecordActivationTarget {
                table,
                logical_table,
                parent_key: None,
                nested: None,
                key_prefix: None,
            })
        },
    }
}

/// The key under which a request's key is stored: `parent:key` in a nested
/// table, the key itself elsewhere; a key that cannot stand in a path is
/// refused.
pub open spec fn logical_key_of(key: Seq<char>, parent: Option<Seq<char>>) -> Result<Seq<char>, (ApiErrorKind, Seq<char>)> {
    match parent {
        Some(p) => if safe_component(key) {
            Ok(colon(p, key))
        } else {
            Err((ApiErrorKind::BadRequest, "invalid nested record key"@))
        },
        None => if safe_component(key) {
            Ok(key)
        } else {
            Err((ApiErrorKind::BadRequest, "invalid record key"@))
        },
    }
}

pub fn runtime_record_activation_logical_key(
    key: &str,
    target: &RuntimeRecordActivationTarget,
) -> (r: Result<String, ApiError>)
    ensures
        match r {
            Ok(s) => logical_key_of(key@, opt_view(target.parent_key)) == Ok::<Seq<char>, (ApiErrorKind, Seq<char>)>(s@),
            Err(e) => logical_key_of(key@, opt_view(target.parent_key)) == Err::<Seq<char>, (ApiErrorKind, Seq<char>)>(api_err(e)),
        },
{
    match &target.parent_key {
        Some(parent_key) => {
            if !ensure_safe_record_component(key) {
                return Err(ApiError::bad_request(owned("invalid nested record key")));
            }
            Ok(nested_record_key(parent_key.as_str(), key))
        },
        None => {
            if !ensure_safe_record_component(key) {
                return Err(ApiError::bad_request(owned("invalid record key")));
            }
            Ok(owned(key))
        },
    }
}

/// The actor scope of a record of the target's logical table.
pub fn runtime_record_activation_scope_key(target: &RuntimeRecordActivationTarget, record_key: &str) -> (s: String)
    ensures
        s@ == record_scope_key(target.logical_table@, record_key@),
{
    record_actor_scope_key(target.logical_table.as_str(), record_key)
}

/// The actor that holds a whole logical table.
pub fn runtime_record_activation_table_key(logical_table: &str) -> (s: String)
    ensures
        s@ == record_table_key(logical_table@),
{
    record_actor_table_key(logical_table)
}


/// Adds the logical keys of `rest` to `acc`, in order, skipping blank keys and
/// keys already there; the first key that cannot stand in a path stops it.
pub open spec fn collect_keys(
    acc: Seq<Seq<char>>,
    rest: Seq<String>,
    parent: Option<Seq<char>>,
) -> Result<Seq<Seq<char>>, (ApiErrorKind, Seq<char>)>
    decreases rest.len(),
{
    if rest.len() == 0 {
        Ok(acc)
    } else {
        let k = trim(rest[0]@);
        if k.len() == 0 {
            collect_keys(acc, rest.drop_first(), parent)
        } else {
            match logical_key_of(k, parent) {
                Err(e) => Err(e),
                Ok(lk) => collect_keys(
                    if acc.contains(lk) {
                        acc
                    } else {
                        acc.push(lk)
                    },
                    rest.drop_first(),
                    parent,
                ),
            }
        }
    }
}

/// The logical keys that an activation request names: its `key`, then its
/// `keys`, each once. Naming keys excludes index options, `afterKey`, `order`
/// and `limit`.
pub open spec fn activation_keys(
    r: RuntimeRecordActivationRequest,
    parent: Option<Seq<char>>,
) -> Result<Seq<Seq<char>>, (ApiErrorKind, Seq<char>)> {
    let first: Result<Seq<Seq<char>>, (ApiErrorKind, Seq<char>)> = match trimmed_nonempty(r.key) {
        Some(k) => match logical_key_of(k, parent) {
            Ok(lk) => Ok(seq![lk]),
            Err(e) => Err(e),
        },
        None => Ok(Seq::empty()),
    };
    match first {
        Err(e) => Err(e),
        Ok(acc) => match collect_keys(acc, r.keys@, parent) {
            Err(e) => Err(e),
            Ok(keys) => if keys.len() > 0 && (has_index_query_options(r) || r.after_key is Some
                || r.order is Some || r.limit is Some) {
                Err(
                    (
                        ApiErrorKind::BadRequest,
                        "record activation keys cannot be combined with index query options, afterKey, order, or limit"@,
                    ),
                )
            } else {
                Ok(keys)
            },
        },
    }
}

/// The logical keys that an activation request names.
#[verifier::loop_isolation(false)]
pub fn runtime_record_activation_keys(
    request: &RuntimeRecordActivationRequest,
    target: &RuntimeRecordActivationTarget,
) -> (r: Result<Vec<String>, ApiError>)
    ensures
        match r {
            Ok(keys) => activation_keys(*request, opt_view(target.parent_key))
                == Ok::<Seq<Seq<char>>, (ApiErrorKind, Seq<char>)>(string_views(keys@)),
            Err(e) => activation_keys(*request, opt_view(target.parent_key))
                == Err::<Seq<Seq<char>>, (ApiErrorKind, Seq<char>)>(api_err(e)),
        },
{
    let ghost parent = opt_view(target.parent_key);
    let mut keys: Vec<String> = Vec::new();
    match trimmed_nonempty_exec(&request.key) {
        Some(key) => {
            match runtime_record_activation_logical_key(key.as_str(), target) {
                Ok(lk) => {
                    keys.push(lk);
                },
                Err(e) => {
                    return Err(e);
                },
            }
        },
        None => {},
    }
    assert(string_views(keys@) =~= match trimmed_nonempty(request.key) {
        Some(k) => seq![logical_key_of(k, parent)->Ok_0],
        None => Seq::<Seq<char>>::empty(),
    });
    let ghost acc0 = string_views(keys@);
    let mut i: usize = 0;
    assert(request.keys@.skip(0) =~= request.keys@);
    while i < request.keys.len()
        invariant
            i <= request.keys@.len(),
            parent == opt_view(target.parent_key),
            collect_keys(acc0, request.keys@, parent)
                == collect_keys(string_views(keys@), request.keys@.skip(i as int), parent),
        decreases request.keys@.len() - i,
    {
        assert(request.keys@.skip(i as int).drop_first() =~= request.keys@.skip(i + 1));
        assert(request.keys@.skip(i as int)[0] == request.keys@[i as int]);
        let key = trim_string(request.keys[i].as_str());
        if !key.as_str().is_empty() {
            match runtime_record_activation_logical_key(key.as_str(), target) {
                Ok(lk) => {
                    if !list_contains(&keys, lk.as_str()) {
                        let ghost before = keys@;
                        keys.push(lk);
                        assert(string_views(keys@) =~= string_views(before).push(lk@));
                    }
                },
                Err(e) => {
                    return Err(e);
                },
            }
        }
        i = i + 1;
    }
    assert(request.keys@.skip(i as int).len() == 0);
    if keys.len() > 0 && (runtime_record_activation_has_index_query_options(request)
        || request.after_key.is_some() || request.order.is_some() || request.limit.is_some()) {
        return Err(ApiError::bad_request(owned(
            "record activation keys cannot be combined with index query options, afterKey, order, or limit",
        )));
    }
    Ok(keys)
}


/// The actor of a runtime request: the key is trimmed and must not be empty.
pub fn runtime_actor_id(kind: ActorKind, key: String) -> (r: Result<ActorId, ApiError>)
    ensures
        match r {
            Ok(id) => trim(key@).len() > 0 && id.kind == kind && id.key@ == trim(key@),
            Err(e) => trim(key@).len() == 0 && e.kind == ApiErrorKind::BadRequest && e.message@ == "key is required"@,
        },
{
    let key = trim_string(key.as_str());
    if key.as_str().is_empty() {
        return Err(ApiError::bad_request(owned("key is required")));
    }
    Ok(ActorId { kind, key })
}

/// `actor-reminder:{kind}:{key}:{reminder_id}`: the key that places a
/// reminder's log entries on a shard.
pub fn actor_reminder_shard_key(actor_id: &ActorId, reminder_id: &str) -> (s: String)
    ensures
        s@ == "actor-reminder:"@ + actor_kind_name(actor_id.kind) + seq![':'] + actor_id.key@ + seq![':'] + reminder_id@,
{
    let kind = actor_id.kind.as_str();
    let sep = owned(":");
    let r = cat7("actor-reminder:", kind.as_str(), sep.as_str(), actor_id.key.as_str(), sep.as_str(), reminder_id, "");
    proof {
        reveal_strlit(":");
        reveal_strlit("");
    }
    r
}

/// How a record activation finds its records.
pub enum RecordActivationSource {
    /// By the keys the request names.
    Keys,
    /// By a query of the named index.
    Index(String),
    /// By listing the nested table.
    NestedList,
    /// By listing the table.
    TableList,
}

/// How an activation with `key_count` named keys finds its records: by the
/// keys where it names any; else by its index (trimmed, where named), which
/// index options need; else by listing its nested table or its table.
pub fn runtime_record_activation_source(
    request: &RuntimeRecordActivationRequest,
    target: &RuntimeRecordActivationTarget,
    key_count: usize,
) -> (r: Result<RecordActivationSource, ApiError>)
    ensures
        key_count > 0 ==> r matches Ok(RecordActivationSource::Keys),
        key_count == 0 ==> match trimmed_nonempty(request.index_name) {
            Some(name) => r matches Ok(RecordActivationSource::Index(n)) && n@ == name,
            None => if has_index_filter_options(*request) {
                r matches Err(e) && e.kind == ApiErrorKind::BadRequest && e.message@
                    == "record activation index options require indexName"@
            } else if target.nested is Some {
                r matches Ok(RecordActivationSource::NestedList)
            } else {
                r matches Ok(RecordActivationSource::TableList)
            },
        },
{
    if key_count > 0 {
        return Ok(RecordActivationSource::Keys);
    }
    let name = trimmed_nonempty_exec(&request.index_name);
    match name {
        Some(n) => Ok(RecordActivationSource::Index(n)),
        None => {
            if runtime_record_activation_has_index_filter_options(request) {
                return Err(ApiError::bad_request(owned("record activation index options require indexName")));
            }
            if target.nested.is_some() {
                Ok(RecordActivationSource::NestedList)
            } else {
                Ok(RecordActivationSource::TableList)
            }
        },
    }
}

/// The refusal of an activation of a table held in no hot storage.
pub fn record_activation_storage_error(logical_table: &str) -> (e: ApiError)
    ensures
        e.kind == ApiErrorKind::BadRequest,
        e.message@ == logical_table@ + " is not configured for resident, lru, actorPartition, or chatLog storage"@,
{
    ApiError::bad_request(crate::text::cat2(
        logical_table,
        " is not configured for resident, lru, actorPartition, or chatLog storage",
    ))
}

/// How many records an activation brought in and pushed out, from the hot
/// record counts before and after it.
pub fn activation_counts(before: usize, after: usize) -> (r: (usize, usize))
    ensures
        r.0 == if after >= before { after - before } else { 0 },
        r.1 == if before >= after { before - after } else { 0 },
{
    (after.saturating_sub(before), before.saturating_sub(after))
}


/// Whether an eviction request may go ahead: only an lru table
/// (`is_lru_table`) is evicted by hand, and only by keys or a page of its
/// hot records, never by an index query.
pub fn check_record_eviction(
    request: &RuntimeRecordActivationRequest,
    target: &RuntimeRecordActivationTarget,
    is_lru_table: bool,
) -> (r: Result<(), ApiError>)
    ensures
        !is_lru_table ==> (r matches Err(e) && e.kind == ApiErrorKind::BadRequest && e.message@ == target.logical_table@
            + " is not an lru table; resident, actorPartition, and chatLog tables are not manually evictable"@),
        is_lru_table && has_index_query_options(*request) ==> (r matches Err(e) && e.kind == ApiErrorKind::BadRequest
            && e.message@
            == "record eviction does not support index query options; provide key, keys, or a hot key-order page"@),
        is_lru_table && !has_index_query_options(*request) ==> r is Ok,
{
    if !is_lru_table {
        return Err(ApiError::bad_request(crate::text::cat2(
            target.logical_table.as_str(),
            " is not an lru table; resident, actorPartition, and chatLog tables are not manually evictable",
        )));
    }
    if runtime_record_activation_has_index_query_options(request) {
        return Err(ApiError::bad_request(owned(
            "record eviction does not support index query options; provide key, keys, or a hot key-order page",
        )));
    }
    Ok(())
}

/// How a record eviction finds its records.
pub enum RecordEvictionSource {
    /// By the keys the request names.
    Keys,
    /// By a page of the hot records under `prefix`, after `after_key`.
    PrefixPage { prefix: String, after_key: Option<String> },
    /// By a page of the table's hot records, after `after_key`.
    TablePage { after_key: Option<String> },
}

/// How an eviction with `key_count` named keys finds its records: by the
/// keys where it names any; else by a page of the hot records under the
/// target's key prefix (the request's `afterKey` taken under the parent
/// key), or of the table.
pub fn record_eviction_source(
    request: &RuntimeRecordActivationRequest,
    target: &RuntimeRecordActivationTarget,
    key_count: usize,
) -> (r: RecordEvictionSource)
    ensures
        key_count > 0 ==> r matches RecordEvictionSource::Keys,
        key_count == 0 ==> match target.key_prefix {
            Some(p) => r matches RecordEvictionSource::PrefixPage { prefix, after_key } && prefix@ == p@ && opt_view(
                after_key,
            ) == match request.after_key {
                Some(k) => Some(
                    crate::records::colon(
                        match target.parent_key {
                            Some(pk) => pk@,
                            None => Seq::<char>::empty(),
                        },
                        k@,
                    ),
                ),
                None => None,
            },
            None => r matches RecordEvictionSource::TablePage { after_key } && opt_view(after_key) == opt_view(
                request.after_key,
            ),
        },
{
    if key_count > 0 {
        return RecordEvictionSource::Keys;
    }
    match &target.key_prefix {
        Some(p) => {
            let after_key = match &request.after_key {
                Some(k) => {
                    let parent = match &target.parent_key {
                        Some(pk) => pk.clone(),
                        None => String::new(),
                    };
                    Some(crate::records::nested_record_key(parent.as_str(), k.as_str()))
                },
                None => None,
            };
            RecordEvictionSource::PrefixPage { prefix: p.clone(), after_key }
        },
        None => RecordEvictionSource::TablePage {
            after_key: match &request.after_key {
                Some(k) => Some(k.clone()),
                None => None,
            },
        },
    }
}

} // verus!

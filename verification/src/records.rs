//! Record paths, identities and keys; the checks that a record transaction
//! touches each record once, one partition and one shard.
use vstd::prelude::*;
use crate::api_error::{ApiError, ApiErrorKind, api_err};
use crate::record_store::{ensure_safe_record_component, safe_component};
use crate::json::{JsonValue, JsonView, json_copy};
use crate::text::{cat2, cat3, cat4, chars_eq, chars_of, chars_starts_with, push_str_chars, starts_with, string_from_chars};

verus! {

pub struct DbRecord {
    pub table: String,
    pub key: String,
    pub path: String,
    pub value: JsonValue,
    pub lsn: u64,
}

pub open spec fn dot(a: Seq<char>, b: Seq<char>) -> Seq<char> {
    a + seq!['.'] + b
}

pub open spec fn colon(a: Seq<char>, b: Seq<char>) -> Seq<char> {
    a + seq![':'] + b
}

pub open spec fn slash(a: Seq<char>, b: Seq<char>) -> Seq<char> {
    a + seq!['/'] + b
}

fn join_with(a: &str, sep: char, b: &str) -> (s: String)
    ensures
        s@ == a@ + seq![sep] + b@,
{
    let mut v = chars_of(a);
    v.push(sep);
    push_str_chars(&mut v, b);
    string_from_chars(v.as_slice())
}

/// `table.nested`.
pub fn nested_record_table(table: &str, nested: &str) -> (s: String)
    ensures
        s@ == dot(table@, nested@),
{
    join_with(table, '.', nested)
}

/// `parent:nested_key`.
pub fn nested_record_key(parent_key: &str, nested_key: &str) -> (s: String)
    ensures
        s@ == colon(parent_key@, nested_key@),
{
    join_with(parent_key, ':', nested_key)
}

/// `parent:`.
pub fn nested_record_prefix(parent_key: &str) -> (s: String)
    ensures
        s@ == parent_key@ + seq![':'],
{
    let mut v = chars_of(parent_key);
    v.push(':');
    string_from_chars(v.as_slice())
}

/// `tables/table/parent/nested/nested_key`.
pub fn nested_record_path(table: &str, parent_key: &str, nested: &str, nested_key: &str) -> (s: String)
    ensures
        s@ == "tables/"@ + table@ + seq!['/'] + parent_key@ + seq!['/'] + nested@ + seq!['/'] + nested_key@,
{
    let mut v = chars_of("tables/");
    push_str_chars(&mut v, table);
    v.push('/');
    push_str_chars(&mut v, parent_key);
    v.push('/');
    push_str_chars(&mut v, nested);
    v.push('/');
    push_str_chars(&mut v, nested_key);
    string_from_chars(v.as_slice())
}

/// The nested key of a logical key of the parent's partition.
pub open spec fn nested_key_of(parent_key: Seq<char>, logical_key: Seq<char>) -> Option<Seq<char>> {
    let prefix = parent_key + seq![':'];
    if starts_with(logical_key, prefix) {
        Some(logical_key.subrange(prefix.len() as int, logical_key.len() as int))
    } else {
        None
    }
}

/// The nested key inside `parent:`, or `None` when the logical key lies in
/// another partition.
pub fn nested_key_from_logical_key(parent_key: &str, logical_key: &str) -> (r: Option<String>)
    ensures
        match r {
            Some(k) => nested_key_of(parent_key@, logical_key@) == Some(k@),
            None => nested_key_of(parent_key@, logical_key@) is None,
        },
{
    let mut prefix = chars_of(parent_key);
    prefix.push(':');
    assert(prefix@ =~= parent_key@ + seq![':']);
    let key = chars_of(logical_key);
    if !chars_starts_with(key.as_slice(), prefix.as_slice()) {
        return None;
    }
    let mut rest: Vec<char> = Vec::new();
    let mut i: usize = prefix.len();
    while i < key.len()
        invariant
            prefix@.len() <= i <= key@.len(),
            rest@ == key@.subrange(prefix@.len() as int, i as int),
        decreases key@.len() - i,
    {
        rest.push(key[i]);
        i = i + 1;
        assert(rest@ =~= key@.subrange(prefix@.len() as int, i as int));
    }
    Some(string_from_chars(rest.as_slice()))
}

pub open spec fn volatile_prefix() -> Seq<char> {
    "volatile/"@
}

/// Whether a record path lies under `volatile/`.
pub fn is_volatile_record_path(path: &str) -> (b: bool)
    ensures
        b == starts_with(path@, volatile_prefix()),
{
    let p = chars_of(path);
    let v = chars_of("volatile/");
    chars_starts_with(p.as_slice(), v.as_slice())
}

/// The path under `volatile/`; a volatile path is kept as it is.
pub fn volatile_record_path(path: &str) -> (s: String)
    ensures
        s@ == if starts_with(path@, volatile_prefix()) {
            path@
        } else {
            volatile_prefix() + path@
        },
{
    if is_volatile_record_path(path) {
        crate::text::owned(path)
    } else {
        cat2("volatile/", path)
    }
}

/// `table/key`.
pub fn record_identity(table: &str, key: &str) -> (s: String)
    ensures
        s@ == slash(table@, key@),
{
    join_with(table, '/', key)
}

pub enum RecordTransactionOperationRequest {
    Upsert { table: String, key: String, value: JsonValue, expected_lsn: Option<u64> },
    Delete { table: String, key: String, expected_lsn: Option<u64> },
    NestedUpsert {
        table: String,
        parent_key: String,
        nested: String,
        nested_key: String,
        value: JsonValue,
        expected_lsn: Option<u64>,
    },
    NestedDelete {
        table: String,
        parent_key: String,
        nested: String,
        nested_key: String,
        expected_lsn: Option<u64>,
    },
}

/// The mathematical value of a transaction operation.
pub enum OperationView {
    Upsert { table: Seq<char>, key: Seq<char>, value: JsonView, expected_lsn: Option<u64> },
    Delete { table: Seq<char>, key: Seq<char>, expected_lsn: Option<u64> },
    NestedUpsert {
        table: Seq<char>,
        parent_key: Seq<char>,
        nested: Seq<char>,
        nested_key: Seq<char>,
        value: JsonView,
        expected_lsn: Option<u64>,
    },
    NestedDelete {
        table: Seq<char>,
        parent_key: Seq<char>,
        nested: Seq<char>,
        nested_key: Seq<char>,
        expected_lsn: Option<u64>,
    },
}

impl View for RecordTransactionOperationRequest {
    type V = OperationView;

    open spec fn view(&self) -> OperationView {
        match self {
            RecordTransactionOperationRequest::Upsert { table, key, value, expected_lsn } =>
                OperationView::Upsert { table: table@, key: key@, value: value@, expected_lsn: *expected_lsn },
            RecordTransactionOperationRequest::Delete { table, key, expected_lsn } =>
                OperationView::Delete { table: table@, key: key@, expected_lsn: *expected_lsn },
            RecordTransactionOperationRequest::NestedUpsert { table, parent_key, nested, nested_key, value, expected_lsn } =>
                OperationView::NestedUpsert {
                    table: table@,
                    parent_key: parent_key@,
                    nested: nested@,
                    nested_key: nested_key@,
                    value: value@,
                    expected_lsn: *expected_lsn,
                },
            RecordTransactionOperationRequest::NestedDelete { table, parent_key, nested, nested_key, expected_lsn } =>
                OperationView::NestedDelete {
                    table: table@,
                    parent_key: parent_key@,
                    nested: nested@,
                    nested_key: nested_key@,
                    expected_lsn: *expected_lsn,
                },
        }
    }
}

/// The shard key of an operation's value: `table:key`, or `table:parent`
/// for a nested record.
pub open spec fn view_shard_key(op: OperationView) -> Seq<char> {
    match op {
        OperationView::Upsert { table, key, .. } => colon(table, key),
        OperationView::Delete { table, key, .. } => colon(table, key),
        OperationView::NestedUpsert { table, parent_key, .. } => colon(table, parent_key),
        OperationView::NestedDelete { table, parent_key, .. } => colon(table, parent_key),
    }
}

/// The identity of an operation's value: `table/key`, or
/// `table.nested/parent:nested_key`.
pub open spec fn view_identity(op: OperationView) -> Seq<char> {
    match op {
        OperationView::Upsert { table, key, .. } => slash(table, key),
        OperationView::Delete { table, key, .. } => slash(table, key),
        OperationView::NestedUpsert { table, parent_key, nested, nested_key, .. } =>
            slash(dot(table, nested), colon(parent_key, nested_key)),
        OperationView::NestedDelete { table, parent_key, nested, nested_key, .. } =>
            slash(dot(table, nested), colon(parent_key, nested_key)),
    }
}

/// An operation's shard key and identity are those of its value.
pub proof fn lemma_operation_view_keys(op: RecordTransactionOperationRequest)
    ensures
        operation_shard_key(op) == view_shard_key(op@),
        operation_identity(op) == view_identity(op@),
{
}

/// A copy of an operation.
pub fn copy_operation(op: &RecordTransactionOperationRequest) -> (r: RecordTransactionOperationRequest)
    ensures
        r@ == op@,
{
    match op {
        RecordTransactionOperationRequest::Upsert { table, key, value, expected_lsn } =>
            RecordTransactionOperationRequest::Upsert {
                table: table.clone(),
                key: key.clone(),
                value: json_copy(value),
                expected_lsn: *expected_lsn,
            },
        RecordTransactionOperationRequest::Delete { table, key, expected_lsn } =>
            RecordTransactionOperationRequest::Delete { table: table.clone(), key: key.clone(), expected_lsn: *expected_lsn },
        RecordTransactionOperationRequest::NestedUpsert { table, parent_key, nested, nested_key, value, expected_lsn } =>
            RecordTransactionOperationRequest::NestedUpsert {
                table: table.clone(),
                parent_key: parent_key.clone(),
                nested: nested.clone(),
                nested_key: nested_key.clone(),
                value: json_copy(value),
                expected_lsn: *expected_lsn,
            },
        RecordTransactionOperationRequest::NestedDelete { table, parent_key, nested, nested_key, expected_lsn } =>
            RecordTransactionOperationRequest::NestedDelete {
                table: table.clone(),
                parent_key: parent_key.clone(),
                nested: nested.clone(),
                nested_key: nested_key.clone(),
                expected_lsn: *expected_lsn,
            },
    }
}

/// The shard key of an operation: `table:key`, or `table:parent` for a
/// nested record, so that a parent and its nested records share a shard.
pub open spec fn operation_shard_key(op: RecordTransactionOperationRequest) -> Seq<char> {
    match op {
        RecordTransactionOperationRequest::Upsert { table, key, .. } => colon(table@, key@),
        RecordTransactionOperationRequest::Delete { table, key, .. } => colon(table@, key@),
        RecordTransactionOperationRequest::NestedUpsert { table, parent_key, .. } => colon(table@, parent_key@),
        RecordTransactionOperationRequest::NestedDelete { table, parent_key, .. } => colon(table@, parent_key@),
    }
}

/// The identity of an operation's record: `table/key`, or
/// `table.nested/parent:nested_key` for a nested record.
pub open spec fn operation_identity(op: RecordTransactionOperationRequest) -> Seq<char> {
    match op {
        RecordTransactionOperationRequest::Upsert { table, key, .. } => slash(table@, key@),
        RecordTransactionOperationRequest::Delete { table, key, .. } => slash(table@, key@),
        RecordTransactionOperationRequest::NestedUpsert { table, parent_key, nested, nested_key, .. } =>
            slash(dot(table@, nested@), colon(parent_key@, nested_key@)),
        RecordTransactionOperationRequest::NestedDelete { table, parent_key, nested, nested_key, .. } =>
            slash(dot(table@, nested@), colon(parent_key@, nested_key@)),
    }
}

pub fn record_transaction_operation_shard_key(operation: &RecordTransactionOperationRequest) -> (s: String)
    ensures
        s@ == operation_shard_key(*operation),
{
    match operation {
        RecordTransactionOperationRequest::Upsert { table, key, .. } => join_with(table.as_str(), ':', key.as_str()),
        RecordTransactionOperationRequest::Delete { table, key, .. } => join_with(table.as_str(), ':', key.as_str()),
        RecordTransactionOperationRequest::NestedUpsert { table, parent_key, .. } => join_with(table.as_str(), ':', parent_key.as_str()),
        RecordTransactionOperationRequest::NestedDelete { table, parent_key, .. } => join_with(table.as_str(), ':', parent_key.as_str()),
    }
}

pub fn record_transaction_operation_identity(operation: &RecordTransactionOperationRequest) -> (s: String)
    ensures
        s@ == operation_identity(*operation),
{
    match operation {
        RecordTransactionOperationRequest::Upsert { table, key, .. } => join_with(table.as_str(), '/', key.as_str()),
        RecordTransactionOperationRequest::Delete { table, key, .. } => join_with(table.as_str(), '/', key.as_str()),
        RecordTransactionOperationRequest::NestedUpsert { table, parent_key, nested, nested_key, .. } => {
            let t = nested_record_table(table.as_str(), nested.as_str());
            let k = nested_record_key(parent_key.as_str(), nested_key.as_str());
            join_with(t.as_str(), '/', k.as_str())
        },
        RecordTransactionOperationRequest::NestedDelete { table, parent_key, nested, nested_key, .. } => {
            let t = nested_record_table(table.as_str(), nested.as_str());
            let k = nested_record_key(parent_key.as_str(), nested_key.as_str());
            join_with(t.as_str(), '/', k.as_str())
        },
    }
}

/// The views of a list of strings.
pub open spec fn string_views(v: Seq<String>) -> Seq<Seq<char>> {
    v.map_values(|s: String| s@)
}

pub(crate) fn list_contains(values: &Vec<String>, target: &str) -> (r: bool)
    ensures
        r == string_views(values@).contains(target@),
{
    let t = chars_of(target);
    let mut j: usize = 0;
    while j < values.len()
        invariant
            j <= values@.len(),
            t@ == target@,
            forall|k: int| 0 <= k < j ==> values@[k]@ != target@,
        decreases values@.len() - j,
    {
        let c = chars_of(values[j].as_str());
        if chars_eq(c.as_slice(), t.as_slice()) {
            assert(string_views(values@)[j as int] == target@);
            return true;
        }
        j = j + 1;
    }
    assert forall|k: int| 0 <= k < values@.len() implies string_views(values@)[k] != target@ by {
        assert(string_views(values@)[k] == values@[k]@);
    }
    false
}

/// Adds `identity` to a set kept as a list; a second occurrence is refused.
fn insert_once(seen: &mut Vec<String>, identity: String, prefix: &str) -> (r: Result<(), ApiError>)
    ensures
        string_views(old(seen)@).contains(identity@) ==> {
            &&& r is Err
            &&& final(seen)@ == old(seen)@
            &&& r->Err_0.kind == ApiErrorKind::BadRequest
            &&& r->Err_0.message@ == prefix@ + identity@
        },
        !string_views(old(seen)@).contains(identity@) ==> {
            &&& r is Ok
            &&& string_views(final(seen)@) == string_views(old(seen)@).push(identity@)
        },
{
    if list_contains(seen, identity.as_str()) {
        return Err(ApiError::bad_request(cat2(prefix, identity.as_str())));
    }
    let ghost before = seen@;
    seen.push(identity);
    assert(string_views(seen@) =~= string_views(before).push(identity@));
    Ok(())
}

/// Records `table/key` as touched by a transaction; touching it twice is
/// refused.
pub fn ensure_transaction_key_once(seen_keys: &mut Vec<String>, table: &str, key: &str) -> (r: Result<(), ApiError>)
    ensures
        string_views(old(seen_keys)@).contains(slash(table@, key@)) ==> {
            &&& r is Err
            &&& final(seen_keys)@ == old(seen_keys)@
            &&& r->Err_0.kind == ApiErrorKind::BadRequest
            &&& r->Err_0.message@ == "record transaction contains duplicate operation for "@ + slash(table@, key@)
        },
        !string_views(old(seen_keys)@).contains(slash(table@, key@)) ==> {
            &&& r is Ok
            &&& string_views(final(seen_keys)@) == string_views(old(seen_keys)@).push(slash(table@, key@))
        },
{
    let identity = record_identity(table, key);
    insert_once(seen_keys, identity, "record transaction contains duplicate operation for ")
}

/// Records an operation's identity as touched by a batch; touching it twice
/// is refused.
pub fn ensure_record_batch_key_once(seen_keys: &mut Vec<String>, operation: &RecordTransactionOperationRequest) -> (r: Result<(), ApiError>)
    ensures
        string_views(old(seen_keys)@).contains(operation_identity(*operation)) ==> {
            &&& r is Err
            &&& final(seen_keys)@ == old(seen_keys)@
            &&& r->Err_0.kind == ApiErrorKind::BadRequest
            &&& r->Err_0.message@ == "record batch contains duplicate operation for "@ + operation_identity(*operation)
        },
        !string_views(old(seen_keys)@).contains(operation_identity(*operation)) ==> {
            &&& r is Ok
            &&& string_views(final(seen_keys)@) == string_views(old(seen_keys)@).push(operation_identity(*operation))
        },
{
    let identity = record_transaction_operation_identity(operation);
    insert_once(seen_keys, identity, "record batch contains duplicate operation for ")
}

/// All operations of a transaction target one shard: the first shard is
/// remembered and a different one is refused.
pub fn ensure_same_transaction_shard(shard_index: &mut Option<usize>, shard: usize) -> (r: Result<(), ApiError>)
    ensures
        match *old(shard_index) {
            Some(existing) => if existing != shard {
                &&& r is Err
                &&& r->Err_0.kind == ApiErrorKind::BadRequest
                &&& r->Err_0.message@ == "record transaction operations must target one shard; got shards "@
                    + crate::text::decimal(existing as nat) + " and "@ + crate::text::decimal(shard as nat)
                &&& *final(shard_index) == *old(shard_index)
            } else {
                r is Ok && *final(shard_index) == *old(shard_index)
            },
            None => r is Ok && *final(shard_index) == Some(shard),
        },
{
    match *shard_index {
        Some(existing) => {
            if existing != shard {
                let a = crate::text::decimal_chars(existing as u64);
                let b = crate::text::decimal_chars(shard as u64);
                let mut m = chars_of("record transaction operations must target one shard; got shards ");
                crate::text::push_all(&mut m, a.as_slice());
                push_str_chars(&mut m, " and ");
                crate::text::push_all(&mut m, b.as_slice());
                Err(ApiError::bad_request(string_from_chars(m.as_slice())))
            } else {
                Ok(())
            }
        },
        None => {
            *shard_index = Some(shard);
            Ok(())
        },
    }
}

pub fn disk_window_for_hot_overlay(limit: usize, hot_record_count: usize) -> (n: usize)
    ensures
        n == crate::util::sat_usize(limit + hot_record_count + 1),
{
    limit.saturating_add(hot_record_count).saturating_add(1)
}

pub fn predicate_scan_target(limit: usize) -> (n: usize)
    ensures
        n == crate::util::sat_usize(limit + 1),
{
    limit.saturating_add(1)
}


/// A table of the database schema, by the names that request paths are
/// checked against: its own name and the names of its nested tables.
pub struct SchemaTable {
    pub name: String,
    pub nested: Vec<String>,
}

/// The first table of the schema with the name `t`.
pub open spec fn find_table(ts: Seq<SchemaTable>, t: Seq<char>) -> Option<SchemaTable>
    decreases ts.len(),
{
    if ts.len() == 0 {
        None
    } else if ts[0].name@ == t {
        Some(ts[0])
    } else {
        find_table(ts.drop_first(), t)
    }
}

/// Whether the schema's table `t` has the nested table `n`.
pub open spec fn has_nested_table(ts: Seq<SchemaTable>, t: Seq<char>, n: Seq<char>) -> bool {
    match find_table(ts, t) {
        Some(table) => string_views(table.nested@).contains(n),
        None => false,
    }
}

/// The index of the schema's table `t`.
pub fn find_table_index(tables: &Vec<SchemaTable>, t: &str) -> (r: Option<usize>)
    ensures
        match r {
            Some(i) => i < tables@.len() && find_table(tables@, t@) == Some(tables@[i as int]),
            None => find_table(tables@, t@) is None,
        },
{
    let tc = chars_of(t);
    let mut i: usize = 0;
    assert(tables@.skip(0) =~= tables@);
    while i < tables.len()
        invariant
            i <= tables@.len(),
            tc@ == t@,
            find_table(tables@, t@) == find_table(tables@.skip(i as int), t@),
        decreases tables@.len() - i,
    {
        assert(tables@.skip(i as int).drop_first() =~= tables@.skip(i + 1));
        assert(tables@.skip(i as int)[0] == tables@[i as int]);
        let n = chars_of(tables[i].name.as_str());
        if chars_eq(n.as_slice(), tc.as_slice()) {
            return Some(i);
        }
        i = i + 1;
    }
    assert(tables@.skip(i as int).len() == 0);
    None
}

/// The error of a request path that names `table`, if any.
pub open spec fn table_path_error(table: Seq<char>, ts: Seq<SchemaTable>) -> Option<(ApiErrorKind, Seq<char>)> {
    if !safe_component(table) {
        Some((ApiErrorKind::BadRequest, "invalid table name"@))
    } else if find_table(ts, table) is None {
        Some((ApiErrorKind::NotFound, "table not found"@))
    } else {
        None
    }
}

/// The error of a request path that names the record `key` of `table`.
pub open spec fn record_path_error(table: Seq<char>, key: Seq<char>, ts: Seq<SchemaTable>) -> Option<(ApiErrorKind, Seq<char>)> {
    if table_path_error(table, ts) is Some {
        table_path_error(table, ts)
    } else if !safe_component(key) {
        Some((ApiErrorKind::BadRequest, "invalid record key"@))
    } else {
        None
    }
}

/// The error of a request path that names the nested table `nested` under the
/// record `parent_key` of `table`.
pub open spec fn nested_table_path_error(
    table: Seq<char>,
    parent_key: Seq<char>,
    nested: Seq<char>,
    ts: Seq<SchemaTable>,
) -> Option<(ApiErrorKind, Seq<char>)> {
    if table_path_error(table, ts) is Some {
        table_path_error(table, ts)
    } else if !safe_component(parent_key) {
        Some((ApiErrorKind::BadRequest, "invalid parent record key"@))
    } else if !safe_component(nested) {
        Some((ApiErrorKind::BadRequest, "invalid nested table name"@))
    } else if !has_nested_table(ts, table, nested) {
        Some((ApiErrorKind::NotFound, "nested table not found"@))
    } else {
        None
    }
}

/// The error of a request path that names a nested record.
pub open spec fn nested_record_path_error(
    table: Seq<char>,
    parent_key: Seq<char>,
    nested: Seq<char>,
    nested_key: Seq<char>,
    ts: Seq<SchemaTable>,
) -> Option<(ApiErrorKind, Seq<char>)> {
    if nested_table_path_error(table, parent_key, nested, ts) is Some {
        nested_table_path_error(table, parent_key, nested, ts)
    } else if !safe_component(nested_key) {
        Some((ApiErrorKind::BadRequest, "invalid nested record key"@))
    } else {
        None
    }
}

/// The outcome that an error description stands for.
pub open spec fn matches_error(r: Result<(), ApiError>, e: Option<(ApiErrorKind, Seq<char>)>) -> bool {
    match r {
        Ok(()) => e is None,
        Err(err) => e == Some(api_err(err)),
    }
}

fn bad_request(message: &str) -> (e: ApiError)
    ensures
        e.kind == ApiErrorKind::BadRequest,
        e.message@ == message@,
{
    ApiError::bad_request(crate::text::owned(message))
}

fn not_found(message: &str) -> (e: ApiError)
    ensures
        e.kind == ApiErrorKind::NotFound,
        e.message@ == message@,
{
    ApiError::not_found(crate::text::owned(message))
}

/// Checks that `table` is a safe name of a table of the schema.
pub fn validate_table_path(table: &str, tables: &Vec<SchemaTable>) -> (r: Result<(), ApiError>)
    ensures
        matches_error(r, table_path_error(table@, tables@)),
{
    if !ensure_safe_record_component(table) {
        return Err(bad_request("invalid table name"));
    }
    if find_table_index(tables, table).is_none() {
        return Err(not_found("table not found"));
    }
    Ok(())
}

/// Checks the table and the key of a record path.
pub fn validate_record_path(table: &str, key: &str, tables: &Vec<SchemaTable>) -> (r: Result<(), ApiError>)
    ensures
        matches_error(r, record_path_error(table@, key@, tables@)),
{
    let checked = validate_table_path(table, tables);
    if checked.is_err() {
        return checked;
    }
    if !ensure_safe_record_component(key) {
        return Err(bad_request("invalid record key"));
    }
    Ok(())
}

fn table_has_nested(tables: &Vec<SchemaTable>, table: &str, nested: &str) -> (b: bool)
    ensures
        b == has_nested_table(tables@, table@, nested@),
{
    match find_table_index(tables, table) {
        Some(i) => list_contains(&tables[i].nested, nested),
        None => false,
    }
}

/// Checks the table, the parent key and the nested table of a nested path.
pub fn validate_nested_table_path(
    table: &str,
    parent_key: &str,
    nested: &str,
    tables: &Vec<SchemaTable>,
) -> (r: Result<(), ApiError>)
    ensures
        matches_error(r, nested_table_path_error(table@, parent_key@, nested@, tables@)),
{
    let checked = validate_table_path(table, tables);
    if checked.is_err() {
        return checked;
    }
    if !ensure_safe_record_component(parent_key) {
        return Err(bad_request("invalid parent record key"));
    }
    if !ensure_safe_record_component(nested) {
        return Err(bad_request("invalid nested table name"));
    }
    if !table_has_nested(tables, table, nested) {
        return Err(not_found("nested table not found"));
    }
    Ok(())
}

/// Checks a nested table path and the nested record's key.
pub fn validate_nested_record_path(
    table: &str,
    parent_key: &str,
    nested: &str,
    nested_key: &str,
    tables: &Vec<SchemaTable>,
) -> (r: Result<(), ApiError>)
    ensures
        matches_error(r, nested_record_path_error(table@, parent_key@, nested@, nested_key@, tables@)),
{
    let checked = validate_nested_table_path(table, parent_key, nested, tables);
    if checked.is_err() {
        return checked;
    }
    if !ensure_safe_record_component(nested_key) {
        return Err(bad_request("invalid nested record key"));
    }
    Ok(())
}


/// Whether a record is on `shard` among `shard_count`, its table and key
/// hashed as `table:key`; every record is, where no shard is asked for.
pub fn record_matches_shard(record: &DbRecord, shard: Option<usize>, shard_count: usize) -> (b: bool)
    ensures
        b == match shard {
            Some(sh) => crate::util::shard_of(colon(record.table@, record.key@), shard_count as nat) == sh as nat,
            None => true,
        },
{
    match shard {
        None => true,
        Some(sh) => {
            let k = join_with(record.table.as_str(), ':', record.key.as_str());
            crate::util::shard_index(k.as_str(), shard_count) == sh
        },
    }
}

/// What `ensure_transaction_partition` answers, and the nested partition it
/// leaves: a nested operation fixes the transaction's nested partition, which
/// every later operation must share, and nested operations cannot join a
/// transaction that touched another partition.
pub open spec fn partition_check(
    touched: Seq<Seq<char>>,
    nested: Option<Seq<char>>,
    partition: Seq<char>,
    is_nested: bool,
) -> (Option<Seq<char>>, Option<Seq<char>>) {
    if is_nested {
        match nested {
            Some(existing) => if existing != partition {
                (
                    nested,
                    Some(
                        "nested transaction operations must target one parent partition; got "@ + existing
                            + " and "@ + partition,
                    ),
                )
            } else if exists|i: int| 0 <= i < touched.len() && touched[i] != partition {
                (nested, Some("nested transaction operations must not be mixed with a different partition than "@ + partition))
            } else {
                (nested, None)
            },
            None => if exists|i: int| 0 <= i < touched.len() && touched[i] != partition {
                (Some(partition), Some("nested transaction operations must not be mixed with a different partition than "@ + partition))
            } else {
                (Some(partition), None)
            },
        }
    } else if nested is Some && nested->Some_0 != partition {
        (nested, Some("nested transaction operations must not be mixed with top-level partition "@ + partition))
    } else {
        (nested, None)
    }
}

/// Records the partition a transaction operation touches; refuses a nested
/// operation outside the transaction's one nested partition.
#[verifier::loop_isolation(false)]
pub fn ensure_transaction_partition(
    touched_partitions: &mut Vec<String>,
    nested_partition: &mut Option<String>,
    partition: &str,
    is_nested: bool,
) -> (r: Result<(), ApiError>)
    ensures
        ({
            let (nested_after, error) = partition_check(
                string_views(old(touched_partitions)@),
                crate::model::opt_str_view(*old(nested_partition)),
                partition@,
                is_nested,
            );
            &&& crate::model::opt_str_view(*final(nested_partition)) == nested_after
            &&& match r {
                Ok(()) => error is None && string_views(final(touched_partitions)@).to_set()
                    == string_views(old(touched_partitions)@).to_set().insert(partition@),
                Err(e) => error == Some(e.message@) && e.kind == ApiErrorKind::BadRequest
                    && final(touched_partitions)@ == old(touched_partitions)@,
            }
        }),
{
    let p = chars_of(partition);
    let ghost touched = string_views(touched_partitions@);
    if is_nested {
        match nested_partition {
            Some(existing) => {
                let e = chars_of(existing.as_str());
                if !chars_eq(e.as_slice(), p.as_slice()) {
                    let msg = cat4(
                        "nested transaction operations must target one parent partition; got ",
                        existing.as_str(),
                        " and ",
                        partition,
                    );
                    return Err(ApiError::bad_request(msg));
                }
            },
            None => {
                *nested_partition = Some(crate::text::owned(partition));
            },
        }
        let mut i: usize = 0;
        while i < touched_partitions.len()
            invariant
                i <= touched_partitions@.len(),
                p@ == partition@,
                touched == string_views(touched_partitions@),
                forall|j: int| 0 <= j < i ==> touched[j] == partition@,
            decreases touched_partitions@.len() - i,
        {
            let t = chars_of(touched_partitions[i].as_str());
            if !chars_eq(t.as_slice(), p.as_slice()) {
                assert(touched[i as int] != partition@);
                let msg = cat2(
                    "nested transaction operations must not be mixed with a different partition than ",
                    partition,
                );
                return Err(ApiError::bad_request(msg));
            }
            i = i + 1;
        }
    } else {
        match nested_partition {
            Some(existing) => {
                let e = chars_of(existing.as_str());
                if !chars_eq(e.as_slice(), p.as_slice()) {
                    let msg = cat2("nested transaction operations must not be mixed with top-level partition ", partition);
                    return Err(ApiError::bad_request(msg));
                }
            },
            None => {},
        }
    }
    if !list_contains(touched_partitions, partition) {
        let ghost before = touched_partitions@;
        touched_partitions.push(crate::text::owned(partition));
        assert(string_views(touched_partitions@) =~= string_views(before).push(partition@));
        proof {
            string_views(before).lemma_push_to_set_commute(partition@);
        }
    } else {
        assert(string_views(touched_partitions@).to_set().contains(partition@));
        assert(string_views(touched_partitions@).to_set() =~= string_views(touched_partitions@).to_set().insert(partition@));
    }
    Ok(())
}

} // verus!

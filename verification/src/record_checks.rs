//! Checks a record write makes before it is accepted: that the document's
//! own ids agree with the path it is written to, and that the version the
//! writer expected is the current one.
use vstd::prelude::*;
use crate::api_error::{ApiError, ApiErrorKind, api_err};
use crate::failover::decimal_string;
use crate::json::{JsonValue, JsonView};
use crate::predicate_fields::{path_lookup, value_at_field_path};
use crate::records::{
    DbRecord, SchemaTable, matches_error, nested_record_path_error, record_path_error, validate_nested_record_path,
    validate_record_path,
};
use crate::text::{cat4, decimal, owned, split_char, str_eq};

verus! {

/// The member `name` (a name without dots) of an object.
pub open spec fn top_member(v: JsonView, name: Seq<char>) -> Option<JsonView> {
    path_lookup(v, split_char(name, '.'))
}

/// The member `name` of an object where it is a string.
pub open spec fn string_member(v: JsonView, name: Seq<char>) -> Option<Seq<char>> {
    match top_member(v, name) {
        Some(JsonView::String(s)) => Some(s),
        _ => None,
    }
}

/// The parent a nested record's document names: its `parentId` where it has
/// that member, else its `parentKey`; only where that member is a string.
pub open spec fn named_parent(v: JsonView) -> Option<Seq<char>> {
    match top_member(v, "parentId"@) {
        Some(JsonView::String(s)) => Some(s),
        Some(_) => None,
        None => string_member(v, "parentKey"@),
    }
}

fn string_member_of(value: &JsonValue, name: &str) -> (r: Option<String>)
    ensures
        match r {
            Some(s) => string_member(value@, name@) == Some(s@),
            None => string_member(value@, name@) is None,
        },
{
    match value_at_field_path(value, name) {
        Some(JsonValue::String(s)) => Some(s.clone()),
        _ => None,
    }
}

/// The error of writing a record: its path's error, else the error the
/// schema found in the document (`schema_check`), else a document whose `id`
/// names another key.
pub open spec fn record_identity_error(
    table: Seq<char>,
    key: Seq<char>,
    value: JsonView,
    ts: Seq<SchemaTable>,
    schema_check: Result<(), Seq<char>>,
) -> Option<(ApiErrorKind, Seq<char>)> {
    if record_path_error(table, key, ts) is Some {
        record_path_error(table, key, ts)
    } else if schema_check is Err {
        Some((ApiErrorKind::BadRequest, schema_check->Err_0))
    } else if string_member(value, "id"@) is Some && string_member(value, "id"@)->Some_0 != key {
        Some((ApiErrorKind::BadRequest, "record value.id must match key"@))
    } else {
        None
    }
}

/// The views of a schema check's result.
pub open spec fn check_view(c: Result<(), String>) -> Result<(), Seq<char>> {
    match c {
        Ok(()) => Ok(()),
        Err(m) => Err(m@),
    }
}

/// Checks a record written to `table`/`key`: its path, then the schema's
/// verdict on its document (`schema_check`, the schema's error text where it
/// refused it), then that a string `id` in the document is the key.
pub fn validate_record_identity(
    table: &str,
    key: &str,
    value: &JsonValue,
    tables: &Vec<SchemaTable>,
    schema_check: Result<(), String>,
) -> (r: Result<(), ApiError>)
    ensures
        matches_error(r, record_identity_error(table@, key@, value@, tables@, check_view(schema_check))),
{
    let path = validate_record_path(table, key, tables);
    if path.is_err() {
        return path;
    }
    if let Err(m) = schema_check {
        return Err(ApiError::bad_request(m));
    }
    if let Some(id) = string_member_of(value, "id") {
        if !str_eq(id.as_str(), key) {
            return Err(ApiError::bad_request(owned("record value.id must match key")));
        }
    }
    Ok(())
}

/// The error of writing a nested record: as for a record, and also a
/// document that names another parent.
pub open spec fn nested_record_identity_error(
    table: Seq<char>,
    parent_key: Seq<char>,
    nested: Seq<char>,
    nested_key: Seq<char>,
    value: JsonView,
    ts: Seq<SchemaTable>,
    schema_check: Result<(), Seq<char>>,
) -> Option<(ApiErrorKind, Seq<char>)> {
    if nested_record_path_error(table, parent_key, nested, nested_key, ts) is Some {
        nested_record_path_error(table, parent_key, nested, nested_key, ts)
    } else if schema_check is Err {
        Some((ApiErrorKind::BadRequest, schema_check->Err_0))
    } else if string_member(value, "id"@) is Some && string_member(value, "id"@)->Some_0 != nested_key {
        Some((ApiErrorKind::BadRequest, "nested record value.id must match key"@))
    } else if named_parent(value) is Some && named_parent(value)->Some_0 != parent_key {
        Some((ApiErrorKind::BadRequest, "nested record parentId/parentKey must match parent key"@))
    } else {
        None
    }
}

/// Checks a nested record written under `table`/`parent_key`/`nested`/
/// `nested_key`: its path, the schema's verdict, its `id`, and the parent it
/// names.
pub fn validate_nested_record_identity(
    table: &str,
    parent_key: &str,
    nested: &str,
    nested_key: &str,
    value: &JsonValue,
    tables: &Vec<SchemaTable>,
    schema_check: Result<(), String>,
) -> (r: Result<(), ApiError>)
    ensures
        matches_error(
            r,
            nested_record_identity_error(
                table@,
                parent_key@,
                nested@,
                nested_key@,
                value@,
                tables@,
                check_view(schema_check),
            ),
        ),
{
    let path = validate_nested_record_path(table, parent_key, nested, nested_key, tables);
    if path.is_err() {
        return path;
    }
    if let Err(m) = schema_check {
        return Err(ApiError::bad_request(m));
    }
    if let Some(id) = string_member_of(value, "id") {
        if !str_eq(id.as_str(), nested_key) {
            return Err(ApiError::bad_request(owned("nested record value.id must match key")));
        }
    }
    let parent = match value_at_field_path(value, "parentId") {
        Some(JsonValue::String(s)) => Some(s.clone()),
        Some(_) => None,
        None => string_member_of(value, "parentKey"),
    };
    if let Some(p) = parent {
        if !str_eq(p.as_str(), parent_key) {
            return Err(ApiError::bad_request(owned("nested record parentId/parentKey must match parent key")));
        }
    }
    Ok(())
}

/// Checks that a write finds the version it expected: the current LSN of
/// the record (0 where there is none) must be the expected one, where one is
/// given. Gives the current LSN.
pub fn ensure_expected_record_lsn(current: Option<&DbRecord>, expected_lsn: Option<u64>) -> (r: Result<u64, ApiError>)
    ensures
        ({
            let current_lsn: u64 = match current {
                Some(c) => c.lsn,
                None => 0,
            };
            match expected_lsn {
                Some(e) if e != current_lsn => r matches Err(err) && err.kind == ApiErrorKind::Conflict
                    && err.message@ == "record version conflict: expected lsn "@ + decimal(e as nat) + ", found "@
                    + decimal(current_lsn as nat),
                _ => r == Ok::<u64, ApiError>(current_lsn),
            }
        }),
{
    let current_lsn = match current {
        Some(c) => c.lsn,
        None => 0,
    };
    if let Some(e) = expected_lsn {
        if current_lsn != e {
            let a = decimal_string(e);
            let b = decimal_string(current_lsn);
            return Err(ApiError::conflict(cat4("record version conflict: expected lsn ", a.as_str(), ", found ", b.as_str())));
        }
    }
    Ok(current_lsn)
}

/// What the in-memory state says of a record.
pub enum LiveRecord {
    /// The record as it stands in memory.
    Present(DbRecord),
    /// Deleted, and the delete is durable.
    Deleted,
    /// Not known in memory: the stored record stands.
    Unknown,
}

/// What the in-memory state says of a record, from its hot entry (`None`
/// where it has none; `Some(None)` where the entry is a delete) and whether
/// a durable delete of it is recorded. A hot delete that is not yet durable
/// says nothing.
pub fn live_record_state(hot: Option<Option<DbRecord>>, durable_delete: bool) -> (r: LiveRecord)
    ensures
        match hot {
            Some(Some(rec)) => r == LiveRecord::Present(rec),
            Some(None) => if durable_delete {
                r == LiveRecord::Deleted
            } else {
                r == LiveRecord::Unknown
            },
            None => r == LiveRecord::Unknown,
        },
{
    match hot {
        Some(Some(rec)) => LiveRecord::Present(rec),
        Some(None) => if durable_delete {
            LiveRecord::Deleted
        } else {
            LiveRecord::Unknown
        },
        None => LiveRecord::Unknown,
    }
}

} // verus!

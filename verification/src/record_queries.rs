//! What a record query decides before it reads anything and after: the
//! checks it makes, in their order, which table, prefix and start key it
//! reads, whether it looks up a range or exact values of an index, whether a
//! filter applies, and the key a next page starts after.
use vstd::prelude::*;
use crate::api_error::{ApiError, ApiErrorKind, api_err};
use crate::index_query::{
    QueryRecordsByIndexQuery, all_scalar, count_message, parse_index_bound_values, parse_index_query_values, scalar,
};
use crate::json::JsonValue;
use crate::predicate_fields::{RecordPredicate, predicate_error, validate_record_predicate};
use crate::record_store::{ensure_safe_record_component, safe_component};
use crate::records::{
    DbRecord, SchemaTable, colon, dot, nested_key_from_logical_key, nested_key_of, nested_record_key,
    nested_record_prefix, nested_record_table, nested_table_path_error, table_path_error, validate_nested_table_path,
    validate_table_path,
};
use crate::text::{owned, str_eq};

verus! {

/// An error as its kind and message.
pub type Failure = (ApiErrorKind, Seq<char>);

/// What parsing the value parameters of an index query gave: each `..values`
/// parameter parsed as a JSON array (its error text where that failed), and
/// each single value as `parse_index_value` reads it; none where the query
/// has no such parameter.
pub struct ParsedIndexParams {
    pub values: Option<Result<Vec<JsonValue>, String>>,
    pub value: Option<JsonValue>,
    pub lower_values: Option<Result<Vec<JsonValue>, String>>,
    pub lower: Option<JsonValue>,
    pub upper_values: Option<Result<Vec<JsonValue>, String>>,
    pub upper: Option<JsonValue>,
}

/// The values of an exact lookup on an index of `n` fields, or why they are
/// refused (as `parse_index_query_values` decides).
pub open spec fn values_outcome(values: Option<Result<Vec<JsonValue>, String>>, single: Option<JsonValue>, n: nat) -> Result<
    Seq<JsonValue>,
    Failure,
> {
    match values {
        Some(Err(t)) => Err((ApiErrorKind::BadRequest, "invalid values JSON: "@ + t@)),
        Some(Ok(vs)) => if vs@.len() != n {
            Err((ApiErrorKind::BadRequest, count_message("index"@, n, vs@.len())))
        } else if !all_scalar(vs@) {
            Err((ApiErrorKind::BadRequest, "index query values must be scalar"@))
        } else {
            Ok(vs@)
        },
        None => match single {
            None => Err((ApiErrorKind::BadRequest, "value or values is required"@)),
            Some(v) => if n != 1 {
                Err((ApiErrorKind::BadRequest, count_message("index"@, n, 1)))
            } else if !scalar(v@) {
                Err((ApiErrorKind::BadRequest, "index query values must be scalar"@))
            } else {
                Ok(seq![v])
            },
        },
    }
}

/// One bound of a range lookup on an index of `n` fields: none where the
/// query gives none, or why it is refused (as `parse_index_bound_values`
/// decides).
pub open spec fn bound_outcome(values: Option<Result<Vec<JsonValue>, String>>, single: Option<JsonValue>, n: nat) -> Result<
    Option<Seq<JsonValue>>,
    Failure,
> {
    match values {
        Some(Err(t)) => Err((ApiErrorKind::BadRequest, "invalid values JSON: "@ + t@)),
        _ => {
            let given: Option<Seq<JsonValue>> = match values {
                Some(Ok(vs)) => Some(vs@),
                _ => match single {
                    Some(v) => Some(seq![v]),
                    None => None,
                },
            };
            match given {
                None => Ok(None),
                Some(vs) => if vs.len() != n {
                    Err((ApiErrorKind::BadRequest, count_message("index range bound"@, n, vs.len())))
                } else if !all_scalar(vs) {
                    Err((ApiErrorKind::BadRequest, "index range values must be scalar"@))
                } else {
                    Ok(Some(vs))
                },
            }
        },
    }
}

/// How an index is read.
pub enum IndexLookup {
    /// The entries between two bounds (either may be missing).
    Range { lower: Option<Vec<JsonValue>>, upper: Option<Vec<JsonValue>> },
    /// The entries of exactly these values.
    Exact { values: Vec<JsonValue> },
}

pub enum LookupView {
    Range(Option<Seq<JsonValue>>, Option<Seq<JsonValue>>),
    Exact(Seq<JsonValue>),
}

pub open spec fn opt_values_view(o: Option<Vec<JsonValue>>) -> Option<Seq<JsonValue>> {
    match o {
        Some(v) => Some(v@),
        None => None,
    }
}

pub open spec fn lookup_view(l: IndexLookup) -> LookupView {
    match l {
        IndexLookup::Range { lower, upper } => LookupView::Range(opt_values_view(lower), opt_values_view(upper)),
        IndexLookup::Exact { values } => LookupView::Exact(values@),
    }
}

/// The lookup a query asks for on an index of `n` fields: a range where it
/// names a bound or a cursor (lower bound first, then upper), else exact
/// values.
pub open spec fn lookup_outcome(range: bool, p: ParsedIndexParams, n: nat) -> Result<LookupView, Failure> {
    if range {
        match bound_outcome(p.lower_values, p.lower, n) {
            Err(e) => Err(e),
            Ok(lo) => match bound_outcome(p.upper_values, p.upper, n) {
                Err(e) => Err(e),
                Ok(hi) => Ok(LookupView::Range(lo, hi)),
            },
        }
    } else {
        match values_outcome(p.values, p.value, n) {
            Err(e) => Err(e),
            Ok(v) => Ok(LookupView::Exact(v)),
        }
    }
}

/// Whether the query names a bound or a cursor.
pub open spec fn is_range(q: QueryRecordsByIndexQuery) -> bool {
    q.lower is Some || q.upper is Some || q.lower_values is Some || q.upper_values is Some || q.after_cursor is Some
}

/// The number of fields of the index named `name`: the first of that name.
pub open spec fn index_fields(indexes: Seq<(String, usize)>, name: Seq<char>) -> Option<usize>
    decreases indexes.len(),
{
    if indexes.len() == 0 {
        None
    } else if indexes[0].0@ == name {
        Some(indexes[0].1)
    } else {
        index_fields(indexes.drop_first(), name)
    }
}

fn find_index_fields(indexes: &Vec<(String, usize)>, name: &str) -> (r: Option<usize>)
    ensures
        r == index_fields(indexes@, name@),
{
    let mut i: usize = 0;
    assert(indexes@.skip(0) =~= indexes@);
    while i < indexes.len()
        invariant
            i <= indexes@.len(),
            index_fields(indexes@, name@) == index_fields(indexes@.skip(i as int), name@),
        decreases indexes@.len() - i,
    {
        assert(indexes@.skip(i as int).drop_first() =~= indexes@.skip(i as int + 1));
        if str_eq(indexes[i].0.as_str(), name) {
            return Some(indexes[i].1);
        }
        i = i + 1;
    }
    None
}

/// What a record query reads: the logical table, the parent key and key
/// prefix of a nested table, the key it starts after, how it reads the
/// index (for an index query), whether a filter (predicate or shard)
/// applies, and how many records it returns.
pub struct RecordQueryPlan {
    pub logical_table: String,
    pub parent_key: Option<String>,
    pub key_prefix: Option<String>,
    pub after_key: Option<String>,
    pub lookup: Option<IndexLookup>,
    pub filtered: bool,
    pub limit: usize,
}

pub struct PlanView {
    pub logical_table: Seq<char>,
    pub parent_key: Option<Seq<char>>,
    pub key_prefix: Option<Seq<char>>,
    pub after_key: Option<Seq<char>>,
    pub lookup: Option<LookupView>,
    pub filtered: bool,
    pub limit: usize,
}

pub open spec fn opt_text(o: Option<String>) -> Option<Seq<char>> {
    match o {
        Some(s) => Some(s@),
        None => None,
    }
}

pub open spec fn plan_view(p: RecordQueryPlan) -> PlanView {
    PlanView {
        logical_table: p.logical_table@,
        parent_key: opt_text(p.parent_key),
        key_prefix: opt_text(p.key_prefix),
        after_key: opt_text(p.after_key),
        lookup: match p.lookup {
            Some(l) => Some(lookup_view(l)),
            None => None,
        },
        filtered: p.filtered,
        limit: p.limit,
    }
}

/// The predicate's error, if the query has a predicate that is refused.
pub open spec fn query_predicate_error(predicate: Option<RecordPredicate>) -> Option<Seq<char>> {
    match predicate {
        Some(p) => predicate_error(p),
        None => None,
    }
}

/// The start key of a nested read: the query's key under the parent.
pub open spec fn nested_after(parent_key: Seq<char>, after_key: Option<String>) -> Option<Seq<char>> {
    match after_key {
        Some(k) => Some(colon(parent_key, k@)),
        None => None,
    }
}

/// What an index query decides. A nested table's query (`nested` given)
/// checks, in order: its predicate, that a parent key is given, the nested
/// table's path, the index name, the schema's index list of the nested table
/// (`indexes`, its error text where the schema refused), that the index
/// exists, then the values it reads by. A table's query checks its
/// predicate, the table's path, the index name, the index list, that the
/// index exists, that a shard it names is among `shard_count`, then the
/// values. `limit` is the query's limit as the server normalizes it.
pub open spec fn index_query_outcome(
    table: Seq<char>,
    parent_key: Option<Seq<char>>,
    nested: Option<Seq<char>>,
    index_name: Seq<char>,
    q: QueryRecordsByIndexQuery,
    p: ParsedIndexParams,
    ts: Seq<SchemaTable>,
    indexes: Result<Seq<(String, usize)>, Seq<char>>,
    shard_count: nat,
    limit: usize,
) -> Result<PlanView, Failure> {
    if query_predicate_error(q.predicate) is Some {
        Err((ApiErrorKind::BadRequest, query_predicate_error(q.predicate)->Some_0))
    } else if nested is Some {
        let n = nested->Some_0;
        if parent_key is None {
            Err((ApiErrorKind::BadRequest, "parentKey is required"@))
        } else if nested_table_path_error(table, parent_key->Some_0, n, ts) is Some {
            Err(nested_table_path_error(table, parent_key->Some_0, n, ts)->Some_0)
        } else if !safe_component(index_name) {
            Err((ApiErrorKind::BadRequest, "invalid index name"@))
        } else if indexes is Err {
            Err((ApiErrorKind::BadRequest, indexes->Err_0))
        } else if index_fields(indexes->Ok_0, index_name) is None {
            Err((ApiErrorKind::NotFound, "nested index not found"@))
        } else {
            let pk = parent_key->Some_0;
            match lookup_outcome(is_range(q), p, index_fields(indexes->Ok_0, index_name)->Some_0 as nat) {
                Err(e) => Err(e),
                Ok(l) => Ok(
                    PlanView {
                        logical_table: dot(table, n),
                        parent_key: Some(pk),
                        key_prefix: Some(pk + seq![':']),
                        after_key: nested_after(pk, q.after_key),
                        lookup: Some(l),
                        filtered: q.predicate is Some,
                        limit,
                    },
                ),
            }
        }
    } else if table_path_error(table, ts) is Some {
        Err(table_path_error(table, ts)->Some_0)
    } else if !safe_component(index_name) {
        Err((ApiErrorKind::BadRequest, "invalid index name"@))
    } else if indexes is Err {
        Err((ApiErrorKind::BadRequest, indexes->Err_0))
    } else if index_fields(indexes->Ok_0, index_name) is None {
        Err((ApiErrorKind::NotFound, "index not found"@))
    } else if q.shard is Some && q.shard->Some_0 >= shard_count {
        Err((ApiErrorKind::BadRequest, "shard is out of range"@))
    } else {
        match lookup_outcome(is_range(q), p, index_fields(indexes->Ok_0, index_name)->Some_0 as nat) {
            Err(e) => Err(e),
            Ok(l) => Ok(
                PlanView {
                    logical_table: table,
                    parent_key: None,
                    key_prefix: None,
                    after_key: opt_text(q.after_key),
                    lookup: Some(l),
                    filtered: q.predicate is Some || q.shard is Some,
                    limit,
                },
            ),
        }
    }
}

pub open spec fn opt_str_view(o: Option<&str>) -> Option<Seq<char>> {
    match o {
        Some(s) => Some(s@),
        None => None,
    }
}

/// Whether the result of a plan is the outcome.
pub open spec fn plan_is(r: Result<RecordQueryPlan, ApiError>, outcome: Result<PlanView, Failure>) -> bool {
    match r {
        Ok(p) => outcome == Ok::<PlanView, Failure>(plan_view(p)),
        Err(e) => outcome == Err::<PlanView, Failure>(api_err(e)),
    }
}

fn copy_opt(o: &Option<String>) -> (r: Option<String>)
    ensures
        r == *o,
{
    match o {
        Some(s) => Some(s.clone()),
        None => None,
    }
}

fn lookup_of(range: bool, p: ParsedIndexParams, n: usize) -> (r: Result<IndexLookup, ApiError>)
    ensures
        match r {
            Ok(l) => lookup_outcome(range, p, n as nat) == Ok::<LookupView, Failure>(lookup_view(l)),
            Err(e) => lookup_outcome(range, p, n as nat) == Err::<LookupView, Failure>(api_err(e)),
        },
{
    let ghost p0 = p;
    if range {
        let lower = parse_index_bound_values(p.lower_values, p.lower, n);
        match lower {
            Err(e) => Err(e),
            Ok(lo) => {
                let upper = parse_index_bound_values(p.upper_values, p.upper, n);
                match upper {
                    Err(e) => Err(e),
                    Ok(hi) => Ok(IndexLookup::Range { lower: lo, upper: hi }),
                }
            },
        }
    } else {
        match parse_index_query_values(p.values, p.value, n) {
            Err(e) => Err(e),
            Ok(v) => Ok(IndexLookup::Exact { values: v }),
        }
    }
}

/// Plans an index query, as `index_query_outcome` says.
pub fn plan_record_index_query(
    table: &str,
    parent_key: &Option<String>,
    nested: &Option<String>,
    index_name: &str,
    query: &QueryRecordsByIndexQuery,
    params: ParsedIndexParams,
    tables: &Vec<SchemaTable>,
    indexes: Result<Vec<(String, usize)>, String>,
    shard_count: usize,
    limit: usize,
) -> (r: Result<RecordQueryPlan, ApiError>)
    ensures
        plan_is(
            r,
            index_query_outcome(
                table@,
                opt_text(*parent_key),
                opt_text(*nested),
                index_name@,
                *query,
                params,
                tables@,
                match indexes {
                    Ok(v) => Ok(v@),
                    Err(t) => Err(t@),
                },
                shard_count as nat,
                limit,
            ),
        ),
{
    if let Some(predicate) = &query.predicate {
        let checked = validate_record_predicate(predicate);
        if let Err(e) = checked {
            return Err(e);
        }
    }
    let range = query.is_range_query();
    if let Some(n) = nested {
        let pk = match parent_key {
            Some(pk) => pk,
            None => {
                return Err(ApiError::bad_request(owned("parentKey is required")));
            },
        };
        let path = validate_nested_table_path(table, pk.as_str(), n.as_str(), tables);
        if let Err(e) = path {
            return Err(e);
        }
        if !ensure_safe_record_component(index_name) {
            return Err(ApiError::bad_request(owned("invalid index name")));
        }
        let list = match indexes {
            Err(t) => {
                return Err(ApiError::bad_request(t));
            },
            Ok(list) => list,
        };
        let fields = match find_index_fields(&list, index_name) {
            Some(f) => f,
            None => {
                return Err(ApiError::not_found(owned("nested index not found")));
            },
        };
        let lookup = match lookup_of(range, params, fields) {
            Err(e) => {
                return Err(e);
            },
            Ok(l) => l,
        };
        let after_key = match &query.after_key {
            Some(k) => Some(nested_record_key(pk.as_str(), k.as_str())),
            None => None,
        };
        return Ok(
            RecordQueryPlan {
                logical_table: nested_record_table(table, n.as_str()),
                parent_key: Some(pk.clone()),
                key_prefix: Some(nested_record_prefix(pk.as_str())),
                after_key,
                lookup: Some(lookup),
                filtered: query.predicate.is_some(),
                limit,
            },
        );
    }
    let path = validate_table_path(table, tables);
    if let Err(e) = path {
        return Err(e);
    }
    if !ensure_safe_record_component(index_name) {
        return Err(ApiError::bad_request(owned("invalid index name")));
    }
    let list = match indexes {
        Err(t) => {
            return Err(ApiError::bad_request(t));
        },
        Ok(list) => list,
    };
    let fields = match find_index_fields(&list, index_name) {
        Some(f) => f,
        None => {
            return Err(ApiError::not_found(owned("index not found")));
        },
    };
    if let Some(s) = query.shard {
        if s >= shard_count {
            return Err(ApiError::bad_request(owned("shard is out of range")));
        }
    }
    let lookup = match lookup_of(range, params, fields) {
        Err(e) => {
            return Err(e);
        },
        Ok(l) => l,
    };
    Ok(
        RecordQueryPlan {
            logical_table: owned(table),
            parent_key: None,
            key_prefix: None,
            after_key: copy_opt(&query.after_key),
            lookup: Some(lookup),
            filtered: query.predicate.is_some() || query.shard.is_some(),
            limit,
        },
    )
}

/// The key a next page starts after: the last record's key, taken under the
/// parent key for a nested table (none where it does not lie under it); none
/// where the page is empty.
pub open spec fn next_after_key(records: Seq<DbRecord>, parent_key: Option<Seq<char>>) -> Option<Seq<char>> {
    if records.len() == 0 {
        None
    } else {
        match parent_key {
            None => Some(records.last().key@),
            Some(pk) => nested_key_of(pk, records.last().key@),
        }
    }
}

/// The key a next page starts after, as `next_after_key` says.
pub fn next_after_key_of(records: &Vec<DbRecord>, parent_key: &Option<String>) -> (r: Option<String>)
    ensures
        opt_text(r) == next_after_key(records@, opt_text(*parent_key)),
{
    let n = records.len();
    if n == 0 {
        return None;
    }
    let last = &records[n - 1];
    match parent_key {
        None => Some(last.key.clone()),
        Some(pk) => nested_key_from_logical_key(pk.as_str(), last.key.as_str()),
    }
}


/// A query that lists a table's records.
pub struct ListRecordsQuery {
    pub consistency: crate::index_query::RecordReadConsistencyQuery,
    pub after_key: Option<String>,
    pub after_cursor: Option<String>,
    pub limit: Option<usize>,
    pub order: Option<String>,
    pub shard: Option<usize>,
    pub predicate: Option<RecordPredicate>,
}

/// What a list query reads: the logical table, the parent key and key
/// prefix of a nested table, the key and the order cursor it starts after,
/// whether it reads in the nested table's schema order, whether a filter
/// (predicate or shard) applies, and how many records it returns.
pub struct RecordListPlan {
    pub logical_table: String,
    pub parent_key: Option<String>,
    pub key_prefix: Option<String>,
    pub after_key: Option<String>,
    pub after_cursor: Option<String>,
    pub schema_order: bool,
    pub filtered: bool,
    pub limit: usize,
}

pub struct ListPlanView {
    pub logical_table: Seq<char>,
    pub parent_key: Option<Seq<char>>,
    pub key_prefix: Option<Seq<char>>,
    pub after_key: Option<Seq<char>>,
    pub after_cursor: Option<Seq<char>>,
    pub schema_order: bool,
    pub filtered: bool,
    pub limit: usize,
}

pub open spec fn list_plan_view(p: RecordListPlan) -> ListPlanView {
    ListPlanView {
        logical_table: p.logical_table@,
        parent_key: opt_text(p.parent_key),
        key_prefix: opt_text(p.key_prefix),
        after_key: opt_text(p.after_key),
        after_cursor: opt_text(p.after_cursor),
        schema_order: p.schema_order,
        filtered: p.filtered,
        limit: p.limit,
    }
}

/// What a list query decides. A nested table's query (`nested` given)
/// checks, in order: its predicate, that a parent key is given, the nested
/// table's path, and, where it asks for the schema order, that the nested
/// table has one (`schema_order`, the schema's error text where it has
/// not). In schema order it starts after the order cursor, and after the
/// query's key taken under the parent where a predicate filters (the key as
/// given where none does); in key order it starts after the query's key
/// taken under the parent. A table's query checks its predicate, the table's
/// path, then that a shard it names is among `shard_count`; it reads in key
/// order after the query's key. `limit` is the query's limit as the server
/// normalizes it.
pub open spec fn list_query_outcome(
    table: Seq<char>,
    parent_key: Option<Seq<char>>,
    nested: Option<Seq<char>>,
    q: ListRecordsQuery,
    ts: Seq<SchemaTable>,
    schema_order: Result<(), Seq<char>>,
    shard_count: nat,
    limit: usize,
) -> Result<ListPlanView, Failure> {
    if query_predicate_error(q.predicate) is Some {
        Err((ApiErrorKind::BadRequest, query_predicate_error(q.predicate)->Some_0))
    } else if nested is Some {
        let n = nested->Some_0;
        if parent_key is None {
            Err((ApiErrorKind::BadRequest, "parentKey is required"@))
        } else if nested_table_path_error(table, parent_key->Some_0, n, ts) is Some {
            Err(nested_table_path_error(table, parent_key->Some_0, n, ts)->Some_0)
        } else {
            let pk = parent_key->Some_0;
            let by_schema = opt_text(q.order) == Some("schema"@);
            if by_schema && schema_order is Err {
                Err((ApiErrorKind::BadRequest, schema_order->Err_0))
            } else {
                Ok(
                    ListPlanView {
                        logical_table: dot(table, n),
                        parent_key: Some(pk),
                        key_prefix: Some(pk + seq![':']),
                        after_key: if by_schema && q.predicate is None {
                            opt_text(q.after_key)
                        } else {
                            nested_after(pk, q.after_key)
                        },
                        after_cursor: if by_schema {
                            opt_text(q.after_cursor)
                        } else {
                            None
                        },
                        schema_order: by_schema,
                        filtered: q.predicate is Some,
                        limit,
                    },
                )
            }
        }
    } else if table_path_error(table, ts) is Some {
        Err(table_path_error(table, ts)->Some_0)
    } else if q.shard is Some && q.shard->Some_0 >= shard_count {
        Err((ApiErrorKind::BadRequest, "shard is out of range"@))
    } else {
        Ok(
            ListPlanView {
                logical_table: table,
                parent_key: None,
                key_prefix: None,
                after_key: opt_text(q.after_key),
                after_cursor: None,
                schema_order: false,
                filtered: q.predicate is Some || q.shard is Some,
                limit,
            },
        )
    }
}

/// Plans a list query, as `list_query_outcome` says.
pub fn plan_record_list_query(
    table: &str,
    parent_key: &Option<String>,
    nested: &Option<String>,
    query: &ListRecordsQuery,
    tables: &Vec<SchemaTable>,
    schema_order: Result<(), String>,
    shard_count: usize,
    limit: usize,
) -> (r: Result<RecordListPlan, ApiError>)
    ensures
        match r {
            Ok(p) => list_query_outcome(
                table@,
                opt_text(*parent_key),
                opt_text(*nested),
                *query,
                tables@,
                match schema_order {
                    Ok(()) => Ok(()),
                    Err(t) => Err(t@),
                },
                shard_count as nat,
                limit,
            ) == Ok::<ListPlanView, Failure>(list_plan_view(p)),
            Err(e) => list_query_outcome(
                table@,
                opt_text(*parent_key),
                opt_text(*nested),
                *query,
                tables@,
                match schema_order {
                    Ok(()) => Ok(()),
                    Err(t) => Err(t@),
                },
                shard_count as nat,
                limit,
            ) == Err::<ListPlanView, Failure>(api_err(e)),
        },
{
    if let Some(predicate) = &query.predicate {
        let checked = validate_record_predicate(predicate);
        if let Err(e) = checked {
            return Err(e);
        }
    }
    if let Some(n) = nested {
        let pk = match parent_key {
            Some(pk) => pk,
            None => {
                return Err(ApiError::bad_request(owned("parentKey is required")));
            },
        };
        let path = validate_nested_table_path(table, pk.as_str(), n.as_str(), tables);
        if let Err(e) = path {
            return Err(e);
        }
        let by_schema = match &query.order {
            Some(o) => str_eq(o.as_str(), "schema"),
            None => false,
        };
        if by_schema {
            if let Err(t) = schema_order {
                return Err(ApiError::bad_request(t));
            }
        }
        let nested_after_key = match &query.after_key {
            Some(k) => Some(nested_record_key(pk.as_str(), k.as_str())),
            None => None,
        };
        let after_key = if by_schema && query.predicate.is_none() {
            copy_opt(&query.after_key)
        } else {
            nested_after_key
        };
        let after_cursor = if by_schema {
            copy_opt(&query.after_cursor)
        } else {
            None
        };
        return Ok(
            RecordListPlan {
                logical_table: nested_record_table(table, n.as_str()),
                parent_key: Some(pk.clone()),
                key_prefix: Some(nested_record_prefix(pk.as_str())),
                after_key,
                after_cursor,
                schema_order: by_schema,
                filtered: query.predicate.is_some(),
                limit,
            },
        );
    }
    let path = validate_table_path(table, tables);
    if let Err(e) = path {
        return Err(e);
    }
    if let Some(s) = query.shard {
        if s >= shard_count {
            return Err(ApiError::bad_request(owned("shard is out of range")));
        }
    }
    Ok(
        RecordListPlan {
            logical_table: owned(table),
            parent_key: None,
            key_prefix: None,
            after_key: copy_opt(&query.after_key),
            after_cursor: None,
            schema_order: false,
            filtered: query.predicate.is_some() || query.shard.is_some(),
            limit,
        },
    )
}

} // verus!

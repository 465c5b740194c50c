//! Record reads by index: which query asks for a range, the values an index
//! query compares with, and the LSN a read must wait for.
use vstd::prelude::*;
use crate::api_error::{ApiError, ApiErrorKind};
use crate::continuation::{num, num_or_null, opt_number_json};
use crate::json::{JsonNumber, JsonValue, JsonView, lemma_object_view, members_view, opt_json_view};
use crate::predicate_fields::RecordPredicate;
use crate::text::{cat2, cat3, cat4, decimal, owned};
use crate::failover::decimal_string;

verus! {

/// How current a record read must be.
#[derive(PartialEq, Eq, Structural, Clone, Copy)]
pub enum RecordReadConsistency {
    Eventual,
    ReadYourWrites,
    Strong,
}

/// The consistency a read asks for, and the LSN that read-your-writes waits
/// for.
pub struct RecordReadConsistencyQuery {
    pub consistency: Option<RecordReadConsistency>,
    pub min_lsn: Option<u64>,
}

impl Default for RecordReadConsistencyQuery {
    fn default() -> (q: Self)
        ensures
            q.consistency is None,
            q.min_lsn is None,
    {
        RecordReadConsistencyQuery { consistency: None, min_lsn: None }
    }
}

/// The LSN a read waits for: none for an eventual read (the default), the
/// given one for read-your-writes (which needs one), the current one for a
/// strong read.
pub fn record_read_wait_lsn(query: &RecordReadConsistencyQuery, current_lsn: u64) -> (r: Result<Option<u64>, ApiError>)
    ensures
        match query.consistency {
            None | Some(RecordReadConsistency::Eventual) => r == Ok::<Option<u64>, ApiError>(None),
            Some(RecordReadConsistency::ReadYourWrites) => match query.min_lsn {
                Some(l) => r == Ok::<Option<u64>, ApiError>(Some(l)),
                None => r matches Err(e) && e.kind == ApiErrorKind::BadRequest
                    && e.message@ == "read-your-writes consistency requires minLsn"@,
            },
            Some(RecordReadConsistency::Strong) => r == Ok::<Option<u64>, ApiError>(Some(current_lsn)),
        },
{
    let level = match query.consistency {
        Some(c) => c,
        None => RecordReadConsistency::Eventual,
    };
    match level {
        RecordReadConsistency::Eventual => Ok(None),
        RecordReadConsistency::ReadYourWrites => match query.min_lsn {
            Some(l) => Ok(Some(l)),
            None => Err(ApiError::bad_request(owned("read-your-writes consistency requires minLsn"))),
        },
        RecordReadConsistency::Strong => Ok(Some(current_lsn)),
    }
}

/// The name of a consistency level, as a request writes it.
pub open spec fn consistency_name(c: RecordReadConsistency) -> Seq<char> {
    match c {
        RecordReadConsistency::Eventual => "eventual"@,
        RecordReadConsistency::ReadYourWrites => "read-your-writes"@,
        RecordReadConsistency::Strong => "strong"@,
    }
}

fn consistency_name_string(c: RecordReadConsistency) -> (s: String)
    ensures
        s@ == consistency_name(c),
{
    match c {
        RecordReadConsistency::Eventual => owned("eventual"),
        RecordReadConsistency::ReadYourWrites => owned("read-your-writes"),
        RecordReadConsistency::Strong => owned("strong"),
    }
}

/// The details of a read whose wait ran out of time: the level it asked for
/// (eventual where it named none), its `minLsn`, the LSN it waited for and
/// the current one.
pub open spec fn projection_lag_details(query: RecordReadConsistencyQuery, lsn: u64, current_lsn: u64) -> JsonView {
    let level = match query.consistency {
        Some(c) => c,
        None => RecordReadConsistency::Eventual,
    };
    JsonView::Object(
        seq![
            ("consistency"@, JsonView::String(consistency_name(level))),
            ("currentLsn"@, num(current_lsn)),
            ("minLsn"@, num_or_null(query.min_lsn)),
            ("waitedForLsn"@, num(lsn)),
        ],
    )
}

/// The error of a read whose wait for `lsn` ran out of time, at
/// `current_lsn`.
pub fn record_projection_lag_error(query: &RecordReadConsistencyQuery, lsn: u64, current_lsn: u64) -> (e: ApiError)
    ensures
        e.kind == ApiErrorKind::Unavailable,
        e.message@ == "record projection did not catch up to LSN "@ + decimal(lsn as nat),
        opt_json_view(e.details) == Some(projection_lag_details(*query, lsn, current_lsn)),
{
    let n = decimal_string(lsn);
    let level = match query.consistency {
        Some(c) => c,
        None => RecordReadConsistency::Eventual,
    };
    let mut members: Vec<(String, JsonValue)> = Vec::new();
    members.push((owned("consistency"), JsonValue::String(consistency_name_string(level))));
    members.push((owned("currentLsn"), JsonValue::Number(JsonNumber::PosInt(current_lsn))));
    members.push((owned("minLsn"), opt_number_json(query.min_lsn)));
    members.push((owned("waitedForLsn"), JsonValue::Number(JsonNumber::PosInt(lsn))));
    proof {
        lemma_object_view(members);
        assert(members_view(members@) =~= projection_lag_details(*query, lsn, current_lsn)->Object_0);
    }
    ApiError::unavailable_with_details(
        cat2("record projection did not catch up to LSN ", n.as_str()),
        JsonValue::Object(members),
    )
}

/// A query of records by an index: exact values, a range, or a page after a
/// cursor.
pub struct QueryRecordsByIndexQuery {
    pub consistency: RecordReadConsistencyQuery,
    pub value: Option<String>,
    pub values: Option<String>,
    pub lower: Option<String>,
    pub upper: Option<String>,
    pub lower_values: Option<String>,
    pub upper_values: Option<String>,
    pub after_key: Option<String>,
    pub after_cursor: Option<String>,
    pub limit: Option<usize>,
    pub shard: Option<usize>,
    pub predicate: Option<RecordPredicate>,
}

impl QueryRecordsByIndexQuery {
    /// Whether the query asks for a range: it names a bound or a cursor.
    pub fn is_range_query(&self) -> (b: bool)
        ensures
            b == (self.lower is Some || self.upper is Some || self.lower_values is Some || self.upper_values
                is Some || self.after_cursor is Some),
    {
        self.lower.is_some() || self.upper.is_some() || self.lower_values.is_some() || self.upper_values.is_some()
            || self.after_cursor.is_some()
    }
}

/// A value an index can hold: a string, a number, a boolean or null.
pub open spec fn scalar(v: JsonView) -> bool {
    v matches JsonView::Null || v matches JsonView::Bool(_) || v matches JsonView::Number(_) || v matches JsonView::String(
        _,
    )
}

/// Every value is a scalar.
pub open spec fn all_scalar(vs: Seq<JsonValue>) -> bool {
    forall|i: int| 0 <= i < vs.len() ==> scalar(#[trigger] vs[i]@)
}

fn is_scalar(v: &JsonValue) -> (b: bool)
    ensures
        b == scalar(v@),
{
    match v {
        JsonValue::Null => true,
        JsonValue::Bool(_) => true,
        JsonValue::Number(_) => true,
        JsonValue::String(_) => true,
        _ => false,
    }
}

fn all_scalar_values(vs: &Vec<JsonValue>) -> (b: bool)
    ensures
        b == all_scalar(vs@),
{
    let mut i: usize = 0;
    while i < vs.len()
        invariant
            i <= vs@.len(),
            forall|j: int| 0 <= j < i ==> scalar(#[trigger] vs@[j]@),
        decreases vs@.len() - i,
    {
        if !is_scalar(&vs[i]) {
            return false;
        }
        i = i + 1;
    }
    true
}

/// The value a single index parameter stands for: the JSON scalar it parses
/// as (`parsed`, none where it is not JSON), else the text itself as a
/// string.
pub fn parse_index_value(text: &str, parsed: Option<JsonValue>) -> (v: JsonValue)
    ensures
        match parsed {
            Some(p) => if scalar(p@) {
                v == p
            } else {
                v@ == JsonView::String(text@)
            },
            None => v@ == JsonView::String(text@),
        },
{
    match parsed {
        Some(p) => {
            if is_scalar(&p) {
                p
            } else {
                JsonValue::String(owned(text))
            }
        },
        None => JsonValue::String(owned(text)),
    }
}

/// `"{what} requires {n} value(s), got {m}"`.
pub open spec fn count_message(what: Seq<char>, n: nat, m: nat) -> Seq<char> {
    what + " requires "@ + decimal(n) + " value(s), got "@ + decimal(m)
}

fn count_error(what: &str, n: usize, m: usize) -> (e: ApiError)
    ensures
        e.kind == ApiErrorKind::BadRequest,
        e.message@ == count_message(what@, n as nat, m as nat),
{
    let a = decimal_string(n as u64);
    let b = decimal_string(m as u64);
    let head = cat3(what, " requires ", a.as_str());
    ApiError::bad_request(cat3(head.as_str(), " value(s), got ", b.as_str()))
}

/// The values of an exact index query. `values` is what parsing the query's
/// `values` parameter as a JSON array gave (its error text where it failed),
/// none where the query has no such parameter; `single` is the query's
/// `value` parameter as `parse_index_value` reads it. The values must be as
/// many as the index has fields, and scalars.
pub fn parse_index_query_values(
    values: Option<Result<Vec<JsonValue>, String>>,
    single: Option<JsonValue>,
    field_count: usize,
) -> (r: Result<Vec<JsonValue>, ApiError>)
    ensures
        match values {
            Some(Err(text)) => (r matches Err(e) && e.kind == ApiErrorKind::BadRequest && e.message@
                == "invalid values JSON: "@ + text@),
            Some(Ok(vs)) => match r {
                Ok(out) => out == vs && vs@.len() == field_count && all_scalar(vs@),
                Err(e) => e.kind == ApiErrorKind::BadRequest && if vs@.len() != field_count {
                    e.message@ == count_message("index"@, field_count as nat, vs@.len())
                } else {
                    !all_scalar(vs@) && e.message@ == "index query values must be scalar"@
                },
            },
            None => match single {
                None => (r matches Err(e) && e.kind == ApiErrorKind::BadRequest && e.message@
                    == "value or values is required"@),
                Some(v) => match r {
                    Ok(out) => out@ == seq![v] && field_count == 1 && scalar(v@),
                    Err(e) => e.kind == ApiErrorKind::BadRequest && if field_count != 1 {
                        e.message@ == count_message("index"@, field_count as nat, 1)
                    } else {
                        !scalar(v@) && e.message@ == "index query values must be scalar"@
                    },
                },
            },
        },
{
    let vs = match values {
        Some(Err(text)) => {
            return Err(ApiError::bad_request(cat2("invalid values JSON: ", text.as_str())));
        },
        Some(Ok(vs)) => vs,
        None => match single {
            Some(v) => {
                let mut one: Vec<JsonValue> = Vec::new();
                one.push(v);
                assert(one@ =~= seq![v]);
                one
            },
            None => {
                return Err(ApiError::bad_request(owned("value or values is required")));
            },
        },
    };
    if vs.len() != field_count {
        return Err(count_error("index", field_count, vs.len()));
    }
    if !all_scalar_values(&vs) {
        proof {
            if values is None {
                assert(scalar(vs@[0]@) == scalar(single->Some_0@));
            }
        }
        return Err(ApiError::bad_request(owned("index query values must be scalar")));
    }
    proof {
        if values is None {
            assert(scalar(vs@[0]@));
        }
    }
    Ok(vs)
}

/// The values of an index prefix query, parsed from its `indexValues`
/// parameter (`parsed`; its error text where parsing failed): at least one,
/// at most as many as the index has fields, all scalars.
pub fn parse_index_prefix_values(
    parsed: Result<Vec<JsonValue>, String>,
    field_count: usize,
) -> (r: Result<Vec<JsonValue>, ApiError>)
    ensures
        match parsed {
            Err(text) => (r matches Err(e) && e.kind == ApiErrorKind::BadRequest && e.message@
                == "invalid indexValues JSON: "@ + text@),
            Ok(vs) => match r {
                Ok(out) => out == vs && 0 < vs@.len() <= field_count && all_scalar(vs@),
                Err(e) => e.kind == ApiErrorKind::BadRequest && if vs@.len() == 0 {
                    e.message@ == "indexValues must not be empty"@
                } else if vs@.len() > field_count {
                    e.message@ == "index prefix accepts at most "@ + decimal(field_count as nat)
                        + " value(s), got "@ + decimal(vs@.len())
                } else {
                    !all_scalar(vs@) && e.message@ == "indexValues must be scalar"@
                },
            },
        },
{
    let vs = match parsed {
        Err(text) => {
            return Err(ApiError::bad_request(cat2("invalid indexValues JSON: ", text.as_str())));
        },
        Ok(vs) => vs,
    };
    if vs.len() == 0 {
        return Err(ApiError::bad_request(owned("indexValues must not be empty")));
    }
    if vs.len() > field_count {
        let a = decimal_string(field_count as u64);
        let b = decimal_string(vs.len() as u64);
        return Err(
            ApiError::bad_request(cat4("index prefix accepts at most ", a.as_str(), " value(s), got ", b.as_str())),
        );
    }
    if !all_scalar_values(&vs) {
        return Err(ApiError::bad_request(owned("indexValues must be scalar")));
    }
    Ok(vs)
}

/// The values of one bound of an index range, given as for
/// `parse_index_query_values` (both parameters may be missing: then the
/// range has no such bound).
pub fn parse_index_bound_values(
    values: Option<Result<Vec<JsonValue>, String>>,
    single: Option<JsonValue>,
    field_count: usize,
) -> (r: Result<Option<Vec<JsonValue>>, ApiError>)
    ensures
        match values {
            Some(Err(text)) => (r matches Err(e) && e.kind == ApiErrorKind::BadRequest && e.message@
                == "invalid values JSON: "@ + text@),
            _ => {
                let given: Option<Seq<JsonValue>> = match values {
                    Some(Ok(vs)) => Some(vs@),
                    _ => match single {
                        Some(v) => Some(seq![v]),
                        None => None,
                    },
                };
                match given {
                    None => r matches Ok(None),
                    Some(vs) => match r {
                        Ok(out) => out matches Some(o) && o@ == vs && vs.len() == field_count && all_scalar(vs),
                        Err(e) => e.kind == ApiErrorKind::BadRequest && if vs.len() != field_count {
                            e.message@ == count_message("index range bound"@, field_count as nat, vs.len())
                        } else {
                            !all_scalar(vs) && e.message@ == "index range values must be scalar"@
                        },
                    },
                }
            },
        },
{
    let vs = match values {
        Some(Err(text)) => {
            return Err(ApiError::bad_request(cat2("invalid values JSON: ", text.as_str())));
        },
        Some(Ok(vs)) => vs,
        None => match single {
            Some(v) => {
                let mut one: Vec<JsonValue> = Vec::new();
                one.push(v);
                assert(one@ =~= seq![v]);
                one
            },
            None => {
                return Ok(None);
            },
        },
    };
    if vs.len() != field_count {
        return Err(count_error("index range bound", field_count, vs.len()));
    }
    if !all_scalar_values(&vs) {
        return Err(ApiError::bad_request(owned("index range values must be scalar")));
    }
    Ok(Some(vs))
}

} // verus!

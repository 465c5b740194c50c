//! The error type of request handling: a status kind, a message and, for
//! some errors, structured details.
use vstd::prelude::*;
use crate::json::{JsonValue, opt_json_view};

verus! {

#[derive(PartialEq, Eq, Structural, Clone, Copy, Debug)]
pub enum ApiErrorKind {
    BadRequest,
    NotFound,
    Conflict,
    Locked,
    Unavailable,
    Internal,
}

#[derive(Debug)]
pub struct ApiError {
    pub kind: ApiErrorKind,
    pub message: String,
    pub details: Option<JsonValue>,
}

impl ApiError {
    pub fn bad_request(message: String) -> (e: Self)
        ensures
            e.kind == ApiErrorKind::BadRequest,
            e.message@ == message@,
            e.details is None,
    {
        ApiError { kind: ApiErrorKind::BadRequest, message, details: None }
    }

    pub fn not_found(message: String) -> (e: Self)
        ensures
            e.kind == ApiErrorKind::NotFound,
            e.message@ == message@,
            e.details is None,
    {
        ApiError { kind: ApiErrorKind::NotFound, message, details: None }
    }

    pub fn internal(message: String) -> (e: Self)
        ensures
            e.kind == ApiErrorKind::Internal,
            e.message@ == message@,
            e.details is None,
    {
        ApiError { kind: ApiErrorKind::Internal, message, details: None }
    }

    pub fn unavailable(message: String) -> (e: Self)
        ensures
            e.kind == ApiErrorKind::Unavailable,
            e.message@ == message@,
            e.details is None,
    {
        ApiError { kind: ApiErrorKind::Unavailable, message, details: None }
    }

    pub fn locked(message: String) -> (e: Self)
        ensures
            e.kind == ApiErrorKind::Locked,
            e.message@ == message@,
            e.details is None,
    {
        ApiError { kind: ApiErrorKind::Locked, message, details: None }
    }

    pub fn conflict(message: String) -> (e: Self)
        ensures
            e.kind == ApiErrorKind::Conflict,
            e.message@ == message@,
            e.details is None,
    {
        ApiError { kind: ApiErrorKind::Conflict, message, details: None }
    }
}

impl ApiError {
    pub fn conflict_with_details(message: String, details: JsonValue) -> (e: Self)
        ensures
            e.kind == ApiErrorKind::Conflict,
            e.message@ == message@,
            opt_json_view(e.details) == Some(details@),
    {
        ApiError { kind: ApiErrorKind::Conflict, message, details: Some(details) }
    }

    pub fn unavailable_with_details(message: String, details: JsonValue) -> (e: Self)
        ensures
            e.kind == ApiErrorKind::Unavailable,
            e.message@ == message@,
            opt_json_view(e.details) == Some(details@),
    {
        ApiError { kind: ApiErrorKind::Unavailable, message, details: Some(details) }
    }
}

/// The kind and text of an error, as plain values.
pub open spec fn api_err(r: ApiError) -> (ApiErrorKind, Seq<char>) {
    (r.kind, r.message@)
}

} // verus!

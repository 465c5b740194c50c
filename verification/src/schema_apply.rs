//! What applying a candidate schema decides before it touches any state: the
//! version it expects, the schema's own validity, whether an incompatible
//! migration may go ahead by replaying the log, and which steps the apply
//! takes.
use vstd::prelude::*;
use crate::api_error::{ApiError, ApiErrorKind};
use crate::continuation::num;
use crate::json::{JsonNumber, JsonValue, JsonView, lemma_object_view, members_view, opt_json_view};
use crate::failover::decimal_string;
use crate::text::{cat4, decimal, owned};

verus! {

/// The steps an apply of a candidate schema takes.
pub struct SchemaApplyPlan {
    /// The migration is incompatible but may go ahead by replaying the log.
    pub replay_rebuild: bool,
    /// The record projections are rebuilt (checked, and staged where applied).
    pub projection_rebuild: bool,
    /// The projections are rebuilt into the live store.
    pub projection_rebuilt: bool,
    /// The schema is written to the log and to disk, after the shard is found
    /// writable and the peers accept it.
    pub persisted: bool,
    /// A background replay run is marked as committing first.
    pub mark_replay_committing: bool,
    /// The object references are rebuilt for the schema.
    pub rebuild_object_refs: bool,
}

/// Why an apply is refused before it starts, if it is: a version other than
/// the expected one, then the schema's own validation error, then the error
/// of an incompatible migration that may not replay.
pub open spec fn schema_apply_error(
    active_version: u32,
    expected_version: Option<u32>,
    validation_error: Option<Seq<char>>,
    compatible: bool,
    migration_error: Option<Seq<char>>,
    can_replay_rebuild: bool,
    allow_breaking_replay: bool,
) -> Option<(ApiErrorKind, Seq<char>)> {
    if expected_version is Some && expected_version->Some_0 != active_version {
        Some(
            (
                ApiErrorKind::Conflict,
                "schema version conflict: expected active version "@ + decimal(expected_version->Some_0 as nat)
                    + ", got "@ + decimal(active_version as nat),
            ),
        )
    } else if validation_error is Some {
        Some((ApiErrorKind::BadRequest, validation_error->Some_0))
    } else if !compatible && !(allow_breaking_replay && can_replay_rebuild) && migration_error is Some {
        Some((ApiErrorKind::BadRequest, migration_error->Some_0))
    } else {
        None
    }
}

/// The details of a version conflict: the versions in force and expected.
pub open spec fn version_conflict_details(expected: u32, active: u32) -> JsonView {
    JsonView::Object(
        seq![
            ("activeVersion"@, num(active as u64)),
            ("expectedVersion"@, num(expected as u64)),
            ("schemaVersionConflict"@, JsonView::Bool(true)),
        ],
    )
}

pub open spec fn opt_text(o: Option<String>) -> Option<Seq<char>> {
    match o {
        Some(s) => Some(s@),
        None => None,
    }
}

/// Decides an apply of a candidate schema. `active_version` is the version
/// in force, `expected_version` the one the caller expects;
/// `validation_error` is the schema's own validation error, if it has one;
/// `compatible`, `migration_error`, `can_replay_rebuild` and
/// `projection_rebuild_required` describe the migration from the active
/// schema; `apply` and `persist` say whether the schema takes effect and is
/// kept; `has_replay_run` whether a background replay run stands behind the
/// apply.
pub fn schema_apply_plan(
    active_version: u32,
    expected_version: Option<u32>,
    validation_error: Option<String>,
    compatible: bool,
    migration_error: Option<String>,
    can_replay_rebuild: bool,
    projection_rebuild_required: bool,
    allow_breaking_replay: bool,
    apply: bool,
    persist: bool,
    has_replay_run: bool,
) -> (r: Result<SchemaApplyPlan, ApiError>)
    ensures
        match schema_apply_error(
            active_version,
            expected_version,
            opt_text(validation_error),
            compatible,
            opt_text(migration_error),
            can_replay_rebuild,
            allow_breaking_replay,
        ) {
            Some((kind, message)) => r matches Err(e) && e.kind == kind && e.message@ == message
                && opt_json_view(e.details) == if expected_version is Some && expected_version->Some_0 != active_version {
                    Some(version_conflict_details(expected_version->Some_0, active_version))
                } else {
                    None
                },
            None => r matches Ok(p) && {
                let replay = allow_breaking_replay && can_replay_rebuild;
                let rebuild = replay || projection_rebuild_required;
                &&& p.replay_rebuild == replay
                &&& p.projection_rebuild == rebuild
                &&& p.projection_rebuilt == (apply && rebuild)
                &&& p.persisted == (apply && persist)
                &&& p.mark_replay_committing == (apply && persist && has_replay_run)
                &&& p.rebuild_object_refs == apply
            },
        },
{
    if let Some(expected) = expected_version {
        if expected != active_version {
            let e = decimal_string(expected as u64);
            let a = decimal_string(active_version as u64);
            let mut members: Vec<(String, JsonValue)> = Vec::new();
            members.push((owned("activeVersion"), JsonValue::Number(JsonNumber::PosInt(active_version as u64))));
            members.push((owned("expectedVersion"), JsonValue::Number(JsonNumber::PosInt(expected as u64))));
            members.push((owned("schemaVersionConflict"), JsonValue::Bool(true)));
            proof {
                lemma_object_view(members);
                assert(members_view(members@) =~= version_conflict_details(expected, active_version)->Object_0);
            }
            return Err(ApiError::conflict_with_details(
                cat4("schema version conflict: expected active version ", e.as_str(), ", got ", a.as_str()),
                JsonValue::Object(members),
            ));
        }
    }
    if let Some(m) = validation_error {
        return Err(ApiError::bad_request(m));
    }
    let replay_rebuild = allow_breaking_replay && can_replay_rebuild;
    let projection_rebuild = replay_rebuild || projection_rebuild_required;
    if !compatible && !replay_rebuild {
        if let Some(m) = migration_error {
            return Err(ApiError::bad_request(m));
        }
    }
    Ok(
        SchemaApplyPlan {
            replay_rebuild,
            projection_rebuild,
            projection_rebuilt: apply && projection_rebuild,
            persisted: apply && persist,
            mark_replay_committing: apply && persist && has_replay_run,
            rebuild_object_refs: apply,
        },
    )
}

} // verus!

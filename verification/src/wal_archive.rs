//! Retention of archived log files: which archive files are old enough to
//! delete (every entry before the LSN or time given), and the report of a
//! retention run.
use vstd::prelude::*;
use crate::api_error::{ApiError, ApiErrorKind};
use crate::failover::decimal_string;
use crate::model::WalRecord;
use crate::text::{cat2, decimal, owned};

verus! {

/// A retention run: delete archives wholly before an LSN and/or a time;
/// by default only report what would go.
pub struct WalArchiveRetentionQuery {
    pub before_lsn: Option<u64>,
    pub before_timestamp_ms: Option<u64>,
    pub dry_run: Option<bool>,
}

/// Checks a retention run names a bound, and gives whether it is a dry run.
pub fn check_archive_retention_query(query: &WalArchiveRetentionQuery) -> (r: Result<bool, ApiError>)
    ensures
        r is Ok <==> (query.before_lsn is Some || query.before_timestamp_ms is Some),
        r matches Ok(d) ==> d == match query.dry_run {
            Some(d) => d,
            None => true,
        },
        r matches Err(e) ==> e.kind == ApiErrorKind::BadRequest && e.message@
            == "provide beforeLsn or beforeTimestampMs for WAL archive retention"@,
{
    if query.before_lsn.is_none() && query.before_timestamp_ms.is_none() {
        return Err(ApiError::bad_request(owned("provide beforeLsn or beforeTimestampMs for WAL archive retention")));
    }
    Ok(
        match query.dry_run {
            Some(d) => d,
            None => true,
        },
    )
}

/// The least and greatest of the values `f` takes on the entries.
pub open spec fn min_of(s: Seq<WalRecord>, f: spec_fn(WalRecord) -> u64) -> Option<u64>
    decreases s.len(),
{
    if s.len() == 0 {
        None
    } else {
        match min_of(s.drop_last(), f) {
            Some(m) => Some(if f(s.last()) < m { f(s.last()) } else { m }),
            None => Some(f(s.last())),
        }
    }
}

pub open spec fn max_of(s: Seq<WalRecord>, f: spec_fn(WalRecord) -> u64) -> Option<u64>
    decreases s.len(),
{
    if s.len() == 0 {
        None
    } else {
        match max_of(s.drop_last(), f) {
            Some(m) => Some(if f(s.last()) > m { f(s.last()) } else { m }),
            None => Some(f(s.last())),
        }
    }
}

pub open spec fn lsn_of(r: WalRecord) -> u64 {
    r.lsn
}

pub open spec fn time_of(r: WalRecord) -> u64 {
    r.timestamp_ms
}

/// The LSN and time span of an archive file's entries.
pub struct ArchiveSpan {
    pub records: usize,
    pub min_lsn: Option<u64>,
    pub max_lsn: Option<u64>,
    pub min_timestamp_ms: Option<u64>,
    pub max_timestamp_ms: Option<u64>,
}

/// The span of an archive file's entries.
pub fn archive_span(records: &Vec<WalRecord>) -> (s: ArchiveSpan)
    ensures
        s.records == records@.len(),
        s.min_lsn == min_of(records@, |r: WalRecord| lsn_of(r)),
        s.max_lsn == max_of(records@, |r: WalRecord| lsn_of(r)),
        s.min_timestamp_ms == min_of(records@, |r: WalRecord| time_of(r)),
        s.max_timestamp_ms == max_of(records@, |r: WalRecord| time_of(r)),
{
    let ghost fl = |r: WalRecord| lsn_of(r);
    let ghost ft = |r: WalRecord| time_of(r);
    let mut min_lsn: Option<u64> = None;
    let mut max_lsn: Option<u64> = None;
    let mut min_t: Option<u64> = None;
    let mut max_t: Option<u64> = None;
    let mut i: usize = 0;
    while i < records.len()
        invariant
            i <= records@.len(),
            fl == (|r: WalRecord| lsn_of(r)),
            ft == (|r: WalRecord| time_of(r)),
            min_lsn == min_of(records@.take(i as int), fl),
            max_lsn == max_of(records@.take(i as int), fl),
            min_t == min_of(records@.take(i as int), ft),
            max_t == max_of(records@.take(i as int), ft),
        decreases records@.len() - i,
    {
        assert(records@.take(i + 1).drop_last() =~= records@.take(i as int));
        assert(records@.take(i + 1).last() == records@[i as int]);
        let l = records[i].lsn;
        let t = records[i].timestamp_ms;
        min_lsn = match min_lsn {
            Some(m) => Some(if l < m { l } else { m }),
            None => Some(l),
        };
        max_lsn = match max_lsn {
            Some(m) => Some(if l > m { l } else { m }),
            None => Some(l),
        };
        min_t = match min_t {
            Some(m) => Some(if t < m { t } else { m }),
            None => Some(t),
        };
        max_t = match max_t {
            Some(m) => Some(if t > m { t } else { m }),
            None => Some(t),
        };
        i = i + 1;
    }
    assert(records@.take(records@.len() as int) =~= records@);
    ArchiveSpan { records: records.len(), min_lsn, max_lsn, min_timestamp_ms: min_t, max_timestamp_ms: max_t }
}

/// Why an archive file is kept, if it is: it has no entries, or an entry at
/// or after the LSN bound, or (else) at or after the time bound.
pub open spec fn retain_reason(span: ArchiveSpan, before_lsn: Option<u64>, before_timestamp_ms: Option<u64>) -> Option<
    Seq<char>,
> {
    if span.records == 0 {
        Some("archive file has no records"@)
    } else if before_lsn is Some && span.max_lsn is Some && span.max_lsn->Some_0 >= before_lsn->Some_0 {
        Some("max LSN is not before "@ + decimal(before_lsn->Some_0 as nat))
    } else if before_timestamp_ms is Some && span.max_timestamp_ms is Some && span.max_timestamp_ms->Some_0
        >= before_timestamp_ms->Some_0 {
        Some("max timestamp is not before "@ + decimal(before_timestamp_ms->Some_0 as nat))
    } else {
        None
    }
}

/// Why an archive file is kept, if it is (see `retain_reason`); none where
/// it may be deleted.
pub fn archive_retain_reason(span: &ArchiveSpan, query: &WalArchiveRetentionQuery) -> (r: Option<String>)
    ensures
        match r {
            Some(m) => retain_reason(*span, query.before_lsn, query.before_timestamp_ms) == Some(m@),
            None => retain_reason(*span, query.before_lsn, query.before_timestamp_ms) is None,
        },
{
    if span.records == 0 {
        return Some(owned("archive file has no records"));
    }
    if let Some(b) = query.before_lsn {
        if let Some(m) = span.max_lsn {
            if m >= b {
                let n = decimal_string(b);
                return Some(cat2("max LSN is not before ", n.as_str()));
            }
        }
    }
    if let Some(b) = query.before_timestamp_ms {
        if let Some(m) = span.max_timestamp_ms {
            if m >= b {
                let n = decimal_string(b);
                return Some(cat2("max timestamp is not before ", n.as_str()));
            }
        }
    }
    None
}

/// What a retention run did with one archive file.
pub struct WalArchiveRetentionFileReport {
    pub path: String,
    pub shard: usize,
    pub records: usize,
    pub min_lsn: Option<u64>,
    pub max_lsn: Option<u64>,
    pub min_timestamp_ms: Option<u64>,
    pub max_timestamp_ms: Option<u64>,
    /// `retain`, `delete` (a dry run's candidate) or `deleted`.
    pub action: String,
    pub reason: Option<String>,
}

/// The report of a file that could not be read: kept, with the error.
pub fn unreadable_archive_report(path: String, shard: usize, error: &str) -> (r: WalArchiveRetentionFileReport)
    ensures
        r.path == path,
        r.shard == shard,
        r.records == 0,
        r.min_lsn is None && r.max_lsn is None && r.min_timestamp_ms is None && r.max_timestamp_ms is None,
        r.action@ == "retain"@,
        r.reason matches Some(m) && m@ == "failed to read archive file: "@ + error@,
{
    WalArchiveRetentionFileReport {
        path,
        shard,
        records: 0,
        min_lsn: None,
        max_lsn: None,
        min_timestamp_ms: None,
        max_timestamp_ms: None,
        action: owned("retain"),
        reason: Some(cat2("failed to read archive file: ", error)),
    }
}

/// Whether a retention run deletes an archive file: only where no reason
/// keeps it and the run is not a dry run.
pub fn archive_should_delete(reason: &Option<String>, dry_run: bool) -> (d: bool)
    ensures
        d == (reason is None && !dry_run),
{
    reason.is_none() && !dry_run
}

/// The report of a file whose entries span `span`: kept with its reason, or
/// a candidate, reported `deleted` where it was deleted and `delete`
/// otherwise.
pub fn archive_file_report(
    path: String,
    shard: usize,
    span: ArchiveSpan,
    reason: Option<String>,
    deleted: bool,
) -> (r: WalArchiveRetentionFileReport)
    ensures
        r.path == path,
        r.shard == shard,
        r.records == span.records,
        r.min_lsn == span.min_lsn && r.max_lsn == span.max_lsn,
        r.min_timestamp_ms == span.min_timestamp_ms && r.max_timestamp_ms == span.max_timestamp_ms,
        r.reason == reason,
        r.action@ == if reason is Some {
            "retain"@
        } else if deleted {
            "deleted"@
        } else {
            "delete"@
        },
{
    let action = if reason.is_some() {
        owned("retain")
    } else if deleted {
        owned("deleted")
    } else {
        owned("delete")
    };
    WalArchiveRetentionFileReport {
        path,
        shard,
        records: span.records,
        min_lsn: span.min_lsn,
        max_lsn: span.max_lsn,
        min_timestamp_ms: span.min_timestamp_ms,
        max_timestamp_ms: span.max_timestamp_ms,
        action,
        reason,
    }
}

/// How many reports have each action: (kept, candidates, deleted), where a
/// candidate is reported `delete` or `deleted`.
pub open spec fn action_counts(rs: Seq<WalArchiveRetentionFileReport>) -> (nat, nat, nat)
    decreases rs.len(),
{
    if rs.len() == 0 {
        (0, 0, 0)
    } else {
        let (k, c, d) = action_counts(rs.drop_last());
        let a = rs.last().action@;
        if a == "retain"@ {
            (k + 1, c, d)
        } else if a == "deleted"@ {
            (k, c + 1, d + 1)
        } else {
            (k, c + 1, d)
        }
    }
}

proof fn lemma_action_counts_bound(rs: Seq<WalArchiveRetentionFileReport>)
    ensures
        action_counts(rs).0 + action_counts(rs).1 <= rs.len(),
        action_counts(rs).2 <= action_counts(rs).1,
    decreases rs.len(),
{
    if rs.len() > 0 {
        lemma_action_counts_bound(rs.drop_last());
    }
}

/// The answer to a retention run.
pub struct WalArchiveRetentionResponse {
    pub dry_run: bool,
    pub before_lsn: Option<u64>,
    pub before_timestamp_ms: Option<u64>,
    pub candidates: usize,
    pub deleted: usize,
    pub retained: usize,
    pub reports: Vec<WalArchiveRetentionFileReport>,
}

/// The answer to a retention run, from its reports.
pub fn archive_retention_response(
    query: &WalArchiveRetentionQuery,
    dry_run: bool,
    reports: Vec<WalArchiveRetentionFileReport>,
) -> (r: WalArchiveRetentionResponse)
    ensures
        r.dry_run == dry_run,
        r.before_lsn == query.before_lsn,
        r.before_timestamp_ms == query.before_timestamp_ms,
        r.retained == action_counts(reports@).0,
        r.candidates == action_counts(reports@).1,
        r.deleted == action_counts(reports@).2,
        r.reports == reports,
{
    let mut kept: usize = 0;
    let mut candidates: usize = 0;
    let mut deleted: usize = 0;
    let mut i: usize = 0;
    while i < reports.len()
        invariant
            i <= reports@.len(),
            (kept as nat, candidates as nat, deleted as nat) == action_counts(reports@.take(i as int)),
        decreases reports@.len() - i,
    {
        assert(reports@.take(i + 1).drop_last() =~= reports@.take(i as int));
        assert(reports@.take(i + 1).last() == reports@[i as int]);
        proof {
            lemma_action_counts_bound(reports@.take(i as int));
        }
        let a = crate::text::chars_of(reports[i].action.as_str());
        let retain = crate::text::chars_of("retain");
        let gone = crate::text::chars_of("deleted");
        if crate::text::chars_eq(a.as_slice(), retain.as_slice()) {
            kept = kept + 1;
        } else if crate::text::chars_eq(a.as_slice(), gone.as_slice()) {
            candidates = candidates + 1;
            deleted = deleted + 1;
        } else {
            candidates = candidates + 1;
        }
        i = i + 1;
    }
    assert(reports@.take(reports@.len() as int) =~= reports@);
    WalArchiveRetentionResponse {
        dry_run,
        before_lsn: query.before_lsn,
        before_timestamp_ms: query.before_timestamp_ms,
        candidates,
        deleted,
        retained: kept,
        reports,
    }
}


/// The parent of a path, as `Path::parent` gives it.
pub uninterp spec fn path_parent(path: Seq<char>) -> Option<Seq<char>>;

/// A path joined with another, as `Path::join` gives it.
pub uninterp spec fn path_join(base: Seq<char>, rest: Seq<char>) -> Seq<char>;

/// `std::path::Path::parent`: the contract names its result as a function
/// of the path alone.
#[verifier::external_body]
fn parent_of(path: &str) -> (r: Option<String>)
    ensures
        match r {
            Some(p) => path_parent(path@) == Some(p@),
            None => path_parent(path@) is None,
        },
{
    std::path::Path::new(path).parent().map(|p| p.to_string_lossy().into_owned())
}

/// `std::path::Path::join`: the contract names its result as a function of
/// the two paths alone.
#[verifier::external_body]
fn join_path(base: &str, rest: &str) -> (r: String)
    ensures
        r@ == path_join(base@, rest@),
{
    std::path::Path::new(base).join(rest).to_string_lossy().into_owned()
}

/// The directory that keeps a shard's archived log files: `archive` beside
/// the log file, or `archive` where the path has no parent.
pub fn wal_archive_dir_for_path(path: &str) -> (r: String)
    ensures
        r@ == match path_parent(path@) {
            Some(p) => path_join(p, "archive"@),
            None => "archive"@,
        },
{
    match parent_of(path) {
        Some(p) => join_path(p.as_str(), "archive"),
        None => owned("archive"),
    }
}

} // verus!

//! Upkeep of the write-ahead logs: where each shard's log is replicated,
//! what a pass of the repair controller reports, and the totals of sealing
//! the logs' checksums.
use vstd::prelude::*;
use crate::failover::{decimal_string, node_url_for, url_of};
use crate::scopes::views;
use crate::text::{cat3, cat5, decimal, str_eq};

verus! {

/// The URLs a shard's log is replicated to: those of its replicas other
/// than this node (`self_id`), in order, where the cluster lists a URL.
pub open spec fn replica_urls(replicas: Seq<Seq<char>>, self_id: Seq<char>, nodes: Seq<(String, String)>) -> Seq<Seq<char>>
    decreases replicas.len(),
{
    if replicas.len() == 0 {
        Seq::empty()
    } else {
        let prev = replica_urls(replicas.drop_last(), self_id, nodes);
        let r = replicas.last();
        if r == self_id {
            prev
        } else {
            match url_of(nodes, r) {
                Some(u) => prev.push(u),
                None => prev,
            }
        }
    }
}

/// The URLs a shard's log is replicated to: none where the cluster is off;
/// the URLs configured by hand (`explicit`) where there are; else those of
/// the shard's replicas (`replicas`, as the topology names them) other than
/// this node, as the cluster's node list (`nodes`) gives them.
pub fn remote_replica_urls_for_shard(
    cluster_enabled: bool,
    explicit: Option<Vec<String>>,
    replicas: &Vec<String>,
    self_id: &str,
    nodes: &Vec<(String, String)>,
) -> (r: Vec<String>)
    ensures
        !cluster_enabled ==> r@.len() == 0,
        cluster_enabled ==> match explicit {
            Some(urls) => r == urls,
            None => views(r@) == replica_urls(views(replicas@), self_id@, nodes@),
        },
{
    if !cluster_enabled {
        return Vec::new();
    }
    if let Some(urls) = explicit {
        return urls;
    }
    let ghost rv = views(replicas@);
    let mut out: Vec<String> = Vec::new();
    let mut i: usize = 0;
    while i < replicas.len()
        invariant
            i <= replicas@.len(),
            rv == views(replicas@),
            views(out@) == replica_urls(rv.take(i as int), self_id@, nodes@),
        decreases replicas@.len() - i,
    {
        proof {
            assert(rv.take(i as int + 1).drop_last() =~= rv.take(i as int));
            assert(rv.take(i as int + 1).last() == replicas@[i as int]@);
        }
        let node = &replicas[i];
        if !str_eq(node.as_str(), self_id) {
            let url = node_url_for(nodes, node.as_str());
            if let Some(u) = url {
                let ghost before = out@;
                out.push(u);
                assert(views(out@) =~= views(before).push(u@));
            }
        }
        i = i + 1;
    }
    assert(rv.take(replicas@.len() as int) =~= rv);
    out
}

/// What repairing one shard's replicas reported.
pub struct WalRepairReport {
    pub records_sent: usize,
    pub repaired_replicas: usize,
    pub remote_required_acks: usize,
    pub satisfied: bool,
}

/// What a pass of the repair controller found: the shards it repaired, the
/// records it sent and the replicas it repaired in all, whether every shard
/// had the acknowledgements it needs, and the first shard that had not.
pub struct WalRepairSummary {
    pub shards: Vec<usize>,
    pub records_sent: usize,
    pub repaired_replicas: usize,
    pub satisfied: bool,
    pub error: Option<String>,
}

pub open spec fn records_sent_total(rs: Seq<(usize, WalRepairReport)>) -> int
    decreases rs.len(),
{
    if rs.len() == 0 {
        0
    } else {
        records_sent_total(rs.drop_last()) + rs.last().1.records_sent
    }
}

pub open spec fn repaired_total(rs: Seq<(usize, WalRepairReport)>) -> int
    decreases rs.len(),
{
    if rs.len() == 0 {
        0
    } else {
        repaired_total(rs.drop_last()) + rs.last().1.repaired_replicas
    }
}

/// The message of a shard whose repair fell short of its acknowledgements.
pub open spec fn short_repair_message(shard: usize, r: WalRepairReport) -> Seq<char> {
    "shard "@ + decimal(shard as nat) + " repair satisfied "@ + decimal(r.repaired_replicas as nat) + "/"@ + decimal(
        r.remote_required_acks as nat,
    ) + " remote ack(s)"@
}

/// The message of the first shard that fell short, if one did.
pub open spec fn first_short_repair(rs: Seq<(usize, WalRepairReport)>) -> Option<Seq<char>>
    decreases rs.len(),
{
    if rs.len() == 0 {
        None
    } else if first_short_repair(rs.drop_last()) is Some {
        first_short_repair(rs.drop_last())
    } else if !rs.last().1.satisfied {
        Some(short_repair_message(rs.last().0, rs.last().1))
    } else {
        None
    }
}

fn short_repair_text(shard: usize, r: &WalRepairReport) -> (s: String)
    ensures
        s@ == short_repair_message(shard, *r),
{
    let a = decimal_string(shard as u64);
    let b = decimal_string(r.repaired_replicas as u64);
    let c = decimal_string(r.remote_required_acks as u64);
    let head = cat5("shard ", a.as_str(), " repair satisfied ", b.as_str(), "/");
    cat3(head.as_str(), c.as_str(), " remote ack(s)")
}

/// Sums up a pass of the repair controller over the shards this node owns,
/// from each one's repair report, in shard order.
pub fn wal_repair_summary(reports: &Vec<(usize, WalRepairReport)>) -> (s: WalRepairSummary)
    requires
        records_sent_total(reports@) <= usize::MAX,
        repaired_total(reports@) <= usize::MAX,
    ensures
        s.shards@ == reports@.map_values(|p: (usize, WalRepairReport)| p.0),
        s.records_sent == records_sent_total(reports@),
        s.repaired_replicas == repaired_total(reports@),
        s.satisfied == (forall|i: int| 0 <= i < reports@.len() ==> (#[trigger] reports@[i]).1.satisfied),
        match s.error {
            Some(e) => first_short_repair(reports@) == Some(e@),
            None => first_short_repair(reports@) is None,
        },
{
    let mut shards: Vec<usize> = Vec::new();
    let mut records_sent: usize = 0;
    let mut repaired: usize = 0;
    let mut satisfied = true;
    let mut error: Option<String> = None;
    let mut i: usize = 0;
    while i < reports.len()
        invariant
            i <= reports@.len(),
            records_sent_total(reports@) <= usize::MAX,
            repaired_total(reports@) <= usize::MAX,
            shards@ == reports@.take(i as int).map_values(|p: (usize, WalRepairReport)| p.0),
            records_sent == records_sent_total(reports@.take(i as int)),
            repaired == repaired_total(reports@.take(i as int)),
            satisfied == (forall|k: int| 0 <= k < i ==> (#[trigger] reports@[k]).1.satisfied),
            match error {
                Some(e) => first_short_repair(reports@.take(i as int)) == Some(e@),
                None => first_short_repair(reports@.take(i as int)) is None,
            },
        decreases reports@.len() - i,
    {
        let ghost t = reports@.take(i as int + 1);
        proof {
            assert(t.drop_last() =~= reports@.take(i as int));
            assert(t.last() == reports@[i as int]);
            lemma_totals_monotone(reports@, i as int + 1);
        }
        let entry = &reports[i];
        shards.push(entry.0);
        records_sent = records_sent + entry.1.records_sent;
        repaired = repaired + entry.1.repaired_replicas;
        if !entry.1.satisfied {
            satisfied = false;
            if error.is_none() {
                error = Some(short_repair_text(entry.0, &entry.1));
            }
        }
        proof {
            assert(shards@ =~= t.map_values(|p: (usize, WalRepairReport)| p.0));
        }
        i = i + 1;
    }
    assert(reports@.take(reports@.len() as int) =~= reports@);
    WalRepairSummary { shards, records_sent, repaired_replicas: repaired, satisfied, error }
}

proof fn lemma_totals_monotone(rs: Seq<(usize, WalRepairReport)>, k: int)
    requires
        0 <= k <= rs.len(),
    ensures
        records_sent_total(rs.take(k)) <= records_sent_total(rs),
        repaired_total(rs.take(k)) <= repaired_total(rs),
    decreases rs.len() - k,
{
    if k < rs.len() {
        lemma_totals_monotone(rs, k + 1);
        assert(rs.take(k + 1).drop_last() =~= rs.take(k));
    } else {
        assert(rs.take(k) =~= rs);
    }
}


/// What sealing the checksums of one log file found: its records, those it
/// sealed, those already sealed, and whether the file was rewritten.
#[derive(Clone, Copy)]
pub struct ChecksumSealCounts {
    pub records: usize,
    pub sealed: usize,
    pub already_sealed: usize,
    pub rewritten: bool,
}

/// What sealing one shard's active log found: the log's own file and each
/// of its local replica files.
pub struct ActiveChecksumSeal {
    pub log: ChecksumSealCounts,
    pub replicas: Vec<ChecksumSealCounts>,
}

/// The files of the active logs, each log followed by its replicas.
pub open spec fn seal_files(active: Seq<ActiveChecksumSeal>) -> Seq<ChecksumSealCounts>
    decreases active.len(),
{
    if active.len() == 0 {
        Seq::empty()
    } else {
        seal_files(active.drop_last()).push(active.last().log) + active.last().replicas@
    }
}

pub open spec fn records_of(fs: Seq<ChecksumSealCounts>) -> int
    decreases fs.len(),
{
    if fs.len() == 0 {
        0
    } else {
        records_of(fs.drop_last()) + fs.last().records
    }
}

pub open spec fn sealed_of(fs: Seq<ChecksumSealCounts>) -> int
    decreases fs.len(),
{
    if fs.len() == 0 {
        0
    } else {
        sealed_of(fs.drop_last()) + fs.last().sealed
    }
}

pub open spec fn already_sealed_of(fs: Seq<ChecksumSealCounts>) -> int
    decreases fs.len(),
{
    if fs.len() == 0 {
        0
    } else {
        already_sealed_of(fs.drop_last()) + fs.last().already_sealed
    }
}

pub open spec fn rewritten_of(fs: Seq<ChecksumSealCounts>) -> int
    decreases fs.len(),
{
    if fs.len() == 0 {
        0
    } else {
        rewritten_of(fs.drop_last()) + if fs.last().rewritten {
            1int
        } else {
            0int
        }
    }
}

/// The totals of sealing the logs' checksums.
pub struct ChecksumSealTotals {
    pub records: usize,
    pub sealed: usize,
    pub already_sealed: usize,
    pub rewritten_files: usize,
}

/// The files that were sealed: the active logs, each followed by its
/// replicas, then the archives.
fn collect_seal_files(active: &Vec<ActiveChecksumSeal>, archives: &Vec<ChecksumSealCounts>) -> (fs: Vec<ChecksumSealCounts>)
    ensures
        fs@ == seal_files(active@) + archives@,
{
    let mut fs: Vec<ChecksumSealCounts> = Vec::new();
    let mut i: usize = 0;
    while i < active.len()
        invariant
            i <= active@.len(),
            fs@ == seal_files(active@.take(i as int)),
        decreases active@.len() - i,
    {
        proof {
            assert(active@.take(i as int + 1).drop_last() =~= active@.take(i as int));
            assert(active@.take(i as int + 1).last() == active@[i as int]);
        }
        let a = &active[i];
        fs.push(a.log);
        let mut j: usize = 0;
        let ghost base = fs@;
        while j < a.replicas.len()
            invariant
                j <= a.replicas@.len(),
                fs@ == base + a.replicas@.take(j as int),
            decreases a.replicas@.len() - j,
        {
            fs.push(a.replicas[j]);
            assert(fs@ =~= base + a.replicas@.take(j as int + 1));
            j = j + 1;
        }
        assert(a.replicas@.take(a.replicas@.len() as int) =~= a.replicas@);
        i = i + 1;
    }
    assert(active@.take(active@.len() as int) =~= active@);
    let mut k: usize = 0;
    let ghost head = fs@;
    while k < archives.len()
        invariant
            k <= archives@.len(),
            fs@ == head + archives@.take(k as int),
        decreases archives@.len() - k,
    {
        fs.push(archives[k]);
        assert(fs@ =~= head + archives@.take(k as int + 1));
        k = k + 1;
    }
    assert(archives@.take(archives@.len() as int) =~= archives@);
    fs
}

proof fn lemma_sums_monotone(fs: Seq<ChecksumSealCounts>, k: int)
    requires
        0 <= k <= fs.len(),
    ensures
        records_of(fs.take(k)) <= records_of(fs),
        sealed_of(fs.take(k)) <= sealed_of(fs),
        already_sealed_of(fs.take(k)) <= already_sealed_of(fs),
        rewritten_of(fs.take(k)) <= rewritten_of(fs),
    decreases fs.len() - k,
{
    if k < fs.len() {
        lemma_sums_monotone(fs, k + 1);
        assert(fs.take(k + 1).drop_last() =~= fs.take(k));
    } else {
        assert(fs.take(k) =~= fs);
    }
}

/// The totals of sealing the checksums of the active logs (`active`, with
/// their replicas) and of the archives (`archives`): records, records
/// sealed, records already sealed, and files rewritten.
pub fn checksum_seal_totals(active: &Vec<ActiveChecksumSeal>, archives: &Vec<ChecksumSealCounts>) -> (t: ChecksumSealTotals)
    requires
        records_of(seal_files(active@) + archives@) <= usize::MAX,
        sealed_of(seal_files(active@) + archives@) <= usize::MAX,
        already_sealed_of(seal_files(active@) + archives@) <= usize::MAX,
    ensures
        ({
            let fs = seal_files(active@) + archives@;
            &&& t.records == records_of(fs)
            &&& t.sealed == sealed_of(fs)
            &&& t.already_sealed == already_sealed_of(fs)
            &&& t.rewritten_files == rewritten_of(fs)
        }),
{
    let fs = collect_seal_files(active, archives);
    let mut t = ChecksumSealTotals { records: 0, sealed: 0, already_sealed: 0, rewritten_files: 0 };
    let mut i: usize = 0;
    while i < fs.len()
        invariant
            i <= fs@.len(),
            records_of(fs@) <= usize::MAX,
            sealed_of(fs@) <= usize::MAX,
            already_sealed_of(fs@) <= usize::MAX,
            t.records == records_of(fs@.take(i as int)),
            t.sealed == sealed_of(fs@.take(i as int)),
            t.already_sealed == already_sealed_of(fs@.take(i as int)),
            t.rewritten_files == rewritten_of(fs@.take(i as int)),
            rewritten_of(fs@.take(i as int)) <= i,
        decreases fs@.len() - i,
    {
        proof {
            assert(fs@.take(i as int + 1).drop_last() =~= fs@.take(i as int));
            assert(fs@.take(i as int + 1).last() == fs@[i as int]);
            lemma_sums_monotone(fs@, i as int + 1);
        }
        let f = fs[i];
        t.records = t.records + f.records;
        t.sealed = t.sealed + f.sealed;
        t.already_sealed = t.already_sealed + f.already_sealed;
        if f.rewritten {
            t.rewritten_files = t.rewritten_files + 1;
        }
        i = i + 1;
    }
    assert(fs@.take(fs@.len() as int) =~= fs@);
    t
}

} // verus!

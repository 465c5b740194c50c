//! Record transactions and batches before they are committed: the checks a
//! request must pass, and how a batch is split into transactions, one group
//! of operations per shard in shard order, each cut into chunks that one
//! transaction may hold.
use vstd::prelude::*;
use crate::api_error::{ApiError, ApiErrorKind};
use crate::batch_ids::{child_id, record_batch_child_client_mutation_id, sha256};
use crate::failover::decimal_string;
use crate::model::{DbRecordMutationDraft, Durability};
use crate::merge::{lemma_reverse_last_pub, reversed};
use crate::records::DbRecord;
use crate::records::{
    OperationView, RecordTransactionOperationRequest, copy_operation, ensure_record_batch_key_once,
    lemma_operation_view_keys, record_transaction_operation_shard_key, string_views, view_identity, view_shard_key,
};
use crate::text::{cat3, decimal, owned};
use crate::util::{shard_index, shard_of};
use vstd::utf8::encode_utf8;

verus! {

/// The most operations one record transaction may hold.
pub const MAX_RECORD_TRANSACTION_OPERATIONS: usize = 500;

/// Why a record transaction of `count` operations, kept as `durability`, is
/// refused, if it is.
pub open spec fn transaction_request_error(durability: Durability, count: nat) -> Option<Seq<char>> {
    if durability == Durability::Volatile {
        Some("record transactions cannot be volatile; use realtime events for lossy data"@)
    } else if count == 0 {
        Some("record transaction requires at least one operation"@)
    } else if count > 500 {
        Some("record transaction supports at most 500 operations"@)
    } else {
        None
    }
}

/// Checks the shape of a record transaction: durable, with at least one and
/// at most 500 operations.
pub fn check_record_transaction_request(durability: Durability, operation_count: usize) -> (r: Result<(), ApiError>)
    ensures
        match transaction_request_error(durability, operation_count as nat) {
            Some(m) => r matches Err(e) && e.kind == ApiErrorKind::BadRequest && e.message@ == m,
            None => r is Ok,
        },
{
    if durability == Durability::Volatile {
        return Err(ApiError::bad_request(
            owned("record transactions cannot be volatile; use realtime events for lossy data"),
        ));
    }
    if operation_count == 0 {
        return Err(ApiError::bad_request(owned("record transaction requires at least one operation")));
    }
    if operation_count > MAX_RECORD_TRANSACTION_OPERATIONS {
        return Err(ApiError::bad_request(owned("record transaction supports at most 500 operations")));
    }
    Ok(())
}

/// Why a record batch of `count` operations, kept as `durability`, is
/// refused, where a batch may hold at most `max` operations.
pub open spec fn batch_request_error(durability: Durability, count: nat, max: nat) -> Option<Seq<char>> {
    if durability == Durability::Volatile {
        Some("record batches cannot be volatile; use realtime events for lossy data"@)
    } else if count == 0 {
        Some("record batch requires at least one operation"@)
    } else if count > max {
        Some("record batch supports at most "@ + decimal(max) + " operations"@)
    } else {
        None
    }
}

/// Checks the shape of a record batch: durable, with at least one and at
/// most `max_operations` operations.
pub fn check_record_batch_request(durability: Durability, operation_count: usize, max_operations: usize) -> (r: Result<
    (),
    ApiError,
>)
    ensures
        match batch_request_error(durability, operation_count as nat, max_operations as nat) {
            Some(m) => r matches Err(e) && e.kind == ApiErrorKind::BadRequest && e.message@ == m,
            None => r is Ok,
        },
{
    if durability == Durability::Volatile {
        return Err(ApiError::bad_request(owned("record batches cannot be volatile; use realtime events for lossy data")));
    }
    if operation_count == 0 {
        return Err(ApiError::bad_request(owned("record batch requires at least one operation")));
    }
    if operation_count > max_operations {
        let n = decimal_string(max_operations as u64);
        return Err(ApiError::bad_request(cat3("record batch supports at most ", n.as_str(), " operations")));
    }
    Ok(())
}

/// The values of a list of operations.
pub open spec fn views_of(ops: Seq<RecordTransactionOperationRequest>) -> Seq<OperationView> {
    ops.map_values(|o: RecordTransactionOperationRequest| o@)
}

/// The identities of a list of operation values.
pub open spec fn identities_of(ops: Seq<OperationView>) -> Seq<Seq<char>> {
    ops.map_values(|o: OperationView| view_identity(o))
}

/// The identity of the first operation among the first `k` whose record an
/// earlier operation already touches, if there is one.
pub open spec fn first_duplicate(ops: Seq<OperationView>, k: nat) -> Option<Seq<char>>
    decreases k,
{
    if k == 0 {
        None
    } else if first_duplicate(ops, (k - 1) as nat) is Some {
        first_duplicate(ops, (k - 1) as nat)
    } else if identities_of(ops.take(k - 1)).contains(view_identity(ops[k - 1])) {
        Some(view_identity(ops[k - 1]))
    } else {
        None
    }
}

/// Once a duplicate is found among the first `k` operations, it stays the
/// first one among more.
proof fn lemma_first_duplicate_stable(ops: Seq<OperationView>, k: nat, m: nat)
    requires
        k <= m,
        first_duplicate(ops, k) is Some,
    ensures
        first_duplicate(ops, m) == first_duplicate(ops, k),
    decreases m - k,
{
    if k < m {
        lemma_first_duplicate_stable(ops, k, (m - 1) as nat);
    }
}

/// The error of a batch whose operations touch a record twice: the first
/// such operation names it.
pub fn ensure_batch_operations_distinct(operations: &Vec<RecordTransactionOperationRequest>) -> (r: Result<
    (),
    ApiError,
>)
    ensures
        match first_duplicate(views_of(operations@), operations@.len()) {
            Some(id) => r matches Err(e) && e.kind == ApiErrorKind::BadRequest && e.message@
                == "record batch contains duplicate operation for "@ + id,
            None => r is Ok,
        },
{
    let ghost views = views_of(operations@);
    let mut seen: Vec<String> = Vec::new();
    let mut j: usize = 0;
    while j < operations.len()
        invariant
            j <= operations@.len(),
            views == views_of(operations@),
            string_views(seen@) == identities_of(views.take(j as int)),
            first_duplicate(views, j as nat) is None,
        decreases operations@.len() - j,
    {
        proof {
            lemma_operation_view_keys(operations@[j as int]);
            assert(views.take(j as int + 1).take(j as int) =~= views.take(j as int));
            assert(views.take(j as int + 1)[j as int] == views[j as int]);
        }
        let res = ensure_record_batch_key_once(&mut seen, &operations[j]);
        if res.is_err() {
            proof {
                assert(first_duplicate(views, (j + 1) as nat) == Some(view_identity(views[j as int])));
                lemma_first_duplicate_stable(views, (j + 1) as nat, operations@.len());
            }
            return res;
        }
        proof {
            assert(identities_of(views.take(j as int + 1)) =~= identities_of(views.take(j as int)).push(
                view_identity(views[j as int]),
            ));
        }
        j = j + 1;
    }
    assert(views.take(operations@.len() as int) =~= views);
    Ok(())
}


/// The shard of an operation value among `count` shards.
pub open spec fn op_shard(op: OperationView, count: nat) -> nat {
    shard_of(view_shard_key(op), count)
}

/// Whether an operation value falls on shard `s` of `count`.
pub open spec fn on_shard_pred(count: nat, s: nat) -> spec_fn(OperationView) -> bool {
    |o: OperationView| op_shard(o, count) == s
}

/// The operations of `ops` on shard `s`, in their order.
pub open spec fn on_shard(ops: Seq<OperationView>, count: nat, s: nat) -> Seq<OperationView> {
    ops.filter(on_shard_pred(count, s))
}

/// The number of shards an operation can fall on: `count`, and one where
/// there are no shards.
pub open spec fn shard_slots(count: nat) -> nat {
    if count == 0 {
        1
    } else {
        count
    }
}

/// The groups of the shards below `s` that hold operations of `ops`, in
/// shard order: each shard with its operations in their order.
pub open spec fn shard_groups(ops: Seq<OperationView>, count: nat, s: nat) -> Seq<(nat, Seq<OperationView>)>
    decreases s,
{
    if s == 0 {
        Seq::empty()
    } else {
        let earlier = shard_groups(ops, count, (s - 1) as nat);
        let g = on_shard(ops, count, (s - 1) as nat);
        if g.len() == 0 {
            earlier
        } else {
            earlier.push(((s - 1) as nat, g))
        }
    }
}

/// The groups of a batch, one per shard that its operations fall on.
pub open spec fn batch_groups(ops: Seq<OperationView>, count: nat) -> Seq<(nat, Seq<OperationView>)> {
    shard_groups(ops, count, shard_slots(count))
}

/// Whether a batch takes more than one transaction.
pub open spec fn batch_is_split(groups: Seq<(nat, Seq<OperationView>)>) -> bool {
    groups.len() > 1 || exists|i: int| 0 <= i < groups.len() && #[trigger] groups[i].1.len() > 500
}

/// The number of chunks of at most 500 operations that `len` operations
/// take.
pub open spec fn chunk_count(len: nat) -> nat {
    ((len + 499) / 500) as nat
}

/// Chunk `i` of a group: its operations from `500 * i`, at most 500.
pub open spec fn chunk_of(g: Seq<OperationView>, i: nat) -> Seq<OperationView> {
    let lo: int = 500 * (i as int);
    let hi: int = if lo + 500 <= g.len() {
        lo + 500
    } else {
        g.len() as int
    };
    g.subrange(lo, hi)
}

/// The first `k` chunks of group `g` on shard `s`: shard, chunk index and
/// operations of each.
pub open spec fn group_chunks(s: nat, g: Seq<OperationView>, k: nat) -> Seq<(nat, nat, Seq<OperationView>)>
    decreases k,
{
    if k == 0 {
        Seq::empty()
    } else {
        group_chunks(s, g, (k - 1) as nat).push((s, (k - 1) as nat, chunk_of(g, (k - 1) as nat)))
    }
}

/// The chunks of the first `k` groups, in order.
pub open spec fn plan_chunks(groups: Seq<(nat, Seq<OperationView>)>, k: nat) -> Seq<(nat, nat, Seq<OperationView>)>
    decreases k,
{
    if k == 0 || k > groups.len() {
        Seq::empty()
    } else {
        plan_chunks(groups, (k - 1) as nat) + group_chunks(
            groups[k - 1].0,
            groups[k - 1].1,
            chunk_count(groups[k - 1].1.len()),
        )
    }
}

/// The client mutation id of chunk `index` on `shard`, where the batch has
/// the id `base`.
pub open spec fn chunk_client_mutation_id(base: Option<Seq<char>>, shard: nat, index: nat, split: bool) -> Option<
    Seq<char>,
> {
    match base {
        Some(b) => Some(child_id(b, shard as usize, index as usize, split, sha256(encode_utf8(b)))),
        None => None,
    }
}

/// One transaction of a batch: the shard it is committed on, its client
/// mutation id, and its operations.
pub struct RecordBatchChunk {
    pub shard: usize,
    pub client_mutation_id: Option<String>,
    pub operations: Vec<RecordTransactionOperationRequest>,
}

pub open spec fn opt_text_view(o: Option<String>) -> Option<Seq<char>> {
    match o {
        Some(s) => Some(s@),
        None => None,
    }
}

/// A chunk is the planned one: shard `p.0`, chunk index `p.1`, operations
/// `p.2`.
pub open spec fn chunk_is(c: RecordBatchChunk, p: (nat, nat, Seq<OperationView>), base: Option<Seq<char>>, split: bool) -> bool {
    &&& c.shard == p.0
    &&& views_of(c.operations@) == p.2
    &&& opt_text_view(c.client_mutation_id) == chunk_client_mutation_id(base, p.0, p.1, split)
}

/// The transactions of a batch, in order.
pub open spec fn batch_plan(ops: Seq<OperationView>, count: nat) -> Seq<(nat, nat, Seq<OperationView>)> {
    plan_chunks(batch_groups(ops, count), batch_groups(ops, count).len())
}

/// The chunks are those of the plan.
pub open spec fn chunks_are(
    chunks: Seq<RecordBatchChunk>,
    plan: Seq<(nat, nat, Seq<OperationView>)>,
    base: Option<Seq<char>>,
    split: bool,
) -> bool {
    &&& chunks.len() == plan.len()
    &&& forall|i: int| 0 <= i < chunks.len() ==> chunk_is(#[trigger] chunks[i], plan[i], base, split)
}

proof fn lemma_filter_take_step(ops: Seq<OperationView>, p: spec_fn(OperationView) -> bool, j: int)
    requires
        0 <= j < ops.len(),
    ensures
        ops.take(j + 1).filter(p) == (if p(ops[j]) {
            ops.take(j).filter(p).push(ops[j])
        } else {
            ops.take(j).filter(p)
        }),
{
    reveal(Seq::filter);
    assert(ops.take(j + 1).drop_last() =~= ops.take(j));
    assert(ops.take(j + 1).last() == ops[j]);
}

/// The shard of each operation.
fn operation_shards(operations: &Vec<RecordTransactionOperationRequest>, shard_count: usize) -> (r: Vec<usize>)
    ensures
        r@.len() == operations@.len(),
        forall|k: int| 0 <= k < r@.len() ==> r@[k] == op_shard(#[trigger] views_of(operations@)[k], shard_count as nat),
{
    let mut r: Vec<usize> = Vec::new();
    let mut j: usize = 0;
    while j < operations.len()
        invariant
            j <= operations@.len(),
            r@.len() == j,
            forall|k: int| 0 <= k < j ==> r@[k] == op_shard(#[trigger] views_of(operations@)[k], shard_count as nat),
        decreases operations@.len() - j,
    {
        let key = record_transaction_operation_shard_key(&operations[j]);
        proof {
            lemma_operation_view_keys(operations@[j as int]);
        }
        let s = shard_index(key.as_str(), shard_count);
        r.push(s);
        j = j + 1;
    }
    r
}

/// The operations on shard `s`, in their order.
fn collect_shard(operations: &Vec<RecordTransactionOperationRequest>, shards: &Vec<usize>, shard_count: usize, s: usize) -> (g: Vec<
    RecordTransactionOperationRequest,
>)
    requires
        shards@.len() == operations@.len(),
        forall|k: int| 0 <= k < shards@.len() ==> shards@[k] == op_shard(#[trigger] views_of(operations@)[k], shard_count as nat),
    ensures
        views_of(g@) == on_shard(views_of(operations@), shard_count as nat, s as nat),
{
    let ghost views = views_of(operations@);
    let ghost p = on_shard_pred(shard_count as nat, s as nat);
    let mut g: Vec<RecordTransactionOperationRequest> = Vec::new();
    let mut j: usize = 0;
    while j < operations.len()
        invariant
            j <= operations@.len(),
            views == views_of(operations@),
            p == on_shard_pred(shard_count as nat, s as nat),
            shards@.len() == operations@.len(),
            forall|k: int| 0 <= k < shards@.len() ==> shards@[k] == op_shard(#[trigger] views_of(operations@)[k], shard_count as nat),
            views_of(g@) == views.take(j as int).filter(p),
        decreases operations@.len() - j,
    {
        proof {
            lemma_filter_take_step(views, p, j as int);
            assert(views[j as int] == operations@[j as int]@);
            assert(shards@[j as int] == op_shard(views_of(operations@)[j as int], shard_count as nat));
        }
        if shards[j] == s {
            let c = copy_operation(&operations[j]);
            g.push(c);
            proof {
                assert(views_of(g@) =~= views.take(j as int).filter(p).push(views[j as int]));
            }
        }
        j = j + 1;
    }
    assert(views.take(operations@.len() as int) =~= views);
    g
}


/// The values of shard groups.
pub open spec fn group_views(gs: Seq<(usize, Vec<RecordTransactionOperationRequest>)>) -> Seq<(nat, Seq<OperationView>)> {
    gs.map_values(|p: (usize, Vec<RecordTransactionOperationRequest>)| (p.0 as nat, views_of(p.1@)))
}

/// The operations of a batch grouped by shard, in shard order.
fn group_by_shard(operations: &Vec<RecordTransactionOperationRequest>, shard_count: usize) -> (groups: Vec<
    (usize, Vec<RecordTransactionOperationRequest>),
>)
    ensures
        group_views(groups@) == batch_groups(views_of(operations@), shard_count as nat),
{
    let shards = operation_shards(operations, shard_count);
    let slots: usize = if shard_count == 0 {
        1
    } else {
        shard_count
    };
    let mut groups: Vec<(usize, Vec<RecordTransactionOperationRequest>)> = Vec::new();
    let mut s: usize = 0;
    while s < slots
        invariant
            s <= slots,
            slots == shard_slots(shard_count as nat),
            shards@.len() == operations@.len(),
            forall|k: int| 0 <= k < shards@.len() ==> shards@[k] == op_shard(#[trigger] views_of(operations@)[k], shard_count as nat),
            group_views(groups@) == shard_groups(views_of(operations@), shard_count as nat, s as nat),
        decreases slots - s,
    {
        let g = collect_shard(operations, &shards, shard_count, s);
        if g.len() > 0 {
            let ghost before = groups@;
            groups.push((s, g));
            proof {
                assert(group_views(groups@) =~= group_views(before).push(
                    (s as nat, on_shard(views_of(operations@), shard_count as nat, s as nat)),
                ));
            }
        }
        s = s + 1;
    }
    groups
}

/// Whether the groups take more than one transaction.
fn groups_split(groups: &Vec<(usize, Vec<RecordTransactionOperationRequest>)>) -> (b: bool)
    ensures
        b == batch_is_split(group_views(groups@)),
{
    let ghost gv = group_views(groups@);
    if groups.len() > 1 {
        return true;
    }
    let mut i: usize = 0;
    while i < groups.len()
        invariant
            i <= groups@.len(),
            gv == group_views(groups@),
            groups@.len() <= 1,
            forall|k: int| 0 <= k < i ==> gv[k].1.len() <= 500,
        decreases groups@.len() - i,
    {
        if groups[i].1.len() > MAX_RECORD_TRANSACTION_OPERATIONS {
            assert(gv[i as int].1.len() > 500);
            return true;
        }
        i = i + 1;
    }
    false
}

/// A copy of the operations from `lo` to `hi`.
fn copy_range(g: &Vec<RecordTransactionOperationRequest>, lo: usize, hi: usize) -> (r: Vec<
    RecordTransactionOperationRequest,
>)
    requires
        lo <= hi <= g@.len(),
    ensures
        views_of(r@) == views_of(g@).subrange(lo as int, hi as int),
{
    let mut r: Vec<RecordTransactionOperationRequest> = Vec::new();
    let mut j: usize = lo;
    while j < hi
        invariant
            lo <= j <= hi,
            hi <= g@.len(),
            views_of(r@) == views_of(g@).subrange(lo as int, j as int),
        decreases hi - j,
    {
        let c = copy_operation(&g[j]);
        let ghost before = r@;
        r.push(c);
        proof {
            assert(views_of(g@)[j as int] == g@[j as int]@);
            assert(views_of(r@) =~= views_of(before).push(c@));
            assert(views_of(r@) =~= views_of(g@).subrange(lo as int, j as int + 1));
        }
        j = j + 1;
    }
    r
}

proof fn lemma_chunk_count(len: nat, k: nat)
    requires
        500 * k >= len,
        k == 0 || 500 * (k - 1) < len,
    ensures
        chunk_count(len) == k,
{
    assert((len + 499) / 500 == k) by (nonlinear_arith)
        requires
            500 * k >= len,
            k == 0 || 500 * (k - 1) < len,
    ;
}

proof fn lemma_plan_chunks_step(groups: Seq<(nat, Seq<OperationView>)>, k: nat)
    requires
        k < groups.len(),
    ensures
        plan_chunks(groups, k + 1) == plan_chunks(groups, k) + group_chunks(
            groups[k as int].0,
            groups[k as int].1,
            chunk_count(groups[k as int].1.len()),
        ),
{
}

/// The chunks of the groups, each with its client mutation id.
fn chunk_groups(
    groups: &Vec<(usize, Vec<RecordTransactionOperationRequest>)>,
    client_mutation_id: Option<&str>,
    split: bool,
) -> (out: Vec<RecordBatchChunk>)
    ensures
        chunks_are(
            out@,
            plan_chunks(group_views(groups@), groups@.len() as nat),
            match client_mutation_id {
                Some(b) => Some(b@),
                None => None,
            },
            split,
        ),
{
    let ghost gv = group_views(groups@);
    let ghost base: Option<Seq<char>> = match client_mutation_id {
        Some(b) => Some(b@),
        None => None,
    };
    let mut out: Vec<RecordBatchChunk> = Vec::new();
    let mut gi: usize = 0;
    while gi < groups.len()
        invariant
            gi <= groups@.len(),
            gv == group_views(groups@),
            base == (match client_mutation_id {
                Some(b) => Some(b@),
                None => None::<Seq<char>>,
            }),
            chunks_are(out@, plan_chunks(gv, gi as nat), base, split),
        decreases groups@.len() - gi,
    {
        let shard = groups[gi].0;
        let g = &groups[gi].1;
        let ghost gvi = gv[gi as int];
        assert(gvi == (shard as nat, views_of(g@)));
        let ghost prefix = plan_chunks(gv, gi as nat);
        let mut k: usize = 0;
        let mut lo: usize = 0;
        while lo < g.len()
            invariant
                lo <= g@.len(),
                lo == 500 * k || (lo == g@.len() && 500 * k >= g@.len()),
                k == 0 || 500 * (k - 1) < g@.len(),
                gvi == (shard as nat, views_of(g@)),
                base == (match client_mutation_id {
                    Some(b) => Some(b@),
                    None => None::<Seq<char>>,
                }),
                chunks_are(out@, prefix + group_chunks(shard as nat, views_of(g@), k as nat), base, split),
            decreases g@.len() - lo,
        {
            let hi: usize = if g.len() - lo >= MAX_RECORD_TRANSACTION_OPERATIONS {
                lo + MAX_RECORD_TRANSACTION_OPERATIONS
            } else {
                g.len()
            };
            let ops = copy_range(g, lo, hi);
            let id = match client_mutation_id {
                Some(b) => Some(record_batch_child_client_mutation_id(b, shard, k, split)),
                None => None,
            };
            let ghost before = out@;
            out.push(RecordBatchChunk { shard, client_mutation_id: id, operations: ops });
            proof {
                let next = prefix + group_chunks(shard as nat, views_of(g@), (k + 1) as nat);
                assert(next =~= (prefix + group_chunks(shard as nat, views_of(g@), k as nat)).push(
                    (shard as nat, k as nat, chunk_of(views_of(g@), k as nat)),
                ));
                assert(chunk_is(out@[out@.len() - 1], next[next.len() - 1], base, split));
                assert forall|i: int| 0 <= i < out@.len() implies chunk_is(#[trigger] out@[i], next[i], base, split) by {
                    if i < before.len() {
                        assert(out@[i] == before[i]);
                    }
                }
            }
            lo = hi;
            k = k + 1;
        }
        proof {
            lemma_chunk_count(g@.len(), k as nat);
            lemma_plan_chunks_step(gv, gi as nat);
        }
        gi = gi + 1;
    }
    out
}


/// Plans a record batch: checks its shape (`max_operations` is the most a
/// batch may hold) and that it touches each record once, then groups its
/// operations by shard, in shard order, and cuts each group into
/// transactions of at most 500 operations. Each transaction carries the
/// batch's client mutation id, made distinct per transaction where the batch
/// takes more than one.
pub fn plan_record_batch(
    durability: Durability,
    operations: &Vec<RecordTransactionOperationRequest>,
    shard_count: usize,
    max_operations: usize,
    client_mutation_id: Option<String>,
) -> (r: Result<Vec<RecordBatchChunk>, ApiError>)
    ensures
        ({
            let views = views_of(operations@);
            let groups = batch_groups(views, shard_count as nat);
            match batch_request_error(durability, operations@.len(), max_operations as nat) {
                Some(m) => r matches Err(e) && e.kind == ApiErrorKind::BadRequest && e.message@ == m,
                None => match first_duplicate(views, views.len()) {
                    Some(id) => r matches Err(e) && e.kind == ApiErrorKind::BadRequest && e.message@
                        == "record batch contains duplicate operation for "@ + id,
                    None => r matches Ok(chunks) && chunks_are(
                        chunks@,
                        batch_plan(views, shard_count as nat),
                        opt_text_view(client_mutation_id),
                        batch_is_split(groups),
                    ),
                },
            }
        }),
{
    let shape = check_record_batch_request(durability, operations.len(), max_operations);
    if let Err(e) = shape {
        return Err(e);
    }
    let distinct = ensure_batch_operations_distinct(operations);
    if let Err(e) = distinct {
        return Err(e);
    }
    let groups = group_by_shard(operations, shard_count);
    let split = groups_split(&groups);
    let chunks = match &client_mutation_id {
        Some(b) => chunk_groups(&groups, Some(b.as_str()), split),
        None => chunk_groups(&groups, None, split),
    };
    Ok(chunks)
}

/// What one committed operation of a transaction answers.
pub enum RecordTransactionOperationResponse {
    RecordUpserted { record: DbRecord },
    RecordDeleted { table: String, key: String, deleted_at_ms: u64, lsn: u64, path: String },
}

/// What a committed record transaction answers: its LSN and its operations.
pub struct RecordTransactionResponse {
    pub lsn: u64,
    pub operations: Vec<RecordTransactionOperationResponse>,
}

/// What a committed record batch answers: the highest LSN of its
/// transactions, how many it took, and all their operations in order.
pub struct RecordBatchResponse {
    pub lsn: u64,
    pub transaction_count: usize,
    pub operations: Vec<RecordTransactionOperationResponse>,
}

/// The highest LSN of the responses, 0 where there are none.
pub open spec fn max_lsn(rs: Seq<RecordTransactionResponse>) -> u64
    decreases rs.len(),
{
    if rs.len() == 0 {
        0
    } else {
        let m = max_lsn(rs.drop_last());
        if rs.last().lsn > m {
            rs.last().lsn
        } else {
            m
        }
    }
}

/// The operations of the responses, in order.
pub open spec fn all_operations(rs: Seq<RecordTransactionResponse>) -> Seq<RecordTransactionOperationResponse>
    decreases rs.len(),
{
    if rs.len() == 0 {
        Seq::empty()
    } else {
        all_operations(rs.drop_last()) + rs.last().operations@
    }
}

/// The LSN of a batch's answer is the highest LSN of its transactions: no
/// transaction has a higher one, and some transaction has it (0 where there
/// are none).
pub proof fn batch_lsn_is_the_highest_transaction_lsn(rs: Seq<RecordTransactionResponse>)
    ensures
        forall|i: int| 0 <= i < rs.len() ==> #[trigger] rs[i].lsn <= max_lsn(rs),
        rs.len() == 0 ==> max_lsn(rs) == 0,
        rs.len() > 0 ==> exists|i: int| 0 <= i < rs.len() && #[trigger] rs[i].lsn == max_lsn(rs),
    decreases rs.len(),
{
    if rs.len() > 0 {
        let t = rs.drop_last();
        batch_lsn_is_the_highest_transaction_lsn(t);
        assert forall|i: int| 0 <= i < rs.len() implies #[trigger] rs[i].lsn <= max_lsn(rs) by {
            if i < t.len() {
                assert(rs[i] == t[i]);
            }
        }
        if rs.last().lsn <= max_lsn(t) && t.len() > 0 {
            let j = choose|j: int| 0 <= j < t.len() && #[trigger] t[j].lsn == max_lsn(t);
            assert(rs[j] == t[j]);
        } else {
            assert(rs[rs.len() - 1].lsn == max_lsn(rs));
        }
    }
}

/// The operations of a batch's answer are those of its transactions, one
/// transaction after another: the answer of two runs of transactions is the
/// answer of the first followed by that of the second, and one transaction
/// answers its own operations.
pub proof fn batch_operations_follow_the_transactions(a: Seq<RecordTransactionResponse>, b: Seq<RecordTransactionResponse>)
    ensures
        all_operations(a + b) == all_operations(a) + all_operations(b),
        all_operations(Seq::<RecordTransactionResponse>::empty()) == Seq::<RecordTransactionOperationResponse>::empty(),
        b.len() == 1 ==> all_operations(b) == b[0].operations@,
    decreases b.len(),
{
    if b.len() == 1 {
        assert(b.drop_last() =~= Seq::<RecordTransactionResponse>::empty());
        assert(all_operations(b.drop_last()) == Seq::<RecordTransactionOperationResponse>::empty());
        assert(b.last() == b[0]);
        assert(all_operations(b) =~= b[0].operations@);
    }
    if b.len() == 0 {
        assert(a + b =~= a);
        assert(all_operations(a) + Seq::<RecordTransactionOperationResponse>::empty() =~= all_operations(a));
    } else {
        let b1 = b.drop_last();
        batch_operations_follow_the_transactions(a, b1);
        assert((a + b).drop_last() =~= a + b1);
        assert((a + b).last() == b.last());
        assert(all_operations(a + b) =~= all_operations(a) + all_operations(b));
    }
}

/// The answer of a batch from the answers of its transactions, in the order
/// they were committed.
pub fn record_batch_response(responses: Vec<RecordTransactionResponse>) -> (r: RecordBatchResponse)
    ensures
        r.lsn == max_lsn(responses@),
        r.transaction_count == responses@.len(),
        r.operations@ == all_operations(responses@),
{
    let ghost orig = responses@;
    let count = responses.len();
    let mut rest = responses;
    let mut lsn: u64 = 0;
    let mut operations: Vec<RecordTransactionOperationResponse> = Vec::new();
    let mut i: usize = 0;
    while rest.len() > 0
        invariant
            i <= orig.len(),
            orig.len() == count,
            rest@ == orig.skip(i as int),
            lsn == max_lsn(orig.take(i as int)),
            operations@ == all_operations(orig.take(i as int)),
        decreases rest@.len(),
    {
        let mut next = rest.remove(0);
        proof {
            assert(next == orig[i as int]);
            assert(orig.take(i as int + 1).drop_last() =~= orig.take(i as int));
            assert(orig.take(i as int + 1).last() == orig[i as int]);
            assert(rest@ =~= orig.skip(i as int + 1));
        }
        if next.lsn > lsn {
            lsn = next.lsn;
        }
        let ghost before = operations@;
        operations.append(&mut next.operations);
        i = i + 1;
    }
    assert(orig.take(i as int) =~= orig);
    RecordBatchResponse { lsn, transaction_count: count, operations }
}


/// A group holds at least one operation, each on the group's shard.
pub open spec fn group_ok(g: (nat, Seq<OperationView>), count: nat) -> bool {
    &&& g.1.len() >= 1
    &&& forall|j: int| 0 <= j < g.1.len() ==> op_shard(#[trigger] g.1[j], count) == g.0
}

/// A transaction holds between one and 500 operations, each on the
/// transaction's shard.
pub open spec fn chunk_ok(c: (nat, nat, Seq<OperationView>), count: nat) -> bool {
    &&& 1 <= c.2.len() <= 500
    &&& forall|j: int| 0 <= j < c.2.len() ==> op_shard(#[trigger] c.2[j], count) == c.0
}

proof fn lemma_shard_groups_ok(ops: Seq<OperationView>, count: nat, s: nat)
    ensures
        forall|i: int| 0 <= i < shard_groups(ops, count, s).len() ==> group_ok(#[trigger] shard_groups(ops, count, s)[i], count),
    decreases s,
{
    if s > 0 {
        lemma_shard_groups_ok(ops, count, (s - 1) as nat);
        let g = on_shard(ops, count, (s - 1) as nat);
        assert forall|j: int| 0 <= j < g.len() implies op_shard(#[trigger] g[j], count) == (s - 1) as nat by {
            ops.lemma_filter_pred(on_shard_pred(count, (s - 1) as nat), j);
        }
        let earlier = shard_groups(ops, count, (s - 1) as nat);
        if g.len() > 0 {
            let all = earlier.push(((s - 1) as nat, g));
            assert(group_ok(((s - 1) as nat, g), count));
            assert forall|i: int| 0 <= i < all.len() implies group_ok(#[trigger] all[i], count) by {
                if i < earlier.len() {
                    assert(all[i] == earlier[i]);
                }
            }
        }
    }
}

proof fn lemma_group_chunks_len(s: nat, g: Seq<OperationView>, k: nat)
    ensures
        group_chunks(s, g, k).len() == k,
    decreases k,
{
    if k > 0 {
        lemma_group_chunks_len(s, g, (k - 1) as nat);
    }
}

proof fn lemma_group_chunks_ok(g: (nat, Seq<OperationView>), count: nat, k: nat)
    requires
        group_ok(g, count),
        k <= chunk_count(g.1.len()),
    ensures
        forall|i: int|
            0 <= i < group_chunks(g.0, g.1, k).len() ==> chunk_ok(#[trigger] group_chunks(g.0, g.1, k)[i], count),
    decreases k,
{
    lemma_group_chunks_len(g.0, g.1, k);
    if k > 0 {
        lemma_group_chunks_ok(g, count, (k - 1) as nat);
        lemma_group_chunks_len(g.0, g.1, (k - 1) as nat);
        let len = g.1.len();
        let m = (k - 1) as nat;
        assert(500 * m < len) by (nonlinear_arith)
            requires
                m + 1 <= (len + 499) / 500,
        ;
        let c = chunk_of(g.1, m);
        assert forall|j: int| 0 <= j < c.len() implies op_shard(#[trigger] c[j], count) == g.0 by {
            assert(c[j] == g.1[500 * m + j]);
        }
        assert(chunk_ok((g.0, m, c), count));
    }
}

proof fn lemma_plan_chunks_ok(groups: Seq<(nat, Seq<OperationView>)>, count: nat, k: nat)
    requires
        k <= groups.len(),
        forall|i: int| 0 <= i < groups.len() ==> group_ok(#[trigger] groups[i], count),
    ensures
        forall|i: int| 0 <= i < plan_chunks(groups, k).len() ==> chunk_ok(#[trigger] plan_chunks(groups, k)[i], count),
    decreases k,
{
    if k > 0 {
        lemma_plan_chunks_ok(groups, count, (k - 1) as nat);
        let g = groups[k - 1];
        assert(group_ok(g, count));
        lemma_group_chunks_ok(g, count, chunk_count(g.1.len()));
        let a = plan_chunks(groups, (k - 1) as nat);
        let b = group_chunks(g.0, g.1, chunk_count(g.1.len()));
        assert(plan_chunks(groups, k) == a + b);
        assert forall|i: int| 0 <= i < (a + b).len() implies chunk_ok(#[trigger] (a + b)[i], count) by {
            if i < a.len() {
                assert((a + b)[i] == a[i]);
            } else {
                assert((a + b)[i] == b[i - a.len()]);
            }
        }
    }
}

/// Every transaction a batch is cut into holds between one and 500
/// operations, all of them on the shard it is committed on.
pub proof fn batch_transactions_are_small_and_on_one_shard(ops: Seq<OperationView>, count: nat)
    ensures
        forall|i: int| 0 <= i < batch_plan(ops, count).len() ==> chunk_ok(#[trigger] batch_plan(ops, count)[i], count),
{
    let groups = batch_groups(ops, count);
    lemma_shard_groups_ok(ops, count, shard_slots(count));
    lemma_plan_chunks_ok(groups, count, groups.len());
}


/// The number of operations the transactions hold.
pub open spec fn chunk_total(cs: Seq<(nat, nat, Seq<OperationView>)>) -> nat
    decreases cs.len(),
{
    if cs.len() == 0 {
        0
    } else {
        chunk_total(cs.drop_last()) + cs.last().2.len()
    }
}

/// The number of operations the groups hold.
pub open spec fn group_total(gs: Seq<(nat, Seq<OperationView>)>) -> nat
    decreases gs.len(),
{
    if gs.len() == 0 {
        0
    } else {
        group_total(gs.drop_last()) + gs.last().1.len()
    }
}

/// The number of operations on the shards below `s`.
pub open spec fn shard_total(ops: Seq<OperationView>, count: nat, s: nat) -> nat
    decreases s,
{
    if s == 0 {
        0
    } else {
        shard_total(ops, count, (s - 1) as nat) + on_shard(ops, count, (s - 1) as nat).len()
    }
}

proof fn lemma_chunk_total_append(a: Seq<(nat, nat, Seq<OperationView>)>, b: Seq<(nat, nat, Seq<OperationView>)>)
    ensures
        chunk_total(a + b) == chunk_total(a) + chunk_total(b),
    decreases b.len(),
{
    if b.len() == 0 {
        assert(a + b =~= a);
    } else {
        lemma_chunk_total_append(a, b.drop_last());
        assert((a + b).drop_last() =~= a + b.drop_last());
    }
}

proof fn lemma_group_chunks_total(s: nat, g: Seq<OperationView>, k: nat)
    requires
        k <= chunk_count(g.len()),
    ensures
        chunk_total(group_chunks(s, g, k)) == (if 500 * k <= g.len() {
            500 * (k as int)
        } else {
            g.len() as int
        }),
    decreases k,
{
    if k > 0 {
        let m = (k - 1) as nat;
        lemma_group_chunks_total(s, g, m);
        assert(500 * m < g.len()) by (nonlinear_arith)
            requires
                m + 1 <= (g.len() + 499) / 500,
        ;
        let all = group_chunks(s, g, k);
        assert(all.drop_last() =~= group_chunks(s, g, m));
        assert(all.last().2 == chunk_of(g, m));
    }
}

proof fn lemma_plan_chunks_total(groups: Seq<(nat, Seq<OperationView>)>, k: nat)
    requires
        k <= groups.len(),
    ensures
        chunk_total(plan_chunks(groups, k)) == group_total(groups.take(k as int)),
    decreases k,
{
    if k == 0 {
        assert(groups.take(0) =~= Seq::<(nat, Seq<OperationView>)>::empty());
    } else {
        lemma_plan_chunks_total(groups, (k - 1) as nat);
        let g = groups[k - 1];
        let n = chunk_count(g.1.len());
        lemma_group_chunks_total(g.0, g.1, n);
        assert(500 * n >= g.1.len()) by (nonlinear_arith)
            requires
                n == (g.1.len() + 499) / 500,
        ;
        lemma_chunk_total_append(plan_chunks(groups, (k - 1) as nat), group_chunks(g.0, g.1, n));
        assert(groups.take(k as int).drop_last() =~= groups.take(k - 1));
    }
}

proof fn lemma_shard_groups_total(ops: Seq<OperationView>, count: nat, s: nat)
    ensures
        group_total(shard_groups(ops, count, s)) == shard_total(ops, count, s),
    decreases s,
{
    if s > 0 {
        lemma_shard_groups_total(ops, count, (s - 1) as nat);
        let earlier = shard_groups(ops, count, (s - 1) as nat);
        let g = on_shard(ops, count, (s - 1) as nat);
        if g.len() > 0 {
            assert(earlier.push(((s - 1) as nat, g)).drop_last() =~= earlier);
        }
    }
}

proof fn lemma_shard_total_step(ops: Seq<OperationView>, count: nat, j: int, s: nat)
    requires
        0 <= j < ops.len(),
    ensures
        shard_total(ops.take(j + 1), count, s) == shard_total(ops.take(j), count, s) + (if op_shard(ops[j], count) < s {
            1int
        } else {
            0int
        }),
    decreases s,
{
    if s > 0 {
        let t = (s - 1) as nat;
        lemma_shard_total_step(ops, count, j, t);
        lemma_filter_take_step(ops, on_shard_pred(count, t), j);
    }
}

proof fn lemma_shard_total_all(ops: Seq<OperationView>, count: nat, j: int)
    requires
        0 <= j <= ops.len(),
    ensures
        shard_total(ops.take(j), count, shard_slots(count)) == j,
    decreases j,
{
    if j == 0 {
        lemma_shard_total_empty(ops.take(0), count, shard_slots(count));
    } else {
        lemma_shard_total_all(ops, count, j - 1);
        lemma_shard_total_step(ops, count, j - 1, shard_slots(count));
        let key = view_shard_key(ops[j - 1]);
        if count > 0 {
            assert(shard_of(key, count) < count) by {
                let h = crate::util::fnv1a(encode_utf8(key)) as nat;
                assert(h % count < count) by (nonlinear_arith)
                    requires
                        count > 0,
                ;
            }
        }
    }
}

proof fn lemma_shard_total_empty(ops: Seq<OperationView>, count: nat, s: nat)
    requires
        ops.len() == 0,
    ensures
        shard_total(ops, count, s) == 0,
    decreases s,
{
    if s > 0 {
        lemma_shard_total_empty(ops, count, (s - 1) as nat);
        reveal(Seq::filter);
    }
}

/// The transactions a batch is cut into hold as many operations as the
/// batch: with each on its own shard (see
/// `batch_transactions_are_small_and_on_one_shard`), every operation is
/// committed once.
pub proof fn batch_transactions_hold_every_operation(ops: Seq<OperationView>, count: nat)
    ensures
        chunk_total(batch_plan(ops, count)) == ops.len(),
{
    let groups = batch_groups(ops, count);
    lemma_plan_chunks_total(groups, groups.len());
    assert(groups.take(groups.len() as int) =~= groups);
    lemma_shard_groups_total(ops, count, shard_slots(count));
    lemma_shard_total_all(ops, count, ops.len() as int);
    assert(ops.take(ops.len() as int) =~= ops);
}


/// What a committed operation answers, at the transaction's LSN: the
/// record it wrote, or the record it deleted.
pub open spec fn operation_response(op: DbRecordMutationDraft, lsn: u64) -> RecordTransactionOperationResponse {
    match op {
        DbRecordMutationDraft::Upsert { record } => RecordTransactionOperationResponse::RecordUpserted {
            record: record.into_record_spec(lsn),
        },
        DbRecordMutationDraft::Delete { record } => RecordTransactionOperationResponse::RecordDeleted {
            table: record.table,
            key: record.key,
            deleted_at_ms: record.deleted_at_ms,
            lsn,
            path: record.path,
        },
    }
}

/// What the operations of a transaction committed at `lsn` answer, in
/// their order.
pub fn transaction_operation_responses(operations: Vec<DbRecordMutationDraft>, lsn: u64) -> (r: Vec<
    RecordTransactionOperationResponse,
>)
    ensures
        r@.len() == operations@.len(),
        forall|i: int| 0 <= i < r@.len() ==> r@[i] == operation_response(#[trigger] operations@[i], lsn),
{
    let ghost ops = operations@;
    let n = operations.len();
    let mut rev = reversed(operations);
    let mut out: Vec<RecordTransactionOperationResponse> = Vec::new();
    assert(rev@.reverse() =~= ops);
    while rev.len() > 0
        invariant
            n == ops.len(),
            rev@.len() <= n,
            rev@.reverse() == ops.subrange(n - rev@.len(), n as int),
            out@.len() == n - rev@.len(),
            forall|i: int| 0 <= i < out@.len() ==> out@[i] == operation_response(#[trigger] ops[i], lsn),
        decreases rev@.len(),
    {
        let ghost k = n - rev@.len();
        proof {
            lemma_reverse_last_pub(rev@);
            assert(ops.subrange(k, n as int)[0] == ops[k]);
        }
        let op = rev.pop().unwrap();
        proof {
            assert(rev@.reverse() =~= ops.subrange(k + 1, n as int)) by {
                assert(ops.subrange(k, n as int).drop_first() =~= ops.subrange(k + 1, n as int));
            }
        }
        assert(op == ops[k]);
        let resp = match op {
            DbRecordMutationDraft::Upsert { record } => RecordTransactionOperationResponse::RecordUpserted {
                record: record.into_record(lsn),
            },
            DbRecordMutationDraft::Delete { record } => RecordTransactionOperationResponse::RecordDeleted {
                table: record.table,
                key: record.key,
                deleted_at_ms: record.deleted_at_ms,
                lsn,
                path: record.path,
            },
        };
        out.push(resp);
    }
    out
}

} // verus!

//! Scanning stored records, page by page, for those that a predicate
//! accepts. Each page is read after the last record of the one before; the
//! records that memory shadows are skipped, the matching ones kept, and the
//! scan ends once it holds as many as it looks for or a page comes back short.
use vstd::prelude::*;
use crate::manifest::contains_key_of;
use crate::merge::{OrderedDbRecord, answers, deterministic_predicate, lemma_reverse_last_pub, reversed};
use crate::records::DbRecord;
use crate::scopes::views;

verus! {

/// The most records a scan reads at once; a shorter page is the last.
pub const SCAN_PAGE_SIZE: usize = 500;

/// A scan in key order: the matching records found so far, the key of the
/// last record read, and whether the scan is over.
pub struct KeyOrderScan {
    pub matched: Vec<DbRecord>,
    pub after_key: Option<String>,
    pub done: bool,
}

pub open spec fn opt_text(o: Option<String>) -> Option<Seq<char>> {
    match o {
        Some(s) => Some(s@),
        None => None,
    }
}

/// The state of a scan (records found, key of the last record read, target
/// reached) after it reads `r`: once the target is reached nothing changes;
/// else the key is noted, and a record neither shadowed nor refused is kept.
pub open spec fn scan_step(
    st: (Seq<DbRecord>, Option<Seq<char>>, bool),
    r: DbRecord,
    shadow: Seq<Seq<char>>,
    target: nat,
    pred: spec_fn(DbRecord) -> bool,
) -> (Seq<DbRecord>, Option<Seq<char>>, bool) {
    if st.2 {
        st
    } else if shadow.contains(r.key@) || !pred(r) {
        (st.0, Some(r.key@), false)
    } else {
        (st.0.push(r), Some(r.key@), st.0.len() + 1 >= target)
    }
}

/// The state of a scan after it reads the records of `page` in order.
pub open spec fn scan_records(
    st: (Seq<DbRecord>, Option<Seq<char>>, bool),
    page: Seq<DbRecord>,
    shadow: Seq<Seq<char>>,
    target: nat,
    pred: spec_fn(DbRecord) -> bool,
) -> (Seq<DbRecord>, Option<Seq<char>>, bool)
    decreases page.len(),
{
    if page.len() == 0 {
        st
    } else {
        scan_step(scan_records(st, page.drop_last(), shadow, target, pred), page.last(), shadow, target, pred)
    }
}

proof fn lemma_scan_stays(
    st: (Seq<DbRecord>, Option<Seq<char>>, bool),
    page: Seq<DbRecord>,
    shadow: Seq<Seq<char>>,
    target: nat,
    pred: spec_fn(DbRecord) -> bool,
    k: int,
    m: int,
)
    requires
        0 <= k <= m <= page.len(),
        scan_records(st, page.take(k), shadow, target, pred).2,
    ensures
        scan_records(st, page.take(m), shadow, target, pred) == scan_records(st, page.take(k), shadow, target, pred),
    decreases m - k,
{
    if k < m {
        lemma_scan_stays(st, page, shadow, target, pred, k, m - 1);
        assert(page.take(m).drop_last() =~= page.take(m - 1));
    }
}

/// A scan in key order that starts after `after_key`.
pub fn new_key_order_scan(after_key: Option<String>) -> (scan: KeyOrderScan)
    ensures
        scan.matched@.len() == 0,
        scan.after_key == after_key,
        !scan.done,
{
    KeyOrderScan { matched: Vec::new(), after_key, done: false }
}

/// Reads one page of a scan in key order: `page` holds the stored records
/// after the scan's last key (at most `SCAN_PAGE_SIZE`), `shadow_keys` the
/// keys whose stored records memory replaces, `target` how many matching
/// records the scan looks for, and `matches` the predicate. An empty page,
/// the target reached, or a page short of `SCAN_PAGE_SIZE` ends the scan;
/// a scan that is over stays as it is.
pub fn scan_key_order_page<F: Fn(&DbRecord) -> bool>(
    scan: &mut KeyOrderScan,
    page: Vec<DbRecord>,
    shadow_keys: &[String],
    target: usize,
    matches: F,
)
    requires
        deterministic_predicate(matches),
    ensures
        old(scan).done ==> {
            &&& final(scan).matched@ == old(scan).matched@
            &&& final(scan).after_key == old(scan).after_key
            &&& final(scan).done
        },
        !old(scan).done ==> {
            let st = scan_records(
                (old(scan).matched@, opt_text(old(scan).after_key), false),
                page@,
                views(shadow_keys@),
                target as nat,
                |x: DbRecord| answers(matches, x),
            );
            &&& final(scan).matched@ == st.0
            &&& opt_text(final(scan).after_key) == st.1
            &&& final(scan).done == (page@.len() == 0 || st.2 || page@.len() < SCAN_PAGE_SIZE)
        },
{
    if scan.done {
        return;
    }
    let ghost pred = |x: DbRecord| answers(matches, x);
    let ghost shadow = views(shadow_keys@);
    let ghost start = (scan.matched@, opt_text(scan.after_key), false);
    let ghost p0 = page@;
    let n = page.len();
    if n == 0 {
        scan.done = true;
        return;
    }
    let mut rev = reversed(page);
    let mut reached = false;
    assert(rev@.reverse() =~= p0);
    assert(p0.take(0) =~= Seq::<DbRecord>::empty());
    while rev.len() > 0
        invariant_except_break
            !reached,
        invariant
            deterministic_predicate(matches),
            pred == (|x: DbRecord| answers(matches, x)),
            shadow == views(shadow_keys@),
            !scan.done,
            n == p0.len(),
            rev@.len() <= n,
            rev@.reverse() == p0.subrange(n - rev@.len(), n as int),
            scan_records(start, p0.take(n - rev@.len()), shadow, target as nat, pred) == (
                scan.matched@,
                opt_text(scan.after_key),
                reached,
            ),
        ensures
            reached || rev@.len() == 0,
            scan_records(start, p0.take(n - rev@.len()), shadow, target as nat, pred) == (
                scan.matched@,
                opt_text(scan.after_key),
                reached,
            ),
        decreases rev@.len(),
    {
        let ghost k = n - rev@.len();
        proof {
            lemma_reverse_last_pub(rev@);
            assert(p0.subrange(k, n as int)[0] == p0[k]);
            assert(p0.take(k + 1).drop_last() =~= p0.take(k));
            assert(p0.take(k + 1).last() == p0[k]);
        }
        let x = rev.pop().unwrap();
        proof {
            assert(rev@.reverse() =~= p0.subrange(k + 1, n as int)) by {
                assert(p0.subrange(k, n as int).drop_first() =~= p0.subrange(k + 1, n as int));
            }
        }
        assert(x == p0[k]);
        scan.after_key = Some(x.key.clone());
        if !contains_key_of(shadow_keys, x.key.as_str()) {
            let keep = matches(&x);
            assert(keep == pred(x));
            if keep {
                scan.matched.push(x);
                if scan.matched.len() >= target {
                    reached = true;
                    break;
                }
            }
        }
    }
    proof {
        let k = n - rev@.len();
        if reached {
            lemma_scan_stays(start, p0, shadow, target as nat, pred, k, n as int);
        }
        assert(p0.take(n as int) =~= p0);
    }
    if reached || n < SCAN_PAGE_SIZE {
        scan.done = true;
    }
}


/// A scan in a schema order: the matching records found so far, the key and
/// the order cursor of the last record read, and whether the scan is over.
pub struct OrderedScan {
    pub matched: Vec<OrderedDbRecord>,
    pub after_key: Option<String>,
    pub after_cursor: Option<String>,
    pub done: bool,
}

/// The state of an ordered scan (records found, key and cursor of the last
/// record read, target reached) after it reads `r`, as for a scan in key
/// order.
pub open spec fn ordered_scan_step(
    st: (Seq<OrderedDbRecord>, Option<Seq<char>>, Option<Seq<char>>, bool),
    r: OrderedDbRecord,
    shadow: Seq<Seq<char>>,
    target: nat,
    pred: spec_fn(DbRecord) -> bool,
) -> (Seq<OrderedDbRecord>, Option<Seq<char>>, Option<Seq<char>>, bool) {
    if st.3 {
        st
    } else if shadow.contains(r.record.key@) || !pred(r.record) {
        (st.0, Some(r.record.key@), Some(r.cursor@), false)
    } else {
        (st.0.push(r), Some(r.record.key@), Some(r.cursor@), st.0.len() + 1 >= target)
    }
}

/// The state of an ordered scan after it reads the records of `page` in
/// order.
pub open spec fn ordered_scan_records(
    st: (Seq<OrderedDbRecord>, Option<Seq<char>>, Option<Seq<char>>, bool),
    page: Seq<OrderedDbRecord>,
    shadow: Seq<Seq<char>>,
    target: nat,
    pred: spec_fn(DbRecord) -> bool,
) -> (Seq<OrderedDbRecord>, Option<Seq<char>>, Option<Seq<char>>, bool)
    decreases page.len(),
{
    if page.len() == 0 {
        st
    } else {
        ordered_scan_step(ordered_scan_records(st, page.drop_last(), shadow, target, pred), page.last(), shadow, target, pred)
    }
}

proof fn lemma_ordered_scan_stays(
    st: (Seq<OrderedDbRecord>, Option<Seq<char>>, Option<Seq<char>>, bool),
    page: Seq<OrderedDbRecord>,
    shadow: Seq<Seq<char>>,
    target: nat,
    pred: spec_fn(DbRecord) -> bool,
    k: int,
    m: int,
)
    requires
        0 <= k <= m <= page.len(),
        ordered_scan_records(st, page.take(k), shadow, target, pred).3,
    ensures
        ordered_scan_records(st, page.take(m), shadow, target, pred) == ordered_scan_records(
            st,
            page.take(k),
            shadow,
            target,
            pred,
        ),
    decreases m - k,
{
    if k < m {
        lemma_ordered_scan_stays(st, page, shadow, target, pred, k, m - 1);
        assert(page.take(m).drop_last() =~= page.take(m - 1));
    }
}

/// A scan in a schema order that starts after `after_key` and
/// `after_cursor`.
pub fn new_ordered_scan(after_key: Option<String>, after_cursor: Option<String>) -> (scan: OrderedScan)
    ensures
        scan.matched@.len() == 0,
        scan.after_key == after_key,
        scan.after_cursor == after_cursor,
        !scan.done,
{
    OrderedScan { matched: Vec::new(), after_key, after_cursor, done: false }
}

/// Reads one page of a scan in a schema order, as `scan_key_order_page`
/// reads one in key order; the scan notes the cursor of the last record
/// read as well as its key.
pub fn scan_ordered_page<F: Fn(&DbRecord) -> bool>(
    scan: &mut OrderedScan,
    page: Vec<OrderedDbRecord>,
    shadow_keys: &[String],
    target: usize,
    matches: F,
)
    requires
        deterministic_predicate(matches),
    ensures
        old(scan).done ==> {
            &&& final(scan).matched@ == old(scan).matched@
            &&& final(scan).after_key == old(scan).after_key
            &&& final(scan).after_cursor == old(scan).after_cursor
            &&& final(scan).done
        },
        !old(scan).done ==> {
            let st = ordered_scan_records(
                (old(scan).matched@, opt_text(old(scan).after_key), opt_text(old(scan).after_cursor), false),
                page@,
                views(shadow_keys@),
                target as nat,
                |x: DbRecord| answers(matches, x),
            );
            &&& final(scan).matched@ == st.0
            &&& opt_text(final(scan).after_key) == st.1
            &&& opt_text(final(scan).after_cursor) == st.2
            &&& final(scan).done == (page@.len() == 0 || st.3 || page@.len() < SCAN_PAGE_SIZE)
        },
{
    if scan.done {
        return;
    }
    let ghost pred = |x: DbRecord| answers(matches, x);
    let ghost shadow = views(shadow_keys@);
    let ghost start = (scan.matched@, opt_text(scan.after_key), opt_text(scan.after_cursor), false);
    let ghost p0 = page@;
    let n = page.len();
    if n == 0 {
        scan.done = true;
        return;
    }
    let mut rev = reversed(page);
    let mut reached = false;
    assert(rev@.reverse() =~= p0);
    assert(p0.take(0) =~= Seq::<OrderedDbRecord>::empty());
    while rev.len() > 0
        invariant_except_break
            !reached,
        invariant
            deterministic_predicate(matches),
            pred == (|x: DbRecord| answers(matches, x)),
            shadow == views(shadow_keys@),
            !scan.done,
            n == p0.len(),
            rev@.len() <= n,
            rev@.reverse() == p0.subrange(n - rev@.len(), n as int),
            ordered_scan_records(start, p0.take(n - rev@.len()), shadow, target as nat, pred) == (
                scan.matched@,
                opt_text(scan.after_key),
                opt_text(scan.after_cursor),
                reached,
            ),
        ensures
            reached || rev@.len() == 0,
            ordered_scan_records(start, p0.take(n - rev@.len()), shadow, target as nat, pred) == (
                scan.matched@,
                opt_text(scan.after_key),
                opt_text(scan.after_cursor),
                reached,
            ),
        decreases rev@.len(),
    {
        let ghost k = n - rev@.len();
        proof {
            lemma_reverse_last_pub(rev@);
            assert(p0.subrange(k, n as int)[0] == p0[k]);
            assert(p0.take(k + 1).drop_last() =~= p0.take(k));
            assert(p0.take(k + 1).last() == p0[k]);
        }
        let x = rev.pop().unwrap();
        proof {
            assert(rev@.reverse() =~= p0.subrange(k + 1, n as int)) by {
                assert(p0.subrange(k, n as int).drop_first() =~= p0.subrange(k + 1, n as int));
            }
        }
        assert(x == p0[k]);
        scan.after_key = Some(x.record.key.clone());
        scan.after_cursor = Some(x.cursor.clone());
        if !contains_key_of(shadow_keys, x.record.key.as_str()) {
            let keep = matches(&x.record);
            assert(keep == pred(x.record));
            if keep {
                scan.matched.push(x);
                if scan.matched.len() >= target {
                    reached = true;
                    break;
                }
            }
        }
    }
    proof {
        let k = n - rev@.len();
        if reached {
            lemma_ordered_scan_stays(start, p0, shadow, target as nat, pred, k, n as int);
        }
        assert(p0.take(n as int) =~= p0);
    }
    if reached || n < SCAN_PAGE_SIZE {
        scan.done = true;
    }
}

} // verus!

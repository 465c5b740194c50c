//! Merging a page of records read from disk with the records held hot in
//! memory: both lists are in key order, a hot record replaces the disk record
//! of the same key, and the page stops at a limit.
use vstd::prelude::*;
use crate::order::{chars_lt, lex_lt, lemma_lex_irreflexive, lemma_lex_transitive, lemma_lex_trichotomy};
use crate::records::DbRecord;
use crate::text::{chars_eq, chars_of};

verus! {

/// The merged page (see the module comment): at each step the smaller key
/// goes first; on equal keys the hot record is taken and the disk record
/// dropped.
pub open spec fn merge_by_key(disk: Seq<DbRecord>, hot: Seq<DbRecord>, limit: nat) -> Seq<DbRecord>
    decreases disk.len() + hot.len(),
{
    if limit == 0 || (disk.len() == 0 && hot.len() == 0) {
        Seq::empty()
    } else if hot.len() == 0 {
        seq![disk[0]] + merge_by_key(disk.drop_first(), hot, (limit - 1) as nat)
    } else if disk.len() == 0 {
        seq![hot[0]] + merge_by_key(disk, hot.drop_first(), (limit - 1) as nat)
    } else if lex_lt(disk[0].key@, hot[0].key@) {
        seq![disk[0]] + merge_by_key(disk.drop_first(), hot, (limit - 1) as nat)
    } else if disk[0].key@ == hot[0].key@ {
        seq![hot[0]] + merge_by_key(disk.drop_first(), hot.drop_first(), (limit - 1) as nat)
    } else {
        seq![hot[0]] + merge_by_key(disk, hot.drop_first(), (limit - 1) as nat)
    }
}

/// Keys strictly increase along the list.
pub open spec fn sorted_by_key(s: Seq<DbRecord>) -> bool {
    forall|i: int, j: int| 0 <= i < j < s.len() ==> lex_lt(s[i].key@, s[j].key@)
}

/// Whether some record of `s` has key `k`.
pub open spec fn has_key(s: Seq<DbRecord>, k: Seq<char>) -> bool {
    exists|i: int| 0 <= i < s.len() && s[i].key@ == k
}

/// `v` in reverse order.
pub fn reversed<T>(v: Vec<T>) -> (r: Vec<T>)
    ensures
        r@ == v@.reverse(),
{
    let mut v = v;
    let ghost orig = v@;
    let mut r: Vec<T> = Vec::new();
    while v.len() > 0
        invariant
            v@ == orig.subrange(0, v@.len() as int),
            r@ == orig.subrange(v@.len() as int, orig.len() as int).reverse(),
            v@.len() <= orig.len(),
        decreases v@.len(),
    {
        let x = v.pop().unwrap();
        r.push(x);
        assert(r@ =~= orig.subrange(v@.len() as int, orig.len() as int).reverse());
        assert(v@ =~= orig.subrange(0, v@.len() as int));
    }
    assert(orig.subrange(0, orig.len() as int) =~= orig);
    r
}

fn key_lt(a: &DbRecord, b: &DbRecord) -> (r: bool)
    ensures
        r == lex_lt(a.key@, b.key@),
{
    let x = chars_of(a.key.as_str());
    let y = chars_of(b.key.as_str());
    chars_lt(x.as_slice(), y.as_slice())
}

fn key_eq(a: &DbRecord, b: &DbRecord) -> (r: bool)
    ensures
        r == (a.key@ == b.key@),
{
    let x = chars_of(a.key.as_str());
    let y = chars_of(b.key.as_str());
    chars_eq(x.as_slice(), y.as_slice())
}

proof fn lemma_reverse_last<T>(s: Seq<T>)
    requires
        s.len() > 0,
    ensures
        s.reverse().drop_first() == s.drop_last().reverse(),
        s.reverse()[0] == s.last(),
{
    assert(s.reverse().drop_first() =~= s.drop_last().reverse());
}

/// Merges a disk page and the hot records into one page of at most `limit`
/// records (see `merge_by_key`).
pub fn merge_key_order_records(disk_records: Vec<DbRecord>, hot_records: Vec<DbRecord>, limit: usize) -> (merged: Vec<DbRecord>)
    ensures
        merged@ == merge_by_key(disk_records@, hot_records@, limit as nat),
{
    let ghost d0 = disk_records@;
    let ghost h0 = hot_records@;
    let mut disk = reversed(disk_records);
    let mut hot = reversed(hot_records);
    let mut merged: Vec<DbRecord> = Vec::new();
    assert(disk@.reverse() =~= d0);
    assert(hot@.reverse() =~= h0);
    loop
        invariant
            merged@.len() <= limit,
            merged@ + merge_by_key(disk@.reverse(), hot@.reverse(), (limit - merged@.len()) as nat)
                == merge_by_key(d0, h0, limit as nat),
        ensures
            merged@ == merge_by_key(d0, h0, limit as nat),
        decreases disk@.len() + hot@.len(),
    {
        if merged.len() >= limit {
            assert(merge_by_key(disk@.reverse(), hot@.reverse(), 0) =~= Seq::<DbRecord>::empty());
            assert(merged@ + Seq::<DbRecord>::empty() =~= merged@);
            break;
        }
        let ghost dr = disk@.reverse();
        let ghost hr = hot@.reverse();
        let ghost rest = (limit - merged@.len()) as nat;
        let nd = disk.len();
        let nh = hot.len();
        if nd == 0 && nh == 0 {
            assert(merge_by_key(dr, hr, rest) =~= Seq::<DbRecord>::empty());
            assert(merged@ + Seq::<DbRecord>::empty() =~= merged@);
            break;
        }
        let ghost before = merged@;
        if nh == 0 {
            proof { lemma_reverse_last(disk@); }
            let x = disk.pop().unwrap();
            merged.push(x);
        } else if nd == 0 {
            proof { lemma_reverse_last(hot@); }
            let x = hot.pop().unwrap();
            merged.push(x);
        } else {
            proof {
                lemma_reverse_last(disk@);
                lemma_reverse_last(hot@);
            }
            if key_lt(&disk[nd - 1], &hot[nh - 1]) {
                let x = disk.pop().unwrap();
                merged.push(x);
            } else if key_eq(&disk[nd - 1], &hot[nh - 1]) {
                let _ = disk.pop();
                let x = hot.pop().unwrap();
                merged.push(x);
            } else {
                let x = hot.pop().unwrap();
                merged.push(x);
            }
        }
        proof {
            let tail = merge_by_key(disk@.reverse(), hot@.reverse(), (limit - merged@.len()) as nat);
            assert(merge_by_key(dr, hr, rest) == seq![merged@.last()] + tail);
            assert(merged@ + tail =~= before + (seq![merged@.last()] + tail));
        }
    }
    merged
}

/// Every merged record comes from one of the two inputs, and every key it
/// carries is a key of one of them.
pub proof fn lemma_merge_members(disk: Seq<DbRecord>, hot: Seq<DbRecord>, limit: nat)
    ensures
        forall|i: int| 0 <= i < merge_by_key(disk, hot, limit).len() ==>
            disk.contains(#[trigger] merge_by_key(disk, hot, limit)[i]) || hot.contains(merge_by_key(disk, hot, limit)[i]),
        merge_by_key(disk, hot, limit).len() <= limit,
    decreases disk.len() + hot.len(),
{
    let m = merge_by_key(disk, hot, limit);
    if limit == 0 || (disk.len() == 0 && hot.len() == 0) {
    } else if hot.len() == 0 || (disk.len() > 0 && lex_lt(disk[0].key@, hot[0].key@)) {
        lemma_merge_members(disk.drop_first(), hot, (limit - 1) as nat);
        let t = merge_by_key(disk.drop_first(), hot, (limit - 1) as nat);
        assert forall|i: int| 0 <= i < m.len() implies disk.contains(#[trigger] m[i]) || hot.contains(m[i]) by {
            if i == 0 {
                assert(disk[0] == m[0]);
            } else {
                assert(m[i] == t[i - 1]);
                if disk.drop_first().contains(t[i - 1]) {
                    let k = choose|k: int| 0 <= k < disk.drop_first().len() && disk.drop_first()[k] == t[i - 1];
                    assert(disk[k + 1] == t[i - 1]);
                }
            }
        }
    } else if disk.len() == 0 || disk[0].key@ != hot[0].key@ {
        lemma_merge_members(disk, hot.drop_first(), (limit - 1) as nat);
        let t = merge_by_key(disk, hot.drop_first(), (limit - 1) as nat);
        assert forall|i: int| 0 <= i < m.len() implies disk.contains(#[trigger] m[i]) || hot.contains(m[i]) by {
            if i == 0 {
                assert(hot[0] == m[0]);
            } else {
                assert(m[i] == t[i - 1]);
                if hot.drop_first().contains(t[i - 1]) {
                    let k = choose|k: int| 0 <= k < hot.drop_first().len() && hot.drop_first()[k] == t[i - 1];
                    assert(hot[k + 1] == t[i - 1]);
                }
            }
        }
    } else {
        lemma_merge_members(disk.drop_first(), hot.drop_first(), (limit - 1) as nat);
        let t = merge_by_key(disk.drop_first(), hot.drop_first(), (limit - 1) as nat);
        assert forall|i: int| 0 <= i < m.len() implies disk.contains(#[trigger] m[i]) || hot.contains(m[i]) by {
            if i == 0 {
                assert(hot[0] == m[0]);
            } else {
                assert(m[i] == t[i - 1]);
                if hot.drop_first().contains(t[i - 1]) {
                    let k = choose|k: int| 0 <= k < hot.drop_first().len() && hot.drop_first()[k] == t[i - 1];
                    assert(hot[k + 1] == t[i - 1]);
                }
                if disk.drop_first().contains(t[i - 1]) {
                    let k = choose|k: int| 0 <= k < disk.drop_first().len() && disk.drop_first()[k] == t[i - 1];
                    assert(disk[k + 1] == t[i - 1]);
                }
            }
        }
    }
}


proof fn lemma_sorted_tail(s: Seq<DbRecord>)
    requires
        sorted_by_key(s),
        s.len() > 0,
    ensures
        sorted_by_key(s.drop_first()),
        forall|i: int| 0 <= i < s.drop_first().len() ==> lex_lt(s[0].key@, #[trigger] s.drop_first()[i].key@),
{
    assert forall|i: int| 0 <= i < s.drop_first().len() implies lex_lt(s[0].key@, #[trigger] s.drop_first()[i].key@) by {
        assert(s.drop_first()[i] == s[i + 1]);
    }
}

/// Each member of a sorted list has a key no smaller than its first key.
proof fn lemma_sorted_member_ge(s: Seq<DbRecord>, e: DbRecord)
    requires
        sorted_by_key(s),
        s.contains(e),
    ensures
        lex_lt(s[0].key@, e.key@) || s[0].key@ == e.key@,
{
    let k = choose|k: int| 0 <= k < s.len() && s[k] == e;
    if k > 0 {
        assert(lex_lt(s[0].key@, s[k].key@));
    }
}

/// Merging two key-sorted lists gives a key-sorted page; every record of the
/// page is a hot record, or a disk record whose key no hot record carries.
pub proof fn merge_page_is_sorted_and_hot_wins(disk: Seq<DbRecord>, hot: Seq<DbRecord>, limit: nat)
    requires
        sorted_by_key(disk),
        sorted_by_key(hot),
    ensures
        sorted_by_key(merge_by_key(disk, hot, limit)),
        forall|i: int| 0 <= i < merge_by_key(disk, hot, limit).len() ==>
            hot.contains(#[trigger] merge_by_key(disk, hot, limit)[i])
            || (disk.contains(merge_by_key(disk, hot, limit)[i]) && !has_key(hot, merge_by_key(disk, hot, limit)[i].key@)),
    decreases disk.len() + hot.len(),
{
    let m = merge_by_key(disk, hot, limit);
    if limit == 0 || (disk.len() == 0 && hot.len() == 0) {
        return;
    }
    let l1 = (limit - 1) as nat;
    if hot.len() == 0 || (disk.len() > 0 && lex_lt(disk[0].key@, hot[0].key@)) {
        let d1 = disk.drop_first();
        lemma_sorted_tail(disk);
        merge_page_is_sorted_and_hot_wins(d1, hot, l1);
        lemma_merge_members(d1, hot, l1);
        let t = merge_by_key(d1, hot, l1);
        assert(m == seq![disk[0]] + t);
        assert forall|i: int| 0 <= i < t.len() implies lex_lt(disk[0].key@, #[trigger] t[i].key@) by {
            if d1.contains(t[i]) {
                let k = choose|k: int| 0 <= k < d1.len() && d1[k] == t[i];
                assert(lex_lt(disk[0].key@, d1[k].key@));
            } else {
                lemma_sorted_member_ge(hot, t[i]);
                if lex_lt(hot[0].key@, t[i].key@) {
                    lemma_lex_transitive(disk[0].key@, hot[0].key@, t[i].key@);
                }
            }
        }
        assert forall|i: int, j: int| 0 <= i < j < m.len() implies lex_lt(m[i].key@, m[j].key@) by {
            if i == 0 {
                assert(m[j] == t[j - 1]);
            } else {
                assert(m[i] == t[i - 1] && m[j] == t[j - 1]);
            }
        }
        assert forall|i: int| 0 <= i < m.len() implies hot.contains(#[trigger] m[i])
            || (disk.contains(m[i]) && !has_key(hot, m[i].key@)) by {
            if i == 0 {
                assert(disk[0] == m[0]);
                if has_key(hot, disk[0].key@) {
                    let k = choose|k: int| 0 <= k < hot.len() && hot[k].key@ == disk[0].key@;
                    if k > 0 {
                        assert(lex_lt(hot[0].key@, hot[k].key@));
                        lemma_lex_transitive(disk[0].key@, hot[0].key@, hot[k].key@);
                    }
                    lemma_lex_irreflexive(disk[0].key@);
                }
            } else {
                assert(m[i] == t[i - 1]);
                if d1.contains(t[i - 1]) {
                    let k = choose|k: int| 0 <= k < d1.len() && d1[k] == t[i - 1];
                    assert(disk[k + 1] == t[i - 1]);
                }
            }
        }
    } else {
        let h1 = hot.drop_first();
        lemma_sorted_tail(hot);
        let eq = disk.len() > 0 && disk[0].key@ == hot[0].key@;
        let d1 = if eq { disk.drop_first() } else { disk };
        if eq {
            lemma_sorted_tail(disk);
        }
        merge_page_is_sorted_and_hot_wins(d1, h1, l1);
        lemma_merge_members(d1, h1, l1);
        let t = merge_by_key(d1, h1, l1);
        assert(m == seq![hot[0]] + t);
        if disk.len() > 0 && !eq {
            lemma_lex_trichotomy(disk[0].key@, hot[0].key@);
        }
        assert forall|e: DbRecord| d1.contains(e) implies lex_lt(hot[0].key@, e.key@) by {
            if eq {
                let k = choose|k: int| 0 <= k < d1.len() && d1[k] == e;
                assert(lex_lt(disk[0].key@, d1[k].key@));
            } else {
                lemma_sorted_member_ge(disk, e);
                if lex_lt(disk[0].key@, e.key@) {
                    lemma_lex_transitive(hot[0].key@, disk[0].key@, e.key@);
                }
            }
        }
        assert forall|i: int| 0 <= i < t.len() implies lex_lt(hot[0].key@, #[trigger] t[i].key@) by {
            if h1.contains(t[i]) {
                let k = choose|k: int| 0 <= k < h1.len() && h1[k] == t[i];
                assert(lex_lt(hot[0].key@, h1[k].key@));
            }
        }
        assert forall|i: int, j: int| 0 <= i < j < m.len() implies lex_lt(m[i].key@, m[j].key@) by {
            if i == 0 {
                assert(m[j] == t[j - 1]);
            } else {
                assert(m[i] == t[i - 1] && m[j] == t[j - 1]);
            }
        }
        assert forall|i: int| 0 <= i < m.len() implies hot.contains(#[trigger] m[i])
            || (disk.contains(m[i]) && !has_key(hot, m[i].key@)) by {
            if i == 0 {
                assert(hot[0] == m[0]);
            } else {
                let e = t[i - 1];
                assert(m[i] == e);
                if h1.contains(e) {
                    let k = choose|k: int| 0 <= k < h1.len() && h1[k] == e;
                    assert(hot[k + 1] == e);
                } else {
                    assert(d1.contains(e) && !has_key(h1, e.key@));
                    if eq {
                        let k = choose|k: int| 0 <= k < d1.len() && d1[k] == e;
                        assert(disk[k + 1] == e);
                    }
                    assert(lex_lt(hot[0].key@, e.key@));
                    if has_key(hot, e.key@) {
                        let k = choose|k: int| 0 <= k < hot.len() && hot[k].key@ == e.key@;
                        if k == 0 {
                            lemma_lex_irreflexive(e.key@);
                        } else {
                            assert(h1[k - 1].key@ == e.key@);
                        }
                    }
                }
            }
        }
    }
}

/// Whether some record of `disk` or of `hot` has key `k`.
pub open spec fn input_key(disk: Seq<DbRecord>, hot: Seq<DbRecord>, k: Seq<char>) -> bool {
    has_key(disk, k) || has_key(hot, k)
}

/// `page` leaves out no key of the inputs that it should hold: where it is
/// shorter than the limit it holds every key, and it holds every key of the
/// inputs below a key it holds.
pub open spec fn page_complete(disk: Seq<DbRecord>, hot: Seq<DbRecord>, limit: nat, page: Seq<DbRecord>) -> bool {
    &&& page.len() < limit ==> forall|k: Seq<char>| #[trigger] input_key(disk, hot, k) ==> has_key(page, k)
    &&& forall|k: Seq<char>, j: int|
        0 <= j < page.len() && #[trigger] input_key(disk, hot, k) && lex_lt(k, #[trigger] page[j].key@)
            ==> has_key(page, k)
}

/// A key of a sorted list is its first key or above it.
proof fn lemma_first_key_least(s: Seq<DbRecord>, k: Seq<char>)
    requires
        sorted_by_key(s),
        has_key(s, k),
    ensures
        s[0].key@ == k || lex_lt(s[0].key@, k),
{
    let i = choose|i: int| 0 <= i < s.len() && s[i].key@ == k;
    if i > 0 {
        assert(lex_lt(s[0].key@, s[i].key@));
    }
}

/// One step of a merge: the page is `x` then the merge of `d1` and `h1`.
proof fn lemma_complete_step(
    disk: Seq<DbRecord>,
    hot: Seq<DbRecord>,
    d1: Seq<DbRecord>,
    h1: Seq<DbRecord>,
    x: DbRecord,
    limit: nat,
)
    requires
        limit > 0,
        merge_by_key(disk, hot, limit) == seq![x] + merge_by_key(d1, h1, (limit - 1) as nat),
        forall|k: Seq<char>| #[trigger] input_key(disk, hot, k) ==> k == x.key@ || (input_key(d1, h1, k) && lex_lt(x.key@, k)),
        page_complete(d1, h1, (limit - 1) as nat, merge_by_key(d1, h1, (limit - 1) as nat)),
    ensures
        page_complete(disk, hot, limit, merge_by_key(disk, hot, limit)),
{
    let m = merge_by_key(disk, hot, limit);
    let t = merge_by_key(d1, h1, (limit - 1) as nat);
    assert(m[0] == x);
    assert forall|k: Seq<char>| has_key(t, k) implies has_key(m, k) by {
        let i = choose|i: int| 0 <= i < t.len() && t[i].key@ == k;
        assert(m[i + 1] == t[i]);
    }
    assert(has_key(m, x.key@));
    if m.len() < limit {
        assert forall|k: Seq<char>| #[trigger] input_key(disk, hot, k) implies has_key(m, k) by {
            if k != x.key@ {
                assert(input_key(d1, h1, k));
            }
        }
    }
    assert forall|k: Seq<char>, j: int|
        0 <= j < m.len() && #[trigger] input_key(disk, hot, k) && lex_lt(k, #[trigger] m[j].key@) implies has_key(m, k) by {
        if k != x.key@ {
            assert(input_key(d1, h1, k) && lex_lt(x.key@, k));
            if j == 0 {
                lemma_lex_trichotomy(x.key@, k);
            } else {
                assert(m[j] == t[j - 1]);
                assert(input_key(d1, h1, k) && lex_lt(k, t[j - 1].key@));
            }
        }
    }
}

proof fn lemma_merge_complete(disk: Seq<DbRecord>, hot: Seq<DbRecord>, limit: nat)
    requires
        sorted_by_key(disk),
        sorted_by_key(hot),
    ensures
        page_complete(disk, hot, limit, merge_by_key(disk, hot, limit)),
    decreases disk.len() + hot.len(),
{
    let m = merge_by_key(disk, hot, limit);
    if limit == 0 {
        return;
    }
    if disk.len() == 0 && hot.len() == 0 {
        assert forall|k: Seq<char>| #[trigger] input_key(disk, hot, k) implies has_key(m, k) by {}
        return;
    }
    let l1 = (limit - 1) as nat;
    if hot.len() == 0 || (disk.len() > 0 && lex_lt(disk[0].key@, hot[0].key@)) {
        let d1 = disk.drop_first();
        lemma_sorted_tail(disk);
        lemma_merge_complete(d1, hot, l1);
        let x = disk[0];
        assert forall|k: Seq<char>| #[trigger] input_key(disk, hot, k) implies k == x.key@
            || (input_key(d1, hot, k) && lex_lt(x.key@, k)) by {
            if has_key(disk, k) {
                let i = choose|i: int| 0 <= i < disk.len() && disk[i].key@ == k;
                if i > 0 {
                    assert(d1[i - 1] == disk[i]);
                    assert(lex_lt(disk[0].key@, disk[i].key@));
                }
            } else {
                lemma_first_key_least(hot, k);
                if lex_lt(hot[0].key@, k) {
                    lemma_lex_transitive(x.key@, hot[0].key@, k);
                }
            }
        }
        lemma_complete_step(disk, hot, d1, hot, x, limit);
    } else {
        let h1 = hot.drop_first();
        lemma_sorted_tail(hot);
        let eq = disk.len() > 0 && disk[0].key@ == hot[0].key@;
        let d1 = if eq { disk.drop_first() } else { disk };
        if eq {
            lemma_sorted_tail(disk);
        }
        if disk.len() > 0 && !eq {
            lemma_lex_trichotomy(disk[0].key@, hot[0].key@);
        }
        lemma_merge_complete(d1, h1, l1);
        let x = hot[0];
        assert forall|k: Seq<char>| #[trigger] input_key(disk, hot, k) implies k == x.key@
            || (input_key(d1, h1, k) && lex_lt(x.key@, k)) by {
            if has_key(hot, k) {
                let i = choose|i: int| 0 <= i < hot.len() && hot[i].key@ == k;
                if i > 0 {
                    assert(h1[i - 1] == hot[i]);
                    assert(lex_lt(hot[0].key@, hot[i].key@));
                }
            } else {
                let i = choose|i: int| 0 <= i < disk.len() && disk[i].key@ == k;
                if eq {
                    if i > 0 {
                        assert(d1[i - 1] == disk[i]);
                        assert(lex_lt(disk[0].key@, disk[i].key@));
                    }
                } else {
                    assert(d1[i] == disk[i]);
                    lemma_first_key_least(disk, k);
                    if lex_lt(disk[0].key@, k) {
                        lemma_lex_transitive(x.key@, disk[0].key@, k);
                    }
                }
            }
        }
        lemma_complete_step(disk, hot, d1, h1, x, limit);
    }
}

/// Merging two key-sorted lists leaves out no key it has room for: a page
/// shorter than the limit holds every key of both inputs, and the page holds
/// every key of the inputs that is below a key it holds. With
/// `merge_page_is_sorted_and_hot_wins`, the page is the smallest keys of both
/// inputs, up to the limit, each once, the hot record winning.
pub proof fn merge_page_is_complete_up_to_the_limit(disk: Seq<DbRecord>, hot: Seq<DbRecord>, limit: nat)
    requires
        sorted_by_key(disk),
        sorted_by_key(hot),
    ensures
        merge_by_key(disk, hot, limit).len() <= limit,
        merge_by_key(disk, hot, limit).len() < limit ==> forall|k: Seq<char>|
            (has_key(disk, k) || has_key(hot, k)) ==> #[trigger] has_key(merge_by_key(disk, hot, limit), k),
        forall|k: Seq<char>, j: int|
            0 <= j < merge_by_key(disk, hot, limit).len() && (has_key(disk, k) || has_key(hot, k))
                && #[trigger] lex_lt(k, merge_by_key(disk, hot, limit)[j].key@)
                ==> has_key(merge_by_key(disk, hot, limit), k),
{
    lemma_merge_members(disk, hot, limit);
    lemma_merge_complete(disk, hot, limit);
    let m = merge_by_key(disk, hot, limit);
    assert forall|k: Seq<char>| m.len() < limit && (has_key(disk, k) || has_key(hot, k)) implies #[trigger] has_key(m, k) by {
        assert(input_key(disk, hot, k));
    }
    assert forall|k: Seq<char>, j: int|
        0 <= j < m.len() && (has_key(disk, k) || has_key(hot, k)) && #[trigger] lex_lt(k, m[j].key@)
        implies has_key(m, k) by {
        assert(input_key(disk, hot, k));
    }
}


/// A record predicate given as an executable closure: always callable, and
/// giving one answer for each record.
pub open spec fn deterministic_predicate<F: Fn(&DbRecord) -> bool>(f: F) -> bool {
    &&& forall|r: &DbRecord| #[trigger] f.requires((r,))
    &&& forall|r: &DbRecord, a: bool, b: bool| #[trigger] f.ensures((r,), a) && #[trigger] f.ensures((r,), b) ==> a == b
}

/// The answer of such a closure for `r`.
pub open spec fn answers<F: Fn(&DbRecord) -> bool>(f: F, r: DbRecord) -> bool {
    f.ensures((&r,), true)
}

/// The matching records of a merge run until `remaining` of them are found:
/// records are taken in the order of `merge_by_key` (a hot record replacing
/// the disk record of the same key), and only those that match are kept.
pub open spec fn merge_matching(disk: Seq<DbRecord>, hot: Seq<DbRecord>, remaining: nat, pred: spec_fn(DbRecord) -> bool) -> Seq<DbRecord>
    decreases disk.len() + hot.len(),
{
    if remaining == 0 || (disk.len() == 0 && hot.len() == 0) {
        Seq::empty()
    } else {
        let take_disk = hot.len() == 0 || (disk.len() > 0 && lex_lt(disk[0].key@, hot[0].key@));
        let drop_both = !take_disk && disk.len() > 0 && disk[0].key@ == hot[0].key@;
        let x = if take_disk { disk[0] } else { hot[0] };
        let d1 = if take_disk || drop_both { disk.drop_first() } else { disk };
        let h1 = if take_disk { hot } else { hot.drop_first() };
        if pred(x) {
            seq![x] + merge_matching(d1, h1, (remaining - 1) as nat, pred)
        } else {
            merge_matching(d1, h1, remaining, pred)
        }
    }
}

/// Disk records whose keys are not shadowed by the hot overlay.
pub open spec fn unshadowed(disk: Seq<DbRecord>, shadow: Seq<Seq<char>>) -> Seq<DbRecord> {
    disk.filter(|r: DbRecord| !shadow.contains(r.key@))
}

fn drop_shadowed(disk: Vec<DbRecord>, shadow_keys: &[String]) -> (r: Vec<DbRecord>)
    ensures
        r@ == unshadowed(disk@, crate::scopes::views(shadow_keys@)),
{
    let ghost d0 = disk@;
    let ghost shadow = crate::scopes::views(shadow_keys@);
    let mut rev = reversed(disk);
    let mut out: Vec<DbRecord> = Vec::new();
    assert(d0.subrange(0, 0) =~= Seq::<DbRecord>::empty());
    while rev.len() > 0
        invariant
            rev@.len() <= d0.len(),
            shadow == crate::scopes::views(shadow_keys@),
            rev@.reverse() == d0.subrange(d0.len() - rev@.len(), d0.len() as int),
            out@ == unshadowed(d0.subrange(0, d0.len() - rev@.len()), shadow),
        decreases rev@.len(),
    {
        let ghost k = d0.len() - rev@.len();
        proof {
            lemma_reverse_last(rev@);
            assert(d0.subrange(k, d0.len() as int)[0] == d0[k]);
            reveal_with_fuel(Seq::<_>::filter, 1);
            assert(d0.subrange(0, k + 1).drop_last() =~= d0.subrange(0, k));
        }
        let x = rev.pop().unwrap();
        proof {
            assert(rev@.reverse() =~= d0.subrange(d0.len() - rev@.len(), d0.len() as int)) by {
                assert(d0.subrange(k, d0.len() as int).drop_first() =~= d0.subrange(k + 1, d0.len() as int));
            }
        }
        assert(x == d0[k]);
        let ghost before = out@;
        if !crate::manifest::contains_key_of(shadow_keys, x.key.as_str()) {
            out.push(x);
        }
        proof {
            reveal_with_fuel(Seq::<_>::filter, 1);
            let s1 = d0.subrange(0, k + 1);
            assert(s1.drop_last() =~= d0.subrange(0, k));
            assert(s1.last() == x);
            assert(d0.len() - rev@.len() == k + 1);
            let pr = |r: DbRecord| !shadow.contains(r.key@);
            assert(s1.filter(pr) == if pr(x) { s1.drop_last().filter(pr).push(x) } else { s1.drop_last().filter(pr) });
            if pr(x) {
                assert(out@ =~= before.push(x));
            }
        }
    }
    assert(d0.subrange(0, d0.len() as int) =~= d0);
    out
}

/// Merges an unshadowed disk page with the hot records, keeping the records
/// that `matches` accepts, until one more than `limit` are found; the page
/// holds the first `limit` of them and the flag tells whether there were
/// more.
pub fn merge_key_order_records_matching_with_shadow_keys<F: Fn(&DbRecord) -> bool>(
    disk_records: Vec<DbRecord>,
    hot_records: Vec<DbRecord>,
    shadow_keys: &[String],
    limit: usize,
    matches: F,
) -> (r: (Vec<DbRecord>, bool))
    requires
        deterministic_predicate(matches),
    ensures
        ({
            let full = merge_matching(
                unshadowed(disk_records@, crate::scopes::views(shadow_keys@)),
                hot_records@,
                limit as nat + 1,
                |x: DbRecord| answers(matches, x),
            );
            &&& r.1 == (full.len() > limit)
            &&& r.0@ == if r.1 { full.take(limit as int) } else { full }
        }),
{
    let ghost pred = |x: DbRecord| answers(matches, x);
    let disk0 = drop_shadowed(disk_records, shadow_keys);
    let ghost d0 = disk0@;
    let ghost h0 = hot_records@;
    let mut disk = reversed(disk0);
    let mut hot = reversed(hot_records);
    let mut records: Vec<DbRecord> = Vec::new();
    assert(disk@.reverse() =~= d0);
    assert(hot@.reverse() =~= h0);
    loop
        invariant
            deterministic_predicate(matches),
            pred == (|x: DbRecord| answers(matches, x)),
            records@.len() <= limit as nat + 1,
            records@ + merge_matching(disk@.reverse(), hot@.reverse(), (limit as nat + 1 - records@.len()) as nat, pred)
                == merge_matching(d0, h0, limit as nat + 1, pred),
        ensures
            records@ == merge_matching(d0, h0, limit as nat + 1, pred),
        decreases disk@.len() + hot@.len(),
    {
        let ghost dr = disk@.reverse();
        let ghost hr = hot@.reverse();
        let ghost rest = (limit as nat + 1 - records@.len()) as nat;
        let nd = disk.len();
        let nh = hot.len();
        if records.len() > limit || (nd == 0 && nh == 0) {
            assert(merge_matching(dr, hr, rest, pred) =~= Seq::<DbRecord>::empty());
            assert(records@ + Seq::<DbRecord>::empty() =~= records@);
            break;
        }
        let ghost before = records@;
        let x: DbRecord;
        if nh == 0 {
            proof { lemma_reverse_last(disk@); }
            x = disk.pop().unwrap();
        } else if nd == 0 {
            proof { lemma_reverse_last(hot@); }
            x = hot.pop().unwrap();
        } else {
            proof {
                lemma_reverse_last(disk@);
                lemma_reverse_last(hot@);
            }
            if key_lt(&disk[nd - 1], &hot[nh - 1]) {
                x = disk.pop().unwrap();
            } else if key_eq(&disk[nd - 1], &hot[nh - 1]) {
                let _ = disk.pop();
                x = hot.pop().unwrap();
            } else {
                x = hot.pop().unwrap();
            }
        }
        let keep = matches(&x);
        assert(keep == pred(x));
        if keep {
            records.push(x);
            proof {
                let tail = merge_matching(disk@.reverse(), hot@.reverse(), (limit as nat + 1 - records@.len()) as nat, pred);
                assert(records@ + tail =~= before + (seq![x] + tail));
            }
        }
    }
    let has_more = records.len() > limit;
    if has_more {
        records.truncate(limit);
    }
    (records, has_more)
}


pub proof fn lemma_reverse_last_pub<T>(s: Seq<T>)
    requires
        s.len() > 0,
    ensures
        s.reverse().drop_first() == s.drop_last().reverse(),
        s.reverse()[0] == s.last(),
{
    lemma_reverse_last(s);
}


/// The keys of a list of records, in order; read as a set.
pub fn record_key_set(records: &Vec<DbRecord>) -> (keys: Vec<String>)
    ensures
        crate::scopes::views(keys@) == records@.map_values(|r: DbRecord| r.key@),
{
    let mut keys: Vec<String> = Vec::new();
    let mut i: usize = 0;
    while i < records.len()
        invariant
            i <= records@.len(),
            crate::scopes::views(keys@) == records@.take(i as int).map_values(|r: DbRecord| r.key@),
        decreases records@.len() - i,
    {
        let ghost before = keys@;
        keys.push(records[i].key.clone());
        proof {
            assert(crate::scopes::views(before) == records@.take(i as int).map_values(|r: DbRecord| r.key@));
            assert(crate::scopes::views(keys@) =~= crate::scopes::views(before).push(records@[i as int].key@));
            assert(records@.take(i + 1).map_values(|r: DbRecord| r.key@) =~= records@.take(i as int).map_values(|r: DbRecord| r.key@).push(records@[i as int].key@));
        }
        i = i + 1;
    }
    assert(records@.take(i as int) =~= records@);
    keys
}

/// The records that `matches` accepts, in order.
fn keep_matching<F: Fn(&DbRecord) -> bool>(records: Vec<DbRecord>, matches: &F) -> (out: Vec<DbRecord>)
    requires
        deterministic_predicate(*matches),
    ensures
        out@ == records@.filter(|x: DbRecord| answers(*matches, x)),
{
    let ghost pred = |x: DbRecord| answers(*matches, x);
    let ghost d0 = records@;
    let mut rev = reversed(records);
    let mut out: Vec<DbRecord> = Vec::new();
    assert(d0.subrange(0, 0) =~= Seq::<DbRecord>::empty());
    while rev.len() > 0
        invariant
            rev@.len() <= d0.len(),
            deterministic_predicate(*matches),
            pred == (|x: DbRecord| answers(*matches, x)),
            rev@.reverse() == d0.subrange(d0.len() - rev@.len(), d0.len() as int),
            out@ == d0.subrange(0, d0.len() - rev@.len()).filter(pred),
        decreases rev@.len(),
    {
        let ghost k = d0.len() - rev@.len();
        proof {
            lemma_reverse_last(rev@);
            assert(d0.subrange(k, d0.len() as int)[0] == d0[k]);
            assert(d0.subrange(k, d0.len() as int).drop_first() =~= d0.subrange(k + 1, d0.len() as int));
        }
        let x = rev.pop().unwrap();
        assert(x == d0[k]);
        let ghost before = out@;
        let keep = (*matches)(&x);
        assert(keep == pred(x));
        if keep {
            out.push(x);
        }
        proof {
            reveal_with_fuel(Seq::<_>::filter, 1);
            let s1 = d0.subrange(0, k + 1);
            assert(s1.drop_last() =~= d0.subrange(0, k));
            assert(s1.last() == x);
            if pred(x) {
                assert(out@ =~= before.push(x));
            }
        }
    }
    assert(d0.subrange(0, d0.len() as int) =~= d0);
    out
}

/// The hot records that `matches` accepts, and the keys of all of them (which
/// shadow the disk's records of those keys).
pub fn split_matching_hot_records<F: Fn(&DbRecord) -> bool>(
    hot_records: Vec<DbRecord>,
    matches: F,
) -> (r: (Vec<DbRecord>, Vec<String>))
    requires
        deterministic_predicate(matches),
    ensures
        r.0@ == hot_records@.filter(|x: DbRecord| answers(matches, x)),
        crate::scopes::views(r.1@) == hot_records@.map_values(|x: DbRecord| x.key@),
{
    let hot_keys = record_key_set(&hot_records);
    let matching = keep_matching(hot_records, &matches);
    (matching, hot_keys)
}

/// The hot records of a key range, and the keys that shadow the disk's
/// records there.
pub struct RecordHotKeyOrderOverlay {
    pub records: Vec<DbRecord>,
    pub shadow_keys: Vec<String>,
}

/// The overlay's records that `matches` accepts, and its shadow keys.
pub fn split_matching_hot_overlay<F: Fn(&DbRecord) -> bool>(
    overlay: RecordHotKeyOrderOverlay,
    matches: F,
) -> (r: (Vec<DbRecord>, Vec<String>))
    requires
        deterministic_predicate(matches),
    ensures
        r.0@ == overlay.records@.filter(|x: DbRecord| answers(matches, x)),
        r.1 == overlay.shadow_keys,
{
    let RecordHotKeyOrderOverlay { records, shadow_keys } = overlay;
    let matching = keep_matching(records, &matches);
    (matching, shadow_keys)
}

/// A record with the cursor of its place in a schema order.
pub struct OrderedDbRecord {
    pub record: DbRecord,
    pub cursor: String,
}

pub open spec fn ordered_answers<F: Fn(&DbRecord) -> bool>(f: F, r: OrderedDbRecord) -> bool {
    answers(f, r.record)
}

/// The ordered hot records whose record `matches` accepts, in order.
pub fn split_matching_ordered_hot_records<F: Fn(&DbRecord) -> bool>(
    hot_records: Vec<OrderedDbRecord>,
    matches: F,
) -> (out: Vec<OrderedDbRecord>)
    requires
        deterministic_predicate(matches),
    ensures
        out@ == hot_records@.filter(|x: OrderedDbRecord| ordered_answers(matches, x)),
{
    let ghost pred = |x: OrderedDbRecord| ordered_answers(matches, x);
    let ghost d0 = hot_records@;
    let mut rev = reversed(hot_records);
    let mut out: Vec<OrderedDbRecord> = Vec::new();
    assert(d0.subrange(0, 0) =~= Seq::<OrderedDbRecord>::empty());
    while rev.len() > 0
        invariant
            rev@.len() <= d0.len(),
            deterministic_predicate(matches),
            pred == (|x: OrderedDbRecord| ordered_answers(matches, x)),
            rev@.reverse() == d0.subrange(d0.len() - rev@.len(), d0.len() as int),
            out@ == d0.subrange(0, d0.len() - rev@.len()).filter(pred),
        decreases rev@.len(),
    {
        let ghost k = d0.len() - rev@.len();
        proof {
            lemma_reverse_last(rev@);
            assert(d0.subrange(k, d0.len() as int)[0] == d0[k]);
            assert(d0.subrange(k, d0.len() as int).drop_first() =~= d0.subrange(k + 1, d0.len() as int));
        }
        let x = rev.pop().unwrap();
        assert(x == d0[k]);
        let ghost before = out@;
        let keep = matches(&x.record);
        assert(keep == pred(x));
        if keep {
            out.push(x);
        }
        proof {
            reveal_with_fuel(Seq::<_>::filter, 1);
            let s1 = d0.subrange(0, k + 1);
            assert(s1.drop_last() =~= d0.subrange(0, k));
            assert(s1.last() == x);
            if pred(x) {
                assert(out@ =~= before.push(x));
            }
        }
    }
    assert(d0.subrange(0, d0.len() as int) =~= d0);
    out
}

/// The matching records of a merge by cursor run until `remaining` of them
/// are found: at each step the record with the smaller cursor is taken, the
/// disk's where both are equal, and only those that match are kept.
pub open spec fn merge_ordered_matching(
    disk: Seq<OrderedDbRecord>,
    hot: Seq<OrderedDbRecord>,
    remaining: nat,
    pred: spec_fn(OrderedDbRecord) -> bool,
) -> Seq<OrderedDbRecord>
    decreases disk.len() + hot.len(),
{
    if remaining == 0 || (disk.len() == 0 && hot.len() == 0) {
        Seq::empty()
    } else {
        let take_disk = hot.len() == 0 || (disk.len() > 0 && crate::order::lex_le(disk[0].cursor@, hot[0].cursor@));
        let x = if take_disk {
            disk[0]
        } else {
            hot[0]
        };
        let d1 = if take_disk {
            disk.drop_first()
        } else {
            disk
        };
        let h1 = if take_disk {
            hot
        } else {
            hot.drop_first()
        };
        if pred(x) {
            seq![x] + merge_ordered_matching(d1, h1, (remaining - 1) as nat, pred)
        } else {
            merge_ordered_matching(d1, h1, remaining, pred)
        }
    }
}

/// The disk records whose key is not shadowed.
pub open spec fn ordered_unshadowed(disk: Seq<OrderedDbRecord>, shadow: Seq<Seq<char>>) -> Seq<OrderedDbRecord> {
    disk.filter(|r: OrderedDbRecord| !shadow.contains(r.record.key@))
}

fn drop_shadowed_ordered(disk: Vec<OrderedDbRecord>, shadow_keys: &[String]) -> (r: Vec<OrderedDbRecord>)
    ensures
        r@ == ordered_unshadowed(disk@, crate::scopes::views(shadow_keys@)),
{
    let ghost d0 = disk@;
    let ghost shadow = crate::scopes::views(shadow_keys@);
    let ghost pr = |r: OrderedDbRecord| !shadow.contains(r.record.key@);
    let mut rev = reversed(disk);
    let mut out: Vec<OrderedDbRecord> = Vec::new();
    assert(d0.subrange(0, 0) =~= Seq::<OrderedDbRecord>::empty());
    while rev.len() > 0
        invariant
            rev@.len() <= d0.len(),
            shadow == crate::scopes::views(shadow_keys@),
            pr == (|r: OrderedDbRecord| !shadow.contains(r.record.key@)),
            rev@.reverse() == d0.subrange(d0.len() - rev@.len(), d0.len() as int),
            out@ == d0.subrange(0, d0.len() - rev@.len()).filter(pr),
        decreases rev@.len(),
    {
        let ghost k = d0.len() - rev@.len();
        proof {
            lemma_reverse_last(rev@);
            assert(d0.subrange(k, d0.len() as int)[0] == d0[k]);
            assert(d0.subrange(k, d0.len() as int).drop_first() =~= d0.subrange(k + 1, d0.len() as int));
        }
        let x = rev.pop().unwrap();
        assert(x == d0[k]);
        let ghost before = out@;
        if !crate::manifest::contains_key_of(shadow_keys, x.record.key.as_str()) {
            out.push(x);
        }
        proof {
            reveal_with_fuel(Seq::<_>::filter, 1);
            let s1 = d0.subrange(0, k + 1);
            assert(s1.drop_last() =~= d0.subrange(0, k));
            assert(s1.last() == x);
            if pr(x) {
                assert(out@ =~= before.push(x));
            }
        }
    }
    assert(d0.subrange(0, d0.len() as int) =~= d0);
    out
}

fn cursor_le(a: &OrderedDbRecord, b: &OrderedDbRecord) -> (r: bool)
    ensures
        r == crate::order::lex_le(a.cursor@, b.cursor@),
{
    let x = chars_of(a.cursor.as_str());
    let y = chars_of(b.cursor.as_str());
    chars_lt(x.as_slice(), y.as_slice()) || chars_eq(x.as_slice(), y.as_slice())
}

/// Merges an unshadowed disk page with the hot records by cursor, keeping
/// the records that `matches` accepts, until one more than `limit` are
/// found; the page holds the first `limit` of them and the flag tells
/// whether there were more.
pub fn merge_ordered_records_matching_with_shadow_keys<F: Fn(&DbRecord) -> bool>(
    disk_records: Vec<OrderedDbRecord>,
    hot_records: Vec<OrderedDbRecord>,
    shadow_keys: &[String],
    limit: usize,
    matches: F,
) -> (r: (Vec<OrderedDbRecord>, bool))
    requires
        deterministic_predicate(matches),
    ensures
        ({
            let full = merge_ordered_matching(
                ordered_unshadowed(disk_records@, crate::scopes::views(shadow_keys@)),
                hot_records@,
                limit as nat + 1,
                |x: OrderedDbRecord| ordered_answers(matches, x),
            );
            &&& r.1 == (full.len() > limit)
            &&& r.0@ == if r.1 {
                full.take(limit as int)
            } else {
                full
            }
        }),
{
    let ghost pred = |x: OrderedDbRecord| ordered_answers(matches, x);
    let disk0 = drop_shadowed_ordered(disk_records, shadow_keys);
    let ghost d0 = disk0@;
    let ghost h0 = hot_records@;
    let mut disk = reversed(disk0);
    let mut hot = reversed(hot_records);
    let mut records: Vec<OrderedDbRecord> = Vec::new();
    assert(disk@.reverse() =~= d0);
    assert(hot@.reverse() =~= h0);
    loop
        invariant
            deterministic_predicate(matches),
            pred == (|x: OrderedDbRecord| ordered_answers(matches, x)),
            records@.len() <= limit as nat + 1,
            records@ + merge_ordered_matching(disk@.reverse(), hot@.reverse(), (limit as nat + 1 - records@.len()) as nat, pred)
                == merge_ordered_matching(d0, h0, limit as nat + 1, pred),
        ensures
            records@ == merge_ordered_matching(d0, h0, limit as nat + 1, pred),
        decreases disk@.len() + hot@.len(),
    {
        let ghost dr = disk@.reverse();
        let ghost hr = hot@.reverse();
        let ghost rest = (limit as nat + 1 - records@.len()) as nat;
        let nd = disk.len();
        let nh = hot.len();
        if records.len() > limit || (nd == 0 && nh == 0) {
            assert(merge_ordered_matching(dr, hr, rest, pred) =~= Seq::<OrderedDbRecord>::empty());
            assert(records@ + Seq::<OrderedDbRecord>::empty() =~= records@);
            break;
        }
        let ghost before = records@;
        let x: OrderedDbRecord;
        if nh == 0 {
            proof {
                lemma_reverse_last(disk@);
            }
            x = disk.pop().unwrap();
        } else if nd == 0 {
            proof {
                lemma_reverse_last(hot@);
            }
            x = hot.pop().unwrap();
        } else {
            proof {
                lemma_reverse_last(disk@);
                lemma_reverse_last(hot@);
            }
            if cursor_le(&disk[nd - 1], &hot[nh - 1]) {
                x = disk.pop().unwrap();
            } else {
                x = hot.pop().unwrap();
            }
        }
        let keep = matches(&x.record);
        assert(keep == pred(x));
        if keep {
            records.push(x);
            proof {
                let tail = merge_ordered_matching(disk@.reverse(), hot@.reverse(), (limit as nat + 1 - records@.len()) as nat, pred);
                assert(records@ + tail =~= before + (seq![x] + tail));
            }
        }
    }
    let has_more = records.len() > limit;
    if has_more {
        records.truncate(limit);
    }
    (records, has_more)
}

} // verus!

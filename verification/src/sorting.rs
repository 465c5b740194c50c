//! Stable sorting by an integer key, stated as insertion: each item goes after
//! every item before it whose key is not greater.
use vstd::prelude::*;

verus! {

/// `w` placed into `s` after every trailing item whose key is not greater.
pub open spec fn insert_by_key<T>(s: Seq<T>, w: T, key: spec_fn(T) -> u64) -> Seq<T>
    decreases s.len(),
{
    if s.len() == 0 || key(s.last()) <= key(w) {
        s.push(w)
    } else {
        insert_by_key(s.drop_last(), w, key).push(s.last())
    }
}

/// `s` sorted by `key`, items with equal keys in the order they had.
pub open spec fn sort_by_key<T>(s: Seq<T>, key: spec_fn(T) -> u64) -> Seq<T>
    decreases s.len(),
{
    if s.len() == 0 {
        Seq::empty()
    } else {
        insert_by_key(sort_by_key(s.drop_last(), key), s.last(), key)
    }
}

/// Inserting at a position where the previous item's key is not greater and
/// the later items' keys are greater.
pub proof fn lemma_insert_by_key_at<T>(s: Seq<T>, w: T, key: spec_fn(T) -> u64, p: int)
    requires
        0 <= p <= s.len(),
        p == 0 || key(s[p - 1]) <= key(w),
        forall|j: int| p <= j < s.len() ==> key(#[trigger] s[j]) > key(w),
    ensures
        insert_by_key(s, w, key) == s.take(p).push(w) + s.skip(p),
    decreases s.len(),
{
    if p == s.len() {
        assert(s.take(p) =~= s);
        assert(s.take(p).push(w) + s.skip(p) =~= s.push(w));
    } else {
        assert(key(s.last()) > key(w));
        let t = s.drop_last();
        lemma_insert_by_key_at(t, w, key, p);
        assert(t.take(p) =~= s.take(p));
        assert(s.take(p).push(w) + s.skip(p) =~= (t.take(p).push(w) + t.skip(p)).push(s.last()));
    }
}

} // verus!

//! Actor identities and the scope that a record's actor lives in.
use vstd::prelude::*;
use crate::behavior::ActorKind;
use crate::text::{cat2, cat3, chars_of, find_char, hex2, hex2_chars, string_from_chars};
use crate::util::{shard_index, shard_of};

verus! {

/// The number of buckets that top-level records are spread over.
pub const RECORD_ACTOR_BUCKETS: usize = 256;

/// An actor: its kind and its key.
pub struct ActorId {
    pub kind: ActorKind,
    pub key: String,
}

/// The name of an actor kind, as it is written in keys and logs.
pub open spec fn actor_kind_name(kind: ActorKind) -> Seq<char> {
    match kind {
        ActorKind::Room => seq!['r', 'o', 'o', 'm'],
        ActorKind::Scope => seq!['s', 'c', 'o', 'p', 'e'],
    }
}

impl ActorKind {
    /// The kind's name.
    pub fn as_str(&self) -> (s: String)
        ensures
            s@ == actor_kind_name(*self),
    {
        let mut v: Vec<char> = Vec::new();
        match self {
            ActorKind::Room => {
                v.push('r');
                v.push('o');
                v.push('o');
                v.push('m');
            },
            ActorKind::Scope => {
                v.push('s');
                v.push('c');
                v.push('o');
                v.push('p');
                v.push('e');
            },
        }
        assert(v@ =~= actor_kind_name(*self));
        string_from_chars(v.as_slice())
    }
}

/// The part of `s` before the first `c`; all of `s` where it has none.
pub open spec fn before_first(s: Seq<char>, c: char) -> Seq<char> {
    match s.index_of_first(c) {
        Some(k) => s.subrange(0, k),
        None => s,
    }
}

/// The key of the actor that holds a whole logical table.
pub open spec fn record_table_key(logical_table: Seq<char>) -> Seq<char> {
    seq!['t', 'a', 'b', 'l', 'e', ':'] + logical_table
}

/// The scope of the actor that holds a record. A record of a nested table
/// (whose logical name holds a `.`) whose key is `parent:child` lives with its
/// parent's partition; every other record lives in one of the table's buckets,
/// chosen by the shard hash of its key and written as two hex digits.
pub open spec fn record_scope_key(logical_table: Seq<char>, record_key: Seq<char>) -> Seq<char> {
    if logical_table.contains('.') && record_key.contains(':') {
        record_table_key(logical_table) + seq!['/', 'p', 'a', 'r', 'e', 'n', 't', ':']
            + before_first(record_key, ':')
    } else {
        record_table_key(logical_table) + seq!['/', 'b', 'u', 'c', 'k', 'e', 't', ':']
            + hex2(shard_of(record_key, RECORD_ACTOR_BUCKETS as nat))
    }
}

fn contains_char(v: &Vec<char>, c: char) -> (b: bool)
    ensures
        b == v@.contains(c),
{
    proof {
        v@.index_of_first_ensures(c);
    }
    find_char(v, c).is_some()
}

/// `table:{logical_table}`.
pub fn record_actor_table_key(logical_table: &str) -> (s: String)
    ensures
        s@ == record_table_key(logical_table@),
{
    let p = string_from_chars(&['t', 'a', 'b', 'l', 'e', ':']);
    assert(p@ =~= seq!['t', 'a', 'b', 'l', 'e', ':']);
    cat2(p.as_str(), logical_table)
}

/// The scope key of the actor that holds the record `record_key` of
/// `logical_table`.
pub fn record_actor_scope_key(logical_table: &str, record_key: &str) -> (s: String)
    ensures
        s@ == record_scope_key(logical_table@, record_key@),
{
    let table_key = record_actor_table_key(logical_table);
    let t = chars_of(logical_table);
    let k = chars_of(record_key);
    if contains_char(&t, '.') {
        match find_char(&k, ':') {
            Some(at) => {
                proof {
                    k@.index_of_first_ensures(':');
                }
                let parent = string_from_chars(vstd::slice::slice_subrange(k.as_slice(), 0, at));
                let sep = string_from_chars(&['/', 'p', 'a', 'r', 'e', 'n', 't', ':']);
                assert(sep@ =~= seq!['/', 'p', 'a', 'r', 'e', 'n', 't', ':']);
                proof {
                    k@.index_of_first_ensures(':');
                }
                assert(parent@ =~= before_first(record_key@, ':'));
                return cat3(table_key.as_str(), sep.as_str(), parent.as_str());
            },
            None => {},
        }
    }
    let bucket = shard_index(record_key, RECORD_ACTOR_BUCKETS);
    let hex = string_from_chars(hex2_chars(bucket).as_slice());
    let sep = string_from_chars(&['/', 'b', 'u', 'c', 'k', 'e', 't', ':']);
    assert(sep@ =~= seq!['/', 'b', 'u', 'c', 'k', 'e', 't', ':']);
    proof {
        k@.index_of_first_ensures(':');
    }
    cat3(table_key.as_str(), sep.as_str(), hex.as_str())
}

} // verus!

//! The chat log: the keys under which messages are stored, newest first within
//! a room, the order of messages, and the check that a bucket's index covers
//! its data file.
use vstd::prelude::*;
use std::cmp::Ordering;
use vstd::utf8::encode_utf8;
use crate::model::Message;
use crate::order::{chars_lt, lex_lt};
use crate::sorting::{insert_by_key, lemma_insert_by_key_at, sort_by_key};
use crate::text::chars_of;

verus! {

/// An entry of a bucket's index: where a message's line stands in the data
/// file.
pub struct ChatLogIndexEntry {
    pub lsn: u64,
    pub created_at_ms: u64,
    pub id: String,
    pub offset: u64,
    pub len: u64,
}

pub open spec fn order_of_u64(a: u64, b: u64) -> Ordering {
    if a < b {
        Ordering::Less
    } else if a > b {
        Ordering::Greater
    } else {
        Ordering::Equal
    }
}

pub open spec fn order_of_text(a: Seq<char>, b: Seq<char>) -> Ordering {
    if lex_lt(a, b) {
        Ordering::Less
    } else if a == b {
        Ordering::Equal
    } else {
        Ordering::Greater
    }
}

/// The order of two messages (or index entries): by LSN where both have one,
/// else by creation time and then by id.
pub open spec fn log_order(
    left_lsn: u64,
    right_lsn: u64,
    left_created: u64,
    right_created: u64,
    left_id: Seq<char>,
    right_id: Seq<char>,
) -> Ordering {
    if left_lsn > 0 && right_lsn > 0 {
        order_of_u64(left_lsn, right_lsn)
    } else {
        match order_of_u64(left_created, right_created) {
            Ordering::Equal => order_of_text(left_id, right_id),
            o => o,
        }
    }
}

fn compare_u64(a: u64, b: u64) -> (o: Ordering)
    ensures
        o == order_of_u64(a, b),
{
    if a < b {
        Ordering::Less
    } else if a > b {
        Ordering::Greater
    } else {
        Ordering::Equal
    }
}

fn compare_text(a: &String, b: &String) -> (o: Ordering)
    ensures
        o == order_of_text(a@, b@),
{
    let x = chars_of(a.as_str());
    let y = chars_of(b.as_str());
    if chars_lt(x.as_slice(), y.as_slice()) {
        Ordering::Less
    } else if crate::text::chars_eq(x.as_slice(), y.as_slice()) {
        Ordering::Equal
    } else {
        Ordering::Greater
    }
}

fn compare_log_order(
    left_lsn: u64,
    right_lsn: u64,
    left_created: u64,
    right_created: u64,
    left_id: &String,
    right_id: &String,
) -> (o: Ordering)
    ensures
        o == log_order(left_lsn, right_lsn, left_created, right_created, left_id@, right_id@),
{
    if left_lsn > 0 && right_lsn > 0 {
        return compare_u64(left_lsn, right_lsn);
    }
    match compare_u64(left_created, right_created) {
        Ordering::Equal => compare_text(left_id, right_id),
        o => o,
    }
}

/// The order of two messages.
pub fn compare_message_order(left: &Message, right: &Message) -> (o: Ordering)
    ensures
        o == log_order(left.lsn, right.lsn, left.created_at_ms, right.created_at_ms, left.id@, right.id@),
{
    compare_log_order(left.lsn, right.lsn, left.created_at_ms, right.created_at_ms, &left.id, &right.id)
}

/// The order of two index entries, the same as that of their messages.
pub fn compare_index_order(left: &ChatLogIndexEntry, right: &ChatLogIndexEntry) -> (o: Ordering)
    ensures
        o == log_order(left.lsn, right.lsn, left.created_at_ms, right.created_at_ms, left.id@, right.id@),
{
    compare_log_order(left.lsn, right.lsn, left.created_at_ms, right.created_at_ms, &left.id, &right.id)
}


/// The `width` low decimal digits of `n`, as ASCII bytes, zero-padded:
/// `format!("{n:0width$}")` where `n` has at most `width` digits.
pub open spec fn fixed_digits(n: nat, width: nat) -> Seq<u8>
    decreases width,
{
    if width == 0 {
        Seq::empty()
    } else {
        fixed_digits(n / 10, (width - 1) as nat).push((48 + n % 10) as u8)
    }
}

fn fixed_digits_exec(n: u64, width: usize) -> (v: Vec<u8>)
    ensures
        v@ == fixed_digits(n as nat, width as nat),
    decreases width,
{
    if width == 0 {
        Vec::new()
    } else {
        let mut v = fixed_digits_exec(n / 10, width - 1);
        v.push((48 + n % 10) as u8);
        v
    }
}

fn push_bytes(v: &mut Vec<u8>, s: &[u8])
    ensures
        final(v)@ == old(v)@ + s@,
{
    let mut i: usize = 0;
    let ghost start = v@;
    while i < s.len()
        invariant
            i <= s@.len(),
            v@ == start + s@.take(i as int),
        decreases s@.len() - i,
    {
        v.push(s[i]);
        i = i + 1;
        assert(v@ =~= start + s@.take(i as int));
    }
    assert(s@.take(i as int) =~= s@);
}

/// The storage key of a message: its room, then the complements of its LSN and
/// creation time as 20 decimal digits (so that later messages come first), then
/// its id, the parts joined by zero bytes.
pub open spec fn message_key(room_id: Seq<char>, lsn: u64, created_at_ms: u64, id: Seq<char>) -> Seq<u8> {
    encode_utf8(room_id) + seq![0u8] + fixed_digits((u64::MAX - lsn) as nat, 20) + seq![0u8]
        + fixed_digits((u64::MAX - created_at_ms) as nat, 20) + seq![0u8] + encode_utf8(id)
}

pub fn chat_log_message_key(message: &Message) -> (bytes: Vec<u8>)
    ensures
        bytes@ == message_key(message.room_id@, message.lsn, message.created_at_ms, message.id@),
{
    let mut bytes: Vec<u8> = Vec::new();
    push_bytes(&mut bytes, message.room_id.as_str().as_bytes());
    bytes.push(0);
    let l = fixed_digits_exec(u64::MAX - message.lsn, 20);
    push_bytes(&mut bytes, l.as_slice());
    bytes.push(0);
    let c = fixed_digits_exec(u64::MAX - message.created_at_ms, 20);
    push_bytes(&mut bytes, c.as_slice());
    bytes.push(0);
    push_bytes(&mut bytes, message.id.as_str().as_bytes());
    bytes
}

/// The prefix shared by the keys of a room's messages.
pub fn chat_log_room_prefix(room_id: &str) -> (bytes: Vec<u8>)
    ensures
        bytes@ == encode_utf8(room_id@) + seq![0u8],
{
    let mut bytes: Vec<u8> = Vec::new();
    push_bytes(&mut bytes, room_id.as_bytes());
    bytes.push(0);
    bytes
}

/// The key under which a message's storage key is found by room and id.
pub fn chat_log_ref_key(room_id: &str, message_id: &str) -> (bytes: Vec<u8>)
    ensures
        bytes@ == encode_utf8(room_id@) + seq![0u8] + encode_utf8(message_id@),
{
    let mut bytes: Vec<u8> = Vec::new();
    push_bytes(&mut bytes, room_id.as_bytes());
    bytes.push(0);
    push_bytes(&mut bytes, message_id.as_bytes());
    bytes
}

/// `a < b` in byte order, the order in which the store lists keys.
pub open spec fn bytes_lt(a: Seq<u8>, b: Seq<u8>) -> bool
    decreases a.len(),
{
    if a.len() == 0 {
        b.len() > 0
    } else if b.len() == 0 {
        false
    } else if a[0] != b[0] {
        a[0] < b[0]
    } else {
        bytes_lt(a.drop_first(), b.drop_first())
    }
}

proof fn lemma_bytes_lt_prefix(p: Seq<u8>, x: Seq<u8>, y: Seq<u8>)
    requires
        bytes_lt(x, y),
    ensures
        bytes_lt(p + x, p + y),
    decreases p.len(),
{
    if p.len() > 0 {
        assert((p + x).drop_first() =~= p.drop_first() + x);
        assert((p + y).drop_first() =~= p.drop_first() + y);
        lemma_bytes_lt_prefix(p.drop_first(), x, y);
    } else {
        assert(p + x =~= x);
        assert(p + y =~= y);
    }
}

proof fn lemma_bytes_lt_suffix(x: Seq<u8>, y: Seq<u8>, s: Seq<u8>, t: Seq<u8>)
    requires
        bytes_lt(x, y),
        x.len() == y.len(),
    ensures
        bytes_lt(x + s, y + t),
    decreases x.len(),
{
    assert(x.len() > 0);
    if x[0] == y[0] {
        assert((x + s).drop_first() =~= x.drop_first() + s);
        assert((y + t).drop_first() =~= y.drop_first() + t);
        lemma_bytes_lt_suffix(x.drop_first(), y.drop_first(), s, t);
    }
}

proof fn lemma_fixed_digits_len(n: nat, w: nat)
    ensures
        fixed_digits(n, w).len() == w,
    decreases w,
{
    if w > 0 {
        lemma_fixed_digits_len(n / 10, (w - 1) as nat);
    }
}

proof fn lemma_bytes_lt_push(x: Seq<u8>, y: Seq<u8>, c: u8, d: u8)
    requires
        x.len() == y.len(),
        bytes_lt(x, y) || (x == y && c < d),
    ensures
        bytes_lt(x.push(c), y.push(d)),
{
    if bytes_lt(x, y) {
        lemma_bytes_lt_suffix(x, y, seq![c], seq![d]);
        assert(x + seq![c] =~= x.push(c));
        assert(y + seq![d] =~= y.push(d));
    } else {
        assert(bytes_lt(seq![c], seq![d])) by {
            assert(seq![c][0] == c);
        }
        lemma_bytes_lt_prefix(x, seq![c], seq![d]);
        assert(x + seq![c] =~= x.push(c));
        assert(x + seq![d] =~= x.push(d));
    }
}

/// `10^w`.
pub open spec fn pow10(w: nat) -> nat
    decreases w,
{
    if w == 0 {
        1
    } else {
        10 * pow10((w - 1) as nat)
    }
}

proof fn lemma_fixed_digits_order(a: nat, b: nat, w: nat)
    requires
        a < b,
        b < pow10(w),
    ensures
        bytes_lt(fixed_digits(a, w), fixed_digits(b, w)),
    decreases w,
{
    if w > 0 {
        let w1 = (w - 1) as nat;
        assert(b / 10 < pow10(w1)) by (nonlinear_arith)
            requires
                b < 10 * pow10(w1),
        ;
        lemma_fixed_digits_len(a / 10, w1);
        lemma_fixed_digits_len(b / 10, w1);
        assert(a / 10 <= b / 10) by (nonlinear_arith)
            requires
                a < b,
        ;
        if a / 10 < b / 10 {
            lemma_fixed_digits_order(a / 10, b / 10, w1);
        } else {
            assert(a % 10 < b % 10) by (nonlinear_arith)
                requires
                    a < b,
                    a / 10 == b / 10,
            ;
        }
        lemma_bytes_lt_push(fixed_digits(a / 10, w1), fixed_digits(b / 10, w1), (48 + a % 10) as u8, (48 + b % 10) as u8);
    }
}

/// Within a room, a message of a later LSN has a smaller key, so that the
/// store lists a room's messages newest first.
pub proof fn chat_log_keys_list_latest_first(
    room_id: Seq<char>,
    newer_lsn: u64,
    newer_created: u64,
    newer_id: Seq<char>,
    older_lsn: u64,
    older_created: u64,
    older_id: Seq<char>,
)
    requires
        older_lsn < newer_lsn,
    ensures
        bytes_lt(
            message_key(room_id, newer_lsn, newer_created, newer_id),
            message_key(room_id, older_lsn, older_created, older_id),
        ),
{
    let a = (u64::MAX - newer_lsn) as nat;
    let b = (u64::MAX - older_lsn) as nat;
    assert(pow10(20) == 100000000000000000000) by {
        reveal_with_fuel(pow10, 21);
    }
    lemma_fixed_digits_order(a, b, 20);
    lemma_fixed_digits_len(a, 20);
    lemma_fixed_digits_len(b, 20);
    let p = encode_utf8(room_id) + seq![0u8];
    let s1 = seq![0u8] + fixed_digits((u64::MAX - newer_created) as nat, 20) + seq![0u8] + encode_utf8(newer_id);
    let s2 = seq![0u8] + fixed_digits((u64::MAX - older_created) as nat, 20) + seq![0u8] + encode_utf8(older_id);
    lemma_bytes_lt_suffix(fixed_digits(a, 20), fixed_digits(b, 20), s1, s2);
    lemma_bytes_lt_prefix(p, fixed_digits(a, 20) + s1, fixed_digits(b, 20) + s2);
    assert(message_key(room_id, newer_lsn, newer_created, newer_id) =~= p + (fixed_digits(a, 20) + s1));
    assert(message_key(room_id, older_lsn, older_created, older_id) =~= p + (fixed_digits(b, 20) + s2));
}


pub open spec fn entry_offset(e: ChatLogIndexEntry) -> u64 {
    e.offset
}

/// The entries, from `start`, lie end to end up to exactly `data_len`.
pub open spec fn tiles_from(s: Seq<ChatLogIndexEntry>, start: int, data_len: int) -> bool
    decreases s.len(),
{
    if s.len() == 0 {
        start == data_len
    } else {
        &&& s[0].offset == start
        &&& s[0].offset + s[0].len <= data_len
        &&& tiles_from(s.drop_first(), s[0].offset + s[0].len, data_len)
    }
}

/// The index covers its data file: its entries, taken in the order of their
/// offsets, lie end to end from the start of the file to its end.
pub open spec fn index_covers(entries: Seq<ChatLogIndexEntry>, data_len: u64) -> bool {
    tiles_from(sort_by_key(entries, |e: ChatLogIndexEntry| entry_offset(e)), 0, data_len as int)
}

pub open spec fn entries_at(entries: Seq<ChatLogIndexEntry>, order: Seq<usize>) -> Seq<ChatLogIndexEntry> {
    order.map_values(|i: usize| entries[i as int])
}

fn offset_order(entries: &Vec<ChatLogIndexEntry>) -> (order: Vec<usize>)
    ensures
        forall|i: int| 0 <= i < order@.len() ==> order@[i] < entries@.len(),
        entries_at(entries@, order@) == sort_by_key(entries@, |e: ChatLogIndexEntry| entry_offset(e)),
{
    let ghost key = |e: ChatLogIndexEntry| entry_offset(e);
    let mut order: Vec<usize> = Vec::new();
    let mut k: usize = 0;
    assert(entries@.take(0) =~= Seq::<ChatLogIndexEntry>::empty());
    assert(entries_at(entries@, order@) =~= Seq::<ChatLogIndexEntry>::empty());
    while k < entries.len()
        invariant
            k <= entries@.len(),
            key == (|e: ChatLogIndexEntry| entry_offset(e)),
            forall|i: int| 0 <= i < order@.len() ==> order@[i] < k,
            entries_at(entries@, order@) == sort_by_key(entries@.take(k as int), key),
        decreases entries@.len() - k,
    {
        let offset = entries[k].offset;
        let ghost s = entries_at(entries@, order@);
        let mut p: usize = order.len();
        while p > 0 && entries[order[p - 1]].offset > offset
            invariant
                p <= order@.len(),
                s == entries_at(entries@, order@),
                forall|i: int| 0 <= i < order@.len() ==> order@[i] < k,
                k < entries@.len(),
                key == (|e: ChatLogIndexEntry| entry_offset(e)),
                offset == entries@[k as int].offset,
                forall|j: int| p <= j < s.len() ==> key(#[trigger] s[j]) > offset,
            decreases p,
        {
            p = p - 1;
        }
        proof {
            lemma_insert_by_key_at(s, entries@[k as int], key, p as int);
            assert(entries@.take(k + 1).drop_last() =~= entries@.take(k as int));
            assert(entries@.take(k + 1).last() == entries@[k as int]);
        }
        order.insert(p, k);
        proof {
            assert(entries_at(entries@, order@) =~= s.take(p as int).push(entries@[k as int]) + s.skip(p as int));
        }
        k = k + 1;
    }
    assert(entries@.take(k as int) =~= entries@);
    order
}

/// Whether a bucket's index covers its data file of `data_len` bytes.
pub fn index_covers_data_file(entries: &Vec<ChatLogIndexEntry>, data_len: u64) -> (b: bool)
    ensures
        b == index_covers(entries@, data_len),
{
    let order = offset_order(entries);
    let ghost sorted = entries_at(entries@, order@);
    let mut expected: u64 = 0;
    let mut j: usize = 0;
    assert(sorted.skip(0) =~= sorted);
    while j < order.len()
        invariant
            j <= order@.len(),
            sorted == entries_at(entries@, order@),
            forall|i: int| 0 <= i < order@.len() ==> order@[i] < entries@.len(),
            index_covers(entries@, data_len) == tiles_from(sorted.skip(j as int), expected as int, data_len as int),
        decreases order@.len() - j,
    {
        let e = &entries[order[j]];
        proof {
            assert(sorted.skip(j as int)[0] == *e);
            assert(sorted.skip(j as int).drop_first() =~= sorted.skip(j + 1));
        }
        if e.offset != expected {
            return false;
        }
        let end = match e.offset.checked_add(e.len) {
            Some(end) => end,
            None => {
                return false;
            },
        };
        if end > data_len {
            return false;
        }
        expected = end;
        j = j + 1;
    }
    expected == data_len
}

/// The line without its final newline byte, where it has one.
pub fn trim_trailing_newline(line: &[u8]) -> (r: &[u8])
    ensures
        r@ == if line@.len() > 0 && line@.last() == 10u8 {
            line@.drop_last()
        } else {
            line@
        },
{
    if line.len() > 0 && line[line.len() - 1] == 10u8 {
        let r = vstd::slice::slice_subrange(line, 0, line.len() - 1);
        assert(r@ =~= line@.drop_last());
        r
    } else {
        line
    }
}

/// The path with its extension replaced, as `Path::with_extension` gives it.
pub uninterp spec fn path_with_extension(path: Seq<char>, extension: Seq<char>) -> Seq<char>;

/// `std::path::Path::with_extension`: the contract names its result as a
/// function of the path and the extension (it depends on nothing else). The
/// extension holds no path separator, on which std documents a panic.
#[verifier::external_body]
fn with_extension(path: &str, extension: &str) -> (r: String)
    requires
        !extension@.contains('/'),
        !extension@.contains('\\'),
    ensures
        r@ == path_with_extension(path@, extension@),
{
    std::path::Path::new(path).with_extension(extension).to_string_lossy().into_owned()
}

/// The path of a bucket's index file: the bucket's path with the extension
/// `idx`.
pub fn index_path_for_bucket(path: &str) -> (r: String)
    ensures
        r@ == path_with_extension(path@, "idx"@),
{
    proof {
        reveal_strlit("idx");
        assert(!"idx"@.contains('/'));
        assert(!"idx"@.contains('\\'));
    }
    with_extension(path, "idx")
}

} // verus!

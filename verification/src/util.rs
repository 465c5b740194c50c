//! Small numeric helpers and the hash that places keys on shards.
use vstd::prelude::*;
use vstd::utf8::encode_utf8;

verus! {

/// `n` saturated to the range of `usize`.
pub open spec fn sat_usize(n: int) -> usize {
    if n > usize::MAX {
        usize::MAX
    } else {
        n as usize
    }
}

/// `n` saturated to the range of `u64`.
pub open spec fn sat_u64(n: int) -> u64 {
    if n > u64::MAX {
        u64::MAX
    } else {
        n as u64
    }
}

pub const FNV_OFFSET_BASIS: u64 = 0xcbf2_9ce4_8422_2325u64;

pub const FNV_PRIME: u64 = 0x0000_0100_0000_01b3u64;

/// The 64-bit FNV-1a hash of a byte sequence.
pub open spec fn fnv1a(bytes: Seq<u8>) -> u64
    decreases bytes.len(),
{
    if bytes.len() == 0 {
        FNV_OFFSET_BASIS
    } else {
        (fnv1a(bytes.drop_last()) ^ (bytes.last() as u64)).wrapping_mul(FNV_PRIME)
    }
}

/// The shard that a key falls on among `count` shards: the FNV-1a hash of its
/// UTF-8 bytes modulo `count`, and shard 0 when there are none.
pub open spec fn shard_of(key: Seq<char>, count: nat) -> nat {
    if count == 0 {
        0
    } else {
        (fnv1a(encode_utf8(key)) as nat) % count
    }
}

/// The shard of `key` among `count` shards.
pub fn shard_index(key: &str, count: usize) -> (i: usize)
    ensures
        i == shard_of(key@, count as nat),
        count > 0 ==> i < count,
{
    let bytes = key.as_bytes();
    let mut h: u64 = FNV_OFFSET_BASIS;
    let mut i: usize = 0;
    while i < bytes.len()
        invariant
            i <= bytes@.len(),
            bytes@ == encode_utf8(key@),
            h == fnv1a(bytes@.subrange(0, i as int)),
        decreases bytes@.len() - i,
    {
        assert(bytes@.subrange(0, i + 1).drop_last() =~= bytes@.subrange(0, i as int));
        h = (h ^ (bytes[i] as u64)).wrapping_mul(FNV_PRIME);
        i = i + 1;
    }
    assert(bytes@.subrange(0, bytes@.len() as int) =~= bytes@);
    if count == 0 {
        0
    } else {
        (h % (count as u64)) as usize
    }
}


/// Lowercase hexadecimal of a byte string, two digits per byte.
pub open spec fn hex_of(bytes: Seq<u8>) -> Seq<char>
    decreases bytes.len(),
{
    if bytes.len() == 0 {
        Seq::empty()
    } else {
        hex_of(bytes.drop_last()) + crate::text::hex2(bytes.last() as nat)
    }
}

proof fn lemma_hex_len(bytes: Seq<u8>)
    ensures
        hex_of(bytes).len() == 2 * bytes.len(),
    decreases bytes.len(),
{
    if bytes.len() > 0 {
        lemma_hex_len(bytes.drop_last());
    }
}

/// The lowercase hexadecimal of `bytes`.
pub fn hex_lower(bytes: &[u8]) -> (s: String)
    ensures
        s@ == hex_of(bytes@),
        s@.len() == 2 * bytes@.len(),
{
    let mut v: Vec<char> = Vec::new();
    let mut i: usize = 0;
    assert(bytes@.take(0) =~= Seq::<u8>::empty());
    while i < bytes.len()
        invariant
            i <= bytes@.len(),
            v@ == hex_of(bytes@.take(i as int)),
        decreases bytes@.len() - i,
    {
        proof {
            assert(bytes@.take(i + 1).drop_last() =~= bytes@.take(i as int));
            assert(bytes@.take(i + 1).last() == bytes@[i as int]);
        }
        let h = crate::text::hex2_chars(bytes[i] as usize);
        crate::text::push_all(&mut v, h.as_slice());
        i = i + 1;
    }
    assert(bytes@.take(i as int) =~= bytes@);
    proof {
        lemma_hex_len(bytes@);
    }
    crate::text::string_from_chars(v.as_slice())
}

} // verus!

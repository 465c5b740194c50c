//! Client mutation ids of the chunks a record batch is split into.
use vstd::prelude::*;
use sha2::Digest;
use vstd::utf8::encode_utf8;
use crate::text::{chars_of, decimal, decimal_chars, push_all, push_str_chars, string_from_chars};
use crate::util::{hex_lower, hex_of};

verus! {

/// The SHA-256 digest of a byte string.
pub uninterp spec fn sha256(bytes: Seq<u8>) -> Seq<u8>;

/// `sha2::Sha256::digest`: the contract names the digest as a function of the
/// bytes; that it is 32 bytes long is the type of `Sha256`'s output
/// (`GenericArray<u8, U32>`). Nothing else of SHA-256 is stated.
#[verifier::external_body]
fn sha256_digest(bytes: &[u8]) -> (d: Vec<u8>)
    ensures
        d@ == sha256(bytes@),
        d@.len() == 32,
{
    sha2::Sha256::digest(bytes).to_vec()
}

/// `:s{shard}p{chunk}`: the suffix that names a chunk of a split batch.
pub open spec fn chunk_suffix(shard: usize, chunk_index: usize) -> Seq<char> {
    seq![':', 's'] + decimal(shard as nat) + seq!['p'] + decimal(chunk_index as nat)
}

/// The longest client mutation id.
pub const MAX_CLIENT_MUTATION_ID_LEN: usize = 160;

/// The id of a chunk of a batch with client mutation id `base`: `base` itself
/// where the batch is not split; else `base` and the chunk suffix, where that
/// fits in 160 bytes; else as much of `base` as fits (counted in characters)
/// before `:h` and the first 16 hex digits of `digest`, then the suffix.
pub open spec fn child_id(base: Seq<char>, shard: usize, chunk_index: usize, split: bool, digest: Seq<u8>) -> Seq<char> {
    if !split {
        base
    } else {
        let sfx = chunk_suffix(shard, chunk_index);
        if encode_utf8(base).len() + sfx.len() <= 160 {
            base + sfx
        } else {
            let marker = seq![':', 'h'] + hex_of(digest).take(16);
            let keep = if marker.len() + sfx.len() >= 160 {
                0
            } else {
                160 - (marker.len() + sfx.len())
            };
            let prefix = if keep < base.len() {
                base.take(keep)
            } else {
                base
            };
            prefix + marker + sfx
        }
    }
}

fn chunk_suffix_exec(shard: usize, chunk_index: usize) -> (v: Vec<char>)
    ensures
        v@ == chunk_suffix(shard, chunk_index),
{
    let mut v: Vec<char> = Vec::new();
    v.push(':');
    v.push('s');
    let a = decimal_chars(shard as u64);
    push_all(&mut v, a.as_slice());
    v.push('p');
    let b = decimal_chars(chunk_index as u64);
    push_all(&mut v, b.as_slice());
    assert(v@ =~= chunk_suffix(shard, chunk_index));
    v
}

/// The id of a chunk, given the SHA-256 digest of `base`'s UTF-8 bytes.
pub fn child_client_mutation_id_with_digest(
    base: &str,
    shard: usize,
    chunk_index: usize,
    split_transaction: bool,
    digest: &[u8],
) -> (r: String)
    requires
        digest@.len() >= 8,
    ensures
        r@ == child_id(base@, shard, chunk_index, split_transaction, digest@),
{
    if !split_transaction {
        return crate::text::owned(base);
    }
    let sfx = chunk_suffix_exec(shard, chunk_index);
    let base_bytes = base.as_bytes();
    let blen = base_bytes.len();
    if blen <= 160 && sfx.len() <= 160 - blen {
        let mut v = chars_of(base);
        push_all(&mut v, sfx.as_slice());
        return string_from_chars(v.as_slice());
    }
    let hex = hex_lower(digest);
    let hx = chars_of(hex.as_str());
    let mut marker: Vec<char> = Vec::new();
    marker.push(':');
    marker.push('h');
    push_all(&mut marker, vstd::slice::slice_subrange(hx.as_slice(), 0, 16));
    assert(marker@ =~= seq![':', 'h'] + hex_of(digest@).take(16));
    assert(marker@.len() == 18);
    let keep: usize = if sfx.len() >= 160 - marker.len() {
        0
    } else {
        160 - marker.len() - sfx.len()
    };
    let b = chars_of(base);
    let n = if keep < b.len() {
        keep
    } else {
        b.len()
    };
    let mut out: Vec<char> = Vec::new();
    push_all(&mut out, vstd::slice::slice_subrange(b.as_slice(), 0, n));
    push_all(&mut out, marker.as_slice());
    push_all(&mut out, sfx.as_slice());
    proof {
        if keep >= b@.len() {
            assert(b@.take(n as int) =~= b@);
        }
    }
    string_from_chars(out.as_slice())
}

/// The client mutation id of chunk `chunk_index` on `shard` of a batch whose
/// id is `base`.
pub fn record_batch_child_client_mutation_id(
    base: &str,
    shard: usize,
    chunk_index: usize,
    split_transaction: bool,
) -> (r: String)
    ensures
        r@ == child_id(base@, shard, chunk_index, split_transaction, sha256(encode_utf8(base@))),
{
    let digest = sha256_digest(base.as_bytes());
    child_client_mutation_id_with_digest(base, shard, chunk_index, split_transaction, digest.as_slice())
}

} // verus!

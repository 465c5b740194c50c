use nextdb_server::batch_ids::{
    child_client_mutation_id_with_digest, record_batch_child_client_mutation_id,
};
use nextdb_server::util::hex_lower;
use sha2::{Digest, Sha256};

#[test]
fn unsplit_batches_keep_their_id() {
    assert_eq!(record_batch_child_client_mutation_id("batch-1", 3, 2, false), "batch-1");
}

#[test]
fn split_batches_append_shard_and_chunk() {
    assert_eq!(record_batch_child_client_mutation_id("batch-1", 3, 2, true), "batch-1:s3p2");
}

#[test]
fn long_ids_are_shortened_with_a_digest() {
    let base = "x".repeat(200);
    let digest = hex_lower(&Sha256::digest(base.as_bytes()));
    let expected = format!("{}:h{}:s0p1", "x".repeat(160 - 18 - 5), &digest[..16]);
    let id = record_batch_child_client_mutation_id(&base, 0, 1, true);
    assert_eq!(id, expected);
    assert_eq!(id.len(), 160);
    assert_eq!(child_client_mutation_id_with_digest(&base, 0, 1, true, &[0xab; 32]), format!("{}:habababababababab:s0p1", "x".repeat(137)));
}

#[test]
fn hex_is_lowercase_two_digits_per_byte() {
    assert_eq!(hex_lower(&[0x00, 0x0f, 0xa0, 0xff]), "000fa0ff");
}

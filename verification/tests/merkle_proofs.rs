//! Inclusion proofs: construction, verification, and the real double-hash.

use btc_relay::BtcHash;
use btc_relay::RelayError;
use btc_relay::build_inclusion_proof;
use btc_relay::merkle_root;
use btc_relay::parse_header;
use btc_relay::verify_inclusion_proof;

use sha2::Digest;

fn hash(tag: u8) -> BtcHash {
    BtcHash::new(vec![tag; 32])
}

fn reference_combine(l: &[u8], r: &[u8]) -> Vec<u8> {
    let mut first = sha2::Sha256::new();
    first.update(l);
    first.update(r);
    let once = first.finalize();
    sha2::Sha256::digest(once.as_slice()).to_vec()
}

#[test]
fn root_of_two_leaves_is_the_double_hash() {
    let a = hash(1);
    let b = hash(2);
    let root = merkle_root(&vec![a, b]);
    assert_eq!(root.bytes, reference_combine(&[1u8; 32], &[2u8; 32]));
}

#[test]
fn root_of_single_leaf_is_the_leaf() {
    let root = merkle_root(&vec![hash(7)]);
    assert_eq!(root.bytes, vec![7u8; 32]);
}

#[test]
fn odd_level_pairs_tail_with_itself() {
    // Three leaves: the tail is combined with itself one level up.
    let ab = reference_combine(&[1u8; 32], &[2u8; 32]);
    let cc = reference_combine(&[3u8; 32], &[3u8; 32]);
    let expected = reference_combine(&ab, &cc);
    let root = merkle_root(&vec![hash(1), hash(2), hash(3)]);
    assert_eq!(root.bytes, expected);
}

#[test]
fn constructed_proof_verifies_flagged_subset() {
    let hashes = vec![hash(1), hash(2), hash(3), hash(4), hash(5)];
    let mask = vec![false, true, false, true, false];
    let proof = build_inclusion_proof(&hashes, &mask);
    let root = merkle_root(&hashes);

    // Exactly the flagged positions are proven, in block order.
    let indices: Vec<usize> = proof.entries.iter().map(|e| e.index).collect();
    assert_eq!(indices, vec![1, 3]);
    assert_eq!(proof.leaf_count, 5);
    assert!(verify_inclusion_proof(&proof, &root));
}

#[test]
fn empty_mask_builds_empty_proof() {
    let hashes = vec![hash(1), hash(2)];
    let mask = vec![false, false];
    let proof = build_inclusion_proof(&hashes, &mask);
    assert!(proof.entries.is_empty());
    let root = merkle_root(&hashes);
    assert!(verify_inclusion_proof(&proof, &root));
}

#[test]
fn tampered_proof_is_refused() {
    let hashes = vec![hash(1), hash(2), hash(3)];
    let mask = vec![false, true, false];
    let mut proof = build_inclusion_proof(&hashes, &mask);
    let root = merkle_root(&hashes);
    assert!(verify_inclusion_proof(&proof, &root));

    // A different transaction under the same path must not verify.
    proof.entries[0].hash = hash(9);
    assert!(!verify_inclusion_proof(&proof, &root));
}

#[test]
fn proof_against_wrong_root_is_refused() {
    let hashes = vec![hash(1), hash(2), hash(3), hash(4)];
    let mask = vec![true, false, false, false];
    let proof = build_inclusion_proof(&hashes, &mask);
    let other_root = merkle_root(&vec![hash(1), hash(2), hash(3), hash(5)]);
    assert!(!verify_inclusion_proof(&proof, &other_root));
}

#[test]
fn raw_header_is_read_by_identity_and_parent() {
    let mut raw: Vec<u8> = (0..80u8).collect();
    // Bytes beyond the 80-byte header (a block's transactions) are ignored.
    raw.extend_from_slice(&[0xAA; 7]);
    let h = parse_header(&raw).unwrap();
    let parent: Vec<u8> = (4..36u8).collect();
    assert_eq!(h.previous_header_hash.bytes, parent);
    let mut once = sha2::Sha256::new();
    once.update(&raw[..80]);
    let digest = sha2::Sha256::digest(once.finalize().as_slice());
    assert_eq!(h.hash.bytes, digest.to_vec());
    assert!(matches!(parse_header(&vec![0u8; 79]), Err(RelayError::BtcSerializationError)));
}

#[test]
fn path_of_wrong_span_is_refused() {
    let hashes = vec![hash(1), hash(2), hash(3), hash(4)];
    let mask = vec![true, false, false, false];
    let mut proof = build_inclusion_proof(&hashes, &mask);
    let root = merkle_root(&hashes);
    proof.entries[0].path.pop();
    assert!(!verify_inclusion_proof(&proof, &root));
}

use aligned_batcher::commitment::{commit_request, get_vk_commitment, leaf_hash, verify_proof_inclusion};
use aligned_batcher::hashing::{keccak256, to_hex};
use aligned_batcher::merkle::{pad_leaves, MerkleTree};
use aligned_batcher::types::{Address, BatchInclusionData, ProvingSystemId, VerificationData};
use sha3::{Digest, Keccak256};

fn data(proof: Vec<u8>) -> VerificationData {
    VerificationData {
        proving_system: ProvingSystemId::Risc0,
        proof,
        pub_input: vec![1, 2, 3],
        verification_key: vec![9, 9],
        proof_generator_addr: Address { bytes: [0x11; 20] },
    }
}

fn keccak(parts: &[&[u8]]) -> [u8; 32] {
    let mut h = Keccak256::new();
    for p in parts {
        h.update(p);
    }
    h.finalize().into()
}

#[test]
fn keccak_of_empty_input() {
    assert_eq!(
        to_hex(&keccak256(&[])),
        "c5d2460186f7233c927e7db2dcc703c0e500b653ca82273b7bfad8045d85a470"
    );
}

#[test]
fn hex_is_lowercase_two_digits_per_byte() {
    assert_eq!(to_hex(&[0xde, 0xad, 0x01]), "dead01");
    assert_eq!(to_hex(&[]), "");
}

#[test]
fn vk_commitment_hashes_key_then_system_tag() {
    assert_eq!(get_vk_commitment(&[9, 9], ProvingSystemId::Risc0), keccak(&[&[9, 9], &[6]]));
    assert_ne!(
        get_vk_commitment(&[9, 9], ProvingSystemId::Risc0),
        get_vk_commitment(&[9, 9], ProvingSystemId::SP1)
    );
}

#[test]
fn commitment_is_deterministic_and_hashes_each_part() {
    let a = commit_request(&data(vec![5, 6]));
    let b = commit_request(&data(vec![5, 6]).clone());
    assert_eq!(a.proof_commitment, b.proof_commitment);
    assert_eq!(leaf_hash(&a), leaf_hash(&b));
    assert_eq!(a.proof_commitment, keccak(&[&[5, 6]]));
    assert_eq!(a.pub_input_commitment, keccak(&[&[1, 2, 3]]));
    assert_eq!(a.proof_generator_addr, [0x11; 20]);
    let leaf = keccak(&[
        &a.proof_commitment,
        &a.pub_input_commitment,
        &a.proving_system_aux_data_commitment,
        &a.proof_generator_addr,
    ]);
    assert_eq!(leaf_hash(&a), leaf);
    let c = commit_request(&data(vec![5, 7]));
    assert_ne!(leaf_hash(&a), leaf_hash(&c));
}

#[test]
fn padding_repeats_last_leaf_to_power_of_two() {
    let l = |n: u8| [n; 32];
    assert_eq!(pad_leaves(&vec![l(1)]), vec![l(1)]);
    assert_eq!(pad_leaves(&vec![l(1), l(2)]), vec![l(1), l(2)]);
    assert_eq!(pad_leaves(&vec![l(1), l(2), l(3)]), vec![l(1), l(2), l(3), l(3)]);
    let five = pad_leaves(&vec![l(1), l(2), l(3), l(4), l(5)]);
    assert_eq!(five.len(), 8);
    assert_eq!(&five[5..], &[l(5), l(5), l(5)]);
}

#[test]
fn merkle_root_of_two_and_four_leaves() {
    let a = [1u8; 32];
    let b = [2u8; 32];
    let c = [3u8; 32];
    let t = MerkleTree::build(&vec![a, b]);
    assert_eq!(t.root(), keccak(&[&a, &b]));
    assert_eq!(t.path(0), vec![b]);
    let t4 = MerkleTree::build(&vec![a, b, c, c]);
    let ab = keccak(&[&a, &b]);
    let cc = keccak(&[&c, &c]);
    assert_eq!(t4.root(), keccak(&[&ab, &cc]));
    assert_eq!(t4.path(2), vec![c, ab]);
    assert_eq!(t4.path(1), vec![a, cc]);
}

#[test]
fn inclusion_check_accepts_true_path_and_rejects_tampered() {
    let comms: Vec<_> = (0..3u8).map(|i| commit_request(&data(vec![i]))).collect();
    let leaves: Vec<[u8; 32]> = comms.iter().map(leaf_hash).collect();
    let padded = pad_leaves(&leaves);
    let tree = MerkleTree::build(&padded);
    for i in 0..3 {
        let d = BatchInclusionData {
            batch_merkle_root: tree.root(),
            index_in_batch: i,
            merkle_path: tree.path(i),
            user_nonce: 0,
        };
        assert!(verify_proof_inclusion(&comms[i], &d));
        let wrong_index = BatchInclusionData { index_in_batch: (i + 1) % 3, ..d.clone() };
        assert!(!verify_proof_inclusion(&comms[i], &wrong_index));
        let mut tampered = d.clone();
        tampered.merkle_path[0][0] ^= 1;
        assert!(!verify_proof_inclusion(&comms[i], &tampered));
    }
}

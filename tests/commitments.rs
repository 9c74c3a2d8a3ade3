use sha2::{Digest, Sha256};
use sha3::Keccak256;
use zerotrace::commitments::{
    compute_cstate_root, compute_message_commitment, hash_plaintext, StateCommitment, ZERO_ROOT,
};

fn sha_hex(bytes: &[u8]) -> String {
    hex::encode(Sha256::digest(bytes))
}

#[test]
fn hash_plaintext_is_sha256_hex() {
    assert_eq!(
        hash_plaintext("abc"),
        "ba7816bf8f01cfea414140de5dae2223b00361a396177a9cb410ff61f20015ad"
    );
    assert_eq!(
        hash_plaintext(""),
        "e3b0c44298fc1c149afbf4c8996fb92427ae41e4649b934ca495991b7852b855"
    );
}

#[test]
fn commitment_matches_two_round_chain() {
    let first = Sha256::digest(b"zerotrace_commitment_v1sendertid\x01\x02ph");
    let mut second = first.to_vec();
    second.extend_from_slice(b"poseidon2_simulation");
    let expected = hex::encode(Keccak256::digest(&second));
    let got = compute_message_commitment("sender", "tid", &[1, 2], "ph");
    assert_eq!(got, expected);
    assert_eq!(got.len(), 64);
}

#[test]
fn commitment_is_deterministic() {
    let a = compute_message_commitment("s", "t", &[9, 9, 9], "p");
    let b = compute_message_commitment("s", "t", &[9, 9, 9], "p");
    assert_eq!(a, b);
}

#[test]
fn commitment_changes_with_each_input() {
    let base = compute_message_commitment("s", "t", &[1], "p");
    assert_ne!(base, compute_message_commitment("s2", "t", &[1], "p"));
    assert_ne!(base, compute_message_commitment("s", "t2", &[1], "p"));
    assert_ne!(base, compute_message_commitment("s", "t", &[2], "p"));
    assert_ne!(base, compute_message_commitment("s", "t", &[1], "p2"));
}

#[test]
fn cstate_root_of_nothing_is_zero_root() {
    let root = compute_cstate_root(&[]);
    assert_eq!(root, "0".repeat(64));
    assert_eq!(root, ZERO_ROOT);
}

#[test]
fn cstate_root_of_one_leaf_is_the_leaf() {
    assert_eq!(compute_cstate_root(&["abc".to_string()]), "abc");
}

#[test]
fn cstate_root_of_two_leaves_is_their_pair_hash() {
    let a = "aa".to_string();
    let b = "bb".to_string();
    assert_eq!(compute_cstate_root(&[a, b]), sha_hex(b"aabb"));
}

#[test]
fn cstate_root_carries_odd_leaf_unchanged() {
    let leaves = vec!["a".to_string(), "b".to_string(), "c".to_string()];
    let ab = sha_hex(b"ab");
    let expected = sha_hex(format!("{}c", ab).as_bytes());
    assert_eq!(compute_cstate_root(&leaves), expected);
    // Duplicating the odd leaf would give another root.
    let duplicated = sha_hex(format!("{}{}", ab, sha_hex(b"cc")).as_bytes());
    assert_ne!(compute_cstate_root(&leaves), duplicated);
}

#[test]
fn cstate_root_of_five_leaves() {
    let leaves: Vec<String> = ["1", "2", "3", "4", "5"].iter().map(|s| s.to_string()).collect();
    let h12 = sha_hex(b"12");
    let h34 = sha_hex(b"34");
    let h1234 = sha_hex(format!("{}{}", h12, h34).as_bytes());
    let expected = sha_hex(format!("{}5", h1234).as_bytes());
    assert_eq!(compute_cstate_root(&leaves), expected);
}

#[test]
fn state_commitment_appends_the_new_commitment() {
    let existing = vec!["x".to_string()];
    let sc = StateCommitment::new("t".to_string(), "y".to_string(), &existing);
    assert_eq!(sc.cstate_root, sha_hex(b"xy"));
    assert_eq!(sc.thread_id, "t");
    assert_eq!(sc.message_commitment, "y");
    let first = StateCommitment::new("t".to_string(), "y".to_string(), &[]);
    assert_eq!(first.cstate_root, "y");
}

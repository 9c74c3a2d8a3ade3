use sha2::{Digest, Sha256};
use zerotrace::identity::IdentityManager;

#[test]
fn seed_identity_is_deterministic() {
    let a = IdentityManager::from_seed(b"alice").unwrap();
    let b = IdentityManager::from_seed(b"alice").unwrap();
    assert_eq!(a.get_identity_hash(), b.get_identity_hash());
    assert_eq!(a.get_public_key(), b.get_public_key());
    let sig_a = a.sign(b"message");
    let sig_b = b.sign(b"message");
    assert_eq!(sig_a, sig_b);
    let pk: [u8; 32] = b.get_public_key().try_into().unwrap();
    assert!(a.verify(b"message", &sig_b, &pk));
    assert!(b.verify(b"message", &sig_a, &pk));
}

#[test]
fn identity_hash_is_tagged_sha256_of_public_key() {
    let id = IdentityManager::from_seed(b"bob").unwrap();
    let mut data = b"zerotrace_identity".to_vec();
    data.extend_from_slice(&id.get_public_key());
    assert_eq!(id.get_identity_hash(), hex::encode(Sha256::digest(&data)));
    assert_eq!(id.get_identity_hash().len(), 64);
    assert_eq!(id.get_public_key().len(), 32);
}

#[test]
fn seed_secret_is_sha256_of_seed() {
    let id = IdentityManager::from_seed(b"carol").unwrap();
    let secret: [u8; 32] = Sha256::digest(b"carol").into();
    let key = ed25519_dalek::SigningKey::from_bytes(&secret);
    assert_eq!(id.get_public_key(), key.verifying_key().to_bytes().to_vec());
}

#[test]
fn different_seeds_give_different_identities() {
    let a = IdentityManager::from_seed(b"alice").unwrap();
    let b = IdentityManager::from_seed(b"bob").unwrap();
    assert_ne!(a.get_identity_hash(), b.get_identity_hash());
}

#[test]
fn signature_fails_for_other_message_or_key() {
    let a = IdentityManager::from_seed(b"alice").unwrap();
    let b = IdentityManager::from_seed(b"bob").unwrap();
    let sig = a.sign(b"m");
    let pk_a: [u8; 32] = a.get_public_key().try_into().unwrap();
    let pk_b: [u8; 32] = b.get_public_key().try_into().unwrap();
    assert!(a.verify(b"m", &sig, &pk_a));
    assert!(!a.verify(b"n", &sig, &pk_a));
    assert!(!a.verify(b"m", &sig, &pk_b));
}

#[test]
fn random_identities_differ() {
    let a = IdentityManager::new();
    let b = IdentityManager::new();
    assert_ne!(a.get_identity_hash(), b.get_identity_hash());
    let sig = a.sign(b"x");
    let pk: [u8; 32] = a.get_public_key().try_into().unwrap();
    assert!(b.verify(b"x", &sig, &pk));
}

#[test]
fn attestation_is_signed_by_issuer() {
    let id = IdentityManager::from_seed(b"dave").unwrap();
    let att = id.create_attestation("email", "d@example.org");
    assert_eq!(att.issuer, id.get_identity_hash());
    assert_eq!(att.claim, "email");
    assert_eq!(att.value_hash, hex::encode(Sha256::digest(b"d@example.org")));
    let msg = format!("email:{}:{}", att.value_hash, id.get_identity_hash());
    let sig = hex::encode(id.sign(msg.as_bytes()));
    assert_eq!(att.signature, sig);
}

#[test]
fn contacts_are_recorded() {
    let mut id = IdentityManager::from_seed(b"erin").unwrap();
    assert!(id.get_contact("frank").is_none());
    id.add_contact("frank".to_string(), [9u8; 32]);
    assert_eq!(id.get_contact("frank"), Some(&[9u8; 32]));
}

#[test]
fn export_has_public_parts() {
    let id = IdentityManager::from_seed(b"gina").unwrap();
    let e = id.export();
    assert_eq!(e.public_key, id.get_public_key());
    assert_eq!(e.identity_hash, id.get_identity_hash());
    assert!(e.attestations.is_empty());
}

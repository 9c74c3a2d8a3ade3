use base64::Engine;
use zerotrace::identity::IdentityManager;
use zerotrace::pipeline::{open_message, read_decrypted, send_message};
use zerotrace::proofs::{
    generate_cfc_proof, verify_cfc_proof, CFCProof, DigestProofSystem, ProofSystem,
    SEND_MESSAGE_CFC,
};
use zerotrace::strmap::StrMap;
use zerotrace::{encrypt_message, Message, MessageStore, SendRequest, ZeroTraceError};

/// A backend that breaks the trait's promise that generated proofs are
/// accepted, to exercise the send's verification gate.
struct RejectingProofs;

impl ProofSystem for RejectingProofs {
    fn accepts(&self, _proof: CFCProof) -> bool {
        true
    }

    fn generate(&self, fp: &str, start: &str, end: &str, inputs: &[String]) -> CFCProof {
        generate_cfc_proof(fp, start, end, inputs)
    }

    fn verify(&self, _proof: &CFCProof) -> bool {
        false
    }
}

fn thread_of(a: &str, b: &str) -> String {
    if a <= b {
        format!("{}:{}", a, b)
    } else {
        format!("{}:{}", b, a)
    }
}

fn request(thread: &str, sender: &str, recipient: &str, text: &str) -> SendRequest {
    SendRequest {
        thread_id: thread.to_string(),
        recipient_id: recipient.to_string(),
        plaintext: text.to_string(),
        sender_identity_hash: sender.to_string(),
        sender_signature: String::new(),
    }
}

fn b64(bytes: &[u8]) -> String {
    base64::engine::general_purpose::STANDARD.encode(bytes)
}

#[test]
fn end_to_end_alice_sends_hi_to_bob() {
    let a = IdentityManager::from_seed(b"alice").unwrap();
    let b = IdentityManager::from_seed(b"bob").unwrap();
    let ha = a.get_identity_hash().to_string();
    let hb = b.get_identity_hash().to_string();
    let thread = thread_of(&ha, &hb);
    let mut store = MessageStore::new();
    let mut ids: StrMap<IdentityManager> = StrMap::new();
    assert_eq!(store.get_cstate_root(&ha), "0".repeat(64));

    let receipt =
        send_message(&mut store, &mut ids, &request(&thread, &ha, &hb, "hi"), &DigestProofSystem)
            .unwrap();
    let root = store.get_cstate_root(&ha);
    assert_ne!(root, "0".repeat(64));
    assert_eq!(root.len(), 64);
    assert!(root.chars().all(|c| c.is_ascii_hexdigit() && !c.is_ascii_uppercase()));
    assert_eq!(receipt.cstate_root, root);
    assert_eq!(receipt.thread_id, thread);
    assert!(receipt.proof_verified);

    let messages = store.get_messages(&thread).unwrap();
    assert_eq!(messages.len(), 1);
    let m = &messages[0];
    assert_eq!(m.sender_id, ha);
    assert_eq!(receipt.message_timestamp, m.timestamp);
    // One leaf: the root is the message commitment itself.
    assert_eq!(root, m.message_commitment);
    assert_eq!(store.get_thread_roots(&ha), vec![m.message_commitment.clone()]);

    let endcap = m.endcap.as_ref().unwrap();
    assert_eq!(endcap.vaa_nonce, 1);
    assert!(endcap.encrypted_blob_address.starts_with("da://encrypted/"));
    assert_eq!(endcap.proof.cfc_fingerprint, SEND_MESSAGE_CFC);
    assert_eq!(endcap.proof.start_cstate_root, "0".repeat(64));
    assert_eq!(endcap.proof.end_cstate_root, root);
    assert!(verify_cfc_proof(&endcap.proof));
    let commitment = m.message_commitment.clone();
    // The sender's hash seeds the identity that signs `commitment:nonce`.
    let signer = IdentityManager::from_seed(ha.as_bytes()).unwrap();
    let signed = format!("{}:1", commitment);
    assert_eq!(endcap.signature, hex::encode(signer.sign(signed.as_bytes())));

    let read = read_decrypted(&mut store, &thread);
    assert_eq!(read.len(), 1);
    assert_eq!(read[0].text, "hi");
    assert_eq!(read[0].sender, ha);
    assert!(read[0].proof_present);
    assert_eq!(read[0].commitment, commitment);
}

#[test]
fn second_send_extends_the_chain() {
    let mut store = MessageStore::new();
    let mut ids: StrMap<IdentityManager> = StrMap::new();
    let r1 = send_message(&mut store, &mut ids, &request("t", "s", "r", "one"), &DigestProofSystem)
        .unwrap();
    let r2 = send_message(&mut store, &mut ids, &request("t", "s", "r", "two"), &DigestProofSystem)
        .unwrap();
    let roots = store.get_thread_roots("s");
    assert_eq!(roots.len(), 2);
    assert_eq!(r1.cstate_root, roots[0]);
    assert_eq!(r2.cstate_root, zerotrace::commitments::compute_cstate_root(&roots));
    let messages = store.get_messages("t").unwrap();
    assert_eq!(messages[1].endcap.as_ref().unwrap().vaa_nonce, 2);
    assert_eq!(messages[1].endcap.as_ref().unwrap().proof.start_cstate_root, r1.cstate_root);
    let texts: Vec<String> = read_decrypted(&mut store, "t").into_iter().map(|d| d.text).collect();
    assert_eq!(texts, vec!["one".to_string(), "two".to_string()]);
}

#[test]
fn failed_proof_leaves_store_unchanged() {
    let mut store = MessageStore::new();
    let mut ids: StrMap<IdentityManager> = StrMap::new();
    send_message(&mut store, &mut ids, &request("t", "s", "r", "first"), &DigestProofSystem)
        .unwrap();
    let root_before = store.get_cstate_root("s");
    let roots_before = store.get_thread_roots("s");
    let count_before = store.get_messages("t").unwrap().len();
    let nonce_before = store.last_vaa_nonce("s");

    let r = send_message(&mut store, &mut ids, &request("t", "s", "r", "second"), &RejectingProofs);
    assert_eq!(r.err(), Some(ZeroTraceError::ProofVerificationError));
    assert_eq!(store.get_cstate_root("s"), root_before);
    assert_eq!(store.get_thread_roots("s"), roots_before);
    assert_eq!(store.get_messages("t").unwrap().len(), count_before);
    assert_eq!(store.last_vaa_nonce("s"), nonce_before);

    // A rejected first send on a new thread stores no key and no identity.
    let r = send_message(&mut store, &mut ids, &request("new", "z", "r", "x"), &RejectingProofs);
    assert_eq!(r.err(), Some(ZeroTraceError::ProofVerificationError));
    assert_eq!(store.get_key("new"), None);
    assert!(store.get_messages("new").is_none());
    assert!(ids.get("z").is_none());
    assert_eq!(store.get_cstate_root("z"), "0".repeat(64));
}

#[test]
fn registered_identity_signs_its_sends() {
    let mut store = MessageStore::new();
    let mut ids: StrMap<IdentityManager> = StrMap::new();
    let me = IdentityManager::new();
    let hash = me.get_identity_hash().to_string();
    let pk: [u8; 32] = me.get_public_key().try_into().unwrap();
    ids.insert(&hash, me);
    send_message(&mut store, &mut ids, &request("t", &hash, "r", "hello"), &DigestProofSystem)
        .unwrap();
    let m = &store.get_messages("t").unwrap()[0];
    let endcap = m.endcap.as_ref().unwrap();
    let sig: [u8; 64] = hex::decode(&endcap.signature).unwrap().try_into().unwrap();
    let checker = IdentityManager::from_seed(b"any").unwrap();
    let signed = format!("{}:1", m.message_commitment);
    assert!(checker.verify(signed.as_bytes(), &sig, &pk));
}

#[test]
fn read_skips_messages_that_do_not_open() {
    let mut store = MessageStore::new();
    let mut ids: StrMap<IdentityManager> = StrMap::new();
    send_message(&mut store, &mut ids, &request("t", "s", "r", "good"), &DigestProofSystem)
        .unwrap();
    let bad = |ciphertext: String, iv: String| Message {
        thread_id: "t".to_string(),
        sender_id: "s".to_string(),
        ciphertext,
        iv,
        timestamp: 0,
        message_commitment: "c".to_string(),
        endcap: None,
    };
    store.add_message(bad("not base64!".to_string(), b64(&[0u8; 24])));
    store.add_message(bad(b64(b"0123456789abcdef0123"), b64(&[0u8; 24])));
    store.add_message(bad(b64(b"0123456789abcdef0123"), b64(&[0u8; 5])));
    send_message(&mut store, &mut ids, &request("t", "s", "r", "also good"), &DigestProofSystem)
        .unwrap();
    let read = read_decrypted(&mut store, "t");
    let texts: Vec<&str> = read.iter().map(|d| d.text.as_str()).collect();
    assert_eq!(texts, vec!["good", "also good"]);
    assert!(read.iter().all(|d| d.proof_present));
}

#[test]
fn open_message_reports_each_error() {
    let key = [4u8; 32];
    let (c, n) = encrypt_message(&key, "text").unwrap();
    let make = |ciphertext: String, iv: String| Message {
        thread_id: "t".to_string(),
        sender_id: "s".to_string(),
        ciphertext,
        iv,
        timestamp: 0,
        message_commitment: "c".to_string(),
        endcap: None,
    };
    assert_eq!(open_message(&key, &make(b64(&c), b64(&n))), Ok("text".to_string()));
    assert_eq!(
        open_message(&[5u8; 32], &make(b64(&c), b64(&n))),
        Err(ZeroTraceError::CryptoError)
    );
    assert_eq!(
        open_message(&key, &make("%%%".to_string(), b64(&n))),
        Err(ZeroTraceError::EncodingError)
    );
    assert_eq!(
        open_message(&key, &make(b64(&c), b64(&n[..23]))),
        Err(ZeroTraceError::EncodingError)
    );
    // Unpadded base64 is not the canonical form.
    let unpadded = b64(&n).trim_end_matches('=').to_string();
    if unpadded != b64(&n) {
        assert_eq!(open_message(&key, &make(b64(&c), unpadded)), Err(ZeroTraceError::EncodingError));
    }
}

#[test]
fn read_of_unknown_thread_is_empty() {
    let mut store = MessageStore::new();
    assert!(read_decrypted(&mut store, "nothing").is_empty());
    assert!(store.get_key("nothing").is_some());
}

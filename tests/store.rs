use zerotrace::{decrypt_message, encrypt_message, Message, MessageStore, ZeroTraceError};

fn message(thread: &str, text: &str) -> Message {
    Message {
        thread_id: thread.to_string(),
        sender_id: "s".to_string(),
        ciphertext: text.to_string(),
        iv: String::new(),
        timestamp: 1,
        message_commitment: "c".to_string(),
        endcap: None,
    }
}

#[test]
fn nonces_count_up_from_one() {
    let mut store = MessageStore::new();
    let got: Vec<u64> = (0..5).map(|_| store.get_next_vaa_nonce("alice")).collect();
    assert_eq!(got, vec![1, 2, 3, 4, 5]);
    assert_eq!(store.last_vaa_nonce("alice"), 5);
}

#[test]
fn nonces_of_identities_are_independent() {
    let mut store = MessageStore::new();
    assert_eq!(store.get_next_vaa_nonce("a"), 1);
    assert_eq!(store.get_next_vaa_nonce("a"), 2);
    assert_eq!(store.get_next_vaa_nonce("b"), 1);
    assert_eq!(store.get_next_vaa_nonce("a"), 3);
    assert_eq!(store.last_vaa_nonce("c"), 0);
}

#[test]
fn thread_key_is_created_once() {
    let mut store = MessageStore::new();
    assert_eq!(store.get_key("t"), None);
    let k1 = store.get_or_create_key("t");
    let k2 = store.get_or_create_key("t");
    assert_eq!(k1, k2);
    assert_eq!(store.get_key("t"), Some(k1));
    assert_eq!(store.get_or_insert_key("t", [7u8; 32]), k1);
    assert_eq!(store.get_or_insert_key("u", [7u8; 32]), [7u8; 32]);
}

#[test]
fn cstate_root_defaults_to_zero_root() {
    let mut store = MessageStore::new();
    assert_eq!(store.get_cstate_root("id"), "0".repeat(64));
    store.update_cstate_root("id", "abc".to_string());
    assert_eq!(store.get_cstate_root("id"), "abc");
    assert_eq!(store.get_cstate_root("other"), "0".repeat(64));
}

#[test]
fn thread_roots_append_in_order() {
    let mut store = MessageStore::new();
    assert!(store.get_thread_roots("id").is_empty());
    store.add_thread_root("id", "r1".to_string());
    store.add_thread_root("id", "r2".to_string());
    store.add_thread_root("other", "x".to_string());
    assert_eq!(store.get_thread_roots("id"), vec!["r1".to_string(), "r2".to_string()]);
    assert_eq!(store.get_thread_roots("other"), vec!["x".to_string()]);
}

#[test]
fn messages_append_per_thread() {
    let mut store = MessageStore::new();
    assert!(store.get_messages("t").is_none());
    store.add_message(message("t", "one"));
    store.add_message(message("u", "other"));
    store.add_message(message("t", "two"));
    let t = store.get_messages("t").unwrap();
    assert_eq!(t.len(), 2);
    assert_eq!(t[0].ciphertext, "one");
    assert_eq!(t[1].ciphertext, "two");
    let mut ids = store.get_all_thread_ids();
    ids.sort();
    assert_eq!(ids, vec!["t".to_string(), "u".to_string()]);
}

#[test]
fn encryption_round_trips() {
    let key = [3u8; 32];
    for text in ["", "hi", "héllo wörld ✓", "a longer message with several words"] {
        let (c, n) = encrypt_message(&key, text).unwrap();
        assert_eq!(c.len(), text.len() + 16);
        assert_eq!(decrypt_message(&key, &c, &n).unwrap(), text);
    }
}

#[test]
fn decryption_with_wrong_key_fails() {
    let (c, n) = encrypt_message(&[1u8; 32], "secret").unwrap();
    assert_eq!(decrypt_message(&[2u8; 32], &c, &n), Err(ZeroTraceError::CryptoError));
}

#[test]
fn decryption_of_corrupted_ciphertext_fails() {
    let key = [1u8; 32];
    let (mut c, n) = encrypt_message(&key, "secret").unwrap();
    c[0] ^= 1;
    assert_eq!(decrypt_message(&key, &c, &n), Err(ZeroTraceError::CryptoError));
    let (c, mut n) = encrypt_message(&key, "secret").unwrap();
    n[0] ^= 1;
    assert_eq!(decrypt_message(&key, &c, &n), Err(ZeroTraceError::CryptoError));
}

#[test]
fn encryption_uses_fresh_nonces() {
    let key = [5u8; 32];
    let (c1, n1) = encrypt_message(&key, "same").unwrap();
    let (c2, n2) = encrypt_message(&key, "same").unwrap();
    assert_ne!(n1, n2);
    assert_ne!(c1, c2);
}

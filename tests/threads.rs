use zerotrace::threads::threads_for_identity;
use zerotrace::{Message, MessageStore};

fn msg(thread: &str, timestamp: u64) -> Message {
    Message {
        thread_id: thread.to_string(),
        sender_id: "x".to_string(),
        ciphertext: String::new(),
        iv: String::new(),
        timestamp,
        message_commitment: String::new(),
        endcap: None,
    }
}

#[test]
fn threads_list_other_party_and_last_time() {
    let mut store = MessageStore::new();
    store.add_message(msg("aa:bb", 5));
    store.add_message(msg("aa:bb", 9));
    store.add_message(msg("bb:cc", 3));
    store.add_message(msg("cc:dd", 4));
    store.add_message(msg("bb", 1));
    store.add_message(msg("bb:cc:dd", 2));
    let mut got: Vec<(String, String, u64, usize)> = threads_for_identity(&store, "bb")
        .into_iter()
        .map(|t| (t.thread_id, t.other_identity_hash, t.last_message_time, t.message_count))
        .collect();
    got.sort();
    assert_eq!(
        got,
        vec![
            ("aa:bb".to_string(), "aa".to_string(), 9, 2),
            ("bb:cc".to_string(), "cc".to_string(), 3, 1),
        ]
    );
}

#[test]
fn threads_of_stranger_are_empty() {
    let mut store = MessageStore::new();
    store.add_message(msg("aa:bb", 1));
    assert!(threads_for_identity(&store, "zz").is_empty());
    assert!(threads_for_identity(&store, "a").is_empty());
}

#[test]
fn thread_with_empty_part_matches_empty_identity() {
    let mut store = MessageStore::new();
    store.add_message(msg(":bb", 1));
    let got = threads_for_identity(&store, "");
    assert_eq!(got.len(), 1);
    assert_eq!(got[0].other_identity_hash, "bb");
}

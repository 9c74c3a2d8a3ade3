//! The threads that an identity takes part in.
use vstd::prelude::*;
use crate::MessageStore;

verus! {

/// The position of the only `:` in a text.
pub open spec fn only_colon_at(s: Seq<char>, p: int) -> bool {
    &&& 0 <= p < s.len()
    &&& s[p] == ':'
    &&& forall|j: int| 0 <= j < s.len() && j != p ==> s[j] != ':'
}

/// The two parts of a thread id `a:b`; none unless it holds exactly one `:`.
pub open spec fn split_pair(s: Seq<char>) -> Option<(Seq<char>, Seq<char>)> {
    if exists|p: int| only_colon_at(s, p) {
        let p = choose|p: int| only_colon_at(s, p);
        Some((s.subrange(0, p), s.subrange(p + 1, s.len() as int)))
    } else {
        None
    }
}

/// The other participant of a thread, where `id` is one of its two parts.
pub open spec fn other_party(thread_id: Seq<char>, id: Seq<char>) -> Option<Seq<char>> {
    match split_pair(thread_id) {
        Some((a, b)) => if a == id {
            Some(b)
        } else if b == id {
            Some(a)
        } else {
            None
        },
        None => None,
    }
}

/// One thread of an identity: the other participant, the time of the last
/// message and the number of messages.
pub struct ThreadSummary {
    pub thread_id: String,
    pub other_identity_hash: String,
    pub last_message_time: u64,
    pub message_count: usize,
}

/// Whether a thread of the store, with messages, has `id` as a participant.
pub open spec fn listed(store: MessageStore, id: Seq<char>, t: Seq<char>) -> bool {
    &&& store.messages_map().contains_key(t)
    &&& store.messages_of(t).len() > 0
    &&& other_party(t, id) is Some
}

/// Splits a thread id at its only `:`.
fn split_thread_id(thread_id: &str) -> (r: Option<(String, String)>)
    ensures
        match r {
            Some((a, b)) => split_pair(thread_id@) == Some((a@, b@)),
            None => split_pair(thread_id@) is None,
        },
{
    let n = thread_id.unicode_len();
    let mut colons: usize = 0;
    let mut first: usize = 0;
    let mut i: usize = 0;
    while i < n
        invariant
            n == thread_id@.len(),
            i <= n,
            colons <= 2,
            colons == 0 ==> forall|j: int| 0 <= j < i ==> thread_id@[j] != ':',
            colons >= 1 ==> first < i && thread_id@[first as int] == ':',
            colons == 1 ==> forall|j: int| 0 <= j < i && j != first ==> thread_id@[j] != ':',
            colons == 2 ==> exists|j: int| 0 <= j < i && j != first && thread_id@[j] == ':',
        decreases n - i,
    {
        if thread_id.get_char(i) == ':' {
            if colons == 0 {
                first = i;
                colons = 1;
            } else if colons == 1 {
                colons = 2;
            }
        }
        i = i + 1;
    }
    if colons != 1 {
        proof {
            if colons == 2 {
                let j = choose|j: int| 0 <= j < n && j != first && thread_id@[j] == ':';
                assert forall|p: int| !only_colon_at(thread_id@, p) by {
                    if only_colon_at(thread_id@, p) {
                        assert(p == first);
                        assert(p == j);
                    }
                }
            }
        }
        return None;
    }
    assert(only_colon_at(thread_id@, first as int));
    proof {
        let p = choose|p: int| only_colon_at(thread_id@, p);
        assert(p == first);
    }
    let a = thread_id.substring_char(0, first).to_owned();
    let b = thread_id.substring_char(first + 1, n).to_owned();
    Some((a, b))
}

/// The summary of one thread for an identity, if it is listed.
fn summarize(store: &MessageStore, thread_id: &String, wanted: &String) -> (r: Option<ThreadSummary>)
    requires
        store.wf(),
    ensures
        r is Some <==> listed(*store, wanted@, thread_id@),
        r matches Some(sm) ==> {
            &&& sm.thread_id@ == thread_id@
            &&& other_party(thread_id@, wanted@) == Some(sm.other_identity_hash@)
            &&& sm.last_message_time == store.messages_of(thread_id@).last().timestamp
            &&& sm.message_count == store.messages_of(thread_id@).len()
        },
{
    let other: Option<String> = match split_thread_id(thread_id.as_str()) {
        Some((a, b)) => if a == *wanted {
            Some(b)
        } else if b == *wanted {
            Some(a)
        } else {
            None
        },
        None => None,
    };
    assert(match other {
        Some(o) => other_party(thread_id@, wanted@) == Some(o@),
        None => other_party(thread_id@, wanted@) is None,
    });
    match other {
        Some(o) => match store.get_messages(thread_id.as_str()) {
            Some(messages) => {
                if messages.len() > 0 {
                    let last = messages.len() - 1;
                    Some(
                        ThreadSummary {
                            thread_id: thread_id.clone(),
                            other_identity_hash: o,
                            last_message_time: messages[last].timestamp,
                            message_count: messages.len(),
                        },
                    )
                } else {
                    None
                }
            },
            None => None,
        },
        None => None,
    }
}

/// The threads with messages in which `identity_hash` is one of the two
/// parts of the thread id, each once.
pub fn threads_for_identity(store: &MessageStore, identity_hash: &str) -> (r: Vec<ThreadSummary>)
    requires
        store.wf(),
    ensures
        forall|i: int|
            0 <= i < r@.len() ==> {
                let t = #[trigger] r@[i].thread_id@;
                &&& listed(*store, identity_hash@, t)
                &&& other_party(t, identity_hash@) == Some(r@[i].other_identity_hash@)
                &&& r@[i].last_message_time == store.messages_of(t).last().timestamp
                &&& r@[i].message_count == store.messages_of(t).len()
            },
        forall|t: Seq<char>|
            listed(*store, identity_hash@, t) ==> exists|i: int|
                0 <= i < r@.len() && #[trigger] r@[i].thread_id@ == t,
        forall|i: int, j: int| 0 <= i < j < r@.len() ==> r@[i].thread_id@ != r@[j].thread_id@,
{
    let ids = store.get_all_thread_ids();
    let wanted = identity_hash.to_owned();
    let mut out: Vec<ThreadSummary> = Vec::new();
    let mut i: usize = 0;
    while i < ids.len()
        invariant
            store.wf(),
            wanted@ == identity_hash@,
            i <= ids@.len(),
            forall|k: Seq<char>| store.messages_map().contains_key(k) <==> exists|j: int|
                0 <= j < ids@.len() && #[trigger] ids@[j]@ == k,
            forall|a: int, b: int| 0 <= a < b < ids@.len() ==> ids@[a]@ != ids@[b]@,
            forall|k: int|
                0 <= k < out@.len() ==> {
                    let t = #[trigger] out@[k].thread_id@;
                    &&& listed(*store, identity_hash@, t)
                    &&& other_party(t, identity_hash@) == Some(out@[k].other_identity_hash@)
                    &&& out@[k].last_message_time == store.messages_of(t).last().timestamp
                    &&& out@[k].message_count == store.messages_of(t).len()
                },
            forall|k: int|
                0 <= k < out@.len() ==> exists|j: int|
                    0 <= j < i && ids@[j]@ == #[trigger] out@[k].thread_id@,
            forall|j: int|
                0 <= j < i && listed(*store, identity_hash@, #[trigger] ids@[j]@) ==> exists|k: int|
                    0 <= k < out@.len() && out@[k].thread_id@ == ids@[j]@,
            forall|a: int, b: int|
                0 <= a < b < out@.len() ==> out@[a].thread_id@ != out@[b].thread_id@,
        decreases ids@.len() - i,
    {
        let ghost t = ids@[i as int]@;
        match summarize(store, &ids[i], &wanted) {
            Some(summary) => {
                proof {
                    assert forall|k: int| 0 <= k < out@.len() implies out@[k].thread_id@ != t by {
                        let j = choose|j: int|
                            0 <= j < i && ids@[j]@ == #[trigger] out@[k].thread_id@;
                        assert(ids@[j]@ != ids@[i as int]@);
                    }
                }
                let ghost before = out@;
                out.push(summary);
                proof {
                    assert(out@[out@.len() - 1].thread_id@ == t);
                    assert(forall|k: int| 0 <= k < before.len() ==> out@[k] == before[k]);
                    assert forall|j: int|
                        0 <= j < i + 1 && listed(*store, identity_hash@, #[trigger] ids@[j]@)
                        implies exists|k: int|
                        0 <= k < out@.len() && out@[k].thread_id@ == ids@[j]@ by {
                        if j < i {
                            let k = choose|k: int|
                                0 <= k < before.len() && before[k].thread_id@ == ids@[j]@;
                            assert(out@[k].thread_id@ == ids@[j]@);
                        } else {
                            assert(out@[out@.len() - 1].thread_id@ == ids@[j]@);
                        }
                    }
                }
            },
            None => {},
        }
        i = i + 1;
    }
    proof {
        assert forall|t: Seq<char>| listed(*store, identity_hash@, t) implies exists|k: int|
            0 <= k < out@.len() && #[trigger] out@[k].thread_id@ == t by {
            let j = choose|j: int| 0 <= j < ids@.len() && #[trigger] ids@[j]@ == t;
            assert(listed(*store, identity_hash@, ids@[j]@));
        }
    }
    out
}

} // verus!

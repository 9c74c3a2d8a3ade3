//! A messaging core: authenticated-encrypted messages, hash-chained per-sender
//! state roots, and a replay-protected, proof-gated send.
pub mod cipher;
pub mod clock;
pub mod commitments;
pub mod identity;
pub mod pipeline;
pub mod primitives;
pub mod proofs;
pub mod strmap;
pub mod threads;

use vstd::prelude::*;
use vstd::utf8::{decode_utf8_encode_utf8, encode_utf8, encode_utf8_decode_utf8, encode_utf8_valid_utf8};
use crate::cipher::{aead_decrypt, aead_encrypt, aead_seal, random_key, random_nonce, utf8_text, within_block_limit};
use crate::commitments::{views, zero_root, ZERO_ROOT};
use crate::proofs::EndCap;
use crate::strmap::StrMap;

verus! {

/// The ways an operation of the core can fail.
#[derive(Debug, Clone, Copy, PartialEq, Eq, Structural)]
pub enum ZeroTraceError {
    /// A seed could not be expanded into key material.
    KeyDerivationError,
    /// Authenticated encryption or decryption failed.
    CryptoError,
    /// A generated proof did not verify.
    ProofVerificationError,
    /// A stored field was not valid base64.
    EncodingError,
    /// The sender has used up every replay nonce.
    NonceExhaustedError,
}

/// A stored message, in encrypted form.
pub struct Message {
    pub thread_id: String,
    /// Identity hash of the sender.
    pub sender_id: String,
    /// Base64 text of the ciphertext.
    pub ciphertext: String,
    /// Base64 text of the nonce.
    pub iv: String,
    pub timestamp: u64,
    pub message_commitment: String,
    pub endcap: Option<EndCap>,
}

/// A request to send a message.
pub struct SendRequest {
    pub thread_id: String,
    /// Identity hash of the recipient.
    pub recipient_id: String,
    pub plaintext: String,
    /// Identity hash of the sender.
    pub sender_identity_hash: String,
    /// Signature by which the sender proves ownership.
    pub sender_signature: String,
}

/// The keyed maps of the core. Entries are only ever added or replaced.
pub struct MessageStore {
    messages: StrMap<Vec<Message>>,
    keys: StrMap<[u8; 32]>,
    cstate_roots: StrMap<String>,
    thread_roots: StrMap<Vec<String>>,
    vaa_nonces: StrMap<u64>,
}

impl MessageStore {
    /// The store's internal invariant.
    pub closed spec fn wf(&self) -> bool {
        &&& self.messages.wf()
        &&& self.keys.wf()
        &&& self.cstate_roots.wf()
        &&& self.thread_roots.wf()
        &&& self.vaa_nonces.wf()
    }

    /// Thread id to the messages of that thread, in order.
    pub closed spec fn messages_map(&self) -> Map<Seq<char>, Seq<Message>> {
        self.messages@.map_values(|v: Vec<Message>| v@)
    }

    /// Thread id to the thread's symmetric key.
    pub closed spec fn keys_map(&self) -> Map<Seq<char>, [u8; 32]> {
        self.keys@
    }

    /// Identity hash to its current CSTATE root, where one was stored.
    pub closed spec fn roots_map(&self) -> Map<Seq<char>, Seq<char>> {
        self.cstate_roots@.map_values(|v: String| v@)
    }

    /// Identity hash to its thread-root commitments, in order.
    pub closed spec fn thread_roots_map(&self) -> Map<Seq<char>, Seq<Seq<char>>> {
        self.thread_roots@.map_values(|v: Vec<String>| views(v@))
    }

    /// Identity hash to the last replay nonce issued to it.
    pub closed spec fn nonces_map(&self) -> Map<Seq<char>, u64> {
        self.vaa_nonces@
    }

    /// The messages of a thread; none where the thread has none.
    pub open spec fn messages_of(&self, thread_id: Seq<char>) -> Seq<Message> {
        if self.messages_map().contains_key(thread_id) {
            self.messages_map()[thread_id]
        } else {
            Seq::empty()
        }
    }

    /// The CSTATE root of an identity; the zero root where none was stored.
    pub open spec fn cstate_root_of(&self, id: Seq<char>) -> Seq<char> {
        if self.roots_map().contains_key(id) {
            self.roots_map()[id]
        } else {
            zero_root()
        }
    }

    /// The thread-root commitments of an identity; none where none were added.
    pub open spec fn thread_roots_of(&self, id: Seq<char>) -> Seq<Seq<char>> {
        if self.thread_roots_map().contains_key(id) {
            self.thread_roots_map()[id]
        } else {
            Seq::empty()
        }
    }

    /// The last replay nonce issued to an identity; 0 where none was.
    pub open spec fn nonce_of(&self, id: Seq<char>) -> u64 {
        if self.nonces_map().contains_key(id) {
            self.nonces_map()[id]
        } else {
            0
        }
    }

    /// An empty store.
    pub fn new() -> (r: Self)
        ensures
            r.wf(),
            r.messages_map() == Map::<Seq<char>, Seq<Message>>::empty(),
            r.keys_map() == Map::<Seq<char>, [u8; 32]>::empty(),
            r.roots_map() == Map::<Seq<char>, Seq<char>>::empty(),
            r.thread_roots_map() == Map::<Seq<char>, Seq<Seq<char>>>::empty(),
            r.nonces_map() == Map::<Seq<char>, u64>::empty(),
    {
        let r = MessageStore {
            messages: StrMap::new(),
            keys: StrMap::new(),
            cstate_roots: StrMap::new(),
            thread_roots: StrMap::new(),
            vaa_nonces: StrMap::new(),
        };
        assert(r.messages_map() =~= Map::<Seq<char>, Seq<Message>>::empty());
        assert(r.roots_map() =~= Map::<Seq<char>, Seq<char>>::empty());
        assert(r.thread_roots_map() =~= Map::<Seq<char>, Seq<Seq<char>>>::empty());
        r
    }

    /// The key of a thread, if one was created.
    pub fn get_key(&self, thread_id: &str) -> (r: Option<[u8; 32]>)
        requires
            self.wf(),
        ensures
            match r {
                Some(k) => self.keys_map().contains_key(thread_id@) && k == self.keys_map()[thread_id@],
                None => !self.keys_map().contains_key(thread_id@),
            },
    {
        match self.keys.get(thread_id) {
            Some(k) => Some(*k),
            None => None,
        }
    }

    /// The key of a thread; where the thread has none yet, `candidate`
    /// becomes its key.
    pub fn get_or_insert_key(&mut self, thread_id: &str, candidate: [u8; 32]) -> (r: [u8; 32])
        requires
            old(self).wf(),
        ensures
            final(self).wf(),
            old(self).keys_map().contains_key(thread_id@) ==> r == old(self).keys_map()[thread_id@]
                && final(self).keys_map() == old(self).keys_map(),
            !old(self).keys_map().contains_key(thread_id@) ==> r == candidate
                && final(self).keys_map() == old(self).keys_map().insert(thread_id@, candidate),
            final(self).messages_map() == old(self).messages_map(),
            final(self).roots_map() == old(self).roots_map(),
            final(self).thread_roots_map() == old(self).thread_roots_map(),
            final(self).nonces_map() == old(self).nonces_map(),
    {
        match self.keys.get(thread_id) {
            Some(k) => *k,
            None => {
                self.keys.insert(thread_id, candidate);
                candidate
            },
        }
    }

    /// The key of a thread, created at random on the thread's first use and
    /// then kept.
    pub fn get_or_create_key(&mut self, thread_id: &str) -> (r: [u8; 32])
        requires
            old(self).wf(),
        ensures
            final(self).wf(),
            old(self).keys_map().contains_key(thread_id@) ==> r == old(self).keys_map()[thread_id@]
                && final(self).keys_map() == old(self).keys_map(),
            !old(self).keys_map().contains_key(thread_id@) ==> final(self).keys_map() == old(
                self,
            ).keys_map().insert(thread_id@, r),
            final(self).messages_map() == old(self).messages_map(),
            final(self).roots_map() == old(self).roots_map(),
            final(self).thread_roots_map() == old(self).thread_roots_map(),
            final(self).nonces_map() == old(self).nonces_map(),
    {
        match self.get_key(thread_id) {
            Some(k) => k,
            None => self.get_or_insert_key(thread_id, random_key()),
        }
    }

    /// The current CSTATE root of an identity.
    pub fn get_cstate_root(&self, identity_hash: &str) -> (r: String)
        requires
            self.wf(),
        ensures
            r@ == self.cstate_root_of(identity_hash@),
    {
        match self.cstate_roots.get(identity_hash) {
            Some(root) => root.clone(),
            None => {
                let zeros = ZERO_ROOT.to_owned();
                proof {
                    reveal_strlit("0000000000000000000000000000000000000000000000000000000000000000");
                    assert(zeros@ =~= zero_root());
                }
                zeros
            },
        }
    }

    /// Replaces the CSTATE root of an identity.
    pub fn update_cstate_root(&mut self, identity_hash: &str, new_root: String)
        requires
            old(self).wf(),
        ensures
            final(self).wf(),
            final(self).roots_map() == old(self).roots_map().insert(identity_hash@, new_root@),
            final(self).messages_map() == old(self).messages_map(),
            final(self).keys_map() == old(self).keys_map(),
            final(self).thread_roots_map() == old(self).thread_roots_map(),
            final(self).nonces_map() == old(self).nonces_map(),
    {
        let ghost v = new_root@;
        self.cstate_roots.insert(identity_hash, new_root);
        assert(self.roots_map() =~= old(self).roots_map().insert(identity_hash@, v));
    }

    /// Appends a thread-root commitment to an identity's list.
    pub fn add_thread_root(&mut self, identity_hash: &str, thread_root: String)
        requires
            old(self).wf(),
        ensures
            final(self).wf(),
            final(self).thread_roots_map() == old(self).thread_roots_map().insert(
                identity_hash@,
                old(self).thread_roots_of(identity_hash@).push(thread_root@),
            ),
            final(self).messages_map() == old(self).messages_map(),
            final(self).keys_map() == old(self).keys_map(),
            final(self).roots_map() == old(self).roots_map(),
            final(self).nonces_map() == old(self).nonces_map(),
    {
        let ghost item = thread_root@;
        let mut list = match self.thread_roots.remove(identity_hash) {
            Some(l) => l,
            None => Vec::new(),
        };
        assert(views(list@) == old(self).thread_roots_of(identity_hash@));
        list.push(thread_root);
        assert(views(list@) =~= old(self).thread_roots_of(identity_hash@).push(item));
        self.thread_roots.insert(identity_hash, list);
        assert(self.thread_roots_map() =~= old(self).thread_roots_map().insert(
            identity_hash@,
            old(self).thread_roots_of(identity_hash@).push(item),
        ));
    }

    /// The thread-root commitments of an identity, in order.
    pub fn get_thread_roots(&self, identity_hash: &str) -> (r: Vec<String>)
        requires
            self.wf(),
        ensures
            views(r@) == self.thread_roots_of(identity_hash@),
    {
        match self.thread_roots.get(identity_hash) {
            Some(list) => crate::commitments::clone_strings(list.as_slice()),
            None => {
                let r: Vec<String> = Vec::new();
                assert(views(r@) =~= Seq::<Seq<char>>::empty());
                r
            },
        }
    }

    /// Issues the next replay nonce of an identity: one more than the last,
    /// starting at 1.
    pub fn get_next_vaa_nonce(&mut self, identity_hash: &str) -> (r: u64)
        requires
            old(self).wf(),
            old(self).nonce_of(identity_hash@) < u64::MAX,
        ensures
            final(self).wf(),
            r == old(self).nonce_of(identity_hash@) + 1,
            final(self).nonces_map() == old(self).nonces_map().insert(identity_hash@, r),
            final(self).messages_map() == old(self).messages_map(),
            final(self).keys_map() == old(self).keys_map(),
            final(self).roots_map() == old(self).roots_map(),
            final(self).thread_roots_map() == old(self).thread_roots_map(),
    {
        let last: u64 = match self.vaa_nonces.get(identity_hash) {
            Some(n) => *n,
            None => 0,
        };
        let nonce = last + 1;
        self.vaa_nonces.insert(identity_hash, nonce);
        nonce
    }

    /// The last replay nonce issued to an identity, 0 if none was.
    pub fn last_vaa_nonce(&self, identity_hash: &str) -> (r: u64)
        requires
            self.wf(),
        ensures
            r == self.nonce_of(identity_hash@),
    {
        match self.vaa_nonces.get(identity_hash) {
            Some(n) => *n,
            None => 0,
        }
    }

    /// Appends a message to its thread.
    pub fn add_message(&mut self, message: Message)
        requires
            old(self).wf(),
        ensures
            final(self).wf(),
            final(self).messages_map() == old(self).messages_map().insert(
                message.thread_id@,
                old(self).messages_of(message.thread_id@).push(message),
            ),
            final(self).keys_map() == old(self).keys_map(),
            final(self).roots_map() == old(self).roots_map(),
            final(self).thread_roots_map() == old(self).thread_roots_map(),
            final(self).nonces_map() == old(self).nonces_map(),
    {
        let ghost m = message;
        let thread_id = message.thread_id.clone();
        let mut list = match self.messages.remove(thread_id.as_str()) {
            Some(l) => l,
            None => Vec::new(),
        };
        assert(list@ == old(self).messages_of(m.thread_id@));
        list.push(message);
        self.messages.insert(thread_id.as_str(), list);
        assert(self.messages_map() =~= old(self).messages_map().insert(
            m.thread_id@,
            old(self).messages_of(m.thread_id@).push(m),
        ));
    }

    /// The messages of a thread, if it has any entry.
    pub fn get_messages(&self, thread_id: &str) -> (r: Option<&Vec<Message>>)
        requires
            self.wf(),
        ensures
            match r {
                Some(v) => self.messages_map().contains_key(thread_id@) && v@
                    == self.messages_map()[thread_id@],
                None => !self.messages_map().contains_key(thread_id@),
            },
    {
        self.messages.get(thread_id)
    }

    /// The ids of the threads that have messages, each once.
    pub fn get_all_thread_ids(&self) -> (r: Vec<String>)
        requires
            self.wf(),
        ensures
            forall|k: Seq<char>| self.messages_map().contains_key(k) <==> exists|i: int|
                0 <= i < r@.len() && #[trigger] r@[i]@ == k,
            forall|i: int, j: int| 0 <= i < j < r@.len() ==> r@[i]@ != r@[j]@,
    {
        self.messages.keys()
    }
}

/// Issuing a replay nonce for one identity leaves the sequence of every other
/// identity as it was.
pub proof fn lemma_nonce_sequences_independent(
    before: MessageStore,
    after: MessageStore,
    id: Seq<char>,
    other: Seq<char>,
    issued: u64,
)
    requires
        issued == before.nonce_of(id) + 1,
        after.nonces_map() == before.nonces_map().insert(id, issued),
        other != id,
    ensures
        after.nonce_of(id) == issued,
        after.nonce_of(other) == before.nonce_of(other),
{
}

/// Successive nonce requests for an identity that has had none return
/// 1, 2, ..., n: `states[k]` is the store before request `k`, which returned
/// `issued[k]`.
pub proof fn lemma_nonces_count_up(states: Seq<MessageStore>, issued: Seq<u64>, id: Seq<char>)
    requires
        states.len() == issued.len() + 1,
        states[0].nonce_of(id) == 0,
        forall|k: int|
            0 <= k < issued.len() ==> #[trigger] issued[k] == states[k].nonce_of(id) + 1
                && states[k + 1].nonces_map() == states[k].nonces_map().insert(id, issued[k]),
    ensures
        forall|k: int| 0 <= k < issued.len() ==> #[trigger] issued[k] == k + 1,
    decreases issued.len(),
{
    if issued.len() > 0 {
        let n = issued.len() - 1;
        lemma_nonces_count_up(states.subrange(0, n + 1), issued.subrange(0, n), id);
        assert forall|k: int| 0 <= k < issued.len() implies #[trigger] issued[k] == k + 1 by {
            if k < n {
                assert(issued.subrange(0, n)[k] == issued[k]);
            } else {
                if n > 0 {
                    assert(issued.subrange(0, n)[n - 1] == issued[n - 1]);
                    assert(issued[n - 1] == n);
                    assert(states[n].nonces_map() == states[n - 1].nonces_map().insert(id, issued[n - 1]));
                }
            }
        }
    }
}

/// Whether a ciphertext is the encryption, under a key and nonce, of the
/// UTF-8 bytes of a text within the cipher's limit.
pub open spec fn encrypts_text(key: Seq<u8>, nonce: Seq<u8>, ciphertext: Seq<u8>, text: Seq<char>) -> bool {
    &&& within_block_limit(encode_utf8(text).len())
    &&& ciphertext == aead_seal(key, nonce, encode_utf8(text))
}

/// Encrypts a plaintext under a key with a fresh random nonce, and returns
/// the ciphertext and the nonce.
pub fn encrypt_message(key: &[u8; 32], plaintext: &str) -> (r: Result<(Vec<u8>, [u8; 24]), ZeroTraceError>)
    ensures
        r is Ok <==> within_block_limit(encode_utf8(plaintext@).len()),
        match r {
            Ok((c, n)) => encrypts_text(key@, n@, c@, plaintext@) && c@.len() == encode_utf8(
                plaintext@,
            ).len() + 16,
            Err(e) => e == ZeroTraceError::CryptoError,
        },
{
    let nonce = random_nonce();
    match aead_encrypt(key, &nonce, plaintext.as_bytes()) {
        Ok(c) => Ok((c, nonce)),
        Err(_) => Err(ZeroTraceError::CryptoError),
    }
}

/// Decrypts a ciphertext under a key and nonce: it succeeds exactly when the
/// ciphertext is the encryption of some text, and returns that text.
pub fn decrypt_message(key: &[u8; 32], ciphertext: &[u8], nonce: &[u8; 24]) -> (r: Result<String, ZeroTraceError>)
    ensures
        match r {
            Ok(s) => encrypts_text(key@, nonce@, ciphertext@, s@),
            Err(e) => e == ZeroTraceError::CryptoError && forall|t: Seq<char>|
                !#[trigger] encrypts_text(key@, nonce@, ciphertext@, t),
        },
        forall|t: Seq<char>|
            #[trigger] encrypts_text(key@, nonce@, ciphertext@, t) ==> (r is Ok && r->Ok_0@ == t),
{
    match aead_decrypt(key, nonce, ciphertext) {
        Ok(bytes) => {
            let ghost b = bytes@;
            match utf8_text(bytes) {
                Ok(s) => {
                    proof {
                        decode_utf8_encode_utf8(b);
                        assert forall|t: Seq<char>| #[trigger]
                            encrypts_text(key@, nonce@, ciphertext@, t) implies s@ == t by {
                            encode_utf8_decode_utf8(t);
                        }
                    }
                    Ok(s)
                },
                Err(_) => {
                    proof {
                        assert forall|t: Seq<char>|
                            !#[trigger] encrypts_text(key@, nonce@, ciphertext@, t) by {
                            if encrypts_text(key@, nonce@, ciphertext@, t) {
                                encode_utf8_valid_utf8(t);
                            }
                        }
                    }
                    Err(ZeroTraceError::CryptoError)
                },
            }
        },
        Err(_) => Err(ZeroTraceError::CryptoError),
    }
}

} // verus!

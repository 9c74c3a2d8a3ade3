//! The atomic send and the decrypting read over a message store.
use vstd::prelude::*;
use vstd::utf8::encode_utf8;
use crate::cipher::{random_key, within_block_limit};
use crate::clock::unix_time_secs;
use crate::commitments::{
    compute_message_commitment, cstate_root, hash_plaintext, message_commitment, views,
    StateCommitment,
};
use crate::identity::{ed25519_signature_of, seed_secret, IdentityManager};
use crate::primitives::{
    append_bytes, base64_chars, base64_decode, base64_encode, hex_chars, hex_encode,
    lemma_encode_utf8_concat, sha256_hex,
};
use crate::proofs::{create_endcap, ProofSystem, SEND_MESSAGE_CFC};
use crate::strmap::StrMap;
use crate::{decrypt_message, encrypt_message, encrypts_text, Message, MessageStore, SendRequest, ZeroTraceError};

verus! {

/// Scheme and path before the blob id in a storage address.
pub const BLOB_PREFIX: &'static str = "da://encrypted/";

/// Decimal digits of a number, most significant first.
pub open spec fn decimal(n: nat) -> Seq<char>
    decreases n,
{
    if n < 10 {
        seq![seq!['0', '1', '2', '3', '4', '5', '6', '7', '8', '9'][n as int]]
    } else {
        decimal(n / 10).push(seq!['0', '1', '2', '3', '4', '5', '6', '7', '8', '9'][(n % 10) as int])
    }
}

/// Relies on `u64::to_string`: the decimal digits, with no sign or padding.
#[verifier::external_body]
fn decimal_text(n: u64) -> (r: String)
    ensures
        r@ == decimal(n as nat),
{
    n.to_string()
}

/// Relies on `uuid::Uuid::new_v4`: a random id as text; nothing is known of it.
#[verifier::external_body]
fn random_blob_id() -> (r: String) {
    uuid::Uuid::new_v4().to_string()
}

/// The text that a sender signs for a message: `commitment:nonce`.
pub open spec fn endcap_message(commitment: Seq<char>, vaa_nonce: u64) -> Seq<char> {
    commitment + seq![':'] + decimal(vaa_nonce as nat)
}

/// The secret key that signs for a sender: that of its registered identity,
/// or else that of the identity its hash seeds.
pub open spec fn sender_secret(ids: Map<Seq<char>, IdentityManager>, sender: Seq<char>) -> Seq<u8> {
    if ids.contains_key(sender) {
        ids[sender].secret_key()
    } else {
        seed_secret(encode_utf8(sender))
    }
}

/// What a send reports.
pub struct SendReceipt {
    pub thread_id: String,
    pub message_timestamp: u64,
    pub cstate_root: String,
    pub proof_verified: bool,
}

/// The store is exactly as it was.
pub open spec fn store_unchanged(old: MessageStore, new: MessageStore) -> bool {
    &&& new.messages_map() == old.messages_map()
    &&& new.keys_map() == old.keys_map()
    &&& new.roots_map() == old.roots_map()
    &&& new.thread_roots_map() == old.thread_roots_map()
    &&& new.nonces_map() == old.nonces_map()
}

/// The effect of a successful send of `req`: one message appended to the
/// thread, one commitment appended to the sender's thread roots, the root
/// recomputed over them, the next nonce issued, and nothing else changed.
pub open spec fn send_committed(
    old: MessageStore,
    new: MessageStore,
    old_ids: Map<Seq<char>, IdentityManager>,
    new_ids: Map<Seq<char>, IdentityManager>,
    req: SendRequest,
    receipt: SendReceipt,
) -> bool {
    let s = req.sender_identity_hash@;
    let t = req.thread_id@;
    let m = new.messages_of(t).last();
    let roots = old.thread_roots_of(s).push(m.message_commitment@);
    let vaa = (old.nonce_of(s) + 1) as u64;
    let key = new.keys_map()[t];
    &&& new.messages_map() == old.messages_map().insert(t, old.messages_of(t).push(m))
    &&& new.keys_map().contains_key(t)
    &&& old.keys_map().contains_key(t) ==> new.keys_map() == old.keys_map()
    &&& !old.keys_map().contains_key(t) ==> new.keys_map() == old.keys_map().insert(t, key)
    &&& new.thread_roots_map() == old.thread_roots_map().insert(s, roots)
    &&& new.roots_map() == old.roots_map().insert(s, cstate_root(roots))
    &&& new.nonces_map() == old.nonces_map().insert(s, vaa)
    &&& m.thread_id@ == t
    &&& m.sender_id@ == s
    &&& m.message_commitment@.len() == 64
    &&& exists|c: Seq<u8>, n: Seq<u8>|
        {
            &&& n.len() == 24
            &&& m.ciphertext@ == #[trigger] base64_chars(c)
            &&& m.iv@ == #[trigger] base64_chars(n)
            &&& encrypts_text(key@, n, c, req.plaintext@)
            &&& m.message_commitment@ == message_commitment(
                s,
                t,
                n,
                sha256_hex(encode_utf8(req.plaintext@)),
            )
        }
    &&& m.endcap matches Some(e) && {
        &&& e.vaa_nonce == vaa
        &&& e.proof.cfc_fingerprint@ == SEND_MESSAGE_CFC@
        &&& e.proof.start_cstate_root@ == old.cstate_root_of(s)
        &&& e.proof.end_cstate_root@ == cstate_root(roots)
        &&& views(e.proof.public_inputs@) == seq![m.message_commitment@]
        &&& e.signature@ == hex_chars(
            ed25519_signature_of(
                sender_secret(old_ids, s),
                encode_utf8(endcap_message(m.message_commitment@, vaa)),
            ),
        )
    }
    &&& receipt.thread_id@ == t
    &&& receipt.message_timestamp == m.timestamp
    &&& receipt.cstate_root@ == cstate_root(roots)
    &&& receipt.proof_verified
    &&& new_ids.contains_key(s)
    &&& old_ids.contains_key(s) ==> new_ids == old_ids
    &&& !old_ids.contains_key(s) ==> new_ids == old_ids.insert(s, new_ids[s])
        && new_ids[s].secret_key() == seed_secret(encode_utf8(s))
}

/// The bytes that a sender signs for a message.
fn endcap_bytes(commitment: &String, vaa_nonce: u64) -> (r: Vec<u8>)
    ensures
        r@ == encode_utf8(endcap_message(commitment@, vaa_nonce)),
{
    let digits = decimal_text(vaa_nonce);
    let sep = ":";
    proof {
        reveal_strlit(":");
        assert(sep@ =~= seq![':']);
    }
    let mut buf: Vec<u8> = Vec::new();
    append_bytes(&mut buf, commitment.as_str().as_bytes());
    append_bytes(&mut buf, sep.as_bytes());
    append_bytes(&mut buf, digits.as_str().as_bytes());
    proof {
        lemma_encode_utf8_concat(commitment@, seq![':']);
        lemma_encode_utf8_concat(commitment@ + seq![':'], digits@);
    }
    buf
}

/// A fresh storage address for a ciphertext.
fn blob_address() -> (r: String) {
    let mut address = BLOB_PREFIX.to_owned();
    let id = random_blob_id();
    address.append(id.as_str());
    address
}

/// Sends a message: encrypts it, commits to it, extends the sender's CSTATE
/// under a proof that must verify, and only then stores everything. On any
/// failure the store and the identities are left exactly as they were.
pub fn send_message<P: ProofSystem>(
    store: &mut MessageStore,
    identities: &mut StrMap<IdentityManager>,
    req: &SendRequest,
    proofs: &P,
) -> (r: Result<SendReceipt, ZeroTraceError>)
    requires
        old(store).wf(),
        old(identities).wf(),
    ensures
        final(store).wf(),
        final(identities).wf(),
        r is Err ==> store_unchanged(*old(store), *final(store)) && final(identities)@ == old(
            identities,
        )@,
        (r == Err::<SendReceipt, ZeroTraceError>(ZeroTraceError::NonceExhaustedError)) <==> old(
            store,
        ).nonce_of(req.sender_identity_hash@) == u64::MAX,
        (r == Err::<SendReceipt, ZeroTraceError>(ZeroTraceError::CryptoError)) <==> (old(
            store,
        ).nonce_of(req.sender_identity_hash@) < u64::MAX && !within_block_limit(
            encode_utf8(req.plaintext@).len(),
        )),
        r matches Err(e) ==> (e == ZeroTraceError::NonceExhaustedError || e
            == ZeroTraceError::CryptoError || e == ZeroTraceError::ProofVerificationError),
        old(store).nonce_of(req.sender_identity_hash@) < u64::MAX && within_block_limit(
            encode_utf8(req.plaintext@).len(),
        ) ==> r is Ok,
        r is Ok ==> (final(store).messages_of(req.thread_id@).last().endcap matches Some(e)
            && proofs.accepts(e.proof)),
        r matches Ok(receipt) ==> send_committed(
            *old(store),
            *final(store),
            old(identities)@,
            final(identities)@,
            *req,
            receipt,
        ),
{
    let sender = req.sender_identity_hash.as_str();
    let thread_id = req.thread_id.as_str();
    let last_nonce = store.last_vaa_nonce(sender);
    if last_nonce == u64::MAX {
        return Err(ZeroTraceError::NonceExhaustedError);
    }
    // The thread's key; a new one is only stored once the send commits.

    let key = match store.get_key(thread_id) {
        Some(k) => k,
        None => random_key(),
    };
    let (ciphertext, nonce) = match encrypt_message(&key, req.plaintext.as_str()) {
        Ok(pair) => pair,
        Err(e) => {
            return Err(e);
        },
    };
    let plaintext_hash = hash_plaintext(req.plaintext.as_str());
    let commitment = compute_message_commitment(
        sender,
        thread_id,
        nonce.as_slice(),
        plaintext_hash.as_str(),
    );
    let start_root = store.get_cstate_root(sender);
    let thread_roots = store.get_thread_roots(sender);
    let candidate = StateCommitment::new(
        req.thread_id.clone(),
        commitment.clone(),
        thread_roots.as_slice(),
    );
    let mut inputs: Vec<String> = Vec::new();
    inputs.push(commitment.clone());
    assert(views(inputs@) =~= seq![commitment@]);
    let proof = proofs.generate(
        SEND_MESSAGE_CFC,
        start_root.as_str(),
        candidate.cstate_root.as_str(),
        inputs.as_slice(),
    );
    if !proofs.verify(&proof) {
        return Err(ZeroTraceError::ProofVerificationError);
    }
    let vaa_nonce = last_nonce + 1;
    let signed = endcap_bytes(&commitment, vaa_nonce);
    let signature_bytes = match identities.get(sender) {
        Some(id) => id.sign(signed.as_slice()),
        None => {
            let id = match IdentityManager::from_seed(sender.as_bytes()) {
                Ok(id) => id,
                Err(e) => {
                    return Err(e);
                },
            };
            let sig = id.sign(signed.as_slice());
            identities.insert(sender, id);
            sig
        },
    };
    let signature = hex_encode(signature_bytes.as_slice());
    // Commit: nothing above changed the store.

    let issued = store.get_next_vaa_nonce(sender);
    let endcap = create_endcap(proof, blob_address(), issued, signature);
    let _ = store.get_or_insert_key(thread_id, key);
    store.update_cstate_root(sender, candidate.cstate_root.clone());
    store.add_thread_root(sender, commitment.clone());
    let ghost n = nonce@;
    let ghost c = ciphertext@;
    let message = Message {
        thread_id: req.thread_id.clone(),
        sender_id: req.sender_identity_hash.clone(),
        ciphertext: base64_encode(ciphertext.as_slice()),
        iv: base64_encode(nonce.as_slice()),
        timestamp: unix_time_secs(),
        message_commitment: commitment,
        endcap: Some(endcap),
    };
    let timestamp = message.timestamp;
    let ghost m = message;
    store.add_message(message);
    let receipt = SendReceipt {
        thread_id: req.thread_id.clone(),
        message_timestamp: timestamp,
        cstate_root: candidate.cstate_root,
        proof_verified: true,
    };
    proof {
        assert(store.messages_of(req.thread_id@).last() == m);
        assert(m.iv@ == base64_chars(n));
        assert(m.ciphertext@ == base64_chars(c));
    }
    Ok(receipt)
}

/// The bytes that a text is the base64 encoding of, if any.
pub open spec fn base64_bytes(s: Seq<char>) -> Option<Seq<u8>> {
    if exists|b: Seq<u8>| s == base64_chars(b) {
        Some(choose|b: Seq<u8>| s == base64_chars(b))
    } else {
        None
    }
}

/// What reading a stored message under a key gives: its text, an encoding
/// error where a field is not base64 or the nonce is not 24 bytes, or a
/// crypto error where the ciphertext does not decrypt.
pub open spec fn opened_text(key: Seq<u8>, m: Message) -> Result<Seq<char>, ZeroTraceError> {
    if base64_bytes(m.ciphertext@) is None || base64_bytes(m.iv@) is None {
        Err(ZeroTraceError::EncodingError)
    } else if base64_bytes(m.iv@)->0.len() != 24 {
        Err(ZeroTraceError::EncodingError)
    } else {
        match decrypted_text(key, base64_bytes(m.iv@)->0, base64_bytes(m.ciphertext@)->0) {
            Some(t) => Ok(t),
            None => Err(ZeroTraceError::CryptoError),
        }
    }
}

/// The text that a ciphertext is the encryption of under a key and nonce, if any.
pub open spec fn decrypted_text(key: Seq<u8>, nonce: Seq<u8>, ciphertext: Seq<u8>) -> Option<Seq<char>> {
    if exists|t: Seq<char>| encrypts_text(key, nonce, ciphertext, t) {
        Some(choose|t: Seq<char>| encrypts_text(key, nonce, ciphertext, t))
    } else {
        None
    }
}

/// No other text opens a stored message: any text that its fields, decoded,
/// are the encryption of is `text`.
pub open spec fn only_opening(key: Seq<u8>, m: Message, text: Seq<char>) -> bool {
    forall|c: Seq<u8>, n: Seq<u8>, t: Seq<char>|
        #![trigger base64_chars(c), base64_chars(n), encrypts_text(key, n, c, t)]
        m.ciphertext@ == base64_chars(c) && m.iv@ == base64_chars(n) && encrypts_text(key, n, c, t)
            ==> text == t
}

/// A message as read: sender, text, time, commitment, and whether it
/// carries a proof.
pub struct DecryptedMessage {
    pub sender: String,
    pub text: String,
    pub timestamp: u64,
    pub commitment: String,
    pub proof_present: bool,
}

/// The view of a read message.
pub open spec fn read_view(d: DecryptedMessage) -> (Seq<char>, Seq<char>, u64, Seq<char>, bool) {
    (d.sender@, d.text@, d.timestamp, d.commitment@, d.proof_present)
}

/// The messages of a thread that read successfully under a key, in order;
/// the others are skipped.
pub open spec fn readable(key: Seq<u8>, msgs: Seq<Message>) -> Seq<
    (Seq<char>, Seq<char>, u64, Seq<char>, bool),
>
    decreases msgs.len(),
{
    if msgs.len() == 0 {
        Seq::empty()
    } else {
        let m = msgs.last();
        let rest = readable(key, msgs.drop_last());
        match opened_text(key, m) {
            Ok(t) => rest.push(
                (m.sender_id@, t, m.timestamp, m.message_commitment@, m.endcap is Some),
            ),
            Err(_) => rest,
        }
    }
}

fn decode_field(text: &String) -> (r: Option<Vec<u8>>)
    ensures
        match r {
            Some(b) => base64_bytes(text@) == Some(b@),
            None => base64_bytes(text@) is None,
        },
        r matches Some(b) ==> forall|x: Seq<u8>| text@ == #[trigger] base64_chars(x) ==> x == b@,
{
    match base64_decode(text.as_str()) {
        Ok(b) => Some(b),
        Err(_) => None,
    }
}

/// Reads one stored message under a key.
pub fn open_message(key: &[u8; 32], message: &Message) -> (r: Result<String, ZeroTraceError>)
    ensures
        match r {
            Ok(s) => opened_text(key@, *message) == Ok::<Seq<char>, ZeroTraceError>(s@),
            Err(e) => opened_text(key@, *message) == Err::<Seq<char>, ZeroTraceError>(e),
        },
        r matches Ok(s) ==> only_opening(key@, *message, s@),
{
    let ciphertext = match decode_field(&message.ciphertext) {
        Some(c) => c,
        None => {
            return Err(ZeroTraceError::EncodingError);
        },
    };
    let nonce_bytes = match decode_field(&message.iv) {
        Some(n) => n,
        None => {
            return Err(ZeroTraceError::EncodingError);
        },
    };
    if nonce_bytes.len() != 24 {
        return Err(ZeroTraceError::EncodingError);
    }
    let mut nonce = [0u8; 24];
    let mut i: usize = 0;
    while i < 24
        invariant
            i <= 24,
            nonce_bytes@.len() == 24,
            forall|j: int| 0 <= j < i ==> nonce@[j] == nonce_bytes@[j],
        decreases 24 - i,
    {
        nonce[i] = nonce_bytes[i];
        i = i + 1;
    }
    assert(nonce@ =~= nonce_bytes@);
    let r = decrypt_message(key, ciphertext.as_slice(), &nonce);
    proof {
        if r is Ok {
            let s = r->Ok_0@;
            assert(encrypts_text(key@, nonce@, ciphertext@, s));
            assert(decrypted_text(key@, nonce@, ciphertext@) == Some(s));
            assert forall|c: Seq<u8>, n: Seq<u8>, t: Seq<char>|
                #![trigger base64_chars(c), base64_chars(n), encrypts_text(key@, n, c, t)]
                message.ciphertext@ == base64_chars(c) && message.iv@ == base64_chars(n)
                    && encrypts_text(key@, n, c, t) implies s == t by {
                assert(c == ciphertext@);
                assert(n == nonce@);
            }
        }
    }
    r
}

/// Reads a thread: every message that decrypts, in order, skipping those
/// that do not. A thread with no key gets one, as on a send.
pub fn read_decrypted(store: &mut MessageStore, thread_id: &str) -> (r: Vec<DecryptedMessage>)
    requires
        old(store).wf(),
    ensures
        final(store).wf(),
        final(store).keys_map().contains_key(thread_id@),
        old(store).keys_map().contains_key(thread_id@) ==> final(store).keys_map() == old(
            store,
        ).keys_map(),
        !old(store).keys_map().contains_key(thread_id@) ==> final(store).keys_map() == old(
            store,
        ).keys_map().insert(thread_id@, final(store).keys_map()[thread_id@]),
        final(store).messages_map() == old(store).messages_map(),
        final(store).roots_map() == old(store).roots_map(),
        final(store).thread_roots_map() == old(store).thread_roots_map(),
        final(store).nonces_map() == old(store).nonces_map(),
        r@.map_values(|d: DecryptedMessage| read_view(d)) == readable(
            final(store).keys_map()[thread_id@]@,
            old(store).messages_of(thread_id@),
        ),
        forall|k: int|
            0 <= k < r@.len() ==> exists|j: int|
                0 <= j < old(store).messages_of(thread_id@).len() && only_opening(
                    final(store).keys_map()[thread_id@]@,
                    old(store).messages_of(thread_id@)[j],
                    #[trigger] r@[k].text@,
                ),
{
    let key = store.get_or_create_key(thread_id);
    let mut out: Vec<DecryptedMessage> = Vec::new();
    let empty: Vec<Message> = Vec::new();
    let messages = match store.get_messages(thread_id) {
        Some(v) => v,
        None => &empty,
    };
    let ghost msgs = store.messages_of(thread_id@);
    assert(messages@ == msgs);
    let mut i: usize = 0;
    while i < messages.len()
        invariant
            i <= messages@.len(),
            messages@ == msgs,
            out@.map_values(|d: DecryptedMessage| read_view(d)) == readable(
                key@,
                msgs.subrange(0, i as int),
            ),
            forall|k: int|
                0 <= k < out@.len() ==> exists|j: int|
                    0 <= j < msgs.len() && only_opening(key@, msgs[j], #[trigger] out@[k].text@),
        decreases messages@.len() - i,
    {
        let m = &messages[i];
        proof {
            assert(msgs.subrange(0, i + 1).drop_last() =~= msgs.subrange(0, i as int));
            assert(msgs.subrange(0, i + 1).last() == msgs[i as int]);
        }
        match open_message(&key, m) {
            Ok(text) => {
                let d = DecryptedMessage {
                    sender: m.sender_id.clone(),
                    text,
                    timestamp: m.timestamp,
                    commitment: m.message_commitment.clone(),
                    proof_present: m.endcap.is_some(),
                };
                let ghost before = out@;
                let ghost text = d.text@;
                assert(only_opening(key@, msgs[i as int], text));
                out.push(d);
                assert(forall|k: int| 0 <= k < before.len() ==> out@[k] == before[k]);
                assert(out@[before.len() as int].text@ == text);
                assert(out@.map_values(|d: DecryptedMessage| read_view(d)) =~= before.map_values(
                    |d: DecryptedMessage| read_view(d),
                ).push(read_view(d)));
            },
            Err(_) => {},
        }
        i = i + 1;
    }
    assert(msgs.subrange(0, i as int) =~= msgs);
    proof {
        assert(msgs == old(store).messages_of(thread_id@));
        assert(key == store.keys_map()[thread_id@]);
        assert forall|k: int| 0 <= k < out@.len() implies exists|j: int|
            0 <= j < old(store).messages_of(thread_id@).len() && only_opening(
                store.keys_map()[thread_id@]@,
                old(store).messages_of(thread_id@)[j],
                #[trigger] out@[k].text@,
            ) by {
            let j = choose|j: int| 0 <= j < msgs.len() && only_opening(key@, msgs[j], out@[k].text@);
            assert(only_opening(key@, msgs[j], out@[k].text@));
        }
    }
    out
}

} // verus!

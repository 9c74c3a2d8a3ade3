//! Identities: Ed25519 keys, the identity hash derived from the public key,
//! signatures and attestations.
use vstd::prelude::*;
use vstd::utf8::encode_utf8;
use crate::clock::unix_time_secs;
use crate::commitments::hash_plaintext;
use crate::primitives::{
    append_bytes, hex_chars, hex_encode, lemma_encode_utf8_concat5, sha256, sha256_hex, sha256_of,
};
use crate::strmap::StrMap;
use crate::ZeroTraceError;

verus! {

/// Domain tag of the identity hash.
pub const IDENTITY_TAG: &'static str = "zerotrace_identity";

/// The Ed25519 public key of a 32-byte secret key.
pub uninterp spec fn ed25519_public_of(secret: Seq<u8>) -> Seq<u8>;

/// The Ed25519 signature of a message under a 32-byte secret key.
pub uninterp spec fn ed25519_signature_of(secret: Seq<u8>, message: Seq<u8>) -> Seq<u8>;

/// Whether Ed25519 verification accepts a signature of a message under a
/// public key.
pub uninterp spec fn ed25519_accepts(public: Seq<u8>, message: Seq<u8>, signature: Seq<u8>) -> bool;

/// Relies on ed25519-dalek's `SigningKey::generate` with the operating
/// system's random source; nothing is known of the secret key.
#[verifier::external_body]
fn random_secret() -> (r: [u8; 32]) {
    ed25519_dalek::SigningKey::generate(&mut rand::rngs::OsRng).to_bytes()
}

/// Relies on ed25519-dalek's `SigningKey::verifying_key`: the public key of a
/// secret key, a function of the secret key alone.
#[verifier::external_body]
fn derive_public_key(secret: &[u8; 32]) -> (r: [u8; 32])
    ensures
        r@ == ed25519_public_of(secret@),
{
    ed25519_dalek::SigningKey::from_bytes(secret).verifying_key().to_bytes()
}

/// Relies on ed25519-dalek's `Signer::sign` for `SigningKey`: the
/// deterministic signature of a message.
#[verifier::external_body]
fn ed25519_sign(secret: &[u8; 32], message: &[u8]) -> (r: [u8; 64])
    ensures
        r@ == ed25519_signature_of(secret@, message@),
{
    ed25519_dalek::Signer::sign(&ed25519_dalek::SigningKey::from_bytes(secret), message).to_bytes()
}

/// Relies on ed25519-dalek's `VerifyingKey::from_bytes` and `Verifier::verify`:
/// a signature made with a secret key is accepted under that key's public key.
#[verifier::external_body]
fn ed25519_verify(public: &[u8; 32], message: &[u8], signature: &[u8; 64]) -> (r: bool)
    ensures
        r == ed25519_accepts(public@, message@, signature@),
        (exists|s: Seq<u8>|
            s.len() == 32 && public@ == ed25519_public_of(s) && signature@ == ed25519_signature_of(
                s,
                message@,
            )) ==> r,
{
    match ed25519_dalek::VerifyingKey::from_bytes(public) {
        Ok(key) => ed25519_dalek::Verifier::verify(
            &key,
            message,
            &ed25519_dalek::Signature::from_bytes(signature),
        ).is_ok(),
        Err(_) => false,
    }
}

/// The identity hash of a public key.
pub open spec fn identity_hash_of(public: Seq<u8>) -> Seq<char> {
    sha256_hex(encode_utf8(IDENTITY_TAG@) + public)
}

/// The secret key that a seed expands to.
pub open spec fn seed_secret(seed: Seq<u8>) -> Seq<u8> {
    sha256_of(seed)
}

/// The text that an attestation's signature covers:
/// `claim:value_hash:issuer`.
pub open spec fn attestation_message(claim: Seq<char>, value_hash: Seq<char>, issuer: Seq<char>) -> Seq<char> {
    claim + seq![':'] + value_hash + seq![':'] + issuer
}

/// A public identity, as exported.
pub struct Identity {
    pub public_key: Vec<u8>,
    pub identity_hash: String,
    pub attestations: Vec<Attestation>,
}

/// A signed claim about an identity.
pub struct Attestation {
    /// Identity hash of the issuer.
    pub issuer: String,
    /// The kind of claim, such as an email address.
    pub claim: String,
    /// Hexadecimal SHA-256 of the claimed value.
    pub value_hash: String,
    /// Hexadecimal signature by the issuer.
    pub signature: String,
    pub timestamp: u64,
}

/// An identity with its secret key, and the public keys of its contacts.
pub struct IdentityManager {
    secret: [u8; 32],
    public: [u8; 32],
    identity_hash: String,
    contacts: StrMap<[u8; 32]>,
}

/// The identity hash of a public key.
fn compute_identity_hash(pubkey: &[u8]) -> (r: String)
    ensures
        r@ == identity_hash_of(pubkey@),
        r@.len() == 64,
{
    let mut buf: Vec<u8> = Vec::new();
    append_bytes(&mut buf, IDENTITY_TAG.as_bytes());
    append_bytes(&mut buf, pubkey);
    hex_encode(sha256(buf.as_slice()).as_slice())
}

impl IdentityManager {
    /// The secret key.
    pub closed spec fn secret_key(&self) -> Seq<u8> {
        self.secret@
    }

    /// The public key.
    pub closed spec fn public_key(&self) -> Seq<u8> {
        self.public@
    }

    /// The identity hash.
    pub closed spec fn hash(&self) -> Seq<char> {
        self.identity_hash@
    }

    /// Identity hash of a contact to the contact's public key.
    pub closed spec fn contacts_map(&self) -> Map<Seq<char>, [u8; 32]> {
        self.contacts@
    }

    /// The contact map's internal invariant.
    pub closed spec fn contacts_wf(&self) -> bool {
        self.contacts.wf()
    }

    /// Both keys are 32 bytes, the public key belongs to the secret key, and
    /// the identity hash, 64 hexadecimal characters, to the public key.
    pub open spec fn wf(&self) -> bool {
        &&& self.secret_key().len() == 32
        &&& self.public_key().len() == 32
        &&& self.public_key() == ed25519_public_of(self.secret_key())
        &&& self.hash() == identity_hash_of(self.public_key())
        &&& self.hash().len() == 64
        &&& self.contacts_wf()
    }

    fn from_secret(secret: [u8; 32]) -> (r: Self)
        ensures
            r.wf(),
            r.secret_key() == secret@,
            r.contacts_map() == Map::<Seq<char>, [u8; 32]>::empty(),
    {
        let public = derive_public_key(&secret);
        let identity_hash = compute_identity_hash(public.as_slice());
        IdentityManager { secret, public, identity_hash, contacts: StrMap::new() }
    }

    /// The identity of a seed: the secret key is the SHA-256 digest of the
    /// seed, so the same seed always gives the same identity.
    pub fn from_seed(seed: &[u8]) -> (r: Result<Self, ZeroTraceError>)
        ensures
            r is Ok,
            r matches Ok(m) ==> m.wf() && m.secret_key() == seed_secret(seed@) && m.contacts_map()
                == Map::<Seq<char>, [u8; 32]>::empty(),
    {
        let digest = sha256(seed);
        if digest.len() != 32 {
            return Err(ZeroTraceError::KeyDerivationError);
        }
        let mut secret = [0u8; 32];
        let mut i: usize = 0;
        while i < 32
            invariant
                i <= 32,
                digest@.len() == 32,
                forall|j: int| 0 <= j < i ==> secret@[j] == digest@[j],
            decreases 32 - i,
        {
            secret[i] = digest[i];
            i = i + 1;
        }
        assert(secret@ =~= digest@);
        Ok(Self::from_secret(secret))
    }

    /// A fresh identity with a random secret key.
    pub fn new() -> (r: Self)
        ensures
            r.wf(),
            r.contacts_map() == Map::<Seq<char>, [u8; 32]>::empty(),
    {
        Self::from_secret(random_secret())
    }

    /// The identity hash.
    pub fn get_identity_hash(&self) -> (r: &str)
        ensures
            r@ == self.hash(),
    {
        self.identity_hash.as_str()
    }

    /// The public key bytes.
    pub fn get_public_key(&self) -> (r: Vec<u8>)
        ensures
            r@ == self.public_key(),
            r@.len() == 32,
    {
        let mut r: Vec<u8> = Vec::new();
        append_bytes(&mut r, self.public.as_slice());
        r
    }

    /// Signs a message with this identity's secret key.
    pub fn sign(&self, message: &[u8]) -> (r: [u8; 64])
        ensures
            r@ == ed25519_signature_of(self.secret_key(), message@),
    {
        ed25519_sign(&self.secret, message)
    }

    /// Checks a signature of a message under a public key.
    pub fn verify(&self, message: &[u8], signature: &[u8; 64], pubkey: &[u8; 32]) -> (r: bool)
        ensures
            r == ed25519_accepts(pubkey@, message@, signature@),
            (exists|s: Seq<u8>|
                s.len() == 32 && pubkey@ == ed25519_public_of(s) && signature@
                    == ed25519_signature_of(s, message@)) ==> r,
    {
        ed25519_verify(pubkey, message, signature)
    }

    /// Records the public key of a contact.
    pub fn add_contact(&mut self, identity_hash: String, pubkey: [u8; 32])
        requires
            old(self).wf(),
        ensures
            final(self).wf(),
            final(self).contacts_map() == old(self).contacts_map().insert(identity_hash@, pubkey),
            final(self).secret_key() == old(self).secret_key(),
            final(self).hash() == old(self).hash(),
    {
        self.contacts.insert(identity_hash.as_str(), pubkey);
    }

    /// The public key of a contact, if recorded.
    pub fn get_contact(&self, identity_hash: &str) -> (r: Option<&[u8; 32]>)
        requires
            self.wf(),
        ensures
            match r {
                Some(k) => self.contacts_map().contains_key(identity_hash@) && *k
                    == self.contacts_map()[identity_hash@],
                None => !self.contacts_map().contains_key(identity_hash@),
            },
    {
        self.contacts.get(identity_hash)
    }

    /// An attestation of a claim about this identity, signed by it.
    pub fn create_attestation(&self, claim: &str, value: &str) -> (r: Attestation)
        ensures
            r.issuer@ == self.hash(),
            r.claim@ == claim@,
            r.value_hash@ == sha256_hex(encode_utf8(value@)),
            r.signature@ == hex_chars(
                ed25519_signature_of(
                    self.secret_key(),
                    encode_utf8(attestation_message(claim@, r.value_hash@, self.hash())),
                ),
            ),
    {
        let value_hash = hash_plaintext(value);
        let mut message: Vec<u8> = Vec::new();
        append_bytes(&mut message, claim.as_bytes());
        let sep = ":";
        proof {
            reveal_strlit(":");
            assert(sep@ =~= seq![':']);
        }
        append_bytes(&mut message, sep.as_bytes());
        append_bytes(&mut message, value_hash.as_str().as_bytes());
        append_bytes(&mut message, sep.as_bytes());
        append_bytes(&mut message, self.identity_hash.as_str().as_bytes());
        proof {
            lemma_encode_utf8_concat5(claim@, seq![':'], value_hash@, seq![':'], self.hash());
            assert(message@ == encode_utf8(attestation_message(claim@, value_hash@, self.hash())));
        }
        let signature = hex_encode(self.sign(message.as_slice()).as_slice());
        Attestation {
            issuer: self.identity_hash.clone(),
            claim: claim.to_owned(),
            value_hash,
            signature,
            timestamp: unix_time_secs(),
        }
    }

    /// The public identity, with no attestations.
    pub fn export(&self) -> (r: Identity)
        ensures
            r.public_key@ == self.public_key(),
            r.identity_hash@ == self.hash(),
            r.attestations@.len() == 0,
    {
        Identity {
            public_key: self.get_public_key(),
            identity_hash: self.identity_hash.clone(),
            attestations: Vec::new(),
        }
    }
}

/// Identities made from the same seed agree: the same secret key, public key
/// and identity hash, and so the same signature of every message; that
/// signature is one that verification under their shared public key accepts.
pub proof fn lemma_seed_identity_deterministic(
    a: IdentityManager,
    b: IdentityManager,
    seed: Seq<u8>,
    message: Seq<u8>,
)
    requires
        a.wf(),
        b.wf(),
        a.secret_key() == seed_secret(seed),
        b.secret_key() == seed_secret(seed),
    ensures
        a.hash() == b.hash(),
        a.public_key() == b.public_key(),
        ed25519_signature_of(a.secret_key(), message) == ed25519_signature_of(b.secret_key(), message),
        exists|s: Seq<u8>|
            s.len() == 32 && b.public_key() == ed25519_public_of(s) && ed25519_signature_of(
                a.secret_key(),
                message,
            ) == ed25519_signature_of(s, message),
{
    assert(b.public_key() == ed25519_public_of(b.secret_key()));
}

} // verus!

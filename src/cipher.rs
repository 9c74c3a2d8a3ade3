//! Authenticated encryption of message text, and the random values it needs.
use vstd::prelude::*;
use vstd::utf8::{decode_utf8, valid_utf8};

verus! {

/// The ciphertext (with its tag) that XChaCha20-Poly1305 makes of a
/// plaintext under a key and a nonce, with no associated data.
pub uninterp spec fn aead_seal(key: Seq<u8>, nonce: Seq<u8>, plaintext: Seq<u8>) -> Seq<u8>;

/// A plaintext of `len` bytes stays below the cipher's limit of 2^32 - 1
/// blocks of 64 bytes.
pub open spec fn within_block_limit(len: nat) -> bool {
    len / 64 < 0xffff_ffff
}

#[verifier::external_type_specification]
#[verifier::external_body]
pub struct ExAeadError(chacha20poly1305::Error);

#[verifier::external_type_specification]
#[verifier::external_body]
pub struct ExFromUtf8Error(std::string::FromUtf8Error);

/// Relies on `rand::thread_rng` filling 32 bytes; nothing is known of them.
#[verifier::external_body]
pub(crate) fn random_key() -> (r: [u8; 32]) {
    let mut key = [0u8; 32];
    rand::RngCore::fill_bytes(&mut rand::thread_rng(), &mut key);
    key
}

/// Relies on `AeadCore::generate_nonce` with the operating system's random
/// source: a fresh 24-byte nonce; nothing is known of it.
#[verifier::external_body]
pub(crate) fn random_nonce() -> (r: [u8; 24]) {
    <chacha20poly1305::XChaCha20Poly1305 as chacha20poly1305::AeadCore>::generate_nonce(
        &mut chacha20poly1305::aead::OsRng,
    ).into()
}

/// Relies on `Aead::encrypt` of `XChaCha20Poly1305`: it fails only when the
/// plaintext reaches 2^32 - 1 blocks of 64 bytes, and appends a 16-byte tag.
#[verifier::external_body]
pub(crate) fn aead_encrypt(key: &[u8; 32], nonce: &[u8; 24], plaintext: &[u8]) -> (r: Result<
    Vec<u8>,
    chacha20poly1305::Error,
>)
    ensures
        r is Ok <==> within_block_limit(plaintext@.len()),
        r is Ok ==> r->Ok_0@ == aead_seal(key@, nonce@, plaintext@),
        r is Ok ==> r->Ok_0@.len() == plaintext@.len() + 16,
{
    let cipher = <chacha20poly1305::XChaCha20Poly1305 as chacha20poly1305::KeyInit>::new(
        key.into(),
    );
    chacha20poly1305::aead::Aead::encrypt(&cipher, nonce.into(), plaintext)
}

/// Relies on `Aead::decrypt` of `XChaCha20Poly1305`: it succeeds exactly on a
/// ciphertext that encrypting some plaintext within the block limit under the
/// same key and nonce gives, and returns that plaintext.
#[verifier::external_body]
pub(crate) fn aead_decrypt(key: &[u8; 32], nonce: &[u8; 24], ciphertext: &[u8]) -> (r: Result<
    Vec<u8>,
    chacha20poly1305::Error,
>)
    ensures
        match r {
            Ok(p) => within_block_limit(p@.len()) && ciphertext@ == aead_seal(key@, nonce@, p@),
            Err(_) => forall|p: Seq<u8>|
                within_block_limit(p.len()) ==> ciphertext@ != #[trigger] aead_seal(key@, nonce@, p),
        },
        forall|p: Seq<u8>|
            within_block_limit(p.len()) && ciphertext@ == #[trigger] aead_seal(key@, nonce@, p) ==> (
            r is Ok && r->Ok_0@ == p),
{
    let cipher = <chacha20poly1305::XChaCha20Poly1305 as chacha20poly1305::KeyInit>::new(
        key.into(),
    );
    chacha20poly1305::aead::Aead::decrypt(&cipher, nonce.into(), ciphertext)
}

/// Relies on `String::from_utf8`: it succeeds exactly on valid UTF-8 and
/// returns the text that the bytes encode.
#[verifier::external_body]
pub(crate) fn utf8_text(bytes: Vec<u8>) -> (r: Result<String, std::string::FromUtf8Error>)
    ensures
        r is Ok <==> valid_utf8(bytes@),
        r is Ok ==> r->Ok_0@ == decode_utf8(bytes@),
{
    String::from_utf8(bytes)
}

} // verus!

//! AES-256-GCM sealing and opening (the `aes-gcm` crate).
use vstd::prelude::*;

use aes_gcm::aead::{Aead, AeadCore, KeyInit, OsRng};

verus! {

/// The ciphertext-plus-tag that AES-256-GCM produces for `plaintext` under
/// `key` and `nonce` (no associated data).
pub uninterp spec fn aes_gcm_sealed(key: Seq<u8>, nonce: Seq<u8>, plaintext: Seq<u8>) -> Seq<u8>;

/// The plaintext that AES-256-GCM recovers from `ciphertext` under `key` and
/// `nonce`, or `None` when the tag does not authenticate.
pub uninterp spec fn aes_gcm_opened(key: Seq<u8>, nonce: Seq<u8>, ciphertext: Seq<u8>) -> Option<Seq<u8>>;

/// `Aes256Gcm::encrypt` with a 32-byte key and 12-byte nonce.  Claims: the
/// call succeeds exactly for plaintexts of at most 2^36 bytes (the crate's
/// `P_MAX`), the output is the plaintext length plus the 16-byte tag, and
/// opening it with the same key and nonce gives the plaintext back.
#[verifier::external_body]
pub(crate) fn aes_gcm_seal(key: &[u8], nonce: &[u8], plaintext: &[u8]) -> (r: Option<Vec<u8>>)
    requires
        key@.len() == 32,
        nonce@.len() == 12,
    ensures
        r is Some <==> plaintext@.len() <= 0x1000000000,
        r matches Some(c) ==> {
            &&& c@ == aes_gcm_sealed(key@, nonce@, plaintext@)
            &&& c@.len() == plaintext@.len() + 16
            &&& aes_gcm_opened(key@, nonce@, c@) == Some(plaintext@)
        },
{
    let cipher = aes_gcm::Aes256Gcm::new_from_slice(key).expect("32-byte key");
    cipher.encrypt(aes_gcm::Nonce::from_slice(nonce), plaintext).ok()
}

/// `Aes256Gcm::decrypt` with a 32-byte key and 12-byte nonce.  Claims only
/// that the result is the named opening of the inputs.
#[verifier::external_body]
pub(crate) fn aes_gcm_open(key: &[u8], nonce: &[u8], ciphertext: &[u8]) -> (r: Option<Vec<u8>>)
    requires
        key@.len() == 32,
        nonce@.len() == 12,
    ensures
        match aes_gcm_opened(key@, nonce@, ciphertext@) {
            Some(p) => r matches Some(v) && v@ == p,
            None => r is None,
        },
{
    let cipher = aes_gcm::Aes256Gcm::new_from_slice(key).expect("32-byte key");
    cipher.decrypt(aes_gcm::Nonce::from_slice(nonce), ciphertext).ok()
}

/// `Aes256Gcm::generate_nonce(OsRng)`: 12 random bytes.  Only the length is
/// claimed; the bytes come from the operating system's generator.
#[verifier::external_body]
pub(crate) fn generate_nonce() -> (r: Vec<u8>)
    ensures
        r@.len() == 12,
{
    aes_gcm::Aes256Gcm::generate_nonce(&mut OsRng).to_vec()
}

} // verus!

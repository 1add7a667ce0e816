//! Application-layer field encryption (AES-256-GCM) and display masking.
//!
//! A ciphertext blob is self-contained: `nonce (12 bytes) || ciphertext + tag`.
//! Decryption tries the current key first and falls back to the previous key
//! during a key rotation; encryption always uses the current key.
pub mod aead;
pub mod digest;
pub mod hex;
pub mod mask;

use vstd::prelude::*;
use vstd::string::StringSliceAdditionalSpecFns;

use crate::crypto::aead::{aes_gcm_open, aes_gcm_opened, aes_gcm_seal, aes_gcm_sealed, generate_nonce};
use crate::crypto::hex::{hex_decode, hex_decoded, hex_decodable};
use crate::text::{chars_of, decimal, push_chars, push_str, string_of, usize_to_string};
use crate::utf8::{utf8_decode, utf8_decoded};

pub use crate::crypto::mask::{mask_account_number, mask_card_last4, mask_email, mask_ip};

verus! {

/// Errors of the field encryptor.
#[derive(Debug, PartialEq, Eq)]
pub enum CryptoError {
    /// The key text is not 64 hex characters; carries the reason.
    InvalidKey(String),
    EncryptFailed,
    DecryptFailed,
}

/// Length of the nonce that prefixes every blob.
pub const NONCE_LEN: usize = 12;

/// The largest plaintext, in bytes, that AES-GCM accepts.
pub open spec fn max_plaintext_len() -> nat {
    0x1000000000
}

/// What `cipher_from_hex` yields for a key text: the 32 key bytes, or the
/// reason the text was refused.
pub open spec fn key_from_hex(text: &str) -> Result<Seq<u8>, Seq<char>> {
    if text.spec_bytes().len() != 64 {
        Err("got "@ + decimal(text.spec_bytes().len()) + " characters, need 64"@)
    } else if !hex_decodable(text@) {
        Err("non-hex characters present"@)
    } else {
        Ok(hex_decoded(text@))
    }
}

/// Decrypting `data` with key `current` and, failing that, `previous`.
pub open spec fn decrypt_with(current: Seq<u8>, previous: Option<Seq<u8>>, data: Seq<u8>) -> Option<Seq<u8>> {
    if data.len() < 12 {
        None
    } else {
        let nonce = data.take(12);
        let ct = data.skip(12);
        match aes_gcm_opened(current, nonce, ct) {
            Some(p) => Some(p),
            None => match previous {
                Some(k) => aes_gcm_opened(k, nonce, ct),
                None => None,
            },
        }
    }
}

/// `blob` is `plaintext` sealed under `key`: a 12-byte nonce followed by the
/// AES-256-GCM output for that nonce, which `current` and `previous` open.
pub open spec fn sealed_blob(key: Seq<u8>, previous: Option<Seq<u8>>, plaintext: Seq<u8>, blob: Seq<u8>) -> bool {
    &&& blob.len() == 12 + plaintext.len() + 16
    &&& blob.skip(12) == aes_gcm_sealed(key, blob.take(12), plaintext)
    &&& decrypt_with(key, previous, blob) == Some(plaintext)
}

/// Key rotation keeps old data readable: a blob that key `old` opens is
/// opened to the same plaintext by an encryptor whose current key is `new`
/// and whose previous key is `old`, unless `new` opens the blob itself.
pub proof fn law_previous_key_fallback(new: Seq<u8>, old: Seq<u8>, data: Seq<u8>)
    requires
        decrypt_with(old, None, data) is Some,
        data.len() >= 12 ==> aes_gcm_opened(new, data.take(12), data.skip(12)) is None,
    ensures
        decrypt_with(new, Some(old), data) == decrypt_with(old, None, data),
{
}

/// AES-256-GCM field encryptor holding the current key and, during a
/// rotation, the previous one.
pub struct FieldEncryptor {
    current: Vec<u8>,
    previous: Option<Vec<u8>>,
}

impl FieldEncryptor {
    /// The current key bytes.
    pub closed spec fn current_key(&self) -> Seq<u8> {
        self.current@
    }

    /// The previous key bytes, if a rotation is in progress.
    pub closed spec fn previous_key(&self) -> Option<Seq<u8>> {
        match self.previous {
            Some(k) => Some(k@),
            None => None,
        }
    }

    /// Keys are 32 bytes long.
    pub closed spec fn wf(&self) -> bool {
        &&& self.current@.len() == 32
        &&& (self.previous matches Some(k) ==> k@.len() == 32)
    }

    /// Build from a 64-hex-character key text (32 bytes, AES-256).
    pub fn from_hex_key(hex: &str) -> (r: Result<Self, CryptoError>)
        ensures
            match key_from_hex(hex) {
                Ok(k) => r matches Ok(e) && e.wf() && e.current_key() == k && e.previous_key() is None,
                Err(msg) => r matches Err(CryptoError::InvalidKey(m)) && m@ == msg,
            },
    {
        match cipher_from_hex(hex) {
            Ok(k) => Ok(FieldEncryptor { current: k, previous: None }),
            Err(e) => Err(e),
        }
    }

    /// Register a previous key to support an in-flight key rotation.
    pub fn with_previous_key(self, prev_hex: &str) -> (r: Result<Self, CryptoError>)
        requires
            self.wf(),
        ensures
            match key_from_hex(prev_hex) {
                Ok(k) => r matches Ok(e) && e.wf() && e.current_key() == self.current_key()
                    && e.previous_key() == Some(k),
                Err(msg) => r matches Err(CryptoError::InvalidKey(m)) && m@ == msg,
            },
    {
        match cipher_from_hex(prev_hex) {
            Ok(k) => Ok(FieldEncryptor { current: self.current, previous: Some(k) }),
            Err(e) => Err(e),
        }
    }

    /// Encrypt arbitrary bytes with a fresh random nonce.  Returns
    /// `nonce[12] || ciphertext+tag[n+16]`.
    pub fn encrypt_bytes(&self, plaintext: &[u8]) -> (r: Result<Vec<u8>, CryptoError>)
        requires
            self.wf(),
        ensures
            plaintext@.len() <= max_plaintext_len() <==> r is Ok,
            r is Err ==> r == Err::<Vec<u8>, CryptoError>(CryptoError::EncryptFailed),
            r matches Ok(out) ==> sealed_blob(self.current_key(), self.previous_key(), plaintext@, out@),
    {
        let nonce = generate_nonce();
        match aes_gcm_seal(self.current.as_slice(), nonce.as_slice(), plaintext) {
            Some(ct) => {
                let mut out: Vec<u8> = Vec::new();
                let mut i: usize = 0;
                while i < nonce.len()
                    invariant
                        i <= nonce@.len(),
                        out@ == nonce@.take(i as int),
                    decreases nonce.len() - i,
                {
                    out.push(nonce[i]);
                    i = i + 1;
                    assert(out@ =~= nonce@.take(i as int));
                }
                let mut j: usize = 0;
                while j < ct.len()
                    invariant
                        j <= ct@.len(),
                        nonce@.len() == 12,
                        out@ == nonce@ + ct@.take(j as int),
                    decreases ct.len() - j,
                {
                    out.push(ct[j]);
                    j = j + 1;
                    assert(out@ =~= nonce@ + ct@.take(j as int));
                }
                assert(nonce@.take(12) =~= nonce@);
                assert(ct@.take(ct@.len() as int) =~= ct@);
                assert(out@.take(12) =~= nonce@);
                assert(out@.skip(12) =~= ct@);
                Ok(out)
            },
            None => Err(CryptoError::EncryptFailed),
        }
    }

    /// Decrypt a blob produced by [`FieldEncryptor::encrypt_bytes`], trying the
    /// current key first and the previous key second.
    pub fn decrypt_bytes(&self, data: &[u8]) -> (r: Result<Vec<u8>, CryptoError>)
        requires
            self.wf(),
        ensures
            match decrypt_with(self.current_key(), self.previous_key(), data@) {
                Some(p) => r matches Ok(v) && v@ == p,
                None => r == Err::<Vec<u8>, CryptoError>(CryptoError::DecryptFailed),
            },
    {
        if data.len() < 12 {
            return Err(CryptoError::DecryptFailed);
        }
        let mut nonce: Vec<u8> = Vec::new();
        let mut ct: Vec<u8> = Vec::new();
        let mut i: usize = 0;
        while i < data.len()
            invariant
                12 <= data@.len(),
                i <= data@.len(),
                i <= 12 ==> nonce@ == data@.take(i as int) && ct@.len() == 0,
                i > 12 ==> nonce@ == data@.take(12) && ct@ == data@.subrange(12, i as int),
            decreases data.len() - i,
        {
            if i < 12 {
                nonce.push(data[i]);
            } else {
                ct.push(data[i]);
            }
            i = i + 1;
            assert(i <= 12 ==> nonce@ =~= data@.take(i as int));
            assert(i > 12 ==> ct@ =~= data@.subrange(12, i as int));
        }
        assert(ct@ =~= data@.skip(12)) by {
            if data@.len() == 12 {
                assert(ct@.len() == 0);
            }
        }
        if let Some(p) = aes_gcm_open(self.current.as_slice(), nonce.as_slice(), ct.as_slice()) {
            return Ok(p);
        }
        match &self.previous {
            Some(k) => match aes_gcm_open(k.as_slice(), nonce.as_slice(), ct.as_slice()) {
                Some(p) => Ok(p),
                None => Err(CryptoError::DecryptFailed),
            },
            None => Err(CryptoError::DecryptFailed),
        }
    }

    /// Encrypt a UTF-8 string field.
    pub fn encrypt(&self, plaintext: &str) -> (r: Result<Vec<u8>, CryptoError>)
        requires
            self.wf(),
        ensures
            plaintext.spec_bytes().len() <= max_plaintext_len() <==> r is Ok,
            r is Err ==> r == Err::<Vec<u8>, CryptoError>(CryptoError::EncryptFailed),
            r matches Ok(out) ==> sealed_blob(self.current_key(), self.previous_key(), plaintext.spec_bytes(), out@),
    {
        self.encrypt_bytes(plaintext.as_bytes())
    }

    /// Decrypt a UTF-8 string field.
    pub fn decrypt(&self, data: &[u8]) -> (r: Result<String, CryptoError>)
        requires
            self.wf(),
        ensures
            match decrypt_with(self.current_key(), self.previous_key(), data@) {
                Some(p) => match utf8_decoded(p) {
                    Some(s) => r matches Ok(t) && t@ == s,
                    None => r == Err::<String, CryptoError>(CryptoError::DecryptFailed),
                },
                None => r == Err::<String, CryptoError>(CryptoError::DecryptFailed),
            },
    {
        let bytes = self.decrypt_bytes(data)?;
        match utf8_decode(bytes.as_slice()) {
            Some(s) => Ok(s),
            None => Err(CryptoError::DecryptFailed),
        }
    }

    /// Encrypt an optional string field; `None` stays `None`.
    pub fn encrypt_opt(&self, val: Option<&str>) -> (r: Result<Option<Vec<u8>>, CryptoError>)
        requires
            self.wf(),
        ensures
            val is None ==> r == Ok::<Option<Vec<u8>>, CryptoError>(None),
            val matches Some(v) ==> (v.spec_bytes().len() <= max_plaintext_len() <==> r is Ok),
            val matches Some(v) ==> (r is Err ==> r == Err::<Option<Vec<u8>>, CryptoError>(CryptoError::EncryptFailed)),
            val matches Some(v) ==> (r matches Ok(o) ==> o matches Some(out)
                && sealed_blob(self.current_key(), self.previous_key(), v.spec_bytes(), out@)),
    {
        match val {
            Some(v) => {
                let c = self.encrypt(v)?;
                Ok(Some(c))
            },
            None => Ok(None),
        }
    }

    /// Decrypt an optional blob; `None` stays `None`.
    pub fn decrypt_opt(&self, val: Option<&[u8]>) -> (r: Result<Option<String>, CryptoError>)
        requires
            self.wf(),
        ensures
            val is None ==> r == Ok::<Option<String>, CryptoError>(None),
            val matches Some(b) ==> match decrypt_with(self.current_key(), self.previous_key(), b@) {
                Some(p) => match utf8_decoded(p) {
                    Some(s) => r matches Ok(Some(t)) && t@ == s,
                    None => r == Err::<Option<String>, CryptoError>(CryptoError::DecryptFailed),
                },
                None => r == Err::<Option<String>, CryptoError>(CryptoError::DecryptFailed),
            },
    {
        match val {
            Some(b) => {
                let s = self.decrypt(b)?;
                Ok(Some(s))
            },
            None => Ok(None),
        }
    }
}

/// Decode a 64-hex-character key text into the 32 key bytes.
fn cipher_from_hex(hex: &str) -> (r: Result<Vec<u8>, CryptoError>)
    ensures
        match key_from_hex(hex) {
            Ok(k) => r matches Ok(v) && v@ == k && k.len() == 32,
            Err(msg) => r matches Err(CryptoError::InvalidKey(m)) && m@ == msg,
        },
{
    let n = hex.as_bytes().len();
    if n != 64 {
        let mut msg: Vec<char> = Vec::new();
        push_str(&mut msg, "got ");
        let d = usize_to_string(n);
        let dc = chars_of(d.as_str());
        push_chars(&mut msg, dc.as_slice());
        push_str(&mut msg, " characters, need 64");
        return Err(CryptoError::InvalidKey(string_of(msg.as_slice())));
    }
    match hex_decode(hex) {
        Some(k) => {
            proof {
                crate::crypto::hex::lemma_decoded_len(hex@);
                crate::utf8::lemma_ascii_hex_byte_len(hex);
            }
            Ok(k)
        },
        None => {
            let msg = string_of(chars_of("non-hex characters present").as_slice());
            Err(CryptoError::InvalidKey(msg))
        },
    }
}

} // verus!

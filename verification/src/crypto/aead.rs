//! AES-256-GCM encryption of individual secret values.
//!
//! Every [`encrypt`] call draws a fresh 96-bit nonce from the OS CSPRNG;
//! [`decrypt`] authenticates the GCM tag before releasing any plaintext.
use vstd::prelude::*;
use aes_gcm::aead::{Aead, AeadCore, KeyInit, OsRng};
use aes_gcm::aead::generic_array::GenericArray;
use aes_gcm::Aes256Gcm;
use crate::crypto::error::CryptoError;

verus! {

/// The opaque error type of the `aead` traits implemented by `aes-gcm`.
#[verifier::external_type_specification]
#[verifier::external_body]
pub struct ExAeadError(aes_gcm::Error);

/// Largest plaintext (in bytes) that AES-256-GCM accepts: 2^36.
pub const AES_GCM_MAX_PLAINTEXT: u64 = 68719476736u64;

/// AES-256-GCM ciphertext (with its 16-byte tag appended) of `plaintext`
/// under `key` and `nonce`, with empty associated data.
pub uninterp spec fn spec_aes256gcm_seal(key: Seq<u8>, nonce: Seq<u8>, plaintext: Seq<u8>) -> Seq<u8>;

/// AES-256-GCM authenticated decryption of `ciphertext` under `key` and
/// `nonce` (empty associated data): the plaintext when the tag verifies.
pub uninterp spec fn spec_aes256gcm_open(key: Seq<u8>, nonce: Seq<u8>, ciphertext: Seq<u8>) -> Option<Seq<u8>>;

/// Trusted: `Aead::encrypt` of `aes_gcm::Aes256Gcm` keyed with `key`.
///
/// Claims: it fails only when the plaintext exceeds 2^36 bytes (the check in
/// `encrypt_in_place_detached`), the result is the AES-GCM ciphertext named
/// by [`spec_aes256gcm_seal`], and authenticated decryption of that
/// ciphertext with the same key and nonce gives the plaintext back (the AEAD
/// correctness that the `aead` traits document). The ciphertext is the
/// plaintext's length plus the 16-byte tag that `Aead::encrypt` appends.
#[verifier::external_body]
fn aes256gcm_encrypt(key: &[u8; 32], nonce: &[u8; 12], plaintext: &[u8]) -> (r: Result<Vec<u8>, aes_gcm::Error>)
    ensures
        (r is Ok) == (plaintext@.len() <= AES_GCM_MAX_PLAINTEXT),
        r matches Ok(ct) ==> {
            &&& ct@ == spec_aes256gcm_seal(key@, nonce@, plaintext@)
            &&& ct@.len() == plaintext@.len() + 16
            &&& spec_aes256gcm_open(key@, nonce@, ct@) == Some(plaintext@)
        },
{
    let cipher = Aes256Gcm::new(GenericArray::from_slice(key));
    cipher.encrypt(GenericArray::from_slice(nonce), plaintext)
}

/// Trusted: `Aead::decrypt` of `aes_gcm::Aes256Gcm` keyed with `key`.
///
/// Claims: the call succeeds exactly when [`spec_aes256gcm_open`] gives a
/// plaintext, and then returns it. `GenericArray::from_slice` panics unless
/// the nonce has 12 bytes, so that is required.
#[verifier::external_body]
fn aes256gcm_decrypt(key: &[u8; 32], nonce: &[u8], ciphertext: &[u8]) -> (r: Result<Vec<u8>, aes_gcm::Error>)
    requires
        nonce@.len() == 12,
    ensures
        match spec_aes256gcm_open(key@, nonce@, ciphertext@) {
            Some(p) => r matches Ok(v) && v@ == p,
            None => r is Err,
        },
{
    let cipher = Aes256Gcm::new(GenericArray::from_slice(key));
    cipher.decrypt(GenericArray::from_slice(nonce), ciphertext)
}

/// Trusted: `AeadCore::generate_nonce` with `OsRng`. The 12 bytes come from
/// the OS CSPRNG; nothing is promised of their value.
#[verifier::external_body]
fn random_nonce() -> (n: [u8; 12]) {
    Aes256Gcm::generate_nonce(&mut OsRng).into()
}

/// The output of a single [`encrypt`] call: ciphertext (tag appended) and
/// the nonce it was produced with. Both are persisted.
pub struct EncryptedSecret {
    /// AES-256-GCM ciphertext with the 16-byte GCM tag appended.
    pub ciphertext: Vec<u8>,
    /// The 12-byte random nonce used for this encryption.
    pub nonce: [u8; 12],
}

/// What [`decrypt`] returns for `key`, `ciphertext` and `nonce`.
pub open spec fn decrypt_outcome(key: Seq<u8>, ciphertext: Seq<u8>, nonce: Seq<u8>) -> Result<Seq<u8>, CryptoError> {
    if nonce.len() != 12 {
        Err(CryptoError::InvalidNonce)
    } else {
        match spec_aes256gcm_open(key, nonce, ciphertext) {
            Some(p) => Ok(p),
            None => Err(CryptoError::DecryptionFailed),
        }
    }
}

/// Whether a `decrypt` result agrees with [`decrypt_outcome`].
pub open spec fn matches_decrypt_outcome(r: Result<Vec<u8>, CryptoError>, o: Result<Seq<u8>, CryptoError>) -> bool {
    match o {
        Ok(p) => r matches Ok(v) && v@ == p,
        Err(CryptoError::InvalidNonce) => r matches Err(CryptoError::InvalidNonce),
        Err(_) => r matches Err(CryptoError::DecryptionFailed),
    }
}

/// Encrypts `plaintext` with AES-256-GCM under a fresh random nonce.
///
/// Succeeds for every plaintext up to 2^36 bytes; decrypting the result with
/// the same key gives `plaintext` back.
pub fn encrypt(key: &[u8; 32], plaintext: &[u8]) -> (r: Result<EncryptedSecret, CryptoError>)
    ensures
        (r is Ok) == (plaintext@.len() <= AES_GCM_MAX_PLAINTEXT),
        r is Err ==> r matches Err(CryptoError::EncryptionFailed),
        r matches Ok(s) ==> {
            &&& s.ciphertext@ == spec_aes256gcm_seal(key@, s.nonce@, plaintext@)
            &&& s.ciphertext@.len() == plaintext@.len() + 16
            &&& decrypt_outcome(key@, s.ciphertext@, s.nonce@) == Ok::<Seq<u8>, CryptoError>(plaintext@)
        },
{
    let nonce = random_nonce();
    match aes256gcm_encrypt(key, &nonce, plaintext) {
        Ok(ciphertext) => Ok(EncryptedSecret { ciphertext, nonce }),
        Err(_) => Err(CryptoError::EncryptionFailed),
    }
}

/// Decrypts `ciphertext` and verifies its GCM authentication tag.
///
/// Fails with `InvalidNonce` unless the nonce has exactly 12 bytes, and with
/// `DecryptionFailed` when the tag does not verify (wrong key, tampered
/// ciphertext or wrong nonce).
pub fn decrypt(key: &[u8; 32], ciphertext: &[u8], nonce: &[u8]) -> (r: Result<Vec<u8>, CryptoError>)
    ensures
        matches_decrypt_outcome(r, decrypt_outcome(key@, ciphertext@, nonce@)),
{
    if nonce.len() != 12 {
        return Err(CryptoError::InvalidNonce);
    }
    match aes256gcm_decrypt(key, nonce, ciphertext) {
        Ok(p) => Ok(p),
        Err(_) => Err(CryptoError::DecryptionFailed),
    }
}

} // verus!

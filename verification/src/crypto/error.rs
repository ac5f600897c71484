//! Error surface of the cryptography layer.
use vstd::prelude::*;

verus! {

/// All errors that can be returned by the cryptography layer.
#[derive(Debug)]
pub enum CryptoError {
    /// No master key entry exists in the OS credential store.
    KeyNotFound,
    /// A key entry exists but is not the encoding of 32 bytes.
    KeyCorrupted,
    /// The OS credential manager could not be reached (diagnostic text).
    KeyringUnavailable(String),
    /// AES-256-GCM encryption failed.
    EncryptionFailed,
    /// AES-256-GCM decryption or tag verification failed.
    DecryptionFailed,
    /// The nonce passed to `decrypt` was not exactly 12 bytes.
    InvalidNonce,
}

/// The user-facing text of a [`CryptoError`].
pub open spec fn crypto_error_text(e: CryptoError) -> Seq<char> {
    match e {
        CryptoError::KeyNotFound => "no master key found in the OS credential store"@,
        CryptoError::KeyCorrupted =>
            "master key in credential store has invalid length (expected 32 bytes)"@,
        CryptoError::KeyringUnavailable(msg) => "OS credential manager is unavailable: "@ + msg@,
        CryptoError::EncryptionFailed => "encryption failed"@,
        CryptoError::DecryptionFailed => "decryption failed: ciphertext is invalid or key is wrong"@,
        CryptoError::InvalidNonce => "nonce must be exactly 12 bytes"@,
    }
}

impl CryptoError {
    /// Renders the error as the text shown to users.
    pub fn message(&self) -> (s: String)
        ensures
            s@ == crypto_error_text(*self),
    {
        match self {
            CryptoError::KeyNotFound => "no master key found in the OS credential store".to_string(),
            CryptoError::KeyCorrupted =>
                "master key in credential store has invalid length (expected 32 bytes)".to_string(),
            CryptoError::KeyringUnavailable(msg) => {
                let mut s = "OS credential manager is unavailable: ".to_string();
                crate::text::push_str(&mut s, msg.as_str());
                s
            },
            CryptoError::EncryptionFailed => "encryption failed".to_string(),
            CryptoError::DecryptionFailed =>
                "decryption failed: ciphertext is invalid or key is wrong".to_string(),
            CryptoError::InvalidNonce => "nonce must be exactly 12 bytes".to_string(),
        }
    }
}

} // verus!

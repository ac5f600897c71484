//! Cryptography layer: AES-256-GCM secrets, artifact envelopes, master-key
//! encoding and passphrase helpers.
pub mod aead;
pub mod artifact;
pub mod diceware;
pub mod error;
pub mod keyring;
pub mod strength;

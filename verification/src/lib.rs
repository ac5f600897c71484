//! Envy — a local-first encrypted environment-variable manager.
//!
//! The library is split in four layers: `crypto` (AEAD, artifact envelopes,
//! master-key encoding, passphrase strength), `db` (record types and error
//! surface of the vault store), `engine` (secret orchestration, diff, sync
//! status, artifact sealing and unsealing) and `cli` (error mapping, output
//! rendering, time formatting and the interactive-session helpers).
pub mod text;
pub mod pairs;
pub mod crypto;
pub mod engine;
pub mod db;
pub mod cli;

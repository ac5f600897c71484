//! Core layer: secret orchestration, diffing, sync status and the sealing
//! and unsealing of the sync artifact.
pub mod diff;
pub mod sync;
pub mod error;
pub mod status;
pub mod ops;
pub mod audit;
pub mod manifest;
pub mod scan;
pub mod discover;

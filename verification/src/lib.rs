//! Metadata registry for off-chain-stored files.
//!
//! Each owner has one storage summary (aggregate file count and bytes used)
//! and any number of per-file records, located in a keyed store through a
//! deterministic address derivation. The registry stores no file bytes: it
//! tracks ownership, size accounting, visibility, and access statistics, and
//! decides who may read or mutate a record.

pub mod accounting;
pub mod accounts;
pub mod address;
pub mod bytes;
pub mod errors;
pub mod identity;
pub mod registry;

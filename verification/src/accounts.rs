//! The two persisted record kinds, the read-only snapshots returned to
//! callers, and the events emitted on successful mutations.

use vstd::prelude::*;
use crate::identity::{Identity, IDENTITY_LEN};

verus! {

/// Longest accepted `file_hash`, in bytes.
pub const MAX_FILE_HASH_LEN: usize = 64;

/// Longest accepted `file_name`, in bytes.
pub const MAX_FILE_NAME_LEN: usize = 100;

/// Longest accepted `storage_locator`, in bytes.
pub const MAX_STORAGE_LOCATOR_LEN: usize = 100;

/// Longest accepted `encryption_key`, in bytes.
pub const MAX_ENCRYPTION_KEY_LEN: usize = 252;

/// One owner's aggregate accounting record: how many live file records the
/// owner has, and the sum of their sizes.
pub struct StorageAccount {
    pub owner: Identity,
    pub total_files: u32,
    pub total_storage_used: u64,
}

impl StorageAccount {
    pub open spec fn wf(self) -> bool {
        self.owner@.len() == IDENTITY_LEN
    }
}

/// One live file's metadata record. The registry holds no file bytes; the
/// `storage_locator` points into the external content-addressed store.
pub struct FileAccount {
    pub owner: Identity,
    pub file_hash: Vec<u8>,
    pub file_name: Vec<u8>,
    pub file_size: u64,
    pub storage_locator: Vec<u8>,
    pub encryption_key: Option<Vec<u8>>,
    pub upload_timestamp: i64,
    pub is_public: bool,
    pub access_count: u64,
}

/// The encryption key as an optional byte sequence.
pub open spec fn key_view(key: Option<Vec<u8>>) -> Option<Seq<u8>> {
    match key {
        Some(k) => Some(k@),
        None => None,
    }
}

impl FileAccount {
    /// Field bounds every stored file record satisfies: the string fields
    /// are within their byte budgets and the size is positive.
    pub open spec fn wf(self) -> bool {
        &&& self.owner@.len() == IDENTITY_LEN
        &&& self.file_hash@.len() <= MAX_FILE_HASH_LEN
        &&& self.file_name@.len() <= MAX_FILE_NAME_LEN
        &&& self.storage_locator@.len() <= MAX_STORAGE_LOCATOR_LEN
        &&& (self.encryption_key matches Some(k) ==> k@.len() <= MAX_ENCRYPTION_KEY_LEN)
        &&& self.file_size > 0
    }
}

/// Read-only snapshot of a file record, returned by a successful download.
#[derive(Debug)]
pub struct FileInfo {
    pub owner: Identity,
    pub file_hash: Vec<u8>,
    pub file_name: Vec<u8>,
    pub file_size: u64,
    pub storage_locator: Vec<u8>,
    pub upload_timestamp: i64,
    pub is_public: bool,
    pub access_count: u64,
}

/// Read-only snapshot of a storage summary.
#[derive(Debug)]
pub struct StorageInfo {
    pub owner: Identity,
    pub total_files: u32,
    pub total_storage_used: u64,
}

/// Event produced by a successful upload.
#[derive(Debug)]
pub struct FileUploaded {
    pub owner: Identity,
    pub file_hash: Vec<u8>,
    pub file_name: Vec<u8>,
    pub file_size: u64,
    pub timestamp: i64,
}

/// Event produced by a successful download.
#[derive(Debug)]
pub struct FileAccessed {
    pub accessor: Identity,
    pub file_hash: Vec<u8>,
    pub timestamp: i64,
}

/// Event produced by a successful delete.
#[derive(Debug)]
pub struct FileDeleted {
    pub owner: Identity,
    pub file_hash: Vec<u8>,
    pub timestamp: i64,
}

/// Event produced by a successful visibility change.
#[derive(Debug)]
pub struct FileShared {
    pub owner: Identity,
    pub file_hash: Vec<u8>,
    pub is_public: bool,
    pub timestamp: i64,
}

} // verus!

use dcloud_storage::accounts::{FileInfo, StorageInfo};
use dcloud_storage::errors::{StorageError, ValidationField};
use dcloud_storage::identity::Identity;
use dcloud_storage::registry::StorageRegistry;

fn id(b: u8) -> Identity {
    Identity::from_bytes(vec![b; 32]).unwrap()
}

fn bytes(s: &str) -> Vec<u8> {
    s.as_bytes().to_vec()
}

fn info(reg: &StorageRegistry, owner: &Identity) -> StorageInfo {
    reg.get_storage_info(owner).unwrap()
}

fn upload(
    reg: &mut StorageRegistry,
    owner: &Identity,
    hash: &str,
    name: &str,
    size: u64,
) -> Result<dcloud_storage::accounts::FileUploaded, StorageError> {
    reg.upload_file(owner, bytes(hash), bytes(name), size, bytes("locator"), None, 1_700_000_000)
}

#[test]
fn identity_needs_exactly_32_bytes() {
    assert!(Identity::from_bytes(vec![1u8; 32]).is_some());
    assert!(Identity::from_bytes(vec![1u8; 31]).is_none());
    assert!(Identity::from_bytes(vec![1u8; 33]).is_none());
    assert!(Identity::from_bytes(Vec::new()).is_none());
    let a = id(1);
    let b = id(1);
    let c = id(2);
    assert!(a.equals(&b));
    assert!(!a.equals(&c));
    assert_eq!(a.to_bytes(), vec![1u8; 32]);
}

#[test]
fn initialize_starts_zeroed_and_rejects_a_second_summary() {
    let u = id(1);
    let mut reg = StorageRegistry::new();
    assert_eq!(reg.get_storage_info(&u).unwrap_err(), StorageError::NotFound);
    reg.initialize_storage(&u).unwrap();
    let s = info(&reg, &u);
    assert!(s.owner.equals(&u));
    assert_eq!(s.total_files, 0);
    assert_eq!(s.total_storage_used, 0);
    assert_eq!(reg.initialize_storage(&u).unwrap_err(), StorageError::AlreadyExists);
}

#[test]
fn upload_without_a_summary_is_not_found() {
    let u = id(1);
    let mut reg = StorageRegistry::new();
    assert_eq!(upload(&mut reg, &u, "h", "n", 10).unwrap_err(), StorageError::NotFound);
}

#[test]
fn summary_tracks_every_upload_and_delete() {
    let u = id(1);
    let mut reg = StorageRegistry::new();
    reg.initialize_storage(&u).unwrap();
    upload(&mut reg, &u, "a", "first", 100).unwrap();
    let s = info(&reg, &u);
    assert_eq!((s.total_files, s.total_storage_used), (1, 100));
    upload(&mut reg, &u, "b", "second", 250).unwrap();
    let s = info(&reg, &u);
    assert_eq!((s.total_files, s.total_storage_used), (2, 350));
    upload(&mut reg, &u, "c", "third", 1).unwrap();
    let s = info(&reg, &u);
    assert_eq!((s.total_files, s.total_storage_used), (3, 351));
    reg.delete_file(&u, &u, &bytes("b"), 2).unwrap();
    let s = info(&reg, &u);
    assert_eq!((s.total_files, s.total_storage_used), (2, 101));
    reg.delete_file(&u, &u, &bytes("a"), 3).unwrap();
    reg.delete_file(&u, &u, &bytes("c"), 4).unwrap();
    let s = info(&reg, &u);
    assert_eq!((s.total_files, s.total_storage_used), (0, 0));
}

#[test]
fn duplicate_upload_fails_until_the_record_is_deleted() {
    let u = id(1);
    let mut reg = StorageRegistry::new();
    reg.initialize_storage(&u).unwrap();
    upload(&mut reg, &u, "same-hash", "n", 10).unwrap();
    assert_eq!(
        upload(&mut reg, &u, "same-hash", "other-name", 99).unwrap_err(),
        StorageError::AlreadyExists
    );
    let s = info(&reg, &u);
    assert_eq!((s.total_files, s.total_storage_used), (1, 10));
    reg.delete_file(&u, &u, &bytes("same-hash"), 2).unwrap();
    // After a delete the same address is free again and the record starts
    // fresh.
    upload(&mut reg, &u, "same-hash", "n", 10).unwrap();
    let (snap, _) = reg.download_file(&u, &u, &bytes("same-hash"), 3).unwrap();
    assert_eq!(snap.access_count, 1);
}

#[test]
fn same_hash_under_two_owners_are_distinct_records() {
    let u = id(1);
    let v = id(2);
    let mut reg = StorageRegistry::new();
    reg.initialize_storage(&u).unwrap();
    reg.initialize_storage(&v).unwrap();
    upload(&mut reg, &u, "shared-hash", "mine", 10).unwrap();
    upload(&mut reg, &v, "shared-hash", "yours", 20).unwrap();
    let su = info(&reg, &u);
    let sv = info(&reg, &v);
    assert_eq!((su.total_files, su.total_storage_used), (1, 10));
    assert_eq!((sv.total_files, sv.total_storage_used), (1, 20));
    reg.delete_file(&u, &u, &bytes("shared-hash"), 2).unwrap();
    let sv = info(&reg, &v);
    assert_eq!((sv.total_files, sv.total_storage_used), (1, 20));
}

#[test]
fn upload_download_round_trip_returns_the_uploaded_values() {
    let u = id(7);
    let mut reg = StorageRegistry::new();
    reg.initialize_storage(&u).unwrap();
    let ev = reg
        .upload_file(
            &u,
            bytes("content-hash"),
            bytes("photo.png"),
            4096,
            bytes("locator://node/17"),
            Some(bytes("key-material")),
            1_700_000_123,
        )
        .unwrap();
    assert!(ev.owner.equals(&u));
    assert_eq!(ev.file_hash, bytes("content-hash"));
    assert_eq!(ev.file_name, bytes("photo.png"));
    assert_eq!(ev.file_size, 4096);
    assert_eq!(ev.timestamp, 1_700_000_123);
    let (snap, acc): (FileInfo, _) = reg.download_file(&u, &u, &bytes("content-hash"), 9).unwrap();
    assert!(snap.owner.equals(&u));
    assert_eq!(snap.file_hash, bytes("content-hash"));
    assert_eq!(snap.file_name, bytes("photo.png"));
    assert_eq!(snap.file_size, 4096);
    assert_eq!(snap.storage_locator, bytes("locator://node/17"));
    assert_eq!(snap.upload_timestamp, 1_700_000_123);
    assert!(!snap.is_public);
    assert_eq!(snap.access_count, 1);
    assert!(acc.accessor.equals(&u));
    assert_eq!(acc.file_hash, bytes("content-hash"));
    assert_eq!(acc.timestamp, 9);
}

#[test]
fn download_counts_every_authorized_access() {
    let u = id(1);
    let mut reg = StorageRegistry::new();
    reg.initialize_storage(&u).unwrap();
    upload(&mut reg, &u, "h", "n", 10).unwrap();
    for expected in 1..=5u64 {
        let (snap, _) = reg.download_file(&u, &u, &bytes("h"), 0).unwrap();
        assert_eq!(snap.access_count, expected);
    }
}

#[test]
fn private_download_by_non_owner_is_unauthorized_until_shared() {
    let u = id(1);
    let v = id(2);
    let mut reg = StorageRegistry::new();
    reg.initialize_storage(&u).unwrap();
    upload(&mut reg, &u, "h", "n", 10).unwrap();
    assert_eq!(
        reg.download_file(&v, &u, &bytes("h"), 5).unwrap_err(),
        StorageError::Unauthorized
    );
    let ev = reg.share_file(&u, &u, &bytes("h"), true, 6).unwrap();
    assert!(ev.owner.equals(&u));
    assert_eq!(ev.file_hash, bytes("h"));
    assert!(ev.is_public);
    assert_eq!(ev.timestamp, 6);
    let (snap, acc) = reg.download_file(&v, &u, &bytes("h"), 7).unwrap();
    assert!(snap.is_public);
    assert_eq!(snap.access_count, 1);
    assert!(acc.accessor.equals(&v));
}

#[test]
fn sharing_back_to_private_locks_out_non_owners_again() {
    let u = id(1);
    let v = id(2);
    let mut reg = StorageRegistry::new();
    reg.initialize_storage(&u).unwrap();
    upload(&mut reg, &u, "h", "n", 10).unwrap();
    reg.share_file(&u, &u, &bytes("h"), true, 1).unwrap();
    reg.download_file(&v, &u, &bytes("h"), 2).unwrap();
    reg.share_file(&u, &u, &bytes("h"), false, 3).unwrap();
    assert_eq!(
        reg.download_file(&v, &u, &bytes("h"), 4).unwrap_err(),
        StorageError::Unauthorized
    );
    // The owner still reads its own private record.
    let (snap, _) = reg.download_file(&u, &u, &bytes("h"), 5).unwrap();
    assert_eq!(snap.access_count, 2);
}

#[test]
fn share_is_idempotent_and_owner_only() {
    let u = id(1);
    let v = id(2);
    let mut reg = StorageRegistry::new();
    reg.initialize_storage(&u).unwrap();
    upload(&mut reg, &u, "h", "n", 10).unwrap();
    let first = reg.share_file(&u, &u, &bytes("h"), true, 1).unwrap();
    let second = reg.share_file(&u, &u, &bytes("h"), true, 2).unwrap();
    assert!(first.is_public && second.is_public);
    assert_eq!(second.timestamp, 2);
    assert_eq!(
        reg.share_file(&v, &u, &bytes("h"), false, 3).unwrap_err(),
        StorageError::Unauthorized
    );
    assert_eq!(
        reg.share_file(&u, &u, &bytes("missing"), true, 4).unwrap_err(),
        StorageError::NotFound
    );
}

#[test]
fn delete_by_non_owner_is_unauthorized_and_changes_nothing() {
    let u = id(1);
    let v = id(2);
    let mut reg = StorageRegistry::new();
    reg.initialize_storage(&u).unwrap();
    upload(&mut reg, &u, "h", "n", 10).unwrap();
    assert_eq!(
        reg.delete_file(&v, &u, &bytes("h"), 5).unwrap_err(),
        StorageError::Unauthorized
    );
    let s = info(&reg, &u);
    assert_eq!((s.total_files, s.total_storage_used), (1, 10));
    let (snap, _) = reg.download_file(&u, &u, &bytes("h"), 6).unwrap();
    assert_eq!(snap.file_name, bytes("n"));
    assert_eq!(snap.access_count, 1);
}

#[test]
fn delete_reports_its_event_and_missing_records() {
    let u = id(1);
    let mut reg = StorageRegistry::new();
    reg.initialize_storage(&u).unwrap();
    upload(&mut reg, &u, "h", "n", 10).unwrap();
    let ev = reg.delete_file(&u, &u, &bytes("h"), 42).unwrap();
    assert!(ev.owner.equals(&u));
    assert_eq!(ev.file_hash, bytes("h"));
    assert_eq!(ev.timestamp, 42);
    assert_eq!(
        reg.delete_file(&u, &u, &bytes("h"), 43).unwrap_err(),
        StorageError::NotFound
    );
    assert_eq!(
        reg.download_file(&u, &u, &bytes("h"), 44).unwrap_err(),
        StorageError::NotFound
    );
}

#[test]
fn scenario_two_files_visibility_and_deletion() {
    let u = id(10);
    let v = id(20);
    let mut reg = StorageRegistry::new();
    reg.initialize_storage(&u).unwrap();
    upload(&mut reg, &u, "H", "one", 1000).unwrap();
    let s = info(&reg, &u);
    assert_eq!((s.total_files, s.total_storage_used), (1, 1000));
    upload(&mut reg, &u, "H2", "two", 500).unwrap();
    let s = info(&reg, &u);
    assert_eq!((s.total_files, s.total_storage_used), (2, 1500));
    reg.delete_file(&u, &u, &bytes("H"), 1).unwrap();
    let s = info(&reg, &u);
    assert_eq!((s.total_files, s.total_storage_used), (1, 500));
    assert_eq!(
        reg.download_file(&v, &u, &bytes("H2"), 2).unwrap_err(),
        StorageError::Unauthorized
    );
    reg.share_file(&u, &u, &bytes("H2"), true, 3).unwrap();
    let (snap, _) = reg.download_file(&v, &u, &bytes("H2"), 4).unwrap();
    assert_eq!(snap.access_count, 1);
}

#[test]
fn file_name_boundary_is_one_hundred_bytes() {
    let u = id(1);
    let mut reg = StorageRegistry::new();
    reg.initialize_storage(&u).unwrap();
    let name_100 = "n".repeat(100);
    upload(&mut reg, &u, "ok", &name_100, 10).unwrap();
    let name_101 = "n".repeat(101);
    assert_eq!(
        upload(&mut reg, &u, "bad", &name_101, 10).unwrap_err(),
        StorageError::ValidationError { field: ValidationField::FileName }
    );
}

#[test]
fn file_size_zero_is_rejected() {
    let u = id(1);
    let mut reg = StorageRegistry::new();
    reg.initialize_storage(&u).unwrap();
    assert_eq!(
        upload(&mut reg, &u, "h", "n", 0).unwrap_err(),
        StorageError::ValidationError { field: ValidationField::FileSize }
    );
    let s = info(&reg, &u);
    assert_eq!((s.total_files, s.total_storage_used), (0, 0));
}

#[test]
fn file_hash_boundary_is_sixty_four_bytes() {
    let u = id(1);
    let mut reg = StorageRegistry::new();
    reg.initialize_storage(&u).unwrap();
    let hash_64 = "h".repeat(64);
    upload(&mut reg, &u, &hash_64, "n", 10).unwrap();
    let hash_65 = "h".repeat(65);
    assert_eq!(
        upload(&mut reg, &u, &hash_65, "n", 10).unwrap_err(),
        StorageError::ValidationError { field: ValidationField::FileHash }
    );
}

#[test]
fn storage_locator_boundary_is_one_hundred_bytes() {
    let u = id(1);
    let mut reg = StorageRegistry::new();
    reg.initialize_storage(&u).unwrap();
    let loc_100 = "l".repeat(100);
    reg.upload_file(&u, bytes("a"), bytes("n"), 10, loc_100.as_bytes().to_vec(), None, 0)
        .unwrap();
    let loc_101 = "l".repeat(101);
    assert_eq!(
        reg.upload_file(&u, bytes("b"), bytes("n"), 10, loc_101.as_bytes().to_vec(), None, 0)
            .unwrap_err(),
        StorageError::ValidationError { field: ValidationField::StorageLocator }
    );
}

#[test]
fn encryption_key_boundary_is_two_hundred_fifty_two_bytes() {
    let u = id(1);
    let mut reg = StorageRegistry::new();
    reg.initialize_storage(&u).unwrap();
    let key_252 = vec![9u8; 252];
    reg.upload_file(&u, bytes("a"), bytes("n"), 10, bytes("l"), Some(key_252), 0).unwrap();
    let key_253 = vec![9u8; 253];
    assert_eq!(
        reg.upload_file(&u, bytes("b"), bytes("n"), 10, bytes("l"), Some(key_253), 0)
            .unwrap_err(),
        StorageError::ValidationError { field: ValidationField::EncryptionKey }
    );
}

#[test]
fn validation_reports_the_first_violated_field() {
    let u = id(1);
    let mut reg = StorageRegistry::new();
    reg.initialize_storage(&u).unwrap();
    // Hash and name are both too long; the hash is validated first.
    let hash_65 = "h".repeat(65);
    let name_101 = "n".repeat(101);
    assert_eq!(
        upload(&mut reg, &u, &hash_65, &name_101, 0).unwrap_err(),
        StorageError::ValidationError { field: ValidationField::FileHash }
    );
}

#[test]
fn storage_counter_overflow_is_rejected_and_commits_nothing() {
    let u = id(1);
    let mut reg = StorageRegistry::new();
    reg.initialize_storage(&u).unwrap();
    upload(&mut reg, &u, "big", "n", u64::MAX).unwrap();
    assert_eq!(
        upload(&mut reg, &u, "one-more", "n", 1).unwrap_err(),
        StorageError::ArithmeticOverflow
    );
    let s = info(&reg, &u);
    assert_eq!((s.total_files, s.total_storage_used), (1, u64::MAX));
    assert_eq!(
        reg.download_file(&u, &u, &bytes("one-more"), 0).unwrap_err(),
        StorageError::NotFound
    );
}

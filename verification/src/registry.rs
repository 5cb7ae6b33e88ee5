//! The record-addressing, accounting, and authorization engine.
//!
//! A `StorageRegistry` holds the two record stores as keyed entries, each
//! entry keyed by its derived address. Every operation is a single atomic
//! transaction: it either commits completely and leaves the registry
//! well-formed, or fails with a `StorageError` and changes nothing.
//!
//! Well-formedness ties the stores together: every stored key is the
//! derived address of its record, addresses (and so logical entities) are
//! unique, every file record's owner has a summary, and each summary's
//! counters equal the count and the summed size of that owner's live file
//! records.

use vstd::prelude::*;
use crate::accounting::{
    bytes_used, lemma_accounting_absent, lemma_accounting_member, lemma_accounting_push,
    lemma_accounting_remove, lemma_accounting_update, lemma_accounting_zero_together, live_count,
    FileEntry, SummaryEntry,
};
use crate::accounts::{
    key_view, FileAccessed, FileAccount, FileDeleted, FileInfo, FileShared, FileUploaded,
    StorageAccount, StorageInfo, MAX_ENCRYPTION_KEY_LEN, MAX_FILE_HASH_LEN, MAX_FILE_NAME_LEN,
    MAX_STORAGE_LOCATOR_LEN,
};
use crate::address::{
    derive_file_address, derive_summary_address, file_address, lemma_file_address_injective,
    lemma_summary_address_injective, summary_address,
};
use crate::bytes::{bytes_eq, clone_bytes, clone_opt_bytes};
use crate::errors::{StorageError, ValidationField};
use crate::identity::Identity;

verus! {

/// The first input field of an upload that breaks its bound, if any, in
/// the order the fields are validated: hash, name, locator, size, key.
pub open spec fn first_invalid_field(
    file_hash: Seq<u8>,
    file_name: Seq<u8>,
    file_size: u64,
    storage_locator: Seq<u8>,
    encryption_key: Option<Seq<u8>>,
) -> Option<ValidationField> {
    if file_hash.len() > MAX_FILE_HASH_LEN {
        Some(ValidationField::FileHash)
    } else if file_name.len() > MAX_FILE_NAME_LEN {
        Some(ValidationField::FileName)
    } else if storage_locator.len() > MAX_STORAGE_LOCATOR_LEN {
        Some(ValidationField::StorageLocator)
    } else if file_size == 0 {
        Some(ValidationField::FileSize)
    } else if encryption_key matches Some(k) && k.len() > MAX_ENCRYPTION_KEY_LEN {
        Some(ValidationField::EncryptionKey)
    } else {
        None
    }
}

/// The registry: one summary store and one file store, both keyed by
/// derived addresses.
pub struct StorageRegistry {
    summaries: Vec<SummaryEntry>,
    files: Vec<FileEntry>,
}

impl StorageRegistry {
    /// Every summary entry is well-formed, sits at its derived address, and
    /// no two entries share an owner.
    spec fn summaries_ok(self) -> bool {
        &&& forall|i: int|
            0 <= i < self.summaries@.len() ==> (#[trigger] self.summaries@[i]).1.wf()
        &&& forall|i: int|
            0 <= i < self.summaries@.len() ==> (#[trigger] self.summaries@[i]).0@
                == summary_address(self.summaries@[i].1.owner@)
        &&& forall|i: int, j: int|
            #![trigger self.summaries@[i], self.summaries@[j]]
            0 <= i < j < self.summaries@.len() ==> self.summaries@[i].1.owner@
                != self.summaries@[j].1.owner@
    }

    /// Every file entry is well-formed, sits at its derived address, its
    /// owner has a summary, and no two entries share an `(owner, hash)`
    /// pair.
    spec fn files_ok(self) -> bool {
        &&& forall|i: int| 0 <= i < self.files@.len() ==> (#[trigger] self.files@[i]).1.wf()
        &&& forall|i: int|
            0 <= i < self.files@.len() ==> (#[trigger] self.files@[i]).0@ == file_address(
                self.files@[i].1.owner@,
                self.files@[i].1.file_hash@,
            )
        &&& forall|i: int|
            0 <= i < self.files@.len() ==> self.has_summary(
                (#[trigger] self.files@[i]).1.owner@,
            )
        &&& forall|i: int, j: int|
            #![trigger self.files@[i], self.files@[j]]
            0 <= i < j < self.files@.len() ==> !(self.files@[i].1.owner@
                == self.files@[j].1.owner@ && self.files@[i].1.file_hash@
                == self.files@[j].1.file_hash@)
    }

    /// Every summary's counters equal the accounting over the file store.
    spec fn accounting_ok(self) -> bool {
        forall|i: int|
            0 <= i < self.summaries@.len() ==> {
                &&& (#[trigger] self.summaries@[i]).1.total_files == live_count(
                    self.files@,
                    self.summaries@[i].1.owner@,
                )
                &&& self.summaries@[i].1.total_storage_used == bytes_used(
                    self.files@,
                    self.summaries@[i].1.owner@,
                )
            }
    }

    /// The registry invariant: established by `new`, preserved by every
    /// operation.
    pub closed spec fn wf(self) -> bool {
        &&& self.summaries_ok()
        &&& self.files_ok()
        &&& self.accounting_ok()
    }

    /// Whether `owner` has a storage summary.
    pub closed spec fn has_summary(self, owner: Seq<u8>) -> bool {
        exists|i: int|
            0 <= i < self.summaries@.len() && (#[trigger] self.summaries@[i]).1.owner@ == owner
    }

    spec fn summary_idx(self, owner: Seq<u8>) -> int {
        choose|i: int|
            0 <= i < self.summaries@.len() && (#[trigger] self.summaries@[i]).1.owner@ == owner
    }

    /// The summary record of `owner`; meaningful when `has_summary` holds.
    pub closed spec fn summary_at(self, owner: Seq<u8>) -> StorageAccount {
        self.summaries@[self.summary_idx(owner)].1
    }

    /// Whether a live file record exists for `(owner, file_hash)`.
    pub closed spec fn has_file(self, owner: Seq<u8>, file_hash: Seq<u8>) -> bool {
        exists|i: int|
            0 <= i < self.files@.len() && (#[trigger] self.files@[i]).1.owner@ == owner
                && self.files@[i].1.file_hash@ == file_hash
    }

    spec fn file_idx(self, owner: Seq<u8>, file_hash: Seq<u8>) -> int {
        choose|i: int|
            0 <= i < self.files@.len() && (#[trigger] self.files@[i]).1.owner@ == owner
                && self.files@[i].1.file_hash@ == file_hash
    }

    /// The file record of `(owner, file_hash)`; meaningful when `has_file`
    /// holds.
    pub closed spec fn file_at(self, owner: Seq<u8>, file_hash: Seq<u8>) -> FileAccount {
        self.files@[self.file_idx(owner, file_hash)].1
    }

    /// The number of live file records owned by `owner`.
    pub closed spec fn live_files(self, owner: Seq<u8>) -> nat {
        live_count(self.files@, owner)
    }

    /// The summed size of the live file records owned by `owner`.
    pub closed spec fn storage_used(self, owner: Seq<u8>) -> int {
        bytes_used(self.files@, owner)
    }

    /// The accounting law: in a well-formed registry, every owner's
    /// summary counters equal the number of that owner's live file records
    /// and the sum of their sizes. Every operation preserves this, since
    /// every operation preserves `wf`.
    pub proof fn lemma_summary_accounting(self, owner: Seq<u8>)
        requires
            self.wf(),
            self.has_summary(owner),
        ensures
            self.summary_at(owner).total_files == self.live_files(owner),
            self.summary_at(owner).total_storage_used == self.storage_used(owner),
    {
        let j = self.summary_idx(owner);
        self.lemma_summary_entry(j);
    }

    /// In a well-formed registry the two summary counters are zero
    /// together: an owner stores no bytes exactly when it has no live file
    /// records.
    pub proof fn lemma_counters_zero_together(self, owner: Seq<u8>)
        requires
            self.wf(),
            self.has_summary(owner),
        ensures
            (self.summary_at(owner).total_files == 0) <==> (self.summary_at(
                owner,
            ).total_storage_used == 0),
    {
        self.lemma_summary_accounting(owner);
        assert forall|i: int|
            0 <= i < self.files@.len() implies (#[trigger] self.files@[i]).1.file_size > 0 by {
            assert(self.files@[i].1.wf());
        }
        lemma_accounting_zero_together(self.files@, owner);
    }

    /// Every live file record is well-formed, matches the owner and hash
    /// it is addressed by, and its owner has a summary.
    pub proof fn lemma_file_record_valid(self, owner: Seq<u8>, file_hash: Seq<u8>)
        requires
            self.wf(),
            self.has_file(owner, file_hash),
        ensures
            self.file_at(owner, file_hash).wf(),
            self.file_at(owner, file_hash).owner@ == owner,
            self.file_at(owner, file_hash).file_hash@ == file_hash,
            self.has_summary(owner),
    {
        let j = self.file_idx(owner, file_hash);
        self.lemma_file_entry(j);
    }

    /// The summary entry at index `i` is the one `summary_at` denotes for
    /// its owner.
    proof fn lemma_summary_entry(self, i: int)
        requires
            self.summaries_ok(),
            0 <= i < self.summaries@.len(),
        ensures
            self.has_summary(self.summaries@[i].1.owner@),
            self.summary_idx(self.summaries@[i].1.owner@) == i,
            self.summary_at(self.summaries@[i].1.owner@) == self.summaries@[i].1,
    {
        let o = self.summaries@[i].1.owner@;
        assert(self.has_summary(o));
        let j = self.summary_idx(o);
        assert(0 <= j < self.summaries@.len() && self.summaries@[j].1.owner@ == o);
        if i != j {
            assert(self.summaries@[i].1.owner@ != self.summaries@[j].1.owner@);
        }
    }

    /// The file entry at index `i` is the one `file_at` denotes for its
    /// `(owner, hash)` pair.
    proof fn lemma_file_entry(self, i: int)
        requires
            self.files_ok(),
            0 <= i < self.files@.len(),
        ensures
            self.has_file(self.files@[i].1.owner@, self.files@[i].1.file_hash@),
            self.file_idx(self.files@[i].1.owner@, self.files@[i].1.file_hash@) == i,
            self.file_at(self.files@[i].1.owner@, self.files@[i].1.file_hash@)
                == self.files@[i].1,
    {
        let o = self.files@[i].1.owner@;
        let h = self.files@[i].1.file_hash@;
        assert(self.has_file(o, h));
        let j = self.file_idx(o, h);
        assert(0 <= j < self.files@.len() && self.files@[j].1.owner@ == o
            && self.files@[j].1.file_hash@ == h);
        if i != j {
            assert(!(self.files@[i].1.owner@ == self.files@[j].1.owner@
                && self.files@[i].1.file_hash@ == self.files@[j].1.file_hash@));
        }
    }

    /// A committed upload (one file entry appended, the owner's summary
    /// entry raised in place) restores the invariant and changes no other
    /// record.
    proof fn lemma_upload_commit(self, prev: StorageRegistry, si: int, owner: Seq<u8>, hash: Seq<u8>)
        requires
            prev.wf(),
            0 <= si < prev.summaries@.len(),
            prev.summaries@[si].1.owner@ == owner,
            !prev.has_file(owner, hash),
            self.files@ == prev.files@.push(self.files@.last()),
            self.files@.last().1.wf(),
            self.files@.last().1.owner@ == owner,
            self.files@.last().1.file_hash@ == hash,
            self.files@.last().0@ == file_address(owner, hash),
            self.summaries@ == prev.summaries@.update(si, self.summaries@[si]),
            self.summaries@[si].1.wf(),
            self.summaries@[si].1.owner@ == owner,
            self.summaries@[si].0@ == summary_address(owner),
            self.summaries@[si].1.total_files == prev.summaries@[si].1.total_files + 1,
            self.summaries@[si].1.total_storage_used == prev.summaries@[si].1.total_storage_used
                + self.files@.last().1.file_size,
        ensures
            self.wf(),
            prev.has_summary(owner),
            prev.summary_at(owner) == prev.summaries@[si].1,
            self.has_summary(owner),
            self.summary_at(owner) == self.summaries@[si].1,
            self.has_file(owner, hash),
            self.file_at(owner, hash) == self.files@.last().1,
            self.live_files(owner) == prev.live_files(owner) + 1,
            self.storage_used(owner) == prev.storage_used(owner)
                + self.files@.last().1.file_size,
            forall|o: Seq<u8>| #[trigger] self.has_summary(o) == prev.has_summary(o),
            forall|o: Seq<u8>|
                o != owner && prev.has_summary(o) ==> #[trigger] self.summary_at(o)
                    == prev.summary_at(o),
            forall|o: Seq<u8>, h: Seq<u8>|
                !(o == owner && h == hash) ==> #[trigger] self.has_file(o, h) == prev.has_file(
                    o,
                    h,
                ),
            forall|o: Seq<u8>, h: Seq<u8>|
                !(o == owner && h == hash) && prev.has_file(o, h) ==> #[trigger] self.file_at(
                    o,
                    h,
                ) == prev.file_at(o, h),
            forall|o: Seq<u8>|
                o != owner ==> #[trigger] self.live_files(o) == prev.live_files(o)
                    && self.storage_used(o) == prev.storage_used(o),
    {
        let e = self.files@.last();
        let n = prev.files@.len() as int;
        assert(self.files@.len() == n + 1);
        assert forall|i: int| 0 <= i < n implies self.files@[i] == prev.files@[i] by {}
        assert(self.files@[n] == e);
        assert forall|k: int|
            0 <= k < n implies !((#[trigger] prev.files@[k]).1.owner@ == owner
            && prev.files@[k].1.file_hash@ == hash) by {
            if prev.files@[k].1.owner@ == owner && prev.files@[k].1.file_hash@ == hash {
                assert(prev.has_file(owner, hash));
            }
        }
        assert(self.summaries@.len() == prev.summaries@.len());
        assert forall|i: int|
            0 <= i < self.summaries@.len() implies (#[trigger] self.summaries@[i]).1.owner@
            == prev.summaries@[i].1.owner@ by {}
        assert forall|i: int, j: int|
            #![trigger self.summaries@[i], self.summaries@[j]]
            0 <= i < j < self.summaries@.len() implies self.summaries@[i].1.owner@
            != self.summaries@[j].1.owner@ by {
            assert(prev.summaries@[i].1.owner@ != prev.summaries@[j].1.owner@);
        }
        assert(self.summaries_ok());
        assert forall|i: int|
            0 <= i < self.files@.len() implies self.has_summary(
            (#[trigger] self.files@[i]).1.owner@,
        ) by {
            let o = self.files@[i].1.owner@;
            if i < n {
                assert(prev.has_summary(o));
                let j = prev.summary_idx(o);
                prev.lemma_summary_entry(j);
                assert(self.summaries@[j].1.owner@ == o);
            } else {
                assert(self.summaries@[si].1.owner@ == o);
            }
        }
        assert forall|i: int, j: int|
            #![trigger self.files@[i], self.files@[j]]
            0 <= i < j < self.files@.len() implies !(self.files@[i].1.owner@
            == self.files@[j].1.owner@ && self.files@[i].1.file_hash@
            == self.files@[j].1.file_hash@) by {
            if j < n {
                assert(!(prev.files@[i].1.owner@ == prev.files@[j].1.owner@
                    && prev.files@[i].1.file_hash@ == prev.files@[j].1.file_hash@));
            }
        }
        assert(self.files_ok());
        assert forall|i: int|
            0 <= i < self.summaries@.len() implies {
            &&& (#[trigger] self.summaries@[i]).1.total_files == live_count(
                self.files@,
                self.summaries@[i].1.owner@,
            )
            &&& self.summaries@[i].1.total_storage_used == bytes_used(
                self.files@,
                self.summaries@[i].1.owner@,
            )
        } by {
            let o = self.summaries@[i].1.owner@;
            lemma_accounting_push(prev.files@, e, o);
            if i != si {
                assert(prev.summaries@[i].1.owner@ != prev.summaries@[si].1.owner@);
                assert(self.summaries@[i] == prev.summaries@[i]);
            }
        }
        assert(self.accounting_ok());
        assert(self.wf());
        prev.lemma_summary_entry(si);
        self.lemma_summary_entry(si);
        self.lemma_file_entry(n);
        lemma_accounting_push(prev.files@, e, owner);
        assert forall|o: Seq<u8>| #[trigger] self.has_summary(o) == prev.has_summary(o) by {
            if prev.has_summary(o) {
                let j = prev.summary_idx(o);
                prev.lemma_summary_entry(j);
                assert(self.summaries@[j].1.owner@ == o);
            }
            if self.has_summary(o) {
                let j = self.summary_idx(o);
                self.lemma_summary_entry(j);
                assert(prev.summaries@[j].1.owner@ == o);
            }
        }
        assert forall|o: Seq<u8>|
            o != owner && prev.has_summary(o) implies #[trigger] self.summary_at(o)
            == prev.summary_at(o) by {
            let j = prev.summary_idx(o);
            prev.lemma_summary_entry(j);
            assert(j != si);
            assert(self.summaries@[j] == prev.summaries@[j]);
            self.lemma_summary_entry(j);
        }
        assert forall|o: Seq<u8>, h: Seq<u8>|
            !(o == owner && h == hash) implies #[trigger] self.has_file(o, h) == prev.has_file(
            o,
            h,
        ) by {
            if prev.has_file(o, h) {
                let j = prev.file_idx(o, h);
                prev.lemma_file_entry(j);
                assert(self.files@[j].1.owner@ == o && self.files@[j].1.file_hash@ == h);
            }
            if self.has_file(o, h) {
                let j = self.file_idx(o, h);
                self.lemma_file_entry(j);
                assert(j != n);
                assert(prev.files@[j].1.owner@ == o && prev.files@[j].1.file_hash@ == h);
            }
        }
        assert forall|o: Seq<u8>, h: Seq<u8>|
            !(o == owner && h == hash) && prev.has_file(o, h) implies #[trigger] self.file_at(
            o,
            h,
        ) == prev.file_at(o, h) by {
            let j = prev.file_idx(o, h);
            prev.lemma_file_entry(j);
            assert(j != n);
            assert(self.files@[j] == prev.files@[j]);
            self.lemma_file_entry(j);
        }
        assert forall|o: Seq<u8>|
            o != owner implies #[trigger] self.live_files(o) == prev.live_files(o)
            && self.storage_used(o) == prev.storage_used(o) by {
            lemma_accounting_push(prev.files@, e, o);
        }
    }

    /// A committed in-place file update (same owner, hash, size and key)
    /// restores the invariant, changes no accounting and no other record.
    proof fn lemma_update_commit(self, prev: StorageRegistry, fi: int)
        requires
            prev.wf(),
            0 <= fi < prev.files@.len(),
            self.files@ == prev.files@.update(fi, self.files@[fi]),
            self.files@[fi].1.wf(),
            self.files@[fi].1.owner@ == prev.files@[fi].1.owner@,
            self.files@[fi].1.file_hash@ == prev.files@[fi].1.file_hash@,
            self.files@[fi].1.file_size == prev.files@[fi].1.file_size,
            self.files@[fi].0@ == prev.files@[fi].0@,
            self.summaries@ == prev.summaries@,
        ensures
            self.wf(),
            prev.has_file(prev.files@[fi].1.owner@, prev.files@[fi].1.file_hash@),
            prev.file_at(prev.files@[fi].1.owner@, prev.files@[fi].1.file_hash@)
                == prev.files@[fi].1,
            self.has_file(prev.files@[fi].1.owner@, prev.files@[fi].1.file_hash@),
            self.file_at(prev.files@[fi].1.owner@, prev.files@[fi].1.file_hash@)
                == self.files@[fi].1,
            forall|o: Seq<u8>| #[trigger] self.has_summary(o) == prev.has_summary(o),
            forall|o: Seq<u8>|
                prev.has_summary(o) ==> #[trigger] self.summary_at(o) == prev.summary_at(o),
            forall|o: Seq<u8>, h: Seq<u8>|
                !(o == prev.files@[fi].1.owner@ && h == prev.files@[fi].1.file_hash@)
                    ==> #[trigger] self.has_file(o, h) == prev.has_file(o, h),
            forall|o: Seq<u8>, h: Seq<u8>|
                !(o == prev.files@[fi].1.owner@ && h == prev.files@[fi].1.file_hash@)
                    && prev.has_file(o, h) ==> #[trigger] self.file_at(o, h) == prev.file_at(
                    o,
                    h,
                ),
            forall|o: Seq<u8>| #[trigger]
                self.live_files(o) == prev.live_files(o) && self.storage_used(o)
                    == prev.storage_used(o),
    {
        let owner = prev.files@[fi].1.owner@;
        let hash = prev.files@[fi].1.file_hash@;
        let n = prev.files@.len() as int;
        assert(self.files@.len() == n);
        assert forall|i: int| 0 <= i < n && i != fi implies self.files@[i] == prev.files@[i] by {}
        assert forall|i: int|
            0 <= i < n implies (#[trigger] self.files@[i]).1.owner@ == prev.files@[i].1.owner@
            && self.files@[i].1.file_hash@ == prev.files@[i].1.file_hash@ by {}
        assert forall|i: int, j: int|
            #![trigger self.files@[i], self.files@[j]]
            0 <= i < j < n implies !(self.files@[i].1.owner@ == self.files@[j].1.owner@
            && self.files@[i].1.file_hash@ == self.files@[j].1.file_hash@) by {
            assert(!(prev.files@[i].1.owner@ == prev.files@[j].1.owner@
                && prev.files@[i].1.file_hash@ == prev.files@[j].1.file_hash@));
        }
        assert forall|i: int|
            0 <= i < n implies self.has_summary((#[trigger] self.files@[i]).1.owner@) by {
            assert(prev.has_summary(prev.files@[i].1.owner@));
        }
        assert(self.files_ok());
        assert forall|i: int|
            0 <= i < self.summaries@.len() implies {
            &&& (#[trigger] self.summaries@[i]).1.total_files == live_count(
                self.files@,
                self.summaries@[i].1.owner@,
            )
            &&& self.summaries@[i].1.total_storage_used == bytes_used(
                self.files@,
                self.summaries@[i].1.owner@,
            )
        } by {
            lemma_accounting_update(
                prev.files@,
                fi,
                self.files@[fi],
                self.summaries@[i].1.owner@,
            );
            assert(prev.summaries@[i] == self.summaries@[i]);
        }
        assert(self.wf());
        prev.lemma_file_entry(fi);
        self.lemma_file_entry(fi);
        assert forall|o: Seq<u8>|
            prev.has_summary(o) implies #[trigger] self.summary_at(o) == prev.summary_at(o) by {
            let j = prev.summary_idx(o);
            prev.lemma_summary_entry(j);
            self.lemma_summary_entry(j);
        }
        assert forall|o: Seq<u8>, h: Seq<u8>|
            !(o == owner && h == hash) implies #[trigger] self.has_file(o, h) == prev.has_file(
            o,
            h,
        ) by {
            if prev.has_file(o, h) {
                let j = prev.file_idx(o, h);
                prev.lemma_file_entry(j);
                assert(j != fi);
                assert(self.files@[j].1.owner@ == o && self.files@[j].1.file_hash@ == h);
            }
            if self.has_file(o, h) {
                let j = self.file_idx(o, h);
                self.lemma_file_entry(j);
                assert(j != fi);
                assert(prev.files@[j].1.owner@ == o && prev.files@[j].1.file_hash@ == h);
            }
        }
        assert forall|o: Seq<u8>, h: Seq<u8>|
            !(o == owner && h == hash) && prev.has_file(o, h) implies #[trigger] self.file_at(
            o,
            h,
        ) == prev.file_at(o, h) by {
            let j = prev.file_idx(o, h);
            prev.lemma_file_entry(j);
            assert(j != fi);
            assert(self.files@[j] == prev.files@[j]);
            self.lemma_file_entry(j);
        }
        assert forall|o: Seq<u8>| #[trigger]
            self.live_files(o) == prev.live_files(o) && self.storage_used(o)
            == prev.storage_used(o) by {
            lemma_accounting_update(prev.files@, fi, self.files@[fi], o);
        }
    }

    /// A committed delete (one file entry removed, the owner's summary
    /// entry lowered in place) restores the invariant and changes no other
    /// record.
    proof fn lemma_delete_commit(
        self,
        prev: StorageRegistry,
        fi: int,
        si: int,
        owner: Seq<u8>,
        hash: Seq<u8>,
    )
        requires
            prev.wf(),
            0 <= fi < prev.files@.len(),
            prev.files@[fi].1.owner@ == owner,
            prev.files@[fi].1.file_hash@ == hash,
            0 <= si < prev.summaries@.len(),
            prev.summaries@[si].1.owner@ == owner,
            self.files@ == prev.files@.remove(fi),
            self.summaries@ == prev.summaries@.update(si, self.summaries@[si]),
            self.summaries@[si].1.wf(),
            self.summaries@[si].1.owner@ == owner,
            self.summaries@[si].0@ == summary_address(owner),
            self.summaries@[si].1.total_files == prev.summaries@[si].1.total_files - 1,
            self.summaries@[si].1.total_storage_used == prev.summaries@[si].1.total_storage_used
                - prev.files@[fi].1.file_size,
        ensures
            self.wf(),
            prev.has_file(owner, hash),
            prev.file_at(owner, hash) == prev.files@[fi].1,
            prev.has_summary(owner),
            prev.summary_at(owner) == prev.summaries@[si].1,
            self.has_summary(owner),
            self.summary_at(owner) == self.summaries@[si].1,
            !self.has_file(owner, hash),
            self.live_files(owner) == prev.live_files(owner) - 1,
            self.storage_used(owner) == prev.storage_used(owner)
                - prev.files@[fi].1.file_size,
            forall|o: Seq<u8>| #[trigger] self.has_summary(o) == prev.has_summary(o),
            forall|o: Seq<u8>|
                o != owner && prev.has_summary(o) ==> #[trigger] self.summary_at(o)
                    == prev.summary_at(o),
            forall|o: Seq<u8>, h: Seq<u8>|
                !(o == owner && h == hash) ==> #[trigger] self.has_file(o, h) == prev.has_file(
                    o,
                    h,
                ),
            forall|o: Seq<u8>, h: Seq<u8>|
                !(o == owner && h == hash) && prev.has_file(o, h) ==> #[trigger] self.file_at(
                    o,
                    h,
                ) == prev.file_at(o, h),
            forall|o: Seq<u8>|
                o != owner ==> #[trigger] self.live_files(o) == prev.live_files(o)
                    && self.storage_used(o) == prev.storage_used(o),
    {
        let n = prev.files@.len() as int;
        prev.lemma_file_entry(fi);
        prev.lemma_summary_entry(si);
        prev.files@.remove_ensures(fi);
        assert(self.files@.len() == n - 1);
        assert forall|i: int|
            0 <= i < n - 1 implies self.files@[i] == prev.files@[if i < fi {
            i
        } else {
            i + 1
        }] by {}
        assert(self.summaries@.len() == prev.summaries@.len());
        assert forall|i: int|
            0 <= i < self.summaries@.len() implies (#[trigger] self.summaries@[i]).1.owner@
            == prev.summaries@[i].1.owner@ by {}
        assert forall|i: int, j: int|
            #![trigger self.summaries@[i], self.summaries@[j]]
            0 <= i < j < self.summaries@.len() implies self.summaries@[i].1.owner@
            != self.summaries@[j].1.owner@ by {
            assert(prev.summaries@[i].1.owner@ != prev.summaries@[j].1.owner@);
        }
        assert(self.summaries_ok());
        assert forall|i: int, j: int|
            #![trigger self.files@[i], self.files@[j]]
            0 <= i < j < self.files@.len() implies !(self.files@[i].1.owner@
            == self.files@[j].1.owner@ && self.files@[i].1.file_hash@
            == self.files@[j].1.file_hash@) by {
            let oi = if i < fi { i } else { i + 1 };
            let oj = if j < fi { j } else { j + 1 };
            assert(self.files@[i] == prev.files@[oi]);
            assert(self.files@[j] == prev.files@[oj]);
            assert(!(prev.files@[oi].1.owner@ == prev.files@[oj].1.owner@
                && prev.files@[oi].1.file_hash@ == prev.files@[oj].1.file_hash@));
        }
        assert forall|i: int|
            0 <= i < self.files@.len() implies self.has_summary(
            (#[trigger] self.files@[i]).1.owner@,
        ) by {
            let oi = if i < fi { i } else { i + 1 };
            assert(self.files@[i] == prev.files@[oi]);
            let o = prev.files@[oi].1.owner@;
            assert(prev.has_summary(o));
            let j = prev.summary_idx(o);
            prev.lemma_summary_entry(j);
            assert(self.summaries@[j].1.owner@ == o);
        }
        assert(self.files_ok());
        assert forall|i: int|
            0 <= i < self.summaries@.len() implies {
            &&& (#[trigger] self.summaries@[i]).1.total_files == live_count(
                self.files@,
                self.summaries@[i].1.owner@,
            )
            &&& self.summaries@[i].1.total_storage_used == bytes_used(
                self.files@,
                self.summaries@[i].1.owner@,
            )
        } by {
            let o = self.summaries@[i].1.owner@;
            lemma_accounting_remove(prev.files@, fi, o);
            if i != si {
                assert(prev.summaries@[i].1.owner@ != prev.summaries@[si].1.owner@);
                assert(self.summaries@[i] == prev.summaries@[i]);
            }
        }
        assert(self.accounting_ok());
        assert(self.wf());
        self.lemma_summary_entry(si);
        lemma_accounting_remove(prev.files@, fi, owner);
        assert forall|j: int|
            0 <= j < self.files@.len() implies !((#[trigger] self.files@[j]).1.owner@ == owner
            && self.files@[j].1.file_hash@ == hash) by {
            let oj = if j < fi { j } else { j + 1 };
            assert(self.files@[j] == prev.files@[oj]);
            assert(oj != fi);
            assert(!(prev.files@[oj].1.owner@ == prev.files@[fi].1.owner@
                && prev.files@[oj].1.file_hash@ == prev.files@[fi].1.file_hash@));
        }
        assert(!self.has_file(owner, hash));
        assert forall|o: Seq<u8>| #[trigger] self.has_summary(o) == prev.has_summary(o) by {
            if prev.has_summary(o) {
                let j = prev.summary_idx(o);
                prev.lemma_summary_entry(j);
                assert(self.summaries@[j].1.owner@ == o);
            }
            if self.has_summary(o) {
                let j = self.summary_idx(o);
                self.lemma_summary_entry(j);
                assert(prev.summaries@[j].1.owner@ == o);
            }
        }
        assert forall|o: Seq<u8>|
            o != owner && prev.has_summary(o) implies #[trigger] self.summary_at(o)
            == prev.summary_at(o) by {
            let j = prev.summary_idx(o);
            prev.lemma_summary_entry(j);
            assert(j != si);
            assert(self.summaries@[j] == prev.summaries@[j]);
            self.lemma_summary_entry(j);
        }
        assert forall|o: Seq<u8>, h: Seq<u8>|
            !(o == owner && h == hash) implies #[trigger] self.has_file(o, h) == prev.has_file(
            o,
            h,
        ) by {
            if prev.has_file(o, h) {
                let j = prev.file_idx(o, h);
                prev.lemma_file_entry(j);
                assert(j != fi);
                let nj = if j < fi { j } else { j - 1 };
                assert(self.files@[nj] == prev.files@[j]);
                assert(self.files@[nj].1.owner@ == o && self.files@[nj].1.file_hash@ == h);
            }
            if self.has_file(o, h) {
                let j = self.file_idx(o, h);
                self.lemma_file_entry(j);
                let oj = if j < fi { j } else { j + 1 };
                assert(self.files@[j] == prev.files@[oj]);
                assert(prev.files@[oj].1.owner@ == o && prev.files@[oj].1.file_hash@ == h);
            }
        }
        assert forall|o: Seq<u8>, h: Seq<u8>|
            !(o == owner && h == hash) && prev.has_file(o, h) implies #[trigger] self.file_at(
            o,
            h,
        ) == prev.file_at(o, h) by {
            let j = prev.file_idx(o, h);
            prev.lemma_file_entry(j);
            assert(j != fi);
            let nj = if j < fi { j } else { j - 1 };
            assert(self.files@[nj] == prev.files@[j]);
            self.lemma_file_entry(nj);
        }
        assert forall|o: Seq<u8>|
            o != owner implies #[trigger] self.live_files(o) == prev.live_files(o)
            && self.storage_used(o) == prev.storage_used(o) by {
            lemma_accounting_remove(prev.files@, fi, o);
        }
    }

    /// Finds the index of `owner`'s summary entry by its derived address.
    fn find_summary(&self, owner: &Identity) -> (r: Option<usize>)
        requires
            self.wf(),
            owner.wf(),
        ensures
            match r {
                Some(i) => i < self.summaries@.len() && self.summaries@[i as int].1.owner@
                    == owner@,
                None => !self.has_summary(owner@),
            },
    {
        let addr = derive_summary_address(owner);
        let n = self.summaries.len();
        let mut i: usize = 0;
        while i < n
            invariant
                self.wf(),
                owner.wf(),
                n == self.summaries@.len(),
                i <= n,
                addr@ == summary_address(owner@),
                forall|k: int| 0 <= k < i ==> (#[trigger] self.summaries@[k]).1.owner@ != owner@,
            decreases n - i,
        {
            if bytes_eq(&self.summaries[i].0, &addr) {
                proof {
                    lemma_summary_address_injective(self.summaries@[i as int].1.owner@, owner@);
                }
                return Some(i);
            }
            proof {
                if self.summaries@[i as int].1.owner@ == owner@ {
                    assert(self.summaries@[i as int].0@ == addr@);
                }
            }
            i = i + 1;
        }
        None
    }

    /// Finds the index of the file entry for `(owner, file_hash)` by its
    /// derived address.
    fn find_file(&self, owner: &Identity, file_hash: &Vec<u8>) -> (r: Option<usize>)
        requires
            self.wf(),
            owner.wf(),
        ensures
            match r {
                Some(i) => i < self.files@.len() && self.files@[i as int].1.owner@ == owner@
                    && self.files@[i as int].1.file_hash@ == file_hash@,
                None => !self.has_file(owner@, file_hash@),
            },
    {
        let addr = derive_file_address(owner, file_hash);
        let n = self.files.len();
        let mut i: usize = 0;
        while i < n
            invariant
                self.wf(),
                owner.wf(),
                n == self.files@.len(),
                i <= n,
                addr@ == file_address(owner@, file_hash@),
                forall|k: int|
                    0 <= k < i ==> !((#[trigger] self.files@[k]).1.owner@ == owner@
                        && self.files@[k].1.file_hash@ == file_hash@),
            decreases n - i,
        {
            if bytes_eq(&self.files[i].0, &addr) {
                proof {
                    assert(self.files@[i as int].1.wf());
                    lemma_file_address_injective(
                        self.files@[i as int].1.owner@,
                        self.files@[i as int].1.file_hash@,
                        owner@,
                        file_hash@,
                    );
                }
                return Some(i);
            }
            proof {
                if self.files@[i as int].1.owner@ == owner@ && self.files@[i as int].1.file_hash@
                    == file_hash@ {
                    assert(self.files@[i as int].0@ == addr@);
                }
            }
            i = i + 1;
        }
        None
    }

    /// An empty registry: no summaries, no file records.
    pub fn new() -> (r: StorageRegistry)
        ensures
            r.wf(),
            forall|o: Seq<u8>| !r.has_summary(o),
            forall|o: Seq<u8>, h: Seq<u8>| !r.has_file(o, h),
    {
        StorageRegistry { summaries: Vec::new(), files: Vec::new() }
    }

    /// Creates `owner`'s storage summary with zeroed counters. Fails with
    /// `AlreadyExists`, and changes nothing, exactly when a summary for
    /// `owner` already exists.
    pub fn initialize_storage(&mut self, owner: &Identity) -> (r: Result<(), StorageError>)
        requires
            old(self).wf(),
            owner.wf(),
        ensures
            final(self).wf(),
            match r {
                Ok(()) => {
                    &&& !old(self).has_summary(owner@)
                    &&& final(self).has_summary(owner@)
                    &&& final(self).summary_at(owner@).owner@ == owner@
                    &&& final(self).summary_at(owner@).total_files == 0
                    &&& final(self).summary_at(owner@).total_storage_used == 0
                    &&& forall|o: Seq<u8>|
                        o != owner@ ==> #[trigger] final(self).has_summary(o) == old(
                            self,
                        ).has_summary(o)
                    &&& forall|o: Seq<u8>|
                        o != owner@ && old(self).has_summary(o)
                            ==> #[trigger] final(self).summary_at(o) == old(self).summary_at(o)
                    &&& forall|o: Seq<u8>, h: Seq<u8>| #[trigger]
                        final(self).has_file(o, h) == old(self).has_file(o, h)
                    &&& forall|o: Seq<u8>, h: Seq<u8>|
                        old(self).has_file(o, h) ==> #[trigger] final(self).file_at(o, h) == old(
                            self,
                        ).file_at(o, h)
                },
                Err(e) => {
                    &&& e == StorageError::AlreadyExists
                    &&& old(self).has_summary(owner@)
                    &&& *final(self) == *old(self)
                },
            },
    {
        match self.find_summary(owner) {
            Some(i) => {
                proof {
                    self.lemma_summary_entry(i as int);
                }
                Err(StorageError::AlreadyExists)
            },
            None => {
                let addr = derive_summary_address(owner);
                let acct = StorageAccount {
                    owner: owner.dup(),
                    total_files: 0,
                    total_storage_used: 0,
                };
                proof {
                    // No summary means no file records of this owner, so
                    // zeroed counters satisfy the accounting invariant.
                    assert forall|i: int|
                        0 <= i < old(self).files@.len() implies (#[trigger] old(
                        self,
                    ).files@[i]).1.owner@ != owner@ by {
                        if old(self).files@[i].1.owner@ == owner@ {
                            assert(old(self).has_summary(owner@));
                        }
                    }
                    lemma_accounting_absent(old(self).files@, owner@);
                }
                self.summaries.push((addr, acct));
                proof {
                    let n = old(self).summaries@.len() as int;
                    assert(self.summaries@ == old(self).summaries@.push((addr, acct)));
                    assert(self.summaries@[n].1.owner@ == owner@);
                    assert(self.files@ == old(self).files@);
                    assert forall|i: int|
                        0 <= i < n implies self.summaries@[i] == old(self).summaries@[i] by {}
                    assert forall|i: int, j: int|
                        #![trigger self.summaries@[i], self.summaries@[j]]
                        0 <= i < j < self.summaries@.len() implies self.summaries@[i].1.owner@
                        != self.summaries@[j].1.owner@ by {
                        if j < n {
                            assert(old(self).summaries@[i].1.owner@ != old(
                                self,
                            ).summaries@[j].1.owner@);
                        } else {
                            if self.summaries@[i].1.owner@ == owner@ {
                                assert(old(self).summaries@[i].1.owner@ == owner@);
                                assert(old(self).has_summary(owner@));
                            }
                        }
                    }
                    assert(self.summaries_ok());
                    assert forall|i: int|
                        0 <= i < self.files@.len() implies self.has_summary(
                        (#[trigger] self.files@[i]).1.owner@,
                    ) by {
                        let o = self.files@[i].1.owner@;
                        assert(old(self).files@[i] == self.files@[i]);
                        assert(old(self).has_summary(o));
                        let j = old(self).summary_idx(o);
                        old(self).lemma_summary_entry(j);
                        assert(self.summaries@[j].1.owner@ == o);
                    }
                    assert(self.files_ok());
                    assert forall|i: int|
                        0 <= i < self.summaries@.len() implies {
                        &&& (#[trigger] self.summaries@[i]).1.total_files == live_count(
                            self.files@,
                            self.summaries@[i].1.owner@,
                        )
                        &&& self.summaries@[i].1.total_storage_used == bytes_used(
                            self.files@,
                            self.summaries@[i].1.owner@,
                        )
                    } by {
                        if i < n {
                            assert(old(self).summaries@[i] == self.summaries@[i]);
                        }
                    }
                    assert(self.accounting_ok());
                    self.lemma_summary_entry(n);
                    assert forall|o: Seq<u8>|
                        o != owner@ implies #[trigger] self.has_summary(o) == old(
                        self,
                    ).has_summary(o) by {
                        if old(self).has_summary(o) {
                            let j = old(self).summary_idx(o);
                            old(self).lemma_summary_entry(j);
                            assert(self.summaries@[j].1.owner@ == o);
                        }
                        if self.has_summary(o) {
                            let j = self.summary_idx(o);
                            self.lemma_summary_entry(j);
                            assert(j != n);
                            assert(old(self).summaries@[j].1.owner@ == o);
                        }
                    }
                    assert forall|o: Seq<u8>|
                        o != owner@ && old(self).has_summary(o) implies #[trigger] self.summary_at(
                        o,
                    ) == old(self).summary_at(o) by {
                        let j = old(self).summary_idx(o);
                        old(self).lemma_summary_entry(j);
                        self.lemma_summary_entry(j);
                    }
                    assert forall|o: Seq<u8>, h: Seq<u8>| #[trigger]
                        self.has_file(o, h) == old(self).has_file(o, h) by {}
                    assert forall|o: Seq<u8>, h: Seq<u8>|
                        old(self).has_file(o, h) implies #[trigger] self.file_at(o, h) == old(
                        self,
                    ).file_at(o, h) by {}
                }
                Ok(())
            },
        }
    }

    /// Creates the file record for `(owner, file_hash)` and raises the
    /// owner's summary counters, as one atomic transaction. The new record
    /// starts private, with a zero access count and `now` as its upload
    /// time. Exactly one of these happens: the first out-of-bounds input
    /// field is reported as `ValidationError`; the owner has no summary and
    /// `NotFound` is reported; the derived address is occupied and
    /// `AlreadyExists` is reported; a counter would overflow its width and
    /// `ArithmeticOverflow` is reported; or the upload commits. On any
    /// failure nothing changes.
    pub fn upload_file(
        &mut self,
        owner: &Identity,
        file_hash: Vec<u8>,
        file_name: Vec<u8>,
        file_size: u64,
        storage_locator: Vec<u8>,
        encryption_key: Option<Vec<u8>>,
        now: i64,
    ) -> (r: Result<FileUploaded, StorageError>)
        requires
            old(self).wf(),
            owner.wf(),
        ensures
            final(self).wf(),
            match r {
                Ok(ev) => {
                    &&& first_invalid_field(
                        file_hash@,
                        file_name@,
                        file_size,
                        storage_locator@,
                        key_view(encryption_key),
                    ) is None
                    &&& old(self).has_summary(owner@)
                    &&& !old(self).has_file(owner@, file_hash@)
                    &&& old(self).summary_at(owner@).total_files < u32::MAX
                    &&& old(self).summary_at(owner@).total_storage_used + file_size <= u64::MAX
                    &&& final(self).has_file(owner@, file_hash@)
                    &&& final(self).file_at(owner@, file_hash@).owner@ == owner@
                    &&& final(self).file_at(owner@, file_hash@).file_hash@ == file_hash@
                    &&& final(self).file_at(owner@, file_hash@).file_name@ == file_name@
                    &&& final(self).file_at(owner@, file_hash@).file_size == file_size
                    &&& final(self).file_at(owner@, file_hash@).storage_locator@
                        == storage_locator@
                    &&& key_view(final(self).file_at(owner@, file_hash@).encryption_key)
                        == key_view(encryption_key)
                    &&& final(self).file_at(owner@, file_hash@).upload_timestamp == now
                    &&& final(self).file_at(owner@, file_hash@).is_public == false
                    &&& final(self).file_at(owner@, file_hash@).access_count == 0
                    &&& final(self).summary_at(owner@).owner@ == owner@
                    &&& final(self).summary_at(owner@).total_files == old(self).summary_at(
                        owner@,
                    ).total_files + 1
                    &&& final(self).summary_at(owner@).total_storage_used == old(
                        self,
                    ).summary_at(owner@).total_storage_used + file_size
                    &&& final(self).live_files(owner@) == old(self).live_files(owner@) + 1
                    &&& final(self).storage_used(owner@) == old(self).storage_used(owner@)
                        + file_size
                    &&& forall|o: Seq<u8>| #[trigger]
                        final(self).has_summary(o) == old(self).has_summary(o)
                    &&& forall|o: Seq<u8>|
                        o != owner@ && old(self).has_summary(o)
                            ==> #[trigger] final(self).summary_at(o) == old(self).summary_at(o)
                    &&& forall|o: Seq<u8>, h: Seq<u8>|
                        !(o == owner@ && h == file_hash@) ==> #[trigger] final(self).has_file(
                            o,
                            h,
                        ) == old(self).has_file(o, h)
                    &&& forall|o: Seq<u8>, h: Seq<u8>|
                        !(o == owner@ && h == file_hash@) && old(self).has_file(o, h)
                            ==> #[trigger] final(self).file_at(o, h) == old(self).file_at(o, h)
                    &&& ev.owner@ == owner@
                    &&& ev.file_hash@ == file_hash@
                    &&& ev.file_name@ == file_name@
                    &&& ev.file_size == file_size
                    &&& ev.timestamp == now
                },
                Err(e) => {
                    &&& *final(self) == *old(self)
                    &&& match first_invalid_field(
                        file_hash@,
                        file_name@,
                        file_size,
                        storage_locator@,
                        key_view(encryption_key),
                    ) {
                        Some(f) => e == (StorageError::ValidationError { field: f }),
                        None => {
                            if !old(self).has_summary(owner@) {
                                e == StorageError::NotFound
                            } else if old(self).has_file(owner@, file_hash@) {
                                e == StorageError::AlreadyExists
                            } else {
                                &&& e == StorageError::ArithmeticOverflow
                                &&& (old(self).summary_at(owner@).total_files == u32::MAX || old(
                                    self,
                                ).summary_at(owner@).total_storage_used + file_size > u64::MAX)
                            }
                        },
                    }
                },
            },
    {
        if file_hash.len() > MAX_FILE_HASH_LEN {
            return Err(StorageError::ValidationError { field: ValidationField::FileHash });
        }
        if file_name.len() > MAX_FILE_NAME_LEN {
            return Err(StorageError::ValidationError { field: ValidationField::FileName });
        }
        if storage_locator.len() > MAX_STORAGE_LOCATOR_LEN {
            return Err(StorageError::ValidationError { field: ValidationField::StorageLocator });
        }
        if file_size == 0 {
            return Err(StorageError::ValidationError { field: ValidationField::FileSize });
        }
        match &encryption_key {
            Some(k) => {
                if k.len() > MAX_ENCRYPTION_KEY_LEN {
                    return Err(
                        StorageError::ValidationError { field: ValidationField::EncryptionKey },
                    );
                }
            },
            None => {},
        }
        let si = match self.find_summary(owner) {
            Some(si) => si,
            None => {
                return Err(StorageError::NotFound);
            },
        };
        proof {
            self.lemma_summary_entry(si as int);
        }
        match self.find_file(owner, &file_hash) {
            Some(fi) => {
                proof {
                    self.lemma_file_entry(fi as int);
                }
                return Err(StorageError::AlreadyExists);
            },
            None => {},
        }
        let acct_tf = self.summaries[si].1.total_files;
        let acct_ts = self.summaries[si].1.total_storage_used;
        if acct_tf == u32::MAX {
            return Err(StorageError::ArithmeticOverflow);
        }
        if acct_ts > u64::MAX - file_size {
            return Err(StorageError::ArithmeticOverflow);
        }
        let ev_hash = clone_bytes(&file_hash);
        let ev_name = clone_bytes(&file_name);
        let fkey = derive_file_address(owner, &file_hash);
        let facct = FileAccount {
            owner: owner.dup(),
            file_hash,
            file_name,
            file_size,
            storage_locator,
            encryption_key,
            upload_timestamp: now,
            is_public: false,
            access_count: 0,
        };
        self.files.push((fkey, facct));
        let skey = derive_summary_address(owner);
        let sacct = StorageAccount {
            owner: owner.dup(),
            total_files: acct_tf + 1,
            total_storage_used: acct_ts + file_size,
        };
        self.summaries[si] = (skey, sacct);
        proof {
            self.lemma_upload_commit(*old(self), si as int, owner@, file_hash@);
        }
        Ok(
            FileUploaded {
                owner: owner.dup(),
                file_hash: ev_hash,
                file_name: ev_name,
                file_size,
                timestamp: now,
            },
        )
    }

    /// Reads the file record for `(owner, file_hash)` and counts the
    /// access: the requester must be the owner or the record must be
    /// public. On success the access count is raised by one and the
    /// returned snapshot already shows the raised count. Fails with
    /// `NotFound` when no such record exists, with `Unauthorized` when the
    /// record is private and the requester is not the owner, and with
    /// `ArithmeticOverflow` when the access counter is at its width's
    /// limit; on any failure nothing changes.
    pub fn download_file(
        &mut self,
        requester: &Identity,
        owner: &Identity,
        file_hash: &Vec<u8>,
        now: i64,
    ) -> (r: Result<(FileInfo, FileAccessed), StorageError>)
        requires
            old(self).wf(),
            requester.wf(),
            owner.wf(),
        ensures
            final(self).wf(),
            match r {
                Ok((info, ev)) => {
                    &&& old(self).has_file(owner@, file_hash@)
                    &&& (requester@ == owner@ || old(self).file_at(owner@, file_hash@).is_public)
                    &&& old(self).file_at(owner@, file_hash@).access_count < u64::MAX
                    &&& final(self).has_file(owner@, file_hash@)
                    &&& final(self).file_at(owner@, file_hash@).owner@ == owner@
                    &&& final(self).file_at(owner@, file_hash@).file_hash@ == file_hash@
                    &&& final(self).file_at(owner@, file_hash@).file_name@ == old(self).file_at(
                        owner@,
                        file_hash@,
                    ).file_name@
                    &&& final(self).file_at(owner@, file_hash@).file_size == old(self).file_at(
                        owner@,
                        file_hash@,
                    ).file_size
                    &&& final(self).file_at(owner@, file_hash@).storage_locator@ == old(
                        self,
                    ).file_at(owner@, file_hash@).storage_locator@
                    &&& key_view(final(self).file_at(owner@, file_hash@).encryption_key)
                        == key_view(old(self).file_at(owner@, file_hash@).encryption_key)
                    &&& final(self).file_at(owner@, file_hash@).upload_timestamp == old(
                        self,
                    ).file_at(owner@, file_hash@).upload_timestamp
                    &&& final(self).file_at(owner@, file_hash@).is_public == old(self).file_at(
                        owner@,
                        file_hash@,
                    ).is_public
                    &&& final(self).file_at(owner@, file_hash@).access_count == old(
                        self,
                    ).file_at(owner@, file_hash@).access_count + 1
                    &&& info.owner@ == owner@
                    &&& info.file_hash@ == file_hash@
                    &&& info.file_name@ == old(self).file_at(owner@, file_hash@).file_name@
                    &&& info.file_size == old(self).file_at(owner@, file_hash@).file_size
                    &&& info.storage_locator@ == old(self).file_at(
                        owner@,
                        file_hash@,
                    ).storage_locator@
                    &&& info.upload_timestamp == old(self).file_at(
                        owner@,
                        file_hash@,
                    ).upload_timestamp
                    &&& info.is_public == old(self).file_at(owner@, file_hash@).is_public
                    &&& info.access_count == old(self).file_at(owner@, file_hash@).access_count
                        + 1
                    &&& ev.accessor@ == requester@
                    &&& ev.file_hash@ == file_hash@
                    &&& ev.timestamp == now
                    &&& forall|o: Seq<u8>| #[trigger]
                        final(self).has_summary(o) == old(self).has_summary(o)
                    &&& forall|o: Seq<u8>|
                        old(self).has_summary(o) ==> #[trigger] final(self).summary_at(o) == old(
                            self,
                        ).summary_at(o)
                    &&& forall|o: Seq<u8>, h: Seq<u8>|
                        !(o == owner@ && h == file_hash@) ==> #[trigger] final(self).has_file(
                            o,
                            h,
                        ) == old(self).has_file(o, h)
                    &&& forall|o: Seq<u8>, h: Seq<u8>|
                        !(o == owner@ && h == file_hash@) && old(self).has_file(o, h)
                            ==> #[trigger] final(self).file_at(o, h) == old(self).file_at(o, h)
                    &&& forall|o: Seq<u8>| #[trigger]
                        final(self).live_files(o) == old(self).live_files(o) && final(self).storage_used(o) == old(self).storage_used(o)
                },
                Err(e) => {
                    &&& *final(self) == *old(self)
                    &&& if !old(self).has_file(owner@, file_hash@) {
                        e == StorageError::NotFound
                    } else if !(requester@ == owner@ || old(self).file_at(
                        owner@,
                        file_hash@,
                    ).is_public) {
                        e == StorageError::Unauthorized
                    } else {
                        &&& e == StorageError::ArithmeticOverflow
                        &&& old(self).file_at(owner@, file_hash@).access_count == u64::MAX
                    }
                },
            },
    {
        let fi = match self.find_file(owner, file_hash) {
            Some(fi) => fi,
            None => {
                return Err(StorageError::NotFound);
            },
        };
        proof {
            self.lemma_file_entry(fi as int);
        }
        let authorized = requester.equals(owner) || self.files[fi].1.is_public;
        if !authorized {
            return Err(StorageError::Unauthorized);
        }
        if self.files[fi].1.access_count == u64::MAX {
            return Err(StorageError::ArithmeticOverflow);
        }
        let new_key = clone_bytes(&self.files[fi].0);
        let rec = &self.files[fi].1;
        let new_rec = FileAccount {
            owner: rec.owner.dup(),
            file_hash: clone_bytes(&rec.file_hash),
            file_name: clone_bytes(&rec.file_name),
            file_size: rec.file_size,
            storage_locator: clone_bytes(&rec.storage_locator),
            encryption_key: clone_opt_bytes(&rec.encryption_key),
            upload_timestamp: rec.upload_timestamp,
            is_public: rec.is_public,
            access_count: rec.access_count + 1,
        };
        let info = FileInfo {
            owner: new_rec.owner.dup(),
            file_hash: clone_bytes(&new_rec.file_hash),
            file_name: clone_bytes(&new_rec.file_name),
            file_size: new_rec.file_size,
            storage_locator: clone_bytes(&new_rec.storage_locator),
            upload_timestamp: new_rec.upload_timestamp,
            is_public: new_rec.is_public,
            access_count: new_rec.access_count,
        };
        let ev = FileAccessed {
            accessor: requester.dup(),
            file_hash: clone_bytes(&new_rec.file_hash),
            timestamp: now,
        };
        self.files[fi] = (new_key, new_rec);
        proof {
            self.lemma_update_commit(*old(self), fi as int);
            assert(key_view(self.files@[fi as int].1.encryption_key) == key_view(
                old(self).files@[fi as int].1.encryption_key,
            ));
        }
        Ok((info, ev))
    }

    /// Removes the file record for `(owner, file_hash)` and lowers the
    /// owner's summary counters, as one atomic transaction; only the owner
    /// may delete. Fails with `NotFound` when no such record exists and
    /// with `Unauthorized` when the requester is not the owner; on failure
    /// nothing changes. Under the registry invariant the counter decrement
    /// can never go negative, so its underflow guard is provably dead and
    /// a found, authorized delete always succeeds.
    pub fn delete_file(
        &mut self,
        requester: &Identity,
        owner: &Identity,
        file_hash: &Vec<u8>,
        now: i64,
    ) -> (r: Result<FileDeleted, StorageError>)
        requires
            old(self).wf(),
            requester.wf(),
            owner.wf(),
        ensures
            final(self).wf(),
            match r {
                Ok(ev) => {
                    &&& old(self).has_file(owner@, file_hash@)
                    &&& requester@ == owner@
                    &&& !final(self).has_file(owner@, file_hash@)
                    &&& old(self).has_summary(owner@)
                    &&& final(self).has_summary(owner@)
                    &&& final(self).summary_at(owner@).owner@ == owner@
                    &&& final(self).summary_at(owner@).total_files == old(self).summary_at(
                        owner@,
                    ).total_files - 1
                    &&& final(self).summary_at(owner@).total_storage_used == old(
                        self,
                    ).summary_at(owner@).total_storage_used - old(self).file_at(
                        owner@,
                        file_hash@,
                    ).file_size
                    &&& final(self).live_files(owner@) == old(self).live_files(owner@) - 1
                    &&& final(self).storage_used(owner@) == old(self).storage_used(owner@)
                        - old(self).file_at(owner@, file_hash@).file_size
                    &&& forall|o: Seq<u8>| #[trigger]
                        final(self).has_summary(o) == old(self).has_summary(o)
                    &&& forall|o: Seq<u8>|
                        o != owner@ && old(self).has_summary(o)
                            ==> #[trigger] final(self).summary_at(o) == old(self).summary_at(o)
                    &&& forall|o: Seq<u8>, h: Seq<u8>|
                        !(o == owner@ && h == file_hash@) ==> #[trigger] final(self).has_file(
                            o,
                            h,
                        ) == old(self).has_file(o, h)
                    &&& forall|o: Seq<u8>, h: Seq<u8>|
                        !(o == owner@ && h == file_hash@) && old(self).has_file(o, h)
                            ==> #[trigger] final(self).file_at(o, h) == old(self).file_at(o, h)
                    &&& forall|o: Seq<u8>|
                        o != owner@ ==> #[trigger] final(self).live_files(o) == old(
                            self,
                        ).live_files(o) && final(self).storage_used(o) == old(
                            self,
                        ).storage_used(o)
                    &&& ev.owner@ == owner@
                    &&& ev.file_hash@ == file_hash@
                    &&& ev.timestamp == now
                },
                Err(e) => {
                    &&& *final(self) == *old(self)
                    &&& if !old(self).has_file(owner@, file_hash@) {
                        e == StorageError::NotFound
                    } else {
                        &&& e == StorageError::Unauthorized
                        &&& requester@ != owner@
                    }
                },
            },
    {
        let fi = match self.find_file(owner, file_hash) {
            Some(fi) => fi,
            None => {
                return Err(StorageError::NotFound);
            },
        };
        proof {
            self.lemma_file_entry(fi as int);
        }
        if !requester.equals(owner) {
            return Err(StorageError::Unauthorized);
        }
        let si = match self.find_summary(owner) {
            Some(si) => si,
            None => {
                // Unreachable: a live file record's owner always has a
                // summary.
                proof {
                    assert(self.files@[fi as int].1.owner@ == owner@);
                    assert(self.has_summary(owner@));
                }
                return Err(StorageError::NotFound);
            },
        };
        proof {
            self.lemma_summary_entry(si as int);
            lemma_accounting_member(self.files@, fi as int, owner@);
        }
        let tf = self.summaries[si].1.total_files;
        let ts = self.summaries[si].1.total_storage_used;
        let fsize = self.files[fi].1.file_size;
        if tf == 0 {
            // Unreachable under the invariant: the counter accounts for at
            // least the record being deleted.
            return Err(StorageError::ArithmeticUnderflow);
        }
        if ts < fsize {
            // Unreachable under the invariant, as above.
            return Err(StorageError::ArithmeticUnderflow);
        }
        let ev = FileDeleted {
            owner: owner.dup(),
            file_hash: clone_bytes(&self.files[fi].1.file_hash),
            timestamp: now,
        };
        self.files.remove(fi);
        let skey = derive_summary_address(owner);
        let sacct = StorageAccount {
            owner: owner.dup(),
            total_files: tf - 1,
            total_storage_used: ts - fsize,
        };
        self.summaries[si] = (skey, sacct);
        proof {
            self.lemma_delete_commit(*old(self), fi as int, si as int, owner@, file_hash@);
        }
        Ok(ev)
    }

    /// Sets the visibility flag of the file record for `(owner,
    /// file_hash)`; only the owner may do so. Setting the flag to its
    /// current value is a no-op that still succeeds. Fails with `NotFound`
    /// when no such record exists and with `Unauthorized` when the
    /// requester is not the owner; on failure nothing changes.
    pub fn share_file(
        &mut self,
        requester: &Identity,
        owner: &Identity,
        file_hash: &Vec<u8>,
        is_public: bool,
        now: i64,
    ) -> (r: Result<FileShared, StorageError>)
        requires
            old(self).wf(),
            requester.wf(),
            owner.wf(),
        ensures
            final(self).wf(),
            match r {
                Ok(ev) => {
                    &&& old(self).has_file(owner@, file_hash@)
                    &&& requester@ == owner@
                    &&& final(self).has_file(owner@, file_hash@)
                    &&& final(self).file_at(owner@, file_hash@).owner@ == owner@
                    &&& final(self).file_at(owner@, file_hash@).file_hash@ == file_hash@
                    &&& final(self).file_at(owner@, file_hash@).file_name@ == old(self).file_at(
                        owner@,
                        file_hash@,
                    ).file_name@
                    &&& final(self).file_at(owner@, file_hash@).file_size == old(self).file_at(
                        owner@,
                        file_hash@,
                    ).file_size
                    &&& final(self).file_at(owner@, file_hash@).storage_locator@ == old(
                        self,
                    ).file_at(owner@, file_hash@).storage_locator@
                    &&& key_view(final(self).file_at(owner@, file_hash@).encryption_key)
                        == key_view(old(self).file_at(owner@, file_hash@).encryption_key)
                    &&& final(self).file_at(owner@, file_hash@).upload_timestamp == old(
                        self,
                    ).file_at(owner@, file_hash@).upload_timestamp
                    &&& final(self).file_at(owner@, file_hash@).is_public == is_public
                    &&& final(self).file_at(owner@, file_hash@).access_count == old(
                        self,
                    ).file_at(owner@, file_hash@).access_count
                    &&& ev.owner@ == owner@
                    &&& ev.file_hash@ == file_hash@
                    &&& ev.is_public == is_public
                    &&& ev.timestamp == now
                    &&& forall|o: Seq<u8>| #[trigger]
                        final(self).has_summary(o) == old(self).has_summary(o)
                    &&& forall|o: Seq<u8>|
                        old(self).has_summary(o) ==> #[trigger] final(self).summary_at(o) == old(
                            self,
                        ).summary_at(o)
                    &&& forall|o: Seq<u8>, h: Seq<u8>|
                        !(o == owner@ && h == file_hash@) ==> #[trigger] final(self).has_file(
                            o,
                            h,
                        ) == old(self).has_file(o, h)
                    &&& forall|o: Seq<u8>, h: Seq<u8>|
                        !(o == owner@ && h == file_hash@) && old(self).has_file(o, h)
                            ==> #[trigger] final(self).file_at(o, h) == old(self).file_at(o, h)
                    &&& forall|o: Seq<u8>| #[trigger]
                        final(self).live_files(o) == old(self).live_files(o) && final(self).storage_used(o) == old(self).storage_used(o)
                },
                Err(e) => {
                    &&& *final(self) == *old(self)
                    &&& if !old(self).has_file(owner@, file_hash@) {
                        e == StorageError::NotFound
                    } else {
                        &&& e == StorageError::Unauthorized
                        &&& requester@ != owner@
                    }
                },
            },
    {
        let fi = match self.find_file(owner, file_hash) {
            Some(fi) => fi,
            None => {
                return Err(StorageError::NotFound);
            },
        };
        proof {
            self.lemma_file_entry(fi as int);
        }
        if !requester.equals(owner) {
            return Err(StorageError::Unauthorized);
        }
        let new_key = clone_bytes(&self.files[fi].0);
        let rec = &self.files[fi].1;
        let new_rec = FileAccount {
            owner: rec.owner.dup(),
            file_hash: clone_bytes(&rec.file_hash),
            file_name: clone_bytes(&rec.file_name),
            file_size: rec.file_size,
            storage_locator: clone_bytes(&rec.storage_locator),
            encryption_key: clone_opt_bytes(&rec.encryption_key),
            upload_timestamp: rec.upload_timestamp,
            is_public,
            access_count: rec.access_count,
        };
        let ev = FileShared {
            owner: owner.dup(),
            file_hash: clone_bytes(&new_rec.file_hash),
            is_public,
            timestamp: now,
        };
        self.files[fi] = (new_key, new_rec);
        proof {
            self.lemma_update_commit(*old(self), fi as int);
            assert(key_view(self.files@[fi as int].1.encryption_key) == key_view(
                old(self).files@[fi as int].1.encryption_key,
            ));
        }
        Ok(ev)
    }

    /// Returns a snapshot of `owner`'s summary. Fails with `NotFound`
    /// exactly when `owner` has no summary.
    pub fn get_storage_info(&self, owner: &Identity) -> (r: Result<StorageInfo, StorageError>)
        requires
            self.wf(),
            owner.wf(),
        ensures
            match r {
                Ok(info) => {
                    &&& self.has_summary(owner@)
                    &&& info.owner@ == owner@
                    &&& info.total_files == self.summary_at(owner@).total_files
                    &&& info.total_storage_used == self.summary_at(owner@).total_storage_used
                },
                Err(e) => {
                    &&& e == StorageError::NotFound
                    &&& !self.has_summary(owner@)
                },
            },
    {
        match self.find_summary(owner) {
            Some(i) => {
                proof {
                    self.lemma_summary_entry(i as int);
                }
                let acct = &self.summaries[i].1;
                Ok(StorageInfo {
                    owner: owner.dup(),
                    total_files: acct.total_files,
                    total_storage_used: acct.total_storage_used,
                })
            },
            None => Err(StorageError::NotFound),
        }
    }
}

} // verus!

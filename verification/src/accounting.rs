//! Aggregate accounting over the file store.
//!
//! A storage summary must always agree with the live file records it
//! accounts for: `total_files` is the number of live records of that owner
//! and `total_storage_used` is the sum of their sizes. These spec functions
//! define the count and the sum over the store's entries, and the lemmas
//! say how both move under the three ways the store changes: a record is
//! appended, removed, or updated in place without touching owner or size.

use vstd::prelude::*;
use crate::accounts::{FileAccount, StorageAccount};

verus! {

/// A keyed entry of the file store: derived address and record.
pub type FileEntry = (Vec<u8>, FileAccount);

/// A keyed entry of the summary store: derived address and record.
pub type SummaryEntry = (Vec<u8>, StorageAccount);

/// How many entries hold a record owned by `owner`.
pub open spec fn live_count(files: Seq<FileEntry>, owner: Seq<u8>) -> nat
    decreases files.len(),
{
    if files.len() == 0 {
        0
    } else {
        live_count(files.drop_last(), owner) + (if files.last().1.owner@ == owner {
            1nat
        } else {
            0nat
        })
    }
}

/// The sum of `file_size` over the entries owned by `owner`.
pub open spec fn bytes_used(files: Seq<FileEntry>, owner: Seq<u8>) -> int
    decreases files.len(),
{
    if files.len() == 0 {
        0
    } else {
        bytes_used(files.drop_last(), owner) + (if files.last().1.owner@ == owner {
            files.last().1.file_size as int
        } else {
            0
        })
    }
}

/// Appending an entry raises the owner's count by one and use by its size,
/// and leaves every other owner's accounting unchanged.
pub proof fn lemma_accounting_push(files: Seq<FileEntry>, e: FileEntry, owner: Seq<u8>)
    ensures
        live_count(files.push(e), owner) == live_count(files, owner) + (if e.1.owner@ == owner {
            1int
        } else {
            0int
        }),
        bytes_used(files.push(e), owner) == bytes_used(files, owner) + (if e.1.owner@ == owner {
            e.1.file_size as int
        } else {
            0int
        }),
{
    assert(files.push(e).drop_last() =~= files);
    assert(files.push(e).last() == e);
}

/// Removing the entry at `i` lowers its owner's count by one and use by its
/// size, and leaves every other owner's accounting unchanged.
pub proof fn lemma_accounting_remove(files: Seq<FileEntry>, i: int, owner: Seq<u8>)
    requires
        0 <= i < files.len(),
    ensures
        live_count(files.remove(i), owner) == live_count(files, owner) - (
        if files[i].1.owner@ == owner {
            1int
        } else {
            0int
        }),
        bytes_used(files.remove(i), owner) == bytes_used(files, owner) - (
        if files[i].1.owner@ == owner {
            files[i].1.file_size as int
        } else {
            0int
        }),
    decreases files.len(),
{
    if i == files.len() - 1 {
        assert(files.remove(i) =~= files.drop_last());
    } else {
        assert(files.remove(i).drop_last() =~= files.drop_last().remove(i));
        assert(files.remove(i).last() == files.last());
        assert(files.drop_last()[i] == files[i]);
        lemma_accounting_remove(files.drop_last(), i, owner);
    }
}

/// Replacing the entry at `i` by one with the same owner and the same size
/// changes no owner's accounting.
pub proof fn lemma_accounting_update(files: Seq<FileEntry>, i: int, e: FileEntry, owner: Seq<u8>)
    requires
        0 <= i < files.len(),
        e.1.owner@ == files[i].1.owner@,
        e.1.file_size == files[i].1.file_size,
    ensures
        live_count(files.update(i, e), owner) == live_count(files, owner),
        bytes_used(files.update(i, e), owner) == bytes_used(files, owner),
    decreases files.len(),
{
    if i == files.len() - 1 {
        assert(files.update(i, e).drop_last() =~= files.drop_last());
        assert(files.update(i, e).last() == e);
    } else {
        assert(files.update(i, e).drop_last() =~= files.drop_last().update(i, e));
        assert(files.update(i, e).last() == files.last());
        assert(files.drop_last()[i] == files[i]);
        lemma_accounting_update(files.drop_last(), i, e, owner);
    }
}

/// An owner with an entry in the store has a count of at least one and a
/// use of at least that entry's size.
pub proof fn lemma_accounting_member(files: Seq<FileEntry>, i: int, owner: Seq<u8>)
    requires
        0 <= i < files.len(),
        files[i].1.owner@ == owner,
    ensures
        live_count(files, owner) >= 1,
        bytes_used(files, owner) >= files[i].1.file_size,
    decreases files.len(),
{
    lemma_bytes_used_nonneg(files.drop_last(), owner);
    if i < files.len() - 1 {
        assert(files.drop_last()[i] == files[i]);
        lemma_accounting_member(files.drop_last(), i, owner);
        lemma_bytes_used_nonneg(files, owner);
    }
}

/// An owner with no entry in the store has a count and a use of zero.
pub proof fn lemma_accounting_absent(files: Seq<FileEntry>, owner: Seq<u8>)
    requires
        forall|i: int| 0 <= i < files.len() ==> (#[trigger] files[i]).1.owner@ != owner,
    ensures
        live_count(files, owner) == 0,
        bytes_used(files, owner) == 0,
    decreases files.len(),
{
    if files.len() > 0 {
        assert(forall|i: int|
            0 <= i < files.drop_last().len() ==> #[trigger] files.drop_last()[i] == files[i]);
        lemma_accounting_absent(files.drop_last(), owner);
    }
}

/// When every entry's size is positive, an owner's count and byte use are
/// zero together.
pub proof fn lemma_accounting_zero_together(files: Seq<FileEntry>, owner: Seq<u8>)
    requires
        forall|i: int| 0 <= i < files.len() ==> (#[trigger] files[i]).1.file_size > 0,
    ensures
        (live_count(files, owner) == 0) <==> (bytes_used(files, owner) == 0),
    decreases files.len(),
{
    if files.len() > 0 {
        assert(forall|i: int|
            0 <= i < files.drop_last().len() ==> #[trigger] files.drop_last()[i] == files[i]);
        lemma_accounting_zero_together(files.drop_last(), owner);
        lemma_bytes_used_nonneg(files.drop_last(), owner);
        assert(files[files.len() - 1].1.file_size > 0);
    }
}

/// The byte-use sum is never negative.
pub proof fn lemma_bytes_used_nonneg(files: Seq<FileEntry>, owner: Seq<u8>)
    ensures
        bytes_used(files, owner) >= 0,
    decreases files.len(),
{
    if files.len() > 0 {
        lemma_bytes_used_nonneg(files.drop_last(), owner);
    }
}

} // verus!

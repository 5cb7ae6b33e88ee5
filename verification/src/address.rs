//! Deterministic address derivation.
//!
//! Records live in a keyed store. The key of a record is a pure function of
//! the logical entity it holds: a storage summary is addressed by its owner,
//! a file record by its owner and the file's content hash. A namespace tag
//! keeps the two kinds apart, and the fixed identity width makes the
//! derivation injective, so two distinct logical entities never share an
//! address and anyone who knows the owner (and hash) can re-derive the key.

use vstd::prelude::*;
use crate::bytes::push_bytes;
use crate::identity::{Identity, IDENTITY_LEN};

verus! {

/// Namespace tag of storage-summary addresses.
pub const SUMMARY_TAG: u8 = 1;

/// Namespace tag of file-record addresses.
pub const FILE_TAG: u8 = 2;

/// The address of an owner's storage summary.
pub open spec fn summary_address(owner: Seq<u8>) -> Seq<u8> {
    seq![SUMMARY_TAG] + owner
}

/// The address of the file record for `(owner, file_hash)`.
pub open spec fn file_address(owner: Seq<u8>, file_hash: Seq<u8>) -> Seq<u8> {
    seq![FILE_TAG] + owner + file_hash
}

/// Computes the storage-summary address of `owner`.
pub fn derive_summary_address(owner: &Identity) -> (r: Vec<u8>)
    ensures
        r@ == summary_address(owner@),
{
    let mut r: Vec<u8> = Vec::new();
    r.push(SUMMARY_TAG);
    let owner_bytes = owner.to_bytes();
    push_bytes(&mut r, &owner_bytes);
    proof {
        assert(r@ =~= summary_address(owner@));
    }
    r
}

/// Computes the file-record address of `(owner, file_hash)`.
pub fn derive_file_address(owner: &Identity, file_hash: &Vec<u8>) -> (r: Vec<u8>)
    ensures
        r@ == file_address(owner@, file_hash@),
{
    let mut r: Vec<u8> = Vec::new();
    r.push(FILE_TAG);
    let owner_bytes = owner.to_bytes();
    push_bytes(&mut r, &owner_bytes);
    push_bytes(&mut r, file_hash);
    proof {
        assert(r@ =~= file_address(owner@, file_hash@));
    }
    r
}

/// Two owners with the same summary address are the same owner.
pub proof fn lemma_summary_address_injective(o1: Seq<u8>, o2: Seq<u8>)
    requires
        summary_address(o1) == summary_address(o2),
    ensures
        o1 == o2,
{
    assert(summary_address(o1).len() == 1 + o1.len());
    assert(summary_address(o2).len() == 1 + o2.len());
    assert forall|i: int| 0 <= i < o1.len() implies o1[i] == o2[i] by {
        assert(summary_address(o1)[i + 1] == o1[i]);
        assert(summary_address(o2)[i + 1] == o2[i]);
    }
    assert(o1 =~= o2);
}

/// Two `(owner, file_hash)` pairs with the same file address are the same
/// pair, as long as both owners have the fixed identity width.
pub proof fn lemma_file_address_injective(o1: Seq<u8>, h1: Seq<u8>, o2: Seq<u8>, h2: Seq<u8>)
    requires
        o1.len() == IDENTITY_LEN,
        o2.len() == IDENTITY_LEN,
        file_address(o1, h1) == file_address(o2, h2),
    ensures
        o1 == o2,
        h1 == h2,
{
    let a1 = file_address(o1, h1);
    let a2 = file_address(o2, h2);
    assert(a1.len() == 1 + IDENTITY_LEN + h1.len());
    assert(a2.len() == 1 + IDENTITY_LEN + h2.len());
    assert(h1.len() == h2.len());
    assert forall|i: int| 0 <= i < o1.len() implies o1[i] == o2[i] by {
        assert(a1[i + 1] == o1[i]);
        assert(a2[i + 1] == o2[i]);
    }
    assert(o1 =~= o2);
    assert forall|i: int| 0 <= i < h1.len() implies h1[i] == h2[i] by {
        assert(a1[1 + IDENTITY_LEN + i] == h1[i]);
        assert(a2[1 + IDENTITY_LEN + i] == h2[i]);
    }
    assert(h1 =~= h2);
}

/// A summary address never collides with a file-record address.
pub proof fn lemma_address_kinds_disjoint(o1: Seq<u8>, o2: Seq<u8>, file_hash: Seq<u8>)
    ensures
        summary_address(o1) != file_address(o2, file_hash),
{
    assert(summary_address(o1)[0] == SUMMARY_TAG);
    assert(file_address(o2, file_hash)[0] == FILE_TAG);
}

} // verus!

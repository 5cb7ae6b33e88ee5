//! Caller and owner identities.
//!
//! An identity is an opaque, globally unique 32-byte public identifier. The
//! registry interprets no structure inside it; it only compares identities
//! and folds them into derived record addresses.

use vstd::prelude::*;
use crate::bytes::clone_bytes;

verus! {

/// The exact number of bytes in an identity.
pub const IDENTITY_LEN: usize = 32;

/// An opaque 32-byte caller/owner identifier.
#[derive(Debug)]
pub struct Identity {
    bytes: Vec<u8>,
}

impl View for Identity {
    type V = Seq<u8>;

    closed spec fn view(&self) -> Seq<u8> {
        self.bytes@
    }
}

impl Identity {
    /// Every identity built through `from_bytes` has exactly 32 bytes.
    pub open spec fn wf(self) -> bool {
        self@.len() == IDENTITY_LEN
    }

    /// Builds an identity from its 32 raw bytes; rejects any other length.
    pub fn from_bytes(bytes: Vec<u8>) -> (r: Option<Identity>)
        ensures
            match r {
                Some(id) => bytes@.len() == IDENTITY_LEN && id@ == bytes@ && id.wf(),
                None => bytes@.len() != IDENTITY_LEN,
            },
    {
        if bytes.len() == IDENTITY_LEN {
            Some(Identity { bytes })
        } else {
            None
        }
    }

    /// A fresh identity value with the same bytes.
    pub fn dup(&self) -> (r: Identity)
        ensures
            r@ == self@,
            r.wf() == self.wf(),
    {
        Identity { bytes: clone_bytes(&self.bytes) }
    }

    /// Byte-for-byte equality of two identities.
    pub fn equals(&self, other: &Identity) -> (r: bool)
        ensures
            r == (self@ == other@),
    {
        crate::bytes::bytes_eq(&self.bytes, &other.bytes)
    }

    /// The raw bytes, for callers that persist or display an identity.
    pub fn to_bytes(&self) -> (r: Vec<u8>)
        ensures
            r@ == self@,
    {
        clone_bytes(&self.bytes)
    }
}

} // verus!

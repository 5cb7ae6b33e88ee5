//! The error taxonomy of the registry.
//!
//! Every operation either commits completely or fails with one of these
//! errors and changes nothing. No error is swallowed or downgraded.

use vstd::prelude::*;

verus! {

/// The input field a validation failure names.
#[derive(Clone, Copy, Debug, PartialEq, Eq, Structural)]
pub enum ValidationField {
    FileHash,
    FileName,
    StorageLocator,
    FileSize,
    EncryptionKey,
}

/// Why an operation was rejected. Rejection commits no state change.
#[derive(Clone, Copy, Debug, PartialEq, Eq, Structural)]
pub enum StorageError {
    /// An input field is malformed; names the violated field.
    ValidationError { field: ValidationField },
    /// A record already occupies the derived address.
    AlreadyExists,
    /// No record exists at the derived address.
    NotFound,
    /// The requester may not perform this operation on this record.
    Unauthorized,
    /// A counter increment would overflow its width.
    ArithmeticOverflow,
    /// A counter decrement would go negative.
    ArithmeticUnderflow,
}

} // verus!

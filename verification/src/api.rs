//! HTTP-level result values shared by the service operations: the status
//! codes a handler answers with, and the error kinds that surface as a
//! 500 to the client.

use vstd::prelude::*;

verus! {

/// Status answered by the account operations: 200, 401 or 409.
#[derive(Clone, Copy, Debug, PartialEq, Eq, Structural)]
pub enum Status {
    Success,
    Unauthorized,
    Conflict,
}

/// Error kinds the handlers distinguish: a malformed request is a 400,
/// the rest bubble to the HTTP runtime's 500 mapper.
#[derive(Clone, Copy, Debug, PartialEq, Eq, Structural)]
pub enum ApiError {
    /// A request value the service refuses outright, such as an unsafe
    /// filename.
    Validation,
    /// A stored password blob could not be recovered into a hash value.
    RecoverHash,
    /// The password-hashing primitive did not complete.
    HashFailed,
    /// A storage-level violation, such as inserting a duplicate key.
    Storage,
}

} // verus!

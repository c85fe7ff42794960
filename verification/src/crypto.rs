//! Trusted interface to the Argon2id password-hashing primitive of
//! sodiumoxide.  Hashing salts randomly, so only verification facts are
//! stated about its output.

use vstd::prelude::*;

verus! {

/// Number of bytes in a stored password-verification blob
/// (`argon2id13::HASHEDPASSWORDBYTES`).
pub const HASHED_PASSWORD_LEN: usize = 128;

/// What `argon2id13::pwhash_verify` answers for a stored blob and a
/// submitted password: whether the blob is a valid verification string
/// for that password.  The answer is a function of the two values
/// alone.
pub uninterp spec fn password_verifies(blob: Seq<u8>, password: Seq<char>) -> bool;

/// Relies on `argon2id13::pwhash` at interactive cost: on success the
/// result is a `HASHEDPASSWORDBYTES`-byte verification blob which
/// `pwhash_verify` accepts for this password; on failure it yields
/// nothing.
#[verifier::external_body]
pub(crate) fn pwhash(password: &str) -> (r: Option<Vec<u8>>)
    ensures
        r matches Some(b) ==> b@.len() == HASHED_PASSWORD_LEN && password_verifies(
            b@,
            password@,
        ),
{
    sodiumoxide::crypto::pwhash::argon2id13::pwhash(
        password.as_bytes(),
        sodiumoxide::crypto::pwhash::argon2id13::OPSLIMIT_INTERACTIVE,
        sodiumoxide::crypto::pwhash::argon2id13::MEMLIMIT_INTERACTIVE,
    )
        .ok()
        .map(|h| h.as_ref().to_vec())
}

/// Relies on `argon2id13::pwhash_verify`: true exactly when `blob` is a
/// valid verification string for `password`.  The 128-byte
/// `HashedPassword` argument is recovered from the slice first, a
/// length-checked copy that the precondition keeps total.
#[verifier::external_body]
pub(crate) fn pwhash_verify(blob: &[u8], password: &str) -> (r: bool)
    requires
        blob@.len() == HASHED_PASSWORD_LEN,
    ensures
        r == password_verifies(blob@, password@),
{
    match sodiumoxide::crypto::pwhash::argon2id13::HashedPassword::from_slice(blob) {
        Some(h) => sodiumoxide::crypto::pwhash::argon2id13::pwhash_verify(
            &h,
            password.as_bytes(),
        ),
        None => false,
    }
}

} // verus!

//! Argon2id password verification (the `argon2` crate).
use vstd::prelude::*;

use argon2::password_hash::rand_core::OsRng;
use argon2::password_hash::{PasswordHasher, SaltString};
use argon2::PasswordVerifier;

use crate::error::{password_processing_error, AppError};

verus! {

/// Errors of the password-hash crate.
#[verifier::external_type_specification]
#[verifier::external_body]
pub struct ExPasswordHashError(argon2::password_hash::Error);

/// Whether `hash` is a PHC string that `PasswordHash::new` accepts.
pub uninterp spec fn phc_string_valid(hash: Seq<char>) -> bool;

/// Whether `Argon2::default().verify_password` accepts `password` against the
/// PHC string `hash`: it re-hashes with the algorithm, parameters and salt read
/// from that string and compares.
pub uninterp spec fn argon2_accepts(password: Seq<char>, hash: Seq<char>) -> bool;

/// `Argon2::default().hash_password` with a fresh random salt, as a PHC
/// string.  Claims only that a string it returns parses as a PHC string and
/// verifies against `password`: `verify_password` re-hashes with the salt and
/// parameters read back from that string.  The salt is random, so nothing
/// more is said of the string.
#[verifier::external_body]
pub fn hash_password(password: &str) -> (r: Result<String, argon2::password_hash::Error>)
    ensures
        r matches Ok(h) ==> phc_string_valid(h@) && argon2_accepts(password@, h@),
{
    let salt = SaltString::generate(&mut OsRng);
    Ok(argon2::Argon2::default().hash_password(password.as_bytes(), &salt)?.to_string())
}

/// The PHC string to store for a new `password`; a failure of the hasher is
/// answered as an internal error that tells nothing of its cause.
pub fn stored_password_hash(password: &str) -> (r: Result<String, AppError>)
    ensures
        r matches Ok(h) ==> phc_string_valid(h@) && argon2_accepts(password@, h@),
        r matches Err(e) ==> (e matches AppError::Internal(m) && m@ == "Password processing error"@),
{
    match hash_password(password) {
        Ok(h) => Ok(h),
        Err(_) => Err(password_processing_error()),
    }
}

/// `PasswordHash::new(hash)` then `Argon2::default().verify_password`.
/// Claims that the result is an error exactly when the named parse rejects
/// the hash, and otherwise the named verdict.
#[verifier::external_body]
pub fn verify_password(password: &str, hash: &str) -> (r: Result<bool, argon2::password_hash::Error>)
    ensures
        r is Err <==> !phc_string_valid(hash@),
        r matches Ok(b) ==> b == argon2_accepts(password@, hash@),
{
    let parsed = argon2::password_hash::PasswordHash::new(hash)?;
    Ok(argon2::Argon2::default().verify_password(password.as_bytes(), &parsed).is_ok())
}

} // verus!

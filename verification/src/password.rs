//! Passwords: checking one against a stored hash, and hashing a new one.
//! The hashing itself is Argon2, done by the `argon2` crate.

use argon2::{PasswordHasher, PasswordVerifier};
use vstd::prelude::*;

verus! {

/// What checking `password` against the stored hash `hash` gives with
/// `argon2`: `None` where `PasswordHash::new` does not accept the hash,
/// else whether `Argon2::default().verify_password` accepts the password.
pub uninterp spec fn argon2_accepts(password: Seq<u8>, hash: Seq<char>) -> Option<bool>;

/// The hash that `Argon2::default().hash_password` gives for `password`
/// with the salt `salt`, written as text: `None` where
/// `SaltString::from_b64` does not accept the salt or the hashing reports
/// an error.
pub uninterp spec fn argon2_hashed(password: Seq<u8>, salt: Seq<char>) -> Option<Seq<char>>;

/// Calls `argon2::PasswordHash::new` and, on the parsed hash,
/// `Argon2::default().verify_password`.
///
/// Trusted: the result is a function of the password and the hash alone;
/// nothing else is claimed of it. The crate works in the memory that the
/// parameters written in the hash ask for.
#[verifier::external_body]
pub(crate) fn argon2_check(password: &[u8], hash: &str) -> (checked: Option<bool>)
    ensures
        checked == argon2_accepts(password@, hash@),
{
    match argon2::PasswordHash::new(hash) {
        Ok(parsed) => Some(argon2::Argon2::default().verify_password(password, &parsed).is_ok()),
        Err(_) => None,
    }
}

/// Calls `argon2::password_hash::SaltString::from_b64` and, with that
/// salt, `Argon2::default().hash_password`; the hash is written out with
/// `to_string`.
///
/// Trusted: the result is a function of the password and the salt alone;
/// nothing else is claimed of it.
#[verifier::external_body]
pub(crate) fn argon2_hash(password: &[u8], salt: &str) -> (hashed: Option<String>)
    ensures
        match hashed {
            Some(text) => argon2_hashed(password@, salt@) == Some(text@),
            None => argon2_hashed(password@, salt@) is None,
        },
{
    let salt = argon2::password_hash::SaltString::from_b64(salt).ok()?;
    match argon2::Argon2::default().hash_password(password, &salt) {
        Ok(hash) => Some(hash.to_string()),
        Err(_) => None,
    }
}

} // verus!

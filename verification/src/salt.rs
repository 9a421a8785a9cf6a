//! Fresh random text from the system's random number generator.

use vstd::prelude::*;

verus! {

/// Calls `argon2::password_hash::SaltString::generate` on the system's
/// random number generator, `rand::rngs::OsRng`, and copies the text out
/// with `as_str`.
///
/// Trusted: nothing is claimed of the result, which is sixteen random bytes
/// written as text. The generator panics where the system gives it no
/// random bytes.
#[verifier::external_body]
pub(crate) fn fresh_salt() -> String {
    argon2::password_hash::SaltString::generate(&mut rand::rngs::OsRng).as_str().to_string()
}

} // verus!

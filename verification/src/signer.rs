//! The signer: a keyed message authentication code over byte strings,
//! HMAC-SHA256, and the secret it is keyed with.

use hmac::Mac;
use vstd::prelude::*;
use vstd::utf8::*;

verus! {

/// What is wrong with the configuration the process was started with.
#[derive(Debug, Clone, Copy, PartialEq, Eq)]
pub enum ConfigError {
    /// No signing secret was given, or an empty one.
    MissingSecret,
}

/// The shared secret that tokens are signed with. It is never empty.
pub struct SigningKey {
    secret: Vec<u8>,
}

impl View for SigningKey {
    type V = Seq<u8>;

    closed spec fn view(&self) -> Seq<u8> {
        self.secret@
    }
}

impl SigningKey {
    #[verifier::type_invariant]
    spec fn holds_a_secret(self) -> bool {
        self.secret@.len() > 0
    }

    /// Makes a key of the bytes of `secret`; an empty secret is refused.
    pub fn new(secret: &str) -> (r: Result<SigningKey, ConfigError>)
        ensures
            match r {
                Ok(key) => secret@.len() > 0 && key@ == encode_utf8(secret@),
                Err(e) => secret@.len() == 0 && e == ConfigError::MissingSecret,
            },
    {
        if secret.is_empty() {
            return Err(ConfigError::MissingSecret);
        }
        let bytes = secret.as_bytes_vec();
        proof {
            let chars = secret@;
            assert(encode_utf8(chars) == encode_scalar(chars[0] as u32) + encode_utf8(
                chars.drop_first(),
            ));
        }
        Ok(SigningKey { secret: bytes })
    }

    /// Makes a key of a configuration value that may be absent.
    pub fn from_setting(value: Option<&str>) -> (r: Result<SigningKey, ConfigError>)
        ensures
            match r {
                Ok(key) => value matches Some(secret) && secret@.len() > 0 && key@ == encode_utf8(
                    secret@,
                ),
                Err(e) => e == ConfigError::MissingSecret && (value matches Some(secret)
                    ==> secret@.len() == 0),
            },
    {
        match value {
            Some(secret) => SigningKey::new(secret),
            None => Err(ConfigError::MissingSecret),
        }
    }
}

/// Length in bytes of an HMAC-SHA256 tag.
pub const TAG_LEN: usize = 32;

/// The tag that HMAC-SHA256 (`hmac::Hmac<sha2::Sha256>`) computes for
/// `message` under `key`.
pub uninterp spec fn hmac_sha256(key: Seq<u8>, message: Seq<u8>) -> Seq<u8>;

/// Calls `Hmac::<Sha256>::new_from_slice`, `update` and `finalize`.
///
/// Trusted: the result is the HMAC-SHA256 tag of `message` under `key`, a
/// function of the two alone, and it is 32 bytes long. `new_from_slice`
/// accepts a key of any length, so the `expect` cannot fail.
#[verifier::external_body]
fn hmac_sha256_tag(key: &[u8], message: &[u8]) -> (tag: Vec<u8>)
    ensures
        tag@ == hmac_sha256(key@, message@),
        tag@.len() == TAG_LEN,
{
    let mut mac = hmac::Hmac::<sha2::Sha256>::new_from_slice(key).expect("any key length");
    mac.update(message);
    mac.finalize().into_bytes().to_vec()
}

/// The tag of `message` under `key`.
pub fn sign(message: &[u8], key: &SigningKey) -> (tag: Vec<u8>)
    ensures
        tag@ == hmac_sha256(key@, message@),
        tag@.len() == TAG_LEN,
{
    hmac_sha256_tag(key.secret.as_slice(), message)
}

/// Tells whether `signature` is the tag of `message` under `key`. The tag
/// is computed again and compared with `constant_time_eq`.
pub fn verify(message: &[u8], key: &SigningKey, signature: &[u8]) -> (genuine: bool)
    ensures
        genuine == (signature@ == hmac_sha256(key@, message@)),
{
    let tag = sign(message, key);
    constant_time_eq(signature, tag.as_slice())
}

/// Compares two byte strings without leaving early at the first difference:
/// every pair of bytes is visited once both lengths agree.
pub fn constant_time_eq(a: &[u8], b: &[u8]) -> (same: bool)
    ensures
        same == (a@ == b@),
{
    if a.len() != b.len() {
        return false;
    }
    let mut diff: u8 = 0;
    let mut i: usize = 0;
    while i < a.len()
        invariant
            a@.len() == b@.len(),
            i <= a@.len(),
            (diff == 0) == (a@.take(i as int) =~= b@.take(i as int)),
        decreases a@.len() - i,
    {
        let x: u8 = a[i];
        let y: u8 = b[i];
        proof {
            assert((x ^ y == 0u8) == (x == y)) by (bit_vector);
            assert((diff | (x ^ y) == 0u8) == (diff == 0u8 && x ^ y == 0u8)) by (bit_vector);
            let n = i as int;
            assert(a@.take(n + 1) == a@.take(n).push(a@[n]));
            assert(b@.take(n + 1) == b@.take(n).push(b@[n]));
            if a@.take(n + 1) == b@.take(n + 1) {
                assert(a@.take(n + 1).drop_last() == a@.take(n));
                assert(b@.take(n + 1).drop_last() == b@.take(n));
                assert(a@.take(n + 1).last() == b@.take(n + 1).last());
            }
        }
        diff = diff | (x ^ y);
        i = i + 1;
    }
    proof {
        assert(a@.take(a@.len() as int) == a@);
        assert(b@.take(b@.len() as int) == b@);
    }
    diff == 0
}

} // verus!

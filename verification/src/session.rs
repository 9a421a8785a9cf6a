//! The session issuer: an access token and a refresh token for one subject,
//! minted together with independent lifetimes.

use crate::claims::{Claims, ClaimsView};
use crate::clock::unix_now;
use crate::salt::fresh_salt;
use crate::signer::SigningKey;
use crate::token;
use crate::token::{token_bytes, verification, well_shaped, VerifyFailure};
use vstd::prelude::*;
use vstd::string::StringExecFns;
use vstd::utf8::*;

verus! {

/// Seconds for which an access token is accepted: one hour.
pub const ACCESS_LIFETIME: i64 = 3600;

/// Seconds for which a refresh token is accepted: thirty days.
pub const REFRESH_LIFETIME: i64 = 2_592_000;

/// The two tokens of a session, as the strings handed to the client.
#[derive(Debug, Clone, PartialEq, Eq)]
pub struct GenerateJWt {
    /// The short-lived access token.
    pub token: String,
    /// The long-lived refresh token.
    pub refresh_token: String,
}

/// Why no token could be minted.
#[derive(Debug, Clone, Copy, PartialEq, Eq)]
pub enum IssueError {
    /// The expiry time does not fit in 64 bits.
    ExpiryOutOfRange,
}

impl IssueError {
    /// A short description of the error.
    pub fn to_string(&self) -> (text: String)
        ensures
            text@ == "token expiry is out of range"@,
    {
        String::from_str("token expiry is out of range")
    }
}

/// The claims of a token minted at `now` for `lifetime` seconds.
pub open spec fn minted_claims(
    subject_id: i64,
    lifetime: i64,
    now: i64,
    token_id: Seq<char>,
) -> ClaimsView {
    ClaimsView {
        subject_id,
        issued_at: now,
        expires_at: (now + lifetime) as i64,
        token_id,
    }
}

/// The access and the refresh token of a session started at `now`, or
/// `None` where the refresh expiry does not fit in 64 bits.
pub open spec fn issued_pair(
    subject_id: i64,
    now: i64,
    access_id: Seq<char>,
    refresh_id: Seq<char>,
    key: Seq<u8>,
) -> Option<(Seq<u8>, Seq<u8>)> {
    if now + REFRESH_LIFETIME > i64::MAX {
        None
    } else {
        Some(
            (
                token_bytes(minted_claims(subject_id, ACCESS_LIFETIME, now, access_id), key),
                token_bytes(minted_claims(subject_id, REFRESH_LIFETIME, now, refresh_id), key),
            ),
        )
    }
}

/// `issued` is what issuing for `subject_id` under `key` gives at some
/// time and with some pair of token ids: a token pair, or nothing where
/// that time is within thirty days of the end of 64-bit time.
pub open spec fn issued_at_some_time(
    issued: Option<(Seq<u8>, Seq<u8>)>,
    subject_id: i64,
    key: Seq<u8>,
) -> bool {
    exists|now: i64, access_id: Seq<char>, refresh_id: Seq<char>|
        issued == #[trigger] issued_pair(subject_id, now, access_id, refresh_id, key)
}

/// The bytes of the two tokens of a result that carries a token pair.
pub open spec fn pair_bytes<E>(r: Result<GenerateJWt, E>) -> Option<(Seq<u8>, Seq<u8>)> {
    match r {
        Ok(pair) => Some((encode_utf8(pair.token@), encode_utf8(pair.refresh_token@))),
        Err(_) => None,
    }
}

/// Mints one token for `subject_id` that is issued at `now` and expires
/// `lifetime` seconds later. The token has the shape of an issued token:
/// three segments of base64url text, the last one 43 long.
pub fn mint(subject_id: i64, lifetime: i64, now: i64, token_id: String, key: &SigningKey) -> (r:
    Result<String, IssueError>)
    ensures
        match r {
            Ok(text) => i64::MIN <= now + lifetime <= i64::MAX && encode_utf8(text@)
                == token_bytes(minted_claims(subject_id, lifetime, now, token_id@), key@),
            Err(e) => !(i64::MIN <= now + lifetime <= i64::MAX),
        },
        r matches Ok(text) ==> well_shaped(encode_utf8(text@)),
        r matches Ok(text) ==> forall|at: i64| #[trigger]
            verification(encode_utf8(text@), key@, at) == if now + lifetime < at {
                Err::<ClaimsView, VerifyFailure>(VerifyFailure::Expired)
            } else {
                Ok(minted_claims(subject_id, lifetime, now, token_id@))
            },
{
    match now.checked_add(lifetime) {
        Some(expires_at) => {
            let claims = Claims { subject_id, issued_at: now, expires_at, token_id };
            Ok(token::encode(&claims, key))
        },
        None => Err(IssueError::ExpiryOutOfRange),
    }
}

/// Issues the token pair of a session that starts at `now`, with the two
/// given token ids.
///
/// The access token expires at `now + 3600`, the refresh token at
/// `now + 2592000`; nothing is issued where the latter does not fit in 64
/// bits. While it has not expired, each token is accepted under `key` and
/// names `subject_id`. Each token has the shape of an issued token.
pub fn issue_at(
    subject_id: i64,
    now: i64,
    access_id: String,
    refresh_id: String,
    key: &SigningKey,
) -> (r: Result<GenerateJWt, IssueError>)
    ensures
        pair_bytes(r) == issued_pair(subject_id, now, access_id@, refresh_id@, key@),
        r matches Err(e) ==> e == IssueError::ExpiryOutOfRange,
        r is Ok ==> minted_claims(subject_id, ACCESS_LIFETIME, now, access_id@).well_formed()
            && minted_claims(subject_id, REFRESH_LIFETIME, now, refresh_id@).well_formed(),
        r matches Ok(pair) ==> well_shaped(encode_utf8(pair.token@)) && well_shaped(
            encode_utf8(pair.refresh_token@),
        ),
        r matches Ok(pair) ==> forall|at: i64| #[trigger]
            verification(encode_utf8(pair.token@), key@, at) == if now + ACCESS_LIFETIME < at {
                Err::<ClaimsView, VerifyFailure>(VerifyFailure::Expired)
            } else {
                Ok(minted_claims(subject_id, ACCESS_LIFETIME, now, access_id@))
            },
        r matches Ok(pair) ==> forall|at: i64| #[trigger]
            verification(encode_utf8(pair.refresh_token@), key@, at) == if now + REFRESH_LIFETIME
                < at {
                Err::<ClaimsView, VerifyFailure>(VerifyFailure::Expired)
            } else {
                Ok(minted_claims(subject_id, REFRESH_LIFETIME, now, refresh_id@))
            },
{
    if now > i64::MAX - REFRESH_LIFETIME {
        return Err(IssueError::ExpiryOutOfRange);
    }
    let token = match mint(subject_id, ACCESS_LIFETIME, now, access_id, key) {
        Ok(text) => text,
        Err(e) => {
            return Err(e);
        },
    };
    let refresh_token = match mint(subject_id, REFRESH_LIFETIME, now, refresh_id, key) {
        Ok(text) => text,
        Err(e) => {
            return Err(e);
        },
    };
    Ok(GenerateJWt { token, refresh_token })
}

/// Issues the token pair of a session for `id`, started now, with two
/// fresh random token ids.
///
/// The clock and the random ids are read from outside, so the contract
/// holds for whatever they were: the result is what [`issue_at`] gives for
/// some time and some pair of ids.
pub fn generate_jwt(id: i64, key: &SigningKey) -> (r: Result<GenerateJWt, IssueError>)
    ensures
        issued_at_some_time(pair_bytes(r), id, key@),
        r matches Err(e) ==> e == IssueError::ExpiryOutOfRange,
        r matches Ok(pair) ==> well_shaped(encode_utf8(pair.token@)) && well_shaped(
            encode_utf8(pair.refresh_token@),
        ),
{
    let now = unix_now();
    let access_id = fresh_salt();
    let refresh_id = fresh_salt();
    let ghost a = access_id@;
    let ghost b = refresh_id@;
    let r = issue_at(id, now, access_id, refresh_id, key);
    assert(pair_bytes(r) == issued_pair(id, now, a, b, key@));
    r
}

} // verus!

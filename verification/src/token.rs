//! The token codec: a signed token as a compact string, and its checks.
//!
//! A token is three segments joined by dots:
//! `base64url(header) . base64url(claims) . base64url(tag)`, where the tag
//! is the HMAC-SHA256 of the first two segments and the dot between them.

use crate::base64url;
use crate::base64url::{base64url, base64url_decoded, encoded_len, is_alphabet_text};
use crate::bytes::append;
use crate::clock::unix_now;
use crate::claims::{
    claims_json, claims_of_json, lemma_claims_of_json, parse_claims, write_claims, Claims,
    ClaimsView,
};
use crate::signer::{constant_time_eq, hmac_sha256, sign, SigningKey};
use crate::split::{free_of, join3, lemma_split_join3, split, three_pieces};
use crate::text::{ascii_string, is_ascii_bytes};
use vstd::prelude::*;
use vstd::slice::slice_subrange;
use vstd::string::{StringExecFns, StringSliceAdditionalSpecFns};
use vstd::utf8::*;

verus! {

/// The byte `.` that joins the segments of a token.
pub const DOT: u8 = 0x2e;

/// The header that every token starts with, as JSON.
pub const HEADER_JSON: &'static str = "{\"alg\":\"HS256\",\"typ\":\"https://youtu.be/xvFZjo5PgG0\"}";

/// Why a token was not accepted.
#[derive(Debug, Clone, Copy, PartialEq, Eq)]
pub enum VerifyFailure {
    /// The token does not have three segments, or its claims segment is no
    /// base64url text.
    MalformedFormat,
    /// The signature segment is not the tag of the first two segments.
    InvalidSignature,
    /// The claims segment holds no JSON object with the members of claims.
    MalformedClaims,
    /// The token was presented after its last second.
    Expired,
}

impl VerifyFailure {
    /// The words a rejected token is answered with.
    pub open spec fn reason_text(self) -> Seq<char> {
        match self {
            VerifyFailure::MalformedFormat => "Invalid Token format"@,
            VerifyFailure::InvalidSignature => "Invalid Signature"@,
            VerifyFailure::MalformedClaims => "Invalid Token claims"@,
            VerifyFailure::Expired => "Token Expired"@,
        }
    }

    /// The words a rejected token is answered with.
    pub fn reason(&self) -> (text: &'static str)
        ensures
            text@ == self.reason_text(),
    {
        match self {
            VerifyFailure::MalformedFormat => "Invalid Token format",
            VerifyFailure::InvalidSignature => "Invalid Signature",
            VerifyFailure::MalformedClaims => "Invalid Token claims",
            VerifyFailure::Expired => "Token Expired",
        }
    }
}

/// The bytes of the header.
pub open spec fn header_bytes() -> Seq<u8> {
    encode_utf8(HEADER_JSON@)
}

/// What gets signed: the header segment, a dot, the claims segment.
pub open spec fn signing_input(c: ClaimsView) -> Seq<u8> {
    base64url(header_bytes()) + seq![DOT] + base64url(claims_json(c))
}

/// The token for claims `c` under `key`.
pub open spec fn token_bytes(c: ClaimsView, key: Seq<u8>) -> Seq<u8> {
    signing_input(c) + seq![DOT] + base64url(hmac_sha256(key, signing_input(c)))
}

/// Length of the signature segment: the base64url text of a 32-byte tag.
pub const SIGNATURE_TEXT_LEN: usize = 43;

/// The three segments of the token for claims `c` under `key`.
pub open spec fn segments(c: ClaimsView, key: Seq<u8>) -> Seq<Seq<u8>> {
    seq![
        base64url(header_bytes()),
        base64url(claims_json(c)),
        base64url(hmac_sha256(key, signing_input(c))),
    ]
}

/// The shape of an issued token: exactly three segments, each of them not
/// empty and made of the base64url alphabet alone, the last one 43 long.
pub open spec fn well_shaped(token: Seq<u8>) -> bool {
    let parts = split(token, DOT);
    &&& parts.len() == 3
    &&& parts[0].len() > 0 && is_alphabet_text(parts[0])
    &&& parts[1].len() > 0 && is_alphabet_text(parts[1])
    &&& parts[2].len() == SIGNATURE_TEXT_LEN && is_alphabet_text(parts[2])
}

/// What checking `token` under `key` at time `now` gives. The checks run
/// in this order: three segments; the signature; the claims segment as
/// base64url; the claims as JSON, in any form of JSON that holds the four
/// members; the expiry. A token is accepted up to and including the second
/// `expires_at`.
pub open spec fn verification(token: Seq<u8>, key: Seq<u8>, now: i64) -> Result<
    ClaimsView,
    VerifyFailure,
> {
    let parts = split(token, DOT);
    if parts.len() != 3 {
        Err(VerifyFailure::MalformedFormat)
    } else if base64url_decoded(parts[2]) != Some(
        hmac_sha256(key, parts[0] + seq![DOT] + parts[1]),
    ) {
        Err(VerifyFailure::InvalidSignature)
    } else {
        match base64url_decoded(parts[1]) {
            None => Err(VerifyFailure::MalformedFormat),
            Some(payload) => match claims_of_json(payload) {
                None => Err(VerifyFailure::MalformedClaims),
                Some(c) => if c.expires_at < now {
                    Err(VerifyFailure::Expired)
                } else {
                    Ok(c)
                },
            },
        }
    }
}

/// The mathematical value of a verification result.
pub open spec fn outcome(r: Result<Claims, VerifyFailure>) -> Result<ClaimsView, VerifyFailure> {
    match r {
        Ok(claims) => Ok(claims@),
        Err(e) => Err(e),
    }
}

/// A base64url text holds no dot and no byte outside ASCII.
proof fn lemma_alphabet_text(text: Seq<u8>)
    requires
        is_alphabet_text(text),
    ensures
        free_of(text, DOT),
        is_ascii_bytes(text),
{
}

/// What verification gives for three dot-free segments whose signature
/// segment decodes to `tag`.
proof fn lemma_verification_of_segments(
    head: Seq<u8>,
    body: Seq<u8>,
    sig: Seq<u8>,
    tag: Seq<u8>,
    key: Seq<u8>,
    now: i64,
)
    requires
        free_of(head, DOT),
        free_of(body, DOT),
        free_of(sig, DOT),
        base64url_decoded(sig) == Some(tag),
    ensures
        tag != hmac_sha256(key, head + seq![DOT] + body) ==> verification(
            join3(head, body, sig, DOT),
            key,
            now,
        ) == Err::<ClaimsView, VerifyFailure>(VerifyFailure::InvalidSignature),
        tag == hmac_sha256(key, head + seq![DOT] + body) ==> verification(
            join3(head, body, sig, DOT),
            key,
            now,
        ) == match base64url_decoded(body) {
            None => Err::<ClaimsView, VerifyFailure>(VerifyFailure::MalformedFormat),
            Some(payload) => match claims_of_json(payload) {
                None => Err(VerifyFailure::MalformedClaims),
                Some(c) => if c.expires_at < now {
                    Err(VerifyFailure::Expired)
                } else {
                    Ok(c)
                },
            },
        },
{
    lemma_split_join3(head, body, sig, DOT);
}

/// The header is not empty.
proof fn lemma_header_not_empty()
    ensures
        header_bytes().len() > 0,
{
    reveal_strlit("{\"alg\":\"HS256\",\"typ\":\"https://youtu.be/xvFZjo5PgG0\"}");
    let chars = HEADER_JSON@;
    assert(chars.len() > 0);
    assert(encode_utf8(chars) == encode_scalar(chars[0] as u32) + encode_utf8(chars.drop_first()));
}

/// The written form of claims is not empty.
proof fn lemma_claims_json_not_empty(c: ClaimsView)
    ensures
        claims_json(c).len() > 0,
{
}

/// Builds the token for `claims` under `key`.
///
/// The token splits at its dots into exactly its three segments and has
/// the shape of an issued token. Read back under the same key it gives the
/// same claims at every time up to and including `expires_at`, and
/// `Expired` after it. Read back under any key that gives the signed text
/// another tag, it gives `InvalidSignature`.
pub fn encode(claims: &Claims, key: &SigningKey) -> (token: String)
    ensures
        encode_utf8(token@) == token_bytes(claims@, key@),
        split(token_bytes(claims@, key@), DOT) == segments(claims@, key@),
        well_shaped(token_bytes(claims@, key@)),
        forall|now: i64|
            #[trigger] verification(token_bytes(claims@, key@), key@, now) == if claims.expires_at
                < now {
                Err::<ClaimsView, VerifyFailure>(VerifyFailure::Expired)
            } else {
                Ok(claims@)
            },
        forall|other: Seq<u8>, now: i64|
            hmac_sha256(other, signing_input(claims@)) != hmac_sha256(
                key@,
                signing_input(claims@),
            ) ==> #[trigger] verification(token_bytes(claims@, key@), other, now) == Err::<
                ClaimsView,
                VerifyFailure,
            >(VerifyFailure::InvalidSignature),
{
    let head = base64url::encode(HEADER_JSON.as_bytes());
    let json = write_claims(claims);
    let body = base64url::encode(json.as_slice());
    let mut out: Vec<u8> = Vec::new();
    append(&mut out, head.as_slice());
    out.push(DOT);
    append(&mut out, body.as_slice());
    assert(out@ == signing_input(claims@));
    let tag = sign(out.as_slice(), key);
    let sig = base64url::encode(tag.as_slice());
    out.push(DOT);
    append(&mut out, sig.as_slice());
    proof {
        let c = claims@;
        let whole = token_bytes(c, key@);
        assert(out@ == whole);
        assert(whole == join3(head@, body@, sig@, DOT));
        lemma_alphabet_text(head@);
        lemma_alphabet_text(body@);
        lemma_alphabet_text(sig@);
        lemma_split_join3(head@, body@, sig@, DOT);
        lemma_header_not_empty();
        lemma_claims_json_not_empty(c);
        lemma_claims_of_json(c);
        assert forall|now: i64|
            #[trigger] verification(whole, key@, now) == if c.expires_at < now {
                Err::<ClaimsView, VerifyFailure>(VerifyFailure::Expired)
            } else {
                Ok(c)
            } by {
            lemma_verification_of_segments(head@, body@, sig@, tag@, key@, now);
        }
        assert forall|other: Seq<u8>, now: i64|
            hmac_sha256(other, signing_input(c)) != hmac_sha256(
                key@,
                signing_input(c),
            ) implies #[trigger] verification(whole, other, now) == Err::<
            ClaimsView,
            VerifyFailure,
        >(VerifyFailure::InvalidSignature) by {
            lemma_verification_of_segments(head@, body@, sig@, tag@, other, now);
        }
        assert(is_ascii_bytes(out@));
    }
    ascii_string(out)
}

/// Checks `token` under `key` at time `now`.
///
/// Besides the result of [`verification`]: whatever stands in the
/// signature segment of a three-segment token, other than the base64url
/// text of the tag of the first two segments, gives `InvalidSignature`.
pub fn decode_and_verify_bytes(token: &[u8], key: &SigningKey, now: i64) -> (r: Result<
    Claims,
    VerifyFailure,
>)
    ensures
        outcome(r) == verification(token@, key@, now),
        ({
            let parts = split(token@, DOT);
            parts.len() == 3 && parts[2] != base64url(
                hmac_sha256(key@, parts[0] + seq![DOT] + parts[1]),
            ) ==> r == Err::<Claims, VerifyFailure>(VerifyFailure::InvalidSignature)
        }),
{
    let n: usize = token.len();
    let (first, second) = match three_pieces(token, DOT) {
        Some(dots) => dots,
        None => {
            return Err(VerifyFailure::MalformedFormat);
        },
    };
    let signed = slice_subrange(token, 0, second);
    let body = slice_subrange(token, first + 1, second);
    let sig = slice_subrange(token, second + 1, n);
    proof {
        let parts = split(token@, DOT);
        assert(parts[0] + seq![DOT] + parts[1] == signed@);
        assert(parts[1] == body@);
        assert(parts[2] == sig@);
    }
    let tag = sign(signed, key);
    let genuine = match base64url::decode(sig) {
        Some(given) => constant_time_eq(given.as_slice(), tag.as_slice()),
        None => false,
    };
    if !genuine {
        return Err(VerifyFailure::InvalidSignature);
    }
    let payload = match base64url::decode(body) {
        Some(bytes) => bytes,
        None => {
            return Err(VerifyFailure::MalformedFormat);
        },
    };
    let claims = match parse_claims(payload.as_slice()) {
        Some(found) => found,
        None => {
            return Err(VerifyFailure::MalformedClaims);
        },
    };
    if claims.expires_at < now {
        Err(VerifyFailure::Expired)
    } else {
        Ok(claims)
    }
}

/// Checks the token string `token` under `key` at time `now`.
pub fn decode_and_verify(token: &str, key: &SigningKey, now: i64) -> (r: Result<
    Claims,
    VerifyFailure,
>)
    ensures
        outcome(r) == verification(encode_utf8(token@), key@, now),
        ({
            let parts = split(encode_utf8(token@), DOT);
            parts.len() == 3 && parts[2] != base64url(
                hmac_sha256(key@, parts[0] + seq![DOT] + parts[1]),
            ) ==> r == Err::<Claims, VerifyFailure>(VerifyFailure::InvalidSignature)
        }),
{
    decode_and_verify_bytes(token.as_bytes(), key, now)
}

/// The report on a token: whether it was accepted, the reason in words,
/// and the subject of an accepted token.
#[derive(Debug, Clone, PartialEq, Eq)]
pub struct VerifyJwt {
    pub result: bool,
    pub reason: String,
    pub user_id: Option<i64>,
}

impl VerifyJwt {
    /// The subject of an accepted token, and 0 where there is none.
    pub fn extract_user_id(&self) -> (id: i64)
        ensures
            id == match self.user_id {
                Some(subject) => subject,
                None => 0,
            },
    {
        match self.user_id {
            Some(subject) => subject,
            None => 0,
        }
    }

    /// The report on a check that ended with `checked`.
    pub fn from_outcome(checked: &Result<Claims, VerifyFailure>) -> (report: VerifyJwt)
        ensures
            reports(report, outcome(*checked)),
    {
        match checked {
            Ok(claims) => VerifyJwt {
                result: true,
                reason: String::from_str("Ok"),
                user_id: Some(claims.subject_id),
            },
            Err(e) => VerifyJwt {
                result: false,
                reason: String::from_str(e.reason()),
                user_id: None,
            },
        }
    }
}

/// `report` is the report on a check that ended with `checked`: an
/// accepted token is reported with the reason `Ok` and its subject, a
/// rejected one with the words for its failure and no subject.
pub open spec fn reports(report: VerifyJwt, checked: Result<ClaimsView, VerifyFailure>) -> bool {
    match checked {
        Ok(c) => report.result && report.reason@ == "Ok"@ && report.user_id == Some(c.subject_id),
        Err(e) => !report.result && report.reason@ == e.reason_text() && report.user_id is None,
    }
}

/// Checks the token string `token` under `key` at the present time and
/// reports on it.
///
/// The clock is read from outside, so the contract holds for whatever time
/// it gave: the report is the report on the check at some time.
pub fn verify_jwt(token: &str, key: &SigningKey) -> (report: VerifyJwt)
    ensures
        exists|now: i64| reports(report, #[trigger] verification(encode_utf8(token@), key@, now)),
{
    let now = unix_now();
    let checked = decode_and_verify(token, key, now);
    let report = VerifyJwt::from_outcome(&checked);
    assert(reports(report, verification(encode_utf8(token@), key@, now)));
    report
}

/// The claims of a token that passes every check but the one of its
/// expiry: what checking it at the earliest time of all gives.
pub open spec fn signed_claims(token: Seq<u8>, key: Seq<u8>) -> Option<ClaimsView> {
    match verification(token, key, i64::MIN) {
        Ok(c) => Some(c),
        Err(_) => None,
    }
}

/// The time of the check matters through the expiry alone. A token that
/// carries signed claims is accepted, with those claims, at every time up
/// to and including their `expires_at`, and is `Expired` at every later
/// time. Any other token fails at every time in the same way, and that
/// way is not `Expired`.
pub proof fn lemma_expiry_boundary(token: Seq<u8>, key: Seq<u8>, now: i64)
    ensures
        match signed_claims(token, key) {
            Some(c) => verification(token, key, now) == if c.expires_at < now {
                Err::<ClaimsView, VerifyFailure>(VerifyFailure::Expired)
            } else {
                Ok(c)
            },
            None => {
                &&& verification(token, key, now) == verification(token, key, i64::MIN)
                &&& verification(token, key, now) is Err
                &&& verification(token, key, now) != Err::<ClaimsView, VerifyFailure>(
                    VerifyFailure::Expired,
                )
            },
        },
{
}

} // verus!

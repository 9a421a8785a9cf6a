//! The authentication gate: the stage of the request pipeline that lets a
//! request pass only with a valid bearer token, and binds the subject of
//! that token to the request.
//!
//! This stage reads and decides; it never touches the refresh store.

use crate::clock::unix_now;
use crate::response::{Resp, STATUS_UNAUTHORIZED};
use crate::signer::SigningKey;
use crate::text::{chars_of, trimmed, trimmed_tail};
use crate::token::{decode_and_verify, verification, VerifyFailure};
use vstd::prelude::*;
use vstd::utf8::*;

verus! {

/// Why a request was turned away. Each reason is answered with
/// status 401.
#[derive(Debug, Clone, Copy, PartialEq, Eq)]
pub enum Rejection {
    /// The request has no `Authorization` header.
    MissingAuthorization,
    /// The header does not have the shape `Bearer <token>`.
    BadFormat,
    /// The token was checked and not accepted.
    Token(VerifyFailure),
}

impl Rejection {
    /// The words the request is answered with.
    pub open spec fn message_text(self) -> Seq<char> {
        match self {
            Rejection::MissingAuthorization => "Authorization header is empty"@,
            Rejection::BadFormat => "Invalid token format. Expected: Bearer <token>"@,
            Rejection::Token(e) => e.reason_text(),
        }
    }

    /// The words the request is answered with.
    pub fn message(&self) -> (text: &'static str)
        ensures
            text@ == self.message_text(),
    {
        match self {
            Rejection::MissingAuthorization => "Authorization header is empty",
            Rejection::BadFormat => "Invalid token format. Expected: Bearer <token>",
            Rejection::Token(e) => e.reason(),
        }
    }

    /// The status the request is answered with.
    pub fn status_code(&self) -> (code: u16)
        ensures
            code == STATUS_UNAUTHORIZED,
    {
        STATUS_UNAUTHORIZED
    }
}

/// What is bound to a request that passed: the subject of the token that
/// was accepted. Only `authorize` binds a subject; a handler can read it
/// and nothing else.
#[derive(Debug, Clone, Copy, PartialEq, Eq)]
pub struct RequestContext {
    subject: Option<i64>,
}

impl RequestContext {
    /// The subject bound to the request, if one was bound.
    pub closed spec fn subject(self) -> Option<i64> {
        self.subject
    }

    /// The context of a request that did not pass.
    pub fn anonymous() -> (context: RequestContext)
        ensures
            context.subject() is None,
    {
        RequestContext { subject: None }
    }

    /// The subject bound to the request, if one was bound.
    pub fn bound_subject(&self) -> (subject: Option<i64>)
        ensures
            subject == self.subject(),
    {
        self.subject
    }
}

/// Reading the subject off a request.
pub trait JwtExt {
    /// The subject bound to the request, and 0 where none is bound.
    fn user_id(&self) -> i64;
}

impl JwtExt for RequestContext {
    fn user_id(&self) -> (id: i64)
        ensures
            id == match self.subject() {
                Some(subject) => subject,
                None => 0,
            },
    {
        match self.subject {
            Some(subject) => subject,
            None => 0,
        }
    }
}

/// The subject of a request, as a handler receives it.
#[derive(Debug, Clone, Copy, PartialEq, Eq)]
pub struct UserId(pub i64);

impl UserId {
    /// The subject's number.
    pub fn get(&self) -> (id: i64)
        ensures
            id == self.0,
    {
        self.0
    }

    /// The subject of a request for a handler; a request with no subject,
    /// or with subject 0, is answered with status 401 and `Invalid user ID`.
    pub fn from_context(context: &RequestContext) -> (r: Result<UserId, (u16, &'static str)>)
        ensures
            match r {
                Ok(user) => context.subject() == Some(user.0) && user.0 != 0,
                Err(refusal) => {
                    &&& context.subject() is None || context.subject() == Some(0i64)
                    &&& refusal.0 == STATUS_UNAUTHORIZED
                    &&& refusal.1@ == "Invalid user ID"@
                },
            },
    {
        let id = context.user_id();
        if id == 0 {
            Err((STATUS_UNAUTHORIZED, "Invalid user ID"))
        } else {
            Ok(UserId(id))
        }
    }
}

/// The text `Bearer ` that an authorization header starts with.
pub open spec fn bearer_prefix() -> Seq<char> {
    seq!['B', 'e', 'a', 'r', 'e', 'r', ' ']
}

/// The token in an authorization header: what follows `Bearer `, without
/// the white space around it; `None` where the header starts otherwise.
pub open spec fn bearer_token(header: Seq<char>) -> Option<Seq<char>> {
    if bearer_prefix().is_prefix_of(header) {
        Some(trimmed(header.skip(7)))
    } else {
        None
    }
}

/// The token that a request presents, or the reason for turning the
/// request away before any token is looked at: it has no `Authorization`
/// header, or one of the wrong shape.
pub open spec fn presented_token(authorization: Option<Seq<char>>) -> Result<
    Seq<char>,
    Rejection,
> {
    match authorization {
        None => Err(Rejection::MissingAuthorization),
        Some(header) => match bearer_token(header) {
            None => Err(Rejection::BadFormat),
            Some(token) => Ok(token),
        },
    }
}

/// What is decided on a request with the given `Authorization`
/// header, if it has one: the subject of an accepted token, or the reason
/// for turning the request away. A header of the wrong shape is turned
/// away whatever the key and the time are.
pub open spec fn admission(authorization: Option<Seq<char>>, key: Seq<u8>, now: i64) -> Result<
    i64,
    Rejection,
> {
    match presented_token(authorization) {
        Err(e) => Err(e),
        Ok(token) => match verification(encode_utf8(token), key, now) {
            Ok(c) => Ok(c.subject_id),
            Err(e) => Err(Rejection::Token(e)),
        },
    }
}

/// `refusal` is the answer to a request that was turned away for
/// `rejection`: status 401 and an envelope with the words of the
/// rejection and no data.
pub open spec fn answers(refusal: (u16, Resp<String>), rejection: Rejection) -> bool {
    &&& refusal.0 == STATUS_UNAUTHORIZED
    &&& refusal.1.msg@ == rejection.message_text()
    &&& refusal.1.data is None
    &&& !refusal.1.success
}

/// A header of the wrong shape is turned away whatever the key and the
/// time are: no token is looked at.
pub proof fn lemma_bad_format_needs_no_token(
    header: Seq<char>,
    key: Seq<u8>,
    now: i64,
    other_key: Seq<u8>,
    other_time: i64,
)
    ensures
        admission(Some(header), key, now) == Err::<i64, Rejection>(Rejection::BadFormat)
            <==> bearer_token(header) is None,
        admission(Some(header), key, now) == Err::<i64, Rejection>(Rejection::BadFormat)
            ==> admission(Some(header), other_key, other_time) == Err::<i64, Rejection>(
            Rejection::BadFormat,
        ),
{
}

/// The characters of a header that may be absent.
pub open spec fn header_text(authorization: Option<&str>) -> Option<Seq<char>> {
    match authorization {
        Some(header) => Some(header@),
        None => None,
    }
}

/// Tells whether `header` starts with `Bearer `.
fn has_bearer_prefix(header: &Vec<char>) -> (found: bool)
    ensures
        found == bearer_prefix().is_prefix_of(header@),
{
    let prefix: [char; 7] = ['B', 'e', 'a', 'r', 'e', 'r', ' '];
    assert(prefix@ == bearer_prefix());
    if header.len() < 7 {
        return false;
    }
    let mut i: usize = 0;
    while i < 7
        invariant
            i <= 7,
            prefix@ == bearer_prefix(),
            header@.len() >= 7,
            forall|j: int| 0 <= j < i ==> header@[j] == bearer_prefix()[j],
        decreases 7 - i,
    {
        if header[i] != prefix[i] {
            assert(header@.subrange(0, 7)[i as int] != bearer_prefix()[i as int]);
            return false;
        }
        i = i + 1;
    }
    assert(header@.subrange(0, 7) == bearer_prefix());
    true
}

/// Finds the token that a request presents. A request without a header,
/// or with a header that does not start with `Bearer `, is turned away
/// here, before any token is looked at.
pub fn bearer_of<'a>(authorization: Option<&'a str>) -> (r: Result<&'a str, Rejection>)
    ensures
        match r {
            Ok(token) => presented_token(header_text(authorization)) == Ok::<
                Seq<char>,
                Rejection,
            >(token@),
            Err(e) => presented_token(header_text(authorization)) == Err::<Seq<char>, Rejection>(
                e,
            ),
        },
{
    let header = match authorization {
        Some(text) => text,
        None => {
            return Err(Rejection::MissingAuthorization);
        },
    };
    let chars = chars_of(header);
    if !has_bearer_prefix(&chars) {
        return Err(Rejection::BadFormat);
    }
    Ok(trimmed_tail(header, 7))
}

/// Checks a presented token at time `now` and binds its subject.
fn check_presented(token: &str, key: &SigningKey, now: i64) -> (r: Result<
    RequestContext,
    Rejection,
>)
    ensures
        match r {
            Ok(context) => context.subject() matches Some(id) && verification(
                encode_utf8(token@),
                key@,
                now,
            ) matches Ok(c) && c.subject_id == id,
            Err(e) => verification(encode_utf8(token@), key@, now) matches Err(failure) && e
                == Rejection::Token(failure),
        },
{
    match decode_and_verify(token, key, now) {
        Ok(claims) => Ok(RequestContext { subject: Some(claims.subject_id) }),
        Err(e) => Err(Rejection::Token(e)),
    }
}

/// Decides on a request with the given `Authorization` header at time
/// `now`.
///
/// A request that passes gets a context with the subject of its token
/// bound; the others get the reason they were turned away for.
pub fn authorize(authorization: Option<&str>, key: &SigningKey, now: i64) -> (r: Result<
    RequestContext,
    Rejection,
>)
    ensures
        match r {
            Ok(context) => context.subject() matches Some(id) && admission(
                header_text(authorization),
                key@,
                now,
            ) == Ok::<i64, Rejection>(id),
            Err(e) => admission(header_text(authorization), key@, now) == Err::<i64, Rejection>(e),
        },
{
    match bearer_of(authorization) {
        Ok(token) => check_presented(token, key, now),
        Err(e) => Err(e),
    }
}

/// The stage as the request pipeline runs it: decides on a request at the
/// present time, and words the answer to a request that is turned away.
///
/// A request without a header, or with a header of the wrong shape, is
/// turned away at once with the answer for that: neither the clock nor the
/// token codec is touched. Only for a request that presents a token is the
/// clock read, and for it the contract holds for whatever time the clock
/// gave.
pub fn middleware_auth(authorization: Option<&str>, key: &SigningKey) -> (r: Result<
    RequestContext,
    (u16, Resp<String>),
>)
    ensures
        presented_token(header_text(authorization)) matches Err(e) ==> r matches Err(refusal)
            && answers(refusal, e),
        exists|now: i64|
            match (r, #[trigger] admission(header_text(authorization), key@, now)) {
                (Ok(context), Ok(id)) => context.subject() == Some(id),
                (Err(refusal), Err(e)) => answers(refusal, e),
                _ => false,
            },
{
    let token = match bearer_of(authorization) {
        Ok(token) => token,
        Err(e) => {
            assert(admission(header_text(authorization), key@, 0) == Err::<i64, Rejection>(e));
            return Err((e.status_code(), Resp::error(e.message())));
        },
    };
    let now = unix_now();
    let ghost decided = admission(header_text(authorization), key@, now);
    match check_presented(token, key, now) {
        Ok(context) => {
            assert(decided is Ok);
            Ok(context)
        },
        Err(e) => {
            assert(decided == Err::<i64, Rejection>(e));
            Err((e.status_code(), Resp::error(e.message())))
        },
    }
}

} // verus!

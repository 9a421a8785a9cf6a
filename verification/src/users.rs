//! Registering users and looking them up: what each request asks of the
//! storage, and what it is answered with.

use crate::avatar::{avatar_address, generate_avatar, AvatarType};
use crate::password::{argon2_hash, argon2_hashed};
use crate::salt::fresh_salt;
use crate::response::{Resp, STATUS_BAD_REQUEST, STATUS_INTERNAL_SERVER_ERROR, STATUS_OK};
use crate::text::{chars_of, trimmed, trimmed_tail};
use vstd::prelude::*;
use vstd::string::StringExecFns;
use vstd::string::StringSliceAdditionalSpecFns;
use vstd::utf8::*;

verus! {

/// The body of a registration request.
#[derive(Debug, Clone)]
pub struct UserRegistration {
    pub nickname: String,
    pub email: String,
    pub password: String,
    pub avatar: Option<String>,
}

/// The body of a request that asks whether an e-mail address and a
/// nickname are free.
#[derive(Debug, Clone)]
pub struct CheckParams {
    pub email: Option<String>,
    pub nickname: Option<String>,
}

/// A nickname found for a tag.
#[derive(Debug, Clone, PartialEq, Eq)]
pub struct Nickname {
    pub nickname: String,
}

/// The user to store for a registration.
#[derive(Debug, Clone)]
pub struct NewUser {
    pub email: String,
    pub nickname: String,
    pub password_hash: String,
    pub avatar: String,
}

/// The avatar a registration gets: the one it names, else the default
/// avatar drawn from the nickname.
pub open spec fn chosen_avatar(nickname: Seq<char>, avatar: Option<String>) -> Seq<char> {
    match avatar {
        Some(given) => given@,
        None => avatar_address(nickname, AvatarType::Identicon),
    }
}

/// What a registration is answered with once its password was hashed:
/// `hashed` is the hash, or `None` where the hashing failed.
pub open spec fn registration_of(params: UserRegistration, hashed: Option<Seq<char>>) -> Result<
    NewUserView,
    (u16, Seq<char>),
> {
    match hashed {
        Some(hash) => Ok(
            NewUserView {
                email: params.email@,
                nickname: params.nickname@,
                password_hash: hash,
                avatar: chosen_avatar(params.nickname@, params.avatar),
            },
        ),
        None => Err((STATUS_INTERNAL_SERVER_ERROR, "Failed to hash password"@)),
    }
}

/// The mathematical value of a [`NewUser`].
pub struct NewUserView {
    pub email: Seq<char>,
    pub nickname: Seq<char>,
    pub password_hash: Seq<char>,
    pub avatar: Seq<char>,
}

impl View for NewUser {
    type V = NewUserView;

    open spec fn view(&self) -> NewUserView {
        NewUserView {
            email: self.email@,
            nickname: self.nickname@,
            password_hash: self.password_hash@,
            avatar: self.avatar@,
        }
    }
}

/// The mathematical value of the result of a registration.
pub open spec fn registration_view(r: Result<NewUser, (u16, &'static str)>) -> Result<
    NewUserView,
    (u16, Seq<char>),
> {
    match r {
        Ok(user) => Ok(user@),
        Err(refusal) => Err((refusal.0, refusal.1@)),
    }
}

/// The user to store for a registration whose password was hashed to
/// `hashed`; the avatar is the one the registration names, else the
/// default one. A hashing that failed is answered with status 500 and
/// `Failed to hash password`.
pub fn registration(params: UserRegistration, hashed: Option<String>) -> (r: Result<
    NewUser,
    (u16, &'static str),
>)
    ensures
        registration_view(r) == registration_of(
            params,
            match hashed {
                Some(hash) => Some(hash@),
                None => None,
            },
        ),
{
    let password_hash = match hashed {
        Some(hash) => hash,
        None => {
            return Err((STATUS_INTERNAL_SERVER_ERROR, "Failed to hash password"));
        },
    };
    let avatar = match params.avatar {
        Some(given) => given,
        None => generate_avatar(params.nickname.clone(), AvatarType::Identicon),
    };
    Ok(NewUser { email: params.email, nickname: params.nickname, password_hash, avatar })
}

/// Prepares the user to store for a registration: hashes the password
/// with a fresh random salt and settles the avatar.
///
/// The salt is read from outside, so the contract holds for whatever it
/// was: the result is what [`registration`] gives for the hash of the
/// password with some salt.
pub fn register_user(params: UserRegistration) -> (r: Result<NewUser, (u16, &'static str)>)
    ensures
        exists|salt: Seq<char>|
            registration_view(r) == registration_of(
                params,
                #[trigger] argon2_hashed(encode_utf8(params.password@), salt),
            ),
{
    let salt = fresh_salt();
    let hashed = argon2_hash(params.password.as_str().as_bytes(), salt.as_str());
    let ghost password = encode_utf8(params.password@);
    let r = registration(params, hashed);
    assert(registration_view(r) == registration_of(params, argon2_hashed(password, salt@)));
    r
}

/// Why a request to check an e-mail address and a nickname is refused.
#[derive(Debug, Clone, Copy, PartialEq, Eq)]
pub enum CheckRefusal {
    /// Neither an e-mail address nor a nickname is given.
    EmptyBody,
    /// The e-mail address is missing.
    EmailRequired,
    /// The nickname is missing.
    NicknameRequired,
}

impl CheckRefusal {
    /// The words the refusal is answered with, under status 400.
    pub fn message(&self) -> (text: &'static str)
        ensures
            text@ == match self {
                CheckRefusal::EmptyBody => "body can't be empty"@,
                CheckRefusal::EmailRequired => "Email is required"@,
                CheckRefusal::NicknameRequired => "Nickname is required"@,
            },
    {
        match self {
            CheckRefusal::EmptyBody => "body can't be empty",
            CheckRefusal::EmailRequired => "Email is required",
            CheckRefusal::NicknameRequired => "Nickname is required",
        }
    }

    /// The status the refusal is answered with.
    pub fn status_code(&self) -> (code: u16)
        ensures
            code == STATUS_BAD_REQUEST,
    {
        STATUS_BAD_REQUEST
    }
}

/// The e-mail address and the nickname to look up for a check, or why the
/// request is refused: both must be given.
pub fn check_available(params: CheckParams) -> (r: Result<(String, String), CheckRefusal>)
    ensures
        match (params.email, params.nickname) {
            (None, None) => r == Err::<(String, String), CheckRefusal>(CheckRefusal::EmptyBody),
            (None, Some(_)) => r == Err::<(String, String), CheckRefusal>(
                CheckRefusal::EmailRequired,
            ),
            (Some(_), None) => r == Err::<(String, String), CheckRefusal>(
                CheckRefusal::NicknameRequired,
            ),
            (Some(email), Some(nickname)) => r == Ok::<(String, String), CheckRefusal>(
                (email, nickname),
            ),
        },
{
    match (params.email, params.nickname) {
        (None, None) => Err(CheckRefusal::EmptyBody),
        (None, Some(_)) => Err(CheckRefusal::EmailRequired),
        (Some(_), None) => Err(CheckRefusal::NicknameRequired),
        (Some(email), Some(nickname)) => Ok((email, nickname)),
    }
}

/// The answer to a check once the storage was asked: status 200 either
/// way, a success where nobody has the address or the nickname, a failure
/// where somebody has.
pub fn availability_answer(taken: bool) -> (r: (u16, Resp<()>))
    ensures
        r.0 == STATUS_OK,
        r.1.data is None,
        r.1.success == !taken,
        r.1.msg@ == if taken {
            "user already exist"@
        } else {
            "user not found"@
        },
{
    if taken {
        (STATUS_OK, Resp::error("user already exist"))
    } else {
        Resp::success("user not found", None)
    }
}

/// The search pattern for a tag: a tag is an `@` and a name; the pattern
/// is the name without the white space around it, between two `%`.
pub open spec fn tag_pattern_of(tag: Seq<char>) -> Option<Seq<char>> {
    if tag.len() > 0 && tag[0] == '@' {
        Some(seq!['%'] + trimmed(tag.skip(1)) + seq!['%'])
    } else {
        None
    }
}

/// The search pattern for a tag, or `None` where the text is no tag.
pub fn get_tag(tag: &str) -> (pattern: Option<String>)
    ensures
        match pattern {
            Some(text) => tag_pattern_of(tag@) == Some(text@),
            None => tag_pattern_of(tag@) is None,
        },
{
    let chars = chars_of(tag);
    if chars.len() == 0 || chars[0] != '@' {
        return None;
    }
    let name = trimmed_tail(tag, 1);
    proof {
        reveal_strlit("%");
        assert("%"@ == seq!['%']);
    }
    Some(String::from_str("%").concat(name).concat("%"))
}

} // verus!

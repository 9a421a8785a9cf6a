//! Logging in, exchanging a refresh token, and logging out: what each
//! request is answered with once the storage has been asked.
//!
//! Reading and writing the storage is the caller's part. The functions
//! here take what the storage gave and decide.

use crate::password::{argon2_accepts, argon2_check};
use crate::response::{
    Resp, STATUS_BAD_REQUEST, STATUS_INTERNAL_SERVER_ERROR, STATUS_OK, STATUS_UNAUTHORIZED,
};
use crate::store::InvalidationOutcome;
use crate::session::{generate_jwt, issued_at_some_time, pair_bytes, GenerateJWt};
use crate::signer::SigningKey;
use crate::token::well_shaped;
use vstd::prelude::*;
use vstd::string::StringExecFns;
use vstd::string::StringSliceAdditionalSpecFns;
use vstd::utf8::*;

verus! {

/// The body of a login request.
#[derive(Debug, Clone)]
pub struct UserLogin {
    pub email: String,
    pub password: String,
}

/// What a login reads of a stored user: the id, and the password hash if
/// the user has one.
#[derive(Debug, Clone)]
pub struct Account {
    pub id: i64,
    pub password: Option<String>,
}

/// The data of the answer to a login that succeeded: the user as the
/// storage gave it, and the two tokens.
#[derive(Debug)]
pub struct LoginResponse<U> {
    pub user: Option<U>,
    pub token: String,
    pub refresh_token: String,
}

/// The body of a logout request.
#[derive(Debug, Clone)]
pub struct LogoutRequest {
    pub refresh_token: String,
}

/// The data of the answer to a refresh request that succeeded.
#[derive(Debug, Clone, PartialEq, Eq)]
pub struct RefreshTokenResponse {
    pub token: String,
    pub refresh_token: String,
}

/// Why a login was refused.
///
/// Which of the three failures of authentication it was is for the
/// server's log alone: the client gets the same answer for all three, so
/// that an answer never tells whether an account exists.
#[derive(Debug, Clone, Copy, PartialEq, Eq)]
pub enum LoginRefusal {
    /// The e-mail address or the password is empty.
    MissingCredentials,
    /// The storage has no such user.
    UserNotFound,
    /// The user has no password hash, or one that cannot be read.
    AuthenticationError,
    /// The password is not the user's.
    WrongPassword,
    /// The password was right and no token could be issued.
    TokenError,
}

impl LoginRefusal {
    /// The refusal is a failure of authentication: an unknown user, a
    /// wrong password, or a hash that cannot be read.
    pub open spec fn is_authentication_failure(self) -> bool {
        self == LoginRefusal::UserNotFound || self == LoginRefusal::WrongPassword || self
            == LoginRefusal::AuthenticationError
    }

    /// The status the refusal is answered with.
    pub open spec fn status(self) -> u16 {
        match self {
            LoginRefusal::MissingCredentials => STATUS_BAD_REQUEST,
            LoginRefusal::UserNotFound => STATUS_UNAUTHORIZED,
            LoginRefusal::AuthenticationError => STATUS_UNAUTHORIZED,
            LoginRefusal::WrongPassword => STATUS_UNAUTHORIZED,
            LoginRefusal::TokenError => STATUS_INTERNAL_SERVER_ERROR,
        }
    }

    /// The words the refusal is answered with.
    pub open spec fn message_text(self) -> Seq<char> {
        match self {
            LoginRefusal::MissingCredentials => "Email and password are required"@,
            LoginRefusal::UserNotFound => "Invalid credentials"@,
            LoginRefusal::AuthenticationError => "Invalid credentials"@,
            LoginRefusal::WrongPassword => "Invalid credentials"@,
            LoginRefusal::TokenError => "Failed to generate tokens"@,
        }
    }

    /// The status the refusal is answered with: 400 for missing
    /// credentials, 401 for every failure of authentication, 500 where no
    /// token could be issued.
    pub fn status_code(&self) -> (code: u16)
        ensures
            code == self.status(),
    {
        match self {
            LoginRefusal::MissingCredentials => STATUS_BAD_REQUEST,
            LoginRefusal::UserNotFound => STATUS_UNAUTHORIZED,
            LoginRefusal::AuthenticationError => STATUS_UNAUTHORIZED,
            LoginRefusal::WrongPassword => STATUS_UNAUTHORIZED,
            LoginRefusal::TokenError => STATUS_INTERNAL_SERVER_ERROR,
        }
    }

    /// The words the refusal is answered with: the same for every failure
    /// of authentication.
    pub fn message(&self) -> (text: &'static str)
        ensures
            text@ == self.message_text(),
    {
        match self {
            LoginRefusal::MissingCredentials => "Email and password are required",
            LoginRefusal::UserNotFound => "Invalid credentials",
            LoginRefusal::AuthenticationError => "Invalid credentials",
            LoginRefusal::WrongPassword => "Invalid credentials",
            LoginRefusal::TokenError => "Failed to generate tokens",
        }
    }

    /// The answer to the login that was refused: the refusal's status and
    /// an envelope with its words and no data.
    pub fn answer<U>(&self) -> (r: (u16, Resp<LoginResponse<U>>))
        ensures
            r.0 == self.status(),
            r.1.msg@ == self.message_text(),
            r.1.data is None,
            !r.1.success,
    {
        (self.status_code(), Resp::error(self.message()))
    }
}

/// Every failure of authentication is answered alike, with status 401 and
/// the same words: the answer to a login does not tell an unknown address
/// from a wrong password.
pub proof fn lemma_authentication_failures_look_alike(a: LoginRefusal, b: LoginRefusal)
    requires
        a.is_authentication_failure(),
        b.is_authentication_failure(),
    ensures
        a.status() == STATUS_UNAUTHORIZED,
        a.status() == b.status(),
        a.message_text() == b.message_text(),
{
}

/// The answer to a login that succeeded: status 200 and an envelope with
/// `Login Success`, the user as the storage gave it and the two tokens of
/// the pair.
pub fn login_success<U>(pair: GenerateJWt, user: U) -> (r: (u16, Resp<LoginResponse<U>>))
    ensures
        r.0 == STATUS_OK,
        r.1.msg@ == "Login Success"@,
        r.1.success,
        r.1.data matches Some(data) && data.user == Some(user) && data.token == pair.token
            && data.refresh_token == pair.refresh_token,
{
    Resp::success(
        "Login Success",
        Some(
            LoginResponse {
                user: Some(user),
                token: pair.token,
                refresh_token: pair.refresh_token,
            },
        ),
    )
}

/// The answer to a logout once the storage was asked to clear the
/// presented refresh token: a success where the token was the stored one,
/// and status 401 with `Invalid session` where it was not.
pub fn logout_answer(outcome: InvalidationOutcome) -> (r: (u16, Resp<()>))
    ensures
        r.1.data is None,
        match outcome {
            InvalidationOutcome::Invalidated => r.0 == STATUS_OK && r.1.success && r.1.msg@
                == "User logged out successfully"@,
            InvalidationOutcome::NoMatchOrAlreadyInvalid => r.0 == STATUS_UNAUTHORIZED
                && !r.1.success && r.1.msg@ == "Invalid session"@,
        },
{
    match outcome {
        InvalidationOutcome::Invalidated => Resp::success("User logged out successfully", None),
        InvalidationOutcome::NoMatchOrAlreadyInvalid => (
            STATUS_UNAUTHORIZED,
            Resp::error("Invalid session"),
        ),
    }
}

impl UserLogin {
    /// Both the e-mail address and the password are given. A request that
    /// lacks one is refused before the storage is asked.
    pub fn credentials_present(&self) -> (present: bool)
        ensures
            present == (self.email@.len() > 0 && self.password@.len() > 0),
    {
        !self.email.as_str().is_empty() && !self.password.as_str().is_empty()
    }
}

/// What the check of a password against a stored hash means for a login:
/// `checked` is `None` for a hash that cannot be read, else whether the
/// password was accepted.
pub fn password_verdict(checked: Option<bool>) -> (r: Result<(), LoginRefusal>)
    ensures
        r == password_verdict_of(checked),
{
    match checked {
        None => Err(LoginRefusal::AuthenticationError),
        Some(false) => Err(LoginRefusal::WrongPassword),
        Some(true) => Ok(()),
    }
}

/// What the check of a password against a stored hash means for a login.
pub open spec fn password_verdict_of(checked: Option<bool>) -> Result<(), LoginRefusal> {
    match checked {
        None => Err(LoginRefusal::AuthenticationError),
        Some(false) => Err(LoginRefusal::WrongPassword),
        Some(true) => Ok(()),
    }
}

/// Whose session a login starts, or why it is refused, before any token is
/// issued. `account` is what the storage holds for the e-mail address.
pub open spec fn login_decision(
    email: Seq<char>,
    password: Seq<char>,
    account: Option<Account>,
) -> Result<i64, LoginRefusal> {
    if email.len() == 0 || password.len() == 0 {
        Err(LoginRefusal::MissingCredentials)
    } else {
        match account {
            None => Err(LoginRefusal::UserNotFound),
            Some(found) => match found.password {
                None => Err(LoginRefusal::AuthenticationError),
                Some(hash) => match password_verdict_of(
                    argon2_accepts(encode_utf8(password), hash@),
                ) {
                    Ok(()) => Ok(found.id),
                    Err(e) => Err(e),
                },
            },
        }
    }
}

/// A login with an unknown address and a login with a known address and a
/// wrong password, both with credentials given, are refused with the same
/// status and the same words.
pub proof fn lemma_refused_logins_look_alike(
    email: Seq<char>,
    password: Seq<char>,
    other_email: Seq<char>,
    other_password: Seq<char>,
    account: Account,
)
    requires
        email.len() > 0 && password.len() > 0,
        other_email.len() > 0 && other_password.len() > 0,
    ensures
        login_decision(email, password, None) matches Err(unknown) && unknown.status()
            == STATUS_UNAUTHORIZED,
        login_decision(other_email, other_password, Some(account)) matches Err(refused) ==> {
            let unknown = login_decision(email, password, None)->Err_0;
            refused.status() == unknown.status() && refused.message_text()
                == unknown.message_text()
        },
{
}

/// Decides a login once the storage was asked for the user.
///
/// A login that passes every check gets a fresh token pair for the user;
/// the one failure left then is that no token can be issued, which the
/// clock decides.
pub fn login_by_email(params: &UserLogin, account: Option<&Account>, key: &SigningKey) -> (r:
    Result<GenerateJWt, LoginRefusal>)
    ensures
        match login_decision(
            params.email@,
            params.password@,
            match account {
                Some(found) => Some(*found),
                None => None,
            },
        ) {
            Err(e) => r == Err::<GenerateJWt, LoginRefusal>(e),
            Ok(id) => issued_at_some_time(pair_bytes(r), id, key@) && (r matches Err(e) ==> e
                == LoginRefusal::TokenError),
        },
        r matches Ok(pair) ==> well_shaped(encode_utf8(pair.token@)) && well_shaped(
            encode_utf8(pair.refresh_token@),
        ),
{
    if !params.credentials_present() {
        return Err(LoginRefusal::MissingCredentials);
    }
    let found = match account {
        Some(found) => found,
        None => {
            return Err(LoginRefusal::UserNotFound);
        },
    };
    let hash = match &found.password {
        Some(hash) => hash,
        None => {
            return Err(LoginRefusal::AuthenticationError);
        },
    };
    let checked = argon2_check(params.password.as_str().as_bytes(), hash.as_str());
    match password_verdict(checked) {
        Ok(()) => {},
        Err(e) => {
            return Err(e);
        },
    }
    let issued = generate_jwt(found.id, key);
    let ghost given = pair_bytes(issued);
    let r = match issued {
        Ok(pair) => Ok(pair),
        Err(_) => Err(LoginRefusal::TokenError),
    };
    assert(pair_bytes(r) == given);
    r
}

/// Why a refresh request was refused.
#[derive(Debug, Clone, Copy, PartialEq, Eq)]
pub enum RefreshRefusal {
    /// No subject holds the presented refresh token.
    InvalidRefreshToken,
    /// The subject was found and no token could be issued.
    TokenError,
}

impl RefreshRefusal {
    /// The status the refusal is answered with: 401 for a token that
    /// nobody holds, 500 where no token could be issued.
    pub fn status_code(&self) -> (code: u16)
        ensures
            code == match self {
                RefreshRefusal::InvalidRefreshToken => STATUS_UNAUTHORIZED,
                RefreshRefusal::TokenError => STATUS_INTERNAL_SERVER_ERROR,
            },
    {
        match self {
            RefreshRefusal::InvalidRefreshToken => STATUS_UNAUTHORIZED,
            RefreshRefusal::TokenError => STATUS_INTERNAL_SERVER_ERROR,
        }
    }

    /// The words the refusal is answered with.
    pub fn message(&self) -> (text: &'static str)
        ensures
            text@ == match self {
                RefreshRefusal::InvalidRefreshToken => "Invalid refresh token"@,
                RefreshRefusal::TokenError => "Failed to generate new tokens"@,
            },
    {
        match self {
            RefreshRefusal::InvalidRefreshToken => "Invalid refresh token",
            RefreshRefusal::TokenError => "Failed to generate new tokens",
        }
    }
}

/// Decides a refresh request once the storage was asked who holds the
/// presented refresh token: the holder gets a fresh token pair, whose
/// refresh token is then to be stored in place of the presented one.
pub fn refresh_token(holder: Option<i64>, key: &SigningKey) -> (r: Result<
    (i64, RefreshTokenResponse),
    RefreshRefusal,
>)
    ensures
        match holder {
            None => r == Err::<(i64, RefreshTokenResponse), RefreshRefusal>(
                RefreshRefusal::InvalidRefreshToken,
            ),
            Some(id) => {
                &&& issued_at_some_time(
                    match r {
                        Ok((_, pair)) => Some(
                            (encode_utf8(pair.token@), encode_utf8(pair.refresh_token@)),
                        ),
                        Err(_) => None,
                    },
                    id,
                    key@,
                )
                &&& r matches Ok((subject, _)) ==> subject == id
                &&& r matches Err(e) ==> e == RefreshRefusal::TokenError
            },
        },
        r matches Ok((_, pair)) ==> well_shaped(encode_utf8(pair.token@)) && well_shaped(
            encode_utf8(pair.refresh_token@),
        ),
{
    let id = match holder {
        Some(id) => id,
        None => {
            return Err(RefreshRefusal::InvalidRefreshToken);
        },
    };
    let issued = generate_jwt(id, key);
    let ghost given = pair_bytes(issued);
    let r = match issued {
        Ok(pair) => Ok(
            (id, RefreshTokenResponse { token: pair.token, refresh_token: pair.refresh_token }),
        ),
        Err(_) => Err(RefreshRefusal::TokenError),
    };
    assert(given == match r {
        Ok((_, pair)) => Some((encode_utf8(pair.token@), encode_utf8(pair.refresh_token@))),
        Err(_) => None,
    });
    r
}

} // verus!
